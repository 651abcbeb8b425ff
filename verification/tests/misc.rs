use watchlist::config::{Config, ACCESS_TOKEN_LENGTH};
use watchlist::credits::{Actor, Credits};
use watchlist::limiter::RateLimiter;
use watchlist::production::{
    EntryType, ListEntry, ListFiltering, ProdEntry, Trailer,
};
use watchlist::movies::{Movie, UserMovie};
use watchlist::score::Score;
use watchlist::selection::Selection;
use watchlist::series::{Series, UserSeries};
use watchlist::themoviedb::{
    bearer, facet_url, get_full_poster_url, imdb_url, movie_details_url, page_url, search_url,
    season_details_url, seasons_url, series_details_url, videos_url, VecMap, Width,
    MOVIE_DETAILS_URL, MOVIE_URL, SERIES_DETAILS_URL, TV_URL,
};
use watchlist::view::{shorten_overview, with_ellipsis, TrailersView};

fn token(length: usize, dots: &[usize]) -> Config {
    let mut config = Config::default();
    config.access_token = (0..length).map(|at| if dots.contains(&at) { '.' } else { 'x' }).collect();
    config
}

fn actor(gender: u32) -> Actor {
    Actor {
        character: String::from("Neo"),
        name: String::from("Keanu Reeves"),
        original_name: String::from("Keanu Reeves"),
        credit_id: 1,
        gender,
        adult: false,
    }
}

fn trailer(key: &str) -> Trailer {
    Trailer {
        name: String::from("Official Trailer"),
        key: String::from(key),
        published_at: String::from("2020-01-01"),
        site: String::from("YouTube"),
        size: 1080,
        official: true,
    }
}

#[test]
fn the_settings_start_with_their_defaults() {
    let config = Config::default();
    assert_eq!(config.access_token, "<Replace this with your TMDB access token>");
    assert!(!config.include_adult);
    assert!(!config.enable_cache);
    assert!(config.load_on_startup);
    assert!(config.save_on_exit);
    assert!(!config.autosave);
    assert_eq!(config.browser_name, "firefox");
}

#[test]
fn a_token_has_211_bytes_and_two_dots() {
    assert_eq!(ACCESS_TOKEN_LENGTH, 211);
    assert!(token(211, &[36, 180]).validate_access_token());
    assert!(token(211, &[0, 210]).validate_access_token());
    assert!(!token(211, &[36]).validate_access_token());
    assert!(!token(211, &[]).validate_access_token());
    assert!(!token(211, &[1, 2, 3]).validate_access_token());
    assert!(!token(210, &[36, 180]).validate_access_token());
    assert!(!token(212, &[36, 180]).validate_access_token());
    assert!(!token(0, &[]).validate_access_token());
    assert!(!Config::default().validate_access_token());
}

#[test]
fn the_length_of_a_token_is_counted_in_bytes() {
    let mut config = token(209, &[36, 180]);
    config.access_token.push('é');
    assert_eq!(config.access_token.len(), 211);
    assert_eq!(config.access_token.chars().count(), 210);
    assert!(config.validate_access_token());
}

#[test]
fn genders_have_names() {
    assert_eq!(actor(0).get_gender(), "Unset");
    assert_eq!(actor(1).get_gender(), "Female");
    assert_eq!(actor(2).get_gender(), "Male");
    assert_eq!(actor(3).get_gender(), "Non-binary");
    assert_eq!(actor(4).get_gender(), "Unreachable");
    assert_eq!(actor(u32::MAX).get_gender(), "Unreachable");
    let credits = Credits { id: 603, cast: vec![actor(2), actor(1)] };
    assert_eq!(credits.cast[1].get_gender(), "Female");
}

#[test]
fn the_limiter_lets_one_hit_more_than_its_limit_through() {
    let mut limiter = RateLimiter::new(2, 10);
    assert!(limiter.hit(0));
    assert!(limiter.hit(1));
    assert!(limiter.hit(2));
    assert!(!limiter.hit(3));
    assert!(!limiter.hit(4));
    assert_eq!(limiter.hits, vec![0, 1, 2]);
    assert_eq!(limiter.max_hits, 2);
    assert_eq!(limiter.time_frame, 10);
}

#[test]
fn expired_hits_are_forgotten() {
    let mut limiter = RateLimiter::new(2, 10);
    assert!(limiter.hit(0));
    assert!(limiter.hit(1));
    assert!(limiter.hit(2));
    assert!(!limiter.hit(10));
    assert!(limiter.hit(12));
    assert_eq!(limiter.hits, vec![2, 12]);
    assert!(limiter.hit(40));
    assert_eq!(limiter.hits, vec![40]);
}

#[test]
fn a_single_expired_hit_stays() {
    let mut limiter = RateLimiter::new(1, 10);
    assert!(limiter.hit(0));
    assert!(limiter.hit(8));
    assert!(!limiter.hit(11));
    assert_eq!(limiter.hits, vec![0, 8]);
    assert!(limiter.hit(19));
    assert_eq!(limiter.hits, vec![19]);
}

#[test]
fn a_hit_from_before_the_stored_ones_expires_nothing() {
    let mut limiter = RateLimiter::new(5, 10);
    assert!(limiter.hit(100));
    assert!(limiter.hit(101));
    assert!(limiter.hit(5));
    assert_eq!(limiter.hits, vec![100, 101, 5]);
}

#[test]
fn a_limit_of_zero_lets_one_hit_through() {
    let mut limiter = RateLimiter::new(0, 10);
    assert!(limiter.hit(0));
    assert!(!limiter.hit(1));
    assert!(!limiter.hit(20));
    assert!(limiter.hits == vec![0]);
}

#[test]
fn a_fresh_selection_is_empty() {
    let selection = Selection::new();
    assert_eq!((selection.index, selection.season, selection.episode), (None, None, None));
}

#[test]
fn a_selection_hands_out_what_it_holds() {
    let mut selection = Selection { index: Some(3), season: Some(2), episode: Some(9) };
    assert_eq!(selection.index(), 3);
    assert_eq!(selection.season(), 2);
    assert_eq!(selection.episode(), 9);
    selection.unselect_all();
    assert_eq!((selection.index, selection.season, selection.episode), (None, None, None));
}

#[test]
fn a_trailer_plays_on_youtube() {
    assert_eq!(trailer("dQw4w9WgXcQ").youtube_url(), "https://youtube.com/watch?v=dQw4w9WgXcQ");
    assert_eq!(trailer("").youtube_url(), "https://youtube.com/watch?v=");
}

#[test]
fn places_name_a_kind_and_an_id() {
    let place = ProdEntry::new(true, 603);
    assert!(place.is_movie);
    assert_eq!(place.id, 603);
    let other = ProdEntry::new(false, 1396);
    assert!(!other.is_movie);
    assert_eq!(other.id, 1396);
}

#[test]
fn no_filter_is_set_at_first() {
    let filtering = ListFiltering::new();
    assert!(!filtering.filter_favorites && !filtering.filter_watched && !filtering.filter_to_watch);
}

#[test]
fn nothing_is_the_default_entry() {
    assert!(matches!(EntryType::default(), EntryType::Nothing));
}

#[test]
fn a_line_is_selected_by_kind_and_id() {
    let record = UserMovie::new(Movie {
        id: 603,
        title: String::from("The Matrix"),
        original_language: String::from("en"),
        overview: String::new(),
        popularity: Score::zero(),
        poster_path: Some(String::from("/matrix.jpg")),
        release_date: String::new(),
        vote_average: Score::from_bits(8.2f32.to_bits()),
        vote_count: 0,
        adult: false,
    });
    let line = ListEntry::from_movie(&record);
    assert_eq!(line.name, "The Matrix");
    assert_eq!(line.poster_path.as_deref(), Some("/matrix.jpg"));
    assert_eq!(f32::from_bits(line.rating.to_bits()), 8.2);
    assert!(line.is_selected(&EntryType::Movie(603)));
    assert!(!line.is_selected(&EntryType::Movie(604)));
    assert!(!line.is_selected(&EntryType::Series(603)));
    assert!(!line.is_selected(&EntryType::Nothing));
    let copy = line.duplicate();
    assert_eq!(copy.name, "The Matrix");
    assert!(copy.is_selected(&EntryType::Movie(603)));
}

#[test]
fn a_series_line_is_selected_by_kind_and_id() {
    let mut record = UserSeries::new(Series {
        id: 1396,
        name: String::from("Breaking Bad"),
        original_language: String::from("en"),
        overview: String::new(),
        popularity: Score::zero(),
        poster_path: None,
        first_air_date: String::new(),
        vote_average: Score::from_bits(8.9f32.to_bits()),
        adult: false,
        number_of_seasons: 0,
        number_of_episodes: 0,
        status: String::new(),
        seasons: vec![],
    });
    record.favorite = true;
    let line = ListEntry::from_series(&record);
    assert_eq!(line.name, "Breaking Bad");
    assert_eq!(line.poster_path, None);
    assert!(line.favorite && !line.watched);
    assert!(line.is_selected(&EntryType::Series(1396)));
    assert!(!line.is_selected(&EntryType::Movie(1396)));
    let nothing = ListEntry { production_id: EntryType::Nothing, ..line.duplicate() };
    assert!(!nothing.is_selected(&EntryType::Nothing));
}

#[test]
fn posters_are_served_in_five_widths() {
    assert_eq!(get_full_poster_url("/abc.jpg", Width::W200), "https://image.tmdb.org/t/p/w200/abc.jpg");
    assert_eq!(get_full_poster_url("/abc.jpg", Width::W300), "https://image.tmdb.org/t/p/w300/abc.jpg");
    assert_eq!(get_full_poster_url("/abc.jpg", Width::W400), "https://image.tmdb.org/t/p/w400/abc.jpg");
    assert_eq!(get_full_poster_url("/abc.jpg", Width::W500), "https://image.tmdb.org/t/p/w500/abc.jpg");
    assert_eq!(get_full_poster_url("/abc.jpg", Width::ORIGINAL), "https://image.tmdb.org/t/p/original/abc.jpg");
}

#[test]
fn the_catalog_answers_under_these_addresses() {
    assert_eq!(search_url("blade runner"), "https://api.themoviedb.org/3/search/multi?query=blade runner&include_adult=true");
    assert_eq!(series_details_url(1396), "https://api.themoviedb.org/3/tv/1396");
    assert_eq!(season_details_url(1396, 2), "https://api.themoviedb.org/3/tv/1396/season/2");
    assert_eq!(seasons_url(1396), "https://api.themoviedb.org/3/tv/1396/season/&append_to_response=3");
    assert_eq!(movie_details_url(603), "https://api.themoviedb.org/3/movie/603");
    assert_eq!(facet_url(MOVIE_DETAILS_URL, 603, "external_ids"), "https://api.themoviedb.org/3/movie//603/external_ids");
    assert_eq!(facet_url(SERIES_DETAILS_URL, 1396, "keywords"), "https://api.themoviedb.org/3/tv//1396/keywords");
    assert_eq!(videos_url("movie", 603), "https://api.themoviedb.org/3/movie/603/videos");
    assert_eq!(videos_url("tv", 0), "https://api.themoviedb.org/3/tv/0/videos");
    assert_eq!(page_url(MOVIE_URL, 603), "https://www.themoviedb.org/movie/603");
    assert_eq!(page_url(TV_URL, 4294967295), "https://www.themoviedb.org/tv/4294967295");
    assert_eq!(bearer("abc.def.ghi"), "Bearer abc.def.ghi");
}

#[test]
fn a_known_id_leads_to_the_title_page() {
    assert_eq!(imdb_url(&Some(String::from("tt0133093")), "The Matrix"), "https://www.imdb.com/title/tt0133093");
    assert_eq!(imdb_url(&None, "The Matrix"), "https://www.imdb.com/find/?q=The Matrix");
}

#[test]
fn a_list_map_finds_the_first_entry_of_a_key() {
    let mut map: VecMap<u32, &str> = VecMap::new();
    assert_eq!(map.size(), 0);
    assert_eq!(map.get(&1), None);
    map.put_value(1, "one");
    map.put_value(2, "two");
    map.put_value(1, "uno");
    assert_eq!(map.size(), 3);
    assert_eq!(map.get(&1), Some(&"one"));
    assert_eq!(map.get(&2), Some(&"two"));
    assert_eq!(map.get(&3), None);
    map.remove(1);
    assert_eq!(map.size(), 2);
    assert_eq!(map.get(&1), Some(&"uno"));
    map.remove(7);
    assert_eq!(map.size(), 2);
    map.remove(1);
    map.remove(2);
    assert_eq!(map.size(), 0);
    assert_eq!(map.get(&2), None);
}

#[test]
fn the_trailer_window_opens_on_new_content() {
    let mut view = TrailersView::new();
    assert!(!view.is_open);
    assert_eq!(view.title, "");
    assert!(view.trailers.is_empty());
    view.set_content(String::from("The Matrix"), vec![trailer("a"), trailer("b")]);
    assert!(view.is_open);
    assert_eq!(view.title, "The Matrix");
    assert_eq!(view.trailers.len(), 2);
    assert_eq!(view.trailers[1].key, "b");
}

#[test]
fn a_short_overview_is_shown_whole() {
    assert_eq!(shorten_overview(""), "");
    assert_eq!(shorten_overview("  A clerk learns the truth.  "), "  A clerk learns the truth.  ");
    let exact = "x".repeat(200);
    assert_eq!(shorten_overview(&exact), exact);
}

#[test]
fn a_long_overview_is_cut_and_trimmed() {
    let long = format!("  {}  {}", "a".repeat(196), "b".repeat(50));
    assert_eq!(shorten_overview(&long), format!("{}...", "a".repeat(196)));
    let plain = "c".repeat(201);
    assert_eq!(shorten_overview(&plain), format!("{}...", "c".repeat(200)));
}

#[test]
fn a_character_that_is_cut_in_two_is_replaced() {
    let long = format!("{}é and more", "d".repeat(199));
    assert_eq!(shorten_overview(&long), format!("{}\u{fffd}...", "d".repeat(199)));
}

#[test]
fn the_ellipsis_is_three_dots() {
    assert_eq!(with_ellipsis("cut"), "cut...");
    assert_eq!(with_ellipsis(""), "...");
}
