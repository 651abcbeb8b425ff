use watchlist::collection::{
    add_movie, add_series, central_draw_list_update, central_list_handle_selection,
    central_list_mark_favorite, central_list_mark_watched, central_list_reload,
    central_list_remove_entry, central_user_list_move_down, central_user_list_move_up,
    migrate_positions, passes_filter,
};
use watchlist::movies::{Movie, UserMovie};
use watchlist::production::{EntryType, ListEntry, ListFiltering, ListOrdering, ProdEntry};
use watchlist::score::Score;
use watchlist::selection::Selection;
use watchlist::series::{Season, Series, UserSeries};

fn plain_movie(id: u32, title: &str) -> Movie {
    Movie {
        id,
        title: String::from(title),
        original_language: String::from("en"),
        overview: String::new(),
        popularity: Score::zero(),
        poster_path: Some(format!("/m{}.jpg", id)),
        release_date: String::new(),
        vote_average: Score::from_bits(7.5f32.to_bits()),
        vote_count: 0,
        adult: false,
    }
}

fn plain_series(id: u32, name: &str) -> Series {
    Series {
        id,
        name: String::from(name),
        original_language: String::from("en"),
        overview: String::new(),
        popularity: Score::zero(),
        poster_path: None,
        first_air_date: String::new(),
        vote_average: Score::from_bits(8.5f32.to_bits()),
        adult: false,
        number_of_seasons: 1,
        number_of_episodes: 2,
        status: String::new(),
        seasons: vec![Season {
            air_date: None,
            episode_count: 2,
            id: 1,
            name: String::from("Season 1"),
            overview: String::new(),
            poster_path: None,
            season_number: 1,
            vote_average: Score::zero(),
        }],
    }
}

fn movie(id: u32, title: &str) -> UserMovie {
    UserMovie::new(plain_movie(id, title))
}

fn series(id: u32, name: &str) -> UserSeries {
    UserSeries::new(plain_series(id, name))
}

fn line(name: &str, favorite: bool, watched: bool) -> ListEntry {
    ListEntry {
        production_id: EntryType::Nothing,
        name: String::from(name),
        poster_path: None,
        rating: Score::zero(),
        favorite,
        watched,
    }
}

fn names(list: &[ListEntry]) -> Vec<String> {
    list.iter().map(|entry| entry.name.clone()).collect()
}

fn places(positions: &[ProdEntry]) -> Vec<(bool, u32)> {
    positions.iter().map(|entry| (entry.is_movie, entry.id)).collect()
}

fn no_filter() -> ListFiltering {
    ListFiltering::new()
}

#[test]
fn the_list_follows_the_users_order() {
    let movies = vec![movie(1, "Alien"), movie(2, "Brazil")];
    let all_series = vec![series(1, "Columbo")];
    let positions = vec![ProdEntry::new(true, 2), ProdEntry::new(false, 1), ProdEntry::new(true, 1)];
    let mut list = vec![line("stale", false, false)];
    central_list_reload(&mut list, &positions, &movies, &all_series);
    assert_eq!(names(&list), vec!["Brazil", "Columbo", "Alien"]);
    assert!(matches!(list[0].production_id, EntryType::Movie(2)));
    assert!(matches!(list[1].production_id, EntryType::Series(1)));
    assert_eq!(list[0].poster_path.as_deref(), Some("/m2.jpg"));
    assert_eq!(f32::from_bits(list[0].rating.to_bits()), 7.5);
    assert_eq!(f32::from_bits(list[1].rating.to_bits()), 8.5);
}

#[test]
fn places_without_a_production_bring_no_line() {
    let movies = vec![movie(1, "Alien")];
    let positions = vec![ProdEntry::new(true, 9), ProdEntry::new(false, 1), ProdEntry::new(true, 1)];
    let mut list = vec![];
    central_list_reload(&mut list, &positions, &movies, &vec![]);
    assert_eq!(names(&list), vec!["Alien"]);
}

#[test]
fn a_production_without_a_place_is_not_listed() {
    let movies = vec![movie(1, "Alien"), movie(2, "Brazil")];
    let positions = vec![ProdEntry::new(true, 2)];
    let mut list = vec![];
    central_list_reload(&mut list, &positions, &movies, &vec![]);
    assert_eq!(names(&list), vec!["Brazil"]);
}

#[test]
fn a_place_that_comes_twice_brings_its_line_twice() {
    let movies = vec![movie(1, "Alien"), movie(1, "Alien, again")];
    let positions = vec![ProdEntry::new(true, 1), ProdEntry::new(true, 1)];
    let mut list = vec![];
    central_list_reload(&mut list, &positions, &movies, &vec![]);
    assert_eq!(names(&list), vec!["Alien", "Alien, again", "Alien", "Alien, again"]);
}

#[test]
fn a_line_moves_down_with_its_place() {
    let mut list = vec![line("a", false, false), line("b", false, false), line("c", false, false)];
    let mut positions = vec![ProdEntry::new(true, 1), ProdEntry::new(true, 2), ProdEntry::new(true, 3)];
    assert!(central_user_list_move_down(&mut list, &mut positions, &ListOrdering::UserDefined, "", 0));
    assert_eq!(names(&list), vec!["b", "a", "c"]);
    assert_eq!(places(&positions), vec![(true, 2), (true, 1), (true, 3)]);
    assert!(central_user_list_move_down(&mut list, &mut positions, &ListOrdering::UserDefined, "", 1));
    assert_eq!(names(&list), vec!["b", "c", "a"]);
    assert!(!central_user_list_move_down(&mut list, &mut positions, &ListOrdering::UserDefined, "", 2));
    assert!(!central_user_list_move_down(&mut list, &mut positions, &ListOrdering::UserDefined, "", 7));
    assert_eq!(names(&list), vec!["b", "c", "a"]);
    assert_eq!(places(&positions), vec![(true, 2), (true, 3), (true, 1)]);
}

#[test]
fn a_line_moves_up_with_its_place() {
    let mut list = vec![line("a", false, false), line("b", false, false), line("c", false, false)];
    let mut positions = vec![ProdEntry::new(true, 1), ProdEntry::new(true, 2), ProdEntry::new(true, 3)];
    assert!(central_user_list_move_up(&mut list, &mut positions, &ListOrdering::UserDefined, "", 2));
    assert_eq!(names(&list), vec!["a", "c", "b"]);
    assert_eq!(places(&positions), vec![(true, 1), (true, 3), (true, 2)]);
    assert!(!central_user_list_move_up(&mut list, &mut positions, &ListOrdering::UserDefined, "", 0));
    assert_eq!(names(&list), vec!["a", "c", "b"]);
}

#[test]
fn lines_move_only_in_the_users_own_order_and_without_a_search() {
    let mut list = vec![line("a", false, false), line("b", false, false)];
    let mut positions = vec![ProdEntry::new(true, 1), ProdEntry::new(true, 2)];
    assert!(!central_user_list_move_down(&mut list, &mut positions, &ListOrdering::Alphabetic, "", 0));
    assert!(!central_user_list_move_down(&mut list, &mut positions, &ListOrdering::RatingAscending, "", 0));
    assert!(!central_user_list_move_up(&mut list, &mut positions, &ListOrdering::RatingDescending, "", 1));
    assert!(!central_user_list_move_down(&mut list, &mut positions, &ListOrdering::UserDefined, "a", 0));
    assert!(!central_user_list_move_up(&mut list, &mut positions, &ListOrdering::UserDefined, "b", 1));
    assert_eq!(names(&list), vec!["a", "b"]);
    assert_eq!(places(&positions), vec![(true, 1), (true, 2)]);
}

#[test]
fn the_search_ignores_case() {
    let list = vec![line("The Matrix", false, false), line("Dark", false, false), line("MATRIX RELOADED", false, false)];
    let mut drawn = vec![line("stale", false, false)];
    central_draw_list_update(&mut drawn, &list, &no_filter(), "MaTrIx");
    assert_eq!(names(&drawn), vec!["The Matrix", "MATRIX RELOADED"]);
    central_draw_list_update(&mut drawn, &list, &no_filter(), "");
    assert_eq!(names(&drawn), vec!["The Matrix", "Dark", "MATRIX RELOADED"]);
    central_draw_list_update(&mut drawn, &list, &no_filter(), "zzz");
    assert!(drawn.is_empty());
}

#[test]
fn the_filters_keep_marked_lines() {
    let list = vec![
        line("plain", false, false),
        line("favorite", true, false),
        line("watched", false, true),
        line("both", true, true),
    ];
    let mut drawn = vec![];
    let mut filtering = ListFiltering::new();
    filtering.filter_favorites = true;
    central_draw_list_update(&mut drawn, &list, &filtering, "");
    assert_eq!(names(&drawn), vec!["favorite", "both"]);
    filtering.filter_watched = true;
    central_draw_list_update(&mut drawn, &list, &filtering, "");
    assert_eq!(names(&drawn), vec!["both"]);
    filtering.filter_favorites = false;
    central_draw_list_update(&mut drawn, &list, &filtering, "");
    assert_eq!(names(&drawn), vec!["watched", "both"]);
    filtering.filter_to_watch = true;
    central_draw_list_update(&mut drawn, &list, &filtering, "o");
    assert_eq!(names(&drawn), vec!["both"]);
}

#[test]
fn a_line_passes_by_its_flags_and_its_name() {
    let mut filtering = ListFiltering::new();
    assert!(passes_filter(&filtering, false, false, "the matrix", "matrix"));
    assert!(passes_filter(&filtering, false, false, "the matrix", ""));
    assert!(passes_filter(&filtering, false, false, "the matrix", "the matrix"));
    assert!(!passes_filter(&filtering, true, true, "the matrix", "the matrix 2"));
    assert!(!passes_filter(&filtering, true, true, "the matrix", "Matrix"));
    filtering.filter_favorites = true;
    assert!(!passes_filter(&filtering, false, true, "the matrix", "matrix"));
    assert!(passes_filter(&filtering, true, false, "the matrix", "matrix"));
    filtering.filter_watched = true;
    assert!(!passes_filter(&filtering, true, false, "the matrix", "matrix"));
    assert!(passes_filter(&filtering, true, true, "the matrix", "matrix"));
}

#[test]
fn a_click_selects_the_last_production_of_the_id() {
    let movies = vec![movie(1, "Alien"), movie(2, "Brazil"), movie(1, "Alien, again")];
    let all_series = vec![series(1, "Columbo"), series(3, "Dark")];
    let mut selected = EntryType::Nothing;
    let mut selection = Selection { index: None, season: Some(2), episode: Some(5) };
    central_list_handle_selection(&mut selected, &mut selection, &movies, &all_series, EntryType::Movie(1), false);
    assert!(matches!(selected, EntryType::Movie(1)));
    assert_eq!(selection.index, Some(2));
    assert_eq!((selection.season, selection.episode), (Some(2), Some(5)));
    central_list_handle_selection(&mut selected, &mut selection, &movies, &all_series, EntryType::Series(3), false);
    assert!(matches!(selected, EntryType::Series(3)));
    assert_eq!(selection.index, Some(1));
    assert_eq!((selection.season, selection.episode), (None, None));
}

#[test]
fn a_click_on_the_selected_line_drops_the_selection() {
    let movies = vec![movie(1, "Alien")];
    let mut selected = EntryType::Movie(1);
    let mut selection = Selection { index: Some(0), season: Some(1), episode: None };
    central_list_handle_selection(&mut selected, &mut selection, &movies, &vec![], EntryType::Movie(1), true);
    assert!(matches!(selected, EntryType::Nothing));
    assert_eq!(selection.index, None);
    assert_eq!(selection.season, Some(1));
}

#[test]
fn a_click_on_a_line_without_a_production_keeps_the_index() {
    let all_series = vec![series(1, "Columbo")];
    let mut selected = EntryType::Nothing;
    let mut selection = Selection { index: Some(4), season: Some(1), episode: Some(1) };
    central_list_handle_selection(&mut selected, &mut selection, &vec![], &all_series, EntryType::Series(9), false);
    assert!(matches!(selected, EntryType::Series(9)));
    assert_eq!(selection.index, Some(4));
    assert_eq!((selection.season, selection.episode), (Some(1), Some(1)));
}

#[test]
fn removing_takes_the_first_production_of_the_id() {
    let mut movies = vec![movie(1, "Alien"), movie(2, "Brazil"), movie(2, "Brazil, again")];
    let mut all_series = vec![series(1, "Columbo")];
    let positions = vec![ProdEntry::new(true, 1), ProdEntry::new(true, 2), ProdEntry::new(false, 1)];
    let mut list = vec![];
    let mut selected = EntryType::Movie(2);
    let mut selection = Selection { index: Some(1), season: None, episode: None };
    central_list_remove_entry(&mut selected, &mut selection, &mut list, &positions, &mut movies, &mut all_series, EntryType::Movie(2));
    assert!(matches!(selected, EntryType::Nothing));
    assert_eq!(selection.index, None);
    let titles: Vec<&str> = movies.iter().map(|record| record.movie.title.as_str()).collect();
    assert_eq!(titles, vec!["Alien", "Brazil, again"]);
    assert_eq!(all_series.len(), 1);
    assert_eq!(names(&list), vec!["Alien", "Brazil, again", "Columbo"]);
    central_list_remove_entry(&mut selected, &mut selection, &mut list, &positions, &mut movies, &mut all_series, EntryType::Series(1));
    assert!(all_series.is_empty());
    assert_eq!(names(&list), vec!["Alien", "Brazil, again"]);
}

#[test]
fn removing_an_unknown_id_takes_the_first_of_the_kind() {
    let mut movies = vec![movie(1, "Alien"), movie(2, "Brazil")];
    let mut all_series = vec![];
    let positions = vec![ProdEntry::new(true, 1), ProdEntry::new(true, 2)];
    let mut list = vec![];
    let mut selected = EntryType::Nothing;
    let mut selection = Selection::new();
    central_list_remove_entry(&mut selected, &mut selection, &mut list, &positions, &mut movies, &mut all_series, EntryType::Movie(9));
    let titles: Vec<&str> = movies.iter().map(|record| record.movie.title.as_str()).collect();
    assert_eq!(titles, vec!["Brazil"]);
    assert_eq!(names(&list), vec!["Brazil"]);
}

#[test]
fn marks_are_turned_over_on_the_first_production_of_the_id() {
    let mut movies = vec![movie(1, "Alien"), movie(1, "Alien, again")];
    let mut all_series = vec![series(1, "Columbo")];
    let positions = vec![ProdEntry::new(true, 1), ProdEntry::new(false, 1)];
    let mut list = vec![];
    central_list_mark_watched(&mut list, &positions, &mut movies, &mut all_series, EntryType::Movie(1));
    assert!(movies[0].watched && !movies[0].favorite);
    assert!(!movies[1].watched);
    assert!(!all_series[0].watched);
    assert_eq!(list.iter().map(|entry| entry.watched).collect::<Vec<_>>(), vec![true, false, false]);
    central_list_mark_favorite(&mut list, &positions, &mut movies, &mut all_series, EntryType::Series(1));
    assert!(all_series[0].favorite && !all_series[0].watched);
    assert!(!movies[0].favorite);
    assert_eq!(list.iter().map(|entry| entry.favorite).collect::<Vec<_>>(), vec![false, false, true]);
    central_list_mark_watched(&mut list, &positions, &mut movies, &mut all_series, EntryType::Movie(1));
    assert!(!movies[0].watched);
    central_list_mark_favorite(&mut list, &positions, &mut movies, &mut all_series, EntryType::Movie(7));
    assert!(!movies[0].favorite && !movies[1].favorite);
}

#[test]
fn a_new_movie_comes_last_everywhere() {
    let mut movies = vec![movie(1, "Alien")];
    let mut positions = vec![ProdEntry::new(true, 1)];
    let mut list = vec![line("Alien", false, false)];
    assert!(add_movie(&mut movies, &mut positions, &mut list, plain_movie(2, "Brazil")));
    assert_eq!(movies.len(), 2);
    assert_eq!(movies[1].movie.title, "Brazil");
    assert_eq!(movies[1].note, "");
    assert_eq!(places(&positions), vec![(true, 1), (true, 2)]);
    assert_eq!(names(&list), vec!["Alien", "Brazil"]);
    assert!(matches!(list[1].production_id, EntryType::Movie(2)));
}

#[test]
fn a_movie_that_is_there_is_not_added_again() {
    let mut movies = vec![movie(1, "Alien")];
    let mut positions = vec![];
    let mut list = vec![];
    assert!(!add_movie(&mut movies, &mut positions, &mut list, plain_movie(1, "Alien 2")));
    assert_eq!(movies.len(), 1);
    assert_eq!(movies[0].movie.title, "Alien");
    assert!(positions.is_empty());
    assert!(list.is_empty());
}

#[test]
fn a_new_series_comes_last_everywhere() {
    let mut all_series = vec![];
    let mut positions = vec![ProdEntry::new(true, 1)];
    let mut list = vec![line("Alien", false, false)];
    assert!(add_series(&mut all_series, &mut positions, &mut list, plain_series(1, "Columbo")));
    assert!(!add_series(&mut all_series, &mut positions, &mut list, plain_series(1, "Columbo")));
    assert_eq!(all_series.len(), 1);
    assert_eq!(all_series[0].season_notes.len(), 1);
    assert_eq!(all_series[0].season_notes[0].episode_notes, ["", ""]);
    assert_eq!(places(&positions), vec![(true, 1), (false, 1)]);
    assert_eq!(names(&list), vec!["Alien", "Columbo"]);
}

#[test]
fn migrating_gives_everything_one_more_place() {
    let movies = vec![movie(1, "Alien"), movie(2, "Brazil")];
    let all_series = vec![series(7, "Columbo")];
    let mut positions = vec![ProdEntry::new(true, 2)];
    migrate_positions(&all_series, &movies, &mut positions);
    assert_eq!(places(&positions), vec![(true, 2), (false, 7), (true, 1), (true, 2)]);
}
