use watchlist::score::Score;
use watchlist::series::{
    find_series, Episode, SearchedSeries, Season, SeasonDetails, SeasonNotes, Series,
    SeriesDetails, UserSeries,
};

fn season(number: u32, episodes: u32) -> Season {
    Season {
        air_date: Some(String::from("2008-01-20")),
        episode_count: episodes,
        id: 3572 + number,
        name: format!("Season {}", number),
        overview: String::new(),
        poster_path: None,
        season_number: number,
        vote_average: Score::from_bits(8.0f32.to_bits()),
    }
}

fn searched() -> SearchedSeries {
    SearchedSeries {
        id: 1396,
        name: String::from("Breaking Bad"),
        original_language: String::from("en"),
        overview: String::from("A chemistry teacher."),
        popularity: Score::from_bits(245.5f32.to_bits()),
        poster_path: Some(String::from("/poster.jpg")),
        first_air_date: String::from("2008-01-20"),
        vote_average: Score::from_bits(8.9f32.to_bits()),
        adult: false,
    }
}

fn details(seasons: Vec<Season>) -> SeriesDetails {
    SeriesDetails {
        number_of_seasons: 5,
        number_of_episodes: 62,
        status: String::from("Ended"),
        seasons,
    }
}

fn episode(number: u32, runtime: Option<u32>) -> Episode {
    Episode {
        episode_number: number,
        name: format!("Episode {}", number),
        overview: String::new(),
        runtime,
        vote_average: Score::zero(),
    }
}

fn episodes(runtimes: &[Option<u32>]) -> SeasonDetails {
    SeasonDetails {
        id: 1,
        season_number: 1,
        name: String::from("Season 1"),
        air_date: None,
        episodes: runtimes
            .iter()
            .enumerate()
            .map(|(index, runtime)| episode(index as u32 + 1, *runtime))
            .collect(),
    }
}

#[test]
fn blank_season_notes_have_an_entry_for_every_episode() {
    let notes = SeasonNotes::empty(3);
    assert_eq!(notes.note, "");
    assert_eq!(notes.user_rating.to_bits(), 0);
    assert_eq!(notes.episode_notes, ["", "", ""]);
    assert!(SeasonNotes::empty(0).episode_notes.is_empty());
}

#[test]
fn episode_notes_grow_and_keep_what_they_hold() {
    let mut notes = SeasonNotes::empty(0);
    notes.episode_notes.push(String::from("pilot"));
    notes.episode_notes.push(String::from("second"));
    notes.note.push_str("season");
    notes.ensure_length(4);
    assert_eq!(notes.episode_notes, ["pilot", "second", "", ""]);
    assert_eq!(notes.note, "season");
}

#[test]
fn episode_notes_never_shrink() {
    let mut notes = SeasonNotes::empty(3);
    notes.episode_notes[2].push_str("last");
    notes.ensure_length(1);
    assert_eq!(notes.episode_notes, ["", "", "last"]);
    notes.ensure_length(0);
    assert_eq!(notes.episode_notes.len(), 3);
    notes.ensure_length(3);
    assert_eq!(notes.episode_notes, ["", "", "last"]);
}

#[test]
fn growing_twice_is_growing_once() {
    let mut once = SeasonNotes::empty(2);
    once.ensure_length(10);
    let mut twice = SeasonNotes::empty(2);
    twice.ensure_length(10);
    twice.ensure_length(10);
    assert_eq!(twice.episode_notes, once.episode_notes);
    assert_eq!(twice.episode_notes.len(), 10);
    twice.ensure_length(7);
    assert_eq!(twice.episode_notes, once.episode_notes);
}

#[test]
fn episode_notes_are_found_by_number() {
    let mut notes = SeasonNotes::empty(3);
    notes.episode_note(1).push_str("first");
    notes.episode_note(3).push_str("third");
    assert_eq!(notes.episode_notes, ["first", "", "third"]);
}

#[test]
fn a_fresh_series_record_has_notes_for_every_listed_season() {
    let listed = vec![season(0, 2), season(1, 7), season(2, 13)];
    let series = Series::from(&searched(), details(listed));
    let record = UserSeries::new(series);
    assert_eq!(record.note, "");
    assert_eq!(record.user_rating.to_bits(), 0);
    assert!(!record.watched && !record.favorite);
    let lengths: Vec<usize> = record.season_notes.iter().map(|notes| notes.episode_notes.len()).collect();
    assert_eq!(lengths, vec![2, 7, 13]);
    assert!(record.season_notes.iter().all(|notes| notes.note.is_empty()));
}

#[test]
fn season_notes_are_found_by_number() {
    let series = Series::from(&searched(), details(vec![season(1, 1), season(2, 2)]));
    let mut record = UserSeries::new(series);
    record.season_note(2).note.push_str("the second");
    record.season_note(1).episode_note(1).push_str("pilot");
    assert_eq!(record.season_notes[1].note, "the second");
    assert_eq!(record.season_notes[0].episode_notes, ["pilot"]);
}

#[test]
fn season_notes_grow_by_blank_seasons() {
    let series = Series::from(&searched(), details(vec![season(1, 2)]));
    let mut record = UserSeries::new(series);
    record.season_notes[0].note.push_str("kept");
    record.ensure_season_length(3);
    assert_eq!(record.season_notes.len(), 3);
    assert_eq!(record.season_notes[0].note, "kept");
    assert_eq!(record.season_notes[0].episode_notes.len(), 2);
    assert!(record.season_notes[1].episode_notes.is_empty());
    assert_eq!(record.season_notes[2].note, "");
    record.ensure_season_length(2);
    assert_eq!(record.season_notes.len(), 3);
    record.ensure_season_length(3);
    assert_eq!(record.season_notes.len(), 3);
}

#[test]
fn a_series_is_put_together_from_search_and_details() {
    let series = Series::from(&searched(), details(vec![season(0, 2), season(1, 7)]));
    assert_eq!(series.id, 1396);
    assert_eq!(series.name, "Breaking Bad");
    assert_eq!(series.original_language, "en");
    assert_eq!(series.overview, "A chemistry teacher.");
    assert_eq!(f32::from_bits(series.popularity.to_bits()), 245.5);
    assert_eq!(series.poster_path.as_deref(), Some("/poster.jpg"));
    assert_eq!(series.first_air_date, "2008-01-20");
    assert_eq!(f32::from_bits(series.vote_average.to_bits()), 8.9);
    assert!(!series.adult);
    assert_eq!(series.number_of_seasons, 5);
    assert_eq!(series.number_of_episodes, 62);
    assert_eq!(series.status, "Ended");
    assert_eq!(series.seasons.len(), 2);
    assert_eq!(series.seasons[1].episode_count, 7);
}

#[test]
fn specials_are_the_season_with_number_zero() {
    let with = Series::from(&searched(), details(vec![season(0, 2), season(1, 7)]));
    let without = Series::from(&searched(), details(vec![season(1, 7), season(2, 13)]));
    assert!(with.has_specials());
    assert!(!without.has_specials());
    assert!(details(vec![season(0, 1)]).has_specials());
    assert!(!details(vec![season(3, 1), season(0, 1)]).has_specials());
}

#[test]
fn the_runtime_of_a_season_is_the_sum_of_its_episodes() {
    let runtime = episodes(&[Some(58), None, Some(47), Some(0), Some(45)]).runtime();
    assert_eq!(runtime.map(|r| r.minutes), Some(150));
    assert_eq!(episodes(&[]).runtime().map(|r| r.minutes), Some(0));
    assert_eq!(episodes(&[None, None]).runtime().map(|r| r.minutes), Some(0));
}

#[test]
fn a_runtime_beyond_the_counter_is_none() {
    assert_eq!(episodes(&[Some(u32::MAX), Some(0)]).runtime().map(|r| r.minutes), Some(u32::MAX));
    assert!(episodes(&[Some(u32::MAX), Some(1)]).runtime().is_none());
    assert!(episodes(&[Some(u32::MAX), None, Some(5), Some(u32::MAX)]).runtime().is_none());
}

#[test]
fn the_first_series_of_an_id_is_found() {
    let make = |id: u32| {
        let mut found = searched();
        found.id = id;
        UserSeries::new(Series::from(&found, details(vec![])))
    };
    let series = vec![make(4), make(7), make(4)];
    assert_eq!(find_series(&series, 4), Some(0));
    assert_eq!(find_series(&series, 7), Some(1));
    assert_eq!(find_series(&series, 5), None);
}
