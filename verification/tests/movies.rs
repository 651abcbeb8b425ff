use watchlist::decimal::{digit_str, low_digits, to_decimal};
use watchlist::movies::{find_movie, Movie, MovieDetails, UserMovie};
use watchlist::score::Score;

fn details(budget: usize, revenue: usize) -> MovieDetails {
    MovieDetails {
        backdrop_path: None,
        budget,
        revenue,
        runtime: 120,
        imdb_id: None,
        original_title: None,
        production_companies: vec![],
        status: String::from("Released"),
        tagline: String::new(),
        genres: vec![],
    }
}

fn movie(id: u32) -> Movie {
    Movie {
        id,
        title: format!("movie {}", id),
        original_language: String::from("en"),
        overview: String::from("overview"),
        popularity: Score::from_bits(3.5f32.to_bits()),
        poster_path: Some(String::from("/poster.jpg")),
        release_date: String::from("1999-03-31"),
        vote_average: Score::from_bits(8.2f32.to_bits()),
        vote_count: 5,
        adult: false,
    }
}

#[test]
fn small_amounts_are_not_grouped() {
    let any = details(0, 0);
    assert_eq!(any.format(0), "0$");
    assert_eq!(any.format(7), "7$");
    assert_eq!(any.format(999), "999$");
    assert_eq!(any.format(1234), "1234$");
    assert_eq!(any.format(9999), "9999$");
}

#[test]
fn amounts_from_five_digits_are_grouped_in_threes() {
    let any = details(0, 0);
    assert_eq!(any.format(10000), "10 000$");
    assert_eq!(any.format(12345), "12 345$");
    assert_eq!(any.format(123456), "123 456$");
    assert_eq!(any.format(1234567), "1 234 567$");
    assert_eq!(any.format(63000000), "63 000 000$");
    assert_eq!(any.format(467222728), "467 222 728$");
    assert_eq!(any.format(2923706026), "2 923 706 026$");
}

#[test]
fn amounts_of_twelve_digits_are_grouped_throughout() {
    let any = details(0, 0);
    assert_eq!(any.format(123456789012), "123 456 789 012$");
}

#[test]
fn amounts_of_thirteen_digits_lose_their_last_separator() {
    let any = details(0, 0);
    assert_eq!(any.format(1234567890123), "1 234 567 890123$");
    assert_eq!(any.format(12345678901234), "12 345 678 901234$");
    assert_eq!(any.format(1234567890123456), "1 234 567 890 123456$");
}

#[test]
fn budget_and_revenue_are_shown_alike() {
    let shown = details(160000000, 836836967);
    assert_eq!(shown.budget(), "160 000 000$");
    assert_eq!(shown.revenue(), "836 836 967$");
}

#[test]
fn numbers_are_written_in_decimal() {
    assert_eq!(to_decimal(0), "0");
    assert_eq!(to_decimal(9), "9");
    assert_eq!(to_decimal(10), "10");
    assert_eq!(to_decimal(603), "603");
    assert_eq!(to_decimal(4294967295), "4294967295");
    assert_eq!(to_decimal(u64::MAX), "18446744073709551615");
}

#[test]
fn digits_come_least_significant_first() {
    assert_eq!(low_digits(0), vec![0]);
    assert_eq!(low_digits(1905), vec![5, 0, 9, 1]);
    assert_eq!(digit_str(0), "0");
    assert_eq!(digit_str(9), "9");
}

#[test]
fn a_fresh_movie_record_is_blank() {
    let record = UserMovie::new(movie(603));
    assert_eq!(record.movie.id, 603);
    assert_eq!(record.movie.title, "movie 603");
    assert_eq!(record.note, "");
    assert_eq!(record.user_rating.to_bits(), 0);
    assert!(!record.watched);
    assert!(!record.favorite);
}

#[test]
fn the_first_movie_of_an_id_is_found() {
    let movies = vec![UserMovie::new(movie(4)), UserMovie::new(movie(7)), UserMovie::new(movie(4))];
    assert_eq!(find_movie(&movies, 4), Some(0));
    assert_eq!(find_movie(&movies, 7), Some(1));
    assert_eq!(find_movie(&movies, 5), None);
    assert_eq!(find_movie(&vec![], 4), None);
}
