//! Productions, that is movies and series: how the collection refers to
//! them, orders them and lists them.

use vstd::prelude::*;
use vstd::string::*;
use crate::movies::{Movie, UserMovie, UserMovieModel};
use crate::score::Score;
use crate::series::{SearchedSeries, UserSeries, UserSeriesModel};

verus! {

/// The catalog's number for a movie or a series, unique within its kind.
pub type ProductionId = u32;

/// A production as a catalog search returns it.
pub enum Production {
    Movie(Movie),
    SearchedSeries(SearchedSeries),
}

/// The numbers and names under which other sites know a production.
#[derive(Debug)]
pub struct ProductionIds {
    pub id: u32,
    pub facebook_id: Option<String>,
    pub freebase_id: Option<String>,
    pub freebase_mid: Option<String>,
    pub imdb_id: Option<String>,
    pub instagram_id: Option<String>,
    pub tvdb_id: Option<u32>,
    pub tvrage_id: Option<u32>,
    pub twitter_id: Option<String>,
    pub wikidata_id: Option<String>,
}

/// Where YouTube plays a video, without the video's key.
pub const YOUTUBE_WATCH_URL: &'static str = "https://youtube.com/watch?v=";

/// A trailer of a production.
#[derive(Debug)]
pub struct Trailer {
    pub name: String,
    pub key: String,
    pub published_at: String,
    pub site: String,
    pub size: u32,
    pub official: bool,
}

impl Trailer {
    /// The address at which YouTube plays this trailer.
    pub fn youtube_url(&self) -> (url: String)
        ensures
            url@ == YOUTUBE_WATCH_URL@ + self.key@,
    {
        String::from_str(YOUTUBE_WATCH_URL).concat(self.key.as_str())
    }
}

/// A keyword that the catalog attaches to a production.
#[derive(Debug)]
pub struct Keyword {
    pub id: usize,
    pub name: String,
}

/// One place in the user's own ordering of the collection: it names a
/// movie or a series by kind and id.
#[derive(Clone, Copy, Debug)]
pub struct ProdEntry {
    pub is_movie: bool,
    pub id: u32,
}

impl ProdEntry {
    /// The entry for the production of the given kind and id.
    pub fn new(is_movie: bool, id: u32) -> (entry: ProdEntry)
        ensures
            entry == (ProdEntry { is_movie, id }),
    {
        ProdEntry { is_movie, id }
    }
}

/// Everything the user keeps: the series, the movies, and the order in
/// which the user arranged them.
#[derive(Debug)]
pub struct UserData {
    pub user_series: Vec<UserSeries>,
    pub user_movies: Vec<UserMovie>,
    pub prod_positions: Vec<ProdEntry>,
}

/// The mathematical content of a [`UserData`].
pub struct UserDataModel {
    pub user_series: Seq<UserSeriesModel>,
    pub user_movies: Seq<UserMovieModel>,
    pub prod_positions: Seq<ProdEntry>,
}

impl DeepView for UserData {
    type V = UserDataModel;

    open spec fn deep_view(&self) -> UserDataModel {
        UserDataModel {
            user_series: self.user_series.deep_view(),
            user_movies: self.user_movies.deep_view(),
            prod_positions: self.prod_positions@,
        }
    }
}

impl UserData {
    /// The data set made of the three stored lists. Data written before
    /// the ordering existed has no list of positions: it counts as empty.
    pub fn from_parts(
        user_series: Vec<UserSeries>,
        user_movies: Vec<UserMovie>,
        positions: Option<Vec<ProdEntry>>,
    ) -> (data: UserData)
        ensures
            data.user_series == user_series,
            data.user_movies == user_movies,
            match positions {
                Some(list) => data.prod_positions == list,
                None => data.prod_positions@ == Seq::<ProdEntry>::empty(),
            },
    {
        let prod_positions = match positions {
            Some(list) => list,
            None => Vec::new(),
        };
        UserData { user_series, user_movies, prod_positions }
    }
}

/// What an entry of the central list stands for.
#[derive(Clone, Copy)]
pub enum EntryType {
    Movie(ProductionId),
    Series(ProductionId),
    Nothing,
}

impl Default for EntryType {
    fn default() -> (entry: EntryType)
        ensures
            entry == EntryType::Nothing,
    {
        EntryType::Nothing
    }
}

/// One line of the central list.
#[derive(Clone)]
pub struct ListEntry {
    pub production_id: EntryType,
    pub name: String,
    pub poster_path: Option<String>,
    pub rating: Score,
    pub favorite: bool,
    pub watched: bool,
}

/// The mathematical content of a [`ListEntry`].
pub struct ListEntryModel {
    pub production_id: EntryType,
    pub name: Seq<char>,
    pub poster_path: Option<Seq<char>>,
    pub rating: Score,
    pub favorite: bool,
    pub watched: bool,
}

impl DeepView for ListEntry {
    type V = ListEntryModel;

    open spec fn deep_view(&self) -> ListEntryModel {
        ListEntryModel {
            production_id: self.production_id,
            name: self.name@,
            poster_path: self.poster_path.deep_view(),
            rating: self.rating,
            favorite: self.favorite,
            watched: self.watched,
        }
    }
}

/// The line that stands for a movie of the collection: it shows the
/// movie's title, poster and average vote, and the user's two flags.
pub open spec fn movie_entry(record: UserMovieModel) -> ListEntryModel {
    ListEntryModel {
        production_id: EntryType::Movie(record.movie.id),
        name: record.movie.title,
        poster_path: record.movie.poster_path,
        rating: record.movie.vote_average,
        favorite: record.favorite,
        watched: record.watched,
    }
}

/// The line that stands for a series of the collection: it shows the
/// series' name, poster and average vote, and the user's two flags.
pub open spec fn series_entry(record: UserSeriesModel) -> ListEntryModel {
    ListEntryModel {
        production_id: EntryType::Series(record.series.id),
        name: record.series.name,
        poster_path: record.series.poster_path,
        rating: record.series.vote_average,
        favorite: record.favorite,
        watched: record.watched,
    }
}

impl ListEntry {
    /// The line for a movie of the collection.
    pub fn from_movie(user_movie: &UserMovie) -> (entry: ListEntry)
        ensures
            entry.deep_view() == movie_entry(user_movie.deep_view()),
    {
        let movie = &user_movie.movie;
        ListEntry {
            production_id: EntryType::Movie(movie.id),
            name: movie.title.clone(),
            poster_path: movie.poster_path.clone(),
            rating: movie.vote_average,
            favorite: user_movie.favorite,
            watched: user_movie.watched,
        }
    }

    /// The line for a series of the collection.
    pub fn from_series(user_series: &UserSeries) -> (entry: ListEntry)
        ensures
            entry.deep_view() == series_entry(user_series.deep_view()),
    {
        let series = &user_series.series;
        ListEntry {
            production_id: EntryType::Series(series.id),
            name: series.name.clone(),
            poster_path: series.poster_path.clone(),
            rating: series.vote_average,
            favorite: user_series.favorite,
            watched: user_series.watched,
        }
    }

    /// A second line that shows the same.
    pub fn duplicate(&self) -> (copy: ListEntry)
        ensures
            copy.deep_view() == self.deep_view(),
    {
        ListEntry {
            production_id: self.production_id,
            name: self.name.clone(),
            poster_path: self.poster_path.clone(),
            rating: self.rating,
            favorite: self.favorite,
            watched: self.watched,
        }
    }

    /// Whether this line stands for the selected production: the same kind
    /// and the same id. `EntryType::Nothing` selects no line.
    pub fn is_selected(&self, entry: &EntryType) -> (selected: bool)
        ensures
            selected == (*entry != EntryType::Nothing && self.production_id == *entry),
    {
        match entry {
            EntryType::Movie(selected_id) => {
                match &self.production_id {
                    EntryType::Movie(list_entry_id) => *selected_id == *list_entry_id,
                    _ => false,
                }
            },
            EntryType::Series(selected_id) => {
                match &self.production_id {
                    EntryType::Series(list_entry_id) => *selected_id == *list_entry_id,
                    _ => false,
                }
            },
            EntryType::Nothing => false,
        }
    }
}

/// Which lines the central list shows.
pub struct ListFiltering {
    pub filter_favorites: bool,
    pub filter_watched: bool,
    pub filter_to_watch: bool,
}

impl ListFiltering {
    /// No filter: every line is shown.
    pub fn new() -> (filtering: ListFiltering)
        ensures
            !filtering.filter_favorites,
            !filtering.filter_watched,
            !filtering.filter_to_watch,
    {
        ListFiltering { filter_favorites: false, filter_watched: false, filter_to_watch: false }
    }
}

/// The order in which the central list shows its lines.
pub enum ListOrdering {
    UserDefined,
    Alphabetic,
    RatingAscending,
    RatingDescending,
}

} // verus!
