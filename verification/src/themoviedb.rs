//! The addresses under which the catalog service and its neighbours answer.

use vstd::prelude::*;
use vstd::string::*;
use vstd::std_specs::cmp::PartialEqSpec;
use crate::decimal::{decimal, to_decimal};

verus! {

pub const SEARCH_MULTI_URL: &'static str = "https://api.themoviedb.org/3/search/multi";

pub const SERIES_DETAILS_URL: &'static str = "https://api.themoviedb.org/3/tv/";

pub const MOVIE_DETAILS_URL: &'static str = "https://api.themoviedb.org/3/movie/";

pub const IMAGE_URL: &'static str = "https://image.tmdb.org/t/p/";

pub const IMDB_TITLE: &'static str = "https://www.imdb.com/title/";

pub const IMDB_FIND: &'static str = "https://www.imdb.com/find/?q=";

pub const MOVIE_URL: &'static str = "https://www.themoviedb.org/movie/";

pub const TV_URL: &'static str = "https://www.themoviedb.org/tv/";

/// The widths in which the catalog serves a poster.
pub enum Width {
    W200,
    W300,
    W400,
    W500,
    ORIGINAL,
}

/// The name by which the catalog knows a poster width.
pub open spec fn width_name(width: Width) -> Seq<char> {
    match width {
        Width::W200 => "w200"@,
        Width::W300 => "w300"@,
        Width::W400 => "w400"@,
        Width::W500 => "w500"@,
        Width::ORIGINAL => "original"@,
    }
}

/// The address of a poster in the given width. `poster` is the poster's
/// path as the catalog gives it, with its leading slash.
pub fn get_full_poster_url(poster: &str, width: Width) -> (url: String)
    ensures
        url@ == IMAGE_URL@ + width_name(width) + poster@,
{
    let size = match width {
        Width::W200 => "w200",
        Width::W300 => "w300",
        Width::W400 => "w400",
        Width::W500 => "w500",
        Width::ORIGINAL => "original",
    };
    String::from_str(IMAGE_URL).concat(size).concat(poster)
}

/// The value of the header that authorizes a query with the access token.
pub fn bearer(api_key: &str) -> (value: String)
    ensures
        value@ == "Bearer "@ + api_key@,
{
    String::from_str("Bearer ").concat(api_key)
}

/// The address that searches the catalog for movies and series alike.
pub fn search_url(query: &str) -> (url: String)
    ensures
        url@ == SEARCH_MULTI_URL@ + "?query="@ + query@ + "&include_adult=true"@,
{
    String::from_str(SEARCH_MULTI_URL).concat("?query=").concat(query).concat("&include_adult=true")
}

/// The address of the details of a series.
pub fn series_details_url(id: u32) -> (url: String)
    ensures
        url@ == SERIES_DETAILS_URL@ + decimal(id as nat),
{
    String::from_str(SERIES_DETAILS_URL).concat(to_decimal(id as u64).as_str())
}

/// The address of the details of one season of a series.
pub fn season_details_url(series_id: u32, season_number: u32) -> (url: String)
    ensures
        url@ == SERIES_DETAILS_URL@ + decimal(series_id as nat) + "/season/"@ + decimal(
            season_number as nat,
        ),
{
    String::from_str(SERIES_DETAILS_URL).concat(to_decimal(series_id as u64).as_str()).concat(
        "/season/",
    ).concat(to_decimal(season_number as u64).as_str())
}

/// The address that lists the seasons of a series.
pub fn seasons_url(series_id: u32) -> (url: String)
    ensures
        url@ == SERIES_DETAILS_URL@ + decimal(series_id as nat) + "/season/&append_to_response=3"@,
{
    String::from_str(SERIES_DETAILS_URL).concat(to_decimal(series_id as u64).as_str()).concat(
        "/season/&append_to_response=3",
    )
}

/// The address of the details of a movie.
pub fn movie_details_url(movie_id: u32) -> (url: String)
    ensures
        url@ == MOVIE_DETAILS_URL@ + decimal(movie_id as nat),
{
    String::from_str(MOVIE_DETAILS_URL).concat(to_decimal(movie_id as u64).as_str())
}

/// The address of something that the catalog keeps about a production:
/// the address of its kind, a slash, its id, a slash, and what is asked for.
pub fn facet_url(kind_url: &str, id: u32, facet: &str) -> (url: String)
    ensures
        url@ == kind_url@ + "/"@ + decimal(id as nat) + "/"@ + facet@,
{
    String::from_str(kind_url).concat("/").concat(to_decimal(id as u64).as_str()).concat("/").concat(
        facet,
    )
}

/// The address of the trailers of a production; `kind` is `movie` or `tv`.
pub fn videos_url(kind: &str, id: u32) -> (url: String)
    ensures
        url@ == "https://api.themoviedb.org/3/"@ + kind@ + "/"@ + decimal(id as nat) + "/videos"@,
{
    String::from_str("https://api.themoviedb.org/3/").concat(kind).concat("/").concat(
        to_decimal(id as u64).as_str(),
    ).concat("/videos")
}

/// The page of a production on the site of another catalog: its title
/// page where its id there is known, a search for its name where not.
pub fn imdb_url(imdb_id: &Option<String>, prod_name: &str) -> (url: String)
    ensures
        url@ == match *imdb_id {
            Some(id) => IMDB_TITLE@ + id@,
            None => IMDB_FIND@ + prod_name@,
        },
{
    match imdb_id {
        Some(id) => String::from_str(IMDB_TITLE).concat(id.as_str()),
        None => String::from_str(IMDB_FIND).concat(prod_name),
    }
}

/// The page of a production on the catalog's own site; `site_url` is
/// [`MOVIE_URL`] or [`TV_URL`].
pub fn page_url(site_url: &str, id: u32) -> (url: String)
    ensures
        url@ == site_url@ + decimal(id as nat),
{
    String::from_str(site_url).concat(to_decimal(id as u64).as_str())
}

/// A map that keeps its entries in a list, in the order in which they came.
/// A key may stand in it more than once: the first entry is the one found.
pub struct VecMap<K, V> {
    pub keys_to_values: Vec<(K, V)>,
}

/// Where the first of the entries with a key equal to `key` stands, or the
/// number of entries where there is none.
pub open spec fn first_key_index<K: PartialEq, V>(entries: Seq<(K, V)>, key: K, from: int) -> int
    decreases entries.len() - from,
{
    if from < 0 || from >= entries.len() {
        entries.len() as int
    } else if entries[from].0.eq_spec(&key) {
        from
    } else {
        first_key_index(entries, key, from + 1)
    }
}

impl<K: PartialEq, V> VecMap<K, V> {
    /// An empty map.
    pub fn new() -> (map: VecMap<K, V>)
        ensures
            map.keys_to_values@ == Seq::<(K, V)>::empty(),
    {
        VecMap { keys_to_values: Vec::new() }
    }

    /// Adds an entry at the end.
    pub fn put_value(&mut self, key: K, value: V)
        ensures
            final(self).keys_to_values@ == old(self).keys_to_values@.push((key, value)),
    {
        self.keys_to_values.push((key, value));
    }

    /// The value of the first entry with a key equal to `key`.
    pub fn get(&self, key: &K) -> (value: Option<&V>)
        ensures
            K::obeys_eq_spec() ==> ({
                let index = first_key_index(self.keys_to_values@, *key, 0);
                if index < self.keys_to_values@.len() {
                    value == Some(&self.keys_to_values@[index].1)
                } else {
                    value is None
                }
            }),
    {
        let mut i: usize = 0;
        while i < self.keys_to_values.len()
            invariant
                i <= self.keys_to_values@.len(),
                K::obeys_eq_spec() ==> first_key_index(self.keys_to_values@, *key, 0)
                    == first_key_index(self.keys_to_values@, *key, i as int),
            decreases self.keys_to_values@.len() - i,
        {
            if self.keys_to_values[i].0 == *key {
                return Some(&self.keys_to_values[i].1);
            }
            i += 1;
        }
        None
    }

    /// Removes the first entry with a key equal to `key`, if there is one.
    pub fn remove(&mut self, key: K)
        ensures
            K::obeys_eq_spec() ==> ({
                let index = first_key_index(old(self).keys_to_values@, key, 0);
                if index < old(self).keys_to_values@.len() {
                    final(self).keys_to_values@ == old(self).keys_to_values@.remove(index)
                } else {
                    final(self).keys_to_values@ == old(self).keys_to_values@
                }
            }),
    {
        let mut i: usize = 0;
        while i < self.keys_to_values.len()
            invariant
                i <= self.keys_to_values@.len(),
                self.keys_to_values@ == old(self).keys_to_values@,
                K::obeys_eq_spec() ==> first_key_index(self.keys_to_values@, key, 0)
                    == first_key_index(self.keys_to_values@, key, i as int),
            decreases self.keys_to_values@.len() - i,
        {
            if self.keys_to_values[i].0 == key {
                self.keys_to_values.remove(i);
                return ;
            }
            i += 1;
        }
    }

    /// The number of entries.
    pub fn size(&self) -> (size: usize)
        ensures
            size == self.keys_to_values@.len(),
    {
        self.keys_to_values.len()
    }
}

} // verus!
