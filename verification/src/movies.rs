//! Movies: the catalog's record of one, and the user's record around it.

use vstd::prelude::*;
use vstd::string::*;
use crate::decimal::{decimal, digit_str, digits_reversed, low_digits};
use crate::score::Score;
use crate::sequences::{first_index_of, is_first_at, lemma_first_index_of};

verus! {

/// What the catalog says of a movie, as it was when the user added it.
#[derive(Clone, Debug)]
pub struct Movie {
    pub id: u32,
    pub title: String,
    pub original_language: String,
    pub overview: String,
    pub popularity: Score,
    pub poster_path: Option<String>,
    pub release_date: String,
    pub vote_average: Score,
    pub vote_count: u32,
    pub adult: bool,
}

/// A movie in the user's collection, with what the user said of it.
#[derive(Clone, Debug)]
pub struct UserMovie {
    pub movie: Movie,
    pub user_rating: Score,
    pub note: String,
    pub watched: bool,
    pub favorite: bool,
}

/// A company that took part in producing a movie.
#[derive(Debug)]
pub struct ProductionCompany {
    pub id: u32,
    pub name: String,
    pub origin_country: String,
    pub logo_path: Option<String>,
}

/// The part of a movie that only a detail query returns.
#[derive(Debug)]
pub struct MovieDetails {
    pub backdrop_path: Option<String>,
    pub budget: usize,
    pub revenue: usize,
    pub runtime: u32,
    pub imdb_id: Option<String>,
    pub original_title: Option<String>,
    pub production_companies: Vec<ProductionCompany>,
    pub status: String,
    pub tagline: String,
    pub genres: Vec<String>,
}

/// How many digits stand before the first separator of an amount of `len`
/// digits: what is left over when the digits are counted off in threes
/// from the right, or three where nothing is left over.
pub open spec fn first_group(len: nat) -> nat {
    if len % 3 == 0 {
        3
    } else {
        len % 3
    }
}

/// How many separators an amount of `len` digits gets: none below five
/// digits; from there, one for every four of the digits behind the first
/// group, a last one for what remains. Up to twelve digits that is one
/// between any two groups of three; longer amounts get fewer.
pub open spec fn separators(len: nat) -> nat {
    if len < 5 {
        0
    } else {
        ((len - first_group(len) + 3) / 4) as nat
    }
}

/// Whether a separator stands before the digit at `index` of an amount of
/// `len` digits.
pub open spec fn separated_before(len: nat, index: int) -> bool {
    let first = first_group(len) as int;
    &&& index >= first
    &&& (index - first) % 3 == 0
    &&& (index - first) / 3 < separators(len)
}

/// The first `upto` of the digits, with a space wherever a separator
/// stands.
pub open spec fn grouped(digits: Seq<char>, upto: nat) -> Seq<char>
    decreases upto,
{
    if upto == 0 {
        Seq::empty()
    } else {
        let earlier = grouped(digits, (upto - 1) as nat);
        if separated_before(digits.len(), upto - 1) {
            earlier.push(' ').push(digits[upto - 1])
        } else {
            earlier.push(digits[upto - 1])
        }
    }
}

/// An amount of money as it is shown: its decimal digits in groups, and a
/// dollar sign behind them.
pub open spec fn money(amount: nat) -> Seq<char> {
    grouped(decimal(amount), decimal(amount).len()).push('$')
}

impl MovieDetails {
    /// What the movie earned, as it is shown.
    pub fn revenue(&self) -> (text: String)
        ensures
            text@ == money(self.revenue as nat),
    {
        self.format(self.revenue)
    }

    /// What the movie cost, as it is shown.
    pub fn budget(&self) -> (text: String)
        ensures
            text@ == money(self.budget as nat),
    {
        self.format(self.budget)
    }

    /// An amount of money as it is shown.
    pub fn format(&self, amount: usize) -> (text: String)
        ensures
            text@ == money(amount as nat),
    {
        let low = low_digits(amount as u64);
        let ghost digits = decimal(amount as nat);
        let len = low.len();
        let first: usize = if len % 3 == 0 {
            3
        } else {
            len % 3
        };
        let count: usize = if len < 5 {
            0
        } else if (len - first) % 4 == 0 {
            (len - first) / 4
        } else {
            (len - first) / 4 + 1
        };
        assert(count == separators(len as nat));
        let mut text = String::new();
        let mut i: usize = 0;
        while i < len
            invariant
                i <= len,
                len == low@.len(),
                digits == digits_reversed(low@),
                digits.len() == len,
                first == first_group(len as nat),
                count == separators(len as nat),
                forall|k: int| 0 <= k < low@.len() ==> low@[k] < 10,
                text@ =~= grouped(digits, i as nat),
            decreases len - i,
        {
            if i >= first && (i - first) % 3 == 0 && (i - first) / 3 < count {
                proof {
                    reveal_strlit(" ");
                }
                text.append(" ");
                assert(text@ =~= grouped(digits, i as nat).push(' '));
            }
            text.append(digit_str(low[len - 1 - i]));
            i += 1;
        }
        proof {
            reveal_strlit("$");
        }
        text.append("$");
        assert(text@ =~= money(amount as nat));
        text
    }
}

/// The mathematical content of a [`Movie`].
pub struct MovieModel {
    pub id: u32,
    pub title: Seq<char>,
    pub original_language: Seq<char>,
    pub overview: Seq<char>,
    pub popularity: Score,
    pub poster_path: Option<Seq<char>>,
    pub release_date: Seq<char>,
    pub vote_average: Score,
    pub vote_count: u32,
    pub adult: bool,
}

impl DeepView for Movie {
    type V = MovieModel;

    open spec fn deep_view(&self) -> MovieModel {
        MovieModel {
            id: self.id,
            title: self.title@,
            original_language: self.original_language@,
            overview: self.overview@,
            popularity: self.popularity,
            poster_path: self.poster_path.deep_view(),
            release_date: self.release_date@,
            vote_average: self.vote_average,
            vote_count: self.vote_count,
            adult: self.adult,
        }
    }
}

/// The mathematical content of a [`UserMovie`].
pub struct UserMovieModel {
    pub movie: MovieModel,
    pub user_rating: Score,
    pub note: Seq<char>,
    pub watched: bool,
    pub favorite: bool,
}

impl DeepView for UserMovie {
    type V = UserMovieModel;

    open spec fn deep_view(&self) -> UserMovieModel {
        UserMovieModel {
            movie: self.movie.deep_view(),
            user_rating: self.user_rating,
            note: self.note@,
            watched: self.watched,
            favorite: self.favorite,
        }
    }
}

/// The ids of the movies, in their order.
pub open spec fn movie_ids(movies: Seq<UserMovieModel>) -> Seq<u32> {
    Seq::new(movies.len(), |i: int| movies[i].movie.id)
}

/// The record of a movie that the user has just added: unrated, without
/// a note, neither watched nor a favorite.
pub open spec fn fresh_movie_record(movie: MovieModel) -> UserMovieModel {
    UserMovieModel {
        movie,
        user_rating: Score { bits: 0 },
        note: Seq::empty(),
        watched: false,
        favorite: false,
    }
}

/// Where the first movie with the given id stands, if there is one.
pub fn find_movie(movies: &Vec<UserMovie>, id: u32) -> (found: Option<usize>)
    ensures
        match found {
            Some(index) => first_index_of(movie_ids(movies.deep_view()), id) == Some(index as int),
            None => first_index_of(movie_ids(movies.deep_view()), id) is None,
        },
{
    let ghost ids = movie_ids(movies.deep_view());
    proof {
        lemma_first_index_of(ids, id);
    }
    let mut j: usize = 0;
    while j < movies.len()
        invariant
            j <= movies@.len(),
            ids == movie_ids(movies.deep_view()),
            forall|k: int| 0 <= k < j ==> ids[k] != id,
        decreases movies@.len() - j,
    {
        if movies[j].movie.id == id {
            assert(is_first_at(ids, id, j as int));
            return Some(j);
        }
        j += 1;
    }
    None
}

impl UserMovie {
    /// A fresh record for a movie: unrated, without a note, neither watched
    /// nor a favorite.
    pub fn new(movie: Movie) -> (record: UserMovie)
        ensures
            record.deep_view() == fresh_movie_record(movie.deep_view()),
    {
        UserMovie { movie, user_rating: Score::zero(), note: String::new(), watched: false, favorite: false }
    }
}

} // verus!
