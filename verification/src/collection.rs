//! What the user does with the collection: adding and removing
//! productions, marking them, arranging them, selecting one, and the list
//! of lines that shows them.

use vstd::prelude::*;
use crate::movies::{find_movie, fresh_movie_record, movie_ids, Movie, UserMovie, UserMovieModel};
use crate::production::{
    movie_entry, series_entry, EntryType, ListEntry, ListEntryModel, ListFiltering, ListOrdering,
    ProdEntry,
};
use crate::selection::Selection;
use crate::sequences::{first_index_of, last_index_of, swapped};
use crate::strings::{contains, occurs_in};
use crate::series::{
    find_series, fresh_series_record, series_ids, Series, UserSeries, UserSeriesModel,
};

verus! {

/// The lines for those of the first `upto` movies that have the given id.
pub open spec fn movie_entries(movies: Seq<UserMovieModel>, id: u32, upto: nat) -> Seq<
    ListEntryModel,
>
    decreases upto,
{
    if upto == 0 {
        Seq::empty()
    } else {
        let earlier = movie_entries(movies, id, (upto - 1) as nat);
        if movies[upto - 1].movie.id == id {
            earlier.push(movie_entry(movies[upto - 1]))
        } else {
            earlier
        }
    }
}

/// The lines for those of the first `upto` series that have the given id.
pub open spec fn series_entries(series: Seq<UserSeriesModel>, id: u32, upto: nat) -> Seq<
    ListEntryModel,
>
    decreases upto,
{
    if upto == 0 {
        Seq::empty()
    } else {
        let earlier = series_entries(series, id, (upto - 1) as nat);
        if series[upto - 1].series.id == id {
            earlier.push(series_entry(series[upto - 1]))
        } else {
            earlier
        }
    }
}

/// The lines that one place of the ordering brings into the list: one for
/// every production of its kind and id. A place that no production
/// answers brings none.
pub open spec fn entries_at(
    position: ProdEntry,
    movies: Seq<UserMovieModel>,
    series: Seq<UserSeriesModel>,
) -> Seq<ListEntryModel> {
    if position.is_movie {
        movie_entries(movies, position.id, movies.len())
    } else {
        series_entries(series, position.id, series.len())
    }
}

/// The list in the user's own order: the lines of the first `upto` places
/// of the ordering, place by place.
pub open spec fn central_entries(
    positions: Seq<ProdEntry>,
    movies: Seq<UserMovieModel>,
    series: Seq<UserSeriesModel>,
    upto: nat,
) -> Seq<ListEntryModel>
    decreases upto,
{
    if upto == 0 {
        Seq::empty()
    } else {
        central_entries(positions, movies, series, (upto - 1) as nat) + entries_at(
            positions[upto - 1],
            movies,
            series,
        )
    }
}

/// Builds the list anew from the ordering and the collection.
pub fn central_list_reload(
    central_user_list: &mut Vec<ListEntry>,
    prod_positions: &Vec<ProdEntry>,
    user_movies: &Vec<UserMovie>,
    user_series: &Vec<UserSeries>,
)
    ensures
        final(central_user_list).deep_view() == central_entries(
            prod_positions@,
            user_movies.deep_view(),
            user_series.deep_view(),
            prod_positions@.len(),
        ),
{
    let ghost movies = user_movies.deep_view();
    let ghost series = user_series.deep_view();
    central_user_list.clear();
    let mut p: usize = 0;
    assert(central_user_list.deep_view() =~= central_entries(prod_positions@, movies, series, 0));
    while p < prod_positions.len()
        invariant
            p <= prod_positions@.len(),
            movies == user_movies.deep_view(),
            series == user_series.deep_view(),
            central_user_list.deep_view() == central_entries(
                prod_positions@,
                movies,
                series,
                p as nat,
            ),
        decreases prod_positions@.len() - p,
    {
        let pos = prod_positions[p];
        let ghost done = central_user_list.deep_view();
        if pos.is_movie {
            let mut i: usize = 0;
            while i < user_movies.len()
                invariant
                    i <= user_movies@.len(),
                    movies == user_movies.deep_view(),
                    central_user_list.deep_view() =~= done + movie_entries(movies, pos.id, i as nat),
                decreases user_movies@.len() - i,
            {
                if user_movies[i].movie.id == pos.id {
                    let ghost held = central_user_list.deep_view();
                    let entry = ListEntry::from_movie(&user_movies[i]);
                    central_user_list.push(entry);
                    assert(central_user_list.deep_view() =~= held.push(movie_entry(movies[i as int])));
                }
                i += 1;
            }
        } else {
            let mut i: usize = 0;
            while i < user_series.len()
                invariant
                    i <= user_series@.len(),
                    series == user_series.deep_view(),
                    central_user_list.deep_view() =~= done + series_entries(
                        series,
                        pos.id,
                        i as nat,
                    ),
                decreases user_series@.len() - i,
            {
                if user_series[i].series.id == pos.id {
                    let ghost held = central_user_list.deep_view();
                    let entry = ListEntry::from_series(&user_series[i]);
                    central_user_list.push(entry);
                    assert(central_user_list.deep_view() =~= held.push(
                        series_entry(series[i as int]),
                    ));
                }
                i += 1;
            }
        }
        p += 1;
    }
}

/// Whether the list is in the state in which the user may rearrange it:
/// shown in the user's own order, with no search going on.
pub open spec fn can_rearrange(ordering: ListOrdering, searched: Seq<char>) -> bool {
    ordering is UserDefined && searched.len() == 0
}

fn may_rearrange(ordering: &ListOrdering, searched: &str) -> (allowed: bool)
    ensures
        allowed == can_rearrange(*ordering, searched@),
{
    let own_order = match ordering {
        ListOrdering::UserDefined => true,
        _ => false,
    };
    own_order && searched.is_empty()
}

fn exchange_lines(list: &mut Vec<ListEntry>, lower: usize)
    requires
        lower + 1 < old(list)@.len(),
    ensures
        final(list)@ == swapped(old(list)@, lower as int, lower + 1),
{
    assert(list@.len() == list.len());
    let line = list.remove(lower);
    list.insert(lower + 1, line);
    assert(list@ =~= swapped(old(list)@, lower as int, lower + 1));
}

fn exchange_places(positions: &mut Vec<ProdEntry>, lower: usize)
    requires
        lower + 1 < old(positions)@.len(),
    ensures
        final(positions)@ == swapped(old(positions)@, lower as int, lower + 1),
{
    assert(positions@.len() == positions.len());
    let place = positions.remove(lower);
    positions.insert(lower + 1, place);
    assert(positions@ =~= swapped(old(positions)@, lower as int, lower + 1));
}

/// Moves the line at `index` one place down, in the list and in the
/// ordering alike, if the list may be rearranged and the line is not the
/// last. Says whether it moved.
pub fn central_user_list_move_down(
    central_user_list: &mut Vec<ListEntry>,
    prod_positions: &mut Vec<ProdEntry>,
    central_ordering: &ListOrdering,
    searched_string: &str,
    index: usize,
) -> (moved: bool)
    requires
        can_rearrange(*central_ordering, searched_string@) && index + 1 < old(
            central_user_list,
        )@.len() ==> index + 1 < old(prod_positions)@.len(),
    ensures
        moved == (can_rearrange(*central_ordering, searched_string@) && index + 1 < old(
            central_user_list,
        )@.len()),
        moved ==> final(central_user_list)@ == swapped(
            old(central_user_list)@,
            index as int,
            index + 1,
        ) && final(prod_positions)@ == swapped(old(prod_positions)@, index as int, index + 1),
        !moved ==> final(central_user_list)@ == old(central_user_list)@ && final(prod_positions)@
            == old(prod_positions)@,
{
    if !may_rearrange(central_ordering, searched_string) {
        return false;
    }
    if index >= central_user_list.len() || index + 1 >= central_user_list.len() {
        return false;
    }
    exchange_lines(central_user_list, index);
    exchange_places(prod_positions, index);
    true
}

/// Moves the line at `index` one place up, in the list and in the ordering
/// alike, if the list may be rearranged and the line is not the first.
/// Says whether it moved.
pub fn central_user_list_move_up(
    central_user_list: &mut Vec<ListEntry>,
    prod_positions: &mut Vec<ProdEntry>,
    central_ordering: &ListOrdering,
    searched_string: &str,
    index: usize,
) -> (moved: bool)
    requires
        can_rearrange(*central_ordering, searched_string@) && index > 0 ==> index < old(
            central_user_list,
        )@.len() && index < old(prod_positions)@.len(),
    ensures
        moved == (can_rearrange(*central_ordering, searched_string@) && index > 0),
        moved ==> final(central_user_list)@ == swapped(
            old(central_user_list)@,
            index as int,
            index - 1,
        ) && final(prod_positions)@ == swapped(old(prod_positions)@, index as int, index - 1),
        !moved ==> final(central_user_list)@ == old(central_user_list)@ && final(prod_positions)@
            == old(prod_positions)@,
{
    if !may_rearrange(central_ordering, searched_string) {
        return false;
    }
    if index == 0 {
        return false;
    }
    exchange_lines(central_user_list, index - 1);
    exchange_places(prod_positions, index - 1);
    assert(central_user_list@ =~= swapped(old(central_user_list)@, index as int, index - 1));
    assert(prod_positions@ =~= swapped(old(prod_positions)@, index as int, index - 1));
    true
}

/// What `str::to_lowercase` makes of a text.
pub uninterp spec fn lowercase(text: Seq<char>) -> Seq<char>;

/// `str::to_lowercase`: the text in lower case, as Unicode defines it,
/// whatever the language of the machine.
#[verifier::external_body]
fn to_lowercase(text: &str) -> (lower: String)
    ensures
        lower@ == lowercase(text@),
{
    text.to_lowercase()
}

/// Whether a line passes the filters and the search. `name` and `searched`
/// are both in lower case.
pub open spec fn passes(
    filtering: ListFiltering,
    favorite: bool,
    watched: bool,
    name: Seq<char>,
    searched: Seq<char>,
) -> bool {
    &&& filtering.filter_favorites ==> favorite
    &&& filtering.filter_watched ==> watched
    &&& occurs_in(searched, name)
}

/// Whether a line with these flags and this name, in lower case, passes the
/// filters and the search for `searched`, in lower case too.
pub fn passes_filter(
    filtering: &ListFiltering,
    favorite: bool,
    watched: bool,
    name: &str,
    searched: &str,
) -> (shown: bool)
    ensures
        shown == passes(*filtering, favorite, watched, name@, searched@),
{
    if filtering.filter_favorites && !favorite {
        return false;
    }
    if filtering.filter_watched && !watched {
        return false;
    }
    contains(name, searched)
}

/// Whether the list shows a line while the user searches for `searched`,
/// given in lower case: the line passes the filters, and its name, in
/// lower case, contains what is searched for.
pub open spec fn is_shown(filtering: ListFiltering, searched: Seq<char>, entry: ListEntryModel) -> bool {
    passes(filtering, entry.favorite, entry.watched, lowercase(entry.name), searched)
}

/// Those of the first `upto` lines that are shown, in their order.
pub open spec fn shown_entries(
    list: Seq<ListEntryModel>,
    filtering: ListFiltering,
    searched: Seq<char>,
    upto: nat,
) -> Seq<ListEntryModel>
    decreases upto,
{
    if upto == 0 {
        Seq::empty()
    } else {
        let earlier = shown_entries(list, filtering, searched, (upto - 1) as nat);
        if is_shown(filtering, searched, list[upto - 1]) {
            earlier.push(list[upto - 1])
        } else {
            earlier
        }
    }
}

/// Fills the list that is drawn with the lines that pass the filters and
/// the search, in the user's own order. The search ignores case.
pub fn central_draw_list_update(
    central_draw_list: &mut Vec<ListEntry>,
    central_user_list: &Vec<ListEntry>,
    central_filtering: &ListFiltering,
    searched_string: &str,
)
    ensures
        final(central_draw_list).deep_view() == shown_entries(
            central_user_list.deep_view(),
            *central_filtering,
            lowercase(searched_string@),
            central_user_list@.len(),
        ),
{
    let ghost list = central_user_list.deep_view();
    let searched_lower = to_lowercase(searched_string);
    let mut new_draw_list: Vec<ListEntry> = Vec::new();
    assert(new_draw_list.deep_view() =~= shown_entries(list, *central_filtering, searched_lower@, 0));
    let mut i: usize = 0;
    while i < central_user_list.len()
        invariant
            i <= central_user_list@.len(),
            list == central_user_list.deep_view(),
            new_draw_list.deep_view() == shown_entries(
                list,
                *central_filtering,
                searched_lower@,
                i as nat,
            ),
        decreases central_user_list@.len() - i,
    {
        let entry = &central_user_list[i];
        let name = to_lowercase(entry.name.as_str());
        if passes_filter(
            central_filtering,
            entry.favorite,
            entry.watched,
            name.as_str(),
            searched_lower.as_str(),
        ) {
            let ghost held = new_draw_list.deep_view();
            new_draw_list.push(entry.duplicate());
            assert(new_draw_list.deep_view() =~= held.push(list[i as int]));
        }
        i += 1;
    }
    *central_draw_list = new_draw_list;
}

/// The selection after a click on a line. A click on the selected line
/// drops the selection. A click on another line selects it: the selection
/// points at the last production of the line's kind and id; for a series,
/// no season and no episode is selected any more. Where the collection
/// holds no such production, the selection points where it pointed.
pub open spec fn selection_after(
    selection: Selection,
    movies: Seq<u32>,
    series: Seq<u32>,
    entry_id: EntryType,
    is_selected: bool,
) -> Selection {
    if is_selected {
        Selection { index: None, season: selection.season, episode: selection.episode }
    } else {
        match entry_id {
            EntryType::Movie(id) => match last_index_of(movies, id, movies.len()) {
                Some(at) => Selection {
                    index: Some(at as usize),
                    season: selection.season,
                    episode: selection.episode,
                },
                None => selection,
            },
            EntryType::Series(id) => match last_index_of(series, id, series.len()) {
                Some(at) => Selection { index: Some(at as usize), season: None, episode: None },
                None => selection,
            },
            EntryType::Nothing => selection,
        }
    }
}

/// Takes a click on the line that stands for `entry_id`; `is_selected`
/// says whether that line was the selected one.
pub fn central_list_handle_selection(
    selected_entry: &mut EntryType,
    selection: &mut Selection,
    user_movies: &Vec<UserMovie>,
    user_series: &Vec<UserSeries>,
    entry_id: EntryType,
    is_selected: bool,
)
    requires
        !is_selected ==> entry_id != EntryType::Nothing,
    ensures
        *final(selected_entry) == if is_selected {
            EntryType::Nothing
        } else {
            entry_id
        },
        *final(selection) == selection_after(
            *old(selection),
            movie_ids(user_movies.deep_view()),
            series_ids(user_series.deep_view()),
            entry_id,
            is_selected,
        ),
{
    if is_selected {
        *selected_entry = EntryType::Nothing;
        selection.index = None;
    } else {
        match entry_id {
            EntryType::Movie(id) => {
                let ghost ids = movie_ids(user_movies.deep_view());
                let mut i: usize = 0;
                while i < user_movies.len()
                    invariant
                        i <= user_movies@.len(),
                        ids == movie_ids(user_movies.deep_view()),
                        selection.season == old(selection).season,
                        selection.episode == old(selection).episode,
                        selection.index == match last_index_of(ids, id, i as nat) {
                            Some(at) => Some(at as usize),
                            None => old(selection).index,
                        },
                    decreases user_movies@.len() - i,
                {
                    if user_movies[i].movie.id == id {
                        selection.index = Some(i);
                    }
                    i += 1;
                }
            },
            EntryType::Series(id) => {
                let ghost ids = series_ids(user_series.deep_view());
                let mut i: usize = 0;
                while i < user_series.len()
                    invariant
                        i <= user_series@.len(),
                        ids == series_ids(user_series.deep_view()),
                        *selection == match last_index_of(ids, id, i as nat) {
                            Some(at) => Selection {
                                index: Some(at as usize),
                                season: None,
                                episode: None,
                            },
                            None => *old(selection),
                        },
                    decreases user_series@.len() - i,
                {
                    if user_series[i].series.id == id {
                        selection.index = Some(i);
                        selection.season = None;
                        selection.episode = None;
                    }
                    i += 1;
                }
            },
            EntryType::Nothing => {},
        }
        *selected_entry = entry_id;
    }
}

/// Where the production to remove stands: at the first place that holds
/// the id, or at the front where none does.
pub open spec fn removal_index(ids: Seq<u32>, id: u32) -> int {
    match first_index_of(ids, id) {
        Some(at) => at,
        None => 0,
    }
}

/// Removes the production that the line stands for from the collection,
/// drops the selection, and builds the list anew. Where the collection
/// holds no production of that id, the first of that kind is removed. The
/// ordering keeps its place for the production.
pub fn central_list_remove_entry(
    selected_entry: &mut EntryType,
    selection: &mut Selection,
    central_user_list: &mut Vec<ListEntry>,
    prod_positions: &Vec<ProdEntry>,
    user_movies: &mut Vec<UserMovie>,
    user_series: &mut Vec<UserSeries>,
    entry_id: EntryType,
)
    requires
        match entry_id {
            EntryType::Movie(_) => old(user_movies)@.len() > 0,
            EntryType::Series(_) => old(user_series)@.len() > 0,
            EntryType::Nothing => false,
        },
    ensures
        *final(selected_entry) == EntryType::Nothing,
        *final(selection) == (Selection {
            index: None,
            season: old(selection).season,
            episode: old(selection).episode,
        }),
        match entry_id {
            EntryType::Movie(id) => {
                &&& final(user_movies)@ == old(user_movies)@.remove(
                    removal_index(movie_ids(old(user_movies).deep_view()), id),
                )
                &&& final(user_series)@ == old(user_series)@
            },
            EntryType::Series(id) => {
                &&& final(user_series)@ == old(user_series)@.remove(
                    removal_index(series_ids(old(user_series).deep_view()), id),
                )
                &&& final(user_movies)@ == old(user_movies)@
            },
            EntryType::Nothing => true,
        },
        final(central_user_list).deep_view() == central_entries(
            prod_positions@,
            final(user_movies).deep_view(),
            final(user_series).deep_view(),
            prod_positions@.len(),
        ),
{
    *selected_entry = EntryType::Nothing;
    selection.index = None;
    match entry_id {
        EntryType::Movie(id) => {
            let found_idx = match find_movie(user_movies, id) {
                Some(at) => at,
                None => 0,
            };
            user_movies.remove(found_idx);
        },
        EntryType::Series(id) => {
            let found_idx = match find_series(user_series, id) {
                Some(at) => at,
                None => 0,
            };
            user_series.remove(found_idx);
        },
        EntryType::Nothing => {},
    }
    central_list_reload(central_user_list, prod_positions, user_movies, user_series);
}

/// A movie with its mark "watched" turned over.
pub open spec fn movie_watched_toggled(record: UserMovieModel) -> UserMovieModel {
    UserMovieModel {
        movie: record.movie,
        user_rating: record.user_rating,
        note: record.note,
        watched: !record.watched,
        favorite: record.favorite,
    }
}

/// A movie with its mark "favorite" turned over.
pub open spec fn movie_favorite_toggled(record: UserMovieModel) -> UserMovieModel {
    UserMovieModel {
        movie: record.movie,
        user_rating: record.user_rating,
        note: record.note,
        watched: record.watched,
        favorite: !record.favorite,
    }
}

/// A series with its mark "watched" turned over.
pub open spec fn series_watched_toggled(record: UserSeriesModel) -> UserSeriesModel {
    UserSeriesModel {
        series: record.series,
        user_rating: record.user_rating,
        note: record.note,
        season_notes: record.season_notes,
        watched: !record.watched,
        favorite: record.favorite,
    }
}

/// A series with its mark "favorite" turned over.
pub open spec fn series_favorite_toggled(record: UserSeriesModel) -> UserSeriesModel {
    UserSeriesModel {
        series: record.series,
        user_rating: record.user_rating,
        note: record.note,
        season_notes: record.season_notes,
        watched: record.watched,
        favorite: !record.favorite,
    }
}

/// The movies after the mark "watched" (or, with `favorite`, the mark
/// "favorite") of the first movie with the given id was turned over.
pub open spec fn movies_marked(movies: Seq<UserMovieModel>, id: u32, favorite: bool) -> Seq<
    UserMovieModel,
> {
    match first_index_of(movie_ids(movies), id) {
        Some(at) => movies.update(
            at,
            if favorite {
                movie_favorite_toggled(movies[at])
            } else {
                movie_watched_toggled(movies[at])
            },
        ),
        None => movies,
    }
}

/// The series after the mark "watched" (or, with `favorite`, the mark
/// "favorite") of the first series with the given id was turned over.
pub open spec fn series_marked(series: Seq<UserSeriesModel>, id: u32, favorite: bool) -> Seq<
    UserSeriesModel,
> {
    match first_index_of(series_ids(series), id) {
        Some(at) => series.update(
            at,
            if favorite {
                series_favorite_toggled(series[at])
            } else {
                series_watched_toggled(series[at])
            },
        ),
        None => series,
    }
}

fn mark_entry(
    central_user_list: &mut Vec<ListEntry>,
    prod_positions: &Vec<ProdEntry>,
    user_movies: &mut Vec<UserMovie>,
    user_series: &mut Vec<UserSeries>,
    entry_id: EntryType,
    favorite: bool,
)
    requires
        entry_id != EntryType::Nothing,
    ensures
        match entry_id {
            EntryType::Movie(id) => {
                &&& final(user_movies).deep_view() == movies_marked(
                    old(user_movies).deep_view(),
                    id,
                    favorite,
                )
                &&& final(user_series)@ == old(user_series)@
            },
            EntryType::Series(id) => {
                &&& final(user_series).deep_view() == series_marked(
                    old(user_series).deep_view(),
                    id,
                    favorite,
                )
                &&& final(user_movies)@ == old(user_movies)@
            },
            EntryType::Nothing => true,
        },
        final(central_user_list).deep_view() == central_entries(
            prod_positions@,
            final(user_movies).deep_view(),
            final(user_series).deep_view(),
            prod_positions@.len(),
        ),
{
    match entry_id {
        EntryType::Movie(id) => {
            if let Some(at) = find_movie(user_movies, id) {
                let movie = &mut user_movies[at];
                if favorite {
                    movie.favorite = !movie.favorite;
                } else {
                    movie.watched = !movie.watched;
                }
            }
            assert(user_movies.deep_view() =~= movies_marked(
                old(user_movies).deep_view(),
                id,
                favorite,
            ));
        },
        EntryType::Series(id) => {
            if let Some(at) = find_series(user_series, id) {
                let series = &mut user_series[at];
                if favorite {
                    series.favorite = !series.favorite;
                } else {
                    series.watched = !series.watched;
                }
            }
            assert(user_series.deep_view() =~= series_marked(
                old(user_series).deep_view(),
                id,
                favorite,
            ));
        },
        EntryType::Nothing => {},
    }
    central_list_reload(central_user_list, prod_positions, user_movies, user_series);
}

/// Turns over the mark "watched" of the first production that the line
/// stands for, and builds the list anew.
pub fn central_list_mark_watched(
    central_user_list: &mut Vec<ListEntry>,
    prod_positions: &Vec<ProdEntry>,
    user_movies: &mut Vec<UserMovie>,
    user_series: &mut Vec<UserSeries>,
    entry_id: EntryType,
)
    requires
        entry_id != EntryType::Nothing,
    ensures
        match entry_id {
            EntryType::Movie(id) => {
                &&& final(user_movies).deep_view() == movies_marked(
                    old(user_movies).deep_view(),
                    id,
                    false,
                )
                &&& final(user_series)@ == old(user_series)@
            },
            EntryType::Series(id) => {
                &&& final(user_series).deep_view() == series_marked(
                    old(user_series).deep_view(),
                    id,
                    false,
                )
                &&& final(user_movies)@ == old(user_movies)@
            },
            EntryType::Nothing => true,
        },
        final(central_user_list).deep_view() == central_entries(
            prod_positions@,
            final(user_movies).deep_view(),
            final(user_series).deep_view(),
            prod_positions@.len(),
        ),
{
    mark_entry(central_user_list, prod_positions, user_movies, user_series, entry_id, false);
}

/// Turns over the mark "favorite" of the first production that the line
/// stands for, and builds the list anew.
pub fn central_list_mark_favorite(
    central_user_list: &mut Vec<ListEntry>,
    prod_positions: &Vec<ProdEntry>,
    user_movies: &mut Vec<UserMovie>,
    user_series: &mut Vec<UserSeries>,
    entry_id: EntryType,
)
    requires
        entry_id != EntryType::Nothing,
    ensures
        match entry_id {
            EntryType::Movie(id) => {
                &&& final(user_movies).deep_view() == movies_marked(
                    old(user_movies).deep_view(),
                    id,
                    true,
                )
                &&& final(user_series)@ == old(user_series)@
            },
            EntryType::Series(id) => {
                &&& final(user_series).deep_view() == series_marked(
                    old(user_series).deep_view(),
                    id,
                    true,
                )
                &&& final(user_movies)@ == old(user_movies)@
            },
            EntryType::Nothing => true,
        },
        final(central_user_list).deep_view() == central_entries(
            prod_positions@,
            final(user_movies).deep_view(),
            final(user_series).deep_view(),
            prod_positions@.len(),
        ),
{
    mark_entry(central_user_list, prod_positions, user_movies, user_series, entry_id, true);
}

/// Adds a movie to the collection, unless the collection holds a movie of
/// its id already. The new movie stands last in the collection, in the
/// ordering and in the list. Says whether it was added.
pub fn add_movie(
    user_movies: &mut Vec<UserMovie>,
    prod_positions: &mut Vec<ProdEntry>,
    central_user_list: &mut Vec<ListEntry>,
    movie: Movie,
) -> (added: bool)
    ensures
        added == !movie_ids(old(user_movies).deep_view()).contains(movie.id),
        added ==> {
            &&& final(user_movies).deep_view() == old(user_movies).deep_view().push(
                fresh_movie_record(movie.deep_view()),
            )
            &&& final(prod_positions)@ == old(prod_positions)@.push(
                ProdEntry { is_movie: true, id: movie.id },
            )
            &&& final(central_user_list).deep_view() == old(central_user_list).deep_view().push(
                movie_entry(fresh_movie_record(movie.deep_view())),
            )
        },
        !added ==> {
            &&& final(user_movies)@ == old(user_movies)@
            &&& final(prod_positions)@ == old(prod_positions)@
            &&& final(central_user_list)@ == old(central_user_list)@
        },
{
    proof {
        crate::sequences::lemma_first_index_of(movie_ids(user_movies.deep_view()), movie.id);
    }
    if find_movie(user_movies, movie.id).is_some() {
        return false;
    }
    let ghost movies = user_movies.deep_view();
    let ghost list = central_user_list.deep_view();
    prod_positions.push(ProdEntry::new(true, movie.id));
    let new_data = UserMovie::new(movie);
    central_user_list.push(ListEntry::from_movie(&new_data));
    user_movies.push(new_data);
    assert(user_movies.deep_view() =~= movies.push(fresh_movie_record(movie.deep_view())));
    assert(central_user_list.deep_view() =~= list.push(movie_entry(fresh_movie_record(movie.deep_view()))));
    true
}

/// Adds a series to the collection, unless the collection holds a series
/// of its id already. The new series stands last in the collection, in the
/// ordering and in the list. Says whether it was added.
pub fn add_series(
    user_series: &mut Vec<UserSeries>,
    prod_positions: &mut Vec<ProdEntry>,
    central_user_list: &mut Vec<ListEntry>,
    series: Series,
) -> (added: bool)
    ensures
        added == !series_ids(old(user_series).deep_view()).contains(series.id),
        added ==> {
            &&& final(user_series).deep_view() == old(user_series).deep_view().push(
                fresh_series_record(series.deep_view()),
            )
            &&& final(prod_positions)@ == old(prod_positions)@.push(
                ProdEntry { is_movie: false, id: series.id },
            )
            &&& final(central_user_list).deep_view() == old(central_user_list).deep_view().push(
                series_entry(fresh_series_record(series.deep_view())),
            )
        },
        !added ==> {
            &&& final(user_series)@ == old(user_series)@
            &&& final(prod_positions)@ == old(prod_positions)@
            &&& final(central_user_list)@ == old(central_user_list)@
        },
{
    proof {
        crate::sequences::lemma_first_index_of(series_ids(user_series.deep_view()), series.id);
    }
    if find_series(user_series, series.id).is_some() {
        return false;
    }
    let ghost all = user_series.deep_view();
    let ghost list = central_user_list.deep_view();
    prod_positions.push(ProdEntry::new(false, series.id));
    let new_data = UserSeries::new(series);
    central_user_list.push(ListEntry::from_series(&new_data));
    user_series.push(new_data);
    assert(user_series.deep_view() =~= all.push(fresh_series_record(series.deep_view())));
    assert(central_user_list.deep_view() =~= list.push(series_entry(fresh_series_record(series.deep_view()))));
    true
}

/// Gives every series and every movie of the collection one more place
/// at the end of the ordering, the series first, whatever places they have.
pub fn migrate_positions(
    user_series: &Vec<UserSeries>,
    user_movies: &Vec<UserMovie>,
    prod_positions: &mut Vec<ProdEntry>,
)
    ensures
        final(prod_positions)@ == old(prod_positions)@ + Seq::new(
            user_series@.len(),
            |i: int| ProdEntry { is_movie: false, id: user_series@[i].series.id },
        ) + Seq::new(
            user_movies@.len(),
            |i: int| ProdEntry { is_movie: true, id: user_movies@[i].movie.id },
        ),
{
    let ghost before = prod_positions@;
    let mut i: usize = 0;
    while i < user_series.len()
        invariant
            i <= user_series@.len(),
            prod_positions@ =~= before + Seq::new(
                i as nat,
                |k: int| ProdEntry { is_movie: false, id: user_series@[k].series.id },
            ),
        decreases user_series@.len() - i,
    {
        prod_positions.push(ProdEntry::new(false, user_series[i].series.id));
        i += 1;
    }
    let ghost with_series = prod_positions@;
    let mut j: usize = 0;
    while j < user_movies.len()
        invariant
            j <= user_movies@.len(),
            prod_positions@ =~= with_series + Seq::new(
                j as nat,
                |k: int| ProdEntry { is_movie: true, id: user_movies@[k].movie.id },
            ),
        decreases user_movies@.len() - j,
    {
        prod_positions.push(ProdEntry::new(true, user_movies[j].movie.id));
        j += 1;
    }
}

} // verus!
