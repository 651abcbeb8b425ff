//! Merging a second copy of the user's data into the local one.
//!
//! Productions that both copies hold are merged field by field, the local
//! copy being authoritative; productions that only the other copy holds are
//! taken over, each with a place at the end of the ordering.

use std::collections::HashSet;
use vstd::prelude::*;
use crate::integrity::is_placed;
use crate::movies::{find_movie, movie_ids, UserMovie, UserMovieModel};
use crate::production::{ProdEntry, UserData, UserDataModel};
use crate::score::{merge_rating, pick_with_value};
use crate::sequences::{first_index_of, is_first_at, lemma_contains_after_push, lemma_first_index_of};
use crate::series::{
    find_series, series_ids, SeasonNotes, SeasonNotesModel, UserSeries, UserSeriesModel,
};
use crate::text::{
    agrees_with, lemma_merge_text_again, lemma_merge_text_same, merge_strings, merge_text,
};

verus! {

broadcast use vstd::std_specs::hash::group_hash_axioms;

/// A part of a series' notes that the merge left as it was, because the
/// two copies do not agree on its shape.
#[derive(Clone, Copy, Debug)]
pub enum SeasonMismatch {
    /// The two copies hold notes for different numbers of seasons: none of
    /// the season notes was merged.
    SeasonCount { local: usize, foreign: usize },
    /// The two copies hold different numbers of episode notes for the
    /// season at index `season`: that season was not merged.
    EpisodeCount { season: usize, local: usize, foreign: usize },
}

/// A [`SeasonMismatch`], with the series in which it was found.
#[derive(Clone, Copy, Debug)]
pub struct MergeNotice {
    pub series_id: u32,
    pub mismatch: SeasonMismatch,
}

/// A movie that both copies hold, merged: a flag is set if either copy
/// sets it, and the note and the rating are merged as notes and ratings
/// are. The catalog record stays the local one.
pub open spec fn merged_movie(local: UserMovieModel, other: UserMovieModel) -> UserMovieModel {
    UserMovieModel {
        movie: local.movie,
        user_rating: merge_rating(local.user_rating, other.user_rating),
        note: merge_text(local.note, other.note),
        watched: local.watched || other.watched,
        favorite: local.favorite || other.favorite,
    }
}

/// The notes of one season, merged. Where the two copies hold different
/// numbers of episode notes, the local season stays exactly as it is.
pub open spec fn merged_season(local: SeasonNotesModel, other: SeasonNotesModel) -> SeasonNotesModel {
    if local.episode_notes.len() != other.episode_notes.len() {
        local
    } else {
        SeasonNotesModel {
            note: merge_text(local.note, other.note),
            user_rating: merge_rating(local.user_rating, other.user_rating),
            episode_notes: Seq::new(
                local.episode_notes.len(),
                |e: int| merge_text(local.episode_notes[e], other.episode_notes[e]),
            ),
        }
    }
}

/// The season notes of a series, merged season by season. Where the two
/// copies hold notes for different numbers of seasons, the local notes stay
/// exactly as they are.
pub open spec fn merged_seasons(local: Seq<SeasonNotesModel>, other: Seq<SeasonNotesModel>) -> Seq<
    SeasonNotesModel,
> {
    if local.len() != other.len() {
        local
    } else {
        Seq::new(local.len(), |i: int| merged_season(local[i], other[i]))
    }
}

/// A series that both copies hold, merged: flags, note and rating as for a
/// movie, and the season notes as [`merged_seasons`] says.
pub open spec fn merged_series(local: UserSeriesModel, other: UserSeriesModel) -> UserSeriesModel {
    UserSeriesModel {
        series: local.series,
        user_rating: merge_rating(local.user_rating, other.user_rating),
        note: merge_text(local.note, other.note),
        season_notes: merged_seasons(local.season_notes, other.season_notes),
        watched: local.watched || other.watched,
        favorite: local.favorite || other.favorite,
    }
}

/// The seasons among the first `upto` for which the two copies hold
/// different numbers of episode notes, in their order.
pub open spec fn episode_mismatches(
    local: Seq<SeasonNotesModel>,
    other: Seq<SeasonNotesModel>,
    upto: nat,
) -> Seq<SeasonMismatch>
    decreases upto,
{
    if upto == 0 {
        Seq::empty()
    } else {
        let earlier = episode_mismatches(local, other, (upto - 1) as nat);
        let ours = local[upto - 1].episode_notes.len();
        let theirs = other[upto - 1].episode_notes.len();
        if ours != theirs {
            earlier.push(
                SeasonMismatch::EpisodeCount {
                    season: (upto - 1) as usize,
                    local: ours as usize,
                    foreign: theirs as usize,
                },
            )
        } else {
            earlier
        }
    }
}

/// What the merge of a series' season notes leaves unmerged.
pub open spec fn season_mismatches(
    local: Seq<SeasonNotesModel>,
    other: Seq<SeasonNotesModel>,
) -> Seq<SeasonMismatch> {
    if local.len() != other.len() {
        seq![SeasonMismatch::SeasonCount { local: local.len() as usize, foreign: other.len() as usize }]
    } else {
        episode_mismatches(local, other, local.len())
    }
}

/// Whether the foreign production at `index` is new: no local production
/// and no earlier foreign one has its id.
pub open spec fn is_fresh(local_ids: Seq<u32>, foreign_ids: Seq<u32>, index: int) -> bool {
    &&& !local_ids.contains(foreign_ids[index])
    &&& !foreign_ids.take(index).contains(foreign_ids[index])
}

/// Where, among the first `upto` foreign productions, the new ones stand,
/// in their order.
pub open spec fn fresh_indices(local_ids: Seq<u32>, foreign_ids: Seq<u32>, upto: nat) -> Seq<int>
    decreases upto,
{
    if upto == 0 {
        Seq::empty()
    } else {
        let earlier = fresh_indices(local_ids, foreign_ids, (upto - 1) as nat);
        if is_fresh(local_ids, foreign_ids, upto - 1) {
            earlier.push(upto - 1)
        } else {
            earlier
        }
    }
}

/// The places in the ordering for the new foreign productions of one kind.
pub open spec fn new_entries(is_movie: bool, local_ids: Seq<u32>, foreign_ids: Seq<u32>) -> Seq<
    ProdEntry,
> {
    let fresh = fresh_indices(local_ids, foreign_ids, foreign_ids.len());
    Seq::new(fresh.len(), |n: int| ProdEntry { is_movie, id: foreign_ids[fresh[n]] })
}

/// The local movies after the foreign ones were merged into them: each
/// is merged with the first foreign movie of its id, and stays as it is
/// where there is none.
pub open spec fn merged_common_movies(
    local: Seq<UserMovieModel>,
    foreign: Seq<UserMovieModel>,
) -> Seq<UserMovieModel> {
    Seq::new(
        local.len(),
        |i: int|
            match first_index_of(movie_ids(foreign), local[i].movie.id) {
                Some(j) => merged_movie(local[i], foreign[j]),
                None => local[i],
            },
    )
}

/// The new foreign movies, in their order.
pub open spec fn new_movies(local: Seq<UserMovieModel>, foreign: Seq<UserMovieModel>) -> Seq<
    UserMovieModel,
> {
    let fresh = fresh_indices(movie_ids(local), movie_ids(foreign), foreign.len());
    Seq::new(fresh.len(), |n: int| foreign[fresh[n]])
}

/// The movies after the merge: the local ones, merged, and behind them
/// the new foreign ones.
pub open spec fn merged_movies(local: Seq<UserMovieModel>, foreign: Seq<UserMovieModel>) -> Seq<
    UserMovieModel,
> {
    merged_common_movies(local, foreign) + new_movies(local, foreign)
}

/// The local series after the foreign ones were merged into them: each
/// is merged with the first foreign series of its id, and stays as it is
/// where there is none.
pub open spec fn merged_common_series(
    local: Seq<UserSeriesModel>,
    foreign: Seq<UserSeriesModel>,
) -> Seq<UserSeriesModel> {
    Seq::new(
        local.len(),
        |i: int|
            match first_index_of(series_ids(foreign), local[i].series.id) {
                Some(j) => merged_series(local[i], foreign[j]),
                None => local[i],
            },
    )
}

/// The new foreign series, in their order.
pub open spec fn new_series(local: Seq<UserSeriesModel>, foreign: Seq<UserSeriesModel>) -> Seq<
    UserSeriesModel,
> {
    let fresh = fresh_indices(series_ids(local), series_ids(foreign), foreign.len());
    Seq::new(fresh.len(), |n: int| foreign[fresh[n]])
}

/// The series after the merge: the local ones, merged, and behind them
/// the new foreign ones.
pub open spec fn merged_all_series(local: Seq<UserSeriesModel>, foreign: Seq<UserSeriesModel>) -> Seq<
    UserSeriesModel,
> {
    merged_common_series(local, foreign) + new_series(local, foreign)
}

/// The ordering after the merge: what was there stays where it was; behind
/// it come the places of the new series, then those of the new movies.
pub open spec fn merged_positions(
    positions: Seq<ProdEntry>,
    local_series: Seq<u32>,
    foreign_series: Seq<u32>,
    local_movies: Seq<u32>,
    foreign_movies: Seq<u32>,
) -> Seq<ProdEntry> {
    positions + new_entries(false, local_series, foreign_series) + new_entries(
        true,
        local_movies,
        foreign_movies,
    )
}

/// The mismatches of one series, each with the series' id.
pub open spec fn noticed(series_id: u32, mismatches: Seq<SeasonMismatch>) -> Seq<MergeNotice> {
    Seq::new(mismatches.len(), |n: int| MergeNotice { series_id, mismatch: mismatches[n] })
}

/// What the merge of the first `upto` local series leaves unmerged, in the
/// order of the series and, within a series, of its seasons.
pub open spec fn merge_notices(
    local: Seq<UserSeriesModel>,
    foreign: Seq<UserSeriesModel>,
    upto: nat,
) -> Seq<MergeNotice>
    decreases upto,
{
    if upto == 0 {
        Seq::empty()
    } else {
        let earlier = merge_notices(local, foreign, (upto - 1) as nat);
        let ours = local[upto - 1];
        match first_index_of(series_ids(foreign), ours.series.id) {
            Some(j) => earlier + noticed(
                ours.series.id,
                season_mismatches(ours.season_notes, foreign[j].season_notes),
            ),
            None => earlier,
        }
    }
}

/// Merges the notes of one season of the other copy into the local ones,
/// unless the two hold different numbers of episode notes: then the local
/// season stays as it is. Says whether it merged.
pub fn merge_season(season: &mut SeasonNotes, other_season: &SeasonNotes) -> (merged: bool)
    ensures
        final(season).deep_view() == merged_season(old(season).deep_view(), other_season.deep_view()),
        merged == (old(season).episode_notes@.len() == other_season.episode_notes@.len()),
{
    let episode_count = season.episode_notes.len();
    if episode_count != other_season.episode_notes.len() {
        return false;
    }
    merge_strings(&mut season.note, other_season.note.as_str());
    season.user_rating = pick_with_value(season.user_rating, other_season.user_rating);
    let mut j: usize = 0;
    while j < episode_count
        invariant
            j <= episode_count,
            episode_count == old(season).episode_notes@.len(),
            episode_count == other_season.episode_notes@.len(),
            season.episode_notes@.len() == episode_count,
            season.note@ == merge_text(old(season).note@, other_season.note@),
            season.user_rating == merge_rating(old(season).user_rating, other_season.user_rating),
            forall|e: int|
                0 <= e < j ==> (#[trigger] season.episode_notes@[e])@ == merge_text(
                    old(season).episode_notes@[e]@,
                    other_season.episode_notes@[e]@,
                ),
            forall|e: int|
                j <= e < episode_count ==> season.episode_notes@[e] == old(season).episode_notes@[e],
        decreases episode_count - j,
    {
        merge_strings(&mut season.episode_notes[j], other_season.episode_notes[j].as_str());
        j += 1;
    }
    assert(season.deep_view().episode_notes =~= merged_season(
        old(season).deep_view(),
        other_season.deep_view(),
    ).episode_notes);
    true
}

/// Merges the season notes of the other copy into the local ones, season
/// by season. Where the two copies hold notes for different numbers of
/// seasons nothing is merged; where they hold different numbers of episode
/// notes for a season, that season is not merged. Returns what was left
/// unmerged, in the order of the seasons.
pub fn merge_season_notes(notes: &mut Vec<SeasonNotes>, other_notes: &Vec<SeasonNotes>) -> (skipped:
    Vec<SeasonMismatch>)
    ensures
        final(notes).deep_view() == merged_seasons(old(notes).deep_view(), other_notes.deep_view()),
        skipped@ == season_mismatches(old(notes).deep_view(), other_notes.deep_view()),
{
    let ghost before = notes.deep_view();
    let ghost other = other_notes.deep_view();
    let mut skipped: Vec<SeasonMismatch> = Vec::new();
    let len = notes.len();
    if len != other_notes.len() {
        skipped.push(SeasonMismatch::SeasonCount { local: len, foreign: other_notes.len() });
        assert(skipped@ =~= season_mismatches(before, other));
        return skipped;
    }
    let mut i: usize = 0;
    while i < len
        invariant
            i <= len,
            len == before.len(),
            len == other.len(),
            before == old(notes).deep_view(),
            other == other_notes.deep_view(),
            notes@.len() == len,
            forall|k: int|
                0 <= k < i ==> (#[trigger] notes@[k]).deep_view() == merged_season(
                    before[k],
                    other[k],
                ),
            forall|k: int| i <= k < len ==> (#[trigger] notes@[k]).deep_view() == before[k],
            skipped@ == episode_mismatches(before, other, i as nat),
        decreases len - i,
    {
        let other_season = &other_notes[i];
        let season = &mut notes[i];
        let ours = season.episode_notes.len();
        let merged = merge_season(season, other_season);
        if !merged {
            skipped.push(
                SeasonMismatch::EpisodeCount {
                    season: i,
                    local: ours,
                    foreign: other_season.episode_notes.len(),
                },
            );
        }
        i += 1;
    }
    assert(notes.deep_view() =~= merged_seasons(before, other));
    skipped
}

/// Merges, into every local movie, the first movie of the other copy that
/// has its id. Local movies that the other copy lacks stay as they are.
pub fn merge_common_movies(user_movies: &mut Vec<UserMovie>, other_movies: &Vec<UserMovie>)
    ensures
        final(user_movies).deep_view() == merged_common_movies(
            old(user_movies).deep_view(),
            other_movies.deep_view(),
        ),
{
    let ghost before = user_movies.deep_view();
    let ghost foreign = other_movies.deep_view();
    let mut i: usize = 0;
    while i < user_movies.len()
        invariant
            i <= user_movies@.len(),
            before == old(user_movies).deep_view(),
            foreign == other_movies.deep_view(),
            user_movies@.len() == before.len(),
            forall|k: int|
                0 <= k < i ==> (#[trigger] user_movies@[k]).deep_view() == merged_common_movies(
                    before,
                    foreign,
                )[k],
            forall|k: int| i <= k < before.len() ==> (#[trigger] user_movies@[k]).deep_view() == before[k],
        decreases user_movies@.len() - i,
    {
        let found = find_movie(other_movies, user_movies[i].movie.id);
        if let Some(j) = found {
            let other_movie = &other_movies[j];
            let mov = &mut user_movies[i];
            mov.favorite = mov.favorite || other_movie.favorite;
            mov.watched = mov.watched || other_movie.watched;
            merge_strings(&mut mov.note, other_movie.note.as_str());
            mov.user_rating = pick_with_value(mov.user_rating, other_movie.user_rating);
        }
        i += 1;
    }
    assert(user_movies.deep_view() =~= merged_common_movies(before, foreign));
}

/// Merges, into every local series, the first series of the other copy
/// that has its id, season notes included. Local series that the other
/// copy lacks stay as they are. Returns what was left unmerged because the
/// two copies do not agree on the shape of the notes.
pub fn merge_common_series(user_series: &mut Vec<UserSeries>, other_series: &Vec<UserSeries>) -> (notices:
    Vec<MergeNotice>)
    ensures
        final(user_series).deep_view() == merged_common_series(
            old(user_series).deep_view(),
            other_series.deep_view(),
        ),
        notices@ == merge_notices(
            old(user_series).deep_view(),
            other_series.deep_view(),
            old(user_series)@.len(),
        ),
{
    let ghost before = user_series.deep_view();
    let ghost foreign = other_series.deep_view();
    let mut notices: Vec<MergeNotice> = Vec::new();
    let mut i: usize = 0;
    while i < user_series.len()
        invariant
            i <= user_series@.len(),
            before == old(user_series).deep_view(),
            foreign == other_series.deep_view(),
            user_series@.len() == before.len(),
            forall|k: int|
                0 <= k < i ==> (#[trigger] user_series@[k]).deep_view() == merged_common_series(
                    before,
                    foreign,
                )[k],
            forall|k: int| i <= k < before.len() ==> (#[trigger] user_series@[k]).deep_view() == before[k],
            notices@ == merge_notices(before, foreign, i as nat),
        decreases user_series@.len() - i,
    {
        let series_id = user_series[i].series.id;
        let found = find_series(other_series, series_id);
        if let Some(j) = found {
            let other = &other_series[j];
            let series = &mut user_series[i];
            series.favorite = series.favorite || other.favorite;
            series.watched = series.watched || other.watched;
            merge_strings(&mut series.note, other.note.as_str());
            series.user_rating = pick_with_value(series.user_rating, other.user_rating);
            let skipped = merge_season_notes(&mut series.season_notes, &other.season_notes);
            let ghost earlier = notices@;
            let mut n: usize = 0;
            while n < skipped.len()
                invariant
                    n <= skipped@.len(),
                    notices@ == earlier + noticed(series_id, skipped@.take(n as int)),
                decreases skipped@.len() - n,
            {
                notices.push(MergeNotice { series_id, mismatch: skipped[n] });
                assert(noticed(series_id, skipped@.take(n + 1)) =~= noticed(
                    series_id,
                    skipped@.take(n as int),
                ).push(MergeNotice { series_id, mismatch: skipped@[n as int] }));
                n += 1;
            }
            assert(skipped@.take(skipped@.len() as int) =~= skipped@);
        }
        i += 1;
    }
    assert(user_series.deep_view() =~= merged_common_series(before, foreign));
    notices
}

proof fn lemma_seen_after(local_ids: Seq<u32>, foreign_ids: Seq<u32>, k: int, id: u32)
    requires
        0 <= k < foreign_ids.len(),
    ensures
        (local_ids.contains(id) || foreign_ids.take(k + 1).contains(id)) <==> (local_ids.contains(id)
            || foreign_ids.take(k).contains(id) || foreign_ids[k] == id),
{
    assert(foreign_ids.take(k + 1) =~= foreign_ids.take(k).push(foreign_ids[k]));
    lemma_contains_after_push(foreign_ids.take(k), foreign_ids[k], id);
}

/// Takes over the movies of the other copy that are new: those whose id no
/// local movie and no earlier movie of the other copy has. Each comes to
/// stand at the end of the collection, and gets a place at the end of the
/// ordering, in the order of the other copy.
pub fn adopt_new_movies(
    user_movies: &mut Vec<UserMovie>,
    prod_positions: &mut Vec<ProdEntry>,
    other_movies: Vec<UserMovie>,
)
    ensures
        final(user_movies).deep_view() == old(user_movies).deep_view() + new_movies(
            old(user_movies).deep_view(),
            other_movies.deep_view(),
        ),
        final(prod_positions)@ == old(prod_positions)@ + new_entries(
            true,
            movie_ids(old(user_movies).deep_view()),
            movie_ids(other_movies.deep_view()),
        ),
{
    let ghost before = user_movies.deep_view();
    let ghost places = prod_positions@;
    let ghost foreign = other_movies.deep_view();
    let ghost lids = movie_ids(before);
    let ghost fids = movie_ids(foreign);
    let mut seen: HashSet<u32> = HashSet::new();
    let mut i: usize = 0;
    while i < user_movies.len()
        invariant
            i <= user_movies@.len(),
            user_movies.deep_view() == before,
            lids == movie_ids(before),
            forall|id: u32| #[trigger] seen@.contains(id) <==> lids.take(i as int).contains(id),
        decreases user_movies@.len() - i,
    {
        let id = user_movies[i].movie.id;
        proof {
            assert(lids.take(i + 1) =~= lids.take(i as int).push(id));
            assert forall|other: u32|
                lids.take(i + 1).contains(other) <==> lids.take(i as int).contains(other) || id
                    == other by {
                lemma_contains_after_push(lids.take(i as int), id, other);
            }
        }
        seen.insert(id);
        i += 1;
    }
    assert(lids.take(lids.len() as int) =~= lids);
    for movie in it: other_movies.into_iter()
        invariant
            it.seq() == other_movies@,
            foreign == other_movies.deep_view(),
            fids == movie_ids(foreign),
            lids == movie_ids(before),
            forall|id: u32|
                #[trigger] seen@.contains(id) <==> lids.contains(id) || fids.take(it.index() as int).contains(id),
            user_movies.deep_view() =~= before + Seq::new(
                fresh_indices(lids, fids, it.index() as nat).len(),
                |n: int| foreign[fresh_indices(lids, fids, it.index() as nat)[n]],
            ),
            prod_positions@ =~= places + Seq::new(
                fresh_indices(lids, fids, it.index() as nat).len(),
                |n: int|
                    ProdEntry {
                        is_movie: true,
                        id: fids[fresh_indices(lids, fids, it.index() as nat)[n]],
                    },
            ),
    {
        let id = movie.movie.id;
        let ghost k = it.index() as int;
        proof {
            assert(foreign[k] == movie.deep_view());
            assert(fids[k] == id);
            assert forall|other: u32|
                (lids.contains(other) || fids.take(k + 1).contains(other)) <==> (lids.contains(other)
                    || fids.take(k).contains(other) || id == other) by {
                lemma_seen_after(lids, fids, k, other);
            }
        }
        if seen.insert(id) {
            let ghost held = user_movies.deep_view();
            prod_positions.push(ProdEntry::new(true, id));
            user_movies.push(movie);
            assert(user_movies.deep_view() =~= held.push(foreign[k]));
        }
    }
}

/// Takes over the series of the other copy that are new: those whose id no
/// local series and no earlier series of the other copy has. Each comes to
/// stand at the end of the collection, and gets a place at the end of the
/// ordering, in the order of the other copy.
pub fn adopt_new_series(
    user_series: &mut Vec<UserSeries>,
    prod_positions: &mut Vec<ProdEntry>,
    other_series: Vec<UserSeries>,
)
    ensures
        final(user_series).deep_view() == old(user_series).deep_view() + new_series(
            old(user_series).deep_view(),
            other_series.deep_view(),
        ),
        final(prod_positions)@ == old(prod_positions)@ + new_entries(
            false,
            series_ids(old(user_series).deep_view()),
            series_ids(other_series.deep_view()),
        ),
{
    let ghost before = user_series.deep_view();
    let ghost places = prod_positions@;
    let ghost foreign = other_series.deep_view();
    let ghost lids = series_ids(before);
    let ghost fids = series_ids(foreign);
    let mut seen: HashSet<u32> = HashSet::new();
    let mut i: usize = 0;
    while i < user_series.len()
        invariant
            i <= user_series@.len(),
            user_series.deep_view() == before,
            lids == series_ids(before),
            forall|id: u32| #[trigger] seen@.contains(id) <==> lids.take(i as int).contains(id),
        decreases user_series@.len() - i,
    {
        let id = user_series[i].series.id;
        proof {
            assert(lids.take(i + 1) =~= lids.take(i as int).push(id));
            assert forall|other: u32|
                lids.take(i + 1).contains(other) <==> lids.take(i as int).contains(other) || id
                    == other by {
                lemma_contains_after_push(lids.take(i as int), id, other);
            }
        }
        seen.insert(id);
        i += 1;
    }
    assert(lids.take(lids.len() as int) =~= lids);
    for series in it: other_series.into_iter()
        invariant
            it.seq() == other_series@,
            foreign == other_series.deep_view(),
            fids == series_ids(foreign),
            lids == series_ids(before),
            forall|id: u32|
                #[trigger] seen@.contains(id) <==> lids.contains(id) || fids.take(it.index() as int).contains(id),
            user_series.deep_view() =~= before + Seq::new(
                fresh_indices(lids, fids, it.index() as nat).len(),
                |n: int| foreign[fresh_indices(lids, fids, it.index() as nat)[n]],
            ),
            prod_positions@ =~= places + Seq::new(
                fresh_indices(lids, fids, it.index() as nat).len(),
                |n: int|
                    ProdEntry {
                        is_movie: false,
                        id: fids[fresh_indices(lids, fids, it.index() as nat)[n]],
                    },
            ),
    {
        let id = series.series.id;
        let ghost k = it.index() as int;
        proof {
            assert(foreign[k] == series.deep_view());
            assert(fids[k] == id);
            assert forall|other: u32|
                (lids.contains(other) || fids.take(k + 1).contains(other)) <==> (lids.contains(other)
                    || fids.take(k).contains(other) || id == other) by {
                lemma_seen_after(lids, fids, k, other);
            }
        }
        if seen.insert(id) {
            let ghost held = user_series.deep_view();
            prod_positions.push(ProdEntry::new(false, id));
            user_series.push(series);
            assert(user_series.deep_view() =~= held.push(foreign[k]));
        }
    }
}

/// Merges a second copy of the user's data into the local one.
///
/// `loaded` is what reading the second copy gave. Where that failed, the
/// failure is handed back and the local data stays untouched. Otherwise
/// the movies and series that both copies hold are merged, those that only
/// the second copy holds are taken over with a place at the end of the
/// ordering (series first, then movies), and what could not be merged is
/// returned as notices.
pub fn merge_data(
    user_series: &mut Vec<UserSeries>,
    user_movies: &mut Vec<UserMovie>,
    prod_positions: &mut Vec<ProdEntry>,
    loaded: Result<UserData, String>,
) -> (outcome: Result<Vec<MergeNotice>, String>)
    ensures
        match loaded {
            Err(reason) => {
                &&& outcome == Err::<Vec<MergeNotice>, String>(reason)
                &&& *final(user_series) == *old(user_series)
                &&& *final(user_movies) == *old(user_movies)
                &&& *final(prod_positions) == *old(prod_positions)
            },
            Ok(foreign) => {
                &&& outcome is Ok
                &&& outcome->Ok_0@ == merge_notices(
                    old(user_series).deep_view(),
                    foreign.user_series.deep_view(),
                    old(user_series)@.len(),
                )
                &&& final(user_series).deep_view() == merged_all_series(
                    old(user_series).deep_view(),
                    foreign.user_series.deep_view(),
                )
                &&& final(user_movies).deep_view() == merged_movies(
                    old(user_movies).deep_view(),
                    foreign.user_movies.deep_view(),
                )
                &&& final(prod_positions)@ == merged_positions(
                    old(prod_positions)@,
                    series_ids(old(user_series).deep_view()),
                    series_ids(foreign.user_series.deep_view()),
                    movie_ids(old(user_movies).deep_view()),
                    movie_ids(foreign.user_movies.deep_view()),
                )
            },
        },
{
    match loaded {
        Err(reason) => Err(reason),
        Ok(foreign) => {
            let ghost local_series = user_series.deep_view();
            let ghost local_movies = user_movies.deep_view();
            let UserData { user_series: other_series, user_movies: other_movies, prod_positions: _ } =
                foreign;
            merge_common_movies(user_movies, &other_movies);
            let notices = merge_common_series(user_series, &other_series);
            proof {
                lemma_common_merge_keeps_ids(
                    local_series,
                    other_series.deep_view(),
                    local_movies,
                    other_movies.deep_view(),
                );
            }
            adopt_new_series(user_series, prod_positions, other_series);
            adopt_new_movies(user_movies, prod_positions, other_movies);
            Ok(notices)
        },
    }
}

/// The user's data after a second copy was merged into it. The ordering
/// of the second copy plays no part.
pub open spec fn merged_data(local: UserDataModel, foreign: UserDataModel) -> UserDataModel {
    UserDataModel {
        user_series: merged_all_series(local.user_series, foreign.user_series),
        user_movies: merged_movies(local.user_movies, foreign.user_movies),
        prod_positions: merged_positions(
            local.prod_positions,
            series_ids(local.user_series),
            series_ids(foreign.user_series),
            movie_ids(local.user_movies),
            movie_ids(foreign.user_movies),
        ),
    }
}

impl UserData {
    /// Merges a second copy of the data into this one, as [`merge_data`]
    /// does. `loaded` is what reading the second copy gave: a failure is
    /// handed back, and leaves this data untouched.
    pub fn merge_into(&mut self, loaded: Result<UserData, String>) -> (outcome: Result<
        Vec<MergeNotice>,
        String,
    >)
        ensures
            match loaded {
                Err(reason) => {
                    &&& outcome == Err::<Vec<MergeNotice>, String>(reason)
                    &&& *final(self) == *old(self)
                },
                Ok(foreign) => {
                    &&& outcome is Ok
                    &&& outcome->Ok_0@ == merge_notices(
                        old(self).user_series.deep_view(),
                        foreign.user_series.deep_view(),
                        old(self).user_series@.len(),
                    )
                    &&& final(self).deep_view() == merged_data(
                        old(self).deep_view(),
                        foreign.deep_view(),
                    )
                },
            },
    {
        merge_data(&mut self.user_series, &mut self.user_movies, &mut self.prod_positions, loaded)
    }
}

proof fn lemma_common_merge_keeps_ids(
    local_series: Seq<UserSeriesModel>,
    foreign_series: Seq<UserSeriesModel>,
    local_movies: Seq<UserMovieModel>,
    foreign_movies: Seq<UserMovieModel>,
)
    ensures
        series_ids(merged_common_series(local_series, foreign_series)) == series_ids(local_series),
        movie_ids(merged_common_movies(local_movies, foreign_movies)) == movie_ids(local_movies),
{
    assert(series_ids(merged_common_series(local_series, foreign_series)) =~= series_ids(
        local_series,
    ));
    assert(movie_ids(merged_common_movies(local_movies, foreign_movies)) =~= movie_ids(local_movies));
}

proof fn lemma_all_fresh(local_ids: Seq<u32>, foreign_ids: Seq<u32>, upto: nat)
    requires
        upto <= foreign_ids.len(),
        forall|i: int, j: int|
            0 <= i < local_ids.len() && 0 <= j < foreign_ids.len() ==> local_ids[i] != foreign_ids[j],
        foreign_ids.no_duplicates(),
    ensures
        fresh_indices(local_ids, foreign_ids, upto) == Seq::new(upto, |k: int| k),
    decreases upto,
{
    if upto > 0 {
        lemma_all_fresh(local_ids, foreign_ids, (upto - 1) as nat);
        assert(is_fresh(local_ids, foreign_ids, upto - 1));
        assert(fresh_indices(local_ids, foreign_ids, upto) =~= Seq::new(upto, |k: int| k));
    } else {
        assert(fresh_indices(local_ids, foreign_ids, upto) =~= Seq::new(upto, |k: int| k));
    }
}

proof fn lemma_no_match(ids: Seq<u32>, id: u32)
    requires
        forall|j: int| 0 <= j < ids.len() ==> ids[j] != id,
    ensures
        first_index_of(ids, id) is None,
{
    lemma_first_index_of(ids, id);
}

/// Merging in a copy that holds only productions that the local data
/// lacks, each id once, leaves every local record as it was and adds
/// exactly the foreign ones behind them, in their order. The ordering
/// keeps its entries where they were and gains one entry for each foreign
/// production, the series first, then the movies. Nothing is left unmerged.
pub proof fn lemma_merge_of_unseen(
    local_series: Seq<UserSeriesModel>,
    local_movies: Seq<UserMovieModel>,
    positions: Seq<ProdEntry>,
    foreign_series: Seq<UserSeriesModel>,
    foreign_movies: Seq<UserMovieModel>,
)
    requires
        forall|i: int, j: int|
            0 <= i < local_series.len() && 0 <= j < foreign_series.len() ==> local_series[i].series.id
                != foreign_series[j].series.id,
        forall|i: int, j: int|
            0 <= i < local_movies.len() && 0 <= j < foreign_movies.len() ==> local_movies[i].movie.id
                != foreign_movies[j].movie.id,
        series_ids(foreign_series).no_duplicates(),
        movie_ids(foreign_movies).no_duplicates(),
    ensures
        merged_all_series(local_series, foreign_series) == local_series + foreign_series,
        merged_movies(local_movies, foreign_movies) == local_movies + foreign_movies,
        merged_positions(
            positions,
            series_ids(local_series),
            series_ids(foreign_series),
            movie_ids(local_movies),
            movie_ids(foreign_movies),
        ) == positions + Seq::new(
            foreign_series.len(),
            |k: int| ProdEntry { is_movie: false, id: foreign_series[k].series.id },
        ) + Seq::new(
            foreign_movies.len(),
            |k: int| ProdEntry { is_movie: true, id: foreign_movies[k].movie.id },
        ),
        merged_positions(
            positions,
            series_ids(local_series),
            series_ids(foreign_series),
            movie_ids(local_movies),
            movie_ids(foreign_movies),
        ).len() == positions.len() + foreign_series.len() + foreign_movies.len(),
        positions.is_prefix_of(
            merged_positions(
                positions,
                series_ids(local_series),
                series_ids(foreign_series),
                movie_ids(local_movies),
                movie_ids(foreign_movies),
            ),
        ),
        merge_notices(local_series, foreign_series, local_series.len()) == Seq::<
            MergeNotice,
        >::empty(),
{
    let lsids = series_ids(local_series);
    let fsids = series_ids(foreign_series);
    let lmids = movie_ids(local_movies);
    let fmids = movie_ids(foreign_movies);
    lemma_all_fresh(lsids, fsids, fsids.len());
    lemma_all_fresh(lmids, fmids, fmids.len());
    assert forall|i: int| 0 <= i < local_series.len() implies first_index_of(
        fsids,
        #[trigger] local_series[i].series.id,
    ) is None by {
        assert(lsids[i] == local_series[i].series.id);
        lemma_no_match(fsids, local_series[i].series.id);
    }
    assert forall|i: int| 0 <= i < local_movies.len() implies first_index_of(
        fmids,
        #[trigger] local_movies[i].movie.id,
    ) is None by {
        assert(lmids[i] == local_movies[i].movie.id);
        lemma_no_match(fmids, local_movies[i].movie.id);
    }
    assert(merged_common_series(local_series, foreign_series) =~= local_series);
    assert(merged_common_movies(local_movies, foreign_movies) =~= local_movies);
    assert(new_series(local_series, foreign_series) =~= foreign_series);
    assert(new_movies(local_movies, foreign_movies) =~= foreign_movies);
    assert(new_entries(false, lsids, fsids) =~= Seq::new(
        foreign_series.len(),
        |k: int| ProdEntry { is_movie: false, id: foreign_series[k].series.id },
    ));
    assert(new_entries(true, lmids, fmids) =~= Seq::new(
        foreign_movies.len(),
        |k: int| ProdEntry { is_movie: true, id: foreign_movies[k].movie.id },
    ));
    lemma_no_notices(local_series, foreign_series, local_series.len());
    assert(merged_positions(positions, lsids, fsids, lmids, fmids).subrange(
        0,
        positions.len() as int,
    ) =~= positions);
}

proof fn lemma_no_notices(
    local_series: Seq<UserSeriesModel>,
    foreign_series: Seq<UserSeriesModel>,
    upto: nat,
)
    requires
        upto <= local_series.len(),
        forall|i: int|
            0 <= i < local_series.len() ==> first_index_of(
                series_ids(foreign_series),
                #[trigger] local_series[i].series.id,
            ) is None,
    ensures
        merge_notices(local_series, foreign_series, upto) == Seq::<MergeNotice>::empty(),
    decreases upto,
{
    if upto > 0 {
        lemma_no_notices(local_series, foreign_series, (upto - 1) as nat);
    }
}

/// The ids after a merge: the local ones, and behind them those of the
/// new foreign productions.
pub open spec fn merged_ids(local_ids: Seq<u32>, foreign_ids: Seq<u32>) -> Seq<u32> {
    let fresh = fresh_indices(local_ids, foreign_ids, foreign_ids.len());
    local_ids + Seq::new(fresh.len(), |n: int| foreign_ids[fresh[n]])
}

/// The merge changes no id: the merged movies and series carry the ids
/// that [`merged_ids`] gives.
pub proof fn lemma_merged_collections_ids(
    local_series: Seq<UserSeriesModel>,
    foreign_series: Seq<UserSeriesModel>,
    local_movies: Seq<UserMovieModel>,
    foreign_movies: Seq<UserMovieModel>,
)
    ensures
        series_ids(merged_all_series(local_series, foreign_series)) == merged_ids(
            series_ids(local_series),
            series_ids(foreign_series),
        ),
        movie_ids(merged_movies(local_movies, foreign_movies)) == merged_ids(
            movie_ids(local_movies),
            movie_ids(foreign_movies),
        ),
{
    let lsids = series_ids(local_series);
    let fsids = series_ids(foreign_series);
    let lmids = movie_ids(local_movies);
    let fmids = movie_ids(foreign_movies);
    lemma_common_merge_keeps_ids(local_series, foreign_series, local_movies, foreign_movies);
    lemma_fresh_indices(lsids, fsids, fsids.len());
    lemma_fresh_indices(lmids, fmids, fmids.len());
    let merged_series = merged_all_series(local_series, foreign_series);
    let common_series = merged_common_series(local_series, foreign_series);
    assert forall|n: int| 0 <= n < merged_series.len() implies series_ids(merged_series)[n]
        == merged_ids(lsids, fsids)[n] by {
        if n < local_series.len() {
            assert(series_ids(common_series)[n] == lsids[n]);
        }
    }
    assert(series_ids(merged_series) =~= merged_ids(lsids, fsids));
    let merged = merged_movies(local_movies, foreign_movies);
    let common = merged_common_movies(local_movies, foreign_movies);
    assert forall|n: int| 0 <= n < merged.len() implies movie_ids(merged)[n] == merged_ids(
        lmids,
        fmids,
    )[n] by {
        if n < local_movies.len() {
            assert(movie_ids(common)[n] == lmids[n]);
        }
    }
    assert(movie_ids(merged) =~= merged_ids(lmids, fmids));
}

proof fn lemma_fresh_indices(local_ids: Seq<u32>, foreign_ids: Seq<u32>, upto: nat)
    requires
        upto <= foreign_ids.len(),
    ensures
        forall|n: int|
            0 <= n < fresh_indices(local_ids, foreign_ids, upto).len() ==> {
                let index = #[trigger] fresh_indices(local_ids, foreign_ids, upto)[n];
                0 <= index < upto && is_fresh(local_ids, foreign_ids, index)
            },
        forall|n: int, m: int|
            0 <= n < m < fresh_indices(local_ids, foreign_ids, upto).len() ==> fresh_indices(
                local_ids,
                foreign_ids,
                upto,
            )[n] < fresh_indices(local_ids, foreign_ids, upto)[m],
        forall|index: int|
            0 <= index < upto && is_fresh(local_ids, foreign_ids, index) ==> fresh_indices(
                local_ids,
                foreign_ids,
                upto,
            ).contains(index),
    decreases upto,
{
    if upto > 0 {
        let earlier = fresh_indices(local_ids, foreign_ids, (upto - 1) as nat);
        let all = fresh_indices(local_ids, foreign_ids, upto);
        lemma_fresh_indices(local_ids, foreign_ids, (upto - 1) as nat);
        assert forall|index: int|
            0 <= index < upto && is_fresh(local_ids, foreign_ids, index) implies all.contains(
            index,
        ) by {
            if index < upto - 1 {
                let at = choose|at: int| 0 <= at < earlier.len() && earlier[at] == index;
                assert(all[at] == index);
            } else {
                assert(all[all.len() - 1] == index);
            }
        }
    }
}

/// A merge loses no production and doubles none: every local id stands
/// where it stood, every foreign id is among the merged ones, and where
/// no two local productions share an id, no two merged ones do.
pub proof fn lemma_merged_ids(local_ids: Seq<u32>, foreign_ids: Seq<u32>)
    ensures
        local_ids.is_prefix_of(merged_ids(local_ids, foreign_ids)),
        forall|j: int|
            0 <= j < foreign_ids.len() ==> merged_ids(local_ids, foreign_ids).contains(
                #[trigger] foreign_ids[j],
            ),
        forall|n: int|
            0 <= n < merged_ids(local_ids, foreign_ids).len() ==> local_ids.contains(
                #[trigger] merged_ids(local_ids, foreign_ids)[n],
            ) || foreign_ids.contains(merged_ids(local_ids, foreign_ids)[n]),
        local_ids.no_duplicates() ==> merged_ids(local_ids, foreign_ids).no_duplicates(),
{
    let fresh = fresh_indices(local_ids, foreign_ids, foreign_ids.len());
    let merged = merged_ids(local_ids, foreign_ids);
    lemma_fresh_indices(local_ids, foreign_ids, foreign_ids.len());
    assert(merged.subrange(0, local_ids.len() as int) =~= local_ids);
    assert forall|j: int| 0 <= j < foreign_ids.len() implies merged.contains(
        #[trigger] foreign_ids[j],
    ) by {
        let id = foreign_ids[j];
        if local_ids.contains(id) {
            let at = choose|at: int| 0 <= at < local_ids.len() && local_ids[at] == id;
            assert(merged[at] == id);
        } else {
            lemma_first_index_of(foreign_ids, id);
            assert(foreign_ids.contains(id));
            let first = first_index_of(foreign_ids, id)->Some_0;
            assert(is_first_at(foreign_ids, id, first));
            if foreign_ids.take(first).contains(id) {
                let k = choose|k: int| 0 <= k < first && foreign_ids.take(first)[k] == id;
                assert(foreign_ids[k] == id);
            }
            assert(is_fresh(local_ids, foreign_ids, first));
            let n = choose|n: int| 0 <= n < fresh.len() && fresh[n] == first;
            assert(merged[local_ids.len() + n] == id);
        }
    }
    assert forall|n: int| 0 <= n < merged.len() implies local_ids.contains(#[trigger] merged[n])
        || foreign_ids.contains(merged[n]) by {
        if n < local_ids.len() {
            assert(local_ids[n] == merged[n]);
        } else {
            let index = fresh[n - local_ids.len()];
            assert(foreign_ids[index] == merged[n]);
        }
    }
    if local_ids.no_duplicates() {
        assert forall|a: int, b: int|
            0 <= a < merged.len() && 0 <= b < merged.len() && a != b implies merged[a]
            != merged[b] by {
            let (low, high) = if a < b {
                (a, b)
            } else {
                (b, a)
            };
            if high < local_ids.len() {
            } else {
                let index = fresh[high - local_ids.len()];
                assert(is_fresh(local_ids, foreign_ids, index));
                if low < local_ids.len() {
                    if merged[low] == merged[high] {
                        assert(local_ids[low] == foreign_ids[index]);
                        assert(local_ids.contains(foreign_ids[index]));
                    }
                } else {
                    let before = fresh[low - local_ids.len()];
                    assert(before < index);
                    if merged[low] == merged[high] {
                        assert(foreign_ids.take(index)[before] == foreign_ids[index]);
                        assert(foreign_ids.take(index).contains(foreign_ids[index]));
                    }
                }
            }
        }
    }
}

/// Where every local production had its place in the ordering before the
/// merge, every production has one after it, and the entries that were
/// there are still the beginning of the ordering.
pub proof fn lemma_merge_keeps_places(
    positions: Seq<ProdEntry>,
    local_series: Seq<u32>,
    foreign_series: Seq<u32>,
    local_movies: Seq<u32>,
    foreign_movies: Seq<u32>,
)
    requires
        forall|i: int| 0 <= i < local_series.len() ==> is_placed(positions, false, #[trigger] local_series[i]),
        forall|i: int| 0 <= i < local_movies.len() ==> is_placed(positions, true, #[trigger] local_movies[i]),
    ensures
        positions.is_prefix_of(
            merged_positions(positions, local_series, foreign_series, local_movies, foreign_movies),
        ),
        forall|n: int|
            0 <= n < merged_ids(local_series, foreign_series).len() ==> is_placed(
                merged_positions(positions, local_series, foreign_series, local_movies, foreign_movies),
                false,
                #[trigger] merged_ids(local_series, foreign_series)[n],
            ),
        forall|n: int|
            0 <= n < merged_ids(local_movies, foreign_movies).len() ==> is_placed(
                merged_positions(positions, local_series, foreign_series, local_movies, foreign_movies),
                true,
                #[trigger] merged_ids(local_movies, foreign_movies)[n],
            ),
{
    let merged = merged_positions(
        positions,
        local_series,
        foreign_series,
        local_movies,
        foreign_movies,
    );
    let for_series = new_entries(false, local_series, foreign_series);
    let for_movies = new_entries(true, local_movies, foreign_movies);
    assert(merged.subrange(0, positions.len() as int) =~= positions);
    assert forall|n: int| 0 <= n < merged_ids(local_series, foreign_series).len() implies is_placed(
        merged,
        false,
        #[trigger] merged_ids(local_series, foreign_series)[n],
    ) by {
        let id = merged_ids(local_series, foreign_series)[n];
        let entry = ProdEntry { is_movie: false, id };
        if n < local_series.len() {
            assert(local_series[n] == id);
            let at = choose|at: int| 0 <= at < positions.len() && positions[at] == entry;
            assert(merged[at] == entry);
        } else {
            assert(for_series[n - local_series.len()] == entry);
            assert(merged[positions.len() + (n - local_series.len())] == entry);
        }
    }
    assert forall|n: int| 0 <= n < merged_ids(local_movies, foreign_movies).len() implies is_placed(
        merged,
        true,
        #[trigger] merged_ids(local_movies, foreign_movies)[n],
    ) by {
        let id = merged_ids(local_movies, foreign_movies)[n];
        let entry = ProdEntry { is_movie: true, id };
        if n < local_movies.len() {
            assert(local_movies[n] == id);
            let at = choose|at: int| 0 <= at < positions.len() && positions[at] == entry;
            assert(merged[at] == entry);
        } else {
            assert(for_movies[n - local_movies.len()] == entry);
            assert(merged[positions.len() + for_series.len() + (n - local_movies.len())] == entry);
        }
    }
}

/// Whether the notes of a season merge with those of the other copy
/// without a conflict.
pub open spec fn season_agrees_with(local: SeasonNotesModel, other: SeasonNotesModel) -> bool {
    local.episode_notes.len() == other.episode_notes.len() ==> {
        &&& agrees_with(local.note, other.note)
        &&& forall|e: int|
            0 <= e < local.episode_notes.len() ==> agrees_with(
                #[trigger] local.episode_notes[e],
                other.episode_notes[e],
            )
    }
}

/// Whether a series merges with the other copy of it without a conflict
/// in any note.
pub open spec fn series_agrees_with(local: UserSeriesModel, other: UserSeriesModel) -> bool {
    &&& agrees_with(local.note, other.note)
    &&& local.season_notes.len() == other.season_notes.len() ==> forall|i: int|
        0 <= i < local.season_notes.len() ==> season_agrees_with(
            #[trigger] local.season_notes[i],
            other.season_notes[i],
        )
}

/// Merging a movie with itself changes nothing, and so does merging the
/// same copy in a second time, where the notes merge without a conflict.
pub proof fn lemma_merged_movie_again(local: UserMovieModel, other: UserMovieModel)
    ensures
        merged_movie(local, local) == local,
        agrees_with(local.note, other.note) ==> merged_movie(merged_movie(local, other), other)
            == merged_movie(local, other),
{
    lemma_merge_text_same(local.note);
    if agrees_with(local.note, other.note) {
        lemma_merge_text_again(local.note, other.note);
    }
}

/// Merging the notes of a season with themselves changes nothing, and so
/// does merging the same copy in a second time, where the notes merge
/// without a conflict.
pub proof fn lemma_merged_season_again(local: SeasonNotesModel, other: SeasonNotesModel)
    ensures
        merged_season(local, local) == local,
        season_agrees_with(local, other) ==> merged_season(merged_season(local, other), other)
            == merged_season(local, other),
{
    lemma_merge_text_same(local.note);
    assert forall|e: int| 0 <= e < local.episode_notes.len() implies merge_text(
        #[trigger] local.episode_notes[e],
        local.episode_notes[e],
    ) == local.episode_notes[e] by {
        lemma_merge_text_same(local.episode_notes[e]);
    }
    assert(merged_season(local, local).episode_notes =~= local.episode_notes);
    if season_agrees_with(local, other) && local.episode_notes.len() == other.episode_notes.len() {
        let once = merged_season(local, other);
        lemma_merge_text_again(local.note, other.note);
        assert forall|e: int| 0 <= e < local.episode_notes.len() implies merge_text(
            #[trigger] once.episode_notes[e],
            other.episode_notes[e],
        ) == once.episode_notes[e] by {
            assert(agrees_with(local.episode_notes[e], other.episode_notes[e]));
            lemma_merge_text_again(local.episode_notes[e], other.episode_notes[e]);
        }
        assert(merged_season(once, other).episode_notes =~= once.episode_notes);
    }
}

/// Merging a series with itself changes nothing, and so does merging the
/// same copy in a second time, where the notes merge without a conflict.
pub proof fn lemma_merged_series_again(local: UserSeriesModel, other: UserSeriesModel)
    ensures
        merged_series(local, local) == local,
        series_agrees_with(local, other) ==> merged_series(merged_series(local, other), other)
            == merged_series(local, other),
{
    lemma_merge_text_same(local.note);
    assert forall|i: int| 0 <= i < local.season_notes.len() implies merged_season(
        #[trigger] local.season_notes[i],
        local.season_notes[i],
    ) == local.season_notes[i] by {
        lemma_merged_season_again(local.season_notes[i], local.season_notes[i]);
    }
    assert(merged_seasons(local.season_notes, local.season_notes) =~= local.season_notes);
    if series_agrees_with(local, other) {
        lemma_merge_text_again(local.note, other.note);
        let once = merged_seasons(local.season_notes, other.season_notes);
        if local.season_notes.len() == other.season_notes.len() {
            assert forall|i: int| 0 <= i < once.len() implies merged_season(
                #[trigger] once[i],
                other.season_notes[i],
            ) == once[i] by {
                assert(season_agrees_with(local.season_notes[i], other.season_notes[i]));
                lemma_merged_season_again(local.season_notes[i], other.season_notes[i]);
            }
            assert(merged_seasons(once, other.season_notes) =~= once);
        }
    }
}

proof fn lemma_none_fresh(local_ids: Seq<u32>, foreign_ids: Seq<u32>, upto: nat)
    requires
        upto <= foreign_ids.len(),
        forall|j: int| 0 <= j < foreign_ids.len() ==> local_ids.contains(#[trigger] foreign_ids[j]),
    ensures
        fresh_indices(local_ids, foreign_ids, upto) == Seq::<int>::empty(),
    decreases upto,
{
    if upto > 0 {
        lemma_none_fresh(local_ids, foreign_ids, (upto - 1) as nat);
        assert(local_ids.contains(foreign_ids[upto - 1]));
    }
}

proof fn lemma_fresh_is_first(local_ids: Seq<u32>, foreign_ids: Seq<u32>, index: int)
    requires
        0 <= index < foreign_ids.len(),
        is_fresh(local_ids, foreign_ids, index),
    ensures
        first_index_of(foreign_ids, foreign_ids[index]) == Some(index),
{
    let id = foreign_ids[index];
    assert forall|k: int| 0 <= k < index implies foreign_ids[k] != id by {
        if foreign_ids[k] == id {
            assert(foreign_ids.take(index)[k] == id);
        }
    }
    assert(is_first_at(foreign_ids, id, index));
    lemma_first_index_of(foreign_ids, id);
}

/// Merging the same copy in a second time changes no movie, where the
/// notes of the movies that both copies hold merge without a conflict.
pub proof fn lemma_merged_movies_again(local: Seq<UserMovieModel>, foreign: Seq<UserMovieModel>)
    requires
        forall|i: int, j: int|
            0 <= i < local.len() && first_index_of(movie_ids(foreign), local[i].movie.id) == Some(j)
                ==> agrees_with(#[trigger] local[i].note, #[trigger] foreign[j].note),
    ensures
        merged_movies(merged_movies(local, foreign), foreign) == merged_movies(local, foreign),
{
    let lids = movie_ids(local);
    let fids = movie_ids(foreign);
    let once = merged_movies(local, foreign);
    let fresh = fresh_indices(lids, fids, fids.len());
    lemma_merged_collections_ids(Seq::empty(), Seq::empty(), local, foreign);
    lemma_merged_ids(lids, fids);
    lemma_fresh_indices(lids, fids, fids.len());
    lemma_none_fresh(movie_ids(once), fids, fids.len());
    let twice = merged_common_movies(once, foreign);
    assert forall|n: int| 0 <= n < once.len() implies twice[n] == once[n] by {
        if n < local.len() {
            match first_index_of(fids, local[n].movie.id) {
                Some(j) => {
                    lemma_first_index_of(fids, local[n].movie.id);
                    assert(agrees_with(local[n].note, foreign[j].note));
                    lemma_merged_movie_again(local[n], foreign[j]);
                },
                None => {},
            }
        } else {
            let index = fresh[n - local.len()];
            lemma_fresh_is_first(lids, fids, index);
            assert(fids[index] == foreign[index].movie.id);
            lemma_merged_movie_again(foreign[index], foreign[index]);
        }
    }
    assert(new_movies(once, foreign) =~= Seq::<UserMovieModel>::empty());
    assert(merged_movies(once, foreign) =~= once);
}

/// Merging the same copy in a second time changes no series, where the
/// notes of the series that both copies hold merge without a conflict.
pub proof fn lemma_merged_series_list_again(
    local: Seq<UserSeriesModel>,
    foreign: Seq<UserSeriesModel>,
)
    requires
        forall|i: int, j: int|
            0 <= i < local.len() && first_index_of(series_ids(foreign), local[i].series.id) == Some(j)
                ==> series_agrees_with(#[trigger] local[i], #[trigger] foreign[j]),
    ensures
        merged_all_series(merged_all_series(local, foreign), foreign) == merged_all_series(
            local,
            foreign,
        ),
{
    let lids = series_ids(local);
    let fids = series_ids(foreign);
    let once = merged_all_series(local, foreign);
    let fresh = fresh_indices(lids, fids, fids.len());
    lemma_merged_collections_ids(local, foreign, Seq::empty(), Seq::empty());
    lemma_merged_ids(lids, fids);
    lemma_fresh_indices(lids, fids, fids.len());
    lemma_none_fresh(series_ids(once), fids, fids.len());
    let twice = merged_common_series(once, foreign);
    assert forall|n: int| 0 <= n < once.len() implies twice[n] == once[n] by {
        if n < local.len() {
            match first_index_of(fids, local[n].series.id) {
                Some(j) => {
                    lemma_first_index_of(fids, local[n].series.id);
                    assert(series_agrees_with(local[n], foreign[j]));
                    lemma_merged_series_again(local[n], foreign[j]);
                },
                None => {},
            }
        } else {
            let index = fresh[n - local.len()];
            lemma_fresh_is_first(lids, fids, index);
            assert(fids[index] == foreign[index].series.id);
            lemma_merged_series_again(foreign[index], foreign[index]);
        }
    }
    assert(new_series(once, foreign) =~= Seq::<UserSeriesModel>::empty());
    assert(merged_all_series(once, foreign) =~= once);
}

} // verus!
