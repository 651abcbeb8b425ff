//! Repairs to the user's data that only ever add: places in the ordering
//! for productions that have none, and room for notes on seasons and
//! episodes that the catalog has come to list.

use std::collections::HashSet;
use vstd::prelude::*;
use crate::movies::{movie_ids, UserMovie};
use crate::production::{ProdEntry, UserData, UserDataModel};
use crate::sequences::lemma_contains_after_push;
use crate::series::{
    grown_notes, grown_seasons, series_ids, SeasonNotesModel, SeriesModel, UserSeries,
    UserSeriesModel,
};

verus! {

broadcast use vstd::std_specs::hash::group_hash_axioms;

/// Whether the ordering holds a place for the production of that kind and id.
pub open spec fn is_placed(positions: Seq<ProdEntry>, is_movie: bool, id: u32) -> bool {
    positions.contains(ProdEntry { is_movie, id })
}

/// The places that the ordering lacks for the first `upto` of the ids, one
/// for each id that has no place, in the order of the ids.
pub open spec fn missing_entries(
    positions: Seq<ProdEntry>,
    is_movie: bool,
    ids: Seq<u32>,
    upto: nat,
) -> Seq<ProdEntry>
    decreases upto,
{
    if upto == 0 {
        Seq::empty()
    } else {
        let earlier = missing_entries(positions, is_movie, ids, (upto - 1) as nat);
        if is_placed(positions, is_movie, ids[upto - 1]) {
            earlier
        } else {
            earlier.push(ProdEntry { is_movie, id: ids[upto - 1] })
        }
    }
}

/// The ordering after its repair: what was there stays where it was; behind
/// it come the places that were missing, for series first, then for movies.
pub open spec fn repaired_positions(
    positions: Seq<ProdEntry>,
    series: Seq<u32>,
    movies: Seq<u32>,
) -> Seq<ProdEntry> {
    positions + missing_entries(positions, false, series, series.len()) + missing_entries(
        positions,
        true,
        movies,
        movies.len(),
    )
}

/// The notes of the story season at `index` once they hold an entry for
/// every episode that the catalog lists.
pub open spec fn repaired_season(
    series: SeriesModel,
    seasons: Seq<SeasonNotesModel>,
    index: int,
) -> SeasonNotesModel {
    SeasonNotesModel {
        note: seasons[index].note,
        user_rating: seasons[index].user_rating,
        episode_notes: grown_notes(seasons[index].episode_notes, series.story_episode_count(index)),
    }
}

/// The season notes of a series after their repair. Where the catalog
/// record does not list every story season, nothing changes. Otherwise
/// there are notes for every story season, each with an entry for every
/// episode; what was there before is still there.
pub open spec fn repaired_seasons(series: SeriesModel, notes: Seq<SeasonNotesModel>) -> Seq<
    SeasonNotesModel,
> {
    if !series.lists_every_story_season() {
        notes
    } else {
        let seasons = grown_seasons(notes, series.number_of_seasons as nat);
        Seq::new(
            seasons.len(),
            |i: int|
                if i < series.number_of_seasons {
                    repaired_season(series, seasons, i)
                } else {
                    seasons[i]
                },
        )
    }
}

/// How many of the first `upto` story seasons lack entries for episodes.
pub open spec fn short_seasons(series: SeriesModel, seasons: Seq<SeasonNotesModel>, upto: nat) -> nat
    decreases upto,
{
    if upto == 0 {
        0
    } else {
        let earlier = short_seasons(series, seasons, (upto - 1) as nat);
        if seasons[upto - 1].episode_notes.len() < series.story_episode_count(upto - 1) {
            earlier + 1
        } else {
            earlier
        }
    }
}

/// How many lists the repair of one series makes longer: the list of
/// seasons, if seasons are missing, and the episode list of every story
/// season that is too short.
pub open spec fn season_changes(series: SeriesModel, notes: Seq<SeasonNotesModel>) -> nat {
    if !series.lists_every_story_season() {
        0
    } else {
        let seasons = grown_seasons(notes, series.number_of_seasons as nat);
        let added: nat = if notes.len() < series.number_of_seasons {
            1
        } else {
            0
        };
        added + short_seasons(series, seasons, series.number_of_seasons as nat)
    }
}

/// A series after the repair of its notes.
pub open spec fn repaired_series(record: UserSeriesModel) -> UserSeriesModel {
    UserSeriesModel {
        series: record.series,
        user_rating: record.user_rating,
        note: record.note,
        season_notes: repaired_seasons(record.series, record.season_notes),
        watched: record.watched,
        favorite: record.favorite,
    }
}

/// The series of the collection after the repair of their notes.
pub open spec fn repaired_collection(series: Seq<UserSeriesModel>) -> Seq<UserSeriesModel> {
    Seq::new(series.len(), |i: int| repaired_series(series[i]))
}

/// How many lists the repair of the first `upto` series makes longer.
pub open spec fn note_changes(series: Seq<UserSeriesModel>, upto: nat) -> nat
    decreases upto,
{
    if upto == 0 {
        0
    } else {
        note_changes(series, (upto - 1) as nat) + season_changes(
            series[upto - 1].series,
            series[upto - 1].season_notes,
        )
    }
}

/// Gives every series and every movie of the collection a place in the
/// ordering. Places that are there stay where they are; the missing ones
/// are added behind them, for series first, then for movies, each in the
/// order of the collection. Returns how many places were added.
pub fn repair_positions(
    user_series: &Vec<UserSeries>,
    user_movies: &Vec<UserMovie>,
    prod_positions: &mut Vec<ProdEntry>,
) -> (changes: usize)
    ensures
        final(prod_positions)@ == repaired_positions(
            old(prod_positions)@,
            series_ids(user_series.deep_view()),
            movie_ids(user_movies.deep_view()),
        ),
        changes == final(prod_positions)@.len() - old(prod_positions)@.len(),
{
    let ghost before = prod_positions@;
    let ghost sids = series_ids(user_series.deep_view());
    let ghost mids = movie_ids(user_movies.deep_view());
    let mut placed_series: HashSet<u32> = HashSet::new();
    let mut placed_movies: HashSet<u32> = HashSet::new();
    let mut k: usize = 0;
    while k < prod_positions.len()
        invariant
            prod_positions@ == before,
            k <= before.len(),
            forall|id: u32| #[trigger] placed_series@.contains(id) <==> is_placed(before.take(k as int), false, id),
            forall|id: u32| #[trigger] placed_movies@.contains(id) <==> is_placed(before.take(k as int), true, id),
        decreases before.len() - k,
    {
        let position = prod_positions[k];
        proof {
            assert(before.take(k + 1) =~= before.take(k as int).push(position));
            assert forall|id: u32, is_movie: bool|
                is_placed(before.take(k + 1), is_movie, id) <==> is_placed(
                    before.take(k as int),
                    is_movie,
                    id,
                ) || position == (ProdEntry { is_movie, id }) by {
                lemma_contains_after_push(
                    before.take(k as int),
                    position,
                    ProdEntry { is_movie, id },
                );
            }
        }
        if position.is_movie {
            placed_movies.insert(position.id);
        } else {
            placed_series.insert(position.id);
        }
        k += 1;
    }
    assert(before.take(k as int) =~= before);

    let mut changes: usize = 0;
    let mut i: usize = 0;
    while i < user_series.len()
        invariant
            i <= user_series@.len(),
            sids == series_ids(user_series.deep_view()),
            forall|id: u32| #[trigger] placed_series@.contains(id) <==> is_placed(before, false, id),
            prod_positions@ == before + missing_entries(before, false, sids, i as nat),
            changes == prod_positions@.len() - before.len(),
        decreases user_series@.len() - i,
    {
        let id = user_series[i].series.id;
        assert(sids[i as int] == id);
        if !placed_series.contains(&id) {
            prod_positions.push(ProdEntry::new(false, id));
            assert(prod_positions.len() <= usize::MAX);
            changes += 1;
        }
        i += 1;
    }
    let ghost with_series = prod_positions@;
    let mut j: usize = 0;
    while j < user_movies.len()
        invariant
            j <= user_movies@.len(),
            mids == movie_ids(user_movies.deep_view()),
            forall|id: u32| #[trigger] placed_movies@.contains(id) <==> is_placed(before, true, id),
            before.len() <= with_series.len(),
            prod_positions@ == with_series + missing_entries(before, true, mids, j as nat),
            changes == prod_positions@.len() - before.len(),
        decreases user_movies@.len() - j,
    {
        let id = user_movies[j].movie.id;
        assert(mids[j as int] == id);
        if !placed_movies.contains(&id) {
            prod_positions.push(ProdEntry::new(true, id));
            assert(prod_positions.len() <= usize::MAX);
            changes += 1;
        }
        j += 1;
    }
    changes
}

proof fn lemma_short_seasons_grow(
    series: SeriesModel,
    seasons: Seq<SeasonNotesModel>,
    fewer: nat,
    more: nat,
)
    requires
        fewer <= more,
    ensures
        short_seasons(series, seasons, fewer) <= short_seasons(series, seasons, more),
    decreases more,
{
    if fewer < more {
        lemma_short_seasons_grow(series, seasons, fewer, (more - 1) as nat);
    }
}

proof fn lemma_note_changes_grow(series: Seq<UserSeriesModel>, fewer: nat, more: nat)
    requires
        fewer <= more,
    ensures
        note_changes(series, fewer) <= note_changes(series, more),
    decreases more,
{
    if fewer < more {
        lemma_note_changes_grow(series, fewer, (more - 1) as nat);
    }
}

/// Gives one series notes for every story season and, in each, an entry
/// for every episode that its catalog record lists. Notes that are there
/// stay as they are, and nothing is taken away. A series whose catalog
/// record does not list every story season is left alone. Returns how many
/// lists were made longer: 0 says that nothing was missing.
pub fn repair_series_notes(record: &mut UserSeries) -> (changes: usize)
    requires
        season_changes(old(record).series.deep_view(), old(record).season_notes.deep_view())
            <= usize::MAX,
    ensures
        final(record).deep_view() == repaired_series(old(record).deep_view()),
        changes == season_changes(
            old(record).series.deep_view(),
            old(record).season_notes.deep_view(),
        ),
{
    let listed = record.series.seasons.len();
    let first: usize = if listed > 0 && record.series.seasons[0].season_number == 0 {
        1
    } else {
        0
    };
    let story = record.series.number_of_seasons as usize;
    if listed - first < story {
        return 0;
    }
    let ghost series = record.series.deep_view();
    let ghost seasons = grown_seasons(old(record).season_notes.deep_view(), story as nat);
    let mut changes: usize = 0;
    if record.season_notes.len() < story {
        record.ensure_season_length(story);
        changes = 1;
    }
    let ghost added = changes;
    let mut i: usize = 0;
    while i < story
        invariant
            i <= story,
            story == series.number_of_seasons,
            first == series.first_story_season(),
            first + story <= series.seasons.len(),
            record.series == old(record).series,
            series == old(record).series.deep_view(),
            record.user_rating == old(record).user_rating,
            record.note == old(record).note,
            record.watched == old(record).watched,
            record.favorite == old(record).favorite,
            record.season_notes@.len() == seasons.len(),
            story <= seasons.len(),
            forall|j: int|
                0 <= j < i ==> (#[trigger] record.season_notes@[j]).deep_view() == repaired_season(
                    series,
                    seasons,
                    j,
                ),
            forall|j: int|
                i <= j < seasons.len() ==> (#[trigger] record.season_notes@[j]).deep_view()
                    == seasons[j],
            changes == added + short_seasons(series, seasons, i as nat),
            added + short_seasons(series, seasons, story as nat) <= usize::MAX,
        decreases story - i,
    {
        let count = record.series.seasons[first + i].episode_count as usize;
        let notes = &mut record.season_notes[i];
        if notes.episode_notes.len() < count {
            notes.ensure_length(count);
            proof {
                lemma_short_seasons_grow(series, seasons, (i + 1) as nat, story as nat);
            }
            changes += 1;
        }
        i += 1;
    }
    assert(record.season_notes.deep_view() =~= repaired_seasons(
        series,
        old(record).season_notes.deep_view(),
    ));
    changes
}

/// Repairs the notes of every series of the collection, as
/// [`repair_series_notes`] does for one. Returns how many lists were made
/// longer in all.
pub fn repair_note_structure(user_series: &mut Vec<UserSeries>) -> (changes: usize)
    requires
        note_changes(old(user_series).deep_view(), old(user_series)@.len()) <= usize::MAX,
    ensures
        final(user_series).deep_view() == repaired_collection(old(user_series).deep_view()),
        changes == note_changes(old(user_series).deep_view(), old(user_series)@.len()),
{
    let ghost before = user_series.deep_view();
    let mut changes: usize = 0;
    let mut k: usize = 0;
    while k < user_series.len()
        invariant
            k <= user_series@.len(),
            before == old(user_series).deep_view(),
            user_series@.len() == before.len(),
            forall|j: int|
                0 <= j < k ==> (#[trigger] user_series@[j]).deep_view() == repaired_series(
                    before[j],
                ),
            forall|j: int| k <= j < before.len() ==> (#[trigger] user_series@[j]).deep_view() == before[j],
            changes == note_changes(before, k as nat),
            note_changes(before, before.len()) <= usize::MAX,
        decreases user_series@.len() - k,
    {
        proof {
            lemma_note_changes_grow(before, (k + 1) as nat, before.len());
        }
        let record = &mut user_series[k];
        let more = repair_series_notes(record);
        changes += more;
        k += 1;
    }
    assert(user_series.deep_view() =~= repaired_collection(before));
    changes
}

/// Repairs the ordering, as [`repair_positions`] does, and then the notes,
/// as [`repair_note_structure`] does. Returns how many places were added
/// and lists made longer in all: 0 says that the data was sound.
pub fn fix_data_integrity(
    user_series: &mut Vec<UserSeries>,
    user_movies: &mut Vec<UserMovie>,
    prod_positions: &mut Vec<ProdEntry>,
) -> (changes: usize)
    requires
        repaired_positions(
            old(prod_positions)@,
            series_ids(old(user_series).deep_view()),
            movie_ids(old(user_movies).deep_view()),
        ).len() - old(prod_positions)@.len() + note_changes(
            old(user_series).deep_view(),
            old(user_series)@.len(),
        ) <= usize::MAX,
    ensures
        final(prod_positions)@ == repaired_positions(
            old(prod_positions)@,
            series_ids(old(user_series).deep_view()),
            movie_ids(old(user_movies).deep_view()),
        ),
        final(user_series).deep_view() == repaired_collection(old(user_series).deep_view()),
        final(user_movies)@ == old(user_movies)@,
        changes == final(prod_positions)@.len() - old(prod_positions)@.len() + note_changes(
            old(user_series).deep_view(),
            old(user_series)@.len(),
        ),
        forall|i: int|
            0 <= i < final(user_series)@.len() ==> is_placed(
                final(prod_positions)@,
                false,
                (#[trigger] final(user_series)@[i]).series.id,
            ),
        forall|i: int|
            0 <= i < final(user_movies)@.len() ==> is_placed(
                final(prod_positions)@,
                true,
                (#[trigger] final(user_movies)@[i]).movie.id,
            ),
{
    let ghost before = user_series.deep_view();
    let ghost sids = series_ids(before);
    let ghost mids = movie_ids(user_movies.deep_view());
    let placed = repair_positions(user_series, user_movies, prod_positions);
    let grown = repair_note_structure(user_series);
    proof {
        lemma_repaired_positions_cover(old(prod_positions)@, sids, mids);
        let after = user_series.deep_view();
        assert(after.len() == user_series@.len());
        assert(after.len() == before.len());
        assert forall|i: int| 0 <= i < user_series@.len() implies is_placed(
            prod_positions@,
            false,
            (#[trigger] user_series@[i]).series.id,
        ) by {
            assert(after[i] == repaired_series(before[i]));
            assert(after[i].series.id == user_series@[i].series.id);
            assert(sids[i] == before[i].series.id);
        }
        assert forall|i: int| 0 <= i < user_movies@.len() implies is_placed(
            prod_positions@,
            true,
            (#[trigger] user_movies@[i]).movie.id,
        ) by {
            assert(mids[i] == user_movies@[i].movie.id);
        }
    }
    placed + grown
}

/// After the repair every series and every movie has a place in the
/// ordering, and the places that were there before are its beginning.
pub proof fn lemma_repaired_positions_cover(
    positions: Seq<ProdEntry>,
    series: Seq<u32>,
    movies: Seq<u32>,
)
    ensures
        positions.is_prefix_of(repaired_positions(positions, series, movies)),
        forall|i: int|
            0 <= i < series.len() ==> is_placed(
                repaired_positions(positions, series, movies),
                false,
                #[trigger] series[i],
            ),
        forall|i: int|
            0 <= i < movies.len() ==> is_placed(
                repaired_positions(positions, series, movies),
                true,
                #[trigger] movies[i],
            ),
{
    let for_series = missing_entries(positions, false, series, series.len());
    let for_movies = missing_entries(positions, true, movies, movies.len());
    let repaired = repaired_positions(positions, series, movies);
    assert(repaired.subrange(0, positions.len() as int) =~= positions);
    assert forall|i: int| 0 <= i < series.len() implies is_placed(
        repaired,
        false,
        #[trigger] series[i],
    ) by {
        lemma_missing_entries_cover(positions, false, series, series.len(), i);
        let entry = ProdEntry { is_movie: false, id: series[i] };
        if positions.contains(entry) {
            let at = choose|at: int| 0 <= at < positions.len() && positions[at] == entry;
            assert(repaired[at] == entry);
        } else {
            let at = choose|at: int| 0 <= at < for_series.len() && for_series[at] == entry;
            assert(repaired[positions.len() + at] == entry);
        }
    }
    assert forall|i: int| 0 <= i < movies.len() implies is_placed(
        repaired,
        true,
        #[trigger] movies[i],
    ) by {
        lemma_missing_entries_cover(positions, true, movies, movies.len(), i);
        let entry = ProdEntry { is_movie: true, id: movies[i] };
        if positions.contains(entry) {
            let at = choose|at: int| 0 <= at < positions.len() && positions[at] == entry;
            assert(repaired[at] == entry);
        } else {
            let at = choose|at: int| 0 <= at < for_movies.len() && for_movies[at] == entry;
            assert(repaired[positions.len() + for_series.len() + at] == entry);
        }
    }
}

proof fn lemma_missing_entries_cover(
    positions: Seq<ProdEntry>,
    is_movie: bool,
    ids: Seq<u32>,
    upto: nat,
    i: int,
)
    requires
        0 <= i < upto,
    ensures
        is_placed(positions, is_movie, ids[i]) || missing_entries(
            positions,
            is_movie,
            ids,
            upto,
        ).contains(ProdEntry { is_movie, id: ids[i] }),
    decreases upto,
{
    let earlier = missing_entries(positions, is_movie, ids, (upto - 1) as nat);
    let entry = ProdEntry { is_movie, id: ids[i] };
    if i < upto - 1 {
        lemma_missing_entries_cover(positions, is_movie, ids, (upto - 1) as nat, i);
        lemma_contains_after_push(earlier, ProdEntry { is_movie, id: ids[upto - 1] }, entry);
    } else {
        lemma_contains_after_push(earlier, entry, entry);
    }
}

/// The user's data after its repair: the ordering as [`repaired_positions`]
/// gives it, the series as [`repaired_collection`] gives them, the movies
/// as they were.
pub open spec fn repaired_data(data: UserDataModel) -> UserDataModel {
    UserDataModel {
        user_series: repaired_collection(data.user_series),
        user_movies: data.user_movies,
        prod_positions: repaired_positions(
            data.prod_positions,
            series_ids(data.user_series),
            movie_ids(data.user_movies),
        ),
    }
}

/// How many places the repair of the data adds and how many lists it
/// makes longer, together.
pub open spec fn data_changes(data: UserDataModel) -> nat {
    (repaired_data(data).prod_positions.len() - data.prod_positions.len()) as nat + note_changes(
        data.user_series,
        data.user_series.len(),
    )
}

impl UserData {
    /// Repairs the data as [`fix_data_integrity`] does. Returns how many
    /// changes that took: 0 says that the data was sound.
    pub fn repair_integrity(&mut self) -> (changes: usize)
        requires
            data_changes(old(self).deep_view()) <= usize::MAX,
        ensures
            final(self).deep_view() == repaired_data(old(self).deep_view()),
            changes == data_changes(old(self).deep_view()),
    {
        let ghost movies = self.user_movies.deep_view();
        let changes = fix_data_integrity(
            &mut self.user_series,
            &mut self.user_movies,
            &mut self.prod_positions,
        );
        assert(self.user_movies.deep_view() =~= movies);
        changes
    }
}

/// Repaired data needs no repair: repairing it again changes nothing, and
/// counts no change. Every series and every movie of repaired data has a
/// place in the ordering.
pub proof fn lemma_repaired_data(data: UserDataModel)
    ensures
        repaired_data(repaired_data(data)) == repaired_data(data),
        data_changes(repaired_data(data)) == 0,
        data_changes(data) == 0 <==> repaired_data(data) == data,
        forall|i: int|
            0 <= i < repaired_data(data).user_series.len() ==> is_placed(
                repaired_data(data).prod_positions,
                false,
                (#[trigger] repaired_data(data).user_series[i]).series.id,
            ),
        forall|i: int|
            0 <= i < repaired_data(data).user_movies.len() ==> is_placed(
                repaired_data(data).prod_positions,
                true,
                (#[trigger] repaired_data(data).user_movies[i]).movie.id,
            ),
{
    let once = repaired_data(data);
    let sids = series_ids(data.user_series);
    let mids = movie_ids(data.user_movies);
    assert(series_ids(once.user_series) =~= sids);
    lemma_repaired_positions_settled(data.prod_positions, sids, mids);
    lemma_repaired_positions_cover(data.prod_positions, sids, mids);
    assert forall|i: int| 0 <= i < data.user_series.len() implies repaired_series(
        #[trigger] once.user_series[i],
    ) == once.user_series[i] && season_changes(
        once.user_series[i].series,
        once.user_series[i].season_notes,
    ) == 0 by {
        lemma_repaired_seasons(data.user_series[i].series, data.user_series[i].season_notes);
    }
    assert(repaired_collection(once.user_series) =~= once.user_series);
    lemma_no_note_changes(once.user_series, once.user_series.len());
    lemma_no_note_changes(data.user_series, data.user_series.len());
    assert forall|i: int| 0 <= i < once.user_series.len() implies is_placed(
        once.prod_positions,
        false,
        (#[trigger] once.user_series[i]).series.id,
    ) by {
        assert(sids[i] == once.user_series[i].series.id);
    }
    assert forall|i: int| 0 <= i < once.user_movies.len() implies is_placed(
        once.prod_positions,
        true,
        (#[trigger] once.user_movies[i]).movie.id,
    ) by {
        assert(mids[i] == once.user_movies[i].movie.id);
    }
    if data_changes(data) == 0 {
        assert(once.prod_positions =~= data.prod_positions);
        assert forall|i: int| 0 <= i < data.user_series.len() implies once.user_series[i]
            == data.user_series[i] by {
            lemma_repaired_seasons(data.user_series[i].series, data.user_series[i].season_notes);
        }
        assert(once.user_series =~= data.user_series);
    }
    if once == data {
        assert forall|i: int| 0 <= i < data.user_series.len() implies season_changes(
            (#[trigger] data.user_series[i]).series,
            data.user_series[i].season_notes,
        ) == 0 by {
            lemma_repaired_seasons(data.user_series[i].series, data.user_series[i].season_notes);
            assert(once.user_series[i] == repaired_series(data.user_series[i]));
        }
    }
}

proof fn lemma_no_note_changes(series: Seq<UserSeriesModel>, upto: nat)
    requires
        upto <= series.len(),
    ensures
        note_changes(series, upto) == 0 <==> (forall|i: int|
            0 <= i < upto ==> season_changes(
                (#[trigger] series[i]).series,
                series[i].season_notes,
            ) == 0),
    decreases upto,
{
    if upto > 0 {
        lemma_no_note_changes(series, (upto - 1) as nat);
    }
}

proof fn lemma_nothing_missing(
    positions: Seq<ProdEntry>,
    is_movie: bool,
    ids: Seq<u32>,
    upto: nat,
)
    requires
        upto <= ids.len(),
        forall|i: int| 0 <= i < ids.len() ==> is_placed(positions, is_movie, #[trigger] ids[i]),
    ensures
        missing_entries(positions, is_movie, ids, upto) == Seq::<ProdEntry>::empty(),
    decreases upto,
{
    if upto > 0 {
        lemma_nothing_missing(positions, is_movie, ids, (upto - 1) as nat);
        assert(is_placed(positions, is_movie, ids[upto - 1]));
    }
}

/// A repaired ordering needs no repair: repairing it again changes nothing.
pub proof fn lemma_repaired_positions_settled(
    positions: Seq<ProdEntry>,
    series: Seq<u32>,
    movies: Seq<u32>,
)
    ensures
        repaired_positions(repaired_positions(positions, series, movies), series, movies)
            == repaired_positions(positions, series, movies),
{
    let repaired = repaired_positions(positions, series, movies);
    lemma_repaired_positions_cover(positions, series, movies);
    lemma_nothing_missing(repaired, false, series, series.len());
    lemma_nothing_missing(repaired, true, movies, movies.len());
    assert(repaired_positions(repaired, series, movies) =~= repaired);
}

proof fn lemma_no_short_seasons(series: SeriesModel, seasons: Seq<SeasonNotesModel>, upto: nat)
    ensures
        short_seasons(series, seasons, upto) == 0 <==> (forall|i: int|
            0 <= i < upto ==> (#[trigger] seasons[i]).episode_notes.len()
                >= series.story_episode_count(i)),
    decreases upto,
{
    if upto > 0 {
        lemma_no_short_seasons(series, seasons, (upto - 1) as nat);
        if short_seasons(series, seasons, upto) == 0 {
            assert forall|i: int| 0 <= i < upto implies (#[trigger] seasons[i]).episode_notes.len()
                >= series.story_episode_count(i) by {
                if i < upto - 1 {
                } else {
                }
            }
        } else {
            if short_seasons(series, seasons, (upto - 1) as nat) == 0 {
                assert(seasons[upto - 1].episode_notes.len() < series.story_episode_count(upto - 1));
            }
        }
    }
}

/// What the repair of a series' notes leaves behind. Every season that
/// was there is still there, with its note, its rating and, at their old
/// places, its episode notes. Where the catalog record lists every story
/// season, there are notes for each of them, with an entry for every
/// episode. The count of changes is 0 exactly where the repair changes
/// nothing, and repaired notes need no repair.
pub proof fn lemma_repaired_seasons(series: SeriesModel, notes: Seq<SeasonNotesModel>)
    ensures
        notes.len() <= repaired_seasons(series, notes).len(),
        forall|i: int|
            0 <= i < notes.len() ==> {
                let repaired = #[trigger] repaired_seasons(series, notes)[i];
                &&& repaired.note == notes[i].note
                &&& repaired.user_rating == notes[i].user_rating
                &&& notes[i].episode_notes.is_prefix_of(repaired.episode_notes)
            },
        series.lists_every_story_season() ==> {
            &&& series.number_of_seasons <= repaired_seasons(series, notes).len()
            &&& forall|i: int|
                0 <= i < series.number_of_seasons ==> series.story_episode_count(i) <= (
                #[trigger] repaired_seasons(series, notes)[i]).episode_notes.len()
        },
        season_changes(series, notes) == 0 <==> repaired_seasons(series, notes) == notes,
        repaired_seasons(series, repaired_seasons(series, notes)) == repaired_seasons(series, notes),
        season_changes(series, repaired_seasons(series, notes)) == 0,
{
    let repaired = repaired_seasons(series, notes);
    let stories = series.number_of_seasons as nat;
    let seasons = grown_seasons(notes, stories);
    assert forall|i: int| 0 <= i < notes.len() implies {
        let after = #[trigger] repaired_seasons(series, notes)[i];
        &&& after.note == notes[i].note
        &&& after.user_rating == notes[i].user_rating
        &&& notes[i].episode_notes.is_prefix_of(after.episode_notes)
    } by {
        let after = repaired[i];
        assert(after.episode_notes.subrange(0, notes[i].episode_notes.len() as int)
            =~= notes[i].episode_notes);
    }
    if series.lists_every_story_season() {
        lemma_no_short_seasons(series, seasons, stories);
        lemma_no_short_seasons(series, repaired, stories);
        if season_changes(series, notes) == 0 {
            assert(repaired =~= notes);
        }
        if repaired == notes {
            assert(notes.len() >= stories);
            assert forall|i: int| 0 <= i < stories implies (#[trigger] seasons[i]).episode_notes.len()
                >= series.story_episode_count(i) by {
                assert(repaired[i] == repaired_season(series, seasons, i));
            }
        }
        assert(grown_seasons(repaired, stories) =~= repaired);
        assert forall|i: int| 0 <= i < stories implies (#[trigger] repaired[i]).episode_notes.len()
            >= series.story_episode_count(i) by {
            assert(repaired[i] == repaired_season(series, seasons, i));
        }
        assert(repaired_seasons(series, repaired) =~= repaired);
    }
}

} // verus!
