//! Series: the catalog's record of one with its seasons, and the user's
//! record around it, with notes for every season and episode.

use vstd::prelude::*;
use crate::score::Score;
use crate::sequences::{first_index_of, is_first_at, lemma_first_index_of};

verus! {

/// What the catalog says of one season of a series.
#[derive(Clone, Debug)]
pub struct Season {
    pub air_date: Option<String>,
    pub episode_count: u32,
    pub id: u32,
    pub name: String,
    pub overview: String,
    pub poster_path: Option<String>,
    pub season_number: u32,
    pub vote_average: Score,
}

/// What the catalog says of a series, as it was when the user added it.
///
/// `seasons` may start with the specials, which carry season number 0 and
/// are not counted in `number_of_seasons`.
#[derive(Clone, Debug)]
pub struct Series {
    pub id: u32,
    pub name: String,
    pub original_language: String,
    pub overview: String,
    pub popularity: Score,
    pub poster_path: Option<String>,
    pub first_air_date: String,
    pub vote_average: Score,
    pub adult: bool,
    pub number_of_seasons: u32,
    pub number_of_episodes: u32,
    pub status: String,
    pub seasons: Vec<Season>,
}

/// A series as a catalog search returns it, without its seasons.
#[derive(Clone, Debug)]
pub struct SearchedSeries {
    pub id: u32,
    pub name: String,
    pub original_language: String,
    pub overview: String,
    pub popularity: Score,
    pub poster_path: Option<String>,
    pub first_air_date: String,
    pub vote_average: Score,
    pub adult: bool,
}

/// The part of a series that only a detail query returns.
#[derive(Debug)]
pub struct SeriesDetails {
    pub number_of_seasons: u32,
    pub number_of_episodes: u32,
    pub status: String,
    pub seasons: Vec<Season>,
}

/// One episode of a season.
#[derive(Debug)]
pub struct Episode {
    pub episode_number: u32,
    pub name: String,
    pub overview: String,
    pub runtime: Option<u32>,
    pub vote_average: Score,
}

/// The episodes of one season.
#[derive(Debug)]
pub struct SeasonDetails {
    pub id: u32,
    pub season_number: u32,
    pub name: String,
    pub air_date: Option<String>,
    pub episodes: Vec<Episode>,
}

/// How long a season runs.
#[derive(Clone, Copy, Debug)]
pub struct Runtime {
    pub minutes: u32,
}

/// The user's notes on one season.
#[derive(Clone, Debug)]
pub struct SeasonNotes {
    pub note: String,
    pub user_rating: Score,
    pub episode_notes: Vec<String>,
}

/// A series in the user's collection, with what the user said of it.
#[derive(Clone, Debug)]
pub struct UserSeries {
    pub series: Series,
    pub user_rating: Score,
    pub note: String,
    pub season_notes: Vec<SeasonNotes>,
    pub watched: bool,
    pub favorite: bool,
}

/// The mathematical content of a [`Season`].
pub struct SeasonModel {
    pub air_date: Option<Seq<char>>,
    pub episode_count: u32,
    pub id: u32,
    pub name: Seq<char>,
    pub overview: Seq<char>,
    pub poster_path: Option<Seq<char>>,
    pub season_number: u32,
    pub vote_average: Score,
}

/// The mathematical content of a [`Series`].
pub struct SeriesModel {
    pub id: u32,
    pub name: Seq<char>,
    pub original_language: Seq<char>,
    pub overview: Seq<char>,
    pub popularity: Score,
    pub poster_path: Option<Seq<char>>,
    pub first_air_date: Seq<char>,
    pub vote_average: Score,
    pub adult: bool,
    pub number_of_seasons: u32,
    pub number_of_episodes: u32,
    pub status: Seq<char>,
    pub seasons: Seq<SeasonModel>,
}

impl DeepView for Season {
    type V = SeasonModel;

    open spec fn deep_view(&self) -> SeasonModel {
        SeasonModel {
            air_date: self.air_date.deep_view(),
            episode_count: self.episode_count,
            id: self.id,
            name: self.name@,
            overview: self.overview@,
            poster_path: self.poster_path.deep_view(),
            season_number: self.season_number,
            vote_average: self.vote_average,
        }
    }
}

impl DeepView for Series {
    type V = SeriesModel;

    open spec fn deep_view(&self) -> SeriesModel {
        SeriesModel {
            id: self.id,
            name: self.name@,
            original_language: self.original_language@,
            overview: self.overview@,
            popularity: self.popularity,
            poster_path: self.poster_path.deep_view(),
            first_air_date: self.first_air_date@,
            vote_average: self.vote_average,
            adult: self.adult,
            number_of_seasons: self.number_of_seasons,
            number_of_episodes: self.number_of_episodes,
            status: self.status@,
            seasons: self.seasons.deep_view(),
        }
    }
}

impl SeriesModel {
    /// Whether the season list starts with the specials.
    pub open spec fn lists_specials(self) -> bool {
        self.seasons.len() > 0 && self.seasons[0].season_number == 0
    }

    /// Where the story seasons start in the season list: behind the
    /// specials, if they are listed.
    pub open spec fn first_story_season(self) -> int {
        if self.lists_specials() {
            1
        } else {
            0
        }
    }

    /// Whether the season list holds every story season that
    /// `number_of_seasons` counts.
    pub open spec fn lists_every_story_season(self) -> bool {
        self.seasons.len() - self.first_story_season() >= self.number_of_seasons
    }

    /// The episode count of the story season at `index`, counted from 0.
    pub open spec fn story_episode_count(self, index: int) -> nat {
        self.seasons[self.first_story_season() + index].episode_count as nat
    }
}

/// The mathematical content of a [`SeasonNotes`].
pub struct SeasonNotesModel {
    pub note: Seq<char>,
    pub user_rating: Score,
    pub episode_notes: Seq<Seq<char>>,
}

/// The mathematical content of a [`UserSeries`].
pub struct UserSeriesModel {
    pub series: SeriesModel,
    pub user_rating: Score,
    pub note: Seq<char>,
    pub season_notes: Seq<SeasonNotesModel>,
    pub watched: bool,
    pub favorite: bool,
}

impl DeepView for SeasonNotes {
    type V = SeasonNotesModel;

    open spec fn deep_view(&self) -> SeasonNotesModel {
        SeasonNotesModel {
            note: self.note@,
            user_rating: self.user_rating,
            episode_notes: self.episode_notes.deep_view(),
        }
    }
}

impl DeepView for UserSeries {
    type V = UserSeriesModel;

    open spec fn deep_view(&self) -> UserSeriesModel {
        UserSeriesModel {
            series: self.series.deep_view(),
            user_rating: self.user_rating,
            note: self.note@,
            season_notes: self.season_notes.deep_view(),
            watched: self.watched,
            favorite: self.favorite,
        }
    }
}

/// The ids of the series, in their order.
pub open spec fn series_ids(series: Seq<UserSeriesModel>) -> Seq<u32> {
    Seq::new(series.len(), |i: int| series[i].series.id)
}

/// `count` empty notes.
pub open spec fn blank_notes(count: nat) -> Seq<Seq<char>> {
    Seq::new(count, |i: int| Seq::<char>::empty())
}

/// The notes of a season that has `episode_count` episodes and nothing
/// written about it yet.
pub open spec fn blank_season(episode_count: nat) -> SeasonNotesModel {
    SeasonNotesModel {
        note: Seq::empty(),
        user_rating: Score { bits: 0 },
        episode_notes: blank_notes(episode_count),
    }
}

/// Episode notes grown to hold at least `required` entries: empty notes are
/// added at the end, and nothing is ever taken away.
pub open spec fn grown_notes(notes: Seq<Seq<char>>, required: nat) -> Seq<Seq<char>> {
    if required <= notes.len() {
        notes
    } else {
        notes + blank_notes((required - notes.len()) as nat)
    }
}

/// Season notes grown to hold at least `required` seasons: seasons without
/// episodes and without notes are added at the end, and nothing is ever
/// taken away.
pub open spec fn grown_seasons(notes: Seq<SeasonNotesModel>, required: nat) -> Seq<
    SeasonNotesModel,
> {
    if required <= notes.len() {
        notes
    } else {
        notes + Seq::new((required - notes.len()) as nat, |i: int| blank_season(0))
    }
}

/// The minutes that the first `upto` of the episodes run together; an
/// episode without a runtime counts for nothing.
pub open spec fn total_minutes(episodes: Seq<Episode>, upto: nat) -> nat
    decreases upto,
{
    if upto == 0 {
        0
    } else {
        let rest = total_minutes(episodes, (upto - 1) as nat);
        match episodes[upto - 1].runtime {
            Some(minutes) => rest + minutes as nat,
            None => rest,
        }
    }
}

impl Series {
    /// Puts a search result and its details together.
    pub fn from(series: &SearchedSeries, details: SeriesDetails) -> (made: Series)
        ensures
            made.id == series.id,
            made.name@ == series.name@,
            made.original_language@ == series.original_language@,
            made.overview@ == series.overview@,
            made.popularity == series.popularity,
            made.poster_path.deep_view() == series.poster_path.deep_view(),
            made.first_air_date@ == series.first_air_date@,
            made.vote_average == series.vote_average,
            made.adult == series.adult,
            made.number_of_seasons == details.number_of_seasons,
            made.number_of_episodes == details.number_of_episodes,
            made.status == details.status,
            made.seasons == details.seasons,
    {
        Series {
            id: series.id,
            name: series.name.clone(),
            original_language: series.original_language.clone(),
            overview: series.overview.clone(),
            popularity: series.popularity,
            poster_path: series.poster_path.clone(),
            first_air_date: series.first_air_date.clone(),
            vote_average: series.vote_average,
            adult: series.adult,
            number_of_seasons: details.number_of_seasons,
            number_of_episodes: details.number_of_episodes,
            status: details.status,
            seasons: details.seasons,
        }
    }

    /// Whether the first listed season is the specials.
    pub fn has_specials(&self) -> (specials: bool)
        requires
            self.seasons@.len() > 0,
        ensures
            specials == self.deep_view().lists_specials(),
    {
        self.seasons[0].season_number == 0
    }
}

impl SeriesDetails {
    /// Whether the first listed season is the specials.
    pub fn has_specials(&self) -> (specials: bool)
        requires
            self.seasons@.len() > 0,
        ensures
            specials == (self.seasons@[0].season_number == 0),
    {
        self.seasons[0].season_number == 0
    }
}

impl SeasonDetails {
    /// The minutes that the season's episodes run together, or `None` where
    /// they are more than a `u32` holds.
    pub fn runtime(&self) -> (runtime: Option<Runtime>)
        ensures
            match runtime {
                Some(r) => r.minutes == total_minutes(self.episodes@, self.episodes@.len()),
                None => total_minutes(self.episodes@, self.episodes@.len()) > u32::MAX,
            },
    {
        let mut minutes: u32 = 0;
        let mut i: usize = 0;
        while i < self.episodes.len()
            invariant
                i <= self.episodes@.len(),
                minutes == total_minutes(self.episodes@, i as nat),
            decreases self.episodes@.len() - i,
        {
            if let Some(more) = self.episodes[i].runtime {
                match minutes.checked_add(more) {
                    Some(sum) => {
                        minutes = sum;
                    },
                    None => {
                        proof {
                            lemma_total_minutes_grows(self.episodes@, (i + 1) as nat, self.episodes@.len());
                        }
                        return None;
                    },
                }
            }
            i += 1;
        }
        Some(Runtime { minutes })
    }
}

/// Growing episode notes never takes a note away or changes one, reaches
/// the length asked for, and has nothing left to do when it is asked for
/// that length, or a smaller one, again.
pub proof fn lemma_grown_notes(notes: Seq<Seq<char>>, required: nat, again: nat)
    requires
        again <= required,
    ensures
        notes.len() <= grown_notes(notes, required).len(),
        required <= grown_notes(notes, required).len(),
        notes.is_prefix_of(grown_notes(notes, required)),
        required <= notes.len() ==> grown_notes(notes, required) == notes,
        grown_notes(grown_notes(notes, required), required) == grown_notes(notes, required),
        grown_notes(grown_notes(notes, required), again) == grown_notes(notes, required),
{
    let grown = grown_notes(notes, required);
    assert(grown.subrange(0, notes.len() as int) =~= notes);
}

/// Growing season notes never takes a season away or changes one, reaches
/// the length asked for, and has nothing left to do when it is asked for
/// that length, or a smaller one, again.
pub proof fn lemma_grown_seasons(notes: Seq<SeasonNotesModel>, required: nat, again: nat)
    requires
        again <= required,
    ensures
        notes.len() <= grown_seasons(notes, required).len(),
        required <= grown_seasons(notes, required).len(),
        notes.is_prefix_of(grown_seasons(notes, required)),
        required <= notes.len() ==> grown_seasons(notes, required) == notes,
        grown_seasons(grown_seasons(notes, required), required) == grown_seasons(notes, required),
        grown_seasons(grown_seasons(notes, required), again) == grown_seasons(notes, required),
{
    let grown = grown_seasons(notes, required);
    assert(grown.subrange(0, notes.len() as int) =~= notes);
}

/// The record of a series that the user has just added: unrated, without
/// notes, neither watched nor a favorite, with blank notes for every
/// listed season.
pub open spec fn fresh_series_record(series: SeriesModel) -> UserSeriesModel {
    UserSeriesModel {
        series,
        user_rating: Score { bits: 0 },
        note: Seq::empty(),
        season_notes: Seq::new(
            series.seasons.len(),
            |i: int| blank_season(series.seasons[i].episode_count as nat),
        ),
        watched: false,
        favorite: false,
    }
}

/// Where the first series with the given id stands, if there is one.
pub fn find_series(series: &Vec<UserSeries>, id: u32) -> (found: Option<usize>)
    ensures
        match found {
            Some(index) => first_index_of(series_ids(series.deep_view()), id) == Some(index as int),
            None => first_index_of(series_ids(series.deep_view()), id) is None,
        },
{
    let ghost ids = series_ids(series.deep_view());
    proof {
        lemma_first_index_of(ids, id);
    }
    let mut j: usize = 0;
    while j < series.len()
        invariant
            j <= series@.len(),
            ids == series_ids(series.deep_view()),
            forall|k: int| 0 <= k < j ==> ids[k] != id,
        decreases series@.len() - j,
    {
        if series[j].series.id == id {
            assert(is_first_at(ids, id, j as int));
            return Some(j);
        }
        j += 1;
    }
    None
}

/// The minutes of more episodes are never fewer.
pub proof fn lemma_total_minutes_grows(episodes: Seq<Episode>, fewer: nat, more: nat)
    requires
        fewer <= more,
    ensures
        total_minutes(episodes, fewer) <= total_minutes(episodes, more),
    decreases more,
{
    if fewer < more {
        lemma_total_minutes_grows(episodes, fewer, (more - 1) as nat);
    }
}

impl SeasonNotes {
    /// Notes for a season of `episode_count` episodes, with nothing written yet.
    pub fn empty(episode_count: usize) -> (notes: SeasonNotes)
        ensures
            notes.deep_view() == blank_season(episode_count as nat),
    {
        let mut notes = SeasonNotes { note: String::new(), user_rating: Score::zero(), episode_notes: Vec::new() };
        assert(notes.episode_notes.deep_view() =~= blank_notes(0));
        notes.ensure_length(episode_count);
        assert(notes.episode_notes.deep_view() =~= blank_notes(episode_count as nat));
        notes
    }

    /// The note on the episode with the given number, counted from 1.
    pub fn episode_note(&mut self, episode_num: u32) -> (note: &mut String)
        requires
            1 <= episode_num <= old(self).episode_notes@.len(),
        ensures
            *note == old(self).episode_notes@[episode_num - 1],
            final(self).episode_notes@ == old(self).episode_notes@.update(episode_num - 1, *final(note)),
            final(self).note == old(self).note,
            final(self).user_rating == old(self).user_rating,
    {
        &mut self.episode_notes[episode_num as usize - 1]
    }

    /// Grows the episode notes to at least `episode_count` entries by adding
    /// empty notes at the end. Notes that are there stay as they are.
    pub fn ensure_length(&mut self, episode_count: usize)
        ensures
            final(self).note == old(self).note,
            final(self).user_rating == old(self).user_rating,
            final(self).episode_notes.deep_view() == grown_notes(
                old(self).episode_notes.deep_view(),
                episode_count as nat,
            ),
            old(self).episode_notes@.len() <= final(self).episode_notes@.len(),
            forall|i: int|
                0 <= i < old(self).episode_notes@.len() ==> final(self).episode_notes@[i] == old(
                    self,
                ).episode_notes@[i],
    {
        if episode_count <= self.episode_notes.len() {
            return ;
        }
        while self.episode_notes.len() < episode_count
            invariant
                self.note == old(self).note,
                self.user_rating == old(self).user_rating,
                old(self).episode_notes@.len() <= self.episode_notes@.len() <= episode_count,
                forall|i: int|
                    0 <= i < old(self).episode_notes@.len() ==> self.episode_notes@[i] == old(
                        self,
                    ).episode_notes@[i],
                forall|i: int|
                    old(self).episode_notes@.len() <= i < self.episode_notes@.len() ==> (
                    #[trigger] self.episode_notes@[i])@ == Seq::<char>::empty(),
            decreases episode_count - self.episode_notes@.len(),
        {
            self.episode_notes.push(String::new());
        }
        assert(self.episode_notes.deep_view() =~= grown_notes(
            old(self).episode_notes.deep_view(),
            episode_count as nat,
        ));
    }
}

impl UserSeries {
    /// A fresh record for a series: unrated, without notes, neither watched
    /// nor a favorite, with blank notes for every listed season.
    pub fn new(series: Series) -> (record: UserSeries)
        ensures
            record.deep_view() == fresh_series_record(series.deep_view()),
    {
        let mut notes: Vec<SeasonNotes> = Vec::new();
        let mut i: usize = 0;
        while i < series.seasons.len()
            invariant
                i <= series.seasons@.len(),
                notes@.len() == i,
                forall|k: int|
                    0 <= k < i ==> (#[trigger] notes@[k]).deep_view() == blank_season(
                        series.seasons@[k].episode_count as nat,
                    ),
            decreases series.seasons@.len() - i,
        {
            let season_notes = SeasonNotes::empty(series.seasons[i].episode_count as usize);
            notes.push(season_notes);
            i += 1;
        }
        assert(notes.deep_view() =~= fresh_series_record(series.deep_view()).season_notes);
        UserSeries {
            series,
            user_rating: Score::zero(),
            note: String::new(),
            season_notes: notes,
            watched: false,
            favorite: false,
        }
    }

    /// Grows the season notes to at least `season_count` seasons by adding
    /// blank seasons at the end. Seasons that are there stay as they are.
    pub fn ensure_season_length(&mut self, season_count: usize)
        ensures
            final(self).series == old(self).series,
            final(self).user_rating == old(self).user_rating,
            final(self).note == old(self).note,
            final(self).watched == old(self).watched,
            final(self).favorite == old(self).favorite,
            final(self).season_notes.deep_view() == grown_seasons(
                old(self).season_notes.deep_view(),
                season_count as nat,
            ),
            old(self).season_notes@.len() <= final(self).season_notes@.len(),
            forall|i: int|
                0 <= i < old(self).season_notes@.len() ==> final(self).season_notes@[i] == old(
                    self,
                ).season_notes@[i],
    {
        while self.season_notes.len() < season_count
            invariant
                self.series == old(self).series,
                self.user_rating == old(self).user_rating,
                self.note == old(self).note,
                self.watched == old(self).watched,
                self.favorite == old(self).favorite,
                old(self).season_notes@.len() <= self.season_notes@.len(),
                self.season_notes@.len() <= season_count || self.season_notes@.len() == old(
                    self,
                ).season_notes@.len(),
                forall|i: int|
                    0 <= i < old(self).season_notes@.len() ==> self.season_notes@[i] == old(
                        self,
                    ).season_notes@[i],
                forall|i: int|
                    old(self).season_notes@.len() <= i < self.season_notes@.len() ==> (
                    #[trigger] self.season_notes@[i]).deep_view() == blank_season(0),
            decreases season_count - self.season_notes@.len(),
        {
            self.season_notes.push(SeasonNotes::empty(0));
        }
        assert(self.season_notes.deep_view() =~= grown_seasons(
            old(self).season_notes.deep_view(),
            season_count as nat,
        ));
    }

    /// The notes on the season with the given number, counted from 1.
    pub fn season_note(&mut self, season_num: u32) -> (notes: &mut SeasonNotes)
        requires
            1 <= season_num <= old(self).season_notes@.len(),
        ensures
            *notes == old(self).season_notes@[season_num - 1],
            final(self).season_notes@ == old(self).season_notes@.update(season_num - 1, *final(notes)),
            final(self).series == old(self).series,
            final(self).user_rating == old(self).user_rating,
            final(self).note == old(self).note,
            final(self).watched == old(self).watched,
            final(self).favorite == old(self).favorite,
    {
        &mut self.season_notes[season_num as usize - 1]
    }
}

} // verus!
