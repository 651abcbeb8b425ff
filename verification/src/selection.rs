//! What the user has selected in the detail panel.

use vstd::prelude::*;

verus! {

/// A selected production, and within a series a season and an episode.
/// `index` points into the movies or the series of the collection; seasons
/// and episodes are counted from 1.
pub struct Selection {
    pub index: Option<usize>,
    pub season: Option<u32>,
    pub episode: Option<u32>,
}

impl Selection {
    /// Nothing selected.
    pub fn new() -> (selection: Selection)
        ensures
            selection.index is None,
            selection.season is None,
            selection.episode is None,
    {
        Selection { index: None, season: None, episode: None }
    }

    /// Drops the whole selection.
    pub fn unselect_all(&mut self)
        ensures
            final(self).index is None,
            final(self).season is None,
            final(self).episode is None,
    {
        self.index = None;
        self.season = None;
        self.episode = None;
    }

    /// The index of the selected production.
    pub fn index(&self) -> (index: usize)
        requires
            self.index is Some,
        ensures
            self.index == Some(index),
    {
        match self.index {
            Some(index) => index,
            None => 0,
        }
    }

    /// The number of the selected season.
    pub fn season(&self) -> (season: u32)
        requires
            self.season is Some,
        ensures
            self.season == Some(season),
    {
        match self.season {
            Some(season) => season,
            None => 0,
        }
    }

    /// The number of the selected episode.
    pub fn episode(&self) -> (episode: u32)
        requires
            self.episode is Some,
        ensures
            self.episode == Some(episode),
    {
        match self.episode {
            Some(episode) => episode,
            None => 0,
        }
    }
}

} // verus!
