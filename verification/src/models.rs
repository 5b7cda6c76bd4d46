//! The typed model of a returned itinerary: stations, timed stops, delays,
//! and journey or walk legs. Pure data, consumed read-only by the
//! presentation layer and rebuilt fresh from each search response.

use vstd::prelude::*;

verus! {

/// A station.
#[derive(Debug, Clone)]
pub struct Location {
    pub name: String,
}

/// A walk leg, in seconds.
#[derive(Debug, Clone)]
pub struct Walk {
    pub duration: u16,
}

/// A transit leg: the line and its intermediate stops.
#[derive(Debug, Clone)]
pub struct Journey {
    pub name: String,
    pub category: String,
    pub number: String,
    pub operator: String,
    pub to: String,
    pub pass_list: Vec<Stop>,
}

/// A stop with optional times (fixed-offset timestamps), delay and
/// platform; a trailing `!` on the platform marks a platform change.
#[derive(Debug, Clone)]
pub struct Stop {
    pub station: Location,
    pub arrival: Option<String>,
    pub departure: Option<String>,
    pub delay: Option<u16>,
    pub platform: Option<String>,
}

/// One chronological section of a connection; the API may omit both the
/// journey and the walk for edge cases.
#[derive(Debug, Clone)]
pub struct Section {
    pub departure: Stop,
    pub arrival: Stop,
    pub journey: Option<Journey>,
    pub walk: Option<Walk>,
}

/// A full itinerary from one stop to another.
#[derive(Debug, Clone)]
pub struct Connection {
    pub from: Stop,
    pub to: Stop,
    pub duration: String,
    pub sections: Vec<Section>,
}

/// What the result view shows: the connections of the last search, and
/// whether that search failed. A failed search clears the list and raises
/// the single error signal; a successful one replaces the list.
pub struct ResultsState {
    pub connections: Vec<Connection>,
    pub error: bool,
}

impl ResultsState {
    pub fn new() -> (r: ResultsState)
        ensures
            r.connections@.len() == 0,
            !r.error,
    {
        ResultsState { connections: Vec::new(), error: false }
    }

    /// Applies a search's outcome: `Some` replaces the list, `None` (the
    /// collaborator failed) clears it and raises the error signal.
    pub fn apply_search_result(&mut self, outcome: Option<Vec<Connection>>)
        ensures
            outcome matches Some(v) ==> final(self).connections == v && !final(self).error,
            outcome is None ==> final(self).connections@.len() == 0 && final(self).error,
    {
        match outcome {
            Some(v) => {
                self.connections = v;
                self.error = false;
            },
            None => {
                self.connections = Vec::new();
                self.error = true;
            },
        }
    }
}

} // verus!
