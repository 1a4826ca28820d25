//! What the application shows: the stage of the scan, and the results of
//! the search that answers the query as it stands.

use vstd::prelude::*;
use crate::entry::FileEntry;

verus! {

/// The stage that the application is in.
pub enum AppState {
    /// Nothing was started yet.
    Initializing,
    /// A scan runs; `count` entries were seen, `current_drive` says where.
    Scanning { count: u64, current_drive: String },
    /// A catalog is there to be searched.
    Ready,
    /// The scan failed as a whole; it may be tried again.
    Error(String),
}

/// What the application says of a scan that has not named a volume yet.
pub open spec fn detecting_text() -> Seq<char> {
    "Detecting drives..."@
}

impl AppState {
    /// A scan is to be started: nothing was started yet.
    pub fn needs_scan(&self) -> (due: bool)
        ensures
            due == (*self is Initializing),
    {
        match self {
            AppState::Initializing => true,
            _ => false,
        }
    }

    /// The stage in which a scan starts.
    pub fn scan_started() -> (state: AppState)
        ensures
            state matches AppState::Scanning { count, current_drive } && count == 0
                && current_drive@ == detecting_text(),
    {
        AppState::Scanning { count: 0, current_drive: String::from_str("Detecting drives...") }
    }

    /// Takes in a progress report. It shows only while a scan runs; in any
    /// other stage it is dropped.
    pub fn on_progress(&mut self, seen: u64, drive: String)
        ensures
            match *old(self) {
                AppState::Scanning { .. } => *final(self) == (AppState::Scanning {
                    count: seen,
                    current_drive: drive,
                }),
                _ => *final(self) == *old(self),
            },
    {
        match self {
            AppState::Scanning { .. } => {
                *self = AppState::Scanning { count: seen, current_drive: drive };
            },
            _ => {},
        }
    }

    /// The scan handed over its catalog.
    pub fn on_scan_finished(&mut self)
        ensures
            *final(self) is Ready,
    {
        *self = AppState::Ready;
    }

    /// The scan failed as a whole, with the given text.
    pub fn on_scan_failed(&mut self, message: String)
        ensures
            *final(self) == AppState::Error(message),
    {
        *self = AppState::Error(message);
    }
}

/// The query as it stands, and the results shown for it.
pub struct SearchPanel {
    pub query: String,
    pub results: Vec<FileEntry>,
    /// Number of results of the last search that was shown.
    pub stats: Option<usize>,
}

impl SearchPanel {
    /// A panel with an empty query and nothing to show.
    pub fn new() -> (panel: SearchPanel)
        ensures
            panel.query@.len() == 0,
            panel.results@.len() == 0,
            panel.stats is None,
    {
        SearchPanel { query: String::new(), results: Vec::new(), stats: None }
    }

    /// Whether a search is to be run for the query as it stands. For an
    /// empty query none is: the results are cleared at once.
    pub fn query_changed(&mut self) -> (run: bool)
        ensures
            final(self).query == old(self).query,
            run == (old(self).query@.len() > 0),
            run ==> final(self).results == old(self).results && final(self).stats == old(
                self,
            ).stats,
            !run ==> final(self).results@.len() == 0 && final(self).stats is None,
    {
        if self.query.as_str().unicode_len() == 0 {
            self.results = Vec::new();
            self.stats = None;
            false
        } else {
            true
        }
    }

    /// Takes in the results of a search for `query`. They are shown only
    /// where the query still stands; results of a query that was changed
    /// since are dropped.
    pub fn accept(&mut self, query: &String, results: Vec<FileEntry>) -> (shown: bool)
        ensures
            final(self).query == old(self).query,
            shown == (query@ == old(self).query@),
            shown ==> final(self).results == results && final(self).stats == Some(
                results@.len() as usize,
            ),
            !shown ==> final(self).results == old(self).results && final(self).stats == old(
                self,
            ).stats,
    {
        if *query == self.query {
            self.stats = Some(results.len());
            self.results = results;
            true
        } else {
            false
        }
    }

    /// Whether to say that nothing was found: there is a query, and no
    /// result for it.
    pub fn found_nothing(&self) -> (nothing: bool)
        ensures
            nothing == (self.results@.len() == 0 && self.query@.len() > 0),
    {
        self.results.len() == 0 && self.query.as_str().unicode_len() > 0
    }
}

} // verus!
