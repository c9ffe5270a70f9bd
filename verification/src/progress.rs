//! The figures of a synchronisation run.

use crate::clock::Timestamp;
use vstd::prelude::*;

pub mod messages;

verus! {

/// What a run did: how many items it created, updated, deleted and skipped,
/// and what went wrong.
#[derive(Debug)]
pub struct SyncStats {
    pub total_tasks: usize,
    pub created: usize,
    pub updated: usize,
    pub deleted: usize,
    pub skipped: usize,
    pub errors: Vec<String>,
    pub warnings: Vec<String>,
    pub start_time: Option<Timestamp>,
    pub end_time: Option<Timestamp>,
}

/// The figures of a run, as plain values.
pub struct SyncStatsView {
    pub total_tasks: nat,
    pub created: nat,
    pub updated: nat,
    pub deleted: nat,
    pub skipped: nat,
    pub errors: Seq<Seq<char>>,
    pub warnings: Seq<Seq<char>>,
    pub start_time: Option<Timestamp>,
    pub end_time: Option<Timestamp>,
}

impl View for SyncStats {
    type V = SyncStatsView;

    open spec fn view(&self) -> SyncStatsView {
        SyncStatsView {
            total_tasks: self.total_tasks as nat,
            created: self.created as nat,
            updated: self.updated as nat,
            deleted: self.deleted as nat,
            skipped: self.skipped as nat,
            errors: self.errors.deep_view(),
            warnings: self.warnings.deep_view(),
            start_time: self.start_time,
            end_time: self.end_time,
        }
    }
}

/// The figures of a run in which nothing has happened yet.
pub open spec fn no_stats() -> SyncStatsView {
    SyncStatsView {
        total_tasks: 0,
        created: 0,
        updated: 0,
        deleted: 0,
        skipped: 0,
        errors: Seq::empty(),
        warnings: Seq::empty(),
        start_time: None,
        end_time: None,
    }
}

impl Default for SyncStats {
    fn default() -> (s: SyncStats)
        ensures
            s@ == no_stats(),
    {
        let s = SyncStats {
            total_tasks: 0,
            created: 0,
            updated: 0,
            deleted: 0,
            skipped: 0,
            errors: Vec::new(),
            warnings: Vec::new(),
            start_time: None,
            end_time: None,
        };
        assert(s@.errors =~= Seq::<Seq<char>>::empty());
        assert(s@.warnings =~= Seq::<Seq<char>>::empty());
        s
    }
}

impl SyncStats {
    /// The figures at the start of a run over `total_tasks` tasks.
    pub fn starting(total_tasks: usize, start_time: Option<Timestamp>) -> (s: SyncStats)
        ensures
            s@ == (SyncStatsView {
                total_tasks: total_tasks as nat,
                start_time: start_time,
                ..no_stats()
            }),
    {
        let mut s = SyncStats::default();
        s.total_tasks = total_tasks;
        s.start_time = start_time;
        s
    }

    /// How many tasks were dealt with so far: created, updated or skipped;
    /// the greatest number that the machine can hold where the sum is
    /// greater.
    pub fn completed(&self) -> (n: usize)
        ensures
            n == if self@.created + self@.updated + self@.skipped <= usize::MAX {
                self@.created + self@.updated + self@.skipped
            } else {
                usize::MAX as nat
            },
    {
        self.created.saturating_add(self.updated).saturating_add(self.skipped)
    }
}

} // verus!
