//! Watching the task list: when a change leads to a synchronisation.

use crate::sync::{SyncDirection, SyncOptions};
use crate::text::owned;
use vstd::prelude::*;

verus! {

/// What the watcher saw.
#[derive(Debug)]
pub enum WatchEvent {
    TasksChanged,
    ConfigChanged,
    Error(String),
}

/// How the task list is watched.
#[derive(Debug)]
pub struct WatchMode {
    pub auto_sync: bool,
    pub sync_options: SyncOptions,
    pub debounce_ms: u64,
    pub ignore_patterns: Vec<String>,
}

impl Default for WatchMode {
    fn default() -> (m: WatchMode)
        ensures
            m.auto_sync,
            m.debounce_ms == 1000,
            m.ignore_patterns.deep_view() == seq!["*.tmp"@, "*.swp"@, "*~"@],
            !m.sync_options.dry_run && !m.sync_options.force && m.sync_options.use_delta_sync,
    {
        let mut patterns: Vec<String> = Vec::new();
        patterns.push(owned("*.tmp"));
        patterns.push(owned("*.swp"));
        patterns.push(owned("*~"));
        assert(patterns.deep_view() =~= seq!["*.tmp"@, "*.swp"@, "*~"@]);
        WatchMode {
            auto_sync: true,
            sync_options: SyncOptions::default(),
            debounce_ms: 1000,
            ignore_patterns: patterns,
        }
    }
}

/// Holds synchronisations back until the changes have settled. Times are
/// milliseconds on a clock that does not go back.
#[derive(Clone, Copy, Debug)]
pub struct Debouncer {
    pub duration_ms: u64,
    pub last_event: Option<u64>,
}

/// Whether a synchronisation may start at the time `now`: always where none
/// has started since the last change, else once the time of debouncing has
/// passed since the last start.
pub open spec fn may_trigger(d: Debouncer, now: u64) -> bool {
    match d.last_event {
        None => true,
        Some(last) => now >= last && now - last >= d.duration_ms,
    }
}

impl Debouncer {
    /// A debouncer that lets the first synchronisation start at once.
    pub fn new(duration_ms: u64) -> (d: Debouncer)
        ensures
            d.duration_ms == duration_ms,
            d.last_event is None,
    {
        Debouncer { duration_ms, last_event: None }
    }

    /// Whether a synchronisation may start at the time `now`. Where it may,
    /// `now` is remembered as the time of the last start.
    pub fn should_trigger(&mut self, now: u64) -> (r: bool)
        ensures
            r == may_trigger(*old(self), now),
            final(self).duration_ms == old(self).duration_ms,
            final(self).last_event == if r {
                Some(now)
            } else {
                old(self).last_event
            },
    {
        match self.last_event {
            None => {
                self.last_event = Some(now);
                true
            },
            Some(last) => {
                if now >= last && now - last >= self.duration_ms {
                    self.last_event = Some(now);
                    true
                } else {
                    false
                }
            },
        }
    }

    /// Forgets the last start: the next synchronisation may start at once.
    pub fn reset(&mut self)
        ensures
            final(self).duration_ms == old(self).duration_ms,
            final(self).last_event is None,
    {
        self.last_event = None;
    }
}

/// What reaches the loop of the watcher.
#[derive(Debug)]
pub enum WatchInput {
    /// The watcher saw something.
    Event(WatchEvent),
    /// The watcher is gone.
    Closed,
    /// Nothing came for the time of debouncing; it is now this time.
    Timeout(u64),
}

/// What the loop of the watcher does next.
#[derive(Clone, Copy, Debug, PartialEq, Eq, Structural)]
pub enum WatchAction {
    /// Wait for the next input.
    Continue,
    /// Synchronise, then wait for the next input.
    Sync,
    /// Leave the loop.
    Stop,
}

/// The loop of the watcher between two inputs.
#[derive(Clone, Copy, Debug)]
pub struct WatchState {
    pub pending_sync: bool,
    pub debouncer: Debouncer,
}

/// The kinds of input, without what they carry.
pub enum WatchInputKind {
    Changed,
    Faulty,
    Closed,
    Timeout(u64),
}

/// The kind of an input.
pub open spec fn kind_of(input: WatchInput) -> WatchInputKind {
    match input {
        WatchInput::Event(WatchEvent::TasksChanged) => WatchInputKind::Changed,
        WatchInput::Event(WatchEvent::ConfigChanged) => WatchInputKind::Changed,
        WatchInput::Event(WatchEvent::Error(_)) => WatchInputKind::Faulty,
        WatchInput::Closed => WatchInputKind::Closed,
        WatchInput::Timeout(now) => WatchInputKind::Timeout(now),
    }
}

/// What the loop does on an input, and how it goes on. A change makes a
/// synchronisation pending and lets it start at once. A fault changes
/// nothing. When nothing came for the time of debouncing, a pending
/// synchronisation starts if the debouncer lets it. When the watcher is
/// gone, the loop ends.
pub open spec fn watch_step(s: WatchState, input: WatchInputKind) -> (WatchState, WatchAction) {
    match input {
        WatchInputKind::Changed => (
            WatchState {
                pending_sync: true,
                debouncer: Debouncer { last_event: None, ..s.debouncer },
            },
            WatchAction::Continue,
        ),
        WatchInputKind::Faulty => (s, WatchAction::Continue),
        WatchInputKind::Closed => (s, WatchAction::Stop),
        WatchInputKind::Timeout(now) => if s.pending_sync && may_trigger(s.debouncer, now) {
            (
                WatchState {
                    pending_sync: false,
                    debouncer: Debouncer { last_event: Some(now), ..s.debouncer },
                },
                WatchAction::Sync,
            )
        } else {
            (s, WatchAction::Continue)
        },
    }
}

impl WatchState {
    /// The loop at its start: nothing pending.
    pub fn new(debounce_ms: u64) -> (s: WatchState)
        ensures
            !s.pending_sync,
            s.debouncer.duration_ms == debounce_ms,
            s.debouncer.last_event is None,
    {
        WatchState { pending_sync: false, debouncer: Debouncer::new(debounce_ms) }
    }

    /// Takes an input and says what the loop does next.
    pub fn event_processor(&mut self, input: &WatchInput) -> (action: WatchAction)
        ensures
            (*final(self), action) == watch_step(*old(self), kind_of(*input)),
    {
        match input {
            WatchInput::Event(WatchEvent::TasksChanged) => {
                self.pending_sync = true;
                self.debouncer.reset();
                WatchAction::Continue
            },
            WatchInput::Event(WatchEvent::ConfigChanged) => {
                self.pending_sync = true;
                self.debouncer.reset();
                WatchAction::Continue
            },
            WatchInput::Event(WatchEvent::Error(_)) => WatchAction::Continue,
            WatchInput::Closed => WatchAction::Stop,
            WatchInput::Timeout(now) => {
                if self.pending_sync && self.debouncer.should_trigger(*now) {
                    self.pending_sync = false;
                    WatchAction::Sync
                } else {
                    WatchAction::Continue
                }
            },
        }
    }
}

/// The choices of a synchronisation that the watcher starts: towards the
/// remote side, the changes only, and no dry run.
pub fn auto_sync_options() -> (o: SyncOptions)
    ensures
        !o.dry_run,
        !o.force,
        o.direction == SyncDirection::ToGitHub,
        o.batch_size == 50,
        !o.include_archived,
        o.use_delta_sync,
        !o.quiet,
{
    SyncOptions {
        dry_run: false,
        force: false,
        direction: SyncDirection::ToGitHub,
        batch_size: 50,
        include_archived: false,
        use_delta_sync: true,
        quiet: false,
    }
}

} // verus!
