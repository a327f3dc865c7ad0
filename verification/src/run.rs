//! The decisions of a cleanup run.
//!
//! A run goes through the entries of a manifest in order. It does not touch
//! the filesystem: it says what is to be done next, its caller does that and
//! reports what came of it, and the run moves on.

use vstd::prelude::*;
use crate::error::{CleanupError, IoStage};
use crate::stats::DeletionStats;
use crate::text::views_of;

verus! {

/// What the caller of a run is to do next.
#[derive(Debug, Clone, Copy, PartialEq, Eq)]
pub enum Action {
    /// The manifest names nothing: say so and stop. Nothing is to be touched.
    NothingToRemove,
    /// Find out whether entry `index` is an existing directory, and if so, how
    /// large its tree is.
    Inspect { index: usize },
    /// Delete the directory tree of entry `index`.
    Remove { index: usize },
    /// Every entry is dealt with: print the summary.
    Summarize,
}

/// What the caller reports back after an [`Action`].
#[derive(Debug, Clone, Copy, PartialEq, Eq)]
pub enum Event {
    /// The inspected entry does not exist or is no directory.
    NotADirectory,
    /// The inspected entry is a directory whose tree holds `size` bytes.
    Directory { size: u64 },
    /// The inspected entry is a directory whose size could not be determined.
    SizeUnknown,
    /// The directory tree is deleted.
    Removed,
    /// The directory tree could not be deleted.
    RemovalFailed,
}

/// The mathematical value of a [`CleanupRun`].
pub struct RunState {
    /// Whether deleting is suppressed.
    pub dry: bool,
    /// The entries of the manifest, in order.
    pub entries: Seq<Seq<char>>,
    /// How many entries are dealt with.
    pub cursor: nat,
    /// Whether the entry at `cursor` is accounted for and awaits deletion.
    pub removing: bool,
    /// The bytes accounted for.
    pub bytes_freed: nat,
    /// The directories accounted for.
    pub directories_removed: nat,
}

impl RunState {
    /// The state in which a run begins.
    pub open spec fn start(dry: bool, entries: Seq<Seq<char>>) -> RunState {
        RunState { dry, entries, cursor: 0, removing: false, bytes_freed: 0, directories_removed: 0 }
    }

    /// The states that a run can be in.
    pub open spec fn well_formed(self) -> bool {
        &&& self.entries.len() <= usize::MAX
        &&& self.cursor <= self.entries.len()
        &&& self.removing ==> !self.dry && self.cursor < self.entries.len()
        &&& self.bytes_freed <= u64::MAX
        &&& self.directories_removed <= self.cursor + if self.removing { 1nat } else { 0nat }
    }

    /// What is to be done next in this state.
    pub open spec fn action(self) -> Action {
        if self.removing {
            Action::Remove { index: self.cursor as usize }
        } else if self.cursor < self.entries.len() {
            Action::Inspect { index: self.cursor as usize }
        } else if self.entries.len() == 0 {
            Action::NothingToRemove
        } else {
            Action::Summarize
        }
    }

    /// Whether `event` reports on the action that is next in this state.
    pub open spec fn expects(self, event: Event) -> bool {
        match self.action() {
            Action::Inspect { .. } => event is NotADirectory || event is Directory
                || event is SizeUnknown,
            Action::Remove { .. } => event is Removed || event is RemovalFailed,
            _ => false,
        }
    }

    /// The state after `event`, or the failure that ends the run.
    ///
    /// An entry that is no directory is passed over. A directory is accounted
    /// for at once, and then, unless the run is dry, awaits its deletion. A
    /// size that is unknown, a total of bytes that a `u64` cannot hold, and a
    /// deletion that failed end the run.
    pub open spec fn step(self, event: Event) -> Result<RunState, CleanupError> {
        match event {
            Event::NotADirectory => Ok(RunState { cursor: self.cursor + 1, ..self }),
            Event::Directory { size } => {
                if self.bytes_freed + size > u64::MAX {
                    Err(CleanupError::IoError(IoStage::MeasuringSize))
                } else {
                    Ok(
                        RunState {
                            cursor: if self.dry { self.cursor + 1 } else { self.cursor },
                            removing: !self.dry,
                            bytes_freed: (self.bytes_freed + size) as nat,
                            directories_removed: self.directories_removed + 1,
                            ..self
                        },
                    )
                }
            },
            Event::SizeUnknown => Err(CleanupError::IoError(IoStage::MeasuringSize)),
            Event::Removed => Ok(RunState { cursor: self.cursor + 1, removing: false, ..self }),
            Event::RemovalFailed => Err(CleanupError::DeletionError),
        }
    }

    /// The state after the reports `events`, one after the other, if each was
    /// expected and none ended the run.
    pub open spec fn after(self, events: Seq<Event>) -> Option<RunState>
        decreases events.len(),
    {
        if events.len() == 0 {
            Some(self)
        } else if self.expects(events.first()) {
            match self.step(events.first()) {
                Ok(next) => next.after(events.drop_first()),
                Err(_) => None,
            }
        } else {
            None
        }
    }
}

/// One cleanup run: the entries of a manifest, how far the run has come, and
/// what it has accounted for.
pub struct CleanupRun {
    dry: bool,
    entries: Vec<String>,
    cursor: usize,
    removing: bool,
    stats: DeletionStats,
}

impl View for CleanupRun {
    type V = RunState;

    closed spec fn view(&self) -> RunState {
        RunState {
            dry: self.dry,
            entries: views_of(self.entries@),
            cursor: self.cursor as nat,
            removing: self.removing,
            bytes_freed: self.stats.bytes_freed as nat,
            directories_removed: self.stats.directories_removed as nat,
        }
    }
}

impl CleanupRun {
    #[verifier::type_invariant]
    spec fn consistent(&self) -> bool {
        self@.well_formed()
    }

    /// Begins a run over `entries`, the directories that a manifest names.
    pub fn new(dry: bool, entries: Vec<String>) -> (run: CleanupRun)
        ensures
            run@ == RunState::start(dry, views_of(entries@)),
    {
        let stats = DeletionStats::new();
        assert(views_of(entries@).len() == entries.len());
        CleanupRun { dry, entries, cursor: 0, removing: false, stats }
    }

    /// Whether this run leaves the filesystem as it is.
    pub fn is_dry(&self) -> (dry: bool)
        ensures
            dry == self@.dry,
    {
        self.dry
    }

    /// The entries of the manifest, in order. All of them are listed in the
    /// summary, whether they were found to be directories or not.
    pub fn entries(&self) -> (entries: &Vec<String>)
        ensures
            views_of(entries@) == self@.entries,
    {
        &self.entries
    }

    /// What the run has accounted for so far.
    pub fn stats(&self) -> (stats: DeletionStats)
        ensures
            stats.bytes_freed == self@.bytes_freed,
            stats.directories_removed == self@.directories_removed,
    {
        self.stats
    }

    /// What is to be done next. A dry run never asks for a deletion.
    pub fn next_action(&self) -> (action: Action)
        ensures
            self@.well_formed(),
            action == self@.action(),
            self@.dry ==> !(action is Remove),
    {
        proof {
            use_type_invariant(self);
        }
        if self.removing {
            Action::Remove { index: self.cursor }
        } else if self.cursor < self.entries.len() {
            Action::Inspect { index: self.cursor }
        } else if self.entries.len() == 0 {
            Action::NothingToRemove
        } else {
            Action::Summarize
        }
    }

    /// Whether `event` reports on the action that is next. Only such a report
    /// may be handed to [`CleanupRun::advance`].
    pub fn expects(&self, event: Event) -> (expected: bool)
        ensures
            expected == self@.expects(event),
    {
        match self.next_action() {
            Action::Inspect { .. } => match event {
                Event::NotADirectory | Event::Directory { .. } | Event::SizeUnknown => true,
                _ => false,
            },
            Action::Remove { .. } => match event {
                Event::Removed | Event::RemovalFailed => true,
                _ => false,
            },
            _ => false,
        }
    }

    /// Takes in the report on the action that was next, and moves on or fails
    /// as [`RunState::step`] says. The counters of the run never go down.
    pub fn advance(self, event: Event) -> (result: Result<CleanupRun, CleanupError>)
        requires
            self@.expects(event),
        ensures
            match result {
                Ok(next) => self@.step(event) == Ok::<RunState, CleanupError>(next@)
                    && next@.well_formed() && next@.bytes_freed >= self@.bytes_freed
                    && next@.directories_removed >= self@.directories_removed,
                Err(error) => self@.step(event) == Err::<RunState, CleanupError>(error),
            },
    {
        proof {
            use_type_invariant(&self);
        }
        match event {
            Event::NotADirectory => Ok(
                CleanupRun {
                    dry: self.dry,
                    entries: self.entries,
                    cursor: self.cursor + 1,
                    removing: self.removing,
                    stats: self.stats,
                },
            ),
            Event::Directory { size } => {
                match self.stats.bytes_freed.checked_add(size) {
                    Some(bytes_freed) => Ok(
                        CleanupRun {
                            dry: self.dry,
                            entries: self.entries,
                            cursor: if self.dry { self.cursor + 1 } else { self.cursor },
                            removing: !self.dry,
                            stats: DeletionStats {
                                bytes_freed,
                                directories_removed: self.stats.directories_removed + 1,
                            },
                        },
                    ),
                    None => Err(CleanupError::IoError(IoStage::MeasuringSize)),
                }
            },
            Event::SizeUnknown => Err(CleanupError::IoError(IoStage::MeasuringSize)),
            Event::Removed => Ok(
                CleanupRun {
                    dry: self.dry,
                    entries: self.entries,
                    cursor: self.cursor + 1,
                    removing: false,
                    stats: self.stats,
                },
            ),
            Event::RemovalFailed => Err(CleanupError::DeletionError),
        }
    }
}

/// The reports that a run gets on one entry that it inspects, where `finding`
/// is the size of the entry's tree if the entry is an existing directory, and
/// nothing goes wrong: a directory is removed unless the run is dry.
pub open spec fn reports_on(dry: bool, finding: Option<u64>) -> Seq<Event> {
    match finding {
        None => seq![Event::NotADirectory],
        Some(size) => if dry {
            seq![Event::Directory { size }]
        } else {
            seq![Event::Directory { size }, Event::Removed]
        },
    }
}

/// The reports that a run gets on entries with these findings, in order.
pub open spec fn reports_on_all(dry: bool, findings: Seq<Option<u64>>) -> Seq<Event>
    decreases findings.len(),
{
    if findings.len() == 0 {
        Seq::empty()
    } else {
        reports_on(dry, findings.first()) + reports_on_all(dry, findings.drop_first())
    }
}

/// How many of the entries with these findings are existing directories.
pub open spec fn directories_found(findings: Seq<Option<u64>>) -> nat
    decreases findings.len(),
{
    if findings.len() == 0 {
        0
    } else {
        (if findings.first() is Some { 1nat } else { 0nat }) + directories_found(
            findings.drop_first(),
        )
    }
}

/// The sizes of the existing directories among the entries with these
/// findings, summed.
pub open spec fn bytes_found(findings: Seq<Option<u64>>) -> nat
    decreases findings.len(),
{
    if findings.len() == 0 {
        0
    } else {
        (match findings.first() {
            Some(size) => size as nat,
            None => 0nat,
        }) + bytes_found(findings.drop_first())
    }
}

/// How many of `events` report a directory.
pub open spec fn directories_reported(events: Seq<Event>) -> nat
    decreases events.len(),
{
    if events.len() == 0 {
        0
    } else {
        (if events.first() is Directory { 1nat } else { 0nat }) + directories_reported(
            events.drop_first(),
        )
    }
}

/// How many of `events` report a deletion.
pub open spec fn removals_reported(events: Seq<Event>) -> nat
    decreases events.len(),
{
    if events.len() == 0 {
        0
    } else {
        (if events.first() is Removed { 1nat } else { 0nat }) + removals_reported(
            events.drop_first(),
        )
    }
}

/// A report that is expected and does not end the run leaves it in a state
/// that a run can be in, with counters that are no lower than before.
pub proof fn lemma_step_keeps_run_well_formed(state: RunState, event: Event)
    requires
        state.well_formed(),
        state.expects(event),
    ensures
        state.step(event) matches Ok(next) ==> {
            &&& next.well_formed()
            &&& next.dry == state.dry
            &&& next.entries == state.entries
            &&& next.cursor >= state.cursor
            &&& next.bytes_freed >= state.bytes_freed
            &&& next.directories_removed >= state.directories_removed
        },
{
}

/// Through a whole run the counters only grow and the run moves only forward.
pub proof fn lemma_counters_never_decrease(state: RunState, events: Seq<Event>)
    requires
        state.well_formed(),
    ensures
        state.after(events) matches Some(later) ==> {
            &&& later.well_formed()
            &&& later.dry == state.dry
            &&& later.entries == state.entries
            &&& later.cursor >= state.cursor
            &&& later.bytes_freed >= state.bytes_freed
            &&& later.directories_removed >= state.directories_removed
        },
    decreases events.len(),
{
    if events.len() > 0 && state.expects(events.first()) {
        lemma_step_keeps_run_well_formed(state, events.first());
        if let Ok(next) = state.step(events.first()) {
            lemma_counters_never_decrease(next, events.drop_first());
        }
    }
}

/// Where `k` of the entries are existing directories, a run that meets no
/// failure ends with `k` directories and the sum of their sizes accounted for,
/// whatever the other entries are, and with every entry dealt with.
pub proof fn lemma_run_accounts_for_directories_found(
    dry: bool,
    entries: Seq<Seq<char>>,
    findings: Seq<Option<u64>>,
)
    requires
        entries.len() <= usize::MAX,
        findings.len() == entries.len(),
        bytes_found(findings) <= u64::MAX,
    ensures
        RunState::start(dry, entries).after(reports_on_all(dry, findings)) == Some(
            RunState {
                dry,
                entries,
                cursor: entries.len(),
                removing: false,
                bytes_freed: bytes_found(findings),
                directories_removed: directories_found(findings),
            },
        ),
{
    lemma_rest_of_run(RunState::start(dry, entries), findings);
}

proof fn lemma_rest_of_run(state: RunState, findings: Seq<Option<u64>>)
    requires
        state.well_formed(),
        !state.removing,
        state.cursor + findings.len() == state.entries.len(),
        state.bytes_freed + bytes_found(findings) <= u64::MAX,
    ensures
        state.after(reports_on_all(state.dry, findings)) == Some(
            RunState {
                cursor: state.entries.len(),
                bytes_freed: state.bytes_freed + bytes_found(findings),
                directories_removed: state.directories_removed + directories_found(findings),
                ..state
            },
        ),
    decreases findings.len(),
{
    if findings.len() > 0 {
        let rest = reports_on_all(state.dry, findings.drop_first());
        let events = reports_on_all(state.dry, findings);
        match findings.first() {
            None => {
                let next = state.step(Event::NotADirectory)->Ok_0;
                assert(events.first() == Event::NotADirectory);
                assert(events.drop_first() =~= rest);
                lemma_rest_of_run(next, findings.drop_first());
            },
            Some(size) => {
                let found = Event::Directory { size };
                let counted = state.step(found)->Ok_0;
                assert(events.first() == found);
                if state.dry {
                    assert(events.drop_first() =~= rest);
                    lemma_rest_of_run(counted, findings.drop_first());
                } else {
                    let next = counted.step(Event::Removed)->Ok_0;
                    assert(events.drop_first() =~= seq![Event::Removed] + rest);
                    assert(events.drop_first().first() == Event::Removed);
                    assert(events.drop_first().drop_first() =~= rest);
                    assert(counted.expects(Event::Removed));
                    assert(counted.after(events.drop_first()) == next.after(rest));
                    lemma_rest_of_run(next, findings.drop_first());
                }
            },
        }
    }
}

/// A dry run never asks for a deletion, whatever is reported to it.
pub proof fn lemma_dry_run_never_removes(state: RunState, events: Seq<Event>)
    requires
        state.well_formed(),
        state.dry,
    ensures
        !(state.action() is Remove),
        removals_reported(events) > 0 ==> state.after(events) is None,
        state.after(events) matches Some(later) ==> later.dry && !(later.action() is Remove),
    decreases events.len(),
{
    if events.len() > 0 && state.expects(events.first()) {
        lemma_step_keeps_run_well_formed(state, events.first());
        if let Ok(next) = state.step(events.first()) {
            lemma_dry_run_never_removes(next, events.drop_first());
        }
    }
}

/// In a run that is not dry, a directory that is found and accounted for is
/// the next thing to be deleted, and the run goes on only once the deletion is
/// reported; a deletion that failed ends it.
pub proof fn lemma_found_directory_is_removed_next(state: RunState, size: u64)
    requires
        state.well_formed(),
        !state.dry,
        state.expects(Event::Directory { size }),
    ensures
        state.step(Event::Directory { size }) matches Ok(counted) ==> {
            &&& counted.action() == Action::Remove { index: state.cursor as usize }
            &&& forall|event: Event| #[trigger]
                counted.expects(event) ==> event is Removed || event is RemovalFailed
            &&& counted.step(Event::Removed) matches Ok(next) && next.cursor == state.cursor + 1
                && !next.removing
            &&& counted.step(Event::RemovalFailed) == Err::<RunState, CleanupError>(
                CleanupError::DeletionError,
            )
        },
{
}

/// In a run that is not dry, every directory that was accounted for was also
/// deleted, but for the one that may still await its deletion.
pub proof fn lemma_accounted_directories_are_removed(state: RunState, events: Seq<Event>)
    requires
        state.well_formed(),
        !state.dry,
    ensures
        state.after(events) matches Some(later) ==> {
            &&& later.directories_removed == state.directories_removed + directories_reported(
                events,
            )
            &&& removals_reported(events) + (if later.removing { 1nat } else { 0nat })
                == directories_reported(events) + (if state.removing { 1nat } else { 0nat })
        },
    decreases events.len(),
{
    if events.len() > 0 && state.expects(events.first()) {
        lemma_step_keeps_run_well_formed(state, events.first());
        if let Ok(next) = state.step(events.first()) {
            lemma_accounted_directories_are_removed(next, events.drop_first());
        }
    }
}

} // verus!
