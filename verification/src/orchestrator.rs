//! One allocation run, as a machine that is told what happened and answers
//! what to do next. The caller does the work that touches the system: it
//! takes and releases the lock, reads the store and the devices, and writes
//! the new link file.

use vstd::prelude::*;
use crate::address::HardwareAddress;
use crate::cmdline::{prefix_from_cmdline, spec_prefix_from_cmdline};
use crate::config::{spec_load, spec_next_link_name, NamingState, NetSetupLinkConfig};
use crate::error::{ConfigError, NamingError};
use crate::link::{
    spec_link_file_content, spec_link_file_name, spec_temporary_file_name, LinkConfig,
    NamingRecord,
};

verus! {

/// What a run found out about the device that caused it.
#[derive(Debug, PartialEq, Eq)]
pub enum Resolution {
    /// The device has a record: it keeps its name.
    Existing(LinkConfig),
    /// The device had no record: this one is to be written.
    New(LinkConfig),
}

/// A resolution as contracts see it.
pub enum ResolutionView {
    Existing(NamingRecord),
    New(NamingRecord),
}

impl View for Resolution {
    type V = ResolutionView;

    open spec fn view(&self) -> ResolutionView {
        match self {
            Resolution::Existing(record) => ResolutionView::Existing(record@),
            Resolution::New(record) => ResolutionView::New(record@),
        }
    }
}

/// What a fallible function that makes a resolution returns, as contracts
/// see it.
pub open spec fn resolution_outcome(r: Result<Resolution, NamingError>) -> Result<ResolutionView, NamingError> {
    match r {
        Ok(resolution) => Ok(resolution@),
        Err(e) => Err(e),
    }
}

/// The resolution for the device with the hardware address `address`: the
/// record that the state holds for it, or else a new record with the next
/// name.
pub open spec fn spec_resolve(state: NamingState, address: Seq<u8>) -> Result<ResolutionView, NamingError> {
    if state.records_by_address.contains_key(address) {
        Ok(ResolutionView::Existing(state.records_by_address[address]))
    } else {
        match spec_next_link_name(state.all_known_names, state.prefix) {
            Ok(name) => Ok(ResolutionView::New(NamingRecord { hardware_address: address, name })),
            Err(e) => Err(e),
        }
    }
}

/// Looks the device up and, where it has no record, makes the new one.
pub fn resolve(state: &NetSetupLinkConfig, mac: &HardwareAddress) -> (r: Result<Resolution, NamingError>)
    ensures
        resolution_outcome(r) == spec_resolve(state@, mac@),
{
    if let Some(record) = state.for_hwaddr(mac) {
        return Ok(Resolution::Existing(record));
    }
    match state.next_link_name() {
        Ok(name) => Ok(Resolution::New(LinkConfig { name, hwaddr: *mac })),
        Err(e) => Err(e),
    }
}

/// How a run ended.
#[derive(Debug, PartialEq, Eq)]
pub enum Outcome {
    /// The boot-time configuration asks for no prefix: nothing was done.
    Unconfigured,
    /// The device had a record already: nothing was written.
    Existing(LinkConfig),
    /// The device got this record, and its link file was written.
    New(LinkConfig),
    /// The run failed.
    Failed(NamingError),
}

/// An outcome as contracts see it.
pub enum OutcomeView {
    Unconfigured,
    Existing(NamingRecord),
    New(NamingRecord),
    Failed(NamingError),
}

impl View for Outcome {
    type V = OutcomeView;

    open spec fn view(&self) -> OutcomeView {
        match self {
            Outcome::Unconfigured => OutcomeView::Unconfigured,
            Outcome::Existing(record) => OutcomeView::Existing(record@),
            Outcome::New(record) => OutcomeView::New(record@),
            Outcome::Failed(e) => OutcomeView::Failed(*e),
        }
    }
}

/// The exit code of a run with this outcome: 1 where it failed, else 0.
pub open spec fn spec_exit_code(outcome: OutcomeView) -> i32 {
    if outcome is Failed {
        1
    } else {
        0
    }
}

impl Outcome {
    /// The exit code of a run with this outcome.
    pub fn exit_code(&self) -> (code: i32)
        ensures
            code == spec_exit_code(self@),
    {
        match self {
            Outcome::Failed(_) => 1,
            _ => 0,
        }
    }
}

/// Where a run stands.
#[derive(Debug, PartialEq, Eq)]
pub enum State {
    /// Nothing has happened yet.
    Idle,
    /// The lock was asked for.
    Locking { prefix: String },
    /// The lock is held, and the state of the system was asked for.
    Locked { prefix: String },
    /// The lock is held, and the link file of `record` was handed out to be
    /// written.
    Writing { record: LinkConfig },
    /// The lock is held, and its release was asked for.
    Releasing { outcome: Outcome },
    /// The lock is not held, and the run is over.
    Unlocked { outcome: Outcome },
}

/// A state as contracts see it.
pub enum StateView {
    Idle,
    Locking { prefix: Seq<char> },
    Locked { prefix: Seq<char> },
    Writing { record: NamingRecord },
    Releasing { outcome: OutcomeView },
    Unlocked { outcome: OutcomeView },
}

impl View for State {
    type V = StateView;

    open spec fn view(&self) -> StateView {
        match self {
            State::Idle => StateView::Idle,
            State::Locking { prefix } => StateView::Locking { prefix: prefix@ },
            State::Locked { prefix } => StateView::Locked { prefix: prefix@ },
            State::Writing { record } => StateView::Writing { record: record@ },
            State::Releasing { outcome } => StateView::Releasing { outcome: outcome@ },
            State::Unlocked { outcome } => StateView::Unlocked { outcome: outcome@ },
        }
    }
}

/// What the caller reports.
#[derive(Debug, PartialEq, Eq)]
pub enum Event {
    /// The run begins; `cmdline` is the text of the kernel command line.
    Started { cmdline: String },
    /// The run begins, and the kernel command line could not be read.
    CmdlineUnreadable,
    /// The lock was taken.
    LockAcquired,
    /// The lock could not be created.
    LockFailed,
    /// The records of the store, the names of the devices present, and the
    /// hardware address of the device that caused the run, where it has one.
    Loaded { records: Vec<LinkConfig>, live_names: Vec<String>, address: Option<HardwareAddress> },
    /// The store or the devices could not be read.
    EnumerationFailed,
    /// The link file was written.
    RecordWritten,
    /// The link file could not be written.
    WriteFailed,
    /// The lock was released.
    LockReleased,
}

/// An event as contracts see it.
pub enum EventView {
    Started { cmdline: Seq<char> },
    CmdlineUnreadable,
    LockAcquired,
    LockFailed,
    Loaded { records: Seq<NamingRecord>, live_names: Seq<Seq<char>>, address: Option<Seq<u8>> },
    EnumerationFailed,
    RecordWritten,
    WriteFailed,
    LockReleased,
}

impl View for Event {
    type V = EventView;

    open spec fn view(&self) -> EventView {
        match self {
            Event::Started { cmdline } => EventView::Started { cmdline: cmdline@ },
            Event::CmdlineUnreadable => EventView::CmdlineUnreadable,
            Event::LockAcquired => EventView::LockAcquired,
            Event::LockFailed => EventView::LockFailed,
            Event::Loaded { records, live_names, address } => EventView::Loaded {
                records: records.deep_view(),
                live_names: live_names.deep_view(),
                address: address.deep_view(),
            },
            Event::EnumerationFailed => EventView::EnumerationFailed,
            Event::RecordWritten => EventView::RecordWritten,
            Event::WriteFailed => EventView::WriteFailed,
            Event::LockReleased => EventView::LockReleased,
        }
    }
}

/// What the caller is to do next.
#[derive(Debug, PartialEq, Eq)]
pub enum Action {
    /// Take the lock, waiting for it as long as it takes.
    AcquireLock,
    /// Read the store, the devices present and the device that caused the run.
    LoadState,
    /// Write `content` to the file `temporary_name` of the store, then give
    /// that file the name `file_name`.
    WriteRecord { temporary_name: String, file_name: String, content: String },
    /// Release the lock.
    ReleaseLock,
    /// End the process with `code`.
    Exit { code: i32 },
}

/// An action as contracts see it.
pub enum ActionView {
    AcquireLock,
    LoadState,
    WriteRecord { temporary_name: Seq<char>, file_name: Seq<char>, content: Seq<char> },
    ReleaseLock,
    Exit { code: i32 },
}

impl View for Action {
    type V = ActionView;

    open spec fn view(&self) -> ActionView {
        match self {
            Action::AcquireLock => ActionView::AcquireLock,
            Action::LoadState => ActionView::LoadState,
            Action::WriteRecord { temporary_name, file_name, content } => ActionView::WriteRecord {
                temporary_name: temporary_name@,
                file_name: file_name@,
                content: content@,
            },
            Action::ReleaseLock => ActionView::ReleaseLock,
            Action::Exit { code } => ActionView::Exit { code: *code },
        }
    }
}

/// Whether the lock is held in `state`.
pub open spec fn holds_lock(state: StateView) -> bool {
    state is Locked || state is Writing || state is Releasing
}

/// The end of a run that holds no lock: the process exits with the code of
/// the outcome.
pub open spec fn spec_finish(outcome: OutcomeView) -> (StateView, ActionView) {
    (StateView::Unlocked { outcome }, ActionView::Exit { code: spec_exit_code(outcome) })
}

/// The end of a run that holds the lock: the lock is released first.
pub open spec fn spec_release(outcome: OutcomeView) -> (StateView, ActionView) {
    (StateView::Releasing { outcome }, ActionView::ReleaseLock)
}

/// What follows once the state of the system is known.
pub open spec fn spec_decide(
    prefix: Seq<char>,
    records: Seq<NamingRecord>,
    live_names: Seq<Seq<char>>,
    address: Option<Seq<u8>>,
) -> (StateView, ActionView) {
    match address {
        None => spec_release(OutcomeView::Failed(NamingError::Enumeration)),
        Some(address) => match spec_resolve(spec_load(records, live_names, prefix), address) {
            Ok(ResolutionView::Existing(record)) => spec_release(OutcomeView::Existing(record)),
            Ok(ResolutionView::New(record)) => (
                StateView::Writing { record },
                ActionView::WriteRecord {
                    temporary_name: spec_temporary_file_name(record.name),
                    file_name: spec_link_file_name(record.name),
                    content: spec_link_file_content(record),
                },
            ),
            Err(e) => spec_release(OutcomeView::Failed(e)),
        },
    }
}

/// The next state and the next action, from the state and what happened.
pub open spec fn spec_step(state: StateView, event: EventView) -> (StateView, ActionView) {
    match state {
        StateView::Idle => match event {
            EventView::Started { cmdline } => match spec_prefix_from_cmdline(cmdline) {
                Err(e) => spec_finish(OutcomeView::Failed(e)),
                Ok(prefix) => if prefix.len() == 0 {
                    spec_finish(OutcomeView::Unconfigured)
                } else {
                    (StateView::Locking { prefix }, ActionView::AcquireLock)
                },
            },
            EventView::CmdlineUnreadable => spec_finish(
                OutcomeView::Failed(NamingError::Config(ConfigError::Unreadable)),
            ),
            _ => spec_finish(OutcomeView::Failed(NamingError::UnexpectedEvent)),
        },
        StateView::Locking { prefix } => match event {
            EventView::LockAcquired => (StateView::Locked { prefix }, ActionView::LoadState),
            EventView::LockFailed => spec_finish(OutcomeView::Failed(NamingError::Lock)),
            _ => spec_finish(OutcomeView::Failed(NamingError::UnexpectedEvent)),
        },
        StateView::Locked { prefix } => match event {
            EventView::Loaded { records, live_names, address } => spec_decide(
                prefix,
                records,
                live_names,
                address,
            ),
            EventView::EnumerationFailed => spec_release(
                OutcomeView::Failed(NamingError::Enumeration),
            ),
            _ => spec_release(OutcomeView::Failed(NamingError::UnexpectedEvent)),
        },
        StateView::Writing { record } => match event {
            EventView::RecordWritten => spec_release(OutcomeView::New(record)),
            EventView::WriteFailed => spec_release(OutcomeView::Failed(NamingError::Persist)),
            _ => spec_release(OutcomeView::Failed(NamingError::UnexpectedEvent)),
        },
        StateView::Releasing { outcome } => match event {
            EventView::LockReleased => spec_finish(outcome),
            _ => spec_release(outcome),
        },
        StateView::Unlocked { outcome } => spec_finish(outcome),
    }
}

fn finish(outcome: Outcome) -> (r: (State, Action))
    ensures
        (r.0@, r.1@) == spec_finish(outcome@),
{
    let code = outcome.exit_code();
    (State::Unlocked { outcome }, Action::Exit { code })
}

fn release(outcome: Outcome) -> (r: (State, Action))
    ensures
        (r.0@, r.1@) == spec_release(outcome@),
{
    (State::Releasing { outcome }, Action::ReleaseLock)
}

fn decide(
    prefix: String,
    records: Vec<LinkConfig>,
    live_names: Vec<String>,
    address: Option<HardwareAddress>,
) -> (r: (State, Action))
    ensures
        (r.0@, r.1@) == spec_decide(
            prefix@,
            records.deep_view(),
            live_names.deep_view(),
            address.deep_view(),
        ),
{
    let mac = match address {
        None => return release(Outcome::Failed(NamingError::Enumeration)),
        Some(mac) => mac,
    };
    let mut state = NetSetupLinkConfig::new_with_prefix(&prefix);
    state.load(&records, &live_names);
    match resolve(&state, &mac) {
        Ok(Resolution::Existing(record)) => release(Outcome::Existing(record)),
        Ok(Resolution::New(record)) => {
            let temporary_name = record.temporary_file_name();
            let file_name = record.link_file_name();
            let content = record.link_file_content();
            (State::Writing { record }, Action::WriteRecord { temporary_name, file_name, content })
        },
        Err(e) => release(Outcome::Failed(e)),
    }
}

/// Takes the run one step on: from the state it is in and what the caller
/// reports to the state it is in then and what the caller is to do.
pub fn step(state: State, event: Event) -> (r: (State, Action))
    ensures
        (r.0@, r.1@) == spec_step(state@, event@),
{
    match state {
        State::Idle => match event {
            Event::Started { cmdline } => match prefix_from_cmdline(cmdline.as_str()) {
                Err(e) => finish(Outcome::Failed(e)),
                Ok(prefix) => if prefix.as_str().is_empty() {
                    finish(Outcome::Unconfigured)
                } else {
                    (State::Locking { prefix }, Action::AcquireLock)
                },
            },
            Event::CmdlineUnreadable => finish(
                Outcome::Failed(NamingError::Config(ConfigError::Unreadable)),
            ),
            _ => finish(Outcome::Failed(NamingError::UnexpectedEvent)),
        },
        State::Locking { prefix } => match event {
            Event::LockAcquired => (State::Locked { prefix }, Action::LoadState),
            Event::LockFailed => finish(Outcome::Failed(NamingError::Lock)),
            _ => finish(Outcome::Failed(NamingError::UnexpectedEvent)),
        },
        State::Locked { prefix } => match event {
            Event::Loaded { records, live_names, address } => decide(
                prefix,
                records,
                live_names,
                address,
            ),
            Event::EnumerationFailed => release(Outcome::Failed(NamingError::Enumeration)),
            _ => release(Outcome::Failed(NamingError::UnexpectedEvent)),
        },
        State::Writing { record } => match event {
            Event::RecordWritten => release(Outcome::New(record)),
            Event::WriteFailed => release(Outcome::Failed(NamingError::Persist)),
            _ => release(Outcome::Failed(NamingError::UnexpectedEvent)),
        },
        State::Releasing { outcome } => match event {
            Event::LockReleased => finish(outcome),
            _ => release(outcome),
        },
        State::Unlocked { outcome } => finish(outcome),
    }
}

} // verus!
