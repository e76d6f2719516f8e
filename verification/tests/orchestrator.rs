use prefixdevname::address::HardwareAddress;
use prefixdevname::error::{ConfigError, NamingError};
use prefixdevname::link::LinkConfig;
use prefixdevname::config::NetSetupLinkConfig;
use prefixdevname::orchestrator::{resolve, step, Action, Event, Outcome, Resolution, State};

fn address(last: u8) -> HardwareAddress {
    HardwareAddress::from_octets([0x52, 0x54, 0x00, 0x00, 0x00, last])
}

fn record(name: &str, last: u8) -> LinkConfig {
    LinkConfig { name: name.to_string(), hwaddr: address(last) }
}

fn started(cmdline: &str) -> Event {
    Event::Started { cmdline: cmdline.to_string() }
}

fn loaded(records: Vec<LinkConfig>, live: &[&str], address: Option<HardwareAddress>) -> Event {
    Event::Loaded {
        records,
        live_names: live.iter().map(|name| name.to_string()).collect(),
        address,
    }
}

fn locked(prefix: &str) -> State {
    State::Locked { prefix: prefix.to_string() }
}

#[test]
fn resolve_finds_the_record_or_makes_one() {
    let mut state = NetSetupLinkConfig::new_with_prefix(&"net".to_string());
    state.load(&vec![record("net0", 0)], &vec!["net4".to_string()]);
    assert_eq!(resolve(&state, &address(0)), Ok(Resolution::Existing(record("net0", 0))));
    assert_eq!(resolve(&state, &address(1)), Ok(Resolution::New(record("net5", 1))));
}

#[test]
fn resolve_finds_a_record_even_where_no_name_could_be_made() {
    let mut state = NetSetupLinkConfig::new_with_prefix(&"net".to_string());
    state.load(&vec![record("net0", 0)], &vec!["netbr0".to_string()]);
    assert_eq!(resolve(&state, &address(0)), Ok(Resolution::Existing(record("net0", 0))));
    assert_eq!(resolve(&state, &address(1)), Err(NamingError::MalformedName));
}

#[test]
fn exit_code_is_one_for_a_failure_only() {
    assert_eq!(Outcome::Unconfigured.exit_code(), 0);
    assert_eq!(Outcome::Existing(record("net0", 0)).exit_code(), 0);
    assert_eq!(Outcome::New(record("net0", 0)).exit_code(), 0);
    assert_eq!(Outcome::Failed(NamingError::Persist).exit_code(), 1);
}

#[test]
fn a_run_with_a_prefix_asks_for_the_lock() {
    assert_eq!(
        step(State::Idle, started("ro net.ifnames.prefix=net")),
        (State::Locking { prefix: "net".to_string() }, Action::AcquireLock)
    );
}

#[test]
fn a_run_without_a_prefix_ends_well_and_takes_no_lock() {
    assert_eq!(
        step(State::Idle, started("ro quiet")),
        (State::Unlocked { outcome: Outcome::Unconfigured }, Action::Exit { code: 0 })
    );
}

#[test]
fn a_key_written_without_its_dots_is_no_key() {
    assert_eq!(
        step(State::Idle, started("ro netXifnamesYprefix=abc quiet")),
        (State::Unlocked { outcome: Outcome::Unconfigured }, Action::Exit { code: 0 })
    );
}

#[test]
fn a_run_with_a_refused_prefix_fails_and_takes_no_lock() {
    assert_eq!(
        step(State::Idle, started("net.ifnames.prefix=eth")),
        (
            State::Unlocked { outcome: Outcome::Failed(NamingError::Config(ConfigError::Reserved)) },
            Action::Exit { code: 1 }
        )
    );
    assert_eq!(
        step(State::Idle, started("net.ifnames.prefix=abcdefghijklmno")),
        (
            State::Unlocked { outcome: Outcome::Failed(NamingError::Config(ConfigError::TooLong)) },
            Action::Exit { code: 1 }
        )
    );
}

#[test]
fn a_command_line_that_cannot_be_read_fails_the_run() {
    assert_eq!(
        step(State::Idle, Event::CmdlineUnreadable),
        (
            State::Unlocked { outcome: Outcome::Failed(NamingError::Config(ConfigError::Unreadable)) },
            Action::Exit { code: 1 }
        )
    );
}

#[test]
fn a_lock_that_cannot_be_made_ends_the_run() {
    assert_eq!(
        step(State::Locking { prefix: "net".to_string() }, Event::LockFailed),
        (State::Unlocked { outcome: Outcome::Failed(NamingError::Lock) }, Action::Exit { code: 1 })
    );
}

#[test]
fn the_state_is_read_once_the_lock_is_held() {
    assert_eq!(
        step(State::Locking { prefix: "net".to_string() }, Event::LockAcquired),
        (locked("net"), Action::LoadState)
    );
}

#[test]
fn a_failed_reading_releases_the_lock() {
    assert_eq!(
        step(locked("net"), Event::EnumerationFailed),
        (State::Releasing { outcome: Outcome::Failed(NamingError::Enumeration) }, Action::ReleaseLock)
    );
    assert_eq!(
        step(locked("net"), loaded(vec![], &[], None)),
        (State::Releasing { outcome: Outcome::Failed(NamingError::Enumeration) }, Action::ReleaseLock)
    );
}

#[test]
fn a_known_device_keeps_its_name_and_nothing_is_written() {
    assert_eq!(
        step(locked("net"), loaded(vec![record("net0", 0), record("net1", 1)], &["net1"], Some(address(0)))),
        (State::Releasing { outcome: Outcome::Existing(record("net0", 0)) }, Action::ReleaseLock)
    );
}

#[test]
fn a_new_device_gets_the_next_name_and_its_file_is_written() {
    assert_eq!(
        step(locked("net"), loaded(vec![record("net0", 0)], &["net1", "eth0"], Some(address(5)))),
        (
            State::Writing { record: record("net2", 5) },
            Action::WriteRecord {
                temporary_name: "70-net-ifnames-prefix-net2.link.tmp".to_string(),
                file_name: "70-net-ifnames-prefix-net2.link".to_string(),
                content: "[Match]\nMACAddress=52:54:00:00:00:05\n\n[Link]\nName=net2\n".to_string(),
            }
        )
    );
}

#[test]
fn a_malformed_name_fails_the_run_and_releases_the_lock() {
    assert_eq!(
        step(locked("net"), loaded(vec![], &["netbr0"], Some(address(5)))),
        (State::Releasing { outcome: Outcome::Failed(NamingError::MalformedName) }, Action::ReleaseLock)
    );
    assert_eq!(
        step(locked("net"), loaded(vec![], &["net18446744073709551615"], Some(address(5)))),
        (State::Releasing { outcome: Outcome::Failed(NamingError::NamesExhausted) }, Action::ReleaseLock)
    );
}

#[test]
fn the_lock_is_released_after_the_write() {
    assert_eq!(
        step(State::Writing { record: record("net2", 5) }, Event::RecordWritten),
        (State::Releasing { outcome: Outcome::New(record("net2", 5)) }, Action::ReleaseLock)
    );
    assert_eq!(
        step(State::Writing { record: record("net2", 5) }, Event::WriteFailed),
        (State::Releasing { outcome: Outcome::Failed(NamingError::Persist) }, Action::ReleaseLock)
    );
}

#[test]
fn the_process_ends_once_the_lock_is_released() {
    assert_eq!(
        step(State::Releasing { outcome: Outcome::New(record("net2", 5)) }, Event::LockReleased),
        (State::Unlocked { outcome: Outcome::New(record("net2", 5)) }, Action::Exit { code: 0 })
    );
    assert_eq!(
        step(State::Releasing { outcome: Outcome::Failed(NamingError::Persist) }, Event::LockReleased),
        (State::Unlocked { outcome: Outcome::Failed(NamingError::Persist) }, Action::Exit { code: 1 })
    );
}

#[test]
fn the_release_is_asked_for_until_it_is_reported() {
    assert_eq!(
        step(State::Releasing { outcome: Outcome::Unconfigured }, Event::RecordWritten),
        (State::Releasing { outcome: Outcome::Unconfigured }, Action::ReleaseLock)
    );
}

#[test]
fn a_run_that_is_over_stays_over() {
    assert_eq!(
        step(State::Unlocked { outcome: Outcome::Failed(NamingError::Lock) }, Event::LockAcquired),
        (State::Unlocked { outcome: Outcome::Failed(NamingError::Lock) }, Action::Exit { code: 1 })
    );
}

#[test]
fn an_event_out_of_turn_fails_the_run() {
    let failed = Outcome::Failed(NamingError::UnexpectedEvent);
    assert_eq!(
        step(State::Idle, Event::LockAcquired),
        (State::Unlocked { outcome: Outcome::Failed(NamingError::UnexpectedEvent) }, Action::Exit { code: 1 })
    );
    assert_eq!(
        step(State::Locking { prefix: "net".to_string() }, Event::RecordWritten),
        (State::Unlocked { outcome: Outcome::Failed(NamingError::UnexpectedEvent) }, Action::Exit { code: 1 })
    );
    assert_eq!(
        step(locked("net"), Event::LockAcquired),
        (State::Releasing { outcome: Outcome::Failed(NamingError::UnexpectedEvent) }, Action::ReleaseLock)
    );
    assert_eq!(
        step(State::Writing { record: record("net0", 0) }, started("")),
        (State::Releasing { outcome: failed }, Action::ReleaseLock)
    );
}
