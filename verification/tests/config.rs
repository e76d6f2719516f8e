use prefixdevname::address::HardwareAddress;
use prefixdevname::config::NetSetupLinkConfig;
use prefixdevname::error::NamingError;
use prefixdevname::link::LinkConfig;
use prefixdevname::store::LinkFile;

fn address(last: u8) -> HardwareAddress {
    HardwareAddress::from_octets([0x52, 0x54, 0x00, 0x00, 0x00, last])
}

fn record(name: &str, last: u8) -> LinkConfig {
    LinkConfig { name: name.to_string(), hwaddr: address(last) }
}

fn names(list: &[&str]) -> Vec<String> {
    list.iter().map(|name| name.to_string()).collect()
}

fn sorted(mut list: Vec<String>) -> Vec<String> {
    list.sort();
    list
}

fn loaded(prefix: &str, records: Vec<LinkConfig>, live: &[&str]) -> NetSetupLinkConfig {
    let mut state = NetSetupLinkConfig::new_with_prefix(&prefix.to_string());
    state.load(&records, &names(live));
    state
}

#[test]
fn new_with_prefix_knows_nothing() {
    let state = NetSetupLinkConfig::new_with_prefix(&"net".to_string());
    assert_eq!(state.prefix(), "net");
    assert!(state.known_names().is_empty());
    assert_eq!(state.for_hwaddr(&address(0)), None);
    assert_eq!(state.next_link_name(), Ok("net0".to_string()));
}

#[test]
fn load_keeps_only_names_with_the_prefix() {
    let state = loaded(
        "net",
        vec![record("net1", 1), record("lan0", 2), record("ne", 3)],
        &["eth0", "net0", "lo", "xnet5"],
    );
    assert_eq!(sorted(state.known_names()), names(&["net0", "net1"]));
    assert_eq!(state.for_hwaddr(&address(1)), Some(record("net1", 1)));
    assert_eq!(state.for_hwaddr(&address(2)), None);
    assert_eq!(state.for_hwaddr(&address(3)), None);
}

#[test]
fn load_lists_each_name_once() {
    let state = loaded(
        "net",
        vec![record("net0", 0), record("net1", 1), record("net1", 7)],
        &["net1", "net0", "net1"],
    );
    assert_eq!(sorted(state.known_names()), names(&["net0", "net1"]));
}

#[test]
fn load_indexes_records_only() {
    let state = loaded("net", vec![record("net1", 1)], &["net0", "net1"]);
    assert_eq!(state.for_hwaddr(&address(1)), Some(record("net1", 1)));
    assert_eq!(state.for_hwaddr(&address(0)), None);
}

#[test]
fn load_lets_the_later_record_of_an_address_count() {
    let state = loaded("net", vec![record("net0", 9), record("net4", 9), record("lan7", 9)], &[]);
    assert_eq!(state.for_hwaddr(&address(9)), Some(record("net4", 9)));
}

#[test]
fn load_builds_the_state_anew() {
    let mut state = loaded("net", vec![record("net0", 0)], &["net5"]);
    state.load(&vec![record("net1", 1)], &Vec::new());
    assert_eq!(state.known_names(), names(&["net1"]));
    assert_eq!(state.for_hwaddr(&address(0)), None);
    assert_eq!(state.next_link_name(), Ok("net2".to_string()));
}

#[test]
fn for_hwaddr_tells_addresses_apart_in_every_octet() {
    let one = HardwareAddress::from_octets([1, 0, 0, 0, 0, 0]);
    let other = HardwareAddress::from_octets([0, 0, 0, 0, 0, 1]);
    let mut state = NetSetupLinkConfig::new_with_prefix(&"net".to_string());
    state.load(&vec![LinkConfig { name: "net0".to_string(), hwaddr: one }], &Vec::new());
    assert!(state.for_hwaddr(&one).is_some());
    assert!(state.for_hwaddr(&other).is_none());
}

#[test]
fn next_link_name_follows_the_greatest_number() {
    assert_eq!(loaded("net", vec![], &["net0"]).next_link_name(), Ok("net1".to_string()));
    assert_eq!(loaded("net", vec![record("net41", 1)], &["net7"]).next_link_name(), Ok("net42".to_string()));
    assert_eq!(loaded("net", vec![], &["net9", "net10"]).next_link_name(), Ok("net11".to_string()));
    assert_eq!(loaded("net", vec![], &["net10", "net9"]).next_link_name(), Ok("net11".to_string()));
    assert_eq!(loaded("net", vec![], &["net099"]).next_link_name(), Ok("net100".to_string()));
}

#[test]
fn next_link_name_strips_the_prefix_once() {
    assert_eq!(loaded("net", vec![], &["netnet5"]).next_link_name(), Err(NamingError::MalformedName));
    assert_eq!(loaded("n1", vec![], &["n15"]).next_link_name(), Ok("n16".to_string()));
}

#[test]
fn next_link_name_fails_on_a_name_without_a_number() {
    assert_eq!(loaded("net", vec![], &["netbr0"]).next_link_name(), Err(NamingError::MalformedName));
    assert_eq!(loaded("net", vec![], &["net"]).next_link_name(), Err(NamingError::MalformedName));
    assert_eq!(loaded("net", vec![record("net-1", 1)], &["net3"]).next_link_name(), Err(NamingError::MalformedName));
    assert_eq!(loaded("net", vec![], &["net0", "net1x", "net2"]).next_link_name(), Err(NamingError::MalformedName));
    assert_eq!(
        loaded("net", vec![], &["net18446744073709551616"]).next_link_name(),
        Err(NamingError::MalformedName)
    );
}

#[test]
fn next_link_name_fails_when_the_numbers_run_out() {
    assert_eq!(
        loaded("net", vec![], &["net1", "net18446744073709551615"]).next_link_name(),
        Err(NamingError::NamesExhausted)
    );
    assert_eq!(
        loaded("net", vec![], &["net18446744073709551614"]).next_link_name(),
        Ok("net18446744073709551615".to_string())
    );
    assert_eq!(
        loaded("net", vec![], &["netx", "net18446744073709551615"]).next_link_name(),
        Err(NamingError::MalformedName)
    );
}

#[test]
fn next_link_name_is_the_same_for_the_same_state() {
    let state = loaded("net", vec![record("net3", 3)], &["net1"]);
    assert_eq!(state.next_link_name(), state.next_link_name());
}

#[test]
fn an_empty_prefix_takes_every_name() {
    let state = loaded("", vec![record("7", 1)], &["12", "3"]);
    assert_eq!(sorted(state.known_names()), names(&["12", "3", "7"]));
    assert_eq!(state.next_link_name(), Ok("13".to_string()));
    assert_eq!(loaded("", vec![], &["eth0"]).next_link_name(), Err(NamingError::MalformedName));
}

fn file(file_name: &str, content: &str) -> LinkFile {
    LinkFile { file_name: file_name.to_string(), content: content.to_string() }
}

fn file_of(config: &LinkConfig) -> LinkFile {
    LinkFile { file_name: config.link_file_name(), content: config.link_file_content() }
}

#[test]
fn enumerate_links_from_files_adds_the_records_of_the_files() {
    let mut state = NetSetupLinkConfig::new_with_prefix(&"net".to_string());
    let skipped = state.enumerate_links_from_files(&vec![
        file_of(&record("net1", 1)),
        file_of(&record("lan0", 2)),
        file_of(&record("net4", 4)),
    ]);
    assert!(skipped.is_empty());
    assert_eq!(sorted(state.known_names()), names(&["net1", "net4"]));
    assert_eq!(state.for_hwaddr(&address(1)), Some(record("net1", 1)));
    assert_eq!(state.for_hwaddr(&address(4)), Some(record("net4", 4)));
    assert_eq!(state.for_hwaddr(&address(2)), None);
    assert_eq!(state.next_link_name(), Ok("net5".to_string()));
}

#[test]
fn enumerate_links_from_files_takes_nothing_from_a_malformed_file() {
    let good = vec![file_of(&record("net0", 0)), file_of(&record("net1", 1))];
    let mixed = vec![
        file("70-net-ifnames-prefix-net7.link", "[Match]\nMACAddress=52:54:00:00:00:07\n\n[Link]\n"),
        file_of(&record("net0", 0)),
        file("70-net-ifnames-prefix-net8.link", "[Link]\nName=net8\n"),
        file("70-net-ifnames-prefix-net9.link", "[Match]\nMACAddress=nope\n\n[Link]\nName=net9\n"),
        file_of(&record("net1", 1)),
        file("70-net-ifnames-prefix-net6.link", "[Match"),
        file("10-other.link", &record("net5", 5).link_file_content()),
    ];
    let mut from_good = NetSetupLinkConfig::new_with_prefix(&"net".to_string());
    assert!(from_good.enumerate_links_from_files(&good).is_empty());
    let mut from_mixed = NetSetupLinkConfig::new_with_prefix(&"net".to_string());
    assert_eq!(from_mixed.enumerate_links_from_files(&mixed), vec![0, 2, 3, 5, 6]);
    assert_eq!(sorted(from_mixed.known_names()), sorted(from_good.known_names()));
    assert_eq!(sorted(from_mixed.known_names()), names(&["net0", "net1"]));
    for last in 0..10u8 {
        assert_eq!(from_mixed.for_hwaddr(&address(last)), from_good.for_hwaddr(&address(last)));
    }
    assert_eq!(from_mixed.for_hwaddr(&address(7)), None);
    assert_eq!(from_mixed.next_link_name(), Ok("net2".to_string()));
}

#[test]
fn enumerate_links_from_files_adds_to_what_is_known() {
    let mut state = loaded("net", vec![record("net0", 0)], &["net3"]);
    state.enumerate_links_from_files(&vec![file_of(&record("net5", 5)), file_of(&record("net9", 0))]);
    assert_eq!(sorted(state.known_names()), names(&["net0", "net3", "net5", "net9"]));
    assert_eq!(state.for_hwaddr(&address(0)), Some(record("net9", 0)));
    assert_eq!(state.for_hwaddr(&address(5)), Some(record("net5", 5)));
    assert_eq!(state.next_link_name(), Ok("net10".to_string()));
}

#[test]
fn load_is_the_names_of_the_devices_and_then_the_files() {
    let records = vec![record("net1", 1), record("net4", 4)];
    let at_once = loaded("net", vec![record("net1", 1), record("net4", 4)], &["net0", "net4"]);
    let mut in_steps = loaded("net", vec![], &["net0", "net4"]);
    in_steps.enumerate_links_from_files(&records.iter().map(file_of).collect());
    assert_eq!(sorted(in_steps.known_names()), sorted(at_once.known_names()));
    assert_eq!(in_steps.for_hwaddr(&address(4)), at_once.for_hwaddr(&address(4)));
    assert_eq!(in_steps.next_link_name(), at_once.next_link_name());
}
