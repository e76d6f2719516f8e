use prefixdevname::address::HardwareAddress;
use prefixdevname::link::LinkConfig;
use prefixdevname::store::{list_records, LinkFile};

fn file(file_name: &str, content: &str) -> LinkFile {
    LinkFile { file_name: file_name.to_string(), content: content.to_string() }
}

fn record(name: &str, last: u8) -> LinkConfig {
    LinkConfig {
        name: name.to_string(),
        hwaddr: HardwareAddress::from_octets([0x52, 0x54, 0x00, 0x00, 0x00, last]),
    }
}

fn file_of(config: &LinkConfig) -> LinkFile {
    LinkFile { file_name: config.link_file_name(), content: config.link_file_content() }
}

#[test]
fn list_records_of_no_files_is_empty() {
    let listing = list_records(&Vec::new());
    assert!(listing.records.is_empty());
    assert!(listing.skipped.is_empty());
}

#[test]
fn list_records_keeps_the_order_of_the_files() {
    let files = vec![file_of(&record("net2", 2)), file_of(&record("net0", 0)), file_of(&record("net1", 1))];
    let listing = list_records(&files);
    assert_eq!(listing.records, vec![record("net2", 2), record("net0", 0), record("net1", 1)]);
    assert!(listing.skipped.is_empty());
}

#[test]
fn list_records_passes_over_files_of_other_names() {
    let files = vec![
        file("99-default.link", &record("net5", 5).link_file_content()),
        file_of(&record("net0", 0)),
        file("70-net-ifnames-prefix-net1.link.tmp", &record("net1", 1).link_file_content()),
    ];
    let listing = list_records(&files);
    assert_eq!(listing.records, vec![record("net0", 0)]);
    assert_eq!(listing.skipped, vec![0, 2]);
}

#[test]
fn list_records_passes_over_malformed_files() {
    let files = vec![
        file("70-net-ifnames-prefix-net0.link", "[Match]\nMACAddress=52:54:00:00:00:00\n\n[Link]\n"),
        file("70-net-ifnames-prefix-net1.link", "[Match"),
        file_of(&record("net2", 2)),
        file("70-net-ifnames-prefix-net3.link", "[Match]\nMACAddress=nope\n\n[Link]\nName=net3\n"),
    ];
    let listing = list_records(&files);
    assert_eq!(listing.records, vec![record("net2", 2)]);
    assert_eq!(listing.skipped, vec![0, 1, 3]);
}

#[test]
fn list_records_goes_by_the_text_not_by_the_file_name() {
    let files = vec![file("70-net-ifnames-prefix-other.link", &record("net4", 4).link_file_content())];
    let listing = list_records(&files);
    assert_eq!(listing.records, vec![record("net4", 4)]);
}
