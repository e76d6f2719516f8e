use prefixdevname::address::HardwareAddress;
use prefixdevname::error::{NamingError, RecordError};
use prefixdevname::link::LinkConfig;

fn address() -> HardwareAddress {
    HardwareAddress::from_octets([0x52, 0x54, 0x00, 0x12, 0x34, 0x56])
}

#[test]
fn new_reads_the_address_of_the_event_device() {
    let config = LinkConfig::new("net0", Some("52:54:00:12:34:56")).unwrap();
    assert_eq!(config.name, "net0");
    assert_eq!(config.hwaddr, address());
}

#[test]
fn new_fails_without_a_usable_address() {
    assert_eq!(LinkConfig::new("net0", None), Err(NamingError::Enumeration));
    assert_eq!(LinkConfig::new("net0", Some("nonsense")), Err(NamingError::Enumeration));
}

#[test]
fn new_with_hwaddr_takes_name_and_address_as_they_are() {
    let config = LinkConfig::new_with_hwaddr("net7", &address()).unwrap();
    assert_eq!(config, LinkConfig { name: "net7".to_string(), hwaddr: address() });
}

#[test]
fn hwaddr_from_event_device_reads_the_attribute() {
    assert_eq!(LinkConfig::hwaddr_from_event_device(Some("52:54:00:12:34:56")), Ok(address()));
    assert_eq!(LinkConfig::hwaddr_from_event_device(None), Err(NamingError::Enumeration));
    assert_eq!(LinkConfig::hwaddr_from_event_device(Some("")), Err(NamingError::Enumeration));
}

#[test]
fn event_device_syspath_is_under_sys() {
    assert_eq!(
        LinkConfig::event_device_syspath("/devices/pci0000:00/0000:00:03.0/net/eth0"),
        "/sys/devices/pci0000:00/0000:00:03.0/net/eth0"
    );
}

#[test]
fn link_file_name_and_path_are_made_of_the_name() {
    let config = LinkConfig::new_with_hwaddr("net3", &address()).unwrap();
    assert_eq!(config.link_file_name(), "70-net-ifnames-prefix-net3.link");
    assert_eq!(config.link_file_path(), "/etc/systemd/network/70-net-ifnames-prefix-net3.link");
    assert_eq!(config.temporary_file_name(), "70-net-ifnames-prefix-net3.link.tmp");
}

#[test]
fn temporary_file_name_is_no_link_file_name() {
    let config = LinkConfig::new_with_hwaddr("net3", &address()).unwrap();
    assert!(LinkConfig::is_link_file_name(&config.link_file_name()));
    assert!(!LinkConfig::is_link_file_name(&config.temporary_file_name()));
}

#[test]
fn is_link_file_name_wants_prefix_and_suffix() {
    assert!(LinkConfig::is_link_file_name("70-net-ifnames-prefix-net0.link"));
    assert!(LinkConfig::is_link_file_name("70-net-ifnames-prefix-.link"));
    assert!(!LinkConfig::is_link_file_name("70-net-ifnames-prefix-net0"));
    assert!(!LinkConfig::is_link_file_name("71-net-ifnames-prefix-net0.link"));
    assert!(!LinkConfig::is_link_file_name("99-default.link"));
    assert!(!LinkConfig::is_link_file_name("70-net-ifnames-prefix-net0.link~"));
    assert!(!LinkConfig::is_link_file_name(""));
}

#[test]
fn link_file_content_has_two_sections() {
    let config = LinkConfig::new_with_hwaddr("net3", &address()).unwrap();
    assert_eq!(
        config.link_file_content(),
        "[Match]\nMACAddress=52:54:00:12:34:56\n\n[Link]\nName=net3\n"
    );
}

#[test]
fn from_link_file_reads_what_link_file_content_wrote() {
    let config = LinkConfig::new_with_hwaddr("net3", &address()).unwrap();
    assert_eq!(LinkConfig::from_link_file(&config.link_file_content()), Ok(config));
}

#[test]
fn from_link_file_reads_the_two_fields() {
    let content = "# written by hand\n[Link]\nName = lan12\nMTUBytes=1500\n[Match]\nMACAddress=00:41:D0:24:00:0B\n";
    let config = LinkConfig::from_link_file(content).unwrap();
    assert_eq!(config.name, "lan12");
    assert_eq!(config.hwaddr.octets(), [0x00, 0x41, 0xd0, 0x24, 0x00, 0x0b]);
}

#[test]
fn from_link_file_passes_over_a_byte_order_mark() {
    let config = LinkConfig::new_with_hwaddr("net3", &address()).unwrap();
    let mut content = String::from("\u{feff}");
    content.push_str(&config.link_file_content());
    assert_eq!(LinkConfig::from_link_file(&content), Ok(config));
}

#[test]
fn without_byte_order_mark_takes_one_mark_from_the_front() {
    assert_eq!(LinkConfig::without_byte_order_mark("\u{feff}[Match]"), "[Match]");
    assert_eq!(LinkConfig::without_byte_order_mark("[Match]"), "[Match]");
    assert_eq!(LinkConfig::without_byte_order_mark(""), "");
    assert_eq!(LinkConfig::without_byte_order_mark("\u{feff}"), "");
    assert_eq!(LinkConfig::without_byte_order_mark("\u{feff}\u{feff}x"), "\u{feff}x");
    assert_eq!(LinkConfig::without_byte_order_mark("x\u{feff}"), "x\u{feff}");
}

#[test]
fn from_link_file_reports_what_is_missing() {
    assert_eq!(
        LinkConfig::from_link_file("[Link]\nName=net0\n"),
        Err(NamingError::RecordParse(RecordError::MissingAddress))
    );
    assert_eq!(
        LinkConfig::from_link_file("[Match]\nDriver=virtio_net\n\n[Link]\nName=net0\n"),
        Err(NamingError::RecordParse(RecordError::MissingAddress))
    );
    assert_eq!(
        LinkConfig::from_link_file("[Match]\nMACAddress=52:54:00:12:34:56\n"),
        Err(NamingError::RecordParse(RecordError::MissingName))
    );
    assert_eq!(
        LinkConfig::from_link_file("[Match]\nMACAddress=52:54:00:12:34:56\n\n[Link]\nAlias=x\n"),
        Err(NamingError::RecordParse(RecordError::MissingName))
    );
    assert_eq!(
        LinkConfig::from_link_file(""),
        Err(NamingError::RecordParse(RecordError::MissingAddress))
    );
}

#[test]
fn from_link_file_does_not_take_a_key_from_the_wrong_section() {
    assert_eq!(
        LinkConfig::from_link_file("[Link]\nMACAddress=52:54:00:12:34:56\nName=net0\n"),
        Err(NamingError::RecordParse(RecordError::MissingAddress))
    );
    assert_eq!(
        LinkConfig::from_link_file("[Match]\nMACAddress=52:54:00:12:34:56\nName=net0\n"),
        Err(NamingError::RecordParse(RecordError::MissingName))
    );
}

#[test]
fn from_link_file_reports_a_bad_address() {
    assert_eq!(
        LinkConfig::from_link_file("[Match]\nMACAddress=zz:54:00:12:34:56\n\n[Link]\nName=net0\n"),
        Err(NamingError::RecordParse(RecordError::BadAddress))
    );
}

#[test]
fn from_link_file_reports_bad_syntax() {
    assert_eq!(
        LinkConfig::from_link_file("[Match"),
        Err(NamingError::RecordParse(RecordError::Syntax))
    );
    assert_eq!(
        LinkConfig::from_link_file("=52:54:00:12:34:56\n"),
        Err(NamingError::RecordParse(RecordError::Syntax))
    );
}

#[test]
fn from_fields_checks_address_before_name() {
    let bad = || Some(HardwareAddress::parse("bad"));
    let good = || Some(HardwareAddress::parse("52:54:00:12:34:56"));
    assert_eq!(
        LinkConfig::from_fields(None, None),
        Err(NamingError::RecordParse(RecordError::MissingAddress))
    );
    assert_eq!(
        LinkConfig::from_fields(None, Some("net0".to_string())),
        Err(NamingError::RecordParse(RecordError::MissingAddress))
    );
    assert_eq!(
        LinkConfig::from_fields(bad(), None),
        Err(NamingError::RecordParse(RecordError::MissingName))
    );
    assert_eq!(
        LinkConfig::from_fields(good(), None),
        Err(NamingError::RecordParse(RecordError::MissingName))
    );
    assert_eq!(
        LinkConfig::from_fields(bad(), Some("net0".to_string())),
        Err(NamingError::RecordParse(RecordError::BadAddress))
    );
    assert_eq!(
        LinkConfig::from_fields(good(), Some("net0".to_string())),
        Ok(LinkConfig { name: "net0".to_string(), hwaddr: address() })
    );
}

#[test]
fn clone_keeps_name_and_address() {
    let config = LinkConfig::new_with_hwaddr("net3", &address()).unwrap();
    assert_eq!(config.clone(), config);
}
