use prefixdevname::text::{chars_of, ends_with, starts_with};

#[test]
fn chars_of_keeps_characters_and_order() {
    assert_eq!(chars_of("net0"), vec!['n', 'e', 't', '0']);
    assert_eq!(chars_of(""), Vec::<char>::new());
    assert_eq!(chars_of("ñu"), vec!['ñ', 'u']);
}

#[test]
fn starts_with_compares_the_beginning() {
    assert!(starts_with(&chars_of("net0"), &chars_of("net")));
    assert!(starts_with(&chars_of("net"), &chars_of("net")));
    assert!(starts_with(&chars_of("net"), &chars_of("")));
    assert!(!starts_with(&chars_of("ne"), &chars_of("net")));
    assert!(!starts_with(&chars_of("eth0"), &chars_of("net")));
    assert!(!starts_with(&chars_of("xnet0"), &chars_of("net")));
}

#[test]
fn ends_with_compares_the_end() {
    assert!(ends_with(&chars_of("a.link"), &chars_of(".link")));
    assert!(ends_with(&chars_of(".link"), &chars_of(".link")));
    assert!(ends_with(&chars_of("a"), &chars_of("")));
    assert!(!ends_with(&chars_of("link"), &chars_of(".link")));
    assert!(!ends_with(&chars_of("a.link.tmp"), &chars_of(".link")));
    assert!(!ends_with(&chars_of("a.lynk"), &chars_of(".link")));
}
