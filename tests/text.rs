use xml_pull::{is_xml_space_char, trim_xml};

#[test]
fn xml_space_chars() {
    assert!(is_xml_space_char(' '));
    assert!(is_xml_space_char('\t'));
    assert!(is_xml_space_char('\n'));
    assert!(is_xml_space_char('\r'));
    assert!(!is_xml_space_char('a'));
    assert!(!is_xml_space_char('\u{a0}'));
}

#[test]
fn trim_both_ends() {
    assert_eq!(trim_xml("  hi  "), "hi");
    assert_eq!(trim_xml("\t\r\n a b \n"), "a b");
    assert_eq!(trim_xml("x"), "x");
}

#[test]
fn trim_keeps_inner_space() {
    assert_eq!(trim_xml(" a  b "), "a  b");
}

#[test]
fn trim_all_space_is_empty() {
    assert_eq!(trim_xml("   "), "");
    assert_eq!(trim_xml(""), "");
}

#[test]
fn trim_non_ascii() {
    assert_eq!(trim_xml(" héllo wörld\n"), "héllo wörld");
    assert_eq!(trim_xml("\u{a0}x\u{a0}"), "\u{a0}x\u{a0}");
}
