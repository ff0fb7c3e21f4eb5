use proxmon::config::default_become_method;
use proxmon::config::default_port;
use proxmon::config::default_python_interpreter;
use proxmon::config::default_true;
use proxmon::host::HostType;
use proxmon::text::str_cmp;
use proxmon::text::str_cmp_ci;
use proxmon::text::str_find_sub;
use proxmon::text::str_trim;
use proxmon::text::u64_to_dec;
use proxmon::text::Cmp;

#[test]
fn raw_comparison_is_lexicographic() {
    assert_eq!(str_cmp("abc", "abd"), Cmp::Lt);
    assert_eq!(str_cmp("abc", "abc"), Cmp::Eq);
    assert_eq!(str_cmp("abcd", "abc"), Cmp::Gt);
    assert_eq!(str_cmp("", "a"), Cmp::Lt);
    assert_eq!(str_cmp("Z", "a"), Cmp::Lt);
}

#[test]
fn case_insensitive_comparison_folds_ascii_capitals() {
    assert_eq!(str_cmp_ci("A-host", "b-host"), Cmp::Lt);
    assert_eq!(str_cmp_ci("HOST", "host"), Cmp::Eq);
    assert_eq!(str_cmp_ci("hostB", "HOSTa"), Cmp::Gt);
}

#[test]
fn decimal_rendering_is_exact() {
    assert_eq!(u64_to_dec(0), "0");
    assert_eq!(u64_to_dec(8006), "8006");
    assert_eq!(u64_to_dec(18446744073709551615), "18446744073709551615");
}

#[test]
fn trimming_strips_both_ends_only() {
    assert_eq!(str_trim("  10.0.0.1\t"), "10.0.0.1");
    assert_eq!(str_trim("a b"), "a b");
    assert_eq!(str_trim(" \t\r\n "), "");
}

#[test]
fn substring_search_finds_first_occurrence() {
    assert_eq!(str_find_sub("gw=1,ip=2,ip=3", "ip="), Some(5));
    assert_eq!(str_find_sub("nothing here", "ip="), None);
}

#[test]
fn kind_labels_and_defaults_are_fixed() {
    assert_eq!(HostType::VM.as_str(), "VM");
    assert_eq!(HostType::LXC.as_str(), "LXC");
    assert_eq!(HostType::Physical.as_str(), "Physical");
    assert_eq!(default_port(), 8006);
    assert_eq!(default_python_interpreter(), "/usr/bin/python3");
    assert!(default_true());
    assert_eq!(default_become_method(), "sudo");
}
