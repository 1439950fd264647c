use modemdeck::text::{dec_exec, hex_exec, join_path_exec, parse_u32_exec, parse_u64_exec, trim_exec};

fn string_from(v: &[char]) -> String {
    v.iter().collect()
}

fn chars(s: &str) -> Vec<char> {
    s.chars().collect()
}

#[test]
fn path_joining() {
    assert_eq!(join_path_exec("/a", "b/c"), "/a/b/c");
    assert_eq!(join_path_exec("/a/", "b"), "/a/b");
    assert_eq!(join_path_exec("", "b"), "b");
    assert_eq!(join_path_exec("/a", "/etc"), "/etc");
}

#[test]
fn number_texts() {
    assert_eq!(string_from(&dec_exec(0)), "0");
    assert_eq!(string_from(&dec_exec(1234567890)), "1234567890");
    assert_eq!(string_from(&hex_exec(89)), "59");
    assert_eq!(string_from(&hex_exec(0xdeadbeef)), "deadbeef");
    assert_eq!(string_from(&hex_exec(u64::MAX)), format!("{:x}", u64::MAX));
}

#[test]
fn number_parsing_follows_std() {
    for s in ["0", "42", "+7", "-1", "", "4294967295", "4294967296", " 1", "1a"] {
        assert_eq!(parse_u32_exec(&chars(s)), s.parse::<u32>().ok(), "{s:?}");
        assert_eq!(parse_u64_exec(&chars(s)), s.parse::<u64>().ok(), "{s:?}");
    }
}

#[test]
fn trimming_follows_std() {
    for s in ["  a b  ", "\t\n", "", "x", "\u{00a0}y\u{3000}"] {
        assert_eq!(string_from(&trim_exec(&chars(s))), s.trim());
    }
}
