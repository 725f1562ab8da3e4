use dir_kill::discover::{holder_given, holder_of};
use dir_kill::entry::DirectoryInfo;
use dir_kill::index::{hash_path, PathIndex, HASH_MODULUS};
use dir_kill::text::{
    chars_of, contains, decimal_string, digit, find_sep, is_whitespace, string_of, trim_range,
};

#[test]
fn the_hash_folds_the_characters() {
    assert_eq!(hash_path(""), 0);
    assert_eq!(hash_path("a"), 97);
    assert_eq!(hash_path("ab"), 97 * 31 + 98);
    assert_eq!(hash_path("ba"), 98 * 31 + 97);
    let mut expected: u64 = 0;
    for c in "./some/long/path/to/node_modules/ž📁".chars() {
        expected = (expected * 31 + c as u64) % HASH_MODULUS;
    }
    assert_eq!(hash_path("./some/long/path/to/node_modules/ž📁"), expected);
    assert!(hash_path(&"z".repeat(1000)) < HASH_MODULUS);
}

#[test]
fn the_index_is_checked_against_the_list() {
    let entries: Vec<DirectoryInfo> =
        ["a", "b", "a", "c"].iter().map(|p| DirectoryInfo::fresh(p.to_string())).collect();
    let mut index = PathIndex::new();
    assert_eq!(index.lookup(&entries, "a"), None);
    index.record("a", 2);
    assert_eq!(index.lookup(&entries, "a"), Some(2));
    index.record("a", 0);
    assert_eq!(index.lookup(&entries, "a"), Some(0));
    // Records that do not fit the list are passed over.
    index.record("c", 1);
    index.record("c", 9);
    assert_eq!(index.lookup(&entries, "c"), None);
    index.record("c", 3);
    assert_eq!(index.lookup(&entries, "c"), Some(3));
    assert_eq!(index.lookup(&entries, "b"), None);
}

#[test]
fn the_holder_is_the_directory_above() {
    assert_eq!(holder_of("/a/b/node_modules"), "/a/b");
    assert_eq!(holder_of("./target"), ".");
    assert_eq!(holder_of("target"), "");
    assert_eq!(holder_of("/"), "/");
    assert_eq!(holder_of(""), "");
    assert_eq!(holder_given("x/y", Some("x".to_string())), "x");
    assert_eq!(holder_given("x/y", None), "x/y");
}

#[test]
fn text_helpers() {
    assert_eq!(decimal_string(0), "0");
    assert_eq!(decimal_string(7), "7");
    assert_eq!(decimal_string(10), "10");
    assert_eq!(decimal_string(1234567890), "1234567890");
    assert_eq!(decimal_string(u64::MAX), "18446744073709551615");
    assert_eq!(digit(0), '0');
    assert_eq!(digit(9), '9');
    let chars = chars_of("  a,b  ,c");
    assert_eq!(chars.len(), 9);
    assert_eq!(find_sep(&chars, 0, ','), 3);
    assert_eq!(find_sep(&chars, 4, ','), 7);
    assert_eq!(find_sep(&chars, 8, ','), 9);
    assert_eq!(find_sep(&chars, 9, ','), 9);
    assert_eq!(trim_range(&chars, 0, 3), (2, 3));
    assert_eq!(trim_range(&chars, 4, 7), (4, 5));
    assert_eq!(trim_range(&chars, 0, 2), (2, 2));
    assert_eq!(string_of(&chars, 2, 5), "a,b");
    assert_eq!(string_of(&chars, 4, 4), "");
    assert!(contains(&chars_of("abcabd"), &chars_of("abd")));
    assert!(contains(&chars_of("abcabd"), &chars_of("")));
    assert!(contains(&chars_of(""), &chars_of("")));
    assert!(!contains(&chars_of("abcabd"), &chars_of("abe")));
    assert!(!contains(&chars_of("ab"), &chars_of("abc")));
}

#[test]
fn white_space_is_what_the_standard_library_calls_so() {
    for code in 0..=0x11_0000u32 {
        if let Some(c) = char::from_u32(code) {
            assert_eq!(is_whitespace(c), c.is_whitespace(), "for U+{:04X}", code);
        }
    }
}
