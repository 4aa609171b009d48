use gitup::backup::archive::entry_name;
use gitup::backup::utility::replace_recursive;
use gitup::hash::{content_hash, sha3};
use gitup::backup::upload::part_padding_length;
use gitup::padding::pad_number;
use gitup::text::{contains_str, replace_all, to_hex_lower, u64_to_decimal};

#[test]
fn pad_number_matches_zero_padded_formatting() {
    for num in [0u32, 1, 7, 42, 999, 1000, 65535, u32::MAX] {
        for width in 0..12usize {
            assert_eq!(pad_number(num, width), format!("{:0width$}", num, width = width));
        }
    }
    assert_eq!(pad_number(7, 3), "007");
    assert_eq!(pad_number(1234, 2), "1234");
}

#[test]
fn sha3_known_digests() {
    assert_eq!(
        sha3(b""),
        "a7ffc6f8bf1ed76651c14756a061d662f580ff4de43b49fa82d80a4b80f8434a"
    );
    assert_eq!(
        sha3(b"abc"),
        "3a985da74fe225b2045c172d6bd390bd855f086e3e9d525b46bfe24511431532"
    );
}

#[test]
fn hex_and_decimal_renderings() {
    assert_eq!(to_hex_lower(&[0x00, 0x0f, 0xab, 0xff]), "000fabff");
    assert_eq!(u64_to_decimal(0), "0");
    assert_eq!(u64_to_decimal(u64::MAX), "18446744073709551615");
}

#[test]
fn replace_recursive_removes_every_occurrence() {
    assert_eq!(replace_recursive("a....b".to_string(), "..", ""), "ab");
    assert_eq!(replace_recursive("a...b".to_string(), "..", ""), "a.b");
    assert_eq!(replace_recursive("a////b".to_string(), "//", "/"), "a/b");
    assert_eq!(replace_recursive("plain".to_string(), "x", "y"), "plain");
    assert_eq!(replace_recursive("xéééy".to_string(), "éé", "ab"), "xabéy");
    assert_eq!(replace_recursive("éééé".to_string(), "éé", "e"), "ee");
}

#[test]
fn replace_all_makes_one_pass() {
    assert_eq!(replace_all("a///b", "//", "/"), "a//b");
    assert_eq!(replace_all("x?y?", "?", ""), "xy");
    assert!(contains_str("gitup://x:github/o/r", ":github/"));
    assert!(!contains_str("abc", "abd"));
}

#[test]
fn archive_entry_names_are_sanitized() {
    assert_eq!(entry_name("C:\\Users\\me\\file.txt".to_string()), "C/Users/me/file.txt");
    assert_eq!(entry_name("/home/me/../secret?.txt".to_string()), "/home/me/secret.txt");
    assert_eq!(entry_name("/a/./b//c".to_string()), "/a/b/c");
}

#[test]
fn part_numbers_are_padded_to_one_width() {
    for max in [1u64, 9, 10, 99, 100, 12345] {
        let width = part_padding_length(max);
        assert_eq!(width, max.to_string().len());
        for i in 1..=max.min(300) {
            assert_eq!(pad_number(i as u32, width).len(), width);
        }
        assert_eq!(pad_number(max as u32, width).len(), width);
    }
}

#[test]
fn file_contents_are_hashed_with_sha3_512() {
    let h = content_hash(b"abc");
    assert_eq!(h.len(), 128);
    assert_eq!(
        h,
        "b751850b1a57168a5693cd924b6b096e08f621827444f70d884f5d0240d2712e10e116e9192af3c91a7ec57647e3934057340b4cf408d5a56592f8274eec53f0"
    );
}
