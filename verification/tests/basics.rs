use rugix_ctrl::digest::{HashAlgorithm, HashDigest};
use rugix_ctrl::order::{number_order, sort_strings, text_less, text_order};
use rugix_ctrl::path::{
    components, extension, is_component_file, is_contained_path, is_valid_app_name, join,
    path_strip_root, starts_with, ValidatedRelativePath,
};
use rugix_ctrl::text::{
    contains_str, eq_ignore_ascii_case, parse_u32, parse_u64, split_at, split_whitespace,
    strip_prefix, to_decimal, trim,
};
use rugix_ctrl::time::Duration;

fn strings(values: &[&str]) -> Vec<String> {
    values.iter().map(|value| (*value).to_owned()).collect()
}

#[test]
fn numbers_are_parsed_as_they_are_rendered() {
    for n in [0, 7, 10, 1234567890, u64::MAX] {
        assert_eq!(to_decimal(n), n.to_string());
        assert_eq!(parse_u64(&to_decimal(n)), Some(n));
    }
    for text in ["", "+", "-1", "1a", "18446744073709551616", " 1"] {
        assert_eq!(parse_u64(text), text.parse::<u64>().ok(), "{text:?}");
    }
    assert_eq!(parse_u64("+5"), Some(5));
    assert_eq!(parse_u32("4294967295"), Some(u32::MAX));
    assert_eq!(parse_u32("4294967296"), None);
}

#[test]
fn texts_are_split_and_trimmed() {
    let text = " a\tb\u{2003} c\n";
    assert_eq!(
        split_whitespace(text),
        text.split_whitespace().collect::<Vec<_>>()
    );
    assert_eq!(trim(text), text.trim());
    assert_eq!(split_at("a,,b", ','), ["a", "", "b"]);
    assert_eq!(strip_prefix("key=value", "key=").as_deref(), Some("value"));
    assert_eq!(strip_prefix("key", "key="), None);
    assert!(eq_ignore_ascii_case("ToMl", "toml"));
    assert!(!eq_ignore_ascii_case("ä", "Ä"));
    assert!(contains_str(&strings(&["a", "b"]), "b"));
}

#[test]
fn texts_are_ordered_like_bytes() {
    let keys = strings(&["b", "a", "ä", "B", ""]);
    let mut sorted = keys.clone();
    sorted.sort();
    assert_eq!(sort_strings(&keys), sorted);
    assert_eq!(text_order(&keys), [4, 3, 1, 0, 2]);
    assert!(text_less("a", "ab"));
    assert_eq!(number_order(&vec![3, 1, 2]), [1, 2, 0]);
}

#[test]
fn paths_are_joined_and_taken_apart() {
    for (base, rest) in [("/a", "b"), ("/a/", "b"), ("/a", "/b"), ("", "b"), ("a", "")] {
        assert_eq!(
            join(base, rest),
            std::path::Path::new(base).join(rest).to_str().unwrap()
        );
    }
    assert_eq!(components("a/./b//c"), ["a", "b", "c"]);
    assert_eq!(extension("a/b.tar.gz").as_deref(), Some("gz"));
    assert_eq!(extension(".hidden"), None);
    assert!(is_component_file("x/y.JSON"));
    for (path, relative) in [
        ("//etc/x", "etc/x"),
        ("/./a", "a"),
        ("/", ""),
        ("/.", ""),
        ("/.a", ".a"),
        ("/../a", "../a"),
        ("/a/./", "a"),
        ("/a//b/", "a//b"),
        ("/././/a/b", "a/b"),
        ("./a/", "./a/"),
        ("", ""),
    ] {
        assert_eq!(path_strip_root(path), relative);
        let outside = std::path::Path::new(path);
        assert_eq!(
            outside.strip_prefix("/").unwrap_or(outside).to_str(),
            Some(relative)
        );
    }
    assert!(starts_with("/a/b", "/a"));
    assert!(!starts_with("/ab", "/a"));
}

#[test]
fn contained_paths_stay_below_their_base() {
    for path in ["a", "a/b", "a/..b"] {
        assert!(is_contained_path(path), "{path}");
    }
    for path in ["", "/a", "a//b", "a/", "../a", "a/./b", ".."] {
        assert!(!is_contained_path(path), "{path}");
    }
    let path = ValidatedRelativePath::new("a/b").unwrap();
    assert_eq!(path.as_str(), "a/b");
    assert!(!path.is_single_component());
    assert!(ValidatedRelativePath::new("../a").is_none());
    assert!(is_valid_app_name("example_app"));
    assert!(!is_valid_app_name("a/b"));
}

#[test]
fn digests_are_those_of_their_algorithm() {
    let digest = HashDigest::of(HashAlgorithm::Sha256, b"abc");
    assert_eq!(
        digest.text(),
        "sha256_ba7816bf8f01cfea414140de5dae2223b00361a396177a9cb410ff61f20015ad"
    );
    assert!(!digest.equals(&HashDigest::of(HashAlgorithm::Sha512_256, b"abc")));
    assert!(digest.equals(&digest.copy()));
    assert_eq!(HashDigest::of(HashAlgorithm::Sha512, b"").raw.len(), 64);
    let outside = si_crypto_hashes::HashAlgorithm::Sha512_256.hash::<Vec<u8>>(b"abc");
    assert_eq!(
        HashDigest::of(HashAlgorithm::Sha512_256, b"abc").text(),
        outside.to_string()
    );
}

#[test]
fn durations_count_nanoseconds() {
    let duration = Duration::from_nanos(1_500_000_000);
    assert_eq!(
        duration,
        Duration {
            secs: 1,
            nanos: 500_000_000
        }
    );
    assert_eq!(duration.as_secs(), 1);
    assert_eq!(duration.as_nanos(), 1_500_000_000);
}
