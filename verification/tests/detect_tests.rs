use wechat_cleaner::detect::{detect_with_digests, pattern_phase, PathDigest};
use wechat_cleaner::hasher::{digest_bytes, to_hex, buffer_size_for, ContentHasher};
use wechat_cleaner::pattern::{base_identity, Pattern};
use wechat_cleaner::records::FileInfo;

fn rec(path: &str, size: u64, modified: u64) -> FileInfo {
    FileInfo::new(path.as_bytes().to_vec(), size, modified)
}

fn default_pattern() -> Pattern {
    Pattern::new(r"\(\d+\)\.[a-zA-Z0-9]+$").expect("the default pattern compiles")
}

fn digest_entry(path: &str, digest: &[u8]) -> PathDigest {
    PathDigest {
        path: path.as_bytes().to_vec(),
        digest: digest.to_vec(),
    }
}

#[test]
fn test_base_identity_numeric_suffix() {
    let pat = default_pattern();
    assert_eq!(
        base_identity(&pat, &b"img(1).jpg".to_vec()),
        b"img".to_vec()
    );
    assert_eq!(base_identity(&pat, &b"img.jpg".to_vec()), b"img".to_vec());
    assert_eq!(
        base_identity(&pat, &b"img_copy.jpg".to_vec()),
        b"img_copy".to_vec()
    );
    assert_eq!(
        base_identity(&pat, &b"photo(12).png".to_vec()),
        b"photo".to_vec()
    );
    assert_eq!(base_identity(&pat, &b"noext".to_vec()), b"noext".to_vec());
}

#[test]
fn test_unrelated_names_not_grouped_without_matching_content() {
    let pat = default_pattern();
    let records = vec![rec("c/img.jpg", 40, 1), rec("c/img_copy.jpg", 40, 2)];
    let table = vec![
        digest_entry("c/img.jpg", &[1u8; 16]),
        digest_entry("c/img_copy.jpg", &[2u8; 16]),
    ];
    let groups = detect_with_digests(&records, &pat, &table);
    assert!(groups.is_empty());

    let same = vec![
        digest_entry("c/img.jpg", &[9u8; 16]),
        digest_entry("c/img_copy.jpg", &[9u8; 16]),
    ];
    let groups = detect_with_digests(&records, &pat, &same);
    assert_eq!(groups.len(), 1);
    assert_eq!(groups[0].files.len(), 2);
}

#[test]
fn test_pattern_phase_groups_auto_copies_without_hashing() {
    let pat = default_pattern();
    let records = vec![
        rec("cache/photo.jpg", 102400, 100),
        rec("cache/photo(1).jpg", 102400, 200),
    ];
    let (groups, remainder) = pattern_phase(&records, &pat);
    assert_eq!(groups.len(), 1);
    assert_eq!(groups[0].key, b"photo".to_vec());
    assert_eq!(groups[0].files.len(), 2);
    assert!(remainder.is_empty());
}

#[test]
fn test_content_phase_groups_unrelated_names() {
    let pat = default_pattern();
    let records = vec![rec("a/zebra.bin", 50, 10), rec("a/quilt.bin", 50, 20)];
    let digest = [7u8; 16];
    let table = vec![
        digest_entry("a/zebra.bin", &digest),
        digest_entry("a/quilt.bin", &digest),
    ];

    let (pattern_groups, remainder) = pattern_phase(&records, &pat);
    assert!(pattern_groups.is_empty());
    assert_eq!(remainder.len(), 2);

    let groups = detect_with_digests(&records, &pat, &table);
    assert_eq!(groups.len(), 1);
    assert_eq!(groups[0].key, to_hex(&digest.to_vec()));
    assert_eq!(groups[0].files.len(), 2);
}

#[test]
fn test_unique_sizes_are_pruned_before_hashing() {
    let pat = default_pattern();
    let records = vec![rec("a/one.bin", 10, 1), rec("a/two.bin", 20, 2)];
    let digest = [3u8; 16];
    let table = vec![
        digest_entry("a/one.bin", &digest),
        digest_entry("a/two.bin", &digest),
    ];
    let groups = detect_with_digests(&records, &pat, &table);
    assert!(groups.is_empty());
}

#[test]
fn test_unreadable_candidate_is_dropped() {
    let pat = default_pattern();
    let records = vec![rec("a/x.bin", 10, 1), rec("a/y.bin", 10, 2)];
    let table = vec![digest_entry("a/x.bin", &[5u8; 16])];
    let groups = detect_with_digests(&records, &pat, &table);
    assert!(groups.is_empty());
}

#[test]
fn test_every_group_has_at_least_two_files() {
    let pat = default_pattern();
    let records = vec![
        rec("cache/photo.jpg", 102400, 100),
        rec("cache/photo(1).jpg", 102400, 200),
        rec("cache/lonely.txt", 5, 7),
        rec("b/p.bin", 50, 1),
        rec("b/q.bin", 50, 2),
    ];
    let table = vec![
        digest_entry("b/p.bin", &[8u8; 16]),
        digest_entry("b/q.bin", &[8u8; 16]),
    ];
    let groups = detect_with_digests(&records, &pat, &table);
    assert_eq!(groups.len(), 2);
    for g in &groups {
        assert!(g.files.len() >= 2);
    }
}

#[test]
fn test_detection_idempotent() {
    let pat = default_pattern();
    let records = vec![
        rec("cache/photo.jpg", 102400, 100),
        rec("cache/photo(1).jpg", 102400, 200),
        rec("b/p.bin", 50, 1),
        rec("b/q.bin", 50, 2),
    ];
    let table = vec![
        digest_entry("b/p.bin", &[8u8; 16]),
        digest_entry("b/q.bin", &[8u8; 16]),
    ];
    let first = detect_with_digests(&records, &pat, &table);
    let second = detect_with_digests(&records, &pat, &table);
    assert_eq!(first, second);
}

#[test]
fn test_invalid_pattern_is_rejected() {
    assert!(Pattern::new(r"foo(bar").is_none());
    assert!(Pattern::new(r"\(\d+\)\.[a-zA-Z0-9]+$").is_some());
}

#[test]
fn test_find_start_reports_match_offset() {
    let pat = default_pattern();
    assert_eq!(pat.find_start(&b"photo(1).jpg".to_vec()), Some(5));
    assert_eq!(pat.find_start(&b"photo.jpg".to_vec()), None);
}

#[test]
fn test_digest_matches_known_md5() {
    let digest = digest_bytes(&b"Hello, world!".to_vec());
    assert_eq!(
        to_hex(&digest),
        b"6cd3556deb0da54bca060b4c39479839".to_vec()
    );
}

#[test]
fn test_streaming_digest_equals_whole_buffer() {
    let mut hasher = ContentHasher::new();
    hasher.update(b"Hello, ");
    hasher.update(b"world!");
    let streamed = hasher.finalize();
    let whole = digest_bytes(&b"Hello, world!".to_vec());
    assert_eq!(streamed, whole);
    assert_eq!(streamed.len(), 16);
}

#[test]
fn test_buffer_size_tiers() {
    assert_eq!(buffer_size_for(0), 8192);
    assert_eq!(buffer_size_for(1048575), 8192);
    assert_eq!(buffer_size_for(1048576), 32768);
    assert_eq!(buffer_size_for(u64::MAX), 32768);
}

#[test]
fn test_to_hex_lowercase_pairs() {
    assert_eq!(to_hex(&vec![0x00, 0xff, 0x1a]), b"00ff1a".to_vec());
    assert_eq!(to_hex(&Vec::new()), Vec::<u8>::new());
}
