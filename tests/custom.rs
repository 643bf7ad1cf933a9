use find_binary_version::custom::get_version_in_stanzas;
use find_binary_version::{version_with_pattern, ByteSource};

const PATTERN: &str = r"U-Boot(?: SPL)? (\d+.?\.[^\s]+)";

#[test]
fn pattern_over_whole_buffer() {
    let mut src = ByteSource::new(b"U-Boot SPL 2019.04 (01/04/2019)".to_vec());
    assert_eq!(version_with_pattern(&mut src, PATTERN), Some("2019.04".to_string()));
}

#[test]
fn pattern_inside_binary_noise() {
    let mut data = vec![0u8, 0xff, 0x13, 0x00];
    data.extend_from_slice(b"U-Boot 2017.11+fslc+ga07698f (Nov 01 2017)\0\0\x01");
    let mut src = ByteSource::new(data.clone());
    assert_eq!(
        version_with_pattern(&mut src, PATTERN),
        Some("2017.11+fslc+ga07698f".to_string())
    );
    let mut src = ByteSource::new(data);
    assert_eq!(
        get_version_in_stanzas(&mut src, PATTERN),
        Some("2017.11+fslc+ga07698f".to_string())
    );
}

#[test]
fn pattern_without_match() {
    let mut src = ByteSource::new(b"nothing to see here".to_vec());
    assert_eq!(version_with_pattern(&mut src, PATTERN), None);
    let mut src = ByteSource::new(Vec::new());
    assert_eq!(version_with_pattern(&mut src, PATTERN), None);
}

#[test]
fn invalid_pattern_finds_nothing() {
    let mut src = ByteSource::new(b"U-Boot 2019.04 (x)".to_vec());
    assert_eq!(version_with_pattern(&mut src, r"U-Boot (\d+"), None);
    let mut src = ByteSource::new(b"U-Boot 2019.04 (x)".to_vec());
    assert_eq!(get_version_in_stanzas(&mut src, r"U-Boot (\d+"), None);
}

#[test]
fn stanzas_keep_the_version_apart_from_noise() {
    let data = b"version 1.2\x00\x01abc-xyz".to_vec();
    let mut src = ByteSource::new(data.clone());
    assert_eq!(
        version_with_pattern(&mut src, r"version ([^\s]+)"),
        Some("1.2\u{0}\u{1}abc-xyz".to_string())
    );
    let mut src = ByteSource::new(data);
    assert_eq!(
        get_version_in_stanzas(&mut src, r"version ([^\s]+)"),
        Some("1.2".to_string())
    );
}

#[test]
fn stanzas_pick_the_first_matching_run() {
    let mut src = ByteSource::new(b"alpha\0v=1.0\0beta v=2.5\0v=3.1".to_vec());
    assert_eq!(
        get_version_in_stanzas(&mut src, r"beta v=(\S+)"),
        Some("2.5".to_string())
    );
}

#[test]
fn pattern_reads_from_the_cursor() {
    let mut src = ByteSource::new(b"v1.0 v2.0".to_vec());
    src.seek(4);
    assert_eq!(version_with_pattern(&mut src, r"v(\d\.\d)"), Some("2.0".to_string()));
}

#[test]
fn pattern_lookup_reads_to_the_end() {
    let mut src = ByteSource::new(b"v1.0 v2.0 tail".to_vec());
    src.seek(2);
    assert_eq!(version_with_pattern(&mut src, r"v(\d\.\d)"), Some("2.0".to_string()));
    assert_eq!(src.position(), 14);
}
