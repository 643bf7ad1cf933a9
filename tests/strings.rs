use find_binary_version::strings::{IntoStringsIter, IsPrintable, Trailing};
use find_binary_version::ByteSource;

fn stanzas_of(bytes: &[u8]) -> Vec<String> {
    let mut runs = ByteSource::new(bytes.to_vec()).into_strings_iter();
    let mut out = Vec::new();
    while let Some(run) = runs.next() {
        out.push(run);
    }
    out
}

#[test]
fn printable() {
    assert!(!b'\0'.is_printable());
    assert!(!b'\t'.is_printable());
    assert!(!b'\n'.is_printable());
    assert!(!b'\r'.is_printable());
    assert!(!b'\x1b'.is_printable());
    assert!(b'a'.is_printable());
    assert!(b'B'.is_printable());
    assert!(b'x'.is_printable());
    assert!(b'~'.is_printable());
}

#[test]
fn iterator() {
    let bytes = ByteSource::new(b"\0\tfoobar\r\tbarfoo".to_vec());
    let mut bytes = bytes.into_strings_iter();

    assert_eq!(Some("foobar".to_string()), bytes.next());
    assert_eq!(Some("barfoo".to_string()), bytes.next());
    assert_eq!(None, bytes.next());
}

#[test]
fn printable_range_edges() {
    assert!(b' '.is_printable());
    assert!(!0x1fu8.is_printable());
    assert!(!0x7fu8.is_printable());
    assert!(!0x80u8.is_printable());
    assert!(!0xffu8.is_printable());
}

#[test]
fn run_of_three_is_dropped() {
    assert_eq!(stanzas_of(b"abc"), Vec::<String>::new());
    assert_eq!(stanzas_of(b"\0abc\0"), Vec::<String>::new());
    assert_eq!(stanzas_of(b"abc\0defg"), vec!["defg".to_string()]);
}

#[test]
fn run_of_four_is_kept() {
    assert_eq!(stanzas_of(b"abcd"), vec!["abcd".to_string()]);
    assert_eq!(stanzas_of(b"\x01abcd\x02"), vec!["abcd".to_string()]);
}

#[test]
fn empty_stream_has_no_stanza() {
    assert_eq!(stanzas_of(b""), Vec::<String>::new());
    assert_eq!(stanzas_of(b"\0\0\0\n"), Vec::<String>::new());
}

#[test]
fn long_run_and_trailing_run_at_end() {
    assert_eq!(
        stanzas_of(b"hello world\nab\x00xyz12"),
        vec!["hello world".to_string(), "xyz12".to_string()]
    );
}

#[test]
fn strings_start_at_the_cursor() {
    let mut src = ByteSource::new(b"abcdefgh\0ijkl".to_vec());
    src.seek(2);
    let mut runs = src.into_strings_iter();
    assert_eq!(runs.next(), Some("cdefgh".to_string()));
    assert_eq!(runs.next(), Some("ijkl".to_string()));
    assert_eq!(runs.next(), None);
    assert_eq!(runs.next(), None);
}

#[test]
fn trailing_holds_four_bytes() {
    let mut t = Trailing::new();
    assert!(!t.is_complete());
    assert!(!t.set(b'a'));
    assert!(!t.set(b'b'));
    assert!(!t.set(b'c'));
    assert!(t.set(b'd'));
    assert!(t.is_complete());
    assert_eq!(&t.chars(), b"abcd");
    t.reset();
    assert!(!t.is_complete());
    assert!(!t.set(b'z'));
    assert_eq!(t.chars()[0], b'z');
}

#[test]
fn trailing_slots() {
    let mut t = Trailing::new();
    assert_eq!(t.chars(), [0u8; 4]);
    assert!(!t.set(b'x'));
    assert!(!t.set(b'y'));
    assert_eq!(t.chars(), [b'x', b'y', 0, 0]);
    t.reset();
    assert_eq!(t.chars(), [b'x', b'y', 0, 0]);
    assert!(!t.set(b'q'));
    assert_eq!(t.chars(), [b'q', b'y', 0, 0]);
}

#[test]
fn strings_stop_past_the_ending_byte() {
    let mut src = ByteSource::new(b"ab\0wxyz\x01more".to_vec());
    src.seek(0);
    let mut runs = src.into_strings_iter();
    assert_eq!(runs.next(), Some("wxyz".to_string()));
    assert_eq!(runs.next(), Some("more".to_string()));
    assert_eq!(runs.next(), None);
}
