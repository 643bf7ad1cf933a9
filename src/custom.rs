//! Versions found by a pattern of the caller's.
use vstd::prelude::*;

use crate::pattern::{capture_in_text, find_token, text_capture, version_token};
use crate::source::{rest, ByteSource};
use crate::strings::{ascii_text, stanzas, IntoStringsIter};

verus! {

/// What `pattern` captures in the first of `runs` in which it matches, each
/// run taken as text.
pub open spec fn first_run_match(pattern: Seq<char>, runs: Seq<Seq<u8>>) -> Option<Seq<char>>
    decreases runs.len(),
{
    if runs.len() == 0 {
        None
    } else {
        match text_capture(pattern, ascii_text(runs[0])) {
            Some(v) => Some(v),
            None => first_run_match(pattern, runs.drop_first()),
        }
    }
}

/// Reads the whole stream from its cursor on and returns group 1 of the first
/// match of `pattern` in those bytes; the cursor ends at the end of the stream.
pub fn get_version(src: &mut ByteSource, pattern: &str) -> (r: Option<String>)
    ensures
        final(src).content() == old(src).content(),
        final(src).cursor() == if old(src).cursor() < old(src).content().len() {
            old(src).content().len()
        } else {
            old(src).cursor()
        },
        r.deep_view() == version_token(
            pattern@,
            rest(old(src).content(), old(src).cursor() as int),
        ),
{
    let buffer = src.read_to_end();
    find_token(pattern, buffer.as_slice())
}

/// Reads the whole stream from its cursor on, splits it into printable runs
/// of at least four characters, and returns group 1 of `pattern` in the first
/// run in which it matches. Binary noise around a version then cannot join it.
pub fn get_version_in_stanzas(src: &mut ByteSource, pattern: &str) -> (r: Option<String>)
    ensures
        final(src).content() == old(src).content(),
        final(src).cursor() == if old(src).cursor() < old(src).content().len() {
            old(src).content().len()
        } else {
            old(src).cursor()
        },
        r.deep_view() == first_run_match(
            pattern@,
            stanzas(rest(old(src).content(), old(src).cursor() as int)),
        ),
{
    let buffer = src.read_to_end();
    let ghost all = buffer@;
    let mut runs = ByteSource::new(buffer).into_strings_iter();
    assert(runs.remaining() =~= all);
    loop
        invariant
            src.content() == old(src).content(),
            src.cursor() == if old(src).cursor() < old(src).content().len() {
                old(src).content().len()
            } else {
                old(src).cursor()
            },
            all == rest(old(src).content(), old(src).cursor() as int),
            first_run_match(pattern@, stanzas(all)) == first_run_match(
                pattern@,
                stanzas(runs.remaining()),
            ),
        decreases runs.remaining().len(),
    {
        match runs.next() {
            None => {
                return None;
            },
            Some(run) => {
                let found = capture_in_text(pattern, run.as_str());
                if found.is_some() {
                    return found;
                }
            },
        }
    }
}

} // verus!
