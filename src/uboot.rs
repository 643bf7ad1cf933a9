//! Versions of U-Boot images, read from their banner.
use vstd::prelude::*;

use crate::custom::first_run_match;
use crate::pattern::{capture_in_text, find_token, version_token};
use crate::source::{rest, window, ByteSource};
use crate::strings::{stanzas, IntoStringsIter};

verus! {

/// The U-Boot banner: `U-Boot`, optionally ` SPL`, the version token, then
/// optionally a date in parentheses.
pub const UBOOT_VERSION_PATTERN: &'static str =
    r"U-Boot(?: SPL)? (?P<version>\d+.?\.[^\s]+)(?: \(.*\))?";

/// The version of a U-Boot image read in chunks of 512 bytes from `at` on:
/// the first chunk that holds the banner gives it.
pub open spec fn uboot_version_from(d: Seq<u8>, at: int) -> Option<Seq<char>>
    decreases d.len() - at,
{
    if at >= d.len() {
        None
    } else {
        match version_token(UBOOT_VERSION_PATTERN@, window(d, at, 512)) {
            Some(v) => Some(v),
            None => if at + 512 < d.len() {
                uboot_version_from(d, at + 512)
            } else {
                None
            },
        }
    }
}

/// Reads the stream in chunks of 512 bytes from its cursor on, until the
/// banner is found in one of them or the stream ends.
pub fn get_version(src: &mut ByteSource) -> (r: Option<String>)
    ensures
        final(src).content() == old(src).content(),
        r.deep_view() == uboot_version_from(old(src).content(), old(src).cursor() as int),
{
    let ghost d = src.content();
    loop
        invariant
            src.content() == d,
            d == old(src).content(),
            uboot_version_from(d, old(src).cursor() as int) == uboot_version_from(
                d,
                src.cursor() as int,
            ),
        decreases d.len() - src.cursor(),
    {
        let ghost at = src.cursor() as int;
        let buffer = src.read(0x200);
        if buffer.len() == 0 {
            return None;
        }
        let found = find_token(UBOOT_VERSION_PATTERN, buffer.as_slice());
        if found.is_some() {
            return found;
        }
    }
}

/// Splits the stream into printable runs from its cursor on, and finds the
/// banner in the first run that holds it; padding that breaks the banner
/// across a chunk boundary does not hide it here.
pub fn get_version_in_stanzas(src: &mut ByteSource) -> (r: Option<String>)
    ensures
        final(src).content() == old(src).content(),
        final(src).cursor() == if old(src).cursor() < old(src).content().len() {
            old(src).content().len()
        } else {
            old(src).cursor()
        },
        r.deep_view() == first_run_match(
            UBOOT_VERSION_PATTERN@,
            stanzas(rest(old(src).content(), old(src).cursor() as int)),
        ),
{
    let buffer = src.read_to_end();
    let ghost all = buffer@;
    let mut runs = ByteSource::new(buffer).into_strings_iter();
    assert(runs.remaining() =~= all);
    loop
        invariant
            src.content() == old(src).content(),
            src.cursor() == if old(src).cursor() < old(src).content().len() {
                old(src).content().len()
            } else {
                old(src).cursor()
            },
            all == rest(old(src).content(), old(src).cursor() as int),
            first_run_match(UBOOT_VERSION_PATTERN@, stanzas(all)) == first_run_match(
                UBOOT_VERSION_PATTERN@,
                stanzas(runs.remaining()),
            ),
        decreases runs.remaining().len(),
    {
        match runs.next() {
            None => {
                return None;
            },
            Some(run) => {
                let found = capture_in_text(UBOOT_VERSION_PATTERN, run.as_str());
                if found.is_some() {
                    return found;
                }
            },
        }
    }
}

} // verus!
