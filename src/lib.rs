//! Reads the version of firmware and kernel binaries from their bytes, without
//! running them or parsing their container format in full.
//!
//! U-Boot and Linux kernel images are recognised by their own layout; other
//! formats are searched with a regular expression of the caller's.
//!
//! The one step that the library leaves to its caller is decompression: an
//! ARM zImage keeps its kernel, and its version, in a compressed payload at
//! no fixed offset. A lookup then hands back [`Lookup::Decompress`] with the
//! offset of a candidate payload, and the caller resumes the scan with what
//! decompression gave.
use vstd::prelude::*;

pub mod custom;
pub mod linuxkernel;
pub mod pattern;
pub mod source;
pub mod strings;
pub mod uboot;

pub use linuxkernel::{EmbeddedScan, LinuxKernelKind, Lookup};
pub use source::ByteSource;

verus! {

use crate::linuxkernel::{header_version, kind_of};
use crate::pattern::version_token;
use crate::source::rest;
use crate::uboot::uboot_version_from;

/// The kind of binary whose version is looked for.
#[derive(Debug, Clone, Copy, PartialEq, Eq)]
pub enum BinaryKind {
    /// A U-Boot image.
    UBoot,
    /// A Linux kernel image.
    LinuxKernel,
}

/// Whether `r` is what a lookup of `kind` comes to on the stream `d` with
/// its cursor at `at`: a U-Boot image is read in chunks from the cursor; a
/// Linux kernel image is probed by its header, and an ARM zImage scanned for
/// its compressed kernel from just past its magic number.
pub open spec fn looks_up(r: Lookup, d: Seq<u8>, at: int, kind: BinaryKind) -> bool {
    match kind {
        BinaryKind::UBoot => r.is_done_with(uboot_version_from(d, at)),
        BinaryKind::LinuxKernel => if kind_of(d) == Some(LinuxKernelKind::ARMzImage) {
            r.scans(d, 0x28)
        } else {
            r.is_done_with(header_version(d))
        },
    }
}

/// Whether two lookups stand at the same point: over with the same result,
/// or waiting on the same candidate payload.
pub open spec fn same_outcome(a: Lookup, b: Lookup) -> bool {
    match (a, b) {
        (Lookup::Done(x), Lookup::Done(y)) => x.deep_view() == y.deep_view(),
        (Lookup::Decompress(s), Lookup::Decompress(t)) => s.candidate() == t.candidate(),
        _ => false,
    }
}

/// Looks for the version of a binary of the given kind.
pub fn version(src: &mut ByteSource, kind: BinaryKind) -> (r: Lookup)
    ensures
        final(src).content() == old(src).content(),
        looks_up(r, old(src).content(), old(src).cursor() as int, kind),
{
    match kind {
        BinaryKind::LinuxKernel => linuxkernel::get_version(src),
        BinaryKind::UBoot => Lookup::Done(uboot::get_version(src)),
    }
}

/// Looks for a version with a pattern of the caller's: group 1 of its first
/// match in the stream, from the cursor to the end.
pub fn version_with_pattern(src: &mut ByteSource, pattern: &str) -> (r: Option<String>)
    ensures
        final(src).content() == old(src).content(),
        final(src).cursor() == if old(src).cursor() < old(src).content().len() {
            old(src).content().len()
        } else {
            old(src).cursor()
        },
        r.deep_view() == version_token(pattern@, rest(old(src).content(), old(src).cursor() as int)),
{
    custom::get_version(src, pattern)
}

/// A lookup keeps nothing from one call to the next: two lookups of one kind
/// on streams with the same bytes and the same cursor come to the same
/// outcome.
pub proof fn lemma_version_idempotent(
    d: Seq<u8>,
    at: int,
    kind: BinaryKind,
    first: Lookup,
    second: Lookup,
)
    requires
        looks_up(first, d, at, kind),
        looks_up(second, d, at, kind),
    ensures
        same_outcome(first, second),
{
    if kind == BinaryKind::LinuxKernel && kind_of(d) == Some(LinuxKernelKind::ARMzImage) {
        match (first, second) {
            (Lookup::Decompress(s), Lookup::Decompress(t)) => {
                assert(linuxkernel::compression_magic_at(d, s.candidate() as int));
                assert(linuxkernel::compression_magic_at(d, t.candidate() as int));
            },
            (Lookup::Decompress(s), Lookup::Done(_)) => {
                assert(linuxkernel::compression_magic_at(d, s.candidate() as int));
            },
            (Lookup::Done(_), Lookup::Decompress(t)) => {
                assert(linuxkernel::compression_magic_at(d, t.candidate() as int));
            },
            (Lookup::Done(_), Lookup::Done(_)) => {},
        }
    }
}

} // verus!
