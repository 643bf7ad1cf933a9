//! Versions of Linux kernel images: uImage, ARM zImage and x86 zImage/bzImage.
use vstd::prelude::*;

use crate::pattern::{find_token, version_token};
use crate::source::{be32, le16, le32, window, ByteSource};

verus! {

/// The kinds of Linux kernel image that are told apart by their headers.
#[derive(Debug, Clone, Copy, PartialEq, Eq)]
pub enum LinuxKernelKind {
    /// An ARM zImage: the kernel is compressed behind a decompression stub.
    ARMzImage,
    /// A U-Boot legacy image.
    UImage,
    /// An x86 bzImage, loaded high.
    X86bzImage,
    /// An x86 zImage, loaded low.
    X86zImage,
}

/// The magic number at the start of a U-Boot legacy image, big-endian.
pub const UIMAGE_MAGIC_NUMBER: u32 = 0x2705_1956;

/// The magic number of an ARM zImage, little-endian at offset 0x24.
pub const ARM_ZIMAGE_MAGIC_NUMBER: u32 = 0x016F_2818;

/// The x86 boot sector signature, little-endian at offset 0x1FE.
pub const BOOT_FLAG_MAGIC: u16 = 0xAA55;

/// A kernel version number: digits, an optional character, a dot, then
/// anything up to whitespace or NUL.
pub const KERNEL_VERSION_PATTERN: &'static str = r"(?P<version>\d+.?\.[^\s\u{0}]+)";

/// The banner of a decompressed kernel, with its version token.
pub const LINUX_BANNER_PATTERN: &'static str = r"Linux version (?P<version>\S+).*";

/// The signature of a gzip stream.
pub const GZIP_MAGIC: [u8; 3] = [0x1f, 0x8b, 0x08];

/// The signature of an xz stream.
pub const XZ_MAGIC: [u8; 6] = [0xfd, 0x37, 0x7a, 0x58, 0x5a, 0x00];

/// The signature of a bzip2 stream.
pub const BZIP2_MAGIC: [u8; 3] = [0x42, 0x5a, 0x68];

/// The signature of an lzma stream.
pub const LZMA_MAGIC: [u8; 3] = [0x5d, 0x00, 0x00];

/// The signature of an lzo stream.
pub const LZO_MAGIC: [u8; 3] = [0x89, 0x4c, 0x5a];

/// The signature of a legacy lz4 stream.
pub const LZ4_MAGIC: [u8; 4] = [0x02, 0x21, 0x4c, 0x18];

/// The signature of a zstd stream.
pub const ZSTD_MAGIC: [u8; 4] = [0x28, 0xb5, 0x2f, 0xfd];

/// The kind of kernel image that `d` holds, probed in order: the uImage
/// magic, then the ARM zImage magic, then the x86 boot flag and the loadflags
/// bit. A field that lies past the end fails the whole probe.
pub open spec fn kind_of(d: Seq<u8>) -> Option<LinuxKernelKind> {
    if d.len() < 4 {
        None
    } else if be32(d, 0) == UIMAGE_MAGIC_NUMBER {
        Some(LinuxKernelKind::UImage)
    } else if d.len() < 0x28 {
        None
    } else if le32(d, 0x24) == ARM_ZIMAGE_MAGIC_NUMBER {
        Some(LinuxKernelKind::ARMzImage)
    } else if d.len() < 0x200 || le16(d, 0x1FE) != BOOT_FLAG_MAGIC || d.len() < 0x212 {
        None
    } else if d[0x211] & 1 == 0 {
        Some(LinuxKernelKind::X86zImage)
    } else {
        Some(LinuxKernelKind::X86bzImage)
    }
}

/// Where an x86 image keeps its version string: the `kernel_version` pointer
/// at 0x20E plus 0x200, provided the pointer lies below `setup_sects`
/// (at 0x1F1) sectors of 512 bytes.
pub open spec fn x86_version_at(d: Seq<u8>) -> Option<int> {
    if d.len() < 0x210 || le16(d, 0x20E) >= d[0x1F1] * 512 {
        None
    } else {
        Some(le16(d, 0x20E) + 0x200)
    }
}

/// The version of an image whose version string lies at a place that its
/// header gives: the first 512 bytes of a uImage, or the 512 bytes at the
/// kernel_version pointer of an x86 image.
pub open spec fn header_version(d: Seq<u8>) -> Option<Seq<char>> {
    match kind_of(d) {
        Some(LinuxKernelKind::UImage) => version_token(KERNEL_VERSION_PATTERN@, window(d, 0, 512)),
        Some(LinuxKernelKind::X86zImage) | Some(LinuxKernelKind::X86bzImage) => match x86_version_at(
            d,
        ) {
            Some(at) => version_token(KERNEL_VERSION_PATTERN@, window(d, at, 512)),
            None => None,
        },
        _ => None,
    }
}

/// Whether `s` holds the bytes of `magic` from position `at` on.
pub open spec fn starts_with_at(s: Seq<u8>, at: int, magic: Seq<u8>) -> bool {
    0 <= at && at + magic.len() <= s.len() && s.subrange(at, at + magic.len()) == magic
}

/// Whether one of the seven compression signatures starts at `at`.
pub open spec fn compression_magic_at(s: Seq<u8>, at: int) -> bool {
    ||| starts_with_at(s, at, GZIP_MAGIC@)
    ||| starts_with_at(s, at, XZ_MAGIC@)
    ||| starts_with_at(s, at, BZIP2_MAGIC@)
    ||| starts_with_at(s, at, LZMA_MAGIC@)
    ||| starts_with_at(s, at, LZO_MAGIC@)
    ||| starts_with_at(s, at, LZ4_MAGIC@)
    ||| starts_with_at(s, at, ZSTD_MAGIC@)
}

/// Whether no compression signature starts in `[from, to)`.
pub open spec fn no_candidate_between(s: Seq<u8>, from: int, to: int) -> bool {
    forall|k: int| from <= k < to ==> !#[trigger] compression_magic_at(s, k)
}

/// Whether `at` is the first offset from `from` on where a compression
/// signature starts.
pub open spec fn first_candidate(s: Seq<u8>, from: int, at: int) -> bool {
    from <= at < s.len() && compression_magic_at(s, at) && no_candidate_between(s, from, at)
}

/// The version that a decompressed payload shows in its banner; nothing
/// where decompression failed.
pub open spec fn payload_version(payload: Option<Seq<u8>>) -> Option<Seq<char>> {
    match payload {
        Some(bytes) => version_token(LINUX_BANNER_PATTERN@, bytes),
        None => None,
    }
}

/// Where a version lookup stands.
pub enum Lookup {
    /// The lookup is over, with its result.
    Done(Option<String>),
    /// The lookup goes on once the stream has been decompressed from the
    /// scan's offset to its end.
    Decompress(EmbeddedScan),
}

impl Lookup {
    /// The lookup is over with the result `v`.
    pub open spec fn is_done_with(&self, v: Option<Seq<char>>) -> bool {
        match self {
            Lookup::Done(r) => r.deep_view() == v,
            Lookup::Decompress(_) => false,
        }
    }

    /// The lookup scans `d` from `from` on: it asks for the first candidate
    /// there, or is over with nothing found where there is none.
    pub open spec fn scans(&self, d: Seq<u8>, from: int) -> bool {
        match self {
            Lookup::Done(r) => r is None && no_candidate_between(d, from, d.len() as int),
            Lookup::Decompress(scan) => first_candidate(d, from, scan.candidate() as int),
        }
    }
}

/// A scan for a compressed kernel inside an image, stopped at a candidate
/// offset where a compression signature starts.
///
/// Every offset from where the scan starts is examined once, in order; a
/// signature is seen wherever it lies, as the whole image is addressed
/// directly and no read window cuts it apart. A failed attempt leaves the
/// scan where it was, and it goes on from the next offset.
pub struct EmbeddedScan {
    at: u64,
}

impl EmbeddedScan {
    /// The offset where the payload to decompress starts.
    pub closed spec fn candidate(&self) -> nat {
        self.at as nat
    }

    /// The offset where the payload to decompress starts.
    pub fn offset(&self) -> (r: u64)
        ensures
            r == self.candidate(),
    {
        self.at
    }

    /// Starts a scan of `src` at the absolute position `from`.
    pub fn start(src: &ByteSource, from: u64) -> (r: Lookup)
        ensures
            r.scans(src.content(), from as int),
    {
        let data = src.bytes_from(0);
        assert(data@ =~= src.content());
        match next_candidate(data, from) {
            Some(at) => Lookup::Decompress(EmbeddedScan { at }),
            None => Lookup::Done(None),
        }
    }

    /// Goes on once the payload at the candidate offset was decompressed
    /// (`Some`) or could not be (`None`): the version in its banner ends the
    /// lookup; otherwise the scan moves on past the candidate.
    pub fn resume(self, src: &ByteSource, payload: Option<Vec<u8>>) -> (r: Lookup)
        ensures
            payload_version(payload.deep_view()) is Some ==> r.is_done_with(
                payload_version(payload.deep_view()),
            ),
            payload_version(payload.deep_view()) is None ==> r.scans(
                src.content(),
                self.candidate() + 1int,
            ),
    {
        let found = match payload {
            Some(bytes) => {
                assert(bytes.deep_view() =~= bytes@);
                find_token(LINUX_BANNER_PATTERN, bytes.as_slice())
            },
            None => None,
        };
        match found {
            Some(v) => Lookup::Done(Some(v)),
            None => {
                if self.at >= src.len() {
                    return Lookup::Done(None);
                }
                EmbeddedScan::start(src, self.at + 1)
            },
        }
    }
}

/// Whether `data` holds the bytes of `magic` from `at` on.
fn matches_at(data: &[u8], at: usize, magic: &[u8]) -> (r: bool)
    ensures
        r == starts_with_at(data@, at as int, magic@),
{
    if at > data.len() || magic.len() > data.len() - at {
        return false;
    }
    let len = data.len();
    let mut k: usize = 0;
    while k < magic.len()
        invariant
            len == data@.len(),
            at + magic@.len() <= data@.len(),
            k <= magic@.len(),
            forall|j: int| 0 <= j < k ==> data@[at + j] == magic@[j],
        decreases magic@.len() - k,
    {
        if data[at + k] != magic[k] {
            assert(data@.subrange(at as int, at + magic@.len())[k as int] != magic@[k as int]);
            return false;
        }
        k += 1;
    }
    assert(data@.subrange(at as int, at + magic@.len()) =~= magic@);
    true
}

/// Whether one of the seven compression signatures starts at `at`.
pub fn has_compression_magic(data: &[u8], at: usize) -> (r: bool)
    ensures
        r == compression_magic_at(data@, at as int),
{
    matches_at(data, at, GZIP_MAGIC.as_slice()) || matches_at(data, at, XZ_MAGIC.as_slice())
        || matches_at(data, at, BZIP2_MAGIC.as_slice()) || matches_at(
        data,
        at,
        LZMA_MAGIC.as_slice(),
    ) || matches_at(data, at, LZO_MAGIC.as_slice()) || matches_at(data, at, LZ4_MAGIC.as_slice())
        || matches_at(data, at, ZSTD_MAGIC.as_slice())
}

/// The first offset from `from` on where a compression signature starts.
pub fn next_candidate(data: &[u8], from: u64) -> (r: Option<u64>)
    ensures
        r matches Some(at) ==> first_candidate(data@, from as int, at as int),
        r is None ==> no_candidate_between(data@, from as int, data@.len() as int),
{
    let len = data.len();
    if from >= len as u64 {
        return None;
    }
    let mut at = from as usize;
    while at < len
        invariant
            len == data@.len(),
            from <= at <= len,
            no_candidate_between(data@, from as int, at as int),
        decreases len - at,
    {
        if has_compression_magic(data, at) {
            return Some(at as u64);
        }
        at += 1;
    }
    None
}

/// Probes the magic numbers of a Linux kernel image, in order: uImage at 0,
/// ARM zImage at 0x24, then the x86 boot flag at 0x1FE and the loadflags at
/// 0x211. Any field that cannot be read fails the probe.
pub fn discover_linux_kernel_kind(src: &mut ByteSource) -> (r: Option<LinuxKernelKind>)
    ensures
        final(src).content() == old(src).content(),
        r == kind_of(old(src).content()),
        r == Some(LinuxKernelKind::UImage) ==> final(src).cursor() == 4,
        r == Some(LinuxKernelKind::ARMzImage) ==> final(src).cursor() == 0x28,
{
    src.seek(0x0000);
    if src.read_u32_be()? == UIMAGE_MAGIC_NUMBER {
        return Some(LinuxKernelKind::UImage);
    }
    src.seek(0x0024);
    if src.read_u32_le()? == ARM_ZIMAGE_MAGIC_NUMBER {
        return Some(LinuxKernelKind::ARMzImage);
    }
    src.seek(0x01FE);
    if src.read_u16_le()? != BOOT_FLAG_MAGIC {
        return None;
    }
    src.seek(0x0211);
    let loadflags = src.read_u8()?;
    if loadflags & 1 == 0 {
        Some(LinuxKernelKind::X86zImage)
    } else {
        Some(LinuxKernelKind::X86bzImage)
    }
}

/// Where an x86 image keeps its version string; `None` where the pointer
/// does not lie below `setup_sects` sectors or a field cannot be read.
pub fn x86_version_offset(src: &mut ByteSource) -> (r: Option<u64>)
    ensures
        final(src).content() == old(src).content(),
        r is Some <==> x86_version_at(old(src).content()) is Some,
        r matches Some(at) ==> x86_version_at(old(src).content()) == Some(at as int),
{
    src.seek(0x01F1);
    let setup_sects = src.read_u8();
    src.seek(0x020E);
    let kernel_version_ptr = src.read_u16_le();
    match (setup_sects, kernel_version_ptr) {
        (Some(sects), Some(ptr)) => {
            if ptr as u64 >= sects as u64 * 0x200 {
                None
            } else {
                Some(ptr as u64 + 0x200)
            }
        },
        _ => None,
    }
}

/// Reads up to 512 bytes at `at` and finds a kernel version number in them.
fn version_at(src: &mut ByteSource, at: u64) -> (r: Option<String>)
    ensures
        final(src).content() == old(src).content(),
        r.deep_view() == version_token(
            KERNEL_VERSION_PATTERN@,
            window(old(src).content(), at as int, 512),
        ),
{
    src.seek(at);
    let buffer = src.read(0x200);
    find_token(KERNEL_VERSION_PATTERN, buffer.as_slice())
}

/// Looks for the version of a Linux kernel image. The version of a uImage or
/// an x86 image is read where its header says; an ARM zImage is scanned for
/// its compressed kernel from just past its magic number.
pub fn get_version(src: &mut ByteSource) -> (r: Lookup)
    ensures
        final(src).content() == old(src).content(),
        kind_of(old(src).content()) == Some(LinuxKernelKind::ARMzImage) ==> r.scans(
            old(src).content(),
            0x28,
        ),
        kind_of(old(src).content()) != Some(LinuxKernelKind::ARMzImage) ==> r.is_done_with(
            header_version(old(src).content()),
        ),
{
    match discover_linux_kernel_kind(src) {
        None => Lookup::Done(None),
        Some(LinuxKernelKind::ARMzImage) => {
            let from = src.position();
            EmbeddedScan::start(src, from)
        },
        Some(LinuxKernelKind::UImage) => Lookup::Done(version_at(src, 0)),
        Some(LinuxKernelKind::X86bzImage) | Some(LinuxKernelKind::X86zImage) => {
            match x86_version_offset(src) {
                Some(at) => Lookup::Done(version_at(src, at)),
                None => Lookup::Done(None),
            }
        },
    }
}

/// An x86 image whose kernel_version pointer is not below `setup_sects`
/// sectors of 512 bytes has no version; a pointer right at that bound fails
/// too.
pub proof fn lemma_pointer_out_of_setup_fails(d: Seq<u8>)
    requires
        kind_of(d) == Some(LinuxKernelKind::X86zImage) || kind_of(d) == Some(
            LinuxKernelKind::X86bzImage,
        ),
        le16(d, 0x20E) >= d[0x1F1] * 512,
    ensures
        x86_version_at(d) is None,
        header_version(d) is None,
{
}

/// In an x86 image whose kernel_version pointer lies below `setup_sects`
/// sectors, the version is read from the 512 bytes that start 0x200 past the
/// pointer.
pub proof fn lemma_x86_version_location(d: Seq<u8>)
    requires
        kind_of(d) == Some(LinuxKernelKind::X86zImage) || kind_of(d) == Some(
            LinuxKernelKind::X86bzImage,
        ),
        le16(d, 0x20E) < d[0x1F1] * 512,
    ensures
        header_version(d) == version_token(
            KERNEL_VERSION_PATTERN@,
            window(d, le16(d, 0x20E) + 0x200, 512),
        ),
{
}

/// A stream without the uImage magic at 0, without the ARM zImage magic at
/// 0x24, and without the boot flag 0xAA55 at 0x1FE (or too short to hold any
/// of them) is no kernel image the library knows, and has no version.
pub proof fn lemma_unrecognised_image(d: Seq<u8>)
    requires
        d.len() < 4 || be32(d, 0) != UIMAGE_MAGIC_NUMBER,
        d.len() < 0x28 || le32(d, 0x24) != ARM_ZIMAGE_MAGIC_NUMBER,
        d.len() < 0x200 || le16(d, 0x1FE) != BOOT_FLAG_MAGIC,
    ensures
        kind_of(d) is None,
        header_version(d) is None,
{
}

} // verus!
