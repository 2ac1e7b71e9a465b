//! PlayStation 2 disc images: a logical DVD image of 2048-byte sectors, or a raw CD image
//! of 2352-byte Mode 2 sectors, told apart by where the primary volume descriptor lies.
use vstd::prelude::*;

use crate::error::PipelineError;
use crate::numbers::{decimal, decimal_chars};
use crate::text::{append_chars, chars_of, lit, string_of};

verus! {

/// The size of a logical DVD sector.
pub const LOGICAL_SECTOR: u64 = 2048;

/// The size of a raw CD sector.
pub const RAW_SECTOR: u64 = 2352;

/// Where the `CD001` magic of the primary volume descriptor lies in a raw CD image.
pub const RAW_PVD_MAGIC_OFFSET: u64 = 16 * 2352 + 25;

/// Where the `CD001` magic of the primary volume descriptor lies in a logical image.
pub const LOGICAL_PVD_MAGIC_OFFSET: u64 = 16 * 2048 + 1;

/// The sector layout of a disc image.
#[derive(Clone, Copy, Debug, PartialEq, Eq)]
pub enum DiscFormat {
    DvdLogical,
    CdMode2Raw,
}

/// The name of a layout.
pub open spec fn format_name(f: DiscFormat) -> Seq<char> {
    match f {
        DiscFormat::DvdLogical => "dvd-logical-2048"@,
        DiscFormat::CdMode2Raw => "cd-mode2-2352"@,
    }
}

impl DiscFormat {
    /// The name of the layout.
    pub fn as_str(self) -> (r: &'static str)
        ensures
            r@ == format_name(self),
    {
        match self {
            DiscFormat::DvdLogical => "dvd-logical-2048",
            DiscFormat::CdMode2Raw => "cd-mode2-2352",
        }
    }
}

/// The bytes of `CD001`.
pub open spec fn pvd_magic() -> Seq<u8> {
    seq![0x43u8, 0x44u8, 0x30u8, 0x30u8, 0x31u8]
}

/// Whether five bytes are the `CD001` magic.
pub fn is_pvd_magic(b: &[u8]) -> (r: bool)
    ensures
        r == (b@ == pvd_magic()),
{
    let r = b.len() == 5 && b[0] == 0x43 && b[1] == 0x44 && b[2] == 0x30 && b[3] == 0x30 && b[4]
        == 0x31;
    assert(r == (b@ =~= pvd_magic()));
    r
}

/// Whether a raw image must be checked: its size is a whole number of raw sectors.
pub open spec fn raw_candidate(size: u64) -> bool {
    size % RAW_SECTOR == 0
}

/// Whether a logical image must be checked: its size is a whole number of logical sectors.
pub open spec fn logical_candidate(size: u64) -> bool {
    size % LOGICAL_SECTOR == 0
}

/// The layout of an image of `size` bytes: raw when its size fits raw sectors and the
/// magic lies at the raw place, else logical when its size fits logical sectors and the
/// magic lies at the logical place, else none.
pub open spec fn spec_classify(size: u64, raw_magic: bool, logical_magic: bool) -> Option<DiscFormat> {
    if raw_candidate(size) && raw_magic {
        Some(DiscFormat::CdMode2Raw)
    } else if logical_candidate(size) && logical_magic {
        Some(DiscFormat::DvdLogical)
    } else {
        None
    }
}

/// Whether an image of this size could be a raw image (the raw magic is then read).
pub fn is_raw_candidate(size: u64) -> (r: bool)
    ensures
        r == raw_candidate(size),
{
    size % RAW_SECTOR == 0
}

/// Whether an image of this size could be a logical image.
pub fn is_logical_candidate(size: u64) -> (r: bool)
    ensures
        r == logical_candidate(size),
{
    size % LOGICAL_SECTOR == 0
}

/// The layout of an image, from its size and where the magic was found.
pub fn classify(size: u64, raw_magic: bool, logical_magic: bool) -> (r: Option<DiscFormat>)
    ensures
        r == spec_classify(size, raw_magic, logical_magic),
{
    if size % RAW_SECTOR == 0 && raw_magic {
        Some(DiscFormat::CdMode2Raw)
    } else if size % LOGICAL_SECTOR == 0 && logical_magic {
        Some(DiscFormat::DvdLogical)
    } else {
        None
    }
}

/// A raw Mode 2 sector: the sync pattern (`00`, ten `FF`, `00`) and mode byte 2.
pub open spec fn mode2_sector(s: Seq<u8>) -> bool {
    &&& s[0] == 0
    &&& forall|i: int| 1 <= i < 11 ==> s[i] == 0xff
    &&& s[11] == 0
    &&& s[15] == 2
}

/// Checks that the sector at `index` of a raw image is a Mode 2 sector.
pub fn check_mode2_sector(sector: &[u8], index: u64) -> (r: Result<(), PipelineError>)
    requires
        sector@.len() >= 16,
    ensures
        mode2_sector(sector@) ==> r is Ok,
        !mode2_sector(sector@) ==> (r matches Err(PipelineError::Message(m)) && m@
            == "raw CD contains a non-Mode-2 sector at index "@ + decimal_chars(index as nat)
            + "; a trusted cue is required"@),
{
    let mut valid = sector[0] == 0 && sector[11] == 0 && sector[15] == 2;
    let mut i: usize = 1;
    while i < 11
        invariant
            1 <= i <= 11,
            sector@.len() >= 16,
            valid == (sector@[0] == 0 && sector@[11] == 0 && sector@[15] == 2 && forall|j: int|
                1 <= j < i ==> sector@[j] == 0xff),
        decreases 11 - i,
    {
        if sector[i] != 0xff {
            valid = false;
        }
        i += 1;
    }
    if valid {
        Ok(())
    } else {
        let mut m = lit("raw CD contains a non-Mode-2 sector at index ");
        append_chars(&mut m, &decimal(index));
        append_chars(&mut m, &lit("; a trusted cue is required"));
        Err(PipelineError::Message(string_of(&m)))
    }
}

/// The error of an image whose layout is not known.
pub fn unsupported_layout(path: &str) -> (r: PipelineError)
    ensures
        r matches PipelineError::Message(m) && m@ == "unsupported or ambiguous PS2 disc layout: "@
            + path@,
{
    let mut m = lit("unsupported or ambiguous PS2 disc layout: ");
    append_chars(&mut m, &chars_of(path));
    PipelineError::Message(string_of(&m))
}

} // verus!
