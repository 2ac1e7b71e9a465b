//! Nintendo 3DS cartridge images (CCI): the NCSD header, the main NCCH partition, and the
//! regions whose SHA-256 hashes prove that the partition's content is decrypted.
use vstd::prelude::*;

use crate::error::{PipelineError, Result};
use crate::numbers::{hex, hex_chars};
use crate::text::{append_chars, chars_of, lit, string_of};

verus! {

/// The size of a media unit, in which NCSD and NCCH headers give offsets and sizes.
pub const MEDIA_UNIT: u64 = 0x200;

/// Where the flags of an NCCH header lie, from the start of the partition.
pub const FLAGS_OFFSET: u64 = 0x188;

/// The stable identity of a cartridge's main NCCH partition.
#[derive(Clone, Debug, PartialEq, Eq)]
pub struct CciIdentity {
    pub title_id: String,
    pub partition_offset: u64,
    pub partition_size: u64,
}

/// A cartridge whose main partition was proved decrypted.
#[derive(Clone, Debug, PartialEq, Eq)]
pub struct CciInspection {
    pub title_id: String,
    pub partition_offset: u64,
    pub flags: [u8; 8],
    pub verified_regions: usize,
}

/// Checks a cartridge after its crypto flags were normalized: it is marked decrypted and
/// keeps the title ID it had before.
pub fn check_normalized(before: &CciInspection, after: &CciInspection) -> (r: Result<()>)
    ensures
        r is Ok <==> ((after.flags@[7] & 0x04) != 0 && after.title_id@ == before.title_id@),
        r matches Err(e) ==> (e matches PipelineError::Message(m) && m@
            == "normalized 3DS cartridge identity or crypto flags are invalid"@),
{
    if !after.is_marked_decrypted() || !crate::text::chars_eq(
        &chars_of(after.title_id.as_str()),
        &chars_of(before.title_id.as_str()),
    ) {
        return Err(crate::error::message("normalized 3DS cartridge identity or crypto flags are invalid"));
    }
    Ok(())
}

impl CciInspection {
    /// Whether the flags mark the content as not encrypted (`NoCrypto`).
    pub fn is_marked_decrypted(&self) -> (r: bool)
        ensures
            r == (self.flags@[7] & 0x04 != 0),
    {
        self.flags[7] & 0x04 != 0
    }

    /// The flags of a decrypted partition: no crypto method, and `NoCrypto` set with the
    /// fixed-key flag and the seed flag cleared.
    pub fn normalized_flags(&self) -> (r: [u8; 8])
        ensures
            r@[0] == self.flags@[0],
            r@[1] == self.flags@[1],
            r@[2] == self.flags@[2],
            r@[3] == 0,
            r@[4] == self.flags@[4],
            r@[5] == self.flags@[5],
            r@[6] == self.flags@[6],
            r@[7] == (self.flags@[7] & !0x21u8) | 0x04u8,
    {
        let f = self.flags;
        [f[0], f[1], f[2], 0, f[4], f[5], f[6], (f[7] & !0x21u8) | 0x04u8]
    }

    /// Where in the image the two flags that `normalized_flags` changes lie.
    pub fn flag_offsets(&self) -> (r: [u64; 2])
        requires
            self.partition_offset + FLAGS_OFFSET + 7 <= u64::MAX,
        ensures
            r@[0] == self.partition_offset + FLAGS_OFFSET + 3,
            r@[1] == self.partition_offset + FLAGS_OFFSET + 7,
    {
        [self.partition_offset + FLAGS_OFFSET + 3, self.partition_offset + FLAGS_OFFSET + 7]
    }
}

/// The upper-case hexadecimal digits of a number, without leading zeros (`{:X}`).
pub open spec fn hex_number(n: nat) -> Seq<char>
    decreases n,
{
    if n < 16 {
        seq![crate::numbers::hex_digit(n as int, true)]
    } else {
        hex_number(n / 16).push(crate::numbers::hex_digit((n % 16) as int, true))
    }
}

/// The upper-case hexadecimal digits of a number.
pub fn hex_text(n: u64) -> (r: Vec<char>)
    ensures
        r@ == hex_number(n as nat),
    decreases n,
{
    let byte = [(n % 16) as u8];
    let digits = hex(&byte, true);
    proof {
        let b = seq![(n % 16) as u8];
        assert(b.drop_last() =~= Seq::<u8>::empty());
        assert(hex_chars(b.drop_last(), true) =~= Seq::<char>::empty());
        assert(hex_chars(b, true) =~= seq![
            crate::numbers::hex_digit((b.last() / 16) as int, true),
            crate::numbers::hex_digit((b.last() % 16) as int, true),
        ]);
        assert(byte@ =~= b);
    }
    let last = digits[1];
    if n < 16 {
        vec![last]
    } else {
        let mut r = hex_text(n / 16);
        r.push(last);
        r
    }
}

/// Checks that a section `[offset, offset + size)` lies within `[0, end)`.
pub fn ensure_range(offset: u64, size: u64, end: u64, name: &str) -> (r: Result<()>)
    ensures
        offset + size > u64::MAX ==> (r matches Err(PipelineError::Message(m)) && m@ == name@
            + " range overflows"@),
        offset + size <= u64::MAX && offset + size > end ==> (r matches Err(
            PipelineError::Message(m),
        ) && m@ == name@ + " extends beyond its containing image"@),
        offset + size <= end ==> r is Ok,
{
    let range_end = match offset.checked_add(size) {
        Some(e) => e,
        None => {
            let mut m = chars_of(name);
            append_chars(&mut m, &lit(" range overflows"));
            return Err(PipelineError::Message(string_of(&m)));
        },
    };
    if range_end > end {
        let mut m = chars_of(name);
        append_chars(&mut m, &lit(" extends beyond its containing image"));
        return Err(PipelineError::Message(string_of(&m)));
    }
    Ok(())
}

/// The little-endian number of four bytes.
pub open spec fn le32(b: Seq<u8>, at: int) -> u32 {
    (b[at] as int + b[at + 1] as int * 0x100 + b[at + 2] as int * 0x10000 + b[at + 3] as int
        * 0x1000000) as u32
}

/// The little-endian number of four bytes at `at`.
fn read_le32(b: &[u8], at: usize) -> (r: u32)
    requires
        at + 4 <= b@.len(),
    ensures
        r == le32(b@, at as int),
{
    let v = b[at] as u32 + b[at + 1] as u32 * 0x100 + b[at + 2] as u32 * 0x10000 + b[at + 3] as u32
        * 0x1000000;
    v
}

/// Four bytes at `at` equal a magic text.
pub open spec fn magic_at(b: Seq<u8>, at: int, magic: Seq<u8>) -> bool {
    b.subrange(at, at + 4) == magic
}

/// Whether four bytes at `at` equal a magic text.
fn has_magic(b: &[u8], at: usize, magic: &[u8; 4]) -> (r: bool)
    requires
        at + 4 <= b@.len(),
    ensures
        r == magic_at(b@, at as int, magic@),
{
    let r = b[at] == magic[0] && b[at + 1] == magic[1] && b[at + 2] == magic[2] && b[at + 3]
        == magic[3];
    assert(r == (b@.subrange(at as int, at + 4) =~= magic@));
    r
}

/// The bytes of `NCSD`.
pub open spec fn ncsd_magic() -> Seq<u8> {
    seq![0x4eu8, 0x43u8, 0x53u8, 0x44u8]
}

/// The bytes of `NCCH`.
pub open spec fn ncch_magic() -> Seq<u8> {
    seq![0x4eu8, 0x43u8, 0x43u8, 0x48u8]
}

/// Where the main partition of a cartridge lies, from its NCSD header (the image's first
/// bytes), or the message of the first problem.
pub open spec fn spec_partition(ncsd: Seq<u8>, file_size: u64) -> core::result::Result<
    (u64, u64),
    Seq<char>,
> {
    if !magic_at(ncsd, 0x100, ncsd_magic()) {
        Err("invalid NCSD magic at 0x100"@)
    } else {
        let units = le32(ncsd, 0x120);
        let size_units = le32(ncsd, 0x124);
        if units == 0 || size_units == 0 {
            Err("CCI has no main NCCH partition"@)
        } else {
            let offset = units as int * 0x200;
            let size = size_units as int * 0x200;
            if offset + size > file_size {
                Err("main NCCH extends beyond its containing image"@)
            } else {
                Ok((offset as u64, size as u64))
            }
        }
    }
}

/// Where the main partition of a cartridge lies, from the image's first bytes.
pub fn main_partition(ncsd: &[u8], file_size: u64) -> (r: Result<(u64, u64)>)
    requires
        ncsd@.len() >= 0x128,
    ensures
        match spec_partition(ncsd@, file_size) {
            Ok(p) => r == Ok::<(u64, u64), PipelineError>(p),
            Err(msg) => r matches Err(PipelineError::Message(m)) && m@ == msg,
        },
{
    let magic: [u8; 4] = [0x4e, 0x43, 0x53, 0x44];
    assert(magic@ =~= ncsd_magic());
    if !has_magic(ncsd, 0x100, &magic) {
        return Err(PipelineError::Message("invalid NCSD magic at 0x100".to_owned()));
    }
    let units = read_le32(ncsd, 0x120);
    let size_units = read_le32(ncsd, 0x124);
    if units == 0 || size_units == 0 {
        return Err(PipelineError::Message("CCI has no main NCCH partition".to_owned()));
    }
    let offset = units as u64 * MEDIA_UNIT;
    let size = size_units as u64 * MEDIA_UNIT;
    match ensure_range(offset, size, file_size, "main NCCH") {
        Ok(()) => {},
        Err(e) => {
            proof {
                reveal_strlit("main NCCH");
                reveal_strlit(" extends beyond its containing image");
                reveal_strlit("main NCCH extends beyond its containing image");
            }
            assert("main NCCH"@ + " extends beyond its containing image"@
                =~= "main NCCH extends beyond its containing image"@);
            return Err(e);
        },
    }
    Ok((offset, size))
}

/// The eight bytes of a title ID, most significant first.
pub open spec fn reversed8(b: Seq<u8>, at: int) -> Seq<u8> {
    seq![b[at + 7], b[at + 6], b[at + 5], b[at + 4], b[at + 3], b[at + 2], b[at + 1], b[at]]
}

/// The identity of the main partition, from its first 0x200 bytes.
pub open spec fn spec_identity(ncch: Seq<u8>, offset: u64) -> core::result::Result<
    Seq<char>,
    Seq<char>,
> {
    if !magic_at(ncch, 0x100, ncch_magic()) {
        Err("invalid NCCH magic at 0x"@ + hex_number((offset + 0x100) as nat))
    } else {
        Ok(hex_chars(reversed8(ncch, 0x118), true))
    }
}

/// The identity of a cartridge's main partition, from the partition's first 0x200 bytes.
pub fn partition_identity(ncch: &[u8], partition_offset: u64, partition_size: u64) -> (r: Result<
    CciIdentity,
>)
    requires
        ncch@.len() >= 0x200,
        partition_offset + 0x100 <= u64::MAX,
    ensures
        match spec_identity(ncch@, partition_offset) {
            Ok(id) => r matches Ok(x) && x.title_id@ == id && x.partition_offset
                == partition_offset && x.partition_size == partition_size,
            Err(msg) => r matches Err(PipelineError::Message(m)) && m@ == msg,
        },
{
    let magic: [u8; 4] = [0x4e, 0x43, 0x43, 0x48];
    assert(magic@ =~= ncch_magic());
    if !has_magic(ncch, 0x100, &magic) {
        let mut m = lit("invalid NCCH magic at 0x");
        append_chars(&mut m, &hex_text(partition_offset + 0x100));
        return Err(PipelineError::Message(string_of(&m)));
    }
    let id = [
        ncch[0x11f],
        ncch[0x11e],
        ncch[0x11d],
        ncch[0x11c],
        ncch[0x11b],
        ncch[0x11a],
        ncch[0x119],
        ncch[0x118],
    ];
    assert(id@ =~= reversed8(ncch@, 0x118));
    let digits = hex(&id, true);
    Ok(CciIdentity { title_id: string_of(&digits), partition_offset, partition_size })
}

/// A hashed region of the main partition: where its expected hash lies and where its data
/// lies, both from the start of the image.
#[derive(Clone, Debug, PartialEq, Eq)]
pub struct Region {
    pub name: String,
    pub hash_offset: u64,
    pub data_offset: u64,
    pub size: u64,
}

/// One step of an inspection: verify a region's hash, or fail.
#[derive(Clone, Debug, PartialEq, Eq)]
pub enum RegionStep {
    Verify(Region),
    Fail(PipelineError),
}

/// A region of the partition that must lie within it.
pub open spec fn region_fits(offset: int, size: int, partition_offset: u64, partition_size: u64) -> bool {
    offset + size <= partition_offset + partition_size
}

/// The steps that prove a partition decrypted, from its first 0x200 bytes: the extended
/// header when it has one, the ExeFS (which must be hashed), and the RomFS when it has one.
/// A region beyond the partition, or a missing ExeFS hash, ends the steps with a failure.
pub fn inspection_steps(ncch: &[u8], partition_offset: u64, partition_size: u64) -> (r: Vec<
    RegionStep,
>)
    requires
        ncch@.len() >= 0x200,
        partition_offset < 0x1_0000_0000 * 0x200,
        partition_size < 0x1_0000_0000 * 0x200,
    ensures
        ({
            let ext = le32(ncch@, 0x180) as int;
            let exe_units = le32(ncch@, 0x1a8) as int;
            let exe_at = partition_offset + le32(ncch@, 0x1a0) as int * 0x200;
            let rom_units = le32(ncch@, 0x1b8) as int;
            let rom_at = partition_offset + le32(ncch@, 0x1b0) as int * 0x200;
            let ext_step = ext > 0;
            let k = if ext_step {
                1int
            } else {
                0int
            };
            &&& ext_step ==> (if region_fits(partition_offset + 0x200, ext, partition_offset, partition_size) {
                r@[0] matches RegionStep::Verify(g) && g.name@ == "extended header"@
                    && g.hash_offset == partition_offset + 0x160 && g.data_offset
                    == partition_offset + 0x200 && g.size == ext
            } else {
                r@.len() == 1 && (r@[0] matches RegionStep::Fail(PipelineError::Message(m)) && m@
                    == "extended header extends beyond its containing image"@)
            })
            &&& (!ext_step || region_fits(partition_offset + 0x200, ext, partition_offset, partition_size)) ==> (if exe_units == 0 {
                r@.len() == k + 1 && (r@[k] matches RegionStep::Fail(PipelineError::Message(m))
                    && m@ == "main NCCH has no verifiable ExeFS hash region"@)
            } else if !region_fits(exe_at, exe_units * 0x200, partition_offset, partition_size) {
                r@.len() == k + 1 && (r@[k] matches RegionStep::Fail(PipelineError::Message(m))
                    && m@ == "ExeFS extends beyond its containing image"@)
            } else {
                &&& r@[k] matches RegionStep::Verify(g) && g.name@ == "ExeFS"@ && g.hash_offset
                    == partition_offset + 0x1c0 && g.data_offset == exe_at && g.size == exe_units
                    * 0x200
                &&& if rom_units == 0 {
                    r@.len() == k + 1
                } else if !region_fits(rom_at, rom_units * 0x200, partition_offset, partition_size) {
                    r@.len() == k + 2 && (r@[k + 1] matches RegionStep::Fail(
                        PipelineError::Message(m),
                    ) && m@ == "RomFS extends beyond its containing image"@)
                } else {
                    r@.len() == k + 2 && (r@[k + 1] matches RegionStep::Verify(g) && g.name@
                        == "RomFS"@ && g.hash_offset == partition_offset + 0x1e0 && g.data_offset
                        == rom_at && g.size == rom_units * 0x200)
                }
            })
        }),
{
    let end = partition_offset + partition_size;
    let mut steps: Vec<RegionStep> = Vec::new();
    let ext = read_le32(ncch, 0x180) as u64;
    if ext > 0 {
        match ensure_range(partition_offset + 0x200, ext, end, "extended header") {
            Ok(()) => {
                steps.push(
                    RegionStep::Verify(
                        Region {
                            name: "extended header".to_owned(),
                            hash_offset: partition_offset + 0x160,
                            data_offset: partition_offset + 0x200,
                            size: ext,
                        },
                    ),
                );
            },
            Err(e) => {
                proof {
                    reveal_strlit("extended header");
                    reveal_strlit(" extends beyond its containing image");
                    reveal_strlit("extended header extends beyond its containing image");
                }
                assert("extended header"@ + " extends beyond its containing image"@
                    =~= "extended header extends beyond its containing image"@);
                steps.push(RegionStep::Fail(e));
                return steps;
            },
        }
    }
    let exe_units = read_le32(ncch, 0x1a8) as u64;
    if exe_units == 0 {
        steps.push(
            RegionStep::Fail(
                PipelineError::Message("main NCCH has no verifiable ExeFS hash region".to_owned()),
            ),
        );
        return steps;
    }
    let exe_at = partition_offset + read_le32(ncch, 0x1a0) as u64 * MEDIA_UNIT;
    match ensure_range(exe_at, exe_units * MEDIA_UNIT, end, "ExeFS") {
        Ok(()) => {
            steps.push(
                RegionStep::Verify(
                    Region {
                        name: "ExeFS".to_owned(),
                        hash_offset: partition_offset + 0x1c0,
                        data_offset: exe_at,
                        size: exe_units * MEDIA_UNIT,
                    },
                ),
            );
        },
        Err(e) => {
            proof {
                reveal_strlit("ExeFS");
                reveal_strlit(" extends beyond its containing image");
                reveal_strlit("ExeFS extends beyond its containing image");
            }
            assert("ExeFS"@ + " extends beyond its containing image"@
                =~= "ExeFS extends beyond its containing image"@);
            steps.push(RegionStep::Fail(e));
            return steps;
        },
    }
    let rom_units = read_le32(ncch, 0x1b8) as u64;
    if rom_units > 0 {
        let rom_at = partition_offset + read_le32(ncch, 0x1b0) as u64 * MEDIA_UNIT;
        match ensure_range(rom_at, rom_units * MEDIA_UNIT, end, "RomFS") {
            Ok(()) => {
                steps.push(
                    RegionStep::Verify(
                        Region {
                            name: "RomFS".to_owned(),
                            hash_offset: partition_offset + 0x1e0,
                            data_offset: rom_at,
                            size: rom_units * MEDIA_UNIT,
                        },
                    ),
                );
            },
            Err(e) => {
                proof {
                    reveal_strlit("RomFS");
                    reveal_strlit(" extends beyond its containing image");
                    reveal_strlit("RomFS extends beyond its containing image");
                }
                assert("RomFS"@ + " extends beyond its containing image"@
                    =~= "RomFS extends beyond its containing image"@);
                steps.push(RegionStep::Fail(e));
            },
        }
    }
    steps
}

/// Whether two byte sequences are equal.
pub fn bytes_equal(a: &[u8], b: &[u8]) -> (r: bool)
    ensures
        r == (a@ == b@),
{
    if a.len() != b.len() {
        return false;
    }
    let mut i: usize = 0;
    while i < a.len()
        invariant
            i <= a@.len(),
            a@.len() == b@.len(),
            forall|j: int| 0 <= j < i ==> a@[j] == b@[j],
        decreases a@.len() - i,
    {
        if a[i] != b[i] {
            return false;
        }
        i += 1;
    }
    assert(a@ =~= b@);
    true
}

/// Checks a region's computed hash against the hash its header records.
pub fn check_region_hash(name: &str, actual: &[u8], expected: &[u8]) -> (r: Result<()>)
    ensures
        actual@ == expected@ ==> r is Ok,
        actual@ != expected@ ==> (r matches Err(PipelineError::Message(m)) && m@
            == "main NCCH "@ + name@ + " hash mismatch; content is encrypted or corrupt"@),
{
    if bytes_equal(actual, expected) {
        Ok(())
    } else {
        let mut m = lit("main NCCH ");
        append_chars(&mut m, &chars_of(name));
        append_chars(&mut m, &lit(" hash mismatch; content is encrypted or corrupt"));
        Err(PipelineError::Message(string_of(&m)))
    }
}

/// Checks a region's hash: the SHA-256 digest of the region's bytes, fed to `stream`,
/// against the hash its header records.
pub fn check_region(name: &str, stream: crate::digest::Sha256Stream, expected: &[u8]) -> (r: Result<()>)
    ensures
        r is Ok <==> crate::digest::spec_sha256(crate::digest::stream_bytes(stream)) == expected@,
        r is Err ==> (r matches Err(PipelineError::Message(m)) && m@ == "main NCCH "@ + name@
            + " hash mismatch; content is encrypted or corrupt"@),
{
    let actual = stream.finish();
    check_region_hash(name, &actual, expected)
}

/// The inspection of a partition whose regions were all verified.
pub fn inspection(identity: CciIdentity, ncch: &[u8], verified_regions: usize) -> (r: CciInspection)
    requires
        ncch@.len() >= 0x200,
    ensures
        r.title_id == identity.title_id,
        r.partition_offset == identity.partition_offset,
        r.flags@ == ncch@.subrange(0x188, 0x190),
        r.verified_regions == verified_regions,
{
    let flags = [
        ncch[0x188],
        ncch[0x189],
        ncch[0x18a],
        ncch[0x18b],
        ncch[0x18c],
        ncch[0x18d],
        ncch[0x18e],
        ncch[0x18f],
    ];
    assert(flags@ =~= ncch@.subrange(0x188, 0x190));
    CciInspection {
        title_id: identity.title_id,
        partition_offset: identity.partition_offset,
        flags,
        verified_regions,
    }
}

/// A size rounded up to the CIA's 64-byte alignment.
pub open spec fn align64(x: int) -> int {
    (x + 63) / 64 * 64
}

/// Where a CIA's title metadata starts: after its header, certificate chain and ticket,
/// each starting on a 64-byte boundary. The header holds their sizes, little-endian, at
/// 0, 8 and 0xC.
pub open spec fn spec_cia_tmd_offset(header: Seq<u8>) -> int {
    align64(align64(align64(le32(header, 0) as int) + le32(header, 8) as int) + le32(header, 0xc) as int)
}

/// Where a CIA's title metadata starts, from the CIA's first 0x20 bytes.
pub fn cia_tmd_offset(header: &[u8]) -> (r: u64)
    requires
        header@.len() >= 0x20,
    ensures
        r == spec_cia_tmd_offset(header@),
{
    let h = read_le32(header, 0) as u64;
    let cert = read_le32(header, 8) as u64;
    let ticket = read_le32(header, 0xc) as u64;
    let a = (h + 63) / 64 * 64;
    let b = (a + cert + 63) / 64 * 64;
    (b + ticket + 63) / 64 * 64
}

/// Where the title ID lies in title metadata, from its signature type (big-endian at its
/// start): past the signature, its padding, and 0x4C bytes of the header.
pub open spec fn spec_tmd_title_offset(sig: Seq<u8>) -> Option<int> {
    let t = sig[0] as int * 0x1000000 + sig[1] as int * 0x10000 + sig[2] as int * 0x100 + sig[3] as int;
    if t == 0x10000 || t == 0x10003 {
        Some(4int + 0x200 + 0x3c + 0x4c)
    } else if t == 0x10001 || t == 0x10004 {
        Some(4int + 0x100 + 0x3c + 0x4c)
    } else if t == 0x10002 || t == 0x10005 {
        Some(4int + 0x3c + 0x40 + 0x4c)
    } else {
        None
    }
}

/// Where the title ID lies in title metadata, from its first four bytes; none for an
/// unknown signature type.
pub fn tmd_title_offset(sig: &[u8]) -> (r: Option<u64>)
    requires
        sig@.len() >= 4,
    ensures
        match spec_tmd_title_offset(sig@) {
            Some(o) => r == Some(o as u64),
            None => r is None,
        },
{
    let t = sig[0] as u64 * 0x1000000 + sig[1] as u64 * 0x10000 + sig[2] as u64 * 0x100 + sig[3] as u64;
    if t == 0x10000 || t == 0x10003 {
        Some(4u64 + 0x200 + 0x3c + 0x4c)
    } else if t == 0x10001 || t == 0x10004 {
        Some(4u64 + 0x100 + 0x3c + 0x4c)
    } else if t == 0x10002 || t == 0x10005 {
        Some(4u64 + 0x3c + 0x40 + 0x4c)
    } else {
        None
    }
}

/// A title ID as the CIA stores it (eight bytes, most significant first), in upper-case
/// hexadecimal.
pub fn title_id_text(bytes: &[u8]) -> (r: String)
    requires
        bytes@.len() == 8,
    ensures
        r@ == hex_chars(bytes@, true),
{
    string_of(&hex(bytes, true))
}

/// Checks a CIA's title ID against the cartridge's.
pub fn check_cia_title(expected: &str, actual: &str) -> (r: Result<()>)
    ensures
        actual@ == expected@ ==> r is Ok,
        actual@ != expected@ ==> (r matches Err(PipelineError::Message(m)) && m@
            == "CIA title ID mismatch: expected="@ + expected@ + " actual="@ + actual@),
{
    if crate::text::chars_eq(&chars_of(actual), &chars_of(expected)) {
        return Ok(());
    }
    let mut m = lit("CIA title ID mismatch: expected=");
    append_chars(&mut m, &chars_of(expected));
    append_chars(&mut m, &lit(" actual="));
    append_chars(&mut m, &chars_of(actual));
    Err(PipelineError::Message(string_of(&m)))
}

} // verus!
