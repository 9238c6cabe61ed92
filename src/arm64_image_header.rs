//! The fixed 64-byte header at the start of an ARM64 Linux kernel image.
//!
//! Layout (all integers little-endian): branch code (8 bytes), text offset
//! (u64), effective image size (u64), flags (u64), three reserved u64 words,
//! the magic `"ARM\x64"` (4 bytes) and one reserved 4-byte field.

use vstd::prelude::*;
use crate::error::ExtractError;

verus! {

/// Byte length of the header.
pub const HEADER_LEN: usize = 64;

/// The magic signature `"ARM\x64"` as it appears in the image.
pub open spec fn arm64_magic() -> Seq<u8> {
    seq![0x41u8, 0x52u8, 0x4du8, 0x64u8]
}

/// The little-endian u64 stored in `b[off .. off + 8]`.
pub open spec fn le_u64(b: Seq<u8>, off: int) -> u64 {
    (b[off] as u64)
        | ((b[off + 1] as u64) << 8u64)
        | ((b[off + 2] as u64) << 16u64)
        | ((b[off + 3] as u64) << 24u64)
        | ((b[off + 4] as u64) << 32u64)
        | ((b[off + 5] as u64) << 40u64)
        | ((b[off + 6] as u64) << 48u64)
        | ((b[off + 7] as u64) << 56u64)
}

/// The eight little-endian bytes of `x`.
pub open spec fn le_bytes(x: u64) -> Seq<u8> {
    seq![
        (x & 0xff) as u8,
        ((x >> 8u64) & 0xff) as u8,
        ((x >> 16u64) & 0xff) as u8,
        ((x >> 24u64) & 0xff) as u8,
        ((x >> 32u64) & 0xff) as u8,
        ((x >> 40u64) & 0xff) as u8,
        ((x >> 48u64) & 0xff) as u8,
        ((x >> 56u64) & 0xff) as u8,
    ]
}

/// Byte order of the kernel image (bit 0 of the flags word).
#[derive(Debug, Clone, Copy, PartialEq, Eq, Structural)]
pub enum Endianness {
    Little,
    Big,
}

/// Page size the kernel was built for (bits 1-2 of the flags word).
#[derive(Debug, Clone, Copy, PartialEq, Eq, Structural)]
pub enum PageSize {
    Unspecified,
    Size4K,
    Size16K,
    Size64K,
}

/// Physical placement policy of the kernel (bit 3 of the flags word).
#[derive(Debug, Clone, Copy, PartialEq, Eq, Structural)]
pub enum PhysicalPlacement {
    /// "2MB aligned base should be as close as possible to the base of DRAM,
    /// since memory below it is not accessible via the linear mapping"
    A,
    /// "2MB aligned base such that all image_size bytes counted from the start
    /// of the image are within the 48-bit addressable range of physical memory"
    B,
}

/// The kernel flags word, split into its fields from the least significant
/// bit up: endianness (1 bit), page size (2 bits), physical placement
/// (1 bit), reserved (60 bits).
#[derive(Debug, Clone, Copy, PartialEq, Eq, Structural)]
pub struct Flags {
    pub endianness: Endianness,
    pub page_size: PageSize,
    pub physical_placement: PhysicalPlacement,
    /// The upper 60 bits of the word, shifted down to bit 0.
    pub reserved: u64,
}

pub open spec fn endianness_of_bit(b: u64) -> Endianness {
    if b == 0 { Endianness::Little } else { Endianness::Big }
}

pub open spec fn page_size_of_bits(b: u64) -> PageSize {
    if b == 0 {
        PageSize::Unspecified
    } else if b == 1 {
        PageSize::Size4K
    } else if b == 2 {
        PageSize::Size16K
    } else {
        PageSize::Size64K
    }
}

pub open spec fn placement_of_bit(b: u64) -> PhysicalPlacement {
    if b == 0 { PhysicalPlacement::A } else { PhysicalPlacement::B }
}

impl Endianness {
    pub open spec fn bit(self) -> u64 {
        match self {
            Endianness::Little => 0,
            Endianness::Big => 1,
        }
    }
}

impl PageSize {
    pub open spec fn bits(self) -> u64 {
        match self {
            PageSize::Unspecified => 0,
            PageSize::Size4K => 1,
            PageSize::Size16K => 2,
            PageSize::Size64K => 3,
        }
    }
}

impl PhysicalPlacement {
    pub open spec fn bit(self) -> u64 {
        match self {
            PhysicalPlacement::A => 0,
            PhysicalPlacement::B => 1,
        }
    }
}

impl Flags {
    /// The reserved field fits in its 60 bits.
    pub open spec fn wf(self) -> bool {
        self.reserved < 0x1000_0000_0000_0000
    }

    /// The fields of the word `w`.
    pub open spec fn spec_from_bits(w: u64) -> Flags {
        Flags {
            endianness: endianness_of_bit(w & 1),
            page_size: page_size_of_bits((w >> 1u64) & 3),
            physical_placement: placement_of_bit((w >> 3u64) & 1),
            reserved: w >> 4u64,
        }
    }

    /// The word that holds these fields.
    pub open spec fn spec_to_bits(self) -> u64 {
        self.endianness.bit() | (self.page_size.bits() << 1u64) | (self.physical_placement.bit()
            << 3u64) | (self.reserved << 4u64)
    }

    /// Splits a flags word into its fields.
    pub fn from_bits(w: u64) -> (r: Flags)
        ensures
            r == Flags::spec_from_bits(w),
            r.wf(),
    {
        let endianness = if w & 1 == 0 {
            Endianness::Little
        } else {
            Endianness::Big
        };
        let ps = (w >> 1u64) & 3;
        let page_size = if ps == 0 {
            PageSize::Unspecified
        } else if ps == 1 {
            PageSize::Size4K
        } else if ps == 2 {
            PageSize::Size16K
        } else {
            PageSize::Size64K
        };
        let physical_placement = if (w >> 3u64) & 1 == 0 {
            PhysicalPlacement::A
        } else {
            PhysicalPlacement::B
        };
        assert(w >> 4u64 < 0x1000_0000_0000_0000u64) by (bit_vector);
        Flags { endianness, page_size, physical_placement, reserved: w >> 4u64 }
    }

    /// Packs the fields back into a flags word.
    pub fn to_bits(&self) -> (r: u64)
        requires
            self.wf(),
        ensures
            r == self.spec_to_bits(),
    {
        let e: u64 = match self.endianness {
            Endianness::Little => 0,
            Endianness::Big => 1,
        };
        let p: u64 = match self.page_size {
            PageSize::Unspecified => 0,
            PageSize::Size4K => 1,
            PageSize::Size16K => 2,
            PageSize::Size64K => 3,
        };
        let q: u64 = match self.physical_placement {
            PhysicalPlacement::A => 0,
            PhysicalPlacement::B => 1,
        };
        e | (p << 1u64) | (q << 3u64) | (self.reserved << 4u64)
    }
}

/// Splitting any 64-bit word into flags and packing them again gives back the
/// same word, reserved bits included.
pub proof fn lemma_flags_word_round_trip(w: u64)
    ensures
        Flags::spec_from_bits(w).spec_to_bits() == w,
        Flags::spec_from_bits(w).wf(),
{
    let e = w & 1;
    let p = (w >> 1u64) & 3;
    let q = (w >> 3u64) & 1;
    assert(e == 0 || e == 1) by (bit_vector)
        requires
            e == w & 1,
    ;
    assert(q == 0 || q == 1) by (bit_vector)
        requires
            q == (w >> 3u64) & 1,
    ;
    assert(p < 4) by (bit_vector)
        requires
            p == (w >> 1u64) & 3,
    ;
    assert(endianness_of_bit(e).bit() == e);
    assert(page_size_of_bits(p).bits() == p);
    assert(placement_of_bit(q).bit() == q);
    assert(e | (p << 1u64) | (q << 3u64) | ((w >> 4u64) << 4u64) == w) by (bit_vector)
        requires
            e == w & 1,
            p == (w >> 1u64) & 3,
            q == (w >> 3u64) & 1,
    ;
    assert(w >> 4u64 < 0x1000_0000_0000_0000u64) by (bit_vector);
}

/// Packing well-formed flags into a word and splitting it again gives back
/// the same fields: no field, reserved bits included, is altered.
pub proof fn lemma_flags_fields_round_trip(f: Flags)
    requires
        f.wf(),
    ensures
        Flags::spec_from_bits(f.spec_to_bits()) == f,
{
    let e = f.endianness.bit();
    let p = f.page_size.bits();
    let q = f.physical_placement.bit();
    let r = f.reserved;
    let w = f.spec_to_bits();
    assert(w & 1 == e && (w >> 1u64) & 3 == p && (w >> 3u64) & 1 == q && w >> 4u64 == r)
        by (bit_vector)
        requires
            w == e | (p << 1u64) | (q << 3u64) | (r << 4u64),
            e <= 1,
            p <= 3,
            q <= 1,
            r < 0x1000_0000_0000_0000u64,
    ;
}

/// A decoded ARM64 kernel image header. The magic is checked on decoding and
/// not stored; the three reserved words before it are skipped.
#[derive(Debug)]
pub struct Arm64ImageHeader {
    /// Executable code responsible for branching to "stext".
    pub code: [u8; 8],
    /// Image load offset.
    pub text_offset: u64,
    /// Effective image size.
    pub image_size: u64,
    /// Kernel flags.
    pub flags: Flags,
    /// Reserved (used for the PE COFF offset).
    pub res5: [u8; 4],
}

impl Arm64ImageHeader {
    /// `self` holds exactly the fields stored in the first 64 bytes of `b`.
    pub open spec fn decodes_from(self, b: Seq<u8>) -> bool {
        &&& b.len() >= 64
        &&& self.code@ == b.subrange(0, 8)
        &&& self.text_offset == le_u64(b, 8)
        &&& self.image_size == le_u64(b, 16)
        &&& self.flags == Flags::spec_from_bits(le_u64(b, 24))
        &&& self.res5@ == b.subrange(60, 64)
    }

    /// The 64 bytes that encode `self`, with the reserved words zeroed.
    pub open spec fn spec_encode(self) -> Seq<u8> {
        self.code@ + le_bytes(self.text_offset) + le_bytes(self.image_size) + le_bytes(
            self.flags.spec_to_bits(),
        ) + Seq::new(24, |i: int| 0u8) + arm64_magic() + self.res5@
    }

    /// Decodes the header at the start of `b`.
    pub fn parse(b: &[u8]) -> (r: Result<Arm64ImageHeader, ExtractError>)
        ensures
            b@.len() < 64 ==> r == Err::<Arm64ImageHeader, ExtractError>(
                ExtractError::MalformedHeader,
            ),
            b@.len() >= 64 && b@.subrange(56, 60) != arm64_magic() ==> r == Err::<
                Arm64ImageHeader,
                ExtractError,
            >(ExtractError::BadMagic),
            b@.len() >= 64 && b@.subrange(56, 60) == arm64_magic() ==> r is Ok,
            r matches Ok(h) ==> h.decodes_from(b@) && h.flags.wf(),
    {
        if b.len() < HEADER_LEN {
            return Err(ExtractError::MalformedHeader);
        }
        if !(b[56] == 0x41 && b[57] == 0x52 && b[58] == 0x4d && b[59] == 0x64) {
            proof {
                if b@.subrange(56, 60) == arm64_magic() {
                    assert(b@.subrange(56, 60)[0] == b@[56]);
                    assert(b@.subrange(56, 60)[1] == b@[57]);
                    assert(b@.subrange(56, 60)[2] == b@[58]);
                    assert(b@.subrange(56, 60)[3] == b@[59]);
                }
            }
            return Err(ExtractError::BadMagic);
        }
        assert(b@.subrange(56, 60) =~= arm64_magic());
        let code = [b[0], b[1], b[2], b[3], b[4], b[5], b[6], b[7]];
        let res5 = [b[60], b[61], b[62], b[63]];
        assert(code@ =~= b@.subrange(0, 8));
        assert(res5@ =~= b@.subrange(60, 64));
        let text_offset = read_le_u64(b, 8);
        let image_size = read_le_u64(b, 16);
        let flags = Flags::from_bits(read_le_u64(b, 24));
        Ok(Arm64ImageHeader { code, text_offset, image_size, flags, res5 })
    }

    /// Encodes the header as its 64 bytes, writing the magic and zeros in
    /// the reserved words.
    pub fn to_bytes(&self) -> (r: Vec<u8>)
        requires
            self.flags.wf(),
        ensures
            r@ == self.spec_encode(),
    {
        let mut out: Vec<u8> = Vec::new();
        let mut i: usize = 0;
        while i < 8
            invariant
                i <= 8,
                out@ == self.code@.subrange(0, i as int),
            decreases 8 - i,
        {
            out.push(self.code[i]);
            assert(out@ =~= self.code@.subrange(0, i + 1));
            i = i + 1;
        }
        assert(out@ =~= self.code@);
        push_le_u64(&mut out, self.text_offset);
        push_le_u64(&mut out, self.image_size);
        push_le_u64(&mut out, self.flags.to_bits());
        let ghost before = out@;
        let mut j: usize = 0;
        while j < 24
            invariant
                j <= 24,
                out@ == before + Seq::new(j as nat, |k: int| 0u8),
            decreases 24 - j,
        {
            out.push(0);
            assert(out@ =~= before + Seq::new((j + 1) as nat, |k: int| 0u8));
            j = j + 1;
        }
        out.push(0x41);
        out.push(0x52);
        out.push(0x4d);
        out.push(0x64);
        out.push(self.res5[0]);
        out.push(self.res5[1]);
        out.push(self.res5[2]);
        out.push(self.res5[3]);
        assert(out@ =~= self.spec_encode());
        out
    }
}

/// Reads the little-endian u64 at `b[off .. off + 8]`.
fn read_le_u64(b: &[u8], off: usize) -> (r: u64)
    requires
        off + 8 <= b@.len(),
    ensures
        r == le_u64(b@, off as int),
{
    (b[off] as u64) | ((b[off + 1] as u64) << 8u64) | ((b[off + 2] as u64) << 16u64) | ((b[off
        + 3] as u64) << 24u64) | ((b[off + 4] as u64) << 32u64) | ((b[off + 5] as u64) << 40u64)
        | ((b[off + 6] as u64) << 48u64) | ((b[off + 7] as u64) << 56u64)
}

/// Appends the eight little-endian bytes of `x` to `out`.
fn push_le_u64(out: &mut Vec<u8>, x: u64)
    ensures
        final(out)@ == old(out)@ + le_bytes(x),
{
    out.push((x & 0xff) as u8);
    out.push(((x >> 8u64) & 0xff) as u8);
    out.push(((x >> 16u64) & 0xff) as u8);
    out.push(((x >> 24u64) & 0xff) as u8);
    out.push(((x >> 32u64) & 0xff) as u8);
    out.push(((x >> 40u64) & 0xff) as u8);
    out.push(((x >> 48u64) & 0xff) as u8);
    out.push(((x >> 56u64) & 0xff) as u8);
    assert(final(out)@ =~= old(out)@ + le_bytes(x));
}

/// Reading a u64 back from its eight little-endian bytes gives the same value.
pub proof fn lemma_le_bytes_then_u64(x: u64)
    ensures
        le_u64(le_bytes(x), 0) == x,
{
    assert(((x & 0xff) as u8 as u64) | ((((x >> 8u64) & 0xff) as u8 as u64) << 8u64) | ((((x
        >> 16u64) & 0xff) as u8 as u64) << 16u64) | ((((x >> 24u64) & 0xff) as u8 as u64)
        << 24u64) | ((((x >> 32u64) & 0xff) as u8 as u64) << 32u64) | ((((x >> 40u64) & 0xff) as u8
        as u64) << 40u64) | ((((x >> 48u64) & 0xff) as u8 as u64) << 48u64) | ((((x >> 56u64)
        & 0xff) as u8 as u64) << 56u64) == x) by (bit_vector);
}

/// Writing the u64 read from eight bytes gives back those bytes.
pub proof fn lemma_u64_then_le_bytes(b: Seq<u8>, off: int)
    requires
        0 <= off,
        off + 8 <= b.len(),
    ensures
        le_bytes(le_u64(b, off)) == b.subrange(off, off + 8),
{
    let b0 = b[off];
    let b1 = b[off + 1];
    let b2 = b[off + 2];
    let b3 = b[off + 3];
    let b4 = b[off + 4];
    let b5 = b[off + 5];
    let b6 = b[off + 6];
    let b7 = b[off + 7];
    let x = le_u64(b, off);
    assert((x & 0xff) as u8 == b0 && ((x >> 8u64) & 0xff) as u8 == b1 && ((x >> 16u64) & 0xff) as u8
        == b2 && ((x >> 24u64) & 0xff) as u8 == b3 && ((x >> 32u64) & 0xff) as u8 == b4 && ((x
        >> 40u64) & 0xff) as u8 == b5 && ((x >> 48u64) & 0xff) as u8 == b6 && ((x >> 56u64)
        & 0xff) as u8 == b7) by (bit_vector)
        requires
            x == (b0 as u64) | ((b1 as u64) << 8u64) | ((b2 as u64) << 16u64) | ((b3 as u64)
                << 24u64) | ((b4 as u64) << 32u64) | ((b5 as u64) << 40u64) | ((b6 as u64)
                << 48u64) | ((b7 as u64) << 56u64),
    ;
    assert(le_bytes(x) =~= b.subrange(off, off + 8));
}

/// Decoding a header and encoding it again reproduces the branch code, the
/// text offset, the image size, the flags word, the magic and the last
/// reserved field bit for bit, and the encoding decodes to the same header.
pub proof fn lemma_header_round_trip(b: Seq<u8>, h: Arm64ImageHeader)
    requires
        h.decodes_from(b),
        b.subrange(56, 60) == arm64_magic(),
    ensures
        h.spec_encode().len() == 64,
        h.spec_encode().subrange(0, 32) == b.subrange(0, 32),
        h.spec_encode().subrange(56, 64) == b.subrange(56, 64),
        h.decodes_from(h.spec_encode()),
{
    let e = h.spec_encode();
    lemma_u64_then_le_bytes(b, 8);
    lemma_u64_then_le_bytes(b, 16);
    lemma_u64_then_le_bytes(b, 24);
    lemma_flags_word_round_trip(le_u64(b, 24));
    assert(e.subrange(0, 32) =~= b.subrange(0, 32)) by {
        assert forall|i: int| 0 <= i < 32 implies e[i] == b[i] by {
            if i < 8 {
            } else if i < 16 {
                assert(b.subrange(8, 16)[i - 8] == b[i]);
            } else if i < 24 {
                assert(b.subrange(16, 24)[i - 16] == b[i]);
            } else {
                assert(b.subrange(24, 32)[i - 24] == b[i]);
            }
        }
    }
    assert(e.subrange(56, 64) =~= b.subrange(56, 64)) by {
        assert forall|i: int| 56 <= i < 64 implies e[i] == b[i] by {
            if i < 60 {
                assert(b.subrange(56, 60)[i - 56] == b[i]);
            } else {
                assert(b.subrange(60, 64)[i - 60] == b[i]);
            }
        }
    }
    lemma_le_bytes_then_u64(h.text_offset);
    lemma_le_bytes_then_u64(h.image_size);
    lemma_le_bytes_then_u64(h.flags.spec_to_bits());
    lemma_flags_fields_round_trip(h.flags);
    assert(e.subrange(8, 16) =~= le_bytes(h.text_offset));
    assert(e.subrange(16, 24) =~= le_bytes(h.image_size));
    assert(e.subrange(24, 32) =~= le_bytes(h.flags.spec_to_bits()));
    assert(le_u64(e, 8) == le_u64(e.subrange(8, 16), 0));
    assert(le_u64(e, 16) == le_u64(e.subrange(16, 24), 0));
    assert(le_u64(e, 24) == le_u64(e.subrange(24, 32), 0));
    assert(e.subrange(0, 8) =~= h.code@);
    assert(e.subrange(60, 64) =~= h.res5@);
}

} // verus!
