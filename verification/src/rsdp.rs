//! The two tags that carry a copy of the ACPI Root System Description
//! Pointer (RSDP): one for ACPI 1.0, one for ACPI 2.0 and later.
//!
//! A boot loader copies the structure as the firmware gave it. Its signature
//! and its checksum are to be checked before its addresses are trusted.

use crate::bytes::{
    lemma_u32_le_encode, lemma_u64_le_encode, u32_from_le, u32_from_le_bytes, u32_le_bytes,
    u32_to_le, u64_from_le, u64_from_le_bytes, u64_le_bytes, u64_to_le,
};
use crate::checksum::{
    lemma_changed_byte_breaks_checksum, lemma_checksum_byte_exists, sums_to_zero, wrapping_sum,
};
use crate::tag::{TagHeader, TagTrait, HEADER_SIZE};
use crate::utf8::{decodes_to, parse_utf8, Utf8DecodeError};
use vstd::arithmetic::div_mod::lemma_small_mod;
use vstd::prelude::*;
use vstd::slice::slice_subrange;

verus! {

/// Number of bytes of the RSDP of ACPI 1.0.
pub const RSDPV1_LENGTH: usize = 20;

/// Number of bytes of the RSDP of ACPI 2.0, as far as its tag holds it.
pub const RSDPV2_LENGTH: usize = 36;

/// This tag contains a copy of the RSDP as ACPI 1.0 defines it.
#[derive(Copy, Clone, Debug, PartialEq, Eq, PartialOrd, Ord, Hash)]
pub struct RsdpV1Tag {
    pub header: TagHeader,
    /// The marker of the structure; "RSD PTR " where it is genuine.
    pub signature: [u8; 8],
    /// The byte that makes the structure add up to zero.
    pub checksum: u8,
    pub oem_id: [u8; 6],
    pub revision: u8,
    /// The physical address of the RSDT.
    pub rsdt_address: u32,
}

impl TagTrait for RsdpV1Tag {
    open spec fn spec_id() -> u32 {
        Self::ID
    }

    /// The fields say all there is: no payload follows them.
    open spec fn spec_dst_size(header: TagHeader) -> nat {
        0
    }

    fn id() -> (r: u32) {
        Self::ID
    }

    fn dst_size(header: &TagHeader) -> (r: usize) {
        0
    }
}

impl RsdpV1Tag {
    /// The type of this tag.
    pub const ID: u32 = 14;

    /// Number of bytes of the tag: its header and the structure.
    pub const SIZE: usize = 28;

    /// The bytes of the ACPI structure, as they stand behind the tag's
    /// header.
    pub open spec fn acpi_bytes(self) -> Seq<u8> {
        self.signature@ + seq![self.checksum] + self.oem_id@ + seq![self.revision] + u32_le_bytes(
            self.rsdt_address,
        )
    }

    /// The bytes of the whole tag.
    pub open spec fn spec_bytes(self) -> Seq<u8> {
        self.header.spec_bytes() + self.acpi_bytes()
    }

    /// True when the structure's bytes add up to zero modulo 256.
    pub open spec fn spec_checksum_is_valid(self) -> bool {
        sums_to_zero(self.acpi_bytes())
    }

    /// This tag with another checksum byte.
    pub open spec fn with_checksum(self, checksum: u8) -> Self {
        RsdpV1Tag { checksum, ..self }
    }

    /// Constructs a new tag. Its header gives the type and the size of this
    /// kind of tag.
    #[must_use]
    pub fn new(
        signature: [u8; 8],
        checksum: u8,
        oem_id: [u8; 6],
        revision: u8,
        rsdt_address: u32,
    ) -> (r: Self)
        ensures
            r.header == (TagHeader { typ: Self::ID, size: Self::SIZE as u32 }),
            r.signature == signature,
            r.checksum == checksum,
            r.oem_id == oem_id,
            r.revision == revision,
            r.rsdt_address == rsdt_address,
    {
        RsdpV1Tag {
            header: TagHeader::new(Self::ID, Self::SIZE as u32),
            signature,
            checksum,
            oem_id,
            revision,
            rsdt_address,
        }
    }

    /// The "RSD PTR " marker signature: eight bytes of text, not null
    /// terminated.
    pub fn signature(&self) -> (r: Result<&str, Utf8DecodeError>)
        ensures
            decodes_to(self.signature@, r),
    {
        parse_utf8(&self.signature)
    }

    /// Validation of the RSDPv1 checksum: the twenty bytes of the structure,
    /// the tag's header left out, add up to zero modulo 256.
    #[must_use]
    pub fn checksum_is_valid(&self) -> (r: bool)
        ensures
            r == self.spec_checksum_is_valid(),
    {
        let bytes: [u8; 28] = self.to_bytes();
        let acpi: &[u8] = slice_subrange(&bytes, HEADER_SIZE, HEADER_SIZE + RSDPV1_LENGTH);
        assert(acpi@ =~= self.acpi_bytes());
        wrapping_sum(acpi) == 0
    }

    /// An OEM-supplied string that identifies the OEM.
    pub fn oem_id(&self) -> (r: Result<&str, Utf8DecodeError>)
        ensures
            decodes_to(self.oem_id@, r),
    {
        parse_utf8(&self.oem_id)
    }

    /// The revision of the ACPI.
    #[must_use]
    pub fn revision(&self) -> (r: u8)
        ensures
            r == self.revision,
    {
        self.revision
    }

    /// The physical (I repeat: physical) address of the RSDT table.
    #[must_use]
    pub fn rsdt_address(&self) -> (r: usize)
        ensures
            r == self.rsdt_address,
    {
        self.rsdt_address as usize
    }

    /// Reads the tag at the start of `bytes`, each field as it stands there.
    /// `None` where `bytes` does not hold a whole tag of this size. A tag
    /// that declares more bytes is read as far as the fields go. The
    /// header's `typ` is read, not judged.
    pub fn from_bytes(bytes: &[u8]) -> (r: Option<Self>)
        ensures
            r is Some <==> TagHeader::opens_tag(bytes@, Self::SIZE as nat),
            r matches Some(tag) ==> {
                &&& tag.spec_bytes() == bytes@.subrange(0, Self::SIZE as int)
                &&& tag.header == TagHeader::spec_from_bytes(bytes@)
                &&& tag.signature@ == bytes@.subrange(8, 16)
                &&& tag.checksum == bytes@[16]
                &&& tag.oem_id@ == bytes@.subrange(17, 23)
                &&& tag.revision == bytes@[23]
                &&& tag.rsdt_address == u32_from_le_bytes(bytes@.subrange(24, 28))
            },
    {
        let header: TagHeader = match TagHeader::from_tag(bytes, Self::SIZE) {
            Some(header) => header,
            None => {
                return None;
            },
        };
        let rsdt_address: [u8; 4] = [bytes[24], bytes[25], bytes[26], bytes[27]];
        assert(rsdt_address@ =~= bytes@.subrange(24, 28));
        let tag = RsdpV1Tag {
            header,
            signature: [
                bytes[8],
                bytes[9],
                bytes[10],
                bytes[11],
                bytes[12],
                bytes[13],
                bytes[14],
                bytes[15],
            ],
            checksum: bytes[16],
            oem_id: [bytes[17], bytes[18], bytes[19], bytes[20], bytes[21], bytes[22]],
            revision: bytes[23],
            rsdt_address: u32_from_le(rsdt_address),
        };
        proof {
            TagHeader::lemma_from_bytes_roundtrip(bytes@);
            lemma_u32_le_encode(bytes@.subrange(24, 28));
            assert(tag.signature@ =~= bytes@.subrange(8, 16));
            assert(tag.oem_id@ =~= bytes@.subrange(17, 23));
            assert(tag.acpi_bytes() =~= bytes@.subrange(8, 28));
            assert(tag.spec_bytes() =~= bytes@.subrange(0, 28));
        }
        Some(tag)
    }

    /// Writes the tag as it stands in memory.
    pub fn to_bytes(&self) -> (r: [u8; 28])
        ensures
            r@ == self.spec_bytes(),
    {
        let h: [u8; 8] = self.header.to_bytes();
        let s: &[u8; 8] = &self.signature;
        let o: &[u8; 6] = &self.oem_id;
        let a: [u8; 4] = u32_to_le(self.rsdt_address);
        let r: [u8; 28] = [
            h[0],
            h[1],
            h[2],
            h[3],
            h[4],
            h[5],
            h[6],
            h[7],
            s[0],
            s[1],
            s[2],
            s[3],
            s[4],
            s[5],
            s[6],
            s[7],
            self.checksum,
            o[0],
            o[1],
            o[2],
            o[3],
            o[4],
            o[5],
            self.revision,
            a[0],
            a[1],
            a[2],
            a[3],
        ];
        assert(r@ =~= self.spec_bytes());
        r
    }

    /// Whatever the other fields hold, exactly one checksum byte makes the
    /// structure valid.
    pub proof fn lemma_checksum_balances(self) -> (c: u8)
        ensures
            self.with_checksum(c).spec_checksum_is_valid(),
            forall|d: u8| #[trigger] self.with_checksum(d).spec_checksum_is_valid() ==> d == c,
    {
        let c = lemma_checksum_byte_exists(self.acpi_bytes(), 8);
        assert forall|d: u8| #[trigger]
            self.with_checksum(d).acpi_bytes() == self.acpi_bytes().update(8, d) by {
            assert(self.with_checksum(d).acpi_bytes() =~= self.acpi_bytes().update(8, d));
        }
        c
    }

    /// A tag whose structure differs in exactly one byte from that of a tag
    /// with a valid checksum does not have a valid checksum.
    pub proof fn lemma_changed_byte_is_detected(self, other: Self, i: int)
        requires
            self.spec_checksum_is_valid(),
            0 <= i < RSDPV1_LENGTH,
            other.acpi_bytes()[i] != self.acpi_bytes()[i],
            forall|j: int|
                0 <= j < RSDPV1_LENGTH && j != i ==> other.acpi_bytes()[j] == self.acpi_bytes()[j],
        ensures
            !other.spec_checksum_is_valid(),
    {
        assert(other.acpi_bytes() =~= self.acpi_bytes().update(i, other.acpi_bytes()[i]));
        lemma_changed_byte_breaks_checksum(self.acpi_bytes(), i, other.acpi_bytes()[i]);
    }
}

/// This tag contains a copy of the RSDP as ACPI 2.0 and later define it.
#[derive(Copy, Clone, Debug, PartialEq, Eq, PartialOrd, Ord, Hash)]
pub struct RsdpV2Tag {
    pub header: TagHeader,
    /// The marker of the structure; "RSD PTR " where it is genuine.
    pub signature: [u8; 8],
    /// The byte that makes the first twenty bytes add up to zero.
    pub checksum: u8,
    pub oem_id: [u8; 6],
    pub revision: u8,
    /// The physical address of the RSDT.
    pub rsdt_address: u32,
    /// Number of bytes that the structure declares for itself. It comes
    /// from the boot loader and is not to be trusted unchecked.
    pub length: u32,
    /// The physical address of the XSDT.
    pub xsdt_address: u64,
    /// The byte that makes the whole structure add up to zero.
    pub ext_checksum: u8,
    pub reserved: [u8; 3],
}

impl TagTrait for RsdpV2Tag {
    open spec fn spec_id() -> u32 {
        Self::ID
    }

    /// The fields say all there is: no payload follows them.
    open spec fn spec_dst_size(header: TagHeader) -> nat {
        0
    }

    fn id() -> (r: u32) {
        Self::ID
    }

    fn dst_size(header: &TagHeader) -> (r: usize) {
        0
    }
}

impl RsdpV2Tag {
    /// The type of this tag.
    pub const ID: u32 = 15;

    /// Number of bytes of the tag: its header and the structure.
    pub const SIZE: usize = 44;

    /// The bytes of the ACPI structure, as they stand behind the tag's
    /// header.
    pub open spec fn acpi_bytes(self) -> Seq<u8> {
        self.signature@ + seq![self.checksum] + self.oem_id@ + seq![self.revision] + u32_le_bytes(
            self.rsdt_address,
        ) + u32_le_bytes(self.length) + u64_le_bytes(self.xsdt_address) + seq![self.ext_checksum]
            + self.reserved@
    }

    /// The bytes of the whole tag.
    pub open spec fn spec_bytes(self) -> Seq<u8> {
        self.header.spec_bytes() + self.acpi_bytes()
    }

    /// True when the length that the structure declares lies inside the
    /// bytes that this tag holds of it.
    pub open spec fn length_in_bounds(self) -> bool {
        self.length <= RSDPV2_LENGTH
    }

    /// True when the first `length` bytes of the structure add up to zero
    /// modulo 256.
    pub open spec fn spec_checksum_is_valid(self) -> bool
        recommends
            self.length_in_bounds(),
    {
        sums_to_zero(self.acpi_bytes().take(self.length as int))
    }

    /// This tag with another extended checksum byte.
    pub open spec fn with_ext_checksum(self, ext_checksum: u8) -> Self {
        RsdpV2Tag { ext_checksum, ..self }
    }

    /// Constructs a new tag. Its header gives the type and the size of this
    /// kind of tag; the reserved bytes are zero.
    #[must_use]
    pub fn new(
        signature: [u8; 8],
        checksum: u8,
        oem_id: [u8; 6],
        revision: u8,
        rsdt_address: u32,
        length: u32,
        xsdt_address: u64,
        ext_checksum: u8,
    ) -> (r: Self)
        ensures
            r.header == (TagHeader { typ: Self::ID, size: Self::SIZE as u32 }),
            r.signature == signature,
            r.checksum == checksum,
            r.oem_id == oem_id,
            r.revision == revision,
            r.rsdt_address == rsdt_address,
            r.length == length,
            r.xsdt_address == xsdt_address,
            r.ext_checksum == ext_checksum,
            r.reserved@ == seq![0u8, 0u8, 0u8],
    {
        let reserved: [u8; 3] = [0, 0, 0];
        assert(reserved@ =~= seq![0u8, 0u8, 0u8]);
        RsdpV2Tag {
            header: TagHeader::new(Self::ID, Self::SIZE as u32),
            signature,
            checksum,
            oem_id,
            revision,
            rsdt_address,
            length,
            xsdt_address,
            ext_checksum,
            reserved,
        }
    }

    /// The "RSD PTR " marker signature: eight bytes of text, not null
    /// terminated.
    pub fn signature(&self) -> (r: Result<&str, Utf8DecodeError>)
        ensures
            decodes_to(self.signature@, r),
    {
        parse_utf8(&self.signature)
    }

    /// Validation of the RSDPv2 extended checksum: the `length` bytes of the
    /// structure, the tag's header left out, add up to zero modulo 256.
    ///
    /// `length` is the structure's own word, and nothing has checked it. The
    /// caller has to make sure that it does not reach beyond the structure
    /// that this tag holds. Where that is not known, or where the structure
    /// is longer than this tag, `acpi_checksum_is_valid` takes the bytes at
    /// hand and refuses a length that reaches beyond them.
    #[must_use]
    pub fn checksum_is_valid(&self) -> (r: bool)
        requires
            self.length_in_bounds(),
        ensures
            r == self.spec_checksum_is_valid(),
    {
        let bytes: [u8; 44] = self.to_bytes();
        let acpi: &[u8] = slice_subrange(&bytes, HEADER_SIZE, HEADER_SIZE + self.length as usize);
        assert(acpi@ =~= self.acpi_bytes().take(self.length as int));
        wrapping_sum(acpi) == 0
    }

    /// An OEM-supplied string that identifies the OEM.
    pub fn oem_id(&self) -> (r: Result<&str, Utf8DecodeError>)
        ensures
            decodes_to(self.oem_id@, r),
    {
        parse_utf8(&self.oem_id)
    }

    /// The revision of the ACPI.
    #[must_use]
    pub fn revision(&self) -> (r: u8)
        ensures
            r == self.revision,
    {
        self.revision
    }

    /// Physical address of the XSDT table. Where an address of the machine
    /// is narrower than 64 bits, the upper bits are cut off.
    #[must_use]
    pub fn xsdt_address(&self) -> (r: usize)
        ensures
            r == self.xsdt_address as int % (usize::MAX + 1),
            self.xsdt_address <= usize::MAX ==> r == self.xsdt_address,
    {
        let address: u64 = self.xsdt_address;
        let max: u64 = usize::MAX as u64;
        if address <= max {
            proof {
                lemma_small_mod(address as nat, (usize::MAX + 1) as nat);
            }
            address as usize
        } else {
            assert(max == 0xffff_ffff);
            assert(address & 0xffff_ffff == address % 0x1_0000_0000) by (bit_vector);
            (address & max) as usize
        }
    }

    /// The byte that makes the whole structure, both checksum bytes among
    /// them, add up to zero.
    #[must_use]
    pub fn ext_checksum(&self) -> (r: u8)
        ensures
            r == self.ext_checksum,
    {
        self.ext_checksum
    }

    /// Reads the tag at the start of `bytes`, each field as it stands there.
    /// `None` where `bytes` does not hold a whole tag of this size. A tag
    /// that declares more bytes is read as far as the fields go. The
    /// header's `typ` is read, not judged.
    pub fn from_bytes(bytes: &[u8]) -> (r: Option<Self>)
        ensures
            r is Some <==> TagHeader::opens_tag(bytes@, Self::SIZE as nat),
            r matches Some(tag) ==> {
                &&& tag.spec_bytes() == bytes@.subrange(0, Self::SIZE as int)
                &&& tag.header == TagHeader::spec_from_bytes(bytes@)
                &&& tag.signature@ == bytes@.subrange(8, 16)
                &&& tag.checksum == bytes@[16]
                &&& tag.oem_id@ == bytes@.subrange(17, 23)
                &&& tag.revision == bytes@[23]
                &&& tag.rsdt_address == u32_from_le_bytes(bytes@.subrange(24, 28))
                &&& tag.length == u32_from_le_bytes(bytes@.subrange(28, 32))
                &&& tag.xsdt_address == u64_from_le_bytes(bytes@.subrange(32, 40))
                &&& tag.ext_checksum == bytes@[40]
                &&& tag.reserved@ == bytes@.subrange(41, 44)
            },
    {
        let header: TagHeader = match TagHeader::from_tag(bytes, Self::SIZE) {
            Some(header) => header,
            None => {
                return None;
            },
        };
        let rsdt_address: [u8; 4] = [bytes[24], bytes[25], bytes[26], bytes[27]];
        let length: [u8; 4] = [bytes[28], bytes[29], bytes[30], bytes[31]];
        let xsdt_address: [u8; 8] = [
            bytes[32],
            bytes[33],
            bytes[34],
            bytes[35],
            bytes[36],
            bytes[37],
            bytes[38],
            bytes[39],
        ];
        assert(rsdt_address@ =~= bytes@.subrange(24, 28));
        assert(length@ =~= bytes@.subrange(28, 32));
        assert(xsdt_address@ =~= bytes@.subrange(32, 40));
        let tag = RsdpV2Tag {
            header,
            signature: [
                bytes[8],
                bytes[9],
                bytes[10],
                bytes[11],
                bytes[12],
                bytes[13],
                bytes[14],
                bytes[15],
            ],
            checksum: bytes[16],
            oem_id: [bytes[17], bytes[18], bytes[19], bytes[20], bytes[21], bytes[22]],
            revision: bytes[23],
            rsdt_address: u32_from_le(rsdt_address),
            length: u32_from_le(length),
            xsdt_address: u64_from_le(xsdt_address),
            ext_checksum: bytes[40],
            reserved: [bytes[41], bytes[42], bytes[43]],
        };
        proof {
            TagHeader::lemma_from_bytes_roundtrip(bytes@);
            lemma_u32_le_encode(bytes@.subrange(24, 28));
            lemma_u32_le_encode(bytes@.subrange(28, 32));
            lemma_u64_le_encode(bytes@.subrange(32, 40));
            assert(tag.signature@ =~= bytes@.subrange(8, 16));
            assert(tag.oem_id@ =~= bytes@.subrange(17, 23));
            assert(tag.reserved@ =~= bytes@.subrange(41, 44));
            assert(tag.acpi_bytes() =~= bytes@.subrange(8, 44));
            assert(tag.spec_bytes() =~= bytes@.subrange(0, 44));
        }
        Some(tag)
    }

    /// Writes the tag as it stands in memory.
    pub fn to_bytes(&self) -> (r: [u8; 44])
        ensures
            r@ == self.spec_bytes(),
    {
        let h: [u8; 8] = self.header.to_bytes();
        let s: &[u8; 8] = &self.signature;
        let o: &[u8; 6] = &self.oem_id;
        let a: [u8; 4] = u32_to_le(self.rsdt_address);
        let l: [u8; 4] = u32_to_le(self.length);
        let x: [u8; 8] = u64_to_le(self.xsdt_address);
        let v: &[u8; 3] = &self.reserved;
        let r: [u8; 44] = [
            h[0],
            h[1],
            h[2],
            h[3],
            h[4],
            h[5],
            h[6],
            h[7],
            s[0],
            s[1],
            s[2],
            s[3],
            s[4],
            s[5],
            s[6],
            s[7],
            self.checksum,
            o[0],
            o[1],
            o[2],
            o[3],
            o[4],
            o[5],
            self.revision,
            a[0],
            a[1],
            a[2],
            a[3],
            l[0],
            l[1],
            l[2],
            l[3],
            x[0],
            x[1],
            x[2],
            x[3],
            x[4],
            x[5],
            x[6],
            x[7],
            self.ext_checksum,
            v[0],
            v[1],
            v[2],
        ];
        assert(r@ =~= self.spec_bytes());
        r
    }

    /// Where the declared length covers the extended checksum, exactly one
    /// value of that byte makes the structure valid, whatever the other
    /// fields hold.
    pub proof fn lemma_ext_checksum_balances(self) -> (c: u8)
        requires
            32 < self.length <= RSDPV2_LENGTH,
        ensures
            self.with_ext_checksum(c).spec_checksum_is_valid(),
            forall|d: u8| #[trigger] self.with_ext_checksum(d).spec_checksum_is_valid() ==> d == c,
    {
        let covered = self.acpi_bytes().take(self.length as int);
        let c = lemma_checksum_byte_exists(covered, 32);
        assert forall|d: u8| #[trigger]
            self.with_ext_checksum(d).acpi_bytes().take(self.length as int) == covered.update(
                32,
                d,
            ) by {
            assert(self.with_ext_checksum(d).acpi_bytes().take(self.length as int)
                =~= covered.update(32, d));
        }
        c
    }

    /// A tag whose structure declares the same length as a tag with a valid
    /// checksum, and differs from it in exactly one of the bytes that the
    /// length covers, does not have a valid checksum.
    pub proof fn lemma_changed_byte_is_detected(self, other: Self, i: int)
        requires
            self.length_in_bounds(),
            self.spec_checksum_is_valid(),
            other.length == self.length,
            0 <= i < self.length,
            other.acpi_bytes()[i] != self.acpi_bytes()[i],
            forall|j: int|
                0 <= j < self.length && j != i ==> other.acpi_bytes()[j] == self.acpi_bytes()[j],
        ensures
            !other.spec_checksum_is_valid(),
    {
        let mine = self.acpi_bytes().take(self.length as int);
        let theirs = other.acpi_bytes().take(self.length as int);
        assert(theirs =~= mine.update(i, theirs[i]));
        lemma_changed_byte_breaks_checksum(mine, i, theirs[i]);
    }
}

} // verus!
