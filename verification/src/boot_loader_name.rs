//! The tag that names the boot loader.

use crate::builder::{lemma_tag_bytes_header, tag_bytes, BoxedDst};
use crate::tag::{
    get_dst_str_slice, lemma_text_of_terminated, text, TagHeader, TagTrait, HEADER_SIZE,
};
use crate::utf8::{decodes_to, Utf8DecodeError};
use vstd::prelude::*;
use vstd::slice::slice_subrange;
use vstd::utf8::{
    char_is_scalar, char_u32_cast, decode_utf8, encode_scalar, encode_utf8, encode_utf8_decode_utf8,
    encode_utf8_valid_utf8, has_width_1_encoding, has_width_2_encoding, has_width_3_encoding,
    is_scalar, valid_utf8,
};

verus! {

/// The boot loader name tag: a header, then the name as null-terminated
/// UTF-8. A value of this type is a view of bytes that someone else holds:
/// the header, and behind it exactly the bytes that the header declares.
#[derive(Clone, Copy, Debug, PartialEq, Eq, PartialOrd, Ord, Hash)]
pub struct BootLoaderNameTag<'a> {
    header: TagHeader,
    /// The payload: the name, its terminator, and whatever padding follows.
    name: &'a [u8],
}

impl<'a> TagTrait for BootLoaderNameTag<'a> {
    open spec fn spec_id() -> u32 {
        Self::ID
    }

    /// All that the tag holds behind its header is payload.
    open spec fn spec_dst_size(header: TagHeader) -> nat {
        (header.size - HEADER_SIZE) as nat
    }

    fn id() -> (r: u32) {
        Self::ID
    }

    fn dst_size(header: &TagHeader) -> (r: usize) {
        header.size as usize - HEADER_SIZE
    }
}

/// True when the last byte of `content` is a null byte.
pub open spec fn ends_with_nul(content: Seq<u8>) -> bool {
    content.len() > 0 && content.last() == 0
}

/// A payload that ends in a null byte: `content` itself where it does so
/// already, else `content` with one null byte added.
pub open spec fn terminated(content: Seq<u8>) -> Seq<u8> {
    if ends_with_nul(content) {
        content
    } else {
        content.push(0)
    }
}

impl<'a> BootLoaderNameTag<'a> {
    /// The type of this tag.
    pub const ID: u32 = 2;

    /// The header counts itself and the payload, and nothing else.
    #[verifier::type_invariant]
    spec fn counts_its_payload(self) -> bool {
        self.header.size == HEADER_SIZE + self.name@.len()
    }

    /// The header of the tag.
    pub closed spec fn spec_header(self) -> TagHeader {
        self.header
    }

    /// The payload of the tag: the name, its terminator, and whatever
    /// padding follows.
    pub closed spec fn spec_payload(self) -> Seq<u8> {
        self.name@
    }

    /// The bytes of the whole tag.
    pub open spec fn spec_bytes(self) -> Seq<u8> {
        self.spec_header().spec_bytes() + self.spec_payload()
    }

    /// The bytes of the tag that `new` builds for `name`.
    pub open spec fn spec_new(name: Seq<char>) -> Seq<u8> {
        tag_bytes(Self::ID, terminated(encode_utf8(name)))
    }

    /// Builds the tag for `name`. A terminator is added unless `name` ends
    /// in one: the tag never ends in two. The encoding of `name` is not
    /// looked at.
    ///
    /// The tag's size, eight bytes more than the terminated name takes, has
    /// to fit the header's field.
    pub fn new(name: &str) -> (r: BoxedDst)
        requires
            HEADER_SIZE + terminated(encode_utf8(name@)).len() <= u32::MAX,
        ensures
            r@ == Self::spec_new(name@),
            r@.len() == if ends_with_nul(encode_utf8(name@)) {
                HEADER_SIZE + encode_utf8(name@).len()
            } else {
                HEADER_SIZE + encode_utf8(name@).len() + 1
            },
            TagHeader::spec_from_bytes(r@) == (TagHeader { typ: Self::ID, size: r@.len() as u32 }),
    {
        let content: &[u8] = name.as_bytes();
        let n: usize = content.len();
        let mut bytes: Vec<u8> = Vec::with_capacity(n);
        let mut i: usize = 0;
        while i < n
            invariant
                n == content@.len(),
                i <= n,
                bytes@ == content@.take(i as int),
            decreases n - i,
        {
            bytes.push(content[i]);
            i = i + 1;
            assert(bytes@ =~= content@.take(i as int));
        }
        assert(bytes@ =~= content@);
        if !(n > 0 && bytes[n - 1] == 0) {
            // terminating null-byte
            bytes.push(0);
        }
        proof {
            lemma_tag_bytes_header(Self::ID, bytes@);
        }
        BoxedDst::new::<Self>(bytes.as_slice())
    }

    /// Puts a header and the payload behind it together. `None` unless
    /// `payload` holds exactly the bytes that `header` declares behind
    /// itself. The header's `typ` is taken, not judged.
    pub fn from_parts(header: TagHeader, payload: &'a [u8]) -> (r: Option<Self>)
        ensures
            r is Some <==> header.size >= HEADER_SIZE && payload@.len() == Self::spec_dst_size(
                header,
            ),
            r matches Some(tag) ==> tag.spec_header() == header && tag.spec_payload() == payload@,
    {
        if (header.size as usize) < HEADER_SIZE || payload.len() != Self::dst_size(&header) {
            return None;
        }
        Some(BootLoaderNameTag { header, name: payload })
    }

    /// Views the tag at the start of `bytes`. `None` where `bytes` does not
    /// hold a whole tag. The header's `typ` is read, not judged.
    pub fn from_bytes(bytes: &'a [u8]) -> (r: Option<Self>)
        ensures
            r is Some <==> TagHeader::opens_tag(bytes@, HEADER_SIZE as nat),
            r matches Some(tag) ==> {
                &&& tag.spec_header() == TagHeader::spec_from_bytes(bytes@)
                &&& tag.spec_payload() == bytes@.subrange(
                    HEADER_SIZE as int,
                    tag.spec_header().size as int,
                )
                &&& tag.spec_bytes() == bytes@.subrange(0, tag.spec_header().size as int)
            },
    {
        let header: TagHeader = match TagHeader::from_tag(bytes, HEADER_SIZE) {
            Some(header) => header,
            None => {
                return None;
            },
        };
        let len: usize = Self::dst_size(&header);
        let name: &[u8] = slice_subrange(bytes, HEADER_SIZE, HEADER_SIZE + len);
        let tag = BootLoaderNameTag { header, name };
        proof {
            TagHeader::lemma_from_bytes_roundtrip(bytes@);
            assert(tag.spec_bytes() =~= bytes@.subrange(0, header.size as int));
        }
        Some(tag)
    }

    /// The header of the tag. Its `size` is the size of this view.
    pub fn header(&self) -> (r: TagHeader)
        ensures
            r == self.spec_header(),
            r.size == HEADER_SIZE + self.spec_payload().len(),
    {
        proof {
            use_type_invariant(self);
        }
        self.header
    }

    /// The payload of the tag, as it stands behind the header.
    pub fn payload(&self) -> (r: &'a [u8])
        ensures
            r@ == self.spec_payload(),
    {
        self.name
    }

    /// Reads the name of the boot loader, without the terminator: for
    /// example `"GRUB 2.02~beta3-5"`.
    ///
    /// The name ends at the first null byte of the payload, or with the
    /// payload where it holds none. Where it is not valid UTF-8, the error
    /// gives the offset of the first byte that is not part of valid text.
    pub fn name(&self) -> (r: Result<&'a str, Utf8DecodeError>)
        ensures
            decodes_to(text(self.spec_payload()), r),
            (forall|i: int| 0 <= i < self.spec_payload().len() ==> self.spec_payload()[i] != 0)
                ==> decodes_to(self.spec_payload(), r),
    {
        get_dst_str_slice(self.name)
    }

    /// Decoding what was built gives the name back: the tag that `new`
    /// builds for a name without a null character is a whole tag, and the
    /// text of its payload is the name.
    pub proof fn lemma_new_roundtrip(name: Seq<char>)
        requires
            forall|i: int| 0 <= i < name.len() ==> name[i] != '\0',
            HEADER_SIZE + encode_utf8(name).len() + 1 <= u32::MAX,
        ensures
            ({
                let bytes = Self::spec_new(name);
                let header = TagHeader::spec_from_bytes(bytes);
                let payload = bytes.subrange(HEADER_SIZE as int, header.size as int);
                &&& TagHeader::opens_tag(bytes, HEADER_SIZE as nat)
                &&& header == (TagHeader { typ: Self::ID, size: bytes.len() as u32 })
                &&& valid_utf8(text(payload))
                &&& decode_utf8(text(payload)) == name
            }),
    {
        let content = encode_utf8(name);
        lemma_encode_utf8_without_nul(name);
        assert(terminated(content) == content.push(0)) by {
            if content.len() > 0 {
                assert(content.last() != 0);
            }
        }
        lemma_tag_bytes_header(Self::ID, content.push(0));
        assert(content.push(0) + Seq::<u8>::empty() =~= content.push(0));
        lemma_text_of_terminated(content, Seq::empty());
        encode_utf8_valid_utf8(name);
        encode_utf8_decode_utf8(name);
    }
}

/// Text without a null character has no null byte in its UTF-8 encoding.
pub proof fn lemma_encode_utf8_without_nul(chars: Seq<char>)
    requires
        forall|i: int| 0 <= i < chars.len() ==> chars[i] != '\0',
    ensures
        forall|i: int| 0 <= i < encode_utf8(chars).len() ==> encode_utf8(chars)[i] != 0,
    decreases chars.len(),
{
    if chars.len() > 0 {
        let head = encode_scalar(chars[0] as u32);
        let tail = encode_utf8(chars.drop_first());
        char_is_scalar(chars[0]);
        assert(chars[0] as u32 != 0) by {
            char_u32_cast(chars[0], chars[0] as u32);
            char_u32_cast('\0', 0);
        }
        lemma_encode_scalar_without_nul(chars[0] as u32);
        assert forall|i: int| 0 <= i < chars.drop_first().len() implies chars.drop_first()[i]
            != '\0' by {
            assert(chars.drop_first()[i] == chars[i + 1]);
        }
        lemma_encode_utf8_without_nul(chars.drop_first());
        assert forall|i: int| 0 <= i < encode_utf8(chars).len() implies encode_utf8(chars)[i]
            != 0 by {
            if i < head.len() {
                assert(encode_utf8(chars)[i] == head[i]);
            } else {
                assert(encode_utf8(chars)[i] == tail[i - head.len()]);
            }
        }
    }
}

/// No byte of the UTF-8 encoding of a scalar other than zero is zero.
proof fn lemma_encode_scalar_without_nul(c: u32)
    requires
        is_scalar(c),
        c != 0,
    ensures
        forall|i: int| 0 <= i < encode_scalar(c).len() ==> encode_scalar(c)[i] != 0,
{
    if has_width_1_encoding(c) {
        assert((c & 0x7F) as u8 != 0) by (bit_vector)
            requires
                0 < c <= 0x7F,
        ;
    } else if has_width_2_encoding(c) {
        assert(0xC0 | ((c >> 6) & 0x1F) as u8 != 0) by (bit_vector);
        assert(0x80 | (c & 0x3F) as u8 != 0) by (bit_vector);
    } else if has_width_3_encoding(c) {
        assert(0xE0 | ((c >> 12) & 0x0F) as u8 != 0) by (bit_vector);
        assert(0x80 | ((c >> 6) & 0x3F) as u8 != 0) by (bit_vector);
        assert(0x80 | (c & 0x3F) as u8 != 0) by (bit_vector);
    } else {
        assert(0xF0 | ((c >> 18) & 0x7) as u8 != 0) by (bit_vector);
        assert(0x80 | ((c >> 12) & 0x3F) as u8 != 0) by (bit_vector);
        assert(0x80 | ((c >> 6) & 0x3F) as u8 != 0) by (bit_vector);
        assert(0x80 | (c & 0x3F) as u8 != 0) by (bit_vector);
    }
}

} // verus!
