//! The header that every tag starts with, what a kind of tag declares about
//! itself, and the text that a tag's payload may hold.

use crate::bytes::{
    lemma_u32_le_decode, lemma_u32_le_encode, u32_from_le, u32_from_le_bytes, u32_le_bytes,
    u32_to_le,
};
use crate::utf8::{decodes_to, parse_utf8, Utf8DecodeError};
use vstd::prelude::*;
use vstd::slice::slice_subrange;

verus! {

/// Number of bytes that a tag's header takes.
pub const HEADER_SIZE: usize = 8;

/// The fixed prefix of every tag. Nothing is validated here: a header holds
/// whatever was written or read.
#[derive(Clone, Copy, Debug, PartialEq, Eq, PartialOrd, Ord, Hash, Structural)]
pub struct TagHeader {
    /// Identifies the kind of tag.
    pub typ: u32,
    /// Number of bytes in the tag, this header included.
    pub size: u32,
}

impl TagHeader {
    /// The eight bytes of the header in memory: `typ`, then `size`, each
    /// little-endian.
    pub open spec fn spec_bytes(self) -> Seq<u8> {
        u32_le_bytes(self.typ) + u32_le_bytes(self.size)
    }

    /// The header that the first eight bytes of `bytes` hold.
    pub open spec fn spec_from_bytes(bytes: Seq<u8>) -> TagHeader
        recommends
            bytes.len() >= HEADER_SIZE,
    {
        TagHeader {
            typ: u32_from_le_bytes(bytes.subrange(0, 4)),
            size: u32_from_le_bytes(bytes.subrange(4, 8)),
        }
    }

    /// True when `bytes` starts with a whole tag of `min` bytes or more:
    /// the header is there, it declares at least itself and at least `min`
    /// bytes, and all bytes that it declares are there.
    pub open spec fn opens_tag(bytes: Seq<u8>, min: nat) -> bool {
        &&& bytes.len() >= HEADER_SIZE
        &&& HEADER_SIZE <= Self::spec_from_bytes(bytes).size
        &&& min <= Self::spec_from_bytes(bytes).size <= bytes.len()
    }

    /// Makes a header of the two values, as they are.
    pub fn new(typ: u32, size: u32) -> (r: Self)
        ensures
            r == (TagHeader { typ, size }),
    {
        TagHeader { typ, size }
    }

    /// Writes the header as it stands in memory.
    pub fn to_bytes(&self) -> (r: [u8; 8])
        ensures
            r@ == self.spec_bytes(),
    {
        let t: [u8; 4] = u32_to_le(self.typ);
        let s: [u8; 4] = u32_to_le(self.size);
        let r: [u8; 8] = [t[0], t[1], t[2], t[3], s[0], s[1], s[2], s[3]];
        assert(r@ =~= self.spec_bytes());
        r
    }

    /// Reads the header at the start of `bytes`; `None` where fewer than
    /// eight bytes are there.
    pub fn from_bytes(bytes: &[u8]) -> (r: Option<TagHeader>)
        ensures
            r is Some <==> bytes@.len() >= HEADER_SIZE,
            r is Some ==> r->0 == Self::spec_from_bytes(bytes@),
    {
        if bytes.len() < HEADER_SIZE {
            return None;
        }
        let typ: [u8; 4] = [bytes[0], bytes[1], bytes[2], bytes[3]];
        let size: [u8; 4] = [bytes[4], bytes[5], bytes[6], bytes[7]];
        assert(typ@ =~= bytes@.subrange(0, 4));
        assert(size@ =~= bytes@.subrange(4, 8));
        Some(TagHeader { typ: u32_from_le(typ), size: u32_from_le(size) })
    }

    /// Reads the header of the tag at the start of `bytes`, for a kind of
    /// tag that takes `min` bytes or more. `None` where `bytes` does not
    /// hold such a tag as a whole: whoever reads on behind this header stays
    /// inside the tag, and inside `bytes`.
    pub fn from_tag(bytes: &[u8], min: usize) -> (r: Option<TagHeader>)
        ensures
            r is Some <==> Self::opens_tag(bytes@, min as nat),
            r is Some ==> r->0 == Self::spec_from_bytes(bytes@),
    {
        match TagHeader::from_bytes(bytes) {
            Some(header) => {
                let size: usize = header.size as usize;
                if size < HEADER_SIZE || size < min || size > bytes.len() {
                    None
                } else {
                    Some(header)
                }
            },
            None => None,
        }
    }

    /// Reading a header back from its own bytes gives the same header,
    /// whatever follows those bytes.
    pub proof fn lemma_bytes_roundtrip(self, rest: Seq<u8>)
        ensures
            self.spec_bytes().len() == HEADER_SIZE,
            Self::spec_from_bytes(self.spec_bytes() + rest) == self,
    {
        let all = self.spec_bytes() + rest;
        lemma_u32_le_decode(self.typ);
        lemma_u32_le_decode(self.size);
        assert(all.subrange(0, 4) =~= u32_le_bytes(self.typ));
        assert(all.subrange(4, 8) =~= u32_le_bytes(self.size));
    }

    /// The bytes of the header that was read from `bytes` are the first
    /// eight of `bytes`.
    pub proof fn lemma_from_bytes_roundtrip(bytes: Seq<u8>)
        requires
            bytes.len() >= HEADER_SIZE,
        ensures
            Self::spec_from_bytes(bytes).spec_bytes() == bytes.subrange(0, HEADER_SIZE as int),
    {
        lemma_u32_le_encode(bytes.subrange(0, 4));
        lemma_u32_le_encode(bytes.subrange(4, 8));
        assert(Self::spec_from_bytes(bytes).spec_bytes() =~= bytes.subrange(0, 8));
    }
}

/// What each kind of tag declares: its type identifier, and how many bytes
/// of payload follow the fixed part of a tag with a given header.
pub trait TagTrait {
    /// The value of `typ` in the header of a tag of this kind.
    spec fn spec_id() -> u32;

    /// Number of payload bytes of the tag that `header` opens.
    spec fn spec_dst_size(header: TagHeader) -> nat;

    /// The value of `typ` in the header of a tag of this kind.
    fn id() -> (r: u32)
        ensures
            r == Self::spec_id(),
    ;

    /// Computes the number of payload bytes from the header alone. A header
    /// whose `size` is smaller than the header itself opens no tag.
    fn dst_size(header: &TagHeader) -> (r: usize)
        requires
            header.size >= HEADER_SIZE,
        ensures
            r == Self::spec_dst_size(*header),
    ;
}

/// True when `n` is where the text in `bytes` ends: at the first null byte,
/// or at the end of `bytes` where there is none.
pub open spec fn is_text_end(bytes: Seq<u8>, n: int) -> bool {
    &&& 0 <= n <= bytes.len()
    &&& forall|i: int| 0 <= i < n ==> bytes[i] != 0
    &&& n < bytes.len() ==> bytes[n] == 0
}

/// Number of bytes of `bytes` that stand before its first null byte; the
/// length of `bytes` where it holds none.
pub open spec fn text_len(bytes: Seq<u8>) -> nat
    decreases bytes.len(),
{
    if bytes.len() == 0 || bytes[0] == 0 {
        0
    } else {
        1 + text_len(bytes.drop_first())
    }
}

/// The bytes of the text in a payload: what stands before the terminator.
/// The terminator and what follows it, padding as a rule, are no part of it.
pub open spec fn text(bytes: Seq<u8>) -> Seq<u8> {
    bytes.take(text_len(bytes) as int)
}

/// Finds where the text in `bytes` ends.
pub fn find_text_end(bytes: &[u8]) -> (n: usize)
    ensures
        n == text_len(bytes@),
        is_text_end(bytes@, n as int),
{
    let mut i: usize = 0;
    while i < bytes.len() && bytes[i] != 0
        invariant
            i <= bytes@.len(),
            forall|j: int| 0 <= j < i ==> bytes@[j] != 0,
        decreases bytes@.len() - i,
    {
        i = i + 1;
    }
    proof {
        assert(is_text_end(bytes@, i as int));
        lemma_text_len(bytes@);
    }
    i
}

/// Reads the text that a payload holds: the bytes before the first null
/// byte, or all of them where no null byte is there, as UTF-8.
///
/// Where those bytes are not valid UTF-8, the error gives the offset of the
/// first byte that is not part of valid text. What stands behind the
/// terminator is not looked at.
pub fn get_dst_str_slice(bytes: &[u8]) -> (r: Result<&str, Utf8DecodeError>)
    ensures
        decodes_to(text(bytes@), r),
        (forall|i: int| 0 <= i < bytes@.len() ==> bytes@[i] != 0) ==> decodes_to(bytes@, r),
{
    let n: usize = find_text_end(bytes);
    proof {
        if forall|i: int| 0 <= i < bytes@.len() ==> bytes@[i] != 0 {
            lemma_text_without_terminator(bytes@);
        }
    }
    parse_utf8(slice_subrange(bytes, 0, n))
}

/// `text_len` is the one position at which the text ends.
pub proof fn lemma_text_len(bytes: Seq<u8>)
    ensures
        is_text_end(bytes, text_len(bytes) as int),
        forall|n: int| is_text_end(bytes, n) ==> n == text_len(bytes),
    decreases bytes.len(),
{
    if bytes.len() == 0 || bytes[0] == 0 {
        assert forall|n: int| is_text_end(bytes, n) implies n == 0 by {
            if n > 0 {
                assert(bytes[0] != 0);
            }
        }
    } else {
        let rest = bytes.drop_first();
        lemma_text_len(rest);
        let k = text_len(rest) as int;
        assert forall|i: int| 0 <= i < k + 1 implies bytes[i] != 0 by {
            if i > 0 {
                assert(rest[i - 1] == bytes[i]);
            }
        }
        if k + 1 < bytes.len() {
            assert(rest[k] == bytes[k + 1]);
        }
        assert forall|n: int| is_text_end(bytes, n) implies n == k + 1 by {
            assert(n > 0);
            assert forall|i: int| 0 <= i < n - 1 implies rest[i] != 0 by {
                assert(rest[i] == bytes[i + 1]);
            }
            if n - 1 < rest.len() {
                assert(rest[n - 1] == bytes[n]);
            }
            assert(is_text_end(rest, n - 1));
        }
    }
}

/// A payload that holds no null byte is text as a whole.
pub proof fn lemma_text_without_terminator(bytes: Seq<u8>)
    requires
        forall|i: int| 0 <= i < bytes.len() ==> bytes[i] != 0,
    ensures
        text(bytes) == bytes,
{
    assert(is_text_end(bytes, bytes.len() as int));
    lemma_text_len(bytes);
    assert(text(bytes) =~= bytes);
}

/// Neither the terminator nor what follows it is part of the text: the
/// text of `content`, a null byte and then anything is `content`, as long
/// as `content` holds no null byte itself.
pub proof fn lemma_text_of_terminated(content: Seq<u8>, padding: Seq<u8>)
    requires
        forall|i: int| 0 <= i < content.len() ==> content[i] != 0,
    ensures
        text(content.push(0) + padding) == content,
{
    let bytes = content.push(0) + padding;
    assert(bytes[content.len() as int] == 0);
    assert forall|i: int| 0 <= i < content.len() implies bytes[i] != 0 by {
        assert(bytes[i] == content[i]);
    }
    assert(is_text_end(bytes, content.len() as int));
    lemma_text_len(bytes);
    assert(text(bytes) =~= content);
}

} // verus!
