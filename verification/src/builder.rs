//! Building a tag of variable length: a header, then the payload, in one
//! buffer that the builder owns.

use crate::tag::{TagHeader, TagTrait, HEADER_SIZE};
use vstd::prelude::*;

verus! {

/// The bytes of the tag of type `typ` whose payload is `content`: the
/// header, which counts itself and the payload in `size`, then the payload.
pub open spec fn tag_bytes(typ: u32, content: Seq<u8>) -> Seq<u8>
    recommends
        HEADER_SIZE + content.len() <= u32::MAX,
{
    (TagHeader { typ, size: (HEADER_SIZE + content.len()) as u32 }).spec_bytes() + content
}

/// An owned tag of variable length. It holds the bytes of exactly one tag:
/// a header, and as many bytes behind it as the header declares. Padding
/// up to the place where a next tag may start is no part of it.
#[derive(Debug, PartialEq, Eq)]
pub struct BoxedDst {
    bytes: Vec<u8>,
}

impl View for BoxedDst {
    type V = Seq<u8>;

    /// The bytes of the tag, header first.
    closed spec fn view(&self) -> Seq<u8> {
        self.bytes@
    }
}

impl BoxedDst {
    /// What is held is one tag, neither more nor less.
    #[verifier::type_invariant]
    spec fn holds_one_tag(self) -> bool {
        &&& TagHeader::opens_tag(self.bytes@, HEADER_SIZE as nat)
        &&& TagHeader::spec_from_bytes(self.bytes@).size == self.bytes@.len()
    }

    /// Builds the tag of kind `T` with the payload `content`, which is taken
    /// as it is. The tag's size has to fit the header's field.
    pub fn new<T: TagTrait>(content: &[u8]) -> (r: BoxedDst)
        requires
            HEADER_SIZE + content@.len() <= u32::MAX,
        ensures
            r@ == tag_bytes(T::spec_id(), content@),
    {
        let size: usize = HEADER_SIZE + content.len();
        let header: [u8; 8] = TagHeader::new(T::id(), size as u32).to_bytes();
        let mut bytes: Vec<u8> = Vec::with_capacity(size);
        let mut i: usize = 0;
        while i < HEADER_SIZE
            invariant
                i <= HEADER_SIZE,
                bytes@ == header@.take(i as int),
            decreases HEADER_SIZE - i,
        {
            bytes.push(header[i]);
            i = i + 1;
            assert(bytes@ =~= header@.take(i as int));
        }
        assert(bytes@ =~= header@);
        let mut j: usize = 0;
        while j < content.len()
            invariant
                j <= content@.len(),
                bytes@ == header@ + content@.take(j as int),
            decreases content@.len() - j,
        {
            bytes.push(content[j]);
            j = j + 1;
            assert(bytes@ =~= header@ + content@.take(j as int));
        }
        proof {
            assert(bytes@ =~= tag_bytes(T::spec_id(), content@));
            lemma_tag_bytes_header(T::spec_id(), content@);
        }
        BoxedDst { bytes }
    }

    /// The bytes of the tag, header first: a whole tag, whose header counts
    /// every one of them.
    pub fn as_bytes(&self) -> (r: &[u8])
        ensures
            r@ == self@,
            TagHeader::opens_tag(r@, HEADER_SIZE as nat),
            TagHeader::spec_from_bytes(r@).size == r@.len(),
    {
        proof {
            use_type_invariant(self);
        }
        self.bytes.as_slice()
    }
}

/// The header of a built tag says what was built: read back from the tag's
/// bytes, it gives the type and counts every byte, and behind it stands the
/// payload.
pub proof fn lemma_tag_bytes_header(typ: u32, content: Seq<u8>)
    requires
        HEADER_SIZE + content.len() <= u32::MAX,
    ensures
        tag_bytes(typ, content).len() == HEADER_SIZE + content.len(),
        TagHeader::spec_from_bytes(tag_bytes(typ, content)) == (TagHeader {
            typ,
            size: (HEADER_SIZE + content.len()) as u32,
        }),
        TagHeader::opens_tag(tag_bytes(typ, content), HEADER_SIZE as nat),
        tag_bytes(typ, content).subrange(
            HEADER_SIZE as int,
            HEADER_SIZE + content.len(),
        ) == content,
{
    let header = TagHeader { typ, size: (HEADER_SIZE + content.len()) as u32 };
    header.lemma_bytes_roundtrip(content);
    assert(tag_bytes(typ, content).subrange(HEADER_SIZE as int, HEADER_SIZE + content.len())
        =~= content);
}

} // verus!
