use multiboot2::tag::find_text_end;
use multiboot2::{
    get_dst_str_slice, BootLoaderNameTag, BoxedDst, TagHeader, TagTrait, Utf8DecodeError,
    HEADER_SIZE,
};

const MSG: &str = "hello";

/// Returns the tag structure in bytes in little endian format.
fn get_bytes() -> Vec<u8> {
    // size is: 4 bytes for tag + 4 bytes for size + length of null-terminated string
    let size = (4 + 4 + MSG.as_bytes().len() + 1) as u32;
    let mut bytes = Vec::new();
    bytes.extend_from_slice(&BootLoaderNameTag::ID.to_le_bytes());
    bytes.extend_from_slice(&size.to_le_bytes());
    bytes.extend_from_slice(MSG.as_bytes());
    // Null Byte
    bytes.push(0);
    bytes
}

/// The name that the built tag decodes to.
fn name_of(tag: &BoxedDst) -> Result<&str, Utf8DecodeError> {
    BootLoaderNameTag::from_bytes(tag.as_bytes())
        .expect("a built tag is a whole tag")
        .name()
}

/// Tests to parse a string with a terminating null byte from the tag (as Multiboot2 defines it).
#[test]
fn test_parse_str() {
    let tag = get_bytes();
    let tag = BootLoaderNameTag::from_bytes(&tag).unwrap();
    assert_eq!(tag.header().typ, BootLoaderNameTag::ID);
    assert_eq!(tag.name().expect("must be valid UTF-8"), MSG);
}

/// Test to generate a tag from a given string.
#[test]
fn test_build_str() {
    let tag = BootLoaderNameTag::new(MSG);
    let bytes = tag.as_bytes();
    assert_eq!(bytes, get_bytes());
    assert_eq!(name_of(&tag), Ok(MSG));

    // test also some bigger message
    let tag = BootLoaderNameTag::new("AbCdEfGhUjK YEAH");
    assert_eq!(name_of(&tag), Ok("AbCdEfGhUjK YEAH"));
    let tag = BootLoaderNameTag::new("AbCdEfGhUjK YEAH".repeat(42).as_str());
    assert_eq!(name_of(&tag), Ok("AbCdEfGhUjK YEAH".repeat(42).as_str()));
}

#[test]
fn hello_tag_has_type_two_and_size_fourteen() {
    let bytes = [2, 0, 0, 0, 14, 0, 0, 0, b'h', b'e', b'l', b'l', b'o', 0];
    let tag = BootLoaderNameTag::from_bytes(&bytes).unwrap();
    assert_eq!(tag.header(), TagHeader { typ: 2, size: 14 });
    assert_eq!(tag.payload(), b"hello\0");
    assert_eq!(tag.name(), Ok("hello"));
}

#[test]
fn type_identifier_is_two() {
    assert_eq!(BootLoaderNameTag::ID, 2);
}

#[test]
fn payload_length_is_size_minus_header() {
    assert_eq!(BootLoaderNameTag::dst_size(&TagHeader::new(2, 14)), 6);
    assert_eq!(BootLoaderNameTag::dst_size(&TagHeader::new(2, 8)), 0);
    assert_eq!(BootLoaderNameTag::dst_size(&TagHeader::new(2, u32::MAX)), u32::MAX as usize - 8);
}

#[test]
fn build_adds_terminator_once() {
    let tag = BootLoaderNameTag::new("GRUB");
    assert_eq!(tag.as_bytes(), [2, 0, 0, 0, 13, 0, 0, 0, b'G', b'R', b'U', b'B', 0]);
    assert_eq!(tag.as_bytes().len(), HEADER_SIZE + 4 + 1);
}

#[test]
fn build_keeps_terminator_that_is_there() {
    let tag = BootLoaderNameTag::new("GRUB\0");
    assert_eq!(tag.as_bytes(), [2, 0, 0, 0, 13, 0, 0, 0, b'G', b'R', b'U', b'B', 0]);
    let header = TagHeader::from_bytes(tag.as_bytes()).unwrap();
    assert_eq!(header.size as usize, HEADER_SIZE + "GRUB\0".len());
    assert_eq!(name_of(&tag), Ok("GRUB"));
}

#[test]
fn build_empty_name() {
    let tag = BootLoaderNameTag::new("");
    assert_eq!(tag.as_bytes(), [2, 0, 0, 0, 9, 0, 0, 0, 0]);
    assert_eq!(name_of(&tag), Ok(""));
}

#[test]
fn build_name_with_inner_null_byte_decodes_to_what_stands_before_it() {
    let tag = BootLoaderNameTag::new("ab\0cd");
    assert_eq!(tag.as_bytes(), [2, 0, 0, 0, 14, 0, 0, 0, b'a', b'b', 0, b'c', b'd', 0]);
    assert_eq!(name_of(&tag), Ok("ab"));
}

#[test]
fn roundtrip_of_text_beyond_ascii() {
    for name in ["GRUB 2.02~beta3-5", "é", "h€llo wörld", "日本語", "a🦀b", "\u{7f}\u{80}\u{7ff}\u{800}\u{ffff}\u{10000}\u{10ffff}"] {
        let tag = BootLoaderNameTag::new(name);
        assert_eq!(tag.as_bytes().len(), HEADER_SIZE + name.len() + 1);
        assert_eq!(name_of(&tag), Ok(name));
    }
}

#[test]
fn built_header_counts_every_byte() {
    let tag = BootLoaderNameTag::new("limine");
    let header = TagHeader::from_bytes(tag.as_bytes()).unwrap();
    assert_eq!(header, TagHeader { typ: 2, size: 15 });
    assert_eq!(header.size as usize, tag.as_bytes().len());
}

#[test]
fn builder_takes_content_as_it_is() {
    let tag = BoxedDst::new::<BootLoaderNameTag>(&[1, 2, 3]);
    assert_eq!(tag.as_bytes(), [2, 0, 0, 0, 11, 0, 0, 0, 1, 2, 3]);
    let tag = BoxedDst::new::<BootLoaderNameTag>(&[]);
    assert_eq!(tag.as_bytes(), [2, 0, 0, 0, 8, 0, 0, 0]);
}

#[test]
fn view_needs_a_whole_tag() {
    // fewer bytes than a header
    assert_eq!(BootLoaderNameTag::from_bytes(&[2, 0, 0, 0, 8, 0, 0]), None);
    assert_eq!(BootLoaderNameTag::from_bytes(&[]), None);
    // a size below the header's own
    assert_eq!(BootLoaderNameTag::from_bytes(&[2, 0, 0, 0, 7, 0, 0, 0, 0]), None);
    // a size beyond the bytes at hand
    assert_eq!(BootLoaderNameTag::from_bytes(&[2, 0, 0, 0, 10, 0, 0, 0, b'a']), None);
    // the smallest tag
    let tag = BootLoaderNameTag::from_bytes(&[2, 0, 0, 0, 8, 0, 0, 0]).unwrap();
    assert_eq!(tag.payload(), b"");
    assert_eq!(tag.name(), Ok(""));
}

#[test]
fn view_from_header_and_payload() {
    let tag = BootLoaderNameTag::from_parts(TagHeader::new(2, 13), b"GRUB\0").unwrap();
    assert_eq!(tag.header(), TagHeader::new(2, 13));
    assert_eq!(tag.payload(), b"GRUB\0");
    assert_eq!(tag.name(), Ok("GRUB"));
    assert_eq!(Some(tag), BootLoaderNameTag::from_bytes(BootLoaderNameTag::new("GRUB").as_bytes()));
    // the payload has to be as long as the header says
    assert_eq!(BootLoaderNameTag::from_parts(TagHeader::new(2, 12), b"GRUB\0"), None);
    assert_eq!(BootLoaderNameTag::from_parts(TagHeader::new(2, 14), b"GRUB\0"), None);
    // a header that does not count itself opens no tag
    assert_eq!(BootLoaderNameTag::from_parts(TagHeader::new(2, 0), b""), None);
    assert_eq!(BootLoaderNameTag::from_parts(TagHeader::new(2, 7), b""), None);
    assert!(BootLoaderNameTag::from_parts(TagHeader::new(2, 8), b"").is_some());
}

#[test]
fn view_ends_where_the_header_says() {
    let bytes = [2, 0, 0, 0, 10, 0, 0, 0, b'a', b'b', b'c', b'd'];
    let tag = BootLoaderNameTag::from_bytes(&bytes).unwrap();
    assert_eq!(tag.header().size, 10);
    assert_eq!(tag.payload(), b"ab");
    assert_eq!(tag.name(), Ok("ab"));
}

#[test]
fn view_reads_the_type_without_judging_it() {
    let bytes = [0x78, 0x56, 0x34, 0x12, 9, 0, 0, 0, b'x'];
    let tag = BootLoaderNameTag::from_bytes(&bytes).unwrap();
    assert_eq!(tag.header().typ, 0x1234_5678);
    assert_eq!(tag.name(), Ok("x"));
}

#[test]
fn text_ends_at_first_null_byte() {
    assert_eq!(get_dst_str_slice(b"hello\0"), Ok("hello"));
    assert_eq!(get_dst_str_slice(b"hello\0\0\0"), Ok("hello"));
    assert_eq!(get_dst_str_slice(b"hello\0world\0"), Ok("hello"));
    assert_eq!(get_dst_str_slice(b"\0hello"), Ok(""));
    assert_eq!(get_dst_str_slice(b""), Ok(""));
    assert_eq!(find_text_end(b"hello\0world\0"), 5);
    assert_eq!(find_text_end(b"hello"), 5);
    assert_eq!(find_text_end(b""), 0);
    assert_eq!(find_text_end(b"\0"), 0);
}

#[test]
fn text_without_terminator_is_the_whole_payload() {
    assert_eq!(get_dst_str_slice(b"hello"), Ok("hello"));
    assert_eq!(get_dst_str_slice("wörld".as_bytes()), Ok("wörld"));
    let bytes = [2, 0, 0, 0, 12, 0, 0, 0, b'G', b'R', b'U', b'B'];
    assert_eq!(BootLoaderNameTag::from_bytes(&bytes).unwrap().name(), Ok("GRUB"));
}

#[test]
fn padding_behind_the_terminator_is_not_looked_at() {
    assert_eq!(get_dst_str_slice(b"ok\0\xff\xfe"), Ok("ok"));
}

#[test]
fn invalid_utf8_gives_offset_of_first_invalid_byte() {
    assert_eq!(get_dst_str_slice(b"ab\xffcd\0"), Err(Utf8DecodeError { valid_up_to: 2 }));
    assert_eq!(get_dst_str_slice(b"\xff"), Err(Utf8DecodeError { valid_up_to: 0 }));
    assert_eq!(get_dst_str_slice(b"abc\x80"), Err(Utf8DecodeError { valid_up_to: 3 }));
    // a sequence that the terminator cuts short
    assert_eq!(get_dst_str_slice(b"a\xe2\x82\0"), Err(Utf8DecodeError { valid_up_to: 1 }));
    // an overlong encoding, a surrogate, a value beyond the last scalar
    assert_eq!(get_dst_str_slice(b"xy\xc0\xaf"), Err(Utf8DecodeError { valid_up_to: 2 }));
    assert_eq!(get_dst_str_slice(b"x\xed\xa0\x80"), Err(Utf8DecodeError { valid_up_to: 1 }));
    assert_eq!(get_dst_str_slice(b"\xf4\x90\x80\x80"), Err(Utf8DecodeError { valid_up_to: 0 }));
    // valid characters of several bytes before the invalid one
    assert_eq!(
        get_dst_str_slice("é€\u{10000}".as_bytes().iter().copied().chain([0xbf]).collect::<Vec<u8>>().as_slice()),
        Err(Utf8DecodeError { valid_up_to: 9 })
    );
    let e = get_dst_str_slice(b"ab\xffcd\0").unwrap_err();
    assert_eq!(e.valid_up_to(), 2);
}

#[test]
fn invalid_utf8_in_a_tag() {
    let bytes = [2, 0, 0, 0, 12, 0, 0, 0, b'G', 0xff, b'U', 0];
    let tag = BootLoaderNameTag::from_bytes(&bytes).unwrap();
    assert_eq!(tag.name(), Err(Utf8DecodeError { valid_up_to: 1 }));
}
