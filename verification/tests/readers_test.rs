use fdt_rs::base::node::bytes_as_str;
use fdt_rs::base::parse::{next_devtree_token, ParsedTok};
use fdt_rs::base::tree::{is_aligned, verify_offset_aligned, DevTree};
use fdt_rs::bytes::{
    nread_bstring0, read_be_u32, read_be_u64, read_bstring0, write_be_u32, write_be_u64,
};
use fdt_rs::common::prop::{bytes_eq, string_is, DevTreePropState};
use fdt_rs::error::{DevTreeError, SliceReadError};
use fdt_rs::index::store::{load, load_link, store, store_link};
use fdt_rs::wire::FdtTok;

fn be32(out: &mut Vec<u8>, value: u32) {
    out.extend_from_slice(&value.to_be_bytes());
}

/// A tree with one node that has one property with the given value.
fn one_prop_blob(value: &[u8]) -> Vec<u8> {
    let mut structs = Vec::new();
    be32(&mut structs, 1);
    be32(&mut structs, 0);
    be32(&mut structs, 3);
    be32(&mut structs, value.len() as u32);
    be32(&mut structs, 0);
    structs.extend_from_slice(value);
    while structs.len() % 4 != 0 {
        structs.push(0);
    }
    be32(&mut structs, 2);
    be32(&mut structs, 9);
    let strings = b"value\0";
    let total = 56 + structs.len() + strings.len();
    let mut out = Vec::new();
    be32(&mut out, 0xd00dfeed);
    be32(&mut out, total as u32);
    be32(&mut out, 56);
    be32(&mut out, (56 + structs.len()) as u32);
    be32(&mut out, 40);
    be32(&mut out, 17);
    be32(&mut out, 16);
    be32(&mut out, 0);
    be32(&mut out, strings.len() as u32);
    be32(&mut out, structs.len() as u32);
    out.extend_from_slice(&[0u8; 16]);
    out.extend_from_slice(&structs);
    out.extend_from_slice(strings);
    out
}

#[test]
fn big_endian_reads() {
    let buf = [0x12u8, 0x34, 0x56, 0x78, 0x9a, 0xbc, 0xde, 0xf0, 0x01];
    assert_eq!(read_be_u32(&buf, 0), Ok(0x12345678));
    assert_eq!(read_be_u32(&buf, 1), Ok(0x3456789a));
    assert_eq!(read_be_u32(&buf, 5), Ok(0xbcdef001));
    assert_eq!(read_be_u32(&buf, 6), Err(SliceReadError::UnexpectedEndOfInput));
    assert_eq!(read_be_u32(&buf, usize::MAX), Err(SliceReadError::UnexpectedEndOfInput));
    assert_eq!(read_be_u64(&buf, 0), Ok(0x123456789abcdef0));
    assert_eq!(read_be_u64(&buf, 1), Ok(0x3456789abcdef001));
    assert_eq!(read_be_u64(&buf, 2), Err(SliceReadError::UnexpectedEndOfInput));
    assert_eq!(read_be_u32(&buf[..3], 0), Err(SliceReadError::UnexpectedEndOfInput));
}

#[test]
fn big_endian_writes() {
    let mut buf = [0xffu8; 12];
    write_be_u32(&mut buf, 1, 0x01020304);
    assert_eq!(buf, [0xff, 1, 2, 3, 4, 0xff, 0xff, 0xff, 0xff, 0xff, 0xff, 0xff]);
    write_be_u64(&mut buf, 4, 0x1122334455667788);
    assert_eq!(buf, [0xff, 1, 2, 3, 0x11, 0x22, 0x33, 0x44, 0x55, 0x66, 0x77, 0x88]);
    assert_eq!(read_be_u64(&buf, 4), Ok(0x1122334455667788));
    write_be_u64(&mut buf, 0, u64::MAX);
    assert_eq!(read_be_u64(&buf, 0), Ok(u64::MAX));
}

#[test]
fn zero_terminated_strings() {
    let buf = b"ab\0cde\0f";
    assert_eq!(read_bstring0(buf, 0).unwrap(), b"ab");
    assert_eq!(read_bstring0(buf, 1).unwrap(), b"b");
    assert_eq!(read_bstring0(buf, 2).unwrap(), b"");
    assert_eq!(read_bstring0(buf, 3).unwrap(), b"cde");
    assert!(read_bstring0(buf, 7).is_err());
    assert!(read_bstring0(buf, 8).is_err());
    assert!(read_bstring0(buf, 100).is_err());
    assert_eq!(nread_bstring0(buf, 3, 4).unwrap(), b"cde");
    assert!(nread_bstring0(buf, 3, 3).is_err());
    assert!(nread_bstring0(buf, 3, 0).is_err());
    assert_eq!(nread_bstring0(buf, 0, usize::MAX).unwrap(), b"ab");
    assert!(bytes_eq(b"abc", b"abc"));
    assert!(!bytes_eq(b"abc", b"abd"));
    assert!(!bytes_eq(b"abc", b"ab"));
    assert!(string_is(buf, 3, b"cde"));
    assert!(!string_is(buf, 3, b"cd"));
    assert!(!string_is(buf, 7, b"f"));
}

#[test]
fn text_decoding() {
    assert_eq!(bytes_as_str(b"uart@10000000").unwrap(), "uart@10000000");
    assert_eq!(bytes_as_str("gr\u{fc}n".as_bytes()).unwrap(), "gr\u{fc}n");
    assert!(matches!(bytes_as_str(&[0x66, 0xff]), Err(DevTreeError::StrError(_))));
}

#[test]
fn token_words() {
    assert_eq!(FdtTok::from_u32(1), Some(FdtTok::BeginNode));
    assert_eq!(FdtTok::from_u32(2), Some(FdtTok::EndNode));
    assert_eq!(FdtTok::from_u32(3), Some(FdtTok::Prop));
    assert_eq!(FdtTok::from_u32(4), Some(FdtTok::Nop));
    assert_eq!(FdtTok::from_u32(9), Some(FdtTok::End));
    assert_eq!(FdtTok::from_u32(0), None);
    assert_eq!(FdtTok::from_u32(5), None);
    assert_eq!(FdtTok::from_u32(0xd00dfeed), None);
}

#[test]
fn alignment() {
    assert!(is_aligned(0));
    assert!(is_aligned(56));
    assert!(!is_aligned(57));
    assert_eq!(verify_offset_aligned(8).unwrap(), 8);
    assert!(matches!(verify_offset_aligned(6), Err(DevTreeError::ParseError)));
}

#[test]
fn tokens_one_by_one() {
    let mut buf = Vec::new();
    be32(&mut buf, 1);
    buf.extend_from_slice(b"node\0\0\0\0");
    be32(&mut buf, 3);
    be32(&mut buf, 5);
    be32(&mut buf, 7);
    buf.extend_from_slice(b"hello\0\0\0");
    be32(&mut buf, 4);
    be32(&mut buf, 2);
    be32(&mut buf, 9);
    be32(&mut buf, 0x55);
    let mut off = 0usize;
    match next_devtree_token(&buf, &mut off) {
        Ok(Some(ParsedTok::BeginNode(n))) => assert_eq!(n.name, b"node"),
        _ => panic!("no node"),
    }
    assert_eq!(off, 12);
    match next_devtree_token(&buf, &mut off) {
        Ok(Some(ParsedTok::Prop(p))) => {
            assert_eq!(p.prop_buf, b"hello");
            assert_eq!(p.name_offset, 7);
        }
        _ => panic!("no property"),
    }
    assert_eq!(off, 32);
    assert!(matches!(next_devtree_token(&buf, &mut off), Ok(Some(ParsedTok::Nop))));
    assert_eq!(off, 36);
    assert!(matches!(next_devtree_token(&buf, &mut off), Ok(Some(ParsedTok::EndNode))));
    assert_eq!(off, 40);
    assert!(matches!(next_devtree_token(&buf, &mut off), Ok(None)));
    assert_eq!(off, 44);
    // No token.
    assert!(matches!(next_devtree_token(&buf, &mut off), Err(DevTreeError::ParseError)));
    assert_eq!(off, 44);
    // Past the end, and at an odd offset.
    let mut off = 48usize;
    assert!(matches!(next_devtree_token(&buf, &mut off), Err(DevTreeError::ParseError)));
    let mut off = 1usize;
    assert!(matches!(next_devtree_token(&buf, &mut off), Err(DevTreeError::ParseError)));
    assert_eq!(off, 1);
}

#[test]
fn malformed_tokens() {
    // A name of 31 bytes is the longest.
    let mut buf = Vec::new();
    be32(&mut buf, 1);
    buf.extend_from_slice(&[b'n'; 31]);
    buf.push(0);
    be32(&mut buf, 9);
    let mut off = 0usize;
    match next_devtree_token(&buf, &mut off) {
        Ok(Some(ParsedTok::BeginNode(n))) => assert_eq!(n.name.len(), 31),
        _ => panic!("no node"),
    }
    assert_eq!(off, 36);
    let mut buf = Vec::new();
    be32(&mut buf, 1);
    buf.extend_from_slice(&[b'n'; 32]);
    buf.extend_from_slice(&[0; 4]);
    let mut off = 0usize;
    assert!(matches!(next_devtree_token(&buf, &mut off), Err(DevTreeError::ParseError)));
    assert_eq!(off, 0);
    // A name without its zero byte.
    let mut buf = Vec::new();
    be32(&mut buf, 1);
    buf.extend_from_slice(b"abcd");
    let mut off = 0usize;
    assert!(matches!(next_devtree_token(&buf, &mut off), Err(DevTreeError::ParseError)));
    // A value that leaves the buffer.
    let mut buf = Vec::new();
    be32(&mut buf, 3);
    be32(&mut buf, 5);
    be32(&mut buf, 0);
    buf.extend_from_slice(b"hell");
    let mut off = 0usize;
    assert!(matches!(next_devtree_token(&buf, &mut off), Err(DevTreeError::ParseError)));
    // A header that leaves the buffer.
    let mut off = 0usize;
    assert!(matches!(next_devtree_token(&buf[..8], &mut off), Err(DevTreeError::ParseError)));
    // A name offset beyond the buffer.
    let mut buf = Vec::new();
    be32(&mut buf, 3);
    be32(&mut buf, 0);
    be32(&mut buf, 13);
    let mut off = 0usize;
    assert!(matches!(next_devtree_token(&buf, &mut off), Err(DevTreeError::ParseError)));
    let mut buf = Vec::new();
    be32(&mut buf, 3);
    be32(&mut buf, 0);
    be32(&mut buf, 12);
    let mut off = 0usize;
    assert!(matches!(next_devtree_token(&buf, &mut off), Ok(Some(ParsedTok::Prop(_)))));
    assert_eq!(off, 12);
}

#[test]
fn integer_reads_of_a_value() {
    let blob = one_prop_blob(&[0x01, 0x02, 0x03, 0x04, 0x05, 0x06, 0x07, 0x08, 0x09]);
    let tree = DevTree::new(&blob).unwrap();
    let prop = tree.props().next().unwrap();
    assert_eq!(prop.length(), 9);
    assert_eq!(prop.name().unwrap(), "value");
    assert_eq!(prop.get_raw(), &[1, 2, 3, 4, 5, 6, 7, 8, 9]);
    assert_eq!(prop.get_u32(0).unwrap(), 0x01020304);
    assert_eq!(prop.get_u32(1).unwrap(), 0x02030405);
    assert_eq!(prop.get_u32(5).unwrap(), 0x06070809);
    assert!(matches!(prop.get_u32(6), Err(DevTreeError::InvalidOffset)));
    assert!(matches!(prop.get_u32(usize::MAX), Err(DevTreeError::InvalidOffset)));
    assert_eq!(prop.get_phandle(4).unwrap(), 0x05060708);
    assert!(matches!(prop.get_phandle(9), Err(DevTreeError::InvalidOffset)));
    assert_eq!(prop.get_u64(0).unwrap(), 0x0102030405060708);
    assert_eq!(prop.get_u64(1).unwrap(), 0x0203040506070809);
    assert!(matches!(prop.get_u64(2), Err(DevTreeError::InvalidOffset)));
    // A failed read does not spoil the next.
    assert_eq!(prop.get_u32(0).unwrap(), 0x01020304);
}

#[test]
fn string_reads_of_a_value() {
    let blob = one_prop_blob(b"first\0second\0\0last\0");
    let tree = DevTree::new(&blob).unwrap();
    let prop = tree.props().next().unwrap();
    assert_eq!(prop.get_str().unwrap(), "first");
    assert_eq!(prop.get_str_at(6).unwrap(), "second");
    assert_eq!(prop.get_str_at(8).unwrap(), "cond");
    assert_eq!(prop.get_str_at(13).unwrap(), "");
    assert!(matches!(prop.get_str_at(19), Err(DevTreeError::ParseError)));
    assert_eq!(prop.get_str_count().unwrap(), 4);
    let mut list: [Option<&str>; 6] = [None, None, None, None, Some("kept"), None];
    assert_eq!(prop.get_strlist(&mut list).unwrap(), 4);
    assert_eq!(list, [Some("first"), Some("second"), Some(""), Some("last"), Some("kept"), None]);
    assert!(prop.is_compatible("first") == false);
    // A list that is too short is filled as far as it goes.
    let mut short: [Option<&str>; 2] = [None, None];
    assert!(matches!(prop.get_strlist(&mut short), Err(DevTreeError::NotEnoughMemory)));
    assert_eq!(short, [Some("first"), Some("second")]);
    // No strings at all.
    let blob = one_prop_blob(b"");
    let tree = DevTree::new(&blob).unwrap();
    let prop = tree.props().next().unwrap();
    assert_eq!(prop.get_str_count().unwrap(), 0);
    let mut list: [Option<&str>; 1] = [Some("kept")];
    assert_eq!(prop.get_strlist(&mut list).unwrap(), 0);
    assert_eq!(list, [Some("kept")]);
    assert!(matches!(prop.get_str(), Err(DevTreeError::ParseError)));
}

#[test]
fn string_reads_that_fail() {
    // The last string lacks its zero byte.
    let blob = one_prop_blob(b"ok\0open");
    let tree = DevTree::new(&blob).unwrap();
    let prop = tree.props().next().unwrap();
    assert!(matches!(prop.get_str_count(), Err(DevTreeError::ParseError)));
    let mut list: [Option<&str>; 4] = [None; 4];
    assert!(matches!(prop.get_strlist(&mut list), Err(DevTreeError::ParseError)));
    assert_eq!(list, [Some("ok"), None, None, None]);
    assert_eq!(prop.get_str().unwrap(), "ok");
    // A string that is no text counts, but is not handed out.
    let blob = one_prop_blob(&[b'a', 0, 0xff, 0xfe, 0, b'b', 0]);
    let tree = DevTree::new(&blob).unwrap();
    let prop = tree.props().next().unwrap();
    assert_eq!(prop.get_str_count().unwrap(), 3);
    let mut list: [Option<&str>; 4] = [None; 4];
    assert!(matches!(prop.get_strlist(&mut list), Err(DevTreeError::StrError(_))));
    assert_eq!(list, [Some("a"), None, None, None]);
    assert!(matches!(prop.get_str_at(2), Err(DevTreeError::StrError(_))));
    // Text comes before room: with no room left the bad string is still
    // what is reported.
    let mut one: [Option<&str>; 1] = [None];
    assert!(matches!(prop.get_strlist(&mut one), Err(DevTreeError::StrError(_))));
}

#[test]
fn record_store() {
    let mut buf = vec![0u8; 2 * 56 + 10];
    store(&mut buf, 1, 6, 0x0102030405060708);
    assert_eq!(load(&buf, 1, 6), 0x0102030405060708);
    assert_eq!(&buf[104..112], &[1, 2, 3, 4, 5, 6, 7, 8]);
    assert_eq!(load(&buf, 1, 5), 0);
    assert_eq!(load(&buf, 0, 6), 0);
    store_link(&mut buf, 0, 3, Some(1));
    assert_eq!(load_link(&buf, 0, 3), Some(1));
    assert_eq!(load(&buf, 0, 3), 2);
    store_link(&mut buf, 0, 3, Some(0));
    assert_eq!(load_link(&buf, 0, 3), Some(0));
    store_link(&mut buf, 0, 3, None);
    assert_eq!(load_link(&buf, 0, 3), None);
    assert_eq!(load(&buf, 1, 6), 0x0102030405060708);
}
