use wakfu::buf::cursor::ByteCursor;
use wakfu::buf::error::{BufReadError, IoErrorKind};
use wakfu::buf::read::{read_bytes, read_utf_with_len, WakfuBufReadable};
use wakfu::buf::write::WakfuBufWritable;

fn encode<T: WakfuBufWritable>(value: &T) -> Vec<u8> {
    let mut buf = Vec::new();
    value.write_into(&mut buf);
    buf
}

#[test]
fn integers_are_big_endian() {
    assert_eq!(encode(&0x1234u16), vec![0x12, 0x34]);
    assert_eq!(encode(&0x01020304u32), vec![1, 2, 3, 4]);
    assert_eq!(encode(&0x0102030405060708u64), vec![1, 2, 3, 4, 5, 6, 7, 8]);
    assert_eq!(encode(&-2i16), vec![0xff, 0xfe]);
    assert_eq!(encode(&-1i32), vec![0xff; 4]);
    assert_eq!(encode(&-256i64), vec![0xff, 0xff, 0xff, 0xff, 0xff, 0xff, 0xff, 0x00]);
    assert_eq!(encode(&200u8), vec![200]);
    assert_eq!(encode(&-1i8), vec![0xff]);
}

#[test]
fn integers_read_big_endian() {
    let mut c = ByteCursor::new(vec![0x12, 0x34, 0xff, 0xfe, 9]);
    assert_eq!(u16::read_from(&mut c).unwrap(), 0x1234);
    assert_eq!(i16::read_from(&mut c).unwrap(), -2);
    assert_eq!(c.position(), 4);
    assert_eq!(i8::read_from(&mut c).unwrap(), 9);
    assert_eq!(c.remaining_len(), 0);

    let mut c = ByteCursor::new(vec![0x80, 0, 0, 0, 0, 0, 0, 1]);
    assert_eq!(i64::read_from(&mut c).unwrap(), i64::MIN + 1);
    let mut c = ByteCursor::new(vec![0x80, 0, 0, 0, 0, 0, 0, 1]);
    assert_eq!(u64::read_from(&mut c).unwrap(), 0x8000_0000_0000_0001);
    let mut c = ByteCursor::new(vec![0xde, 0xad, 0xbe, 0xef]);
    assert_eq!(u32::read_from(&mut c).unwrap(), 0xdead_beef);
    let mut c = ByteCursor::new(vec![0xde, 0xad, 0xbe, 0xef]);
    assert_eq!(i32::read_from(&mut c).unwrap(), 0xdead_beefu32 as i32);
}

#[test]
fn short_integer_read_fails_and_moves_to_end() {
    let mut c = ByteCursor::new(vec![1, 2, 3]);
    let e = u32::read_from(&mut c).unwrap_err();
    assert!(matches!(e, BufReadError::Io { kind: IoErrorKind::UnexpectedEof }));
    assert_eq!(c.position(), 3);

    let mut c = ByteCursor::new(vec![]);
    assert!(matches!(u8::read_from(&mut c), Err(BufReadError::Io { .. })));
}

#[test]
fn bool_reads_any_nonzero_as_true() {
    let mut c = ByteCursor::new(vec![0, 1, 7]);
    assert!(!bool::read_from(&mut c).unwrap());
    assert!(bool::read_from(&mut c).unwrap());
    assert!(bool::read_from(&mut c).unwrap());
    assert_eq!(encode(&true), vec![1]);
    assert_eq!(encode(&false), vec![0]);
}

#[test]
fn string_has_a_length_byte() {
    assert_eq!(encode(&"-1".to_string()), vec![2, b'-', b'1']);
    assert_eq!(encode(&"é"), vec![2, 0xc3, 0xa9]);
    let mut c = ByteCursor::new(vec![3, b'a', b'b', b'c', 9]);
    assert_eq!(String::read_from(&mut c).unwrap(), "abc");
    assert_eq!(c.position(), 4);
}

#[test]
fn string_too_short_is_unexpected_eof() {
    let mut c = ByteCursor::new(vec![5, b'a', b'b']);
    match String::read_from(&mut c) {
        Err(BufReadError::UnexpectedEof { attempted_read, actual_read }) => {
            assert_eq!(attempted_read, 5);
            assert_eq!(actual_read, 2);
        }
        other => panic!("unexpected {:?}", other),
    }
    assert_eq!(c.position(), 1);
}

#[test]
fn string_of_bad_utf8_is_invalid_utf8() {
    let mut c = ByteCursor::new(vec![2, 0xff, b'a']);
    match String::read_from(&mut c) {
        Err(BufReadError::InvalidUtf8 { bytes, lossy }) => {
            assert_eq!(bytes, vec![0xff, b'a']);
            assert_eq!(lossy, "\u{fffd}a");
        }
        other => panic!("unexpected {:?}", other),
    }
    assert_eq!(c.position(), 3);
}

#[test]
fn read_bytes_takes_or_fails_in_place() {
    let mut c = ByteCursor::new(vec![1, 2, 3]);
    assert_eq!(read_bytes(&mut c, 2).unwrap(), vec![1, 2]);
    assert!(matches!(
        read_bytes(&mut c, 2),
        Err(BufReadError::UnexpectedEof { attempted_read: 2, actual_read: 1 })
    ));
    assert_eq!(c.position(), 2);
    assert_eq!(read_utf_with_len(&mut c, 0).unwrap(), "");
}

#[test]
fn vec_has_a_length_byte() {
    assert_eq!(encode(&vec![1u16, 2u16]), vec![2, 0, 1, 0, 2]);
    let mut c = ByteCursor::new(vec![2, 0, 1, 0, 2]);
    assert_eq!(Vec::<u16>::read_from(&mut c).unwrap(), vec![1, 2]);
    let mut c = ByteCursor::new(vec![0]);
    assert_eq!(Vec::<u8>::read_from(&mut c).unwrap(), Vec::<u8>::new());
}

#[test]
fn vec_length_byte_wraps() {
    let long = vec![7u8; 257];
    let bytes = encode(&long);
    assert_eq!(bytes[0], 1);
    assert_eq!(bytes.len(), 258);
}

#[test]
fn vec_read_fails_where_an_item_fails() {
    let mut c = ByteCursor::new(vec![3, 0, 1, 0]);
    assert!(matches!(
        Vec::<u16>::read_from(&mut c),
        Err(BufReadError::Io { kind: IoErrorKind::UnexpectedEof })
    ));
    assert_eq!(c.position(), 4);
}

#[test]
fn array_has_no_length() {
    let mut c = ByteCursor::new(vec![10, 0, 0, 1]);
    assert_eq!(<[u8; 4]>::read_from(&mut c).unwrap(), [10, 0, 0, 1]);
    assert_eq!(encode(&[1u8, 2, 3]), vec![1, 2, 3]);
    let mut c = ByteCursor::new(vec![10, 0]);
    assert!(<[u8; 4]>::read_from(&mut c).is_err());
}

#[test]
fn option_has_a_presence_flag() {
    assert_eq!(encode(&Some(5u8)), vec![1, 5]);
    assert_eq!(encode(&None::<u8>), vec![0]);
    let mut c = ByteCursor::new(vec![1, 5, 0]);
    assert_eq!(Option::<u8>::read_from(&mut c).unwrap(), Some(5));
    assert_eq!(Option::<u8>::read_from(&mut c).unwrap(), None);
    let mut c = ByteCursor::new(vec![2]);
    assert!(Option::<u8>::read_from(&mut c).is_err());
}

#[test]
fn values_read_back_as_written() {
    let mut buf = Vec::new();
    0xabcdu16.write_into(&mut buf);
    (-5i32).write_into(&mut buf);
    "wakfu".to_string().write_into(&mut buf);
    vec![Some(1u64), None].write_into(&mut buf);
    [true, false].write_into(&mut buf);
    let mut c = ByteCursor::new(buf);
    assert_eq!(u16::read_from(&mut c).unwrap(), 0xabcd);
    assert_eq!(i32::read_from(&mut c).unwrap(), -5);
    assert_eq!(String::read_from(&mut c).unwrap(), "wakfu");
    assert_eq!(Vec::<Option<u64>>::read_from(&mut c).unwrap(), vec![Some(1), None]);
    assert_eq!(<[bool; 2]>::read_from(&mut c).unwrap(), [true, false]);
    assert_eq!(c.remaining_len(), 0);
}
