//! Encoding values into a byte buffer.
use super::endian::{
    be_bytes_i16, be_bytes_i32, be_bytes_i64, be_bytes_u16, be_bytes_u32, be_bytes_u64, be_encode,
    unsigned_of,
};
use vstd::prelude::*;
use vstd::string::StringSliceAdditionalSpecFns;
use vstd::utf8::encode_utf8;

verus! {

/// A type that can be encoded in the protocol's byte encoding.
pub trait WakfuBufWritable {
    /// The bytes that `write_into` appends for this value.
    spec fn spec_write(&self) -> Seq<u8>;

    /// Appends the encoding of this value to `buf`.
    fn write_into(&self, buf: &mut Vec<u8>)
        ensures
            final(buf)@ == old(buf)@ + self.spec_write(),
    ;
}

/// Appends `bytes` to `buf`.
pub fn append_bytes(buf: &mut Vec<u8>, bytes: &[u8])
    ensures
        final(buf)@ == old(buf)@ + bytes@,
{
    let mut i: usize = 0;
    while i < bytes.len()
        invariant
            0 <= i <= bytes@.len(),
            buf@ =~= old(buf)@ + bytes@.take(i as int),
        decreases bytes@.len() - i,
    {
        buf.push(bytes[i]);
        i = i + 1;
        proof {
            assert(bytes@.take(i as int) =~= bytes@.take(i - 1).push(bytes@[i - 1]));
        }
    }
    proof {
        assert(bytes@.take(bytes@.len() as int) =~= bytes@);
    }
}

/// The length byte that precedes `len` items: the length truncated to a
/// byte, that is, modulo 256.
pub open spec fn length_byte(len: nat) -> u8 {
    (len % 256) as u8
}

/// Writes a length byte and then `bytes`.
fn write_bytes_with_len(bytes: &[u8], buf: &mut Vec<u8>)
    ensures
        final(buf)@ == old(buf)@ + seq![length_byte(bytes@.len())] + bytes@,
{
    let len_byte = (bytes.len() % 256) as u8;
    buf.push(len_byte);
    append_bytes(buf, bytes);
}

impl WakfuBufWritable for u8 {
    open spec fn spec_write(&self) -> Seq<u8> {
        seq![*self]
    }

    fn write_into(&self, buf: &mut Vec<u8>) {
        buf.push(*self);
    }
}

impl WakfuBufWritable for i8 {
    open spec fn spec_write(&self) -> Seq<u8> {
        seq![*self as u8]
    }

    fn write_into(&self, buf: &mut Vec<u8>) {
        buf.push(#[verifier::truncate] (*self as u8));
    }
}

impl WakfuBufWritable for u16 {
    open spec fn spec_write(&self) -> Seq<u8> {
        be_encode(*self as nat, 2)
    }

    fn write_into(&self, buf: &mut Vec<u8>) {
        let bytes = be_bytes_u16(*self);
        append_bytes(buf, bytes.as_slice());
    }
}

impl WakfuBufWritable for i16 {
    open spec fn spec_write(&self) -> Seq<u8> {
        be_encode(unsigned_of(*self as int, 2), 2)
    }

    fn write_into(&self, buf: &mut Vec<u8>) {
        let bytes = be_bytes_i16(*self);
        append_bytes(buf, bytes.as_slice());
    }
}

impl WakfuBufWritable for u32 {
    open spec fn spec_write(&self) -> Seq<u8> {
        be_encode(*self as nat, 4)
    }

    fn write_into(&self, buf: &mut Vec<u8>) {
        let bytes = be_bytes_u32(*self);
        append_bytes(buf, bytes.as_slice());
    }
}

impl WakfuBufWritable for i32 {
    open spec fn spec_write(&self) -> Seq<u8> {
        be_encode(unsigned_of(*self as int, 4), 4)
    }

    fn write_into(&self, buf: &mut Vec<u8>) {
        let bytes = be_bytes_i32(*self);
        append_bytes(buf, bytes.as_slice());
    }
}

impl WakfuBufWritable for u64 {
    open spec fn spec_write(&self) -> Seq<u8> {
        be_encode(*self as nat, 8)
    }

    fn write_into(&self, buf: &mut Vec<u8>) {
        let bytes = be_bytes_u64(*self);
        append_bytes(buf, bytes.as_slice());
    }
}

impl WakfuBufWritable for i64 {
    open spec fn spec_write(&self) -> Seq<u8> {
        be_encode(unsigned_of(*self as int, 8), 8)
    }

    fn write_into(&self, buf: &mut Vec<u8>) {
        let bytes = be_bytes_i64(*self);
        append_bytes(buf, bytes.as_slice());
    }
}

impl WakfuBufWritable for bool {
    /// One byte: 1 for `true`, 0 for `false`.
    open spec fn spec_write(&self) -> Seq<u8> {
        seq![if *self { 1u8 } else { 0u8 }]
    }

    fn write_into(&self, buf: &mut Vec<u8>) {
        let byte: u8 = if *self {
            1
        } else {
            0
        };
        byte.write_into(buf);
    }
}

/// The encoding of a string: a length byte, then its UTF-8 bytes.
pub open spec fn spec_write_str(chars: Seq<char>) -> Seq<u8> {
    seq![length_byte(encode_utf8(chars).len())] + encode_utf8(chars)
}

impl WakfuBufWritable for String {
    /// A length byte, then the string's UTF-8 bytes.
    open spec fn spec_write(&self) -> Seq<u8> {
        spec_write_str(self@)
    }

    fn write_into(&self, buf: &mut Vec<u8>) {
        write_bytes_with_len(self.as_str().as_bytes(), buf);
    }
}

impl<'a> WakfuBufWritable for &'a str {
    /// A length byte, then the string's UTF-8 bytes.
    open spec fn spec_write(&self) -> Seq<u8> {
        spec_write_str(self@)
    }

    fn write_into(&self, buf: &mut Vec<u8>) {
        write_bytes_with_len(self.as_bytes(), buf);
    }
}

/// The encodings of `items`, one after another.
pub open spec fn spec_write_all<T: WakfuBufWritable>(items: Seq<T>) -> Seq<u8>
    decreases items.len(),
{
    if items.len() == 0 {
        Seq::empty()
    } else {
        spec_write_all(items.drop_last()) + items.last().spec_write()
    }
}

/// A run of bytes written one after another is those bytes, in order.
pub proof fn lemma_write_byte_run(bytes: Seq<u8>)
    ensures
        spec_write_all(bytes) == bytes,
    decreases bytes.len(),
{
    if bytes.len() > 0 {
        lemma_write_byte_run(bytes.drop_last());
        assert(bytes.drop_last() + seq![bytes.last()] =~= bytes);
    }
}

/// Writes each of `items` in turn.
fn write_all<T: WakfuBufWritable>(items: &[T], buf: &mut Vec<u8>)
    ensures
        final(buf)@ == old(buf)@ + spec_write_all(items@),
{
    let mut i: usize = 0;
    while i < items.len()
        invariant
            0 <= i <= items@.len(),
            buf@ == old(buf)@ + spec_write_all(items@.take(i as int)),
        decreases items@.len() - i,
    {
        items[i].write_into(buf);
        i = i + 1;
        proof {
            assert(items@.take(i as int).drop_last() =~= items@.take(i - 1));
            assert(buf@ =~= old(buf)@ + spec_write_all(items@.take(i as int)));
        }
    }
    proof {
        assert(items@.take(items@.len() as int) =~= items@);
    }
}

impl<T: WakfuBufWritable> WakfuBufWritable for Vec<T> {
    /// A length byte, then each item.
    open spec fn spec_write(&self) -> Seq<u8> {
        seq![length_byte(self@.len())] + spec_write_all(self@)
    }

    fn write_into(&self, buf: &mut Vec<u8>) {
        let len_byte = (self.len() % 256) as u8;
        len_byte.write_into(buf);
        write_all(self.as_slice(), buf);
        proof {
            assert(buf@ =~= old(buf)@ + self.spec_write());
        }
    }
}

impl<T: WakfuBufWritable, const N: usize> WakfuBufWritable for [T; N] {
    /// Each of the `N` items, with no length before them.
    open spec fn spec_write(&self) -> Seq<u8> {
        spec_write_all(self@)
    }

    fn write_into(&self, buf: &mut Vec<u8>) {
        write_all(self.as_slice(), buf);
    }
}

impl<T: WakfuBufWritable> WakfuBufWritable for Option<T> {
    /// A presence flag, then the value if there is one.
    open spec fn spec_write(&self) -> Seq<u8> {
        match self {
            Some(s) => seq![1u8] + s.spec_write(),
            None => seq![0u8],
        }
    }

    fn write_into(&self, buf: &mut Vec<u8>) {
        match self {
            Some(s) => {
                true.write_into(buf);
                s.write_into(buf);
                proof {
                    assert(buf@ =~= old(buf)@ + self.spec_write());
                }
            },
            None => {
                false.write_into(buf);
            },
        }
    }
}

} // verus!
