//! What a read gives back of a write.
use super::endian::{
    be_encode, byte_radix_pow, lemma_be_decode_encode, lemma_be_encode_len, lemma_radix_values,
    lemma_signed_unsigned, unsigned_of,
};
use super::read::{spec_fixed, spec_read_seq, spec_read_utf, WakfuBufReadable};
use super::write::{spec_write_all, spec_write_str, WakfuBufWritable};
use vstd::prelude::*;
use vstd::utf8::{decode_utf8, encode_utf8, valid_utf8};

verus! {

/// A type whose encoding reads back as the value that was written.
pub trait WakfuBufCodec: WakfuBufReadable + WakfuBufWritable {
    /// Whether this value is one that the encoding can carry: lengths that
    /// fit in a length byte, for the types that have one.
    spec fn spec_encodable(&self) -> bool;

    /// Reading the encoding of a value, whatever bytes follow it, gives the
    /// value back and takes exactly its encoding.
    proof fn lemma_read_after_write(&self, rest: Seq<u8>)
        requires
            self.spec_encodable(),
        ensures
            Self::spec_read(self.spec_write() + rest) == Some(
                (self.deep_view(), self.spec_write().len() as int),
            ),
    ;
}

/// A value read from its encoding followed by `rest` leaves `rest` to read.
pub proof fn lemma_read_after_write_then<A: WakfuBufCodec>(a: A, rest: Seq<u8>)
    requires
        a.spec_encodable(),
    ensures
        A::spec_read(a.spec_write() + rest) == Some((a.deep_view(), a.spec_write().len() as int)),
        (a.spec_write() + rest).skip(a.spec_write().len() as int) == rest,
{
    a.lemma_read_after_write(rest);
    assert((a.spec_write() + rest).skip(a.spec_write().len() as int) =~= rest);
}

proof fn lemma_fixed_after_encode(v: nat, width: nat, rest: Seq<u8>)
    requires
        v < byte_radix_pow(width),
    ensures
        spec_fixed(be_encode(v, width) + rest, width) == Some((v, width as int)),
        be_encode(v, width).len() == width,
{
    lemma_be_encode_len(v, width);
    assert((be_encode(v, width) + rest).take(width as int) =~= be_encode(v, width));
    lemma_be_decode_encode(v, width);
}


impl WakfuBufCodec for u8 {
    open spec fn spec_encodable(&self) -> bool {
        true
    }

    proof fn lemma_read_after_write(&self, rest: Seq<u8>) {
        assert((seq![*self] + rest)[0] == *self);
    }
}

impl WakfuBufCodec for i8 {
    open spec fn spec_encodable(&self) -> bool {
        true
    }

    proof fn lemma_read_after_write(&self, rest: Seq<u8>) {
        let b = *self as u8;
        assert((seq![b] + rest)[0] == b);
        assert((b as i8) == *self) by (bit_vector)
            requires
                b == *self as u8,
        ;
    }
}

impl WakfuBufCodec for bool {
    open spec fn spec_encodable(&self) -> bool {
        true
    }

    proof fn lemma_read_after_write(&self, rest: Seq<u8>) {
        let b: u8 = if *self {
            1
        } else {
            0
        };
        assert((seq![b] + rest)[0] == b);
    }
}

impl WakfuBufCodec for u16 {
    open spec fn spec_encodable(&self) -> bool {
        true
    }

    proof fn lemma_read_after_write(&self, rest: Seq<u8>) {
        lemma_radix_values();
        lemma_fixed_after_encode(*self as nat, 2, rest);
    }
}

impl WakfuBufCodec for u32 {
    open spec fn spec_encodable(&self) -> bool {
        true
    }

    proof fn lemma_read_after_write(&self, rest: Seq<u8>) {
        lemma_radix_values();
        lemma_fixed_after_encode(*self as nat, 4, rest);
    }
}

impl WakfuBufCodec for u64 {
    open spec fn spec_encodable(&self) -> bool {
        true
    }

    proof fn lemma_read_after_write(&self, rest: Seq<u8>) {
        lemma_radix_values();
        lemma_fixed_after_encode(*self as nat, 8, rest);
    }
}

impl WakfuBufCodec for i16 {
    open spec fn spec_encodable(&self) -> bool {
        true
    }

    proof fn lemma_read_after_write(&self, rest: Seq<u8>) {
        lemma_radix_values();
        lemma_signed_unsigned(*self as int, 2);
        lemma_fixed_after_encode(unsigned_of(*self as int, 2), 2, rest);
    }
}

impl WakfuBufCodec for i32 {
    open spec fn spec_encodable(&self) -> bool {
        true
    }

    proof fn lemma_read_after_write(&self, rest: Seq<u8>) {
        lemma_radix_values();
        lemma_signed_unsigned(*self as int, 4);
        lemma_fixed_after_encode(unsigned_of(*self as int, 4), 4, rest);
    }
}

impl WakfuBufCodec for i64 {
    open spec fn spec_encodable(&self) -> bool {
        true
    }

    proof fn lemma_read_after_write(&self, rest: Seq<u8>) {
        lemma_radix_values();
        lemma_signed_unsigned(*self as int, 8);
        lemma_fixed_after_encode(unsigned_of(*self as int, 8), 8, rest);
    }
}

/// A string's encoding reads back as the string, when its UTF-8 bytes fit a
/// length byte.
pub proof fn lemma_str_read_after_write(chars: Seq<char>, rest: Seq<u8>)
    requires
        encode_utf8(chars).len() < 256,
    ensures
        String::spec_read(spec_write_str(chars) + rest) == Some(
            (chars, spec_write_str(chars).len() as int),
        ),
{
    let bytes = encode_utf8(chars);
    let all = spec_write_str(chars) + rest;
    assert(all.skip(1) =~= bytes + rest);
    assert((bytes + rest).take(bytes.len() as int) =~= bytes);
    vstd::utf8::encode_utf8_valid_utf8(chars);
    vstd::utf8::encode_utf8_decode_utf8(chars);
    assert(spec_read_utf(all.skip(1), all[0] as int) == Some(chars));
}

impl WakfuBufCodec for String {
    /// Its UTF-8 bytes fit a length byte.
    open spec fn spec_encodable(&self) -> bool {
        encode_utf8(self@).len() < 256
    }

    proof fn lemma_read_after_write(&self, rest: Seq<u8>) {
        lemma_str_read_after_write(self@, rest);
    }
}

/// The deep views of `items`.
pub open spec fn deep_views<T: DeepView>(items: Seq<T>) -> Seq<<T as DeepView>::V> {
    Seq::new(items.len(), |i: int| items[i].deep_view())
}

/// Items written one after another read back, in order, whatever follows them.
pub proof fn lemma_read_seq_after_write_all<T: WakfuBufCodec>(items: Seq<T>, rest: Seq<u8>)
    requires
        forall|i: int| 0 <= i < items.len() ==> (#[trigger] items[i]).spec_encodable(),
    ensures
        spec_read_seq::<T>(spec_write_all(items) + rest, items.len()) == Some(
            (deep_views(items), spec_write_all(items).len() as int),
        ),
    decreases items.len(),
{
    if items.len() == 0 {
        assert(deep_views(items) =~= Seq::<<T as DeepView>::V>::empty());
    } else {
        let init = items.drop_last();
        let last = items.last();
        let w_init = spec_write_all(init);
        let w_last = last.spec_write();
        assert(forall|i: int| 0 <= i < init.len() ==> init[i] == items[i]);
        lemma_read_seq_after_write_all::<T>(init, w_last + rest);
        assert(spec_write_all(items) + rest =~= w_init + (w_last + rest));
        assert((w_init + (w_last + rest)).skip(w_init.len() as int) =~= w_last + rest);
        assert(items[items.len() - 1].spec_encodable());
        last.lemma_read_after_write(rest);
        assert(deep_views(init).push(last.deep_view()) =~= deep_views(items));
    }
}

impl<T: WakfuBufCodec> WakfuBufCodec for Vec<T> {
    /// At most 255 items, each of them encodable.
    open spec fn spec_encodable(&self) -> bool {
        &&& self@.len() < 256
        &&& forall|i: int| 0 <= i < self@.len() ==> (#[trigger] self@[i]).spec_encodable()
    }

    proof fn lemma_read_after_write(&self, rest: Seq<u8>) {
        let all = self.spec_write() + rest;
        assert(all.skip(1) =~= spec_write_all(self@) + rest);
        lemma_read_seq_after_write_all::<T>(self@, rest);
        assert(deep_views(self@) =~= self.deep_view());
    }
}

impl<T: WakfuBufCodec, const N: usize> WakfuBufCodec for [T; N] {
    /// Each item encodable.
    open spec fn spec_encodable(&self) -> bool {
        forall|i: int| 0 <= i < self@.len() ==> (#[trigger] self@[i]).spec_encodable()
    }

    proof fn lemma_read_after_write(&self, rest: Seq<u8>) {
        lemma_read_seq_after_write_all::<T>(self@, rest);
        assert(deep_views(self@) =~= self.deep_view());
        assert(self@.len() == N);
    }
}

impl<T: WakfuBufCodec> WakfuBufCodec for Option<T> {
    /// No value, or an encodable one.
    open spec fn spec_encodable(&self) -> bool {
        match self {
            Some(v) => v.spec_encodable(),
            None => true,
        }
    }

    proof fn lemma_read_after_write(&self, rest: Seq<u8>) {
        let all = self.spec_write() + rest;
        match self {
            Some(v) => {
                assert(all.skip(1) =~= v.spec_write() + rest);
                v.lemma_read_after_write(rest);
            },
            None => {
            },
        }
    }
}

} // verus!
