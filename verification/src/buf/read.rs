//! Decoding values from a byte cursor.
use super::cursor::ByteCursor;
use super::endian::{
    be_value, byte_radix_pow, lemma_be_value_bound, lemma_radix_values, read_be_i16, read_be_i32,
    read_be_i64, read_be_u16, read_be_u32, read_be_u64, signed_of,
};
use super::error::{is_eof_io_error, BufReadError, IoErrorKind};
use vstd::prelude::*;
use vstd::string::StringSliceAdditionalSpecFns;
use vstd::utf8::{decode_utf8, valid_utf8};

verus! {

/// A type that can be decoded from the protocol's byte encoding.
///
/// `spec_read` says what a read gives on each input, and `spec_read_error`
/// which error a failed read gives and how far it moved the cursor.
pub trait WakfuBufReadable: Sized + DeepView {
    /// The value encoded at the front of `bytes` and the number of bytes its
    /// encoding takes, or `None` where `bytes` do not begin with an encoding.
    spec fn spec_read(bytes: Seq<u8>) -> Option<(<Self as DeepView>::V, int)>;

    /// Whether `e` is the error of reading from `bytes`, after which the cursor
    /// has moved `moved` bytes.
    spec fn spec_read_error(bytes: Seq<u8>, e: BufReadError, moved: int) -> bool;

    /// A decoded value takes at most the bytes there are.
    proof fn lemma_spec_read_len(bytes: Seq<u8>)
        ensures
            Self::spec_read(bytes) matches Some((_, n)) ==> 0 <= n <= bytes.len(),
    ;

    /// Decodes a value at the cursor and moves the cursor past its encoding.
    fn read_from(buf: &mut ByteCursor) -> (r: Result<Self, BufReadError>)
        ensures
            final(buf).contents() == old(buf).contents(),
            (match Self::spec_read(old(buf).remaining()) {
                Some((v, n)) => r matches Ok(x) && x.deep_view() == v && final(buf).pos() == old(
                    buf,
                ).pos() + n && final(buf).remaining() == old(buf).remaining().skip(n),
                None => r matches Err(e) && Self::spec_read_error(
                    old(buf).remaining(),
                    e,
                    final(buf).pos() - old(buf).pos(),
                ),
            }),
    ;
}

/// Skipping `a` bytes and then `b` skips `a + b`.
pub proof fn lemma_skip_skip(s: Seq<u8>, a: int, b: int)
    requires
        0 <= a,
        0 <= b,
        a + b <= s.len(),
    ensures
        s.skip(a).skip(b) == s.skip(a + b),
{
    assert(s.skip(a).skip(b) =~= s.skip(a + b));
}

/// An integer of `width` bytes at the front of `bytes`: their unsigned value.
pub open spec fn spec_fixed(bytes: Seq<u8>, width: nat) -> Option<(nat, int)> {
    if bytes.len() >= width {
        Some((be_value(bytes.take(width as int)), width as int))
    } else {
        None
    }
}

/// A failed integer read: the cursor is moved to the end of the buffer.
pub open spec fn spec_fixed_error(bytes: Seq<u8>, e: BufReadError, moved: int) -> bool {
    is_eof_io_error(e) && moved == bytes.len()
}

/// Checks that `width` bytes are left; where they are not, moves the cursor
/// to the end and returns the error that a short integer read gives.
fn check_fixed(buf: &mut ByteCursor, width: usize) -> (r: Result<usize, BufReadError>)
    ensures
        final(buf).contents() == old(buf).contents(),
        (match r {
            Ok(at) => at == old(buf).pos() && final(buf).pos() == old(buf).pos() && old(
                buf,
            ).remaining().len() >= width && at + width <= old(buf).contents().len(),
            Err(e) => old(buf).remaining().len() < width && spec_fixed_error(
                old(buf).remaining(),
                e,
                final(buf).pos() - old(buf).pos(),
            ),
        }),
{
    if buf.remaining_len() < width {
        buf.seek_end();
        Err(BufReadError::Io { kind: IoErrorKind::UnexpectedEof })
    } else {
        Ok(buf.position())
    }
}

proof fn lemma_fixed_window(buf: ByteCursor, width: nat)
    requires
        buf.pos() >= 0,
        buf.pos() + width <= buf.contents().len(),
    ensures
        buf.remaining().take(width as int) == buf.contents().subrange(
            buf.pos(),
            buf.pos() + width,
        ),
        be_value(buf.remaining().take(width as int)) < byte_radix_pow(width),
{
    assert(buf.remaining().take(width as int) =~= buf.contents().subrange(
        buf.pos(),
        buf.pos() + width,
    ));
    lemma_be_value_bound(buf.remaining().take(width as int));
}


impl WakfuBufReadable for u8 {
    open spec fn spec_read(bytes: Seq<u8>) -> Option<(u8, int)> {
        if bytes.len() >= 1 {
            Some((bytes[0], 1))
        } else {
            None
        }
    }

    open spec fn spec_read_error(bytes: Seq<u8>, e: BufReadError, moved: int) -> bool {
        spec_fixed_error(bytes, e, moved)
    }

    proof fn lemma_spec_read_len(bytes: Seq<u8>) {
    }

    fn read_from(buf: &mut ByteCursor) -> (r: Result<u8, BufReadError>) {
        let at = match check_fixed(buf, 1) {
            Ok(at) => at,
            Err(e) => return Err(e),
        };
        let b = buf.get_ref()[at];
        buf.advance(1);
        Ok(b)
    }
}

impl WakfuBufReadable for i8 {
    open spec fn spec_read(bytes: Seq<u8>) -> Option<(i8, int)> {
        if bytes.len() >= 1 {
            Some((bytes[0] as i8, 1))
        } else {
            None
        }
    }

    open spec fn spec_read_error(bytes: Seq<u8>, e: BufReadError, moved: int) -> bool {
        spec_fixed_error(bytes, e, moved)
    }

    proof fn lemma_spec_read_len(bytes: Seq<u8>) {
    }

    fn read_from(buf: &mut ByteCursor) -> (r: Result<i8, BufReadError>) {
        let at = match check_fixed(buf, 1) {
            Ok(at) => at,
            Err(e) => return Err(e),
        };
        let b = buf.get_ref()[at];
        buf.advance(1);
        Ok(#[verifier::truncate] (b as i8))
    }
}

impl WakfuBufReadable for u16 {
    open spec fn spec_read(bytes: Seq<u8>) -> Option<(u16, int)> {
        match spec_fixed(bytes, 2) {
            Some((v, n)) => Some((v as u16, n)),
            None => None,
        }
    }

    open spec fn spec_read_error(bytes: Seq<u8>, e: BufReadError, moved: int) -> bool {
        spec_fixed_error(bytes, e, moved)
    }

    proof fn lemma_spec_read_len(bytes: Seq<u8>) {
    }

    fn read_from(buf: &mut ByteCursor) -> (r: Result<u16, BufReadError>) {
        let at = match check_fixed(buf, 2) {
            Ok(at) => at,
            Err(e) => return Err(e),
        };
        let n = read_be_u16(buf.get_ref(), at);
        proof {
            lemma_fixed_window(*buf, 2);
            lemma_radix_values();
        }
        buf.advance(2);
        Ok(n)
    }
}

impl WakfuBufReadable for i16 {
    open spec fn spec_read(bytes: Seq<u8>) -> Option<(i16, int)> {
        match spec_fixed(bytes, 2) {
            Some((v, n)) => Some((signed_of(v, 2) as i16, n)),
            None => None,
        }
    }

    open spec fn spec_read_error(bytes: Seq<u8>, e: BufReadError, moved: int) -> bool {
        spec_fixed_error(bytes, e, moved)
    }

    proof fn lemma_spec_read_len(bytes: Seq<u8>) {
    }

    fn read_from(buf: &mut ByteCursor) -> (r: Result<i16, BufReadError>) {
        let at = match check_fixed(buf, 2) {
            Ok(at) => at,
            Err(e) => return Err(e),
        };
        let n = read_be_i16(buf.get_ref(), at);
        proof {
            lemma_fixed_window(*buf, 2);
        }
        buf.advance(2);
        Ok(n)
    }
}

impl WakfuBufReadable for u32 {
    open spec fn spec_read(bytes: Seq<u8>) -> Option<(u32, int)> {
        match spec_fixed(bytes, 4) {
            Some((v, n)) => Some((v as u32, n)),
            None => None,
        }
    }

    open spec fn spec_read_error(bytes: Seq<u8>, e: BufReadError, moved: int) -> bool {
        spec_fixed_error(bytes, e, moved)
    }

    proof fn lemma_spec_read_len(bytes: Seq<u8>) {
    }

    fn read_from(buf: &mut ByteCursor) -> (r: Result<u32, BufReadError>) {
        let at = match check_fixed(buf, 4) {
            Ok(at) => at,
            Err(e) => return Err(e),
        };
        let n = read_be_u32(buf.get_ref(), at);
        proof {
            lemma_fixed_window(*buf, 4);
            lemma_radix_values();
        }
        buf.advance(4);
        Ok(n)
    }
}

impl WakfuBufReadable for i32 {
    open spec fn spec_read(bytes: Seq<u8>) -> Option<(i32, int)> {
        match spec_fixed(bytes, 4) {
            Some((v, n)) => Some((signed_of(v, 4) as i32, n)),
            None => None,
        }
    }

    open spec fn spec_read_error(bytes: Seq<u8>, e: BufReadError, moved: int) -> bool {
        spec_fixed_error(bytes, e, moved)
    }

    proof fn lemma_spec_read_len(bytes: Seq<u8>) {
    }

    fn read_from(buf: &mut ByteCursor) -> (r: Result<i32, BufReadError>) {
        let at = match check_fixed(buf, 4) {
            Ok(at) => at,
            Err(e) => return Err(e),
        };
        let n = read_be_i32(buf.get_ref(), at);
        proof {
            lemma_fixed_window(*buf, 4);
        }
        buf.advance(4);
        Ok(n)
    }
}

impl WakfuBufReadable for u64 {
    open spec fn spec_read(bytes: Seq<u8>) -> Option<(u64, int)> {
        match spec_fixed(bytes, 8) {
            Some((v, n)) => Some((v as u64, n)),
            None => None,
        }
    }

    open spec fn spec_read_error(bytes: Seq<u8>, e: BufReadError, moved: int) -> bool {
        spec_fixed_error(bytes, e, moved)
    }

    proof fn lemma_spec_read_len(bytes: Seq<u8>) {
    }

    fn read_from(buf: &mut ByteCursor) -> (r: Result<u64, BufReadError>) {
        let at = match check_fixed(buf, 8) {
            Ok(at) => at,
            Err(e) => return Err(e),
        };
        let n = read_be_u64(buf.get_ref(), at);
        proof {
            lemma_fixed_window(*buf, 8);
            lemma_radix_values();
        }
        buf.advance(8);
        Ok(n)
    }
}

impl WakfuBufReadable for i64 {
    open spec fn spec_read(bytes: Seq<u8>) -> Option<(i64, int)> {
        match spec_fixed(bytes, 8) {
            Some((v, n)) => Some((signed_of(v, 8) as i64, n)),
            None => None,
        }
    }

    open spec fn spec_read_error(bytes: Seq<u8>, e: BufReadError, moved: int) -> bool {
        spec_fixed_error(bytes, e, moved)
    }

    proof fn lemma_spec_read_len(bytes: Seq<u8>) {
    }

    fn read_from(buf: &mut ByteCursor) -> (r: Result<i64, BufReadError>) {
        let at = match check_fixed(buf, 8) {
            Ok(at) => at,
            Err(e) => return Err(e),
        };
        let n = read_be_i64(buf.get_ref(), at);
        proof {
            lemma_fixed_window(*buf, 8);
        }
        buf.advance(8);
        Ok(n)
    }
}

impl WakfuBufReadable for bool {
    /// Any non-zero byte reads as `true`.
    open spec fn spec_read(bytes: Seq<u8>) -> Option<(bool, int)> {
        if bytes.len() >= 1 {
            Some((bytes[0] != 0, 1))
        } else {
            None
        }
    }

    open spec fn spec_read_error(bytes: Seq<u8>, e: BufReadError, moved: int) -> bool {
        spec_fixed_error(bytes, e, moved)
    }

    proof fn lemma_spec_read_len(bytes: Seq<u8>) {
    }

    fn read_from(buf: &mut ByteCursor) -> (r: Result<bool, BufReadError>) {
        let byte = u8::read_from(buf)?;
        Ok(byte != 0)
    }
}


/// The characters that `String::from_utf8_lossy` makes of `bytes`.
pub uninterp spec fn lossy_utf8(bytes: Seq<u8>) -> Seq<char>;

/// Calls `std::str::from_utf8`: a string whose bytes are `bytes`, where they
/// are valid UTF-8, and `None` where they are not.
#[verifier::external_body]
pub(crate) fn str_from_utf8(bytes: &[u8]) -> (r: Option<&str>)
    ensures
        r is Some <==> valid_utf8(bytes@),
        r matches Some(s) ==> s.spec_bytes() == bytes@,
{
    std::str::from_utf8(bytes).ok()
}

/// Calls `String::from_utf8_lossy`: `bytes` decoded, with each invalid
/// sequence replaced by U+FFFD. What that decoding is, is left to the named
/// result `lossy_utf8`.
#[verifier::external_body]
fn utf8_lossy(bytes: &[u8]) -> (s: String)
    ensures
        s@ == lossy_utf8(bytes@),
{
    String::from_utf8_lossy(bytes).to_string()
}

/// Takes the next `length` bytes, or fails with `UnexpectedEof` without moving
/// the cursor where fewer are left.
pub fn read_bytes(buf: &mut ByteCursor, length: usize) -> (r: Result<Vec<u8>, BufReadError>)
    ensures
        final(buf).contents() == old(buf).contents(),
        length <= old(buf).remaining().len() ==> (r matches Ok(data) && data@ == old(
            buf,
        ).remaining().take(length as int) && final(buf).pos() == old(buf).pos() + length
            && final(buf).remaining() == old(buf).remaining().skip(length as int)),
        length > old(buf).remaining().len() ==> (r matches Err(e) && e matches BufReadError::UnexpectedEof { attempted_read, actual_read } && attempted_read == length && actual_read
            == old(buf).remaining().len() && final(buf).pos() == old(buf).pos()),
{
    let available = buf.remaining_len();
    if length > available {
        return Err(BufReadError::UnexpectedEof { attempted_read: length, actual_read: available });
    }
    Ok(buf.take_bytes(length))
}

/// The string held by the first `length` bytes of `bytes`, where there are
/// that many and they are valid UTF-8.
pub open spec fn spec_read_utf(bytes: Seq<u8>, length: int) -> Option<Seq<char>> {
    if length <= bytes.len() && valid_utf8(bytes.take(length)) {
        Some(decode_utf8(bytes.take(length)))
    } else {
        None
    }
}

/// The error of reading a string of `length` bytes from `bytes`, the cursor
/// having moved `moved` bytes: `UnexpectedEof` without moving where there are
/// fewer bytes, else `InvalidUtf8` past the bytes read.
pub open spec fn spec_read_utf_error(
    bytes: Seq<u8>,
    length: int,
    e: BufReadError,
    moved: int,
) -> bool {
    if length > bytes.len() {
        &&& e matches BufReadError::UnexpectedEof { attempted_read, actual_read }
        &&& attempted_read == length
        &&& actual_read == bytes.len()
        &&& moved == 0
    } else {
        &&& e matches BufReadError::InvalidUtf8 { bytes: data, lossy }
        &&& data@ == bytes.take(length)
        &&& lossy@ == lossy_utf8(bytes.take(length))
        &&& moved == length
    }
}

/// Reads a string of `length` bytes of UTF-8.
pub fn read_utf_with_len(buf: &mut ByteCursor, length: usize) -> (r: Result<String, BufReadError>)
    ensures
        final(buf).contents() == old(buf).contents(),
        (match spec_read_utf(old(buf).remaining(), length as int) {
            Some(s) => r matches Ok(x) && x@ == s && final(buf).pos() == old(buf).pos() + length
                && final(buf).remaining() == old(buf).remaining().skip(length as int),
            None => r matches Err(e) && spec_read_utf_error(
                old(buf).remaining(),
                length as int,
                e,
                final(buf).pos() - old(buf).pos(),
            ),
        }),
{
    let data = match read_bytes(buf, length) {
        Ok(data) => data,
        Err(e) => return Err(e),
    };
    match str_from_utf8(data.as_slice()) {
        Some(s) => {
            let string = s.to_string();
            proof {
                vstd::utf8::encode_utf8_decode_utf8(s@);
                broadcast use vstd::string::to_string_from_display_ensures_for_str;
            }
            Ok(string)
        },
        None => {
            let lossy = utf8_lossy(data.as_slice());
            Err(BufReadError::InvalidUtf8 { bytes: data, lossy })
        },
    }
}

impl WakfuBufReadable for String {
    /// A length byte, then that many bytes of UTF-8.
    open spec fn spec_read(bytes: Seq<u8>) -> Option<(Seq<char>, int)> {
        if bytes.len() >= 1 {
            match spec_read_utf(bytes.skip(1), bytes[0] as int) {
                Some(s) => Some((s, 1 + bytes[0])),
                None => None,
            }
        } else {
            None
        }
    }

    open spec fn spec_read_error(bytes: Seq<u8>, e: BufReadError, moved: int) -> bool {
        if bytes.len() >= 1 {
            spec_read_utf_error(bytes.skip(1), bytes[0] as int, e, moved - 1)
        } else {
            spec_fixed_error(bytes, e, moved)
        }
    }

    proof fn lemma_spec_read_len(bytes: Seq<u8>) {
    }

    fn read_from(buf: &mut ByteCursor) -> (r: Result<String, BufReadError>) {
        let ghost start = buf.remaining();
        let length = match u8::read_from(buf) {
            Ok(length) => length,
            Err(e) => return Err(e),
        };
        proof {
            if 1 + length <= start.len() {
                assert(start.skip(1).skip(length as int) =~= start.skip(1 + length));
            }
        }
        read_utf_with_len(buf, length as usize)
    }
}


/// `count` values of `T` one after another at the front of `bytes`, and the
/// number of bytes they take together.
pub open spec fn spec_read_seq<T: WakfuBufReadable>(bytes: Seq<u8>, count: nat) -> Option<
    (Seq<<T as DeepView>::V>, int),
>
    decreases count,
{
    if count == 0 {
        Some((Seq::empty(), 0))
    } else {
        match spec_read_seq::<T>(bytes, (count - 1) as nat) {
            Some((vs, n)) => match T::spec_read(bytes.skip(n)) {
                Some((v, m)) => Some((vs.push(v), n + m)),
                None => None,
            },
            None => None,
        }
    }
}

/// The error of reading `count` values of `T` from `bytes`: the first value
/// that cannot be read fails with `e`, the cursor having moved `moved` bytes.
pub open spec fn spec_read_seq_error<T: WakfuBufReadable>(
    bytes: Seq<u8>,
    count: nat,
    e: BufReadError,
    moved: int,
) -> bool {
    exists|k: nat|
        #![trigger spec_read_seq::<T>(bytes, k)]
        k < count && match spec_read_seq::<T>(bytes, k) {
            Some((_, n)) => T::spec_read(bytes.skip(n)) is None && T::spec_read_error(
                bytes.skip(n),
                e,
                moved - n,
            ),
            None => false,
        }
}

/// Values read one after another take at most the bytes there are.
pub proof fn lemma_read_seq_len<T: WakfuBufReadable>(bytes: Seq<u8>, count: nat)
    ensures
        spec_read_seq::<T>(bytes, count) matches Some((vs, n)) ==> 0 <= n <= bytes.len()
            && vs.len() == count,
    decreases count,
{
    if count > 0 {
        lemma_read_seq_len::<T>(bytes, (count - 1) as nat);
        if let Some((vs, n)) = spec_read_seq::<T>(bytes, (count - 1) as nat) {
            T::lemma_spec_read_len(bytes.skip(n));
        }
    }
}

/// Once a value in a run cannot be read, no longer run can be read.
pub proof fn lemma_read_seq_fails_on<T: WakfuBufReadable>(bytes: Seq<u8>, k: nat, count: nat)
    requires
        k <= count,
        spec_read_seq::<T>(bytes, k) is None,
    ensures
        spec_read_seq::<T>(bytes, count) is None,
    decreases count,
{
    if count > k {
        lemma_read_seq_fails_on::<T>(bytes, k, (count - 1) as nat);
    }
}

/// A run of `n` bytes read as `u8` values is those bytes, in order; a run
/// longer than the bytes there are cannot be read.
pub proof fn lemma_read_byte_run(bytes: Seq<u8>, n: nat)
    ensures
        n <= bytes.len() ==> spec_read_seq::<u8>(bytes, n) == Some((bytes.take(n as int), n as int)),
        n > bytes.len() ==> spec_read_seq::<u8>(bytes, n) is None,
    decreases n,
{
    if n > 0 {
        lemma_read_byte_run(bytes, (n - 1) as nat);
        if n <= bytes.len() {
            assert(bytes.skip(n - 1)[0] == bytes[n - 1]);
            assert(bytes.take(n - 1).push(bytes[n - 1]) =~= bytes.take(n as int));
        } else if n - 1 == bytes.len() {
            assert(bytes.take(n - 1) =~= bytes);
            assert(bytes.skip(n - 1).len() == 0);
        } else {
            lemma_read_seq_fails_on::<u8>(bytes, (n - 1) as nat, n);
        }
    }
}

/// Reads `count` values of `T` one after another.
fn read_seq<T: WakfuBufReadable>(buf: &mut ByteCursor, count: usize) -> (r: Result<
    Vec<T>,
    BufReadError,
>)
    ensures
        final(buf).contents() == old(buf).contents(),
        (match spec_read_seq::<T>(old(buf).remaining(), count as nat) {
            Some((vs, n)) => r matches Ok(x) && x.deep_view() == vs && final(buf).pos() == old(
                buf,
            ).pos() + n && final(buf).remaining() == old(buf).remaining().skip(n),
            None => r matches Err(e) && spec_read_seq_error::<T>(
                old(buf).remaining(),
                count as nat,
                e,
                final(buf).pos() - old(buf).pos(),
            ),
        }),
{
    let ghost start = buf.remaining();
    let ghost data = buf.contents();
    let p0 = buf.position();
    let mut contents: Vec<T> = Vec::with_capacity(count);
    let mut i: usize = 0;
    while i < count
        invariant
            buf.contents() == data,
            data == old(buf).contents(),
            p0 == old(buf).pos(),
            start == old(buf).remaining(),
            start == data.skip(p0 as int),
            p0 <= data.len(),
            0 <= i <= count,
            spec_read_seq::<T>(start, i as nat) matches Some((vs, n)) && contents.deep_view()
                == vs && buf.pos() == p0 + n && buf.remaining() == start.skip(n),
        decreases count - i,
    {
        let ghost n = buf.pos() - p0;
        let ghost vs = contents.deep_view();
        proof {
            lemma_read_seq_len::<T>(start, i as nat);
        }
        let at = buf.position();
        proof {
            assert(buf.remaining() =~= start.skip(n));
        }
        match T::read_from(buf) {
            Ok(v) => {
                contents.push(v);
                proof {
                    assert(contents.deep_view() =~= vs.push(v.deep_view()));
                    let m = T::spec_read(start.skip(n))->Some_0.1;
                    T::lemma_spec_read_len(start.skip(n));
                    assert(start.skip(n).skip(m) =~= start.skip(n + m));
                }
                i = i + 1;
            },
            Err(e) => {
                proof {
                    lemma_read_seq_fails_on::<T>(start, (i + 1) as nat, count as nat);
                    assert(spec_read_seq::<T>(start, i as nat) is Some);
                }
                return Err(e);
            },
        }
    }
    Ok(contents)
}

impl<T: WakfuBufReadable> WakfuBufReadable for Vec<T> {
    /// A length byte, then that many values.
    open spec fn spec_read(bytes: Seq<u8>) -> Option<(Seq<<T as DeepView>::V>, int)> {
        if bytes.len() >= 1 {
            match spec_read_seq::<T>(bytes.skip(1), bytes[0] as nat) {
                Some((vs, n)) => Some((vs, 1 + n)),
                None => None,
            }
        } else {
            None
        }
    }

    open spec fn spec_read_error(bytes: Seq<u8>, e: BufReadError, moved: int) -> bool {
        if bytes.len() >= 1 {
            spec_read_seq_error::<T>(bytes.skip(1), bytes[0] as nat, e, moved - 1)
        } else {
            spec_fixed_error(bytes, e, moved)
        }
    }

    proof fn lemma_spec_read_len(bytes: Seq<u8>) {
        if bytes.len() >= 1 {
            lemma_read_seq_len::<T>(bytes.skip(1), bytes[0] as nat);
        }
    }

    fn read_from(buf: &mut ByteCursor) -> (r: Result<Vec<T>, BufReadError>) {
        let ghost start = buf.remaining();
        let length = match u8::read_from(buf) {
            Ok(length) => length,
            Err(e) => return Err(e),
        };
        let r = read_seq::<T>(buf, length as usize);
        proof {
            lemma_read_seq_len::<T>(start.skip(1), length as nat);
            if let Some((vs, n)) = spec_read_seq::<T>(start.skip(1), length as nat) {
                assert(start.skip(1).skip(n) =~= start.skip(1 + n));
            }
        }
        r
    }
}

/// Calls `TryFrom<Vec<T>>` of `[T; N]`: the array of the vector's items, which
/// exist in the right number.
#[verifier::external_body]
fn vec_into_array<T, const N: usize>(items: Vec<T>) -> (arr: [T; N])
    requires
        items@.len() == N,
    ensures
        arr@ == items@,
{
    let converted: Result<[T; N], Vec<T>> = items.try_into();
    converted.ok().unwrap()
}

impl<T: WakfuBufReadable, const N: usize> WakfuBufReadable for [T; N] {
    /// `N` values, with no length before them.
    open spec fn spec_read(bytes: Seq<u8>) -> Option<(Seq<<T as DeepView>::V>, int)> {
        spec_read_seq::<T>(bytes, N as nat)
    }

    open spec fn spec_read_error(bytes: Seq<u8>, e: BufReadError, moved: int) -> bool {
        spec_read_seq_error::<T>(bytes, N as nat, e, moved)
    }

    proof fn lemma_spec_read_len(bytes: Seq<u8>) {
        lemma_read_seq_len::<T>(bytes, N as nat);
    }

    fn read_from(buf: &mut ByteCursor) -> (r: Result<[T; N], BufReadError>) {
        let ghost start = buf.remaining();
        let contents = match read_seq::<T>(buf, N) {
            Ok(contents) => contents,
            Err(e) => return Err(e),
        };
        proof {
            lemma_read_seq_len::<T>(start, N as nat);
        }
        let arr: [T; N] = vec_into_array(contents);
        proof {
            assert(arr.deep_view() =~= contents.deep_view());
        }
        Ok(arr)
    }
}

impl<T: WakfuBufReadable> WakfuBufReadable for Option<T> {
    /// A presence flag, then the value where the flag is set.
    open spec fn spec_read(bytes: Seq<u8>) -> Option<(Option<<T as DeepView>::V>, int)> {
        if bytes.len() >= 1 {
            if bytes[0] != 0 {
                match T::spec_read(bytes.skip(1)) {
                    Some((v, n)) => Some((Some(v), 1 + n)),
                    None => None,
                }
            } else {
                Some((None, 1))
            }
        } else {
            None
        }
    }

    open spec fn spec_read_error(bytes: Seq<u8>, e: BufReadError, moved: int) -> bool {
        if bytes.len() >= 1 {
            T::spec_read_error(bytes.skip(1), e, moved - 1)
        } else {
            spec_fixed_error(bytes, e, moved)
        }
    }

    proof fn lemma_spec_read_len(bytes: Seq<u8>) {
        if bytes.len() >= 1 {
            T::lemma_spec_read_len(bytes.skip(1));
        }
    }

    fn read_from(buf: &mut ByteCursor) -> (r: Result<Option<T>, BufReadError>) {
        let ghost start = buf.remaining();
        let present = match bool::read_from(buf) {
            Ok(present) => present,
            Err(e) => return Err(e),
        };
        if present {
            proof {
                T::lemma_spec_read_len(start.skip(1));
                if let Some((v, n)) = T::spec_read(start.skip(1)) {
                    assert(start.skip(1).skip(n) =~= start.skip(1 + n));
                }
            }
            match T::read_from(buf) {
                Ok(v) => Ok(Some(v)),
                Err(e) => Err(e),
            }
        } else {
            Ok(None)
        }
    }
}

} // verus!
