//! A sequential reader over the bytes of a module, and the primitive
//! decoders: single bytes, LEB128 integers and names.
//!
//! Each decoder has a spec function that says, for a byte sequence and a
//! position in it, which value is decoded and where the next one starts, or
//! which error is reported. The executable decoders are proved to compute
//! exactly that.

use vstd::prelude::*;
use vstd::slice::slice_subrange;
use vstd::slice::slice_to_vec;
use vstd::utf8::decode_utf8;
use vstd::utf8::encode_utf8;
use vstd::utf8::valid_utf8;
use crate::error::Error;
use crate::error::Malformed;

verus! {

/// The error reported when the input ends inside a value.
pub open spec fn eof() -> Error {
    Error::MalformedBinary(Malformed::UnexpectedEof)
}

/// The error reported for an integer that is too long or too large.
pub open spec fn overflow() -> Error {
    Error::MalformedBinary(Malformed::LebOverflow)
}

/// `128` to the power `n`: the weight of the `n`-th group of seven bits.
pub open spec fn pow128(n: nat) -> nat
    decreases n,
{
    if n == 0 {
        1
    } else {
        128 * pow128((n - 1) as nat)
    }
}

/// The number of bytes of the LEB128 integer that starts at `pos`: every
/// byte but the last has its top bit set. At most `limit` bytes are
/// looked at.
pub open spec fn leb_length(bytes: Seq<u8>, pos: int, limit: nat) -> Result<nat, Error>
    decreases limit,
{
    if limit == 0 {
        Err(overflow())
    } else if pos < 0 || pos >= bytes.len() {
        Err(eof())
    } else if bytes[pos] < 128 {
        Ok(1)
    } else {
        match leb_length(bytes, pos + 1, (limit - 1) as nat) {
            Ok(n) => Ok(n + 1),
            Err(e) => Err(e),
        }
    }
}

/// The number that the low seven bits of `n` bytes from `pos` spell, least
/// significant group first.
pub open spec fn leb_payload(bytes: Seq<u8>, pos: int, n: nat) -> nat
    decreases n,
{
    if n == 0 {
        0
    } else {
        leb_payload(bytes, pos, (n - 1) as nat) + (bytes[pos + n - 1] % 128) as nat * pow128(
            (n - 1) as nat,
        )
    }
}

/// The payload of `n` bytes read as a two's complement number of `7 * n` bits.
pub open spec fn leb_signed(bytes: Seq<u8>, pos: int, n: nat) -> int {
    let payload = leb_payload(bytes, pos, n);
    if 2 * payload >= pow128(n) {
        payload - pow128(n)
    } else {
        payload as int
    }
}

/// The byte at `pos`.
pub open spec fn spec_u8(bytes: Seq<u8>, pos: int) -> Result<(u8, int), Error> {
    if 0 <= pos < bytes.len() {
        Ok((bytes[pos], pos + 1))
    } else {
        Err(eof())
    }
}

/// The `n` bytes from `pos`.
pub open spec fn spec_bytes(bytes: Seq<u8>, pos: int, n: nat) -> Result<(Seq<u8>, int), Error> {
    if 0 <= pos && pos + n <= bytes.len() {
        Ok((bytes.subrange(pos, pos + n), pos + n))
    } else {
        Err(eof())
    }
}

/// The unsigned 32-bit LEB128 integer at `pos`: at most five bytes, and a
/// value below `2^32`.
pub open spec fn spec_leb_u32(bytes: Seq<u8>, pos: int) -> Result<(u32, int), Error> {
    match leb_length(bytes, pos, 5) {
        Err(e) => Err(e),
        Ok(n) => {
            let value = leb_payload(bytes, pos, n);
            if value > u32::MAX {
                Err(overflow())
            } else {
                Ok((value as u32, pos + n))
            }
        },
    }
}

/// The signed 32-bit LEB128 integer at `pos`: at most five bytes, and a
/// value that an `i32` holds.
pub open spec fn spec_leb_i32(bytes: Seq<u8>, pos: int) -> Result<(i32, int), Error> {
    match leb_length(bytes, pos, 5) {
        Err(e) => Err(e),
        Ok(n) => {
            let value = leb_signed(bytes, pos, n);
            if value < i32::MIN || value > i32::MAX {
                Err(overflow())
            } else {
                Ok((value as i32, pos + n))
            }
        },
    }
}

/// The signed 64-bit LEB128 integer at `pos`: at most ten bytes, and a
/// value that an `i64` holds.
pub open spec fn spec_leb_i64(bytes: Seq<u8>, pos: int) -> Result<(i64, int), Error> {
    match leb_length(bytes, pos, 10) {
        Err(e) => Err(e),
        Ok(n) => {
            let value = leb_signed(bytes, pos, n);
            if value < i64::MIN || value > i64::MAX {
                Err(overflow())
            } else {
                Ok((value as i64, pos + n))
            }
        },
    }
}

/// The four bytes at `pos`, least significant first.
pub open spec fn spec_le_u32(bytes: Seq<u8>, pos: int) -> Result<(u32, int), Error> {
    match spec_bytes(bytes, pos, 4) {
        Err(e) => Err(e),
        Ok((b, q)) => Ok(
            ((b[0] + 0x100 * b[1] + 0x1_0000 * b[2] + 0x100_0000 * b[3]) as u32, q),
        ),
    }
}

/// The eight bytes at `pos`, least significant first.
pub open spec fn spec_le_u64(bytes: Seq<u8>, pos: int) -> Result<(u64, int), Error> {
    match spec_bytes(bytes, pos, 8) {
        Err(e) => Err(e),
        Ok((b, q)) => Ok(
            (
                (b[0] + 0x100 * b[1] + 0x1_0000 * b[2] + 0x100_0000 * b[3] + 0x1_0000_0000 * b[4]
                    + 0x100_0000_0000 * b[5] + 0x1_0000_0000_0000 * b[6] + 0x100_0000_0000_0000
                    * b[7]) as u64,
                q,
            ),
        ),
    }
}

/// An index at `pos`: an unsigned 32-bit LEB128 integer.
pub open spec fn spec_index(bytes: Seq<u8>, pos: int) -> Result<(usize, int), Error> {
    match spec_leb_u32(bytes, pos) {
        Err(e) => Err(e),
        Ok((v, q)) => Ok((v as usize, q)),
    }
}

/// The name at `pos`: a length, then that many bytes of UTF-8.
pub open spec fn spec_name(bytes: Seq<u8>, pos: int) -> Result<(Seq<char>, int), Error> {
    match spec_leb_u32(bytes, pos) {
        Err(e) => Err(e),
        Ok((len, p)) => match spec_bytes(bytes, p, len as nat) {
            Err(e) => Err(e),
            Ok((raw, q)) => if valid_utf8(raw) {
                Ok((decode_utf8(raw), q))
            } else {
                Err(Error::MalformedBinary(Malformed::InvalidUtf8))
            },
        },
    }
}

/// That an executable decoder did what its spec function says: on success
/// the value's view and the next position, on failure the error.
pub open spec fn decoded<T: DeepView>(
    r: Result<T, Error>,
    end: int,
    expect: Result<(T::V, int), Error>,
) -> bool {
    match expect {
        Ok((v, q)) => r matches Ok(x) && x.deep_view() == v && end == q,
        Err(e) => r == Err::<T, Error>(e),
    }
}

/// As `decoded`, for a value that is its own view.
pub open spec fn decoded_plain<T>(r: Result<T, Error>, end: int, expect: Result<(T, int), Error>) -> bool {
    match expect {
        Ok((v, q)) => r == Ok::<T, Error>(v) && end == q,
        Err(e) => r == Err::<T, Error>(e),
    }
}

/// Adds `k` to a length.
pub open spec fn longer(r: Result<nat, Error>, k: nat) -> Result<nat, Error> {
    match r {
        Ok(n) => Ok(n + k),
        Err(e) => Err(e),
    }
}

/// `pow128` grows with its argument.
pub proof fn lemma_pow128_grows(a: nat, b: nat)
    requires
        a <= b,
    ensures
        1 <= pow128(a) <= pow128(b),
    decreases b,
{
    if a < b {
        lemma_pow128_grows(a, (b - 1) as nat);
    } else if a > 0 {
        lemma_pow128_grows((a - 1) as nat, (a - 1) as nat);
    }
}

/// `pow128` at the lengths that occur.
pub proof fn lemma_pow128_values()
    ensures
        pow128(0) == 1,
        pow128(1) == 0x80,
        pow128(2) == 0x4000,
        pow128(3) == 0x20_0000,
        pow128(4) == 0x1000_0000,
        pow128(5) == 0x8_0000_0000,
        pow128(10) == 0x40_0000_0000_0000_0000,
{
    reveal_with_fuel(pow128, 11);
}

/// A LEB128 integer is at least one byte long and ends within the input.
pub proof fn lemma_leb_length_bounds(bytes: Seq<u8>, pos: int, limit: nat)
    ensures
        leb_length(bytes, pos, limit) matches Ok(n) ==> 1 <= n <= limit && 0 <= pos && pos + n
            <= bytes.len(),
    decreases limit,
{
    if limit > 0 && 0 <= pos < bytes.len() && bytes[pos] >= 128 {
        lemma_leb_length_bounds(bytes, pos + 1, (limit - 1) as nat);
    }
}

/// A sequential reader over a byte slice.
pub struct Reader<'a> {
    data: &'a [u8],
    pos: usize,
}

impl<'a> Reader<'a> {
    /// The bytes that the reader runs over.
    pub closed spec fn bytes(&self) -> Seq<u8> {
        self.data@
    }

    /// The position of the next byte to read.
    pub closed spec fn position(&self) -> int {
        self.pos as int
    }

    /// The position is within the bytes, or just behind them.
    pub open spec fn wf(&self) -> bool {
        0 <= self.position() <= self.bytes().len()
    }

    /// A reader at the start of `data`.
    pub fn new(data: &'a [u8]) -> (r: Self)
        ensures
            r.wf(),
            r.bytes() == data@,
            r.position() == 0,
    {
        Reader { data, pos: 0 }
    }

    /// Whether every byte has been read.
    pub fn is_at_end(&self) -> (b: bool)
        requires
            self.wf(),
        ensures
            b == (self.position() == self.bytes().len()),
    {
        self.pos >= self.data.len()
    }

    /// The number of bytes that are left.
    pub fn remaining(&self) -> (n: usize)
        requires
            self.wf(),
        ensures
            n == self.bytes().len() - self.position(),
    {
        self.data.len() - self.pos
    }

    /// Reads one byte.
    pub fn read_u8(&mut self) -> (r: Result<u8, Error>)
        requires
            old(self).wf(),
        ensures
            final(self).wf(),
            final(self).bytes() == old(self).bytes(),
            decoded(r, final(self).position(), spec_u8(old(self).bytes(), old(self).position())),
    {
        if self.pos >= self.data.len() {
            return Err(Error::MalformedBinary(Malformed::UnexpectedEof));
        }
        let b = self.data[self.pos];
        self.pos += 1;
        Ok(b)
    }

    /// Reads exactly `n` bytes, or fails on a short read.
    pub fn read_exact(&mut self, n: usize) -> (r: Result<Vec<u8>, Error>)
        requires
            old(self).wf(),
        ensures
            final(self).wf(),
            final(self).bytes() == old(self).bytes(),
            match spec_bytes(old(self).bytes(), old(self).position(), n as nat) {
                Ok((v, q)) => r matches Ok(x) && x@ == v && final(self).position() == q,
                Err(e) => r == Err::<Vec<u8>, Error>(e),
            },
    {
        if n > self.data.len() - self.pos {
            return Err(Error::MalformedBinary(Malformed::UnexpectedEof));
        }
        let part = slice_subrange(self.data, self.pos, self.pos + n);
        self.pos += n;
        Ok(slice_to_vec(part))
    }

    /// The position of the next byte to read.
    pub fn offset(&self) -> (n: usize)
        ensures
            n == self.position(),
    {
        self.pos
    }

    /// A copy of the bytes from `start` up to the position of the reader.
    pub fn copy_since(&self, start: usize) -> (r: Vec<u8>)
        requires
            self.wf(),
            start <= self.position(),
        ensures
            r@ == self.bytes().subrange(start as int, self.position()),
    {
        slice_to_vec(slice_subrange(self.data, start, self.pos))
    }

    /// Reads every byte that is left.
    pub fn read_rest(&mut self) -> (r: Vec<u8>)
        requires
            old(self).wf(),
        ensures
            final(self).wf(),
            final(self).bytes() == old(self).bytes(),
            final(self).position() == old(self).bytes().len(),
            r@ == old(self).bytes().subrange(old(self).position(), old(self).bytes().len() as int),
    {
        let part = slice_subrange(self.data, self.pos, self.data.len());
        self.pos = self.data.len();
        slice_to_vec(part)
    }

    /// Moves over `n` bytes, or fails on a short read.
    pub fn skip(&mut self, n: usize) -> (r: Result<(), Error>)
        requires
            old(self).wf(),
        ensures
            final(self).wf(),
            final(self).bytes() == old(self).bytes(),
            match spec_bytes(old(self).bytes(), old(self).position(), n as nat) {
                Ok((v, q)) => r is Ok && final(self).position() == q,
                Err(e) => r == Err::<(), Error>(e),
            },
    {
        if n > self.data.len() - self.pos {
            return Err(Error::MalformedBinary(Malformed::UnexpectedEof));
        }
        self.pos += n;
        Ok(())
    }

    /// Splits off a reader over the next `n` bytes, and moves behind them.
    pub fn scoped(&mut self, n: usize) -> (r: Result<Reader<'a>, Error>)
        requires
            old(self).wf(),
        ensures
            final(self).wf(),
            final(self).bytes() == old(self).bytes(),
            match spec_bytes(old(self).bytes(), old(self).position(), n as nat) {
                Ok((v, q)) => r matches Ok(sub) && sub.wf() && sub.bytes() == v && sub.position()
                    == 0 && final(self).position() == q,
                Err(e) => r matches Err(x) && x == e,
            },
    {
        if n > self.data.len() - self.pos {
            return Err(Error::MalformedBinary(Malformed::UnexpectedEof));
        }
        let part = slice_subrange(self.data, self.pos, self.pos + n);
        self.pos += n;
        Ok(Reader { data: part, pos: 0 })
    }

    /// Reads the bytes of a LEB128 integer of at most `limit` bytes, and
    /// returns its payload and `128` to the power of its length.
    fn read_leb_raw(&mut self, limit: usize) -> (r: Result<(u128, u128), Error>)
        requires
            old(self).wf(),
            limit <= 10,
        ensures
            final(self).wf(),
            final(self).bytes() == old(self).bytes(),
            match leb_length(old(self).bytes(), old(self).position(), limit as nat) {
                Ok(n) => r == Ok::<(u128, u128), Error>(
                    (
                        leb_payload(old(self).bytes(), old(self).position(), n) as u128,
                        pow128(n) as u128,
                    ),
                ) && final(self).position() == old(self).position() + n && n <= limit
                    && leb_payload(old(self).bytes(), old(self).position(), n) < pow128(n)
                    && pow128(n) <= pow128(limit as nat),
                Err(e) => r == Err::<(u128, u128), Error>(e),
            },
    {
        let ghost bytes = self.data@;
        let ghost start = self.pos as int;
        let mut acc: u128 = 0;
        let mut scale: u128 = 1;
        let mut count: usize = 0;
        proof {
            lemma_pow128_values();
        }
        while count < limit
            invariant
                bytes == old(self).bytes(),
                start == old(self).position(),
                self.data@ == bytes,
                self.pos == start + count,
                self.pos <= bytes.len(),
                count <= limit <= 10,
                acc == leb_payload(bytes, start, count as nat),
                scale == pow128(count as nat),
                acc < scale,
                pow128(10) == 0x40_0000_0000_0000_0000,
                leb_length(bytes, start, limit as nat) == longer(
                    leb_length(bytes, start + count, (limit - count) as nat),
                    count as nat,
                ),
            decreases limit - count,
        {
            if self.pos >= self.data.len() {
                return Err(Error::MalformedBinary(Malformed::UnexpectedEof));
            }
            let b = self.data[self.pos];
            let low: u128 = (b % 128) as u128;
            proof {
                lemma_pow128_grows(count as nat, 9);
                lemma_pow128_grows((count + 1) as nat, 10);
                lemma_pow128_grows((count + 1) as nat, limit as nat);
                assert(pow128(10) == 128 * pow128(9));
                assert(low * scale <= 127 * scale) by (nonlinear_arith)
                    requires
                        low <= 127,
                        scale >= 0,
                ;
            }
            acc = acc + low * scale;
            scale = scale * 128;
            self.pos += 1;
            count += 1;
            if b < 128 {
                return Ok((acc, scale));
            }
        }
        Err(Error::MalformedBinary(Malformed::LebOverflow))
    }

    /// Reads an unsigned 32-bit LEB128 integer.
    pub fn read_leb_u32(&mut self) -> (r: Result<u32, Error>)
        requires
            old(self).wf(),
        ensures
            final(self).wf(),
            final(self).bytes() == old(self).bytes(),
            decoded(
                r,
                final(self).position(),
                spec_leb_u32(old(self).bytes(), old(self).position()),
            ),
    {
        proof {
            lemma_pow128_values();
        }
        let (payload, _scale) = self.read_leb_raw(5)?;
        if payload > 0xffff_ffff {
            return Err(Error::MalformedBinary(Malformed::LebOverflow));
        }
        Ok(payload as u32)
    }

    /// Reads a signed 32-bit LEB128 integer.
    pub fn read_leb_i32(&mut self) -> (r: Result<i32, Error>)
        requires
            old(self).wf(),
        ensures
            final(self).wf(),
            final(self).bytes() == old(self).bytes(),
            decoded(
                r,
                final(self).position(),
                spec_leb_i32(old(self).bytes(), old(self).position()),
            ),
    {
        proof {
            lemma_pow128_values();
        }
        let (payload, scale) = self.read_leb_raw(5)?;
        let value: i128 = if 2 * payload >= scale {
            payload as i128 - scale as i128
        } else {
            payload as i128
        };
        if value < -0x8000_0000 || value > 0x7fff_ffff {
            return Err(Error::MalformedBinary(Malformed::LebOverflow));
        }
        Ok(value as i32)
    }

    /// Reads a signed 64-bit LEB128 integer.
    pub fn read_leb_i64(&mut self) -> (r: Result<i64, Error>)
        requires
            old(self).wf(),
        ensures
            final(self).wf(),
            final(self).bytes() == old(self).bytes(),
            decoded(
                r,
                final(self).position(),
                spec_leb_i64(old(self).bytes(), old(self).position()),
            ),
    {
        proof {
            lemma_pow128_values();
        }
        let (payload, scale) = self.read_leb_raw(10)?;
        let value: i128 = if 2 * payload >= scale {
            payload as i128 - scale as i128
        } else {
            payload as i128
        };
        if value < -0x8000_0000_0000_0000 || value > 0x7fff_ffff_ffff_ffff {
            return Err(Error::MalformedBinary(Malformed::LebOverflow));
        }
        Ok(value as i64)
    }

    /// Reads four bytes as an unsigned integer, least significant first.
    pub fn read_le_u32(&mut self) -> (r: Result<u32, Error>)
        requires
            old(self).wf(),
        ensures
            final(self).wf(),
            final(self).bytes() == old(self).bytes(),
            decoded(
                r,
                final(self).position(),
                spec_le_u32(old(self).bytes(), old(self).position()),
            ),
    {
        if 4 > self.data.len() - self.pos {
            return Err(Error::MalformedBinary(Malformed::UnexpectedEof));
        }
        let b0 = self.data[self.pos] as u32;
        let b1 = self.data[self.pos + 1] as u32;
        let b2 = self.data[self.pos + 2] as u32;
        let b3 = self.data[self.pos + 3] as u32;
        self.pos += 4;
        Ok(b0 + 0x100 * b1 + 0x1_0000 * b2 + 0x100_0000 * b3)
    }

    /// Reads eight bytes as an unsigned integer, least significant first.
    pub fn read_le_u64(&mut self) -> (r: Result<u64, Error>)
        requires
            old(self).wf(),
        ensures
            final(self).wf(),
            final(self).bytes() == old(self).bytes(),
            decoded(
                r,
                final(self).position(),
                spec_le_u64(old(self).bytes(), old(self).position()),
            ),
    {
        if 8 > self.data.len() - self.pos {
            return Err(Error::MalformedBinary(Malformed::UnexpectedEof));
        }
        let b0 = self.data[self.pos] as u64;
        let b1 = self.data[self.pos + 1] as u64;
        let b2 = self.data[self.pos + 2] as u64;
        let b3 = self.data[self.pos + 3] as u64;
        let b4 = self.data[self.pos + 4] as u64;
        let b5 = self.data[self.pos + 5] as u64;
        let b6 = self.data[self.pos + 6] as u64;
        let b7 = self.data[self.pos + 7] as u64;
        self.pos += 8;
        Ok(
            b0 + 0x100 * b1 + 0x1_0000 * b2 + 0x100_0000 * b3 + 0x1_0000_0000 * b4
                + 0x100_0000_0000 * b5 + 0x1_0000_0000_0000 * b6 + 0x100_0000_0000_0000 * b7,
        )
    }

    /// Reads an index: an unsigned 32-bit LEB128 integer.
    pub fn read_index(&mut self) -> (r: Result<usize, Error>)
        requires
            old(self).wf(),
        ensures
            final(self).wf(),
            final(self).bytes() == old(self).bytes(),
            decoded(
                r,
                final(self).position(),
                spec_index(old(self).bytes(), old(self).position()),
            ),
    {
        let v = self.read_leb_u32()?;
        Ok(v as usize)
    }

    /// Reads a name: a length, then that many bytes of UTF-8.
    pub fn read_name(&mut self) -> (r: Result<String, Error>)
        requires
            old(self).wf(),
        ensures
            final(self).wf(),
            final(self).bytes() == old(self).bytes(),
            decoded(r, final(self).position(), spec_name(old(self).bytes(), old(self).position())),
    {
        let len = self.read_leb_u32()?;
        let raw = self.read_exact(len as usize)?;
        let ghost raw_bytes = raw@;
        match string_from_utf8(raw) {
            Some(name) => {
                proof {
                    vstd::utf8::encode_utf8_decode_utf8(name@);
                }
                Ok(name)
            },
            None => Err(Error::MalformedBinary(Malformed::InvalidUtf8)),
        }
    }
}

/// `String::from_utf8` of std: it accepts exactly the byte vectors that are
/// well-formed UTF-8, and the string it returns is made of the bytes given.
#[verifier::external_body]
fn string_from_utf8(bytes: Vec<u8>) -> (r: Option<String>)
    ensures
        r is Some <==> valid_utf8(bytes@),
        r matches Some(s) ==> encode_utf8(s@) == bytes@,
{
    match String::from_utf8(bytes) {
        Ok(s) => Some(s),
        Err(_) => None,
    }
}

} // verus!
