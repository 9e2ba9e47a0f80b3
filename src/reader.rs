//! The consume side of the wire codec.
use crate::le::{le_value, lemma_le_value_bound, lemma_le_value_prepend, lemma_pow256_mono, lemma_pow256_values, pow256};
use crate::varint::decode_var_uint;
use crate::writer::{Vector3Bits, Vector4Bits};
use vstd::prelude::*;
use vstd::utf8::{decode_utf8, valid_utf8};

verus! {

/// Why a value could not be read.
#[derive(Debug, Clone, Copy, PartialEq, Eq, Structural)]
pub enum DecodeError {
    /// The buffer ends before the value does.
    EndOfData,
    /// The bytes are there but do not stand for a value of the expected kind.
    OutOfRange,
}

/// Relies on std's `String::from_utf8`: it succeeds exactly on valid UTF-8
/// and then holds the characters that the bytes encode.
#[verifier::external_body]
fn string_from_utf8(bytes: Vec<u8>) -> (r: Option<String>)
    ensures
        r is Some <==> valid_utf8(bytes@),
        r matches Some(s) ==> s@ == decode_utf8(bytes@),
{
    match String::from_utf8(bytes) {
        Ok(s) => Some(s),
        Err(_) => None,
    }
}

/// Reads a byte blob from the front of `s`: `Some(None)` for an absent one,
/// and the number of bytes taken; `None` where `s` ends too early.
pub open spec fn parse_blob(s: Seq<u8>) -> Option<(Option<Seq<u8>>, nat)> {
    match decode_var_uint(s) {
        None => None,
        Some((len, k)) => if len == 0 {
            Some((None, k))
        } else if k + (len - 1) > s.len() {
            None
        } else {
            Some((Some(s.subrange(k as int, k + len - 1)), (k + len - 1) as nat))
        },
    }
}

/// What reading a string from the front of `s` gives: its UTF-8 bytes and
/// the number of bytes taken, or `None` where `s` ends too early.
pub open spec fn parse_string_bytes(s: Seq<u8>) -> Option<(Seq<u8>, nat)> {
    match decode_var_uint(s) {
        None => None,
        Some((len, k)) => if k + len > s.len() {
            None
        } else {
            Some((s.subrange(k as int, k + len), (k + len) as nat))
        },
    }
}

/// What is left to read after moving from `a`'s position on to `b`'s.
pub proof fn lemma_rest_advance(a: &NetworkReader, b: &NetworkReader)
    requires
        b.bytes() == a.bytes(),
        a.pos() <= b.pos() <= b.bytes().len(),
        0 <= a.pos(),
    ensures
        b.rest() == a.rest().subrange(b.pos() - a.pos(), a.rest().len() as int),
{
    assert(b.rest() =~= a.rest().subrange(b.pos() - a.pos(), a.rest().len() as int));
}

/// A byte buffer and a read position into it.
pub struct NetworkReader {
    buffer: Vec<u8>,
    position: usize,
}

impl NetworkReader {
    pub closed spec fn bytes(&self) -> Seq<u8> {
        self.buffer@
    }

    pub closed spec fn pos(&self) -> int {
        self.position as int
    }

    pub open spec fn wf(&self) -> bool {
        0 <= self.pos() <= self.bytes().len()
    }

    /// Whether `n` more bytes are there to read.
    pub open spec fn has(&self, n: nat) -> bool {
        self.pos() + n <= self.bytes().len()
    }

    /// The `n` bytes at the read position.
    pub open spec fn ahead(&self, n: nat) -> Seq<u8> {
        self.bytes().subrange(self.pos(), self.pos() + n)
    }

    /// Everything from the read position to the end.
    pub open spec fn rest(&self) -> Seq<u8> {
        self.bytes().subrange(self.pos(), self.bytes().len() as int)
    }

    /// What a fixed-width read of `n` bytes does to the reader: on success it
    /// moves on by `n`, on failure it stays.
    pub open spec fn fixed_read<T>(old: &NetworkReader, new: &NetworkReader, n: nat, r: Result<T, DecodeError>) -> bool {
        &&& new.wf()
        &&& new.bytes() == old.bytes()
        &&& (r is Ok <==> old.has(n))
        &&& (r is Ok ==> new.pos() == old.pos() + n)
        &&& (r is Err ==> new.pos() == old.pos() && r == Err::<T, DecodeError>(DecodeError::EndOfData))
    }

    pub fn new(bytes: Vec<u8>) -> (r: NetworkReader)
        ensures
            r.wf(),
            r.bytes() == bytes@,
            r.pos() == 0,
    {
        NetworkReader { buffer: bytes, position: 0 }
    }

    pub fn position(&self) -> (p: usize)
        ensures
            p == self.pos(),
    {
        self.position
    }

    pub fn remaining(&self) -> (n: usize)
        requires
            self.wf(),
        ensures
            n == self.bytes().len() - self.pos(),
    {
        self.buffer.len() - self.position
    }

    /// The number in bytes `start .. start + n`, least significant first.
    fn le_at(&self, start: usize, n: usize) -> (r: u64)
        requires
            start + n <= self.bytes().len(),
            n <= 8,
        ensures
            r as nat == le_value(self.bytes().subrange(start as int, (start + n) as int)),
    {
        let total = self.buffer.len();
        let mut acc: u64 = 0;
        let mut i: usize = n;
        proof {
            assert(self.buffer@.subrange(start + n, start + n).len() == 0);
            lemma_pow256_values();
            assert(pow256(0) == 1);
        }
        while i > 0
            invariant
                i <= n <= 8,
                start + n <= self.buffer@.len() == total,
                acc as nat == le_value(self.buffer@.subrange(start + i, start + n)),
                (acc as nat) < pow256((n - i) as nat),
            decreases i,
        {
            proof {
                lemma_le_value_prepend(self.buffer@, (start + i) as int, (start + n) as int);
                lemma_pow256_mono((n - i + 1) as nat, 8);
                lemma_pow256_values();
                assert(pow256((n - i + 1) as nat) == 256 * pow256((n - i) as nat));
            }
            i = i - 1;
            acc = acc * 256 + self.buffer[start + i] as u64;
        }
        acc
    }

    fn read_le(&mut self, n: usize) -> (r: Result<u64, DecodeError>)
        requires
            old(self).wf(),
            n <= 8,
        ensures
            NetworkReader::fixed_read(old(self), final(self), n as nat, r),
            r matches Ok(v) ==> v as nat == le_value(old(self).ahead(n as nat)),
    {
        if n > self.buffer.len() - self.position {
            return Err(DecodeError::EndOfData);
        }
        let v = self.le_at(self.position, n);
        self.position = self.position + n;
        Ok(v)
    }

    pub fn read_byte(&mut self) -> (r: Result<u8, DecodeError>)
        requires
            old(self).wf(),
        ensures
            NetworkReader::fixed_read(old(self), final(self), 1, r),
            r matches Ok(v) ==> v == old(self).bytes()[old(self).pos()],
    {
        if self.position >= self.buffer.len() {
            return Err(DecodeError::EndOfData);
        }
        let v = self.buffer[self.position];
        self.position = self.position + 1;
        Ok(v)
    }

    /// Reads a boolean: any byte but zero is `true`.
    pub fn read_bool(&mut self) -> (r: Result<bool, DecodeError>)
        requires
            old(self).wf(),
        ensures
            NetworkReader::fixed_read(old(self), final(self), 1, r),
            r matches Ok(v) ==> v == (old(self).bytes()[old(self).pos()] != 0),
    {
        match self.read_byte() {
            Ok(b) => Ok(b != 0),
            Err(e) => Err(e),
        }
    }

    pub fn read_sbyte(&mut self) -> (r: Result<i8, DecodeError>)
        requires
            old(self).wf(),
        ensures
            NetworkReader::fixed_read(old(self), final(self), 1, r),
            r matches Ok(v) ==> v == old(self).bytes()[old(self).pos()] as i8,
    {
        match self.read_byte() {
            Ok(b) => Ok(b as i8),
            Err(e) => Err(e),
        }
    }

    pub fn read_ushort(&mut self) -> (r: Result<u16, DecodeError>)
        requires
            old(self).wf(),
        ensures
            NetworkReader::fixed_read(old(self), final(self), 2, r),
            r matches Ok(v) ==> v as nat == le_value(old(self).ahead(2)),
    {
        proof { lemma_pow256_values(); }
        match self.read_le(2) {
            Ok(v) => {
                proof { lemma_le_value_bound(old(self).ahead(2)); }
                Ok(v as u16)
            },
            Err(e) => Err(e),
        }
    }

    pub fn read_short(&mut self) -> (r: Result<i16, DecodeError>)
        requires
            old(self).wf(),
        ensures
            NetworkReader::fixed_read(old(self), final(self), 2, r),
            r matches Ok(v) ==> v as u16 as nat == le_value(old(self).ahead(2)),
    {
        match self.read_ushort() {
            Ok(v) => {
                let s = v as i16;
                assert(s as u16 == v) by (bit_vector)
                    requires s == v as i16;
                Ok(s)
            },
            Err(e) => Err(e),
        }
    }

    pub fn read_uint(&mut self) -> (r: Result<u32, DecodeError>)
        requires
            old(self).wf(),
        ensures
            NetworkReader::fixed_read(old(self), final(self), 4, r),
            r matches Ok(v) ==> v as nat == le_value(old(self).ahead(4)),
    {
        proof { lemma_pow256_values(); }
        match self.read_le(4) {
            Ok(v) => {
                proof { lemma_le_value_bound(old(self).ahead(4)); }
                Ok(v as u32)
            },
            Err(e) => Err(e),
        }
    }

    pub fn read_int(&mut self) -> (r: Result<i32, DecodeError>)
        requires
            old(self).wf(),
        ensures
            NetworkReader::fixed_read(old(self), final(self), 4, r),
            r matches Ok(v) ==> v as u32 as nat == le_value(old(self).ahead(4)),
    {
        match self.read_uint() {
            Ok(v) => {
                let s = v as i32;
                assert(s as u32 == v) by (bit_vector)
                    requires s == v as i32;
                Ok(s)
            },
            Err(e) => Err(e),
        }
    }

    pub fn read_ulong(&mut self) -> (r: Result<u64, DecodeError>)
        requires
            old(self).wf(),
        ensures
            NetworkReader::fixed_read(old(self), final(self), 8, r),
            r matches Ok(v) ==> v as nat == le_value(old(self).ahead(8)),
    {
        self.read_le(8)
    }

    pub fn read_long(&mut self) -> (r: Result<i64, DecodeError>)
        requires
            old(self).wf(),
        ensures
            NetworkReader::fixed_read(old(self), final(self), 8, r),
            r matches Ok(v) ==> v as u64 as nat == le_value(old(self).ahead(8)),
    {
        match self.read_le(8) {
            Ok(v) => {
                let s = v as i64;
                assert(s as u64 == v) by (bit_vector)
                    requires s == v as i64;
                Ok(s)
            },
            Err(e) => Err(e),
        }
    }

    /// Reads a 32-bit float as its bit pattern.
    pub fn read_float_bits(&mut self) -> (r: Result<u32, DecodeError>)
        requires
            old(self).wf(),
        ensures
            NetworkReader::fixed_read(old(self), final(self), 4, r),
            r matches Ok(v) ==> v as nat == le_value(old(self).ahead(4)),
    {
        self.read_uint()
    }

    /// Reads a 64-bit float as its bit pattern.
    pub fn read_double_bits(&mut self) -> (r: Result<u64, DecodeError>)
        requires
            old(self).wf(),
        ensures
            NetworkReader::fixed_read(old(self), final(self), 8, r),
            r matches Ok(v) ==> v as nat == le_value(old(self).ahead(8)),
    {
        self.read_le(8)
    }

    pub fn read_vector3(&mut self) -> (r: Result<Vector3Bits, DecodeError>)
        requires
            old(self).wf(),
        ensures
            NetworkReader::fixed_read(old(self), final(self), 12, r),
            r matches Ok(v) ==> {
                &&& v.x as nat == le_value(old(self).ahead(12).subrange(0, 4))
                &&& v.y as nat == le_value(old(self).ahead(12).subrange(4, 8))
                &&& v.z as nat == le_value(old(self).ahead(12).subrange(8, 12))
            },
    {
        if self.buffer.len() - self.position < 12 {
            return Err(DecodeError::EndOfData);
        }
        let x = self.read_uint().unwrap();
        let y = self.read_uint().unwrap();
        let z = self.read_uint().unwrap();
        proof {
            let a = old(self).ahead(12);
            assert(a.subrange(0, 4) =~= old(self).ahead(4));
            assert(a.subrange(4, 8) =~= self.bytes().subrange(old(self).pos() + 4, old(self).pos() + 8));
            assert(a.subrange(8, 12) =~= self.bytes().subrange(old(self).pos() + 8, old(self).pos() + 12));
        }
        Ok(Vector3Bits { x, y, z })
    }

    pub fn read_quaternion(&mut self) -> (r: Result<Vector4Bits, DecodeError>)
        requires
            old(self).wf(),
        ensures
            NetworkReader::fixed_read(old(self), final(self), 16, r),
            r matches Ok(v) ==> {
                &&& v.x as nat == le_value(old(self).ahead(16).subrange(0, 4))
                &&& v.y as nat == le_value(old(self).ahead(16).subrange(4, 8))
                &&& v.z as nat == le_value(old(self).ahead(16).subrange(8, 12))
                &&& v.w as nat == le_value(old(self).ahead(16).subrange(12, 16))
            },
    {
        if self.buffer.len() - self.position < 16 {
            return Err(DecodeError::EndOfData);
        }
        let x = self.read_uint().unwrap();
        let y = self.read_uint().unwrap();
        let z = self.read_uint().unwrap();
        let w = self.read_uint().unwrap();
        proof {
            let a = old(self).ahead(16);
            assert(a.subrange(0, 4) =~= old(self).ahead(4));
            assert(a.subrange(4, 8) =~= self.bytes().subrange(old(self).pos() + 4, old(self).pos() + 8));
            assert(a.subrange(8, 12) =~= self.bytes().subrange(old(self).pos() + 8, old(self).pos() + 12));
            assert(a.subrange(12, 16) =~= self.bytes().subrange(old(self).pos() + 12, old(self).pos() + 16));
        }
        Ok(Vector4Bits { x, y, z, w })
    }

    /// Reads a value written by `compress_var_uint`.
    pub fn decompress_var_uint(&mut self) -> (r: Result<u64, DecodeError>)
        requires
            old(self).wf(),
        ensures
            final(self).wf(),
            final(self).bytes() == old(self).bytes(),
            match decode_var_uint(old(self).rest()) {
                None => r == Err::<u64, DecodeError>(DecodeError::EndOfData) && final(self).pos() == old(self).pos(),
                Some((v, k)) => r == Ok::<u64, DecodeError>(v) && final(self).pos() == old(self).pos() + k,
            },
    {
        let ghost rest = self.rest();
        let avail = self.buffer.len() - self.position;
        if avail < 1 {
            return Err(DecodeError::EndOfData);
        }
        let p = self.position;
        let a0 = self.buffer[p];
        assert(rest[0] == a0);
        if a0 < 241 {
            self.position = p + 1;
            return Ok(a0 as u64);
        }
        if avail < 2 {
            return Err(DecodeError::EndOfData);
        }
        let a1 = self.buffer[p + 1];
        assert(rest[1] == a1);
        if a0 <= 248 {
            self.position = p + 2;
            return Ok(240 + 256 * (a0 as u64 - 241) + a1 as u64);
        }
        if avail < 3 {
            return Err(DecodeError::EndOfData);
        }
        let a2 = self.buffer[p + 2];
        assert(rest[2] == a2);
        if a0 == 249 {
            self.position = p + 3;
            return Ok(2288 + 256 * a1 as u64 + a2 as u64);
        }
        let n = (a0 - 247) as usize;
        if avail < n + 1 {
            return Err(DecodeError::EndOfData);
        }
        let v = self.le_at(p + 1, n);
        assert(rest.subrange(1, n + 1) =~= self.buffer@.subrange(p + 1, p + 1 + n));
        self.position = p + 1 + n;
        Ok(v)
    }

    /// Reads `n` raw bytes.
    pub fn read_bytes(&mut self, n: usize) -> (r: Result<Vec<u8>, DecodeError>)
        requires
            old(self).wf(),
        ensures
            NetworkReader::fixed_read(old(self), final(self), n as nat, r),
            r matches Ok(v) ==> v@ == old(self).ahead(n as nat),
    {
        if n > self.buffer.len() - self.position {
            return Err(DecodeError::EndOfData);
        }
        let mut out: Vec<u8> = Vec::with_capacity(n);
        let mut i: usize = 0;
        let p = self.position;
        while i < n
            invariant
                i <= n,
                p + n <= self.buffer@.len() <= usize::MAX,
                out@ == self.buffer@.subrange(p as int, (p + i) as int),
            decreases n - i,
        {
            out.push(self.buffer[p + i]);
            i = i + 1;
            assert(out@ =~= self.buffer@.subrange(p as int, (p + i) as int));
        }
        self.position = p + n;
        Ok(out)
    }

    /// Reads a byte blob written by `write_bytes_and_size`.
    pub fn read_bytes_and_size(&mut self) -> (r: Result<Option<Vec<u8>>, DecodeError>)
        requires
            old(self).wf(),
        ensures
            final(self).wf(),
            final(self).bytes() == old(self).bytes(),
            match parse_blob(old(self).rest()) {
                None => r == Err::<Option<Vec<u8>>, DecodeError>(DecodeError::EndOfData)
                    && final(self).pos() == old(self).pos(),
                Some((b, k)) => r is Ok && final(self).pos() == old(self).pos() + k && match b {
                    None => r.unwrap() is None,
                    Some(v) => r.unwrap() is Some && r.unwrap().unwrap()@ == v,
                },
            },
    {
        let start = self.position;
        let ghost rest = old(self).rest();
        let len = match self.decompress_var_uint() {
            Ok(len) => len,
            Err(e) => return Err(e),
        };
        if len == 0 {
            return Ok(None);
        }
        let avail = self.buffer.len() - self.position;
        if len - 1 > avail as u64 {
            self.position = start;
            return Err(DecodeError::EndOfData);
        }
        let ghost k = (self.pos() - start) as nat;
        let v = self.read_bytes((len - 1) as usize).unwrap();
        assert(v@ =~= rest.subrange(k as int, k + len - 1));
        Ok(Some(v))
    }

    /// Reads a string written by `write_string`; bytes that are not UTF-8
    /// give `OutOfRange`.
    pub fn read_string(&mut self) -> (r: Result<String, DecodeError>)
        requires
            old(self).wf(),
        ensures
            final(self).wf(),
            final(self).bytes() == old(self).bytes(),
            match parse_string_bytes(old(self).rest()) {
                None => r == Err::<String, DecodeError>(DecodeError::EndOfData)
                    && final(self).pos() == old(self).pos(),
                Some((b, k)) => if valid_utf8(b) {
                    r is Ok && r.unwrap()@ == decode_utf8(b) && final(self).pos() == old(self).pos() + k
                } else {
                    r == Err::<String, DecodeError>(DecodeError::OutOfRange) && final(self).pos() == old(self).pos()
                },
            },
    {
        let start = self.position;
        let ghost rest = old(self).rest();
        let len = match self.decompress_var_uint() {
            Ok(len) => len,
            Err(e) => return Err(e),
        };
        let avail = self.buffer.len() - self.position;
        if len > avail as u64 {
            self.position = start;
            return Err(DecodeError::EndOfData);
        }
        let ghost k = (self.pos() - start) as nat;
        let v = self.read_bytes(len as usize).unwrap();
        assert(v@ =~= rest.subrange(k as int, k + len));
        match string_from_utf8(v) {
            Some(s) => Ok(s),
            None => {
                self.position = start;
                Err(DecodeError::OutOfRange)
            },
        }
    }
}

} // verus!
