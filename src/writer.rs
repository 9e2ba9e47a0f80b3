//! The append side of the wire codec.
use crate::le::{le_bytes, lemma_le_bytes_push, lemma_pow256_pos, pow256};
use crate::varint::encode_var_uint;
use vstd::arithmetic::div_mod::lemma_div_denominator;
use vstd::prelude::*;
use vstd::utf8::encode_utf8;

verus! {

/// Three 32-bit floats, each held as its IEEE-754 bit pattern.
#[derive(Debug, Clone, Copy, PartialEq, Eq, Structural)]
pub struct Vector3Bits {
    pub x: u32,
    pub y: u32,
    pub z: u32,
}

/// Two 32-bit floats, each held as its IEEE-754 bit pattern.
#[derive(Debug, Clone, Copy, PartialEq, Eq, Structural)]
pub struct Vector2Bits {
    pub x: u32,
    pub y: u32,
}

/// Four 32-bit floats (a quaternion or a 4-vector), each held as its bit pattern.
#[derive(Debug, Clone, Copy, PartialEq, Eq, Structural)]
pub struct Vector4Bits {
    pub x: u32,
    pub y: u32,
    pub z: u32,
    pub w: u32,
}

pub open spec fn bool_byte(b: bool) -> u8 {
    if b {
        1
    } else {
        0
    }
}

pub open spec fn u16_bytes(v: u16) -> Seq<u8> {
    le_bytes(v as nat, 2)
}

pub open spec fn u32_bytes(v: u32) -> Seq<u8> {
    le_bytes(v as nat, 4)
}

pub open spec fn u64_bytes(v: u64) -> Seq<u8> {
    le_bytes(v as nat, 8)
}

pub open spec fn vector2_bytes(v: Vector2Bits) -> Seq<u8> {
    u32_bytes(v.x) + u32_bytes(v.y)
}

pub open spec fn vector3_bytes(v: Vector3Bits) -> Seq<u8> {
    u32_bytes(v.x) + u32_bytes(v.y) + u32_bytes(v.z)
}

pub open spec fn vector4_bytes(v: Vector4Bits) -> Seq<u8> {
    u32_bytes(v.x) + u32_bytes(v.y) + u32_bytes(v.z) + u32_bytes(v.w)
}

/// A byte blob: length prefix `0` when absent, `1 + n` then the bytes when present.
pub open spec fn blob_bytes(b: Option<Seq<u8>>) -> Seq<u8> {
    match b {
        None => encode_var_uint(0),
        Some(s) => encode_var_uint((s.len() + 1) as u64) + s,
    }
}

/// A string: its UTF-8 length, then its UTF-8 bytes.
pub open spec fn string_bytes(s: Seq<char>) -> Seq<u8> {
    encode_var_uint(encode_utf8(s).len() as u64) + encode_utf8(s)
}

/// An owned, growable byte buffer that values are appended to.
#[derive(Debug)]
pub struct NetworkWriter {
    buffer: Vec<u8>,
}

impl View for NetworkWriter {
    type V = Seq<u8>;

    closed spec fn view(&self) -> Seq<u8> {
        self.buffer@
    }
}

impl NetworkWriter {
    pub fn new() -> (w: NetworkWriter)
        ensures
            w@ == Seq::<u8>::empty(),
    {
        NetworkWriter { buffer: Vec::new() }
    }

    /// Empties the buffer so that the writer can be used again.
    pub fn reset(&mut self)
        ensures
            final(self)@ == Seq::<u8>::empty(),
    {
        self.buffer.clear();
    }

    pub fn len(&self) -> (n: usize)
        ensures
            n == self@.len(),
    {
        self.buffer.len()
    }

    /// A copy of the bytes written so far.
    pub fn to_bytes(&self) -> (r: Vec<u8>)
        ensures
            r@ == self@,
    {
        let mut r: Vec<u8> = Vec::with_capacity(self.buffer.len());
        let mut i: usize = 0;
        while i < self.buffer.len()
            invariant
                i <= self.buffer@.len(),
                r@ == self.buffer@.subrange(0, i as int),
            decreases self.buffer@.len() - i,
        {
            r.push(self.buffer[i]);
            i = i + 1;
            assert(r@ =~= self.buffer@.subrange(0, i as int));
        }
        assert(r@ =~= self.buffer@);
        r
    }

    pub fn write_byte(&mut self, value: u8)
        ensures
            final(self)@ == old(self)@.push(value),
    {
        self.buffer.push(value);
    }

    /// Appends the bytes of `value` as they are, with no length.
    pub fn write_bytes(&mut self, value: &[u8])
        ensures
            final(self)@ == old(self)@ + value@,
    {
        let mut i: usize = 0;
        while i < value.len()
            invariant
                i <= value@.len(),
                self@ == old(self)@ + value@.subrange(0, i as int),
            decreases value@.len() - i,
        {
            self.buffer.push(value[i]);
            i = i + 1;
            assert(self@ =~= old(self)@ + value@.subrange(0, i as int));
        }
        assert(value@.subrange(0, value@.len() as int) =~= value@);
    }

    /// Appends the `n` least significant bytes of `v`, least significant first.
    fn write_le(&mut self, v: u64, n: usize)
        requires
            n <= 8,
        ensures
            final(self)@ == old(self)@ + le_bytes(v as nat, n as nat),
    {
        let mut x: u64 = v;
        let mut i: usize = 0;
        proof {
            assert(pow256(0) == 1);
        }
        while i < n
            invariant
                i <= n,
                x as nat == v as nat / pow256(i as nat),
                self@ == old(self)@ + le_bytes(v as nat, i as nat),
            decreases n - i,
        {
            proof {
                lemma_le_bytes_push(v as nat, i as nat);
                lemma_pow256_pos(i as nat);
                lemma_div_denominator(v as int, pow256(i as nat) as int, 256);
                assert(pow256((i + 1) as nat) == 256 * pow256(i as nat));
            }
            self.buffer.push((x % 256) as u8);
            x = x / 256;
            i = i + 1;
        }
    }

    pub fn write_bool(&mut self, value: bool)
        ensures
            final(self)@ == old(self)@.push(bool_byte(value)),
    {
        self.buffer.push(if value { 1u8 } else { 0u8 });
    }

    pub fn write_sbyte(&mut self, value: i8)
        ensures
            final(self)@ == old(self)@.push(value as u8),
    {
        self.buffer.push(value as u8);
    }

    pub fn write_ushort(&mut self, value: u16)
        ensures
            final(self)@ == old(self)@ + u16_bytes(value),
    {
        self.write_le(value as u64, 2);
    }

    pub fn write_short(&mut self, value: i16)
        ensures
            final(self)@ == old(self)@ + u16_bytes(value as u16),
    {
        self.write_le(value as u16 as u64, 2);
    }

    pub fn write_uint(&mut self, value: u32)
        ensures
            final(self)@ == old(self)@ + u32_bytes(value),
    {
        self.write_le(value as u64, 4);
    }

    pub fn write_int(&mut self, value: i32)
        ensures
            final(self)@ == old(self)@ + u32_bytes(value as u32),
    {
        self.write_le(value as u32 as u64, 4);
    }

    pub fn write_ulong(&mut self, value: u64)
        ensures
            final(self)@ == old(self)@ + u64_bytes(value),
    {
        self.write_le(value, 8);
    }

    pub fn write_long(&mut self, value: i64)
        ensures
            final(self)@ == old(self)@ + u64_bytes(value as u64),
    {
        self.write_le(value as u64, 8);
    }

    /// Appends a 32-bit float given by its bit pattern.
    pub fn write_float_bits(&mut self, bits: u32)
        ensures
            final(self)@ == old(self)@ + u32_bytes(bits),
    {
        self.write_le(bits as u64, 4);
    }

    /// Appends a 64-bit float given by its bit pattern.
    pub fn write_double_bits(&mut self, bits: u64)
        ensures
            final(self)@ == old(self)@ + u64_bytes(bits),
    {
        self.write_le(bits, 8);
    }

    pub fn write_vector2(&mut self, value: Vector2Bits)
        ensures
            final(self)@ == old(self)@ + vector2_bytes(value),
    {
        self.write_float_bits(value.x);
        self.write_float_bits(value.y);
        assert(self@ =~= old(self)@ + vector2_bytes(value));
    }

    pub fn write_vector3(&mut self, value: Vector3Bits)
        ensures
            final(self)@ == old(self)@ + vector3_bytes(value),
    {
        self.write_float_bits(value.x);
        self.write_float_bits(value.y);
        self.write_float_bits(value.z);
        assert(self@ =~= old(self)@ + vector3_bytes(value));
    }

    pub fn write_vector4(&mut self, value: Vector4Bits)
        ensures
            final(self)@ == old(self)@ + vector4_bytes(value),
    {
        self.write_float_bits(value.x);
        self.write_float_bits(value.y);
        self.write_float_bits(value.z);
        self.write_float_bits(value.w);
        assert(self@ =~= old(self)@ + vector4_bytes(value));
    }

    /// A quaternion travels as its four components, x, y, z, w.
    pub fn write_quaternion(&mut self, value: Vector4Bits)
        ensures
            final(self)@ == old(self)@ + vector4_bytes(value),
    {
        self.write_vector4(value);
    }

    pub fn write_byte_nullable(&mut self, value: Option<u8>)
        ensures
            final(self)@ == match value {
                None => old(self)@.push(0),
                Some(v) => old(self)@.push(1).push(v),
            },
    {
        match value {
            None => self.write_bool(false),
            Some(v) => {
                self.write_bool(true);
                self.write_byte(v);
            },
        }
    }

    pub fn write_bool_nullable(&mut self, value: Option<bool>)
        ensures
            final(self)@ == match value {
                None => old(self)@.push(0),
                Some(v) => old(self)@.push(1).push(bool_byte(v)),
            },
    {
        match value {
            None => self.write_bool(false),
            Some(v) => {
                self.write_bool(true);
                self.write_bool(v);
            },
        }
    }

    pub fn write_ushort_nullable(&mut self, value: Option<u16>)
        ensures
            final(self)@ == match value {
                None => old(self)@.push(0),
                Some(v) => old(self)@.push(1) + u16_bytes(v),
            },
    {
        match value {
            None => self.write_bool(false),
            Some(v) => {
                self.write_bool(true);
                self.write_ushort(v);
            },
        }
    }

    pub fn write_uint_nullable(&mut self, value: Option<u32>)
        ensures
            final(self)@ == match value {
                None => old(self)@.push(0),
                Some(v) => old(self)@.push(1) + u32_bytes(v),
            },
    {
        match value {
            None => self.write_bool(false),
            Some(v) => {
                self.write_bool(true);
                self.write_uint(v);
            },
        }
    }

    pub fn write_int_nullable(&mut self, value: Option<i32>)
        ensures
            final(self)@ == match value {
                None => old(self)@.push(0),
                Some(v) => old(self)@.push(1) + u32_bytes(v as u32),
            },
    {
        match value {
            None => self.write_bool(false),
            Some(v) => {
                self.write_bool(true);
                self.write_int(v);
            },
        }
    }

    pub fn write_ulong_nullable(&mut self, value: Option<u64>)
        ensures
            final(self)@ == match value {
                None => old(self)@.push(0),
                Some(v) => old(self)@.push(1) + u64_bytes(v),
            },
    {
        match value {
            None => self.write_bool(false),
            Some(v) => {
                self.write_bool(true);
                self.write_ulong(v);
            },
        }
    }

    pub fn write_long_nullable(&mut self, value: Option<i64>)
        ensures
            final(self)@ == match value {
                None => old(self)@.push(0),
                Some(v) => old(self)@.push(1) + u64_bytes(v as u64),
            },
    {
        match value {
            None => self.write_bool(false),
            Some(v) => {
                self.write_bool(true);
                self.write_long(v);
            },
        }
    }

    pub fn write_vector3_nullable(&mut self, value: Option<Vector3Bits>)
        ensures
            final(self)@ == match value {
                None => old(self)@.push(0),
                Some(v) => old(self)@.push(1) + vector3_bytes(v),
            },
    {
        match value {
            None => self.write_bool(false),
            Some(v) => {
                self.write_bool(true);
                self.write_vector3(v);
            },
        }
    }

    pub fn write_vector2_nullable(&mut self, value: Option<Vector2Bits>)
        ensures
            final(self)@ == match value {
                None => old(self)@.push(0),
                Some(v) => old(self)@.push(1) + vector2_bytes(v),
            },
    {
        match value {
            None => self.write_bool(false),
            Some(v) => {
                self.write_bool(true);
                self.write_vector2(v);
            },
        }
    }

    pub fn write_vector4_nullable(&mut self, value: Option<Vector4Bits>)
        ensures
            final(self)@ == match value {
                None => old(self)@.push(0),
                Some(v) => old(self)@.push(1) + vector4_bytes(v),
            },
    {
        match value {
            None => self.write_bool(false),
            Some(v) => {
                self.write_bool(true);
                self.write_vector4(v);
            },
        }
    }

    pub fn write_quaternion_nullable(&mut self, value: Option<Vector4Bits>)
        ensures
            final(self)@ == match value {
                None => old(self)@.push(0),
                Some(v) => old(self)@.push(1) + vector4_bytes(v),
            },
    {
        match value {
            None => self.write_bool(false),
            Some(v) => {
                self.write_bool(true);
                self.write_quaternion(v);
            },
        }
    }

    /// Appends `value` in one to nine bytes, the fewer the smaller it is.
    pub fn compress_var_uint(&mut self, value: u64)
        ensures
            final(self)@ == old(self)@ + encode_var_uint(value),
    {
        if value <= 240 {
            self.write_byte(value as u8);
            assert(self@ =~= old(self)@ + encode_var_uint(value));
            return;
        }
        if value <= 2287 {
            self.write_byte(((value - 240) / 256 + 241) as u8);
            self.write_byte(((value - 240) % 256) as u8);
            assert(self@ =~= old(self)@ + encode_var_uint(value));
            return;
        }
        if value <= 67823 {
            self.write_byte(249);
            self.write_byte(((value - 2288) / 256) as u8);
            self.write_byte(((value - 2288) % 256) as u8);
            assert(self@ =~= old(self)@ + encode_var_uint(value));
            return;
        }
        let (marker, n): (u8, usize) = if value <= 0xFF_FFFF {
            (250, 3)
        } else if value <= 0xFFFF_FFFF {
            (251, 4)
        } else if value <= 0xFF_FFFF_FFFF {
            (252, 5)
        } else if value <= 0xFFFF_FFFF_FFFF {
            (253, 6)
        } else if value <= 0xFF_FFFF_FFFF_FFFF {
            (254, 7)
        } else {
            (255, 8)
        };
        self.write_byte(marker);
        self.write_le(value, n);
        assert(self@ =~= old(self)@ + encode_var_uint(value));
    }

    /// Appends a byte blob, `None` standing for an absent one.
    pub fn write_bytes_and_size(&mut self, value: Option<&[u8]>)
        requires
            value is Some ==> value.unwrap()@.len() < u64::MAX,
        ensures
            final(self)@ == old(self)@ + blob_bytes(
                match value {
                    None => None,
                    Some(b) => Some(b@),
                },
            ),
    {
        match value {
            None => {
                self.compress_var_uint(0);
            },
            Some(b) => {
                self.compress_var_uint(b.len() as u64 + 1);
                self.write_bytes(b);
                assert(self@ =~= old(self)@ + blob_bytes(Some(b@)));
            },
        }
    }

    /// Appends a string: its UTF-8 length as a varint, then its UTF-8 bytes.
    pub fn write_string(&mut self, value: &str)
        ensures
            final(self)@ == old(self)@ + string_bytes(value@),
    {
        let bytes = value.as_bytes();
        self.compress_var_uint(bytes.len() as u64);
        self.write_bytes(bytes);
        assert(self@ =~= old(self)@ + string_bytes(value@));
    }
}

} // verus!
