//! The state that a reliable network transform sends: position, rotation
//! and scale, each when synchronised. The initial state carries the raw
//! float bit patterns; later states carry position and scale as deltas of
//! their quantized forms against the last ones sent, and rotation either
//! packed in 32 bits or as four floats. Quantizing and packing are float
//! work done before the values reach this module.
use crate::delta::{compress_delta, decompress_delta, delta_bytes, parse_delta, Vector3Long};
use crate::le::le_value;
use crate::reader::{lemma_rest_advance, DecodeError, NetworkReader};
use crate::writer::{u32_bytes, vector3_bytes, vector4_bytes, NetworkWriter, Vector3Bits, Vector4Bits};
use vstd::prelude::*;

verus! {

/// One transform reading, with its quantized and packed forms.
#[derive(Debug, Clone, Copy, PartialEq, Eq, Structural)]
pub struct TransformSample {
    pub position: Vector3Bits,
    pub rotation: Vector4Bits,
    pub scale: Vector3Bits,
    pub position_quantized: Vector3Long,
    pub scale_quantized: Vector3Long,
    pub rotation_compressed: u32,
}

#[derive(Debug, Clone, Copy, PartialEq, Eq, Structural)]
pub struct TransformSyncSettings {
    pub sync_position: bool,
    pub sync_rotation: bool,
    pub sync_scale: bool,
    pub compress_rotation: bool,
}

/// A position or scale as received: raw floats, or quantized.
#[derive(Debug, Clone, Copy, PartialEq, Eq, Structural)]
pub enum VectorData {
    Raw(Vector3Bits),
    Quantized(Vector3Long),
}

/// A rotation as received: packed, or four floats.
#[derive(Debug, Clone, Copy, PartialEq, Eq, Structural)]
pub enum RotationData {
    Compressed(u32),
    Full(Vector4Bits),
}

#[derive(Debug, Clone, Copy, PartialEq, Eq, Structural)]
pub struct ReceivedTransform {
    pub position: Option<VectorData>,
    pub rotation: Option<RotationData>,
    pub scale: Option<VectorData>,
}

#[derive(Debug, Clone, Copy)]
pub struct NetworkTransformReliable {
    pub settings: TransformSyncSettings,
    pub last_serialized_position: Vector3Long,
    pub last_serialized_scale: Vector3Long,
    pub last_deserialized_position: Vector3Long,
    pub last_deserialized_scale: Vector3Long,
}

pub open spec fn rotation_bytes(settings: TransformSyncSettings, sample: TransformSample) -> Seq<u8> {
    if settings.compress_rotation {
        u32_bytes(sample.rotation_compressed)
    } else {
        vector4_bytes(sample.rotation)
    }
}

/// What `on_serialize` writes for a position or scale.
pub open spec fn sent_part(sync: bool, initial: bool, raw: Vector3Bits, baseline: Vector3Long, q: Vector3Long) -> Seq<u8> {
    if !sync {
        Seq::empty()
    } else if initial {
        vector3_bytes(raw)
    } else {
        delta_bytes(baseline, q)
    }
}

pub open spec fn sent_rotation(settings: TransformSyncSettings, sample: TransformSample) -> Seq<u8> {
    if settings.sync_rotation {
        rotation_bytes(settings, sample)
    } else {
        Seq::empty()
    }
}

/// What `on_serialize` writes.
pub open spec fn transform_bytes(t: NetworkTransformReliable, sample: TransformSample, initial: bool) -> Seq<u8> {
    sent_part(t.settings.sync_position, initial, sample.position, t.last_serialized_position, sample.position_quantized)
        + sent_rotation(t.settings, sample)
        + sent_part(t.settings.sync_scale, initial, sample.scale, t.last_serialized_scale, sample.scale_quantized)
}

pub open spec fn u32_at(s: Seq<u8>, i: int) -> u32 {
    le_value(s.subrange(i, i + 4)) as u32
}

/// Reads a position or scale from the front of `s`.
pub open spec fn parse_vector(s: Seq<u8>, initial: bool, baseline: Vector3Long) -> Option<(VectorData, nat)> {
    if initial {
        if s.len() < 12 {
            None
        } else {
            Some((VectorData::Raw(Vector3Bits { x: u32_at(s, 0), y: u32_at(s, 4), z: u32_at(s, 8) }), 12))
        }
    } else {
        match parse_delta(s, baseline) {
            None => None,
            Some((v, k)) => Some((VectorData::Quantized(v), k)),
        }
    }
}

/// Reads a rotation from the front of `s`.
pub open spec fn parse_rotation(s: Seq<u8>, compressed: bool) -> Option<(RotationData, nat)> {
    if compressed {
        if s.len() < 4 {
            None
        } else {
            Some((RotationData::Compressed(u32_at(s, 0)), 4))
        }
    } else if s.len() < 16 {
        None
    } else {
        Some((RotationData::Full(Vector4Bits { x: u32_at(s, 0), y: u32_at(s, 4), z: u32_at(s, 8), w: u32_at(s, 12) }), 16))
    }
}

pub open spec fn drop(s: Seq<u8>, k: nat) -> Seq<u8> {
    s.subrange(k as int, s.len() as int)
}

#[verifier::opaque]
pub open spec fn parse_position_part(t: NetworkTransformReliable, s: Seq<u8>, initial: bool) -> Option<(Option<VectorData>, nat)> {
    if t.settings.sync_position {
        match parse_vector(s, initial, t.last_deserialized_position) {
            None => None,
            Some((v, k)) => Some((Some(v), k)),
        }
    } else {
        Some((None, 0))
    }
}

#[verifier::opaque]
pub open spec fn parse_rotation_part(t: NetworkTransformReliable, s: Seq<u8>) -> Option<(Option<RotationData>, nat)> {
    if t.settings.sync_rotation {
        match parse_rotation(s, t.settings.compress_rotation) {
            None => None,
            Some((v, k)) => Some((Some(v), k)),
        }
    } else {
        Some((None, 0))
    }
}

#[verifier::opaque]
pub open spec fn parse_scale_part(t: NetworkTransformReliable, s: Seq<u8>, initial: bool) -> Option<(Option<VectorData>, nat)> {
    if t.settings.sync_scale {
        match parse_vector(s, initial, t.last_deserialized_scale) {
            None => None,
            Some((v, k)) => Some((Some(v), k)),
        }
    } else {
        Some((None, 0))
    }
}

/// Reads what `on_serialize` wrote: each synchronised part in turn.
pub open spec fn parse_transform(t: NetworkTransformReliable, s: Seq<u8>, initial: bool) -> Option<(ReceivedTransform, nat)> {
    match parse_position_part(t, s, initial) {
        None => None,
        Some((pos, k1)) => match parse_rotation_part(t, drop(s, k1)) {
            None => None,
            Some((rot, k2)) => match parse_scale_part(t, drop(s, k1 + k2), initial) {
                None => None,
                Some((sc, k3)) => Some((ReceivedTransform { position: pos, rotation: rot, scale: sc }, k1 + k2 + k3)),
            },
        },
    }
}

/// The new baseline after receiving `v`: a quantized value replaces it, a raw one leaves it.
pub open spec fn next_baseline(old: Vector3Long, v: Option<VectorData>) -> Vector3Long {
    match v {
        Some(VectorData::Quantized(q)) => q,
        _ => old,
    }
}

impl NetworkTransformReliable {
    pub fn new(settings: TransformSyncSettings) -> (r: NetworkTransformReliable)
        ensures
            r.settings == settings,
            r.last_serialized_position == (Vector3Long { x: 0, y: 0, z: 0 }),
            r.last_serialized_scale == (Vector3Long { x: 0, y: 0, z: 0 }),
            r.last_deserialized_position == (Vector3Long { x: 0, y: 0, z: 0 }),
            r.last_deserialized_scale == (Vector3Long { x: 0, y: 0, z: 0 }),
    {
        let zero = Vector3Long { x: 0, y: 0, z: 0 };
        NetworkTransformReliable {
            settings,
            last_serialized_position: zero,
            last_serialized_scale: zero,
            last_deserialized_position: zero,
            last_deserialized_scale: zero,
        }
    }

    fn write_vector(writer: &mut NetworkWriter, initial: bool, raw: Vector3Bits, baseline: Vector3Long, quantized: Vector3Long)
        ensures
            final(writer)@ == old(writer)@ + if initial { vector3_bytes(raw) } else { delta_bytes(baseline, quantized) },
    {
        if initial {
            writer.write_vector3(raw);
        } else {
            compress_delta(writer, baseline, quantized);
        }
    }

    /// Writes the synchronised parts of `sample`; after a non-initial write
    /// the quantized position and scale become the baselines for the next.
    pub fn on_serialize(&mut self, writer: &mut NetworkWriter, sample: &TransformSample, initial: bool)
        ensures
            final(writer)@ == old(writer)@ + transform_bytes(*old(self), *sample, initial),
            final(self).settings == old(self).settings,
            final(self).last_deserialized_position == old(self).last_deserialized_position,
            final(self).last_deserialized_scale == old(self).last_deserialized_scale,
            final(self).last_serialized_position == if !initial && old(self).settings.sync_position {
                sample.position_quantized
            } else {
                old(self).last_serialized_position
            },
            final(self).last_serialized_scale == if !initial && old(self).settings.sync_scale {
                sample.scale_quantized
            } else {
                old(self).last_serialized_scale
            },
    {
        if self.settings.sync_position {
            Self::write_vector(writer, initial, sample.position, self.last_serialized_position, sample.position_quantized);
        }
        if self.settings.sync_rotation {
            if self.settings.compress_rotation {
                writer.write_uint(sample.rotation_compressed);
            } else {
                writer.write_quaternion(sample.rotation);
            }
        }
        if self.settings.sync_scale {
            Self::write_vector(writer, initial, sample.scale, self.last_serialized_scale, sample.scale_quantized);
        }
        assert(writer@ =~= old(writer)@ + transform_bytes(*old(self), *sample, initial));
        if !initial {
            if self.settings.sync_position {
                self.last_serialized_position = sample.position_quantized;
            }
            if self.settings.sync_scale {
                self.last_serialized_scale = sample.scale_quantized;
            }
        }
    }

    fn read_vector(reader: &mut NetworkReader, initial: bool, baseline: Vector3Long) -> (r: Result<VectorData, DecodeError>)
        requires
            old(reader).wf(),
        ensures
            final(reader).wf(),
            final(reader).bytes() == old(reader).bytes(),
            match parse_vector(old(reader).rest(), initial, baseline) {
                None => r is Err,
                Some((v, k)) => r == Ok::<VectorData, DecodeError>(v) && final(reader).pos() == old(reader).pos() + k,
            },
    {
        if initial {
            let ghost s = old(reader).rest();
            match reader.read_vector3() {
                Ok(v) => {
                    assert(old(reader).ahead(12) =~= s.subrange(0, 12));
                    assert(old(reader).ahead(12).subrange(0, 4) =~= s.subrange(0, 4));
                    assert(old(reader).ahead(12).subrange(4, 8) =~= s.subrange(4, 8));
                    assert(old(reader).ahead(12).subrange(8, 12) =~= s.subrange(8, 12));
                    Ok(VectorData::Raw(v))
                },
                Err(e) => Err(e),
            }
        } else {
            match decompress_delta(reader, baseline) {
                Ok(v) => Ok(VectorData::Quantized(v)),
                Err(e) => Err(e),
            }
        }
    }

    fn read_rotation(reader: &mut NetworkReader, compressed: bool) -> (r: Result<RotationData, DecodeError>)
        requires
            old(reader).wf(),
        ensures
            final(reader).wf(),
            final(reader).bytes() == old(reader).bytes(),
            match parse_rotation(old(reader).rest(), compressed) {
                None => r is Err,
                Some((v, k)) => r == Ok::<RotationData, DecodeError>(v) && final(reader).pos() == old(reader).pos() + k,
            },
    {
        let ghost s = old(reader).rest();
        if compressed {
            match reader.read_uint() {
                Ok(v) => {
                    assert(old(reader).ahead(4) =~= s.subrange(0, 4));
                    Ok(RotationData::Compressed(v))
                },
                Err(e) => Err(e),
            }
        } else {
            match reader.read_quaternion() {
                Ok(v) => {
                    assert(old(reader).ahead(16).subrange(0, 4) =~= s.subrange(0, 4));
                    assert(old(reader).ahead(16).subrange(4, 8) =~= s.subrange(4, 8));
                    assert(old(reader).ahead(16).subrange(8, 12) =~= s.subrange(8, 12));
                    assert(old(reader).ahead(16).subrange(12, 16) =~= s.subrange(12, 16));
                    Ok(RotationData::Full(v))
                },
                Err(e) => Err(e),
            }
        }
    }

    fn read_position_part(&self, reader: &mut NetworkReader, initial: bool) -> (r: Result<Option<VectorData>, DecodeError>)
        requires
            old(reader).wf(),
        ensures
            final(reader).wf(),
            final(reader).bytes() == old(reader).bytes(),
            match parse_position_part(*self, old(reader).rest(), initial) {
                None => r is Err,
                Some((v, k)) => r == Ok::<Option<VectorData>, DecodeError>(v) && final(reader).pos() == old(reader).pos() + k,
            },
    {
        proof { reveal(parse_position_part); }
        if self.settings.sync_position {
            match Self::read_vector(reader, initial, self.last_deserialized_position) {
                Ok(v) => Ok(Some(v)),
                Err(e) => Err(e),
            }
        } else {
            Ok(None)
        }
    }

    fn read_rotation_part(&self, reader: &mut NetworkReader) -> (r: Result<Option<RotationData>, DecodeError>)
        requires
            old(reader).wf(),
        ensures
            final(reader).wf(),
            final(reader).bytes() == old(reader).bytes(),
            match parse_rotation_part(*self, old(reader).rest()) {
                None => r is Err,
                Some((v, k)) => r == Ok::<Option<RotationData>, DecodeError>(v) && final(reader).pos() == old(reader).pos() + k,
            },
    {
        proof { reveal(parse_rotation_part); }
        if self.settings.sync_rotation {
            match Self::read_rotation(reader, self.settings.compress_rotation) {
                Ok(v) => Ok(Some(v)),
                Err(e) => Err(e),
            }
        } else {
            Ok(None)
        }
    }

    fn read_scale_part(&self, reader: &mut NetworkReader, initial: bool) -> (r: Result<Option<VectorData>, DecodeError>)
        requires
            old(reader).wf(),
        ensures
            final(reader).wf(),
            final(reader).bytes() == old(reader).bytes(),
            match parse_scale_part(*self, old(reader).rest(), initial) {
                None => r is Err,
                Some((v, k)) => r == Ok::<Option<VectorData>, DecodeError>(v) && final(reader).pos() == old(reader).pos() + k,
            },
    {
        proof { reveal(parse_scale_part); }
        if self.settings.sync_scale {
            match Self::read_vector(reader, initial, self.last_deserialized_scale) {
                Ok(v) => Ok(Some(v)),
                Err(e) => Err(e),
            }
        } else {
            Ok(None)
        }
    }

    /// Reads the synchronised parts; quantized position and scale received
    /// become the baselines for the next read.
    pub fn on_deserialize(&mut self, reader: &mut NetworkReader, initial: bool) -> (r: Result<ReceivedTransform, DecodeError>)
        requires
            old(reader).wf(),
        ensures
            final(reader).wf(),
            final(reader).bytes() == old(reader).bytes(),
            final(self).settings == old(self).settings,
            final(self).last_serialized_position == old(self).last_serialized_position,
            final(self).last_serialized_scale == old(self).last_serialized_scale,
            match parse_transform(*old(self), old(reader).rest(), initial) {
                None => r is Err && *final(self) == *old(self),
                Some((rx, k)) => {
                    &&& r == Ok::<ReceivedTransform, DecodeError>(rx)
                    &&& final(reader).pos() == old(reader).pos() + k
                    &&& final(self).last_deserialized_position == next_baseline(old(self).last_deserialized_position, rx.position)
                    &&& final(self).last_deserialized_scale == next_baseline(old(self).last_deserialized_scale, rx.scale)
                },
            },
    {
        let position = match self.read_position_part(reader, initial) {
            Ok(v) => v,
            Err(e) => return Err(e),
        };
        proof { lemma_rest_advance(old(reader), reader); }
        let rotation = match self.read_rotation_part(reader) {
            Ok(v) => v,
            Err(e) => return Err(e),
        };
        proof { lemma_rest_advance(old(reader), reader); }
        let scale = match self.read_scale_part(reader, initial) {
            Ok(v) => v,
            Err(e) => return Err(e),
        };
        if let Some(VectorData::Quantized(q)) = position {
            self.last_deserialized_position = q;
        }
        if let Some(VectorData::Quantized(q)) = scale {
            self.last_deserialized_scale = q;
        }
        Ok(ReceivedTransform { position, rotation, scale })
    }
}

pub open spec fn expected_rotation(settings: TransformSyncSettings, sample: TransformSample) -> Option<RotationData> {
    if settings.sync_rotation {
        Some(if settings.compress_rotation {
            RotationData::Compressed(sample.rotation_compressed)
        } else {
            RotationData::Full(sample.rotation)
        })
    } else {
        None
    }
}

proof fn lemma_position_stage(receiver: NetworkTransformReliable, raw: Vector3Bits, baseline: Vector3Long, q: Vector3Long, t: Seq<u8>)
    requires
        receiver.last_deserialized_position == baseline,
    ensures
        parse_position_part(receiver, sent_part(receiver.settings.sync_position, false, raw, baseline, q) + t, false) == Some((
            if receiver.settings.sync_position { Some(VectorData::Quantized(q)) } else { None },
            sent_part(receiver.settings.sync_position, false, raw, baseline, q).len(),
        )),
{
    reveal(parse_position_part);
    if receiver.settings.sync_position {
        crate::delta::lemma_delta_round_trip(baseline, q, t);
    }
}

proof fn lemma_scale_stage(receiver: NetworkTransformReliable, raw: Vector3Bits, baseline: Vector3Long, q: Vector3Long, t: Seq<u8>)
    requires
        receiver.last_deserialized_scale == baseline,
    ensures
        parse_scale_part(receiver, sent_part(receiver.settings.sync_scale, false, raw, baseline, q) + t, false) == Some((
            if receiver.settings.sync_scale { Some(VectorData::Quantized(q)) } else { None },
            sent_part(receiver.settings.sync_scale, false, raw, baseline, q).len(),
        )),
{
    reveal(parse_scale_part);
    if receiver.settings.sync_scale {
        crate::delta::lemma_delta_round_trip(baseline, q, t);
    }
}

proof fn lemma_rotation_stage(receiver: NetworkTransformReliable, sample: TransformSample, t: Seq<u8>)
    ensures
        parse_rotation_part(receiver, sent_rotation(receiver.settings, sample) + t) == Some((
            expected_rotation(receiver.settings, sample),
            sent_rotation(receiver.settings, sample).len(),
        )),
{
    reveal(parse_rotation_part);
    let st = receiver.settings;
    let rb = sent_rotation(st, sample);
    let u = rb + t;
    crate::le::lemma_pow256_values();
    if st.sync_rotation {
        if st.compress_rotation {
            crate::le::lemma_le_round_trip(sample.rotation_compressed as nat, 4);
            assert(u.subrange(0, 4) =~= rb);
        } else {
            crate::le::lemma_le_round_trip(sample.rotation.x as nat, 4);
            crate::le::lemma_le_round_trip(sample.rotation.y as nat, 4);
            crate::le::lemma_le_round_trip(sample.rotation.z as nat, 4);
            crate::le::lemma_le_round_trip(sample.rotation.w as nat, 4);
            assert(u.subrange(0, 4) =~= u32_bytes(sample.rotation.x));
            assert(u.subrange(4, 8) =~= u32_bytes(sample.rotation.y));
            assert(u.subrange(8, 12) =~= u32_bytes(sample.rotation.z));
            assert(u.subrange(12, 16) =~= u32_bytes(sample.rotation.w));
        }
    }
}

/// Sending a non-initial state and reading it back on a replica whose
/// baselines match the sender's gives the sample's quantized position and
/// scale and its rotation, whatever follows it.
pub proof fn lemma_transform_round_trip(sender: NetworkTransformReliable, receiver: NetworkTransformReliable, sample: TransformSample, rest: Seq<u8>)
    requires
        receiver.settings == sender.settings,
        receiver.last_deserialized_position == sender.last_serialized_position,
        receiver.last_deserialized_scale == sender.last_serialized_scale,
    ensures
        parse_transform(receiver, transform_bytes(sender, sample, false) + rest, false) == Some((
            ReceivedTransform {
                position: if sender.settings.sync_position { Some(VectorData::Quantized(sample.position_quantized)) } else { None },
                rotation: expected_rotation(sender.settings, sample),
                scale: if sender.settings.sync_scale { Some(VectorData::Quantized(sample.scale_quantized)) } else { None },
            },
            transform_bytes(sender, sample, false).len(),
        )),
{
    let st = sender.settings;
    let pb = sent_part(st.sync_position, false, sample.position, sender.last_serialized_position, sample.position_quantized);
    let rb = sent_rotation(st, sample);
    let sb = sent_part(st.sync_scale, false, sample.scale, sender.last_serialized_scale, sample.scale_quantized);
    let s = transform_bytes(sender, sample, false) + rest;
    assert(s =~= pb + (rb + (sb + rest)));
    lemma_position_stage(receiver, sample.position, sender.last_serialized_position, sample.position_quantized, rb + (sb + rest));
    assert(drop(s, pb.len()) =~= rb + (sb + rest));
    lemma_rotation_stage(receiver, sample, sb + rest);
    assert(drop(s, pb.len() + rb.len()) =~= sb + rest);
    lemma_scale_stage(receiver, sample.scale, sender.last_serialized_scale, sample.scale_quantized, rest);
}

} // verus!
