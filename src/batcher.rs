//! Packs messages into timestamped frames that stay under a size threshold.
//!
//! A frame is an 8-byte little-endian timestamp followed by messages, each
//! prefixed by its varint length. A message that would push the pending
//! frame's body past the threshold first closes that frame; a message that
//! alone exceeds the threshold gets a frame of its own and is never split.
use crate::le::{le_value, lemma_le_round_trip, lemma_pow256_values};
use crate::reader::{lemma_rest_advance, DecodeError, NetworkReader};
use crate::varint::{decode_var_uint, encode_var_uint, lemma_var_uint_round_trip, var_uint_len};
use crate::writer::u64_bytes;
use vstd::prelude::*;

verus! {

/// A frame: its timestamp (the bit pattern of a 64-bit float) and its messages.
pub type FrameSpec = (u64, Seq<Seq<u8>>);

/// A message as it stands in a frame: its length, then its bytes.
pub open spec fn entry(m: Seq<u8>) -> Seq<u8> {
    encode_var_uint(m.len() as u64) + m
}

/// The messages of a frame, one after another.
pub open spec fn body(msgs: Seq<Seq<u8>>) -> Seq<u8>
    decreases msgs.len(),
{
    if msgs.len() == 0 {
        Seq::empty()
    } else {
        body(msgs.drop_last()) + entry(msgs.last())
    }
}

pub open spec fn frame_bytes(f: FrameSpec) -> Seq<u8> {
    u64_bytes(f.0) + body(f.1)
}

/// A frame may exceed the threshold only when it holds a single message.
pub open spec fn frame_within(f: FrameSpec, threshold: nat) -> bool {
    f.1.len() > 0 && (body(f.1).len() <= threshold || f.1.len() == 1)
}

/// Where `add_message` puts message `m` stamped `ts`: the frames and the pending frame after it.
pub open spec fn add_spec(frames: Seq<FrameSpec>, pending: Option<FrameSpec>, threshold: nat, m: Seq<u8>, ts: u64) -> (Seq<FrameSpec>, Option<FrameSpec>) {
    match pending {
        Some(p) => if body(p.1).len() + entry(m).len() > threshold {
            (frames.push(p), Some((ts, seq![m])))
        } else {
            (frames, Some((p.0, p.1.push(m))))
        },
        None => (frames, Some((ts, seq![m]))),
    }
}

/// The size of the varint encoding of `v`.
pub fn var_uint_size(v: u64) -> (n: usize)
    ensures
        n == var_uint_len(v),
{
    if v <= 240 {
        1
    } else if v <= 2287 {
        2
    } else if v <= 67823 {
        3
    } else if v <= 0xFF_FFFF {
        4
    } else if v <= 0xFFFF_FFFF {
        5
    } else if v <= 0xFF_FFFF_FFFF {
        6
    } else if v <= 0xFFFF_FFFF_FFFF {
        7
    } else if v <= 0xFF_FFFF_FFFF_FFFF {
        8
    } else {
        9
    }
}

pub struct Batcher {
    threshold: usize,
    frames: Vec<Vec<u8>>,
    pending: Vec<u8>,
    pending_body: usize,
    frames_model: Ghost<Seq<FrameSpec>>,
    pending_model: Ghost<Option<FrameSpec>>,
}

impl Batcher {
    /// The finished frames, oldest first.
    pub closed spec fn frames(&self) -> Seq<FrameSpec> {
        self.frames_model@
    }

    /// The frame being filled, if any.
    pub closed spec fn pending(&self) -> Option<FrameSpec> {
        self.pending_model@
    }

    pub closed spec fn threshold(&self) -> nat {
        self.threshold as nat
    }

    pub closed spec fn wf(&self) -> bool {
        &&& self.frames@.len() == self.frames_model@.len()
        &&& forall|i: int| 0 <= i < self.frames@.len() ==> #[trigger] self.frames@[i]@ == frame_bytes(self.frames_model@[i])
        &&& forall|i: int| 0 <= i < self.frames_model@.len() ==> frame_within(#[trigger] self.frames_model@[i], self.threshold as nat)
        &&& match self.pending_model@ {
            None => self.pending@.len() == 0,
            Some(p) => {
                &&& self.pending@ == frame_bytes(p)
                &&& self.pending_body == body(p.1).len()
                &&& frame_within(p, self.threshold as nat)
            },
        }
    }

    pub fn new(threshold: usize) -> (b: Batcher)
        ensures
            b.wf(),
            b.threshold() == threshold,
            b.frames() == Seq::<FrameSpec>::empty(),
            b.pending() == None::<FrameSpec>,
    {
        Batcher {
            threshold,
            frames: Vec::new(),
            pending: Vec::new(),
            pending_body: 0,
            frames_model: Ghost(Seq::empty()),
            pending_model: Ghost(None),
        }
    }

    /// Appends `message` to the pending frame, closing that frame first where
    /// the message would push its body past the threshold; a new frame is
    /// stamped with `timestamp_bits`.
    pub fn add_message(&mut self, message: &[u8], timestamp_bits: u64)
        requires
            old(self).wf(),
        ensures
            final(self).wf(),
            final(self).threshold() == old(self).threshold(),
            (final(self).frames(), final(self).pending()) == add_spec(
                old(self).frames(),
                old(self).pending(),
                old(self).threshold(),
                message@,
                timestamp_bits,
            ),
    {
        let len = message.len();
        let prefix = var_uint_size(len as u64);
        let needed: u128 = prefix as u128 + len as u128;
        proof {
            lemma_var_uint_round_trip(len as u64, Seq::empty());
        }
        let ghost m = message@;
        if self.pending.len() > 0 && self.pending_body as u128 + needed > self.threshold as u128 {
            self.close_pending();
        }
        if self.pending.len() == 0 {
            proof {
                assert(seq![m].drop_last() =~= Seq::<Seq<u8>>::empty());
                assert(body(seq![m]) =~= body(Seq::<Seq<u8>>::empty()) + entry(m));
            }
            self.write_header(timestamp_bits);
            self.write_entry(message);
            self.pending_body = self.pending.len() - 8;
            proof {
                self.pending_model@ = Some((timestamp_bits, seq![m]));
                assert(self.pending@ =~= frame_bytes((timestamp_bits, seq![m])));
            }
        } else {
            let ghost p = self.pending_model@.unwrap();
            proof {
                assert(p.1.push(m).drop_last() =~= p.1);
            }
            self.write_entry(message);
            self.pending_body = self.pending.len() - 8;
            proof {
                self.pending_model@ = Some((p.0, p.1.push(m)));
                assert(self.pending@ =~= frame_bytes((p.0, p.1.push(m))));
            }
        }
    }

    fn write_header(&mut self, ts: u64)
        requires
            old(self).pending@.len() == 0,
        ensures
            final(self).pending@ == u64_bytes(ts),
            final(self).frames == old(self).frames,
            final(self).threshold == old(self).threshold,
            final(self).frames_model == old(self).frames_model,
    {
        let mut w = crate::writer::NetworkWriter::new();
        w.write_ulong(ts);
        self.pending = w.to_bytes();
    }

    fn write_entry(&mut self, message: &[u8])
        ensures
            final(self).pending@ == old(self).pending@ + entry(message@),
            final(self).frames == old(self).frames,
            final(self).threshold == old(self).threshold,
            final(self).frames_model == old(self).frames_model,
            final(self).pending_model == old(self).pending_model,
            final(self).pending_body == old(self).pending_body,
    {
        let mut w = crate::writer::NetworkWriter::new();
        w.compress_var_uint(message.len() as u64);
        w.write_bytes(message);
        let bytes = w.to_bytes();
        let mut i: usize = 0;
        while i < bytes.len()
            invariant
                i <= bytes@.len(),
                bytes@ == entry(message@),
                self.pending@ == old(self).pending@ + bytes@.subrange(0, i as int),
                self.frames == old(self).frames,
                self.threshold == old(self).threshold,
                self.frames_model == old(self).frames_model,
                self.pending_model == old(self).pending_model,
                self.pending_body == old(self).pending_body,
            decreases bytes@.len() - i,
        {
            self.pending.push(bytes[i]);
            i = i + 1;
            assert(self.pending@ =~= old(self).pending@ + bytes@.subrange(0, i as int));
        }
        assert(bytes@.subrange(0, bytes@.len() as int) =~= bytes@);
    }

    /// Moves the pending frame, if any, to the end of the finished frames.
    fn close_pending(&mut self)
        requires
            old(self).wf(),
        ensures
            final(self).wf(),
            final(self).threshold == old(self).threshold,
            final(self).pending_model@ == None::<FrameSpec>,
            final(self).frames_model@ == match old(self).pending_model@ {
                None => old(self).frames_model@,
                Some(p) => old(self).frames_model@.push(p),
            },
    {
        if self.pending.len() > 0 {
            let mut frame: Vec<u8> = Vec::new();
            std::mem::swap(&mut frame, &mut self.pending);
            self.frames.push(frame);
            self.pending_body = 0;
            proof {
                let p = self.pending_model@.unwrap();
                self.frames_model@ = self.frames_model@.push(p);
                self.pending_model@ = None;
                assert forall|i: int| 0 <= i < self.frames@.len() implies #[trigger] self.frames@[i]@ == frame_bytes(self.frames_model@[i]) by {
                    if i < self.frames@.len() - 1 {
                        assert(self.frames@[i] == old(self).frames@[i]);
                    }
                }
            }
        }
    }

    /// Closes the pending frame, if it holds any message.
    pub fn flush(&mut self)
        requires
            old(self).wf(),
        ensures
            final(self).wf(),
            final(self).threshold() == old(self).threshold(),
            final(self).pending() == None::<FrameSpec>,
            final(self).frames() == match old(self).pending() {
                None => old(self).frames(),
                Some(p) => old(self).frames().push(p),
            },
    {
        self.close_pending();
    }

    /// Takes the oldest finished frame; where none is finished, the pending
    /// frame is closed and taken. `None` when there is nothing to send.
    pub fn get_batch(&mut self) -> (r: Option<Vec<u8>>)
        requires
            old(self).wf(),
        ensures
            final(self).wf(),
            final(self).threshold() == old(self).threshold(),
            ({
                let all = match old(self).pending() {
                    None => old(self).frames(),
                    Some(p) => if old(self).frames().len() == 0 { seq![p] } else { old(self).frames() },
                };
                let pend = if old(self).frames().len() == 0 { None } else { old(self).pending() };
                match r {
                    None => all.len() == 0 && final(self).frames().len() == 0 && final(self).pending() == None::<FrameSpec>,
                    Some(bytes) => all.len() > 0 && bytes@ == frame_bytes(all[0])
                        && final(self).frames() == all.drop_first()
                        && final(self).pending() == pend,
                }
            }),
    {
        if self.frames.len() == 0 {
            self.close_pending();
        }
        if self.frames.len() == 0 {
            return None;
        }
        let frame = self.frames.remove(0);
        proof {
            let old_frames = self.frames_model@;
            self.frames_model@ = old_frames.drop_first();
            assert forall|i: int| 0 <= i < self.frames@.len() implies #[trigger] self.frames@[i]@ == frame_bytes(self.frames_model@[i]) by {
                assert(self.frames_model@[i] == old_frames[i + 1]);
            }
            assert forall|i: int| 0 <= i < self.frames_model@.len() implies frame_within(#[trigger] self.frames_model@[i], self.threshold as nat) by {
                assert(self.frames_model@[i] == old_frames[i + 1]);
            }
        }
        Some(frame)
    }
}

/// Every frame still to be sent: the finished ones, then the pending one.
pub open spec fn all_frames(frames: Seq<FrameSpec>, pending: Option<FrameSpec>) -> Seq<FrameSpec> {
    match pending {
        None => frames,
        Some(p) => frames.push(p),
    }
}

impl Batcher {
    /// Takes every frame, oldest first, leaving the batcher empty.
    pub fn drain(&mut self) -> (r: Vec<Vec<u8>>)
        requires
            old(self).wf(),
        ensures
            final(self).wf(),
            final(self).threshold() == old(self).threshold(),
            final(self).frames().len() == 0,
            final(self).pending() == None::<FrameSpec>,
            r@.len() == all_frames(old(self).frames(), old(self).pending()).len(),
            forall|i: int| 0 <= i < r@.len() ==> (#[trigger] r@[i])@ == frame_bytes(all_frames(old(self).frames(), old(self).pending())[i]),
    {
        let ghost all = all_frames(self.frames(), self.pending());
        let mut out: Vec<Vec<u8>> = Vec::new();
        loop
            invariant
                self.wf(),
                self.threshold() == old(self).threshold(),
                all == all_frames(old(self).frames(), old(self).pending()),
                out@.len() + all_frames(self.frames(), self.pending()).len() == all.len(),
                forall|i: int| 0 <= i < out@.len() ==> (#[trigger] out@[i])@ == frame_bytes(all[i]),
                all_frames(self.frames(), self.pending()) == all.subrange(out@.len() as int, all.len() as int),
            decreases all_frames(self.frames(), self.pending()).len(),
        {
            let ghost before = all_frames(self.frames(), self.pending());
            match self.get_batch() {
                None => {
                    return out;
                },
                Some(frame) => {
                    proof {
                        let after = all_frames(self.frames(), self.pending());
                        assert(after =~= before.drop_first());
                        assert(frame@ == frame_bytes(before[0]));
                        assert(before[0] == all[out@.len() as int]);
                    }
                    out.push(frame);
                    proof {
                        assert(all_frames(self.frames(), self.pending()) =~= all.subrange(out@.len() as int, all.len() as int));
                    }
                },
            }
        }
    }
}

/// Each message's entry is part of the body, so the body is at least as long.
pub proof fn lemma_body_covers_entry(msgs: Seq<Seq<u8>>, j: int)
    requires
        0 <= j < msgs.len(),
    ensures
        body(msgs).len() >= entry(msgs[j]).len(),
    decreases msgs.len(),
{
    if j < msgs.len() - 1 {
        lemma_body_covers_entry(msgs.drop_last(), j);
    }
}

/// No frame is empty, and a frame whose body exceeds the threshold holds
/// one message alone; the same holds of the pending frame.
pub proof fn lemma_frames_within_threshold(b: &Batcher)
    requires
        b.wf(),
    ensures
        forall|i: int| 0 <= i < b.frames().len() ==> frame_within(#[trigger] b.frames()[i], b.threshold()),
        b.pending() matches Some(p) ==> frame_within(p, b.threshold()),
{
}

/// Where every message fits within the threshold, no frame's body exceeds it.
pub proof fn lemma_small_messages_small_frames(b: &Batcher)
    requires
        b.wf(),
        forall|i: int, j: int| 0 <= i < b.frames().len() && 0 <= j < b.frames()[i].1.len()
            ==> (#[trigger] entry(b.frames()[i].1[j])).len() <= b.threshold(),
    ensures
        forall|i: int| 0 <= i < b.frames().len() ==> (#[trigger] body(b.frames()[i].1)).len() <= b.threshold(),
{
    lemma_frames_within_threshold(b);
    assert forall|i: int| 0 <= i < b.frames().len() implies (#[trigger] body(b.frames()[i].1)).len() <= b.threshold() by {
        lemma_body_covers_entry(b.frames()[i].1, 0);
        if b.frames()[i].1.len() == 1 {
            let msgs = b.frames()[i].1;
            assert(msgs.drop_last() =~= Seq::<Seq<u8>>::empty());
            assert(entry(msgs[0]).len() <= b.threshold());
            assert(body(msgs) =~= body(msgs.drop_last()) + entry(msgs.last()));
            assert(body(msgs.drop_last()) =~= Seq::<u8>::empty());
        }
    }
}

/// A message longer than the threshold stands alone in its frame.
pub proof fn lemma_oversized_message_alone(b: &Batcher, i: int, j: int)
    requires
        b.wf(),
        0 <= i < b.frames().len(),
        0 <= j < b.frames()[i].1.len(),
        entry(b.frames()[i].1[j]).len() > b.threshold(),
    ensures
        b.frames()[i].1.len() == 1,
{
    lemma_frames_within_threshold(b);
    lemma_body_covers_entry(b.frames()[i].1, j);
}

/// Splits the messages of a frame body from the front of `s`; `None` where
/// a length runs past the end.
pub open spec fn parse_entries(s: Seq<u8>) -> Option<Seq<Seq<u8>>>
    decreases s.len(),
{
    if s.len() == 0 {
        Some(Seq::empty())
    } else {
        match decode_var_uint(s) {
            None => None,
            Some((n, k)) => if k + n > s.len() || k == 0 {
                None
            } else {
                match parse_entries(s.subrange(k + n, s.len() as int)) {
                    None => None,
                    Some(rest) => Some(seq![s.subrange(k as int, k + n)] + rest),
                }
            },
        }
    }
}

pub open spec fn prefixed(c: Seq<Seq<u8>>, o: Option<Seq<Seq<u8>>>) -> Option<Seq<Seq<u8>>> {
    match o {
        None => None,
        Some(x) => Some(c + x),
    }
}

/// Reads a frame: its timestamp and its messages.
pub open spec fn parse_frame(s: Seq<u8>) -> Option<FrameSpec> {
    if s.len() < 8 {
        None
    } else {
        match parse_entries(s.subrange(8, s.len() as int)) {
            None => None,
            Some(msgs) => Some((le_value(s.subrange(0, 8)) as u64, msgs)),
        }
    }
}

proof fn lemma_parse_one_entry(m: Seq<u8>, t: Seq<u8>)
    requires
        m.len() <= u64::MAX,
    ensures
        parse_entries(entry(m) + t) == prefixed(seq![m], parse_entries(t)),
{
    lemma_var_uint_round_trip(m.len() as u64, m + t);
    let e = encode_var_uint(m.len() as u64);
    let s = entry(m) + t;
    assert(s =~= e + (m + t));
    let k = e.len();
    assert(s.subrange(k as int, (k + m.len()) as int) =~= m);
    assert(s.subrange((k + m.len()) as int, s.len() as int) =~= t);
}

proof fn lemma_parse_body(msgs: Seq<Seq<u8>>, t: Seq<u8>)
    requires
        forall|i: int| 0 <= i < msgs.len() ==> (#[trigger] msgs[i]).len() <= u64::MAX,
    ensures
        parse_entries(body(msgs) + t) == prefixed(msgs, parse_entries(t)),
    decreases msgs.len(),
{
    if msgs.len() == 0 {
        assert(body(msgs) + t =~= t);
        match parse_entries(t) {
            None => {},
            Some(x) => assert(msgs + x =~= x),
        }
    } else {
        let init = msgs.drop_last();
        let last = msgs.last();
        assert(body(msgs) + t =~= body(init) + (entry(last) + t));
        lemma_parse_body(init, entry(last) + t);
        lemma_parse_one_entry(last, t);
        match parse_entries(t) {
            None => {},
            Some(x) => assert(init + (seq![last] + x) =~= msgs + x),
        }
    }
}

/// Reading a frame that the batcher made gives back its timestamp and its
/// messages, in order.
pub proof fn lemma_frame_round_trip(f: FrameSpec)
    requires
        forall|i: int| 0 <= i < f.1.len() ==> (#[trigger] f.1[i]).len() <= u64::MAX,
    ensures
        parse_frame(frame_bytes(f)) == Some(f),
{
    let s = frame_bytes(f);
    lemma_pow256_values();
    lemma_le_round_trip(f.0 as nat, 8);
    lemma_parse_body(f.1, Seq::empty());
    assert(body(f.1) + Seq::<u8>::empty() =~= body(f.1));
    assert(s.subrange(0, 8) =~= u64_bytes(f.0));
    assert(s.subrange(8, s.len() as int) =~= body(f.1));
    assert(f.1 + Seq::<Seq<u8>>::empty() =~= f.1);
}

/// Splits a received frame into its timestamp (the bit pattern of a 64-bit
/// float) and its messages. A frame that ends inside a message is refused
/// whole.
pub fn unbatch(frame: Vec<u8>) -> (r: Result<(u64, Vec<Vec<u8>>), DecodeError>)
    ensures
        match parse_frame(frame@) {
            None => r == Err::<(u64, Vec<Vec<u8>>), DecodeError>(DecodeError::EndOfData),
            Some(f) => r is Ok && r.unwrap().0 == f.0 && r.unwrap().1@.len() == f.1.len()
                && forall|i: int| 0 <= i < f.1.len() ==> (#[trigger] r.unwrap().1@[i])@ == f.1[i],
        },
{
    let ghost s = frame@;
    let mut reader = NetworkReader::new(frame);
    let timestamp = match reader.read_ulong() {
        Ok(t) => t,
        Err(e) => return Err(e),
    };
    assert(reader.bytes().subrange(0, 8) =~= s.subrange(0, 8));
    let ghost r0 = reader;
    proof {
        assert(reader.rest() =~= s.subrange(8, s.len() as int));
    }
    let mut out: Vec<Vec<u8>> = Vec::new();
    let ghost mut got: Seq<Seq<u8>> = Seq::empty();
    while reader.remaining() > 0
        invariant
            s == frame@,
            reader.wf(),
            reader.bytes() == s,
            8 <= reader.pos(),
            parse_entries(s.subrange(8, s.len() as int)) == prefixed(got, parse_entries(reader.rest())),
            out@.len() == got.len(),
            forall|i: int| 0 <= i < got.len() ==> (#[trigger] out@[i])@ == got[i],
        decreases reader.rest().len(),
    {
        let ghost r1 = reader;
        let ghost t = r1.rest();
        let n = match reader.decompress_var_uint() {
            Ok(n) => n,
            Err(e) => {
                assert(parse_entries(t) is None);
                return Err(e);
            },
        };
        proof { lemma_rest_advance(&r1, &reader); }
        let ghost k = (reader.pos() - r1.pos()) as nat;
        if n > reader.remaining() as u64 {
            assert(decode_var_uint(t) == Some((n, k)));
            assert(parse_entries(t) is None);
            return Err(DecodeError::EndOfData);
        }
        let ghost r2 = reader;
        let m = match reader.read_bytes(n as usize) {
            Ok(m) => m,
            Err(e) => return Err(e),
        };
        proof {
            lemma_rest_advance(&r2, &reader);
            lemma_rest_advance(&r1, &reader);
            assert(m@ =~= t.subrange(k as int, k + n));
            assert(reader.rest() =~= t.subrange(k + n, t.len() as int));
            match parse_entries(reader.rest()) {
                None => {},
                Some(x) => {
                    assert(got + (seq![m@] + x) =~= got.push(m@) + x);
                },
            }
        }
        out.push(m);
        proof {
            got = got.push(m@);
        }
    }
    proof {
        assert(reader.rest().len() == 0);
        assert(got + Seq::<Seq<u8>>::empty() =~= got);
    }
    Ok((timestamp, out))
}

} // verus!
