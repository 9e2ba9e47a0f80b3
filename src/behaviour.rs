//! Replicated components: their synchronised fields, dirty bits, and how
//! a component writes and reads its state.
use crate::le::{le_value, lemma_le_round_trip, lemma_pow256_values};
use crate::reader::{lemma_rest_advance, DecodeError, NetworkReader};
use crate::varint::{decode_var_uint, encode_var_uint, lemma_var_uint_round_trip};
use crate::writer::{bool_byte, u32_bytes, u64_bytes, NetworkWriter};
use vstd::prelude::*;

verus! {

/// Which side is authoritative for a component's state.
#[derive(Debug, Clone, Copy, PartialEq, Eq, Structural)]
pub enum SyncDirection {
    ServerToClient,
    ClientToServer,
}

/// Who receives a component's state: every observer, or the owner alone.
#[derive(Debug, Clone, Copy, PartialEq, Eq, Structural)]
pub enum SyncMode {
    Observers,
    Owner,
}

/// The value of one synchronised field.
#[derive(Debug, Clone, Copy, PartialEq, Eq, Structural)]
pub enum SyncValue {
    Bool(bool),
    Int(i32),
    ULong(u64),
}

pub open spec fn value_bytes(v: SyncValue) -> Seq<u8> {
    match v {
        SyncValue::Bool(b) => seq![bool_byte(b)],
        SyncValue::Int(i) => u32_bytes(i as u32),
        SyncValue::ULong(u) => u64_bytes(u),
    }
}

/// Reads a value of the same kind as `kind` from the front of `s`.
pub open spec fn parse_value(kind: SyncValue, s: Seq<u8>) -> Option<(SyncValue, nat)> {
    match kind {
        SyncValue::Bool(_) => if s.len() >= 1 {
            Some((SyncValue::Bool(s[0] != 0), 1))
        } else {
            None
        },
        SyncValue::Int(_) => if s.len() >= 4 {
            Some((SyncValue::Int(le_value(s.subrange(0, 4)) as u32 as i32), 4))
        } else {
            None
        },
        SyncValue::ULong(_) => if s.len() >= 8 {
            Some((SyncValue::ULong(le_value(s.subrange(0, 8)) as u64), 8))
        } else {
            None
        },
    }
}

/// Whether bit `i` of `mask` is set.
pub open spec fn bit(mask: u64, i: int) -> bool {
    0 <= i < 64 && (mask >> (i as u64)) & 1 == 1
}

pub proof fn lemma_bit_or(m: u64, k: u64, i: u64)
    requires
        k < 64,
        i < 64,
    ensures
        ((m | (1u64 << k)) >> i) & 1 == 1 <==> ((m >> i) & 1 == 1 || i == k),
{
    assert(((m | (1u64 << k)) >> i) & 1 == 1 <==> ((m >> i) & 1 == 1 || i == k)) by (bit_vector)
        requires
            k < 64,
            i < 64,
    ;
}

pub proof fn lemma_bit_zero(i: u64)
    requires
        i < 64,
    ensures
        (0u64 >> i) & 1 == 0,
{
    assert((0u64 >> i) & 1 == 0) by (bit_vector);
}

/// The bytes of the fields below `n` that are written: all of them, or
/// those whose bit is set in `mask`.
pub open spec fn vars_bytes(vars: Seq<SyncValue>, mask: u64, all: bool, n: int) -> Seq<u8>
    decreases n,
{
    if n <= 0 {
        Seq::empty()
    } else {
        vars_bytes(vars, mask, all, n - 1) + if all || bit(mask, n - 1) {
            value_bytes(vars[n - 1])
        } else {
            Seq::empty()
        }
    }
}

/// Reads the fields from `i` on whose bit is set in `mask` (all of them when
/// `all`), each of the kind that `vars` holds there, starting at offset
/// `off` of `s`: the fields after reading and the offset reached.
pub open spec fn parse_vars(s: Seq<u8>, vars: Seq<SyncValue>, mask: u64, all: bool, i: int, off: nat) -> Option<(Seq<SyncValue>, nat)>
    decreases vars.len() - i,
{
    if i < 0 || i >= vars.len() || off > s.len() {
        if off <= s.len() {
            Some((vars, off))
        } else {
            None
        }
    } else if all || bit(mask, i) {
        match parse_value(vars[i], s.subrange(off as int, s.len() as int)) {
            None => None,
            Some((v, k)) => parse_vars(s, vars.update(i, v), mask, all, i + 1, off + k),
        }
    } else {
        parse_vars(s, vars, mask, all, i + 1, off)
    }
}

/// A replicated component of an object.
#[derive(Debug)]
pub struct NetworkBehaviour {
    pub component_index: u8,
    /// Identifies the kind of component, for remote calls.
    pub component_type: u32,
    pub sync_direction: SyncDirection,
    pub sync_mode: SyncMode,
    pub sync_var_dirty_bits: u64,
    pub sync_vars: Vec<SyncValue>,
}

/// What a component writes: every field for the initial state; else its
/// dirty bits, then the dirty fields.
pub open spec fn component_bytes(c: NetworkBehaviour, initial: bool) -> Seq<u8> {
    if initial {
        vars_bytes(c.sync_vars@, 0, true, c.sync_vars@.len() as int)
    } else {
        encode_var_uint(c.sync_var_dirty_bits) + vars_bytes(c.sync_vars@, c.sync_var_dirty_bits, false, c.sync_vars@.len() as int)
    }
}

/// What reading a component's state from the front of `s` gives: its new
/// fields and the number of bytes taken.
pub open spec fn parse_component(c: NetworkBehaviour, s: Seq<u8>, initial: bool) -> Option<(Seq<SyncValue>, nat)> {
    if initial {
        parse_vars(s, c.sync_vars@, 0, true, 0, 0)
    } else {
        match decode_var_uint(s) {
            None => None,
            Some((mask, k)) => parse_vars(s, c.sync_vars@, mask, false, 0, k),
        }
    }
}

pub fn write_value(writer: &mut NetworkWriter, v: SyncValue)
    ensures
        final(writer)@ == old(writer)@ + value_bytes(v),
{
    match v {
        SyncValue::Bool(b) => {
            writer.write_bool(b);
            assert(writer@ =~= old(writer)@ + value_bytes(v));
        },
        SyncValue::Int(i) => writer.write_int(i),
        SyncValue::ULong(u) => writer.write_ulong(u),
    }
}

/// Reads a value of the kind of `kind`.
pub fn read_value(reader: &mut NetworkReader, kind: SyncValue) -> (r: Result<SyncValue, DecodeError>)
    requires
        old(reader).wf(),
    ensures
        final(reader).wf(),
        final(reader).bytes() == old(reader).bytes(),
        match parse_value(kind, old(reader).rest()) {
            None => r is Err,
            Some((v, k)) => r == Ok::<SyncValue, DecodeError>(v) && final(reader).pos() == old(reader).pos() + k,
        },
{
    let ghost rest = old(reader).rest();
    match kind {
        SyncValue::Bool(_) => match reader.read_bool() {
            Ok(b) => Ok(SyncValue::Bool(b)),
            Err(e) => Err(e),
        },
        SyncValue::Int(_) => match reader.read_int() {
            Ok(i) => {
                assert(rest.subrange(0, 4) =~= old(reader).ahead(4));
                assert((i as u32) as i32 == i) by (bit_vector);
                Ok(SyncValue::Int(i))
            },
            Err(e) => Err(e),
        },
        SyncValue::ULong(_) => match reader.read_ulong() {
            Ok(u) => {
                assert(rest.subrange(0, 8) =~= old(reader).ahead(8));
                Ok(SyncValue::ULong(u))
            },
            Err(e) => Err(e),
        },
    }
}

impl NetworkBehaviour {
    pub open spec fn is_dirty_spec(&self) -> bool {
        self.sync_var_dirty_bits != 0
    }

    /// Whether any field changed since the last flush.
    pub fn is_dirty(&self) -> (r: bool)
        ensures
            r == self.is_dirty_spec(),
    {
        self.sync_var_dirty_bits != 0
    }

    /// Sets field `slot` and marks it dirty.
    pub fn set_sync_var(&mut self, slot: u8, value: SyncValue)
        requires
            slot < 64,
            slot < old(self).sync_vars@.len(),
        ensures
            final(self).sync_vars@ == old(self).sync_vars@.update(slot as int, value),
            final(self).sync_var_dirty_bits == old(self).sync_var_dirty_bits | (1u64 << slot),
            final(self).component_index == old(self).component_index,
            final(self).component_type == old(self).component_type,
            final(self).sync_direction == old(self).sync_direction,
            final(self).sync_mode == old(self).sync_mode,
    {
        self.sync_vars.set(slot as usize, value);
        self.sync_var_dirty_bits = self.sync_var_dirty_bits | (1u64 << slot);
    }

    pub fn clear_all_dirty_bits(&mut self)
        ensures
            final(self).sync_var_dirty_bits == 0,
            final(self).sync_vars@ == old(self).sync_vars@,
            final(self).component_index == old(self).component_index,
            final(self).component_type == old(self).component_type,
            final(self).sync_direction == old(self).sync_direction,
            final(self).sync_mode == old(self).sync_mode,
    {
        self.sync_var_dirty_bits = 0;
    }

    /// Writes the component's state: every field when `initial`, else the
    /// dirty bits and the dirty fields.
    pub fn serialize(&self, writer: &mut NetworkWriter, initial: bool)
        ensures
            final(writer)@ == old(writer)@ + component_bytes(*self, initial),
    {
        let mask = self.sync_var_dirty_bits;
        if !initial {
            writer.compress_var_uint(mask);
        }
        let ghost start = writer@;
        let n = self.sync_vars.len();
        let mut i: usize = 0;
        while i < n
            invariant
                i <= n == self.sync_vars@.len(),
                writer@ == start + vars_bytes(self.sync_vars@, if initial { 0 } else { mask }, initial, i as int),
            decreases n - i,
        {
            if initial || (i < 64 && (mask >> (i as u64)) & 1 == 1) {
                write_value(writer, self.sync_vars[i]);
            }
            i = i + 1;
            assert(writer@ =~= start + vars_bytes(self.sync_vars@, if initial { 0 } else { mask }, initial, i as int));
        }
        assert(writer@ =~= old(writer)@ + component_bytes(*self, initial));
    }

    fn read_vars(&mut self, reader: &mut NetworkReader, mask: u64, all: bool) -> (r: Result<(), DecodeError>)
        requires
            old(reader).wf(),
        ensures
            final(reader).wf(),
            final(reader).bytes() == old(reader).bytes(),
            final(self).sync_var_dirty_bits == old(self).sync_var_dirty_bits,
            final(self).component_index == old(self).component_index,
            final(self).component_type == old(self).component_type,
            final(self).sync_direction == old(self).sync_direction,
            final(self).sync_mode == old(self).sync_mode,
            match parse_vars(old(reader).rest(), old(self).sync_vars@, mask, all, 0, 0) {
                None => r is Err,
                Some((vars, k)) => r is Ok && final(self).sync_vars@ == vars && final(reader).pos() == old(reader).pos() + k,
            },
    {
        let ghost s = old(reader).rest();
        let n = self.sync_vars.len();
        let mut i: usize = 0;
        while i < n
            invariant
                i <= n == self.sync_vars@.len(),
                reader.wf(),
                old(reader).wf(),
                reader.bytes() == old(reader).bytes(),
                old(reader).pos() <= reader.pos(),
                s == old(reader).rest(),
                reader.rest() == s.subrange(reader.pos() - old(reader).pos(), s.len() as int),
                parse_vars(s, old(self).sync_vars@, mask, all, 0, 0)
                    == parse_vars(s, self.sync_vars@, mask, all, i as int, (reader.pos() - old(reader).pos()) as nat),
                self.sync_var_dirty_bits == old(self).sync_var_dirty_bits,
                self.component_index == old(self).component_index,
                self.component_type == old(self).component_type,
                self.sync_direction == old(self).sync_direction,
                self.sync_mode == old(self).sync_mode,
            decreases n - i,
        {
            if all || (i < 64 && (mask >> (i as u64)) & 1 == 1) {
                match read_value(reader, self.sync_vars[i]) {
                    Ok(v) => {
                        proof { lemma_rest_advance(old(reader), reader); }
                        self.sync_vars.set(i, v);
                    },
                    Err(e) => return Err(e),
                }
            }
            i = i + 1;
        }
        Ok(())
    }

    /// Reads the component's state as `serialize` wrote it, into the
    /// fields, each read as the kind that the field holds now.
    pub fn deserialize(&mut self, reader: &mut NetworkReader, initial: bool) -> (r: Result<(), DecodeError>)
        requires
            old(reader).wf(),
        ensures
            final(reader).wf(),
            final(reader).bytes() == old(reader).bytes(),
            final(self).sync_var_dirty_bits == old(self).sync_var_dirty_bits,
            final(self).component_index == old(self).component_index,
            final(self).component_type == old(self).component_type,
            final(self).sync_direction == old(self).sync_direction,
            final(self).sync_mode == old(self).sync_mode,
            match parse_component(*old(self), old(reader).rest(), initial) {
                None => r is Err,
                Some((vars, k)) => r is Ok && final(self).sync_vars@ == vars && final(reader).pos() == old(reader).pos() + k,
            },
    {
        if initial {
            return self.read_vars(reader, 0, true);
        }
        let mask = match reader.decompress_var_uint() {
            Ok(m) => m,
            Err(e) => return Err(e),
        };
        proof { lemma_rest_advance(old(reader), reader); }
        let ghost r1 = *reader;
        let res = self.read_vars(reader, mask, false);
        proof {
            lemma_parse_vars_shift(old(reader).rest(), (r1.pos() - old(reader).pos()) as nat, old(self).sync_vars@, mask, false, 0);
        }
        res
    }
}

/// Parsing from an offset is parsing the suffix from there, with the offset
/// added to where it ends.
pub proof fn lemma_parse_vars_shift(s: Seq<u8>, k: nat, vars: Seq<SyncValue>, mask: u64, all: bool, i: int)
    requires
        k <= s.len(),
    ensures
        parse_vars(s, vars, mask, all, i, k) == match parse_vars(s.subrange(k as int, s.len() as int), vars, mask, all, i, 0) {
            None => None,
            Some((v, j)) => Some((v, k + j)),
        },
    decreases vars.len() - i,
{
    let t = s.subrange(k as int, s.len() as int);
    if i < 0 || i >= vars.len() {
    } else if all || bit(mask, i) {
        assert(t.subrange(0, t.len() as int) =~= s.subrange(k as int, s.len() as int));
        match parse_value(vars[i], s.subrange(k as int, s.len() as int)) {
            None => {},
            Some((v, j)) => {
                lemma_parse_vars_shift(s, k + j, vars.update(i, v), mask, all, i + 1);
                lemma_parse_vars_shift(t, j, vars.update(i, v), mask, all, i + 1);
                assert(t.subrange(j as int, t.len() as int) =~= s.subrange((k + j) as int, s.len() as int));
            },
        }
    } else {
        lemma_parse_vars_shift(s, k, vars, mask, all, i + 1);
    }
}

/// Two values of the same kind.
pub open spec fn same_kind(a: SyncValue, b: SyncValue) -> bool {
    match (a, b) {
        (SyncValue::Bool(_), SyncValue::Bool(_)) => true,
        (SyncValue::Int(_), SyncValue::Int(_)) => true,
        (SyncValue::ULong(_), SyncValue::ULong(_)) => true,
        _ => false,
    }
}

/// Two field lists with the same kinds in the same places.
pub open spec fn same_kinds(a: Seq<SyncValue>, b: Seq<SyncValue>) -> bool {
    a.len() == b.len() && forall|j: int| 0 <= j < a.len() ==> #[trigger] same_kind(a[j], b[j])
}

/// The fields written from `i` on, in order.
pub open spec fn vars_bytes_from(vars: Seq<SyncValue>, mask: u64, all: bool, i: int) -> Seq<u8>
    decreases vars.len() - i,
{
    if i < 0 || i >= vars.len() {
        Seq::empty()
    } else {
        (if all || bit(mask, i) {
            value_bytes(vars[i])
        } else {
            Seq::empty()
        }) + vars_bytes_from(vars, mask, all, i + 1)
    }
}

/// `cur` with the fields from `i` on that are written replaced by those of `vars`.
pub open spec fn merged(cur: Seq<SyncValue>, vars: Seq<SyncValue>, mask: u64, all: bool, i: int) -> Seq<SyncValue> {
    Seq::new(cur.len(), |j: int| if j >= i && (all || bit(mask, j)) { vars[j] } else { cur[j] })
}

pub proof fn lemma_value_round_trip(kind: SyncValue, v: SyncValue, rest: Seq<u8>)
    requires
        same_kind(kind, v),
    ensures
        parse_value(kind, value_bytes(v) + rest) == Some((v, value_bytes(v).len())),
{
    lemma_pow256_values();
    let s = value_bytes(v) + rest;
    match v {
        SyncValue::Bool(b) => {},
        SyncValue::Int(i) => {
            lemma_le_round_trip(i as u32 as nat, 4);
            assert(s.subrange(0, 4) =~= value_bytes(v));
            assert((i as u32) as i32 == i) by (bit_vector);
        },
        SyncValue::ULong(u) => {
            lemma_le_round_trip(u as nat, 8);
            assert(s.subrange(0, 8) =~= value_bytes(v));
        },
    }
}

/// The prefix form and the forward form of the written fields agree.
pub proof fn lemma_vars_bytes_forward(vars: Seq<SyncValue>, mask: u64, all: bool, n: int)
    requires
        0 <= n <= vars.len(),
    ensures
        vars_bytes(vars, mask, all, n) + vars_bytes_from(vars, mask, all, n) == vars_bytes_from(vars, mask, all, 0),
    decreases n,
{
    if n > 0 {
        lemma_vars_bytes_forward(vars, mask, all, n - 1);
        assert(vars_bytes(vars, mask, all, n) + vars_bytes_from(vars, mask, all, n)
            =~= vars_bytes(vars, mask, all, n - 1) + vars_bytes_from(vars, mask, all, n - 1));
    } else {
        assert(vars_bytes(vars, mask, all, 0) + vars_bytes_from(vars, mask, all, 0) =~= vars_bytes_from(vars, mask, all, 0));
    }
}

/// Reading written fields into fields of the same kinds gives the written
/// values in the written places and keeps the others.
pub proof fn lemma_parse_vars_round_trip(
    s: Seq<u8>,
    cur: Seq<SyncValue>,
    vars: Seq<SyncValue>,
    mask: u64,
    all: bool,
    i: int,
    off: nat,
    rest: Seq<u8>,
)
    requires
        same_kinds(cur, vars),
        0 <= i <= vars.len(),
        off <= s.len(),
        s.subrange(off as int, s.len() as int) == vars_bytes_from(vars, mask, all, i) + rest,
    ensures
        parse_vars(s, cur, mask, all, i, off) == Some((merged(cur, vars, mask, all, i), off + vars_bytes_from(vars, mask, all, i).len())),
    decreases vars.len() - i,
{
    let t = s.subrange(off as int, s.len() as int);
    if i == vars.len() {
        assert(merged(cur, vars, mask, all, i) =~= cur);
    } else if all || bit(mask, i) {
        let vb = value_bytes(vars[i]);
        let tail = vars_bytes_from(vars, mask, all, i + 1) + rest;
        assert(t =~= vb + tail);
        assert(same_kind(cur[i], vars[i]));
        lemma_value_round_trip(cur[i], vars[i], tail);
        let cur2 = cur.update(i, vars[i]);
        assert(same_kinds(cur2, vars)) by {
            assert forall|j: int| 0 <= j < cur2.len() implies #[trigger] same_kind(cur2[j], vars[j]) by {
                if j != i {
                    assert(same_kind(cur[j], vars[j]));
                }
            }
        }
        let off2 = off + vb.len();
        assert(t.len() == vb.len() + tail.len());
        assert forall|j: int| 0 <= j < tail.len() implies #[trigger] s.subrange(off2 as int, s.len() as int)[j] == tail[j] by {
            assert(s.subrange(off2 as int, s.len() as int)[j] == t[vb.len() + j]);
            assert((vb + tail)[vb.len() + j] == tail[j]);
        }
        assert(s.subrange(off2 as int, s.len() as int) =~= tail);
        lemma_parse_vars_round_trip(s, cur2, vars, mask, all, i + 1, off2, rest);
        assert(merged(cur2, vars, mask, all, i + 1) =~= merged(cur, vars, mask, all, i));
    } else {
        assert(t =~= vars_bytes_from(vars, mask, all, i + 1) + rest);
        lemma_parse_vars_round_trip(s, cur, vars, mask, all, i + 1, off, rest);
        assert(merged(cur, vars, mask, all, i + 1) =~= merged(cur, vars, mask, all, i));
    }
}

/// What one component reads back from what another wrote, both holding
/// fields of the same kinds: the writer's values for the fields it wrote.
pub proof fn lemma_component_round_trip(receiver: NetworkBehaviour, sender: NetworkBehaviour, initial: bool, rest: Seq<u8>)
    requires
        same_kinds(receiver.sync_vars@, sender.sync_vars@),
    ensures
        parse_component(receiver, component_bytes(sender, initial) + rest, initial) == Some((
            merged(receiver.sync_vars@, sender.sync_vars@, if initial { 0 } else { sender.sync_var_dirty_bits }, initial, 0),
            component_bytes(sender, initial).len(),
        )),
{
    let vars = sender.sync_vars@;
    let n = vars.len() as int;
    let mask: u64 = if initial { 0 } else { sender.sync_var_dirty_bits };
    lemma_vars_bytes_forward(vars, mask, initial, n);
    assert(vars_bytes_from(vars, mask, initial, n) =~= Seq::<u8>::empty());
    assert(vars_bytes(vars, mask, initial, n) =~= vars_bytes_from(vars, mask, initial, 0));
    let s = component_bytes(sender, initial) + rest;
    if initial {
        assert(s.subrange(0, s.len() as int) =~= vars_bytes_from(vars, mask, initial, 0) + rest);
        lemma_parse_vars_round_trip(s, receiver.sync_vars@, vars, mask, initial, 0, 0, rest);
    } else {
        let e = encode_var_uint(mask);
        lemma_var_uint_round_trip(mask, vars_bytes_from(vars, mask, initial, 0) + rest);
        assert(s =~= e + (vars_bytes_from(vars, mask, initial, 0) + rest));
        assert(s.subrange(e.len() as int, s.len() as int) =~= vars_bytes_from(vars, mask, initial, 0) + rest);
        lemma_parse_vars_round_trip(s, receiver.sync_vars@, vars, mask, initial, 0, e.len(), rest);
    }
}

} // verus!
