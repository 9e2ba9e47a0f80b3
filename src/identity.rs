//! Replicated objects: their components, owner and observers, and the
//! dirty-bit serialization of their state for the owner and the observers.
use crate::behaviour::{
    bit, component_bytes, lemma_bit_or, lemma_bit_zero, lemma_component_round_trip, merged, parse_component, same_kinds,
    NetworkBehaviour, SyncDirection, SyncMode, SyncValue,
};
use crate::reader::{lemma_rest_advance, NetworkReader};
use crate::varint::{decode_var_uint, lemma_var_uint_round_trip, var_uint_len};
use crate::varint::encode_var_uint;
use crate::writer::NetworkWriter;
use vstd::prelude::*;

verus! {

/// An object holds at most this many components, one bit of a mask each.
pub const MAX_COMPONENTS: usize = 64;

#[derive(Debug, Clone, Copy, PartialEq, Eq, Structural)]
pub enum Visibility {
    Default,
    ForceHidden,
    ForceShown,
}

#[derive(Debug, Clone, Copy, PartialEq, Eq, Structural)]
pub enum OwnedType {
    Client,
    Server,
}

/// Whether a component's state goes to the owner: always for the initial
/// state, else when it is dirty and the server is authoritative for it.
pub open spec fn owner_selected(c: NetworkBehaviour, initial: bool) -> bool {
    initial || (c.sync_direction == SyncDirection::ServerToClient && c.sync_var_dirty_bits != 0)
}

/// Whether a component's state goes to the observers: when it is dirty (or
/// initial) and its mode includes observers.
pub open spec fn observer_selected(c: NetworkBehaviour, initial: bool) -> bool {
    c.sync_mode == SyncMode::Observers && (initial || c.sync_var_dirty_bits != 0)
}

pub open spec fn selected(c: NetworkBehaviour, initial: bool, owner: bool) -> bool {
    if owner {
        owner_selected(c, initial)
    } else {
        observer_selected(c, initial)
    }
}

/// The mask of the components below `n` that are selected.
pub open spec fn mask_spec(comps: Seq<NetworkBehaviour>, initial: bool, owner: bool, n: int) -> u64
    decreases n,
{
    if n <= 0 {
        0
    } else if selected(comps[n - 1], initial, owner) {
        mask_spec(comps, initial, owner, n - 1) | (1u64 << ((n - 1) as u64))
    } else {
        mask_spec(comps, initial, owner, n - 1)
    }
}

/// The states of the components below `n` whose bit is set in `mask`.
pub open spec fn payload_spec(comps: Seq<NetworkBehaviour>, initial: bool, mask: u64, n: int) -> Seq<u8>
    decreases n,
{
    if n <= 0 {
        Seq::empty()
    } else {
        payload_spec(comps, initial, mask, n - 1) + if bit(mask, n - 1) {
            component_bytes(comps[n - 1], initial)
        } else {
            Seq::empty()
        }
    }
}

/// One stream of an object's state: nothing when no component is selected,
/// else the mask, then the selected components' states in index order.
pub open spec fn stream_spec(comps: Seq<NetworkBehaviour>, initial: bool, owner: bool) -> Seq<u8> {
    let m = mask_spec(comps, initial, owner, comps.len() as int);
    if m == 0 {
        Seq::empty()
    } else {
        encode_var_uint(m) + payload_spec(comps, initial, m, comps.len() as int)
    }
}

/// Bit `i` of the mask is set exactly for the selected components.
pub proof fn lemma_mask_bits(comps: Seq<NetworkBehaviour>, initial: bool, owner: bool, n: int)
    requires
        0 <= n <= 64,
        n <= comps.len(),
    ensures
        forall|i: int| 0 <= i < 64 ==> (#[trigger] bit(mask_spec(comps, initial, owner, n), i)
            <==> (i < n && selected(comps[i], initial, owner))),
    decreases n,
{
    if n == 0 {
        assert forall|i: int| 0 <= i < 64 implies !#[trigger] bit(mask_spec(comps, initial, owner, n), i) by {
            lemma_bit_zero(i as u64);
        }
    } else {
        lemma_mask_bits(comps, initial, owner, n - 1);
        let prev = mask_spec(comps, initial, owner, n - 1);
        assert forall|i: int| 0 <= i < 64 implies (#[trigger] bit(mask_spec(comps, initial, owner, n), i)
            <==> (i < n && selected(comps[i], initial, owner))) by {
            if selected(comps[n - 1], initial, owner) {
                lemma_bit_or(prev, (n - 1) as u64, i as u64);
            }
            assert(bit(prev, i) <==> (i < n - 1 && selected(comps[i], initial, owner)));
        }
    }
}

/// With no bit set, no component's state is written.
pub proof fn lemma_payload_zero(comps: Seq<NetworkBehaviour>, initial: bool, n: int)
    ensures
        payload_spec(comps, initial, 0, n) == Seq::<u8>::empty(),
    decreases n,
{
    if n > 0 {
        lemma_payload_zero(comps, initial, n - 1);
        if 0 <= n - 1 < 64 {
            lemma_bit_zero((n - 1) as u64);
        }
        assert(payload_spec(comps, initial, 0, n) =~= Seq::<u8>::empty());
    }
}

/// Why an object's state could not be read.
#[derive(Debug, Clone, Copy, PartialEq, Eq, Structural)]
pub enum ReplicationError {
    /// The data ends before the state does.
    EndOfData,
    /// A client sent state for a component that the server is authoritative for.
    DirectionMismatch,
}

/// Whether the sender may be authoritative for a component: the server
/// always, a client only for client-to-server components.
pub open spec fn permitted(c: NetworkBehaviour, from_server: bool) -> bool {
    from_server || c.sync_direction == SyncDirection::ClientToServer
}

pub open spec fn vars_of(comps: Seq<NetworkBehaviour>) -> Seq<Seq<SyncValue>> {
    Seq::new(comps.len(), |i: int| comps[i].sync_vars@)
}

/// Reads the states of the components from `i` on whose bit is set in
/// `mask`, starting at offset `off` of `s`: each component's fields after
/// reading and the offset reached.
pub open spec fn parse_components(
    s: Seq<u8>,
    comps: Seq<NetworkBehaviour>,
    vars: Seq<Seq<SyncValue>>,
    mask: u64,
    initial: bool,
    from_server: bool,
    i: int,
    off: nat,
) -> Result<(Seq<Seq<SyncValue>>, nat), ReplicationError>
    decreases comps.len() - i,
{
    if off > s.len() {
        Err(ReplicationError::EndOfData)
    } else if i < 0 || i >= comps.len() {
        Ok((vars, off))
    } else if bit(mask, i) {
        if !permitted(comps[i], from_server) {
            Err(ReplicationError::DirectionMismatch)
        } else {
            match parse_component(comps[i], s.subrange(off as int, s.len() as int), initial) {
                None => Err(ReplicationError::EndOfData),
                Some((v, k)) => parse_components(s, comps, vars.update(i, v), mask, initial, from_server, i + 1, off + k),
            }
        }
    } else {
        parse_components(s, comps, vars, mask, initial, from_server, i + 1, off)
    }
}

/// The states of the components from `i` on whose bit is set, in order.
pub open spec fn payload_from(comps: Seq<NetworkBehaviour>, initial: bool, mask: u64, i: int) -> Seq<u8>
    decreases comps.len() - i,
{
    if i < 0 || i >= comps.len() {
        Seq::empty()
    } else {
        (if bit(mask, i) {
            component_bytes(comps[i], initial)
        } else {
            Seq::empty()
        }) + payload_from(comps, initial, mask, i + 1)
    }
}

pub proof fn lemma_payload_forward(comps: Seq<NetworkBehaviour>, initial: bool, mask: u64, n: int)
    requires
        0 <= n <= comps.len(),
    ensures
        payload_spec(comps, initial, mask, n) + payload_from(comps, initial, mask, n) == payload_from(comps, initial, mask, 0),
    decreases n,
{
    if n > 0 {
        lemma_payload_forward(comps, initial, mask, n - 1);
        assert(payload_spec(comps, initial, mask, n) + payload_from(comps, initial, mask, n)
            =~= payload_spec(comps, initial, mask, n - 1) + payload_from(comps, initial, mask, n - 1));
    } else {
        assert(payload_spec(comps, initial, mask, 0) + payload_from(comps, initial, mask, 0) =~= payload_from(comps, initial, mask, 0));
    }
}

/// The dirty bits a component writes with its state.
pub open spec fn written_mask(c: NetworkBehaviour, initial: bool) -> u64 {
    if initial {
        0
    } else {
        c.sync_var_dirty_bits
    }
}

/// The receiver's fields after reading the sender's states from component `i` on.
pub open spec fn merged_components(
    acc: Seq<Seq<SyncValue>>,
    receiver: Seq<NetworkBehaviour>,
    sender: Seq<NetworkBehaviour>,
    mask: u64,
    initial: bool,
    i: int,
) -> Seq<Seq<SyncValue>> {
    Seq::new(acc.len(), |j: int| if j >= i && bit(mask, j) {
        merged(receiver[j].sync_vars@, sender[j].sync_vars@, written_mask(sender[j], initial), initial, 0)
    } else {
        acc[j]
    })
}

/// Two objects whose components hold fields of the same kinds.
pub open spec fn same_shape(a: Seq<NetworkBehaviour>, b: Seq<NetworkBehaviour>) -> bool {
    a.len() == b.len() && forall|j: int| 0 <= j < a.len() ==> #[trigger] same_kinds(a[j].sync_vars@, b[j].sync_vars@)
}

pub proof fn lemma_parse_components_round_trip(
    s: Seq<u8>,
    receiver: Seq<NetworkBehaviour>,
    acc: Seq<Seq<SyncValue>>,
    sender: Seq<NetworkBehaviour>,
    mask: u64,
    initial: bool,
    i: int,
    off: nat,
    rest: Seq<u8>,
)
    requires
        same_shape(receiver, sender),
        acc.len() == receiver.len(),
        0 <= i <= sender.len(),
        off <= s.len(),
        s.subrange(off as int, s.len() as int) == payload_from(sender, initial, mask, i) + rest,
    ensures
        parse_components(s, receiver, acc, mask, initial, true, i, off) == Ok::<(Seq<Seq<SyncValue>>, nat), ReplicationError>((
            merged_components(acc, receiver, sender, mask, initial, i),
            off + payload_from(sender, initial, mask, i).len(),
        )),
    decreases sender.len() - i,
{
    let t = s.subrange(off as int, s.len() as int);
    if i == sender.len() {
        assert(merged_components(acc, receiver, sender, mask, initial, i) =~= acc);
    } else if bit(mask, i) {
        let cb = component_bytes(sender[i], initial);
        let tail = payload_from(sender, initial, mask, i + 1) + rest;
        assert(t =~= cb + tail);
        assert(same_kinds(receiver[i].sync_vars@, sender[i].sync_vars@));
        lemma_component_round_trip(receiver[i], sender[i], initial, tail);
        let v = merged(receiver[i].sync_vars@, sender[i].sync_vars@, written_mask(sender[i], initial), initial, 0);
        let off2 = off + cb.len();
        assert(t.len() == cb.len() + tail.len());
        assert forall|j: int| 0 <= j < tail.len() implies #[trigger] s.subrange(off2 as int, s.len() as int)[j] == tail[j] by {
            assert(s.subrange(off2 as int, s.len() as int)[j] == t[cb.len() + j]);
            assert((cb + tail)[cb.len() + j] == tail[j]);
        }
        assert(s.subrange(off2 as int, s.len() as int) =~= tail);
        lemma_parse_components_round_trip(s, receiver, acc.update(i, v), sender, mask, initial, i + 1, off2, rest);
        assert(merged_components(acc.update(i, v), receiver, sender, mask, initial, i + 1)
            =~= merged_components(acc, receiver, sender, mask, initial, i));
    } else {
        assert(t =~= payload_from(sender, initial, mask, i + 1) + rest);
        lemma_parse_components_round_trip(s, receiver, acc, sender, mask, initial, i + 1, off, rest);
        assert(merged_components(acc, receiver, sender, mask, initial, i + 1)
            =~= merged_components(acc, receiver, sender, mask, initial, i));
    }
}

/// Reading back one stream of a serialization into a replica whose
/// components hold fields of the same kinds: the mask read is the one
/// written, its bits are exactly the components selected for that stream,
/// the whole stream is read, and exactly the selected components change,
/// each taking the values of the fields the sender wrote.
pub proof fn lemma_stream_round_trip(
    sender: Seq<NetworkBehaviour>,
    initial: bool,
    owner: bool,
    receiver: Seq<NetworkBehaviour>,
    rest: Seq<u8>,
)
    requires
        sender.len() <= 64,
        same_shape(receiver, sender),
        stream_spec(sender, initial, owner).len() > 0,
    ensures
        ({
            let m = mask_spec(sender, initial, owner, sender.len() as int);
            let s = stream_spec(sender, initial, owner) + rest;
            &&& decode_var_uint(s) == Some((m, var_uint_len(m)))
            &&& forall|i: int| 0 <= i < 64 ==> (#[trigger] bit(m, i) <==> (i < sender.len() && selected(sender[i], initial, owner)))
            &&& parse_components(s, receiver, vars_of(receiver), m, initial, true, 0, var_uint_len(m))
                == Ok::<(Seq<Seq<SyncValue>>, nat), ReplicationError>((
                    Seq::new(receiver.len(), |j: int| if selected(sender[j], initial, owner) {
                        merged(receiver[j].sync_vars@, sender[j].sync_vars@, written_mask(sender[j], initial), initial, 0)
                    } else {
                        receiver[j].sync_vars@
                    }),
                    stream_spec(sender, initial, owner).len(),
                ))
        }),
{
    let m = mask_spec(sender, initial, owner, sender.len() as int);
    let n = sender.len() as int;
    let body = payload_spec(sender, initial, m, n);
    lemma_mask_bits(sender, initial, owner, n);
    lemma_payload_forward(sender, initial, m, n);
    assert(payload_from(sender, initial, m, n) =~= Seq::<u8>::empty());
    assert(body =~= payload_from(sender, initial, m, 0));
    lemma_var_uint_round_trip(m, body + rest);
    let s = stream_spec(sender, initial, owner) + rest;
    let e = encode_var_uint(m);
    assert(s =~= e + (body + rest));
    assert(s.subrange(e.len() as int, s.len() as int) =~= body + rest);
    lemma_parse_components_round_trip(s, receiver, vars_of(receiver), sender, m, initial, 0, e.len(), rest);
    let expected = Seq::new(receiver.len(), |j: int| if selected(sender[j], initial, owner) {
        merged(receiver[j].sync_vars@, sender[j].sync_vars@, written_mask(sender[j], initial), initial, 0)
    } else {
        receiver[j].sync_vars@
    });
    assert(merged_components(vars_of(receiver), receiver, sender, m, initial, 0) =~= expected) by {
        assert forall|j: int| 0 <= j < receiver.len() implies merged_components(vars_of(receiver), receiver, sender, m, initial, 0)[j] == expected[j] by {
            assert(bit(m, j) <==> (j < sender.len() && selected(sender[j], initial, owner)));
        }
    }
}

/// The last serialization of an object, reused by every connection in one tick.
#[derive(Debug)]
pub struct NetworkIdentitySerialization {
    pub tick: u32,
    pub owner_writer: NetworkWriter,
    pub observers_writer: NetworkWriter,
}

impl NetworkIdentitySerialization {
    pub fn new(tick: u32) -> (r: NetworkIdentitySerialization)
        ensures
            r.tick == tick,
            r.owner_writer@ == Seq::<u8>::empty(),
            r.observers_writer@ == Seq::<u8>::empty(),
    {
        NetworkIdentitySerialization { tick, owner_writer: NetworkWriter::new(), observers_writer: NetworkWriter::new() }
    }

    pub fn reset_writers(&mut self)
        ensures
            final(self).tick == old(self).tick,
            final(self).owner_writer@ == Seq::<u8>::empty(),
            final(self).observers_writer@ == Seq::<u8>::empty(),
    {
        self.owner_writer.reset();
        self.observers_writer.reset();
    }
}

/// A replicated object.
#[derive(Debug)]
pub struct NetworkIdentity {
    pub net_id: u32,
    pub scene_id: u64,
    pub asset_id: u32,
    /// The owning connection; `0` for none.
    pub conn_to_client: u64,
    pub observers: Vec<u64>,
    pub components: Vec<NetworkBehaviour>,
    pub visibility: Visibility,
    pub owned_type: OwnedType,
    pub is_owned: bool,
    pub has_spawned: bool,
    pub last_serialization: NetworkIdentitySerialization,
}

impl NetworkIdentity {
    pub open spec fn wf(&self) -> bool {
        self.components@.len() <= MAX_COMPONENTS
    }

    /// The mask of the components selected for one stream.
    fn dirty_mask(&self, initial: bool, owner: bool) -> (m: u64)
        requires
            self.wf(),
        ensures
            m == mask_spec(self.components@, initial, owner, self.components@.len() as int),
    {
        let n = self.components.len();
        let mut m: u64 = 0;
        let mut i: usize = 0;
        while i < n
            invariant
                i <= n == self.components@.len() <= 64,
                m == mask_spec(self.components@, initial, owner, i as int),
            decreases n - i,
        {
            let c = &self.components[i];
            let dirty = c.sync_var_dirty_bits != 0;
            let sel = if owner {
                initial || (c.sync_direction == SyncDirection::ServerToClient && dirty)
            } else {
                c.sync_mode == SyncMode::Observers && (initial || dirty)
            };
            if sel {
                m = m | (1u64 << (i as u64));
            }
            i = i + 1;
        }
        m
    }

    /// Writes the object's state for its owner and for its observers. After
    /// a non-initial serialization every component's dirty bits are clear.
    pub fn serialize_server(&mut self, initial: bool, owner_writer: &mut NetworkWriter, observers_writer: &mut NetworkWriter)
        requires
            old(self).wf(),
        ensures
            final(self).wf(),
            final(owner_writer)@ == old(owner_writer)@ + stream_spec(old(self).components@, initial, true),
            final(observers_writer)@ == old(observers_writer)@ + stream_spec(old(self).components@, initial, false),
            final(self).components@.len() == old(self).components@.len(),
            forall|i: int| 0 <= i < final(self).components@.len() ==> {
                let (a, b) = (#[trigger] final(self).components@[i], old(self).components@[i]);
                &&& a.sync_vars@ == b.sync_vars@
                &&& a.component_index == b.component_index
                &&& a.component_type == b.component_type
                &&& a.sync_direction == b.sync_direction
                &&& a.sync_mode == b.sync_mode
                &&& a.sync_var_dirty_bits == if initial { b.sync_var_dirty_bits } else { 0 }
            },
            final(self).net_id == old(self).net_id,
            final(self).conn_to_client == old(self).conn_to_client,
            final(self).observers@ == old(self).observers@,
    {
        let owner_mask = self.dirty_mask(initial, true);
        let observers_mask = self.dirty_mask(initial, false);
        if owner_mask != 0 {
            owner_writer.compress_var_uint(owner_mask);
        }
        if observers_mask != 0 {
            observers_writer.compress_var_uint(observers_mask);
        }
        proof {
            lemma_payload_zero(self.components@, initial, self.components@.len() as int);
        }
        let ghost o0 = owner_writer@;
        let ghost b0 = observers_writer@;
        let n = self.components.len();
        let mut i: usize = 0;
        while i < n
            invariant
                i <= n == self.components@.len() <= 64,
                self.components@ == old(self).components@,
                owner_writer@ == o0 + payload_spec(self.components@, initial, owner_mask, i as int),
                observers_writer@ == b0 + payload_spec(self.components@, initial, observers_mask, i as int),
            decreases n - i,
        {
            let owner_dirty = (owner_mask >> (i as u64)) & 1 == 1;
            let observers_dirty = (observers_mask >> (i as u64)) & 1 == 1;
            if owner_dirty || observers_dirty {
                let mut temp = NetworkWriter::new();
                self.components[i].serialize(&mut temp, initial);
                let segment = temp.to_bytes();
                if owner_dirty {
                    owner_writer.write_bytes(segment.as_slice());
                }
                if observers_dirty {
                    observers_writer.write_bytes(segment.as_slice());
                }
            }
            i = i + 1;
            assert(owner_writer@ =~= o0 + payload_spec(self.components@, initial, owner_mask, i as int));
            assert(observers_writer@ =~= b0 + payload_spec(self.components@, initial, observers_mask, i as int));
        }
        if !initial {
            let mut j: usize = 0;
            while j < n
                invariant
                    j <= n == self.components@.len() <= 64,
                    forall|k: int| 0 <= k < n ==> {
                        let (a, b) = (#[trigger] self.components@[k], old(self).components@[k]);
                        &&& a.sync_vars@ == b.sync_vars@
                        &&& a.component_index == b.component_index
                        &&& a.component_type == b.component_type
                        &&& a.sync_direction == b.sync_direction
                        &&& a.sync_mode == b.sync_mode
                        &&& a.sync_var_dirty_bits == if k < j { 0 } else { b.sync_var_dirty_bits }
                    },
                    self.net_id == old(self).net_id,
                    self.conn_to_client == old(self).conn_to_client,
                    self.observers@ == old(self).observers@,
                decreases n - j,
            {
                let mut c = self.components.remove(j);
                c.clear_all_dirty_bits();
                self.components.insert(j, c);
                j = j + 1;
            }
        }
    }

    /// Reads an object's state as `serialize_server` wrote it: the mask,
    /// then the state of each component whose bit is set, which must be one
    /// that the sender may be authoritative for. Returns the mask.
    pub fn deserialize(&mut self, reader: &mut NetworkReader, initial: bool, from_server: bool) -> (r: Result<u64, ReplicationError>)
        requires
            old(self).wf(),
            old(reader).wf(),
        ensures
            final(self).wf(),
            final(reader).wf(),
            final(reader).bytes() == old(reader).bytes(),
            final(self).components@.len() == old(self).components@.len(),
            forall|i: int| 0 <= i < final(self).components@.len() ==> {
                let (a, b) = (#[trigger] final(self).components@[i], old(self).components@[i]);
                &&& a.component_index == b.component_index
                &&& a.component_type == b.component_type
                &&& a.sync_direction == b.sync_direction
                &&& a.sync_mode == b.sync_mode
                &&& a.sync_var_dirty_bits == b.sync_var_dirty_bits
            },
            match decode_var_uint(old(reader).rest()) {
                None => r == Err::<u64, ReplicationError>(ReplicationError::EndOfData),
                Some((mask, k)) => match parse_components(old(reader).rest(), old(self).components@, vars_of(old(self).components@), mask, initial, from_server, 0, k) {
                    Err(e) => r == Err::<u64, ReplicationError>(e),
                    Ok((vars, j)) => {
                        &&& r == Ok::<u64, ReplicationError>(mask)
                        &&& final(reader).pos() == old(reader).pos() + j
                        &&& forall|i: int| 0 <= i < final(self).components@.len() ==> (#[trigger] final(self).components@[i]).sync_vars@ == vars[i]
                    },
                },
            },
    {
        let ghost s = old(reader).rest();
        let mask = match reader.decompress_var_uint() {
            Ok(m) => m,
            Err(_) => return Err(ReplicationError::EndOfData),
        };
        proof { lemma_rest_advance(old(reader), reader); }
        let n = self.components.len();
        let mut i: usize = 0;
        while i < n
            invariant
                i <= n == self.components@.len() <= 64,
                n == old(self).components@.len(),
                reader.wf(),
                old(reader).wf(),
                reader.bytes() == old(reader).bytes(),
                old(reader).pos() <= reader.pos(),
                s == old(reader).rest(),
                reader.rest() == s.subrange(reader.pos() - old(reader).pos(), s.len() as int),
                decode_var_uint(s) matches Some((m, k)) && m == mask
                    && parse_components(s, old(self).components@, vars_of(old(self).components@), mask, initial, from_server, 0, k)
                    == parse_components(s, old(self).components@, vars_of(self.components@), mask, initial, from_server, i as int, (reader.pos() - old(reader).pos()) as nat),
                forall|j: int| 0 <= j < n ==> {
                    let (a, b) = (#[trigger] self.components@[j], old(self).components@[j]);
                    &&& a.component_index == b.component_index
                    &&& a.component_type == b.component_type
                    &&& a.sync_direction == b.sync_direction
                    &&& a.sync_mode == b.sync_mode
                    &&& a.sync_var_dirty_bits == b.sync_var_dirty_bits
                    &&& j >= i ==> a.sync_vars@ == b.sync_vars@
                },
            decreases n - i,
        {
            if (mask >> (i as u64)) & 1 == 1 {
                if !from_server && self.components[i].sync_direction != SyncDirection::ClientToServer {
                    return Err(ReplicationError::DirectionMismatch);
                }
                let ghost before = self.components@;
                let mut c = self.components.remove(i);
                let res = c.deserialize(reader, initial);
                self.components.insert(i, c);
                match res {
                    Ok(()) => {
                        proof {
                            lemma_rest_advance(old(reader), reader);
                            assert(vars_of(self.components@) =~= vars_of(before).update(i as int, self.components@[i as int].sync_vars@));
                        }
                    },
                    Err(_) => return Err(ReplicationError::EndOfData),
                }
            }
            i = i + 1;
        }
        proof {
            assert forall|j: int| 0 <= j < n implies (#[trigger] self.components@[j]).sync_vars@ == vars_of(self.components@)[j] by {}
        }
        Ok(mask)
    }

    fn with_components(scene_id: u64, asset_id: u32, components: Vec<NetworkBehaviour>) -> (r: Result<NetworkIdentity, SpawnError>)
        ensures
            r is Ok <==> components@.len() <= MAX_COMPONENTS,
            r matches Ok(id) ==> id.wf() && id.scene_id == scene_id && id.asset_id == asset_id && id.net_id == 0
                && id.conn_to_client == 0 && id.observers@.len() == 0 && id.components@ == components@ && id.has_spawned,
    {
        if components.len() > MAX_COMPONENTS {
            return Err(SpawnError::TooManyComponents);
        }
        Ok(NetworkIdentity {
            net_id: 0,
            scene_id,
            asset_id,
            conn_to_client: 0,
            observers: Vec::new(),
            components,
            visibility: Visibility::Default,
            owned_type: OwnedType::Client,
            is_owned: false,
            has_spawned: true,
            last_serialization: NetworkIdentitySerialization::new(0),
        })
    }

    /// An object spawned from a prefab; more than `MAX_COMPONENTS` components
    /// is a configuration error.
    pub fn new_with_asset_id(asset_id: u32, components: Vec<NetworkBehaviour>) -> (r: Result<NetworkIdentity, SpawnError>)
        ensures
            r is Ok <==> components@.len() <= MAX_COMPONENTS,
            r matches Ok(id) ==> id.wf() && id.scene_id == 0 && id.asset_id == asset_id && id.net_id == 0
                && id.conn_to_client == 0 && id.observers@.len() == 0 && id.components@ == components@,
    {
        Self::with_components(0, asset_id, components)
    }

    /// An object placed in a scene; more than `MAX_COMPONENTS` components is
    /// a configuration error.
    pub fn new_with_scene_id(scene_id: u64, components: Vec<NetworkBehaviour>) -> (r: Result<NetworkIdentity, SpawnError>)
        ensures
            r is Ok <==> components@.len() <= MAX_COMPONENTS,
            r matches Ok(id) ==> id.wf() && id.scene_id == scene_id && id.asset_id == 0 && id.net_id == 0
                && id.conn_to_client == 0 && id.observers@.len() == 0 && id.components@ == components@,
    {
        Self::with_components(scene_id, 0, components)
    }

    /// Whether the object carries nothing yet.
    pub fn is_null(&self) -> (r: bool)
        ensures
            r == (self.net_id == 0 && self.asset_id == 0 && self.components@.len() == 0 && self.scene_id == 0),
    {
        self.net_id == 0 && self.asset_id == 0 && self.components.len() == 0 && self.scene_id == 0
    }

    /// Gives the object an owner, unless it has one.
    pub fn set_client_owner(&mut self, conn_id: u64)
        ensures
            final(self).conn_to_client == if old(self).conn_to_client != 0 { old(self).conn_to_client } else { conn_id },
            final(self).components@ == old(self).components@,
            final(self).observers@ == old(self).observers@,
            final(self).net_id == old(self).net_id,
    {
        if self.conn_to_client != 0 {
            return;
        }
        self.conn_to_client = conn_id;
    }

    /// Takes the object away from its owner, if it has one, and returns the
    /// message that tells the former owner.
    pub fn remove_client_authority(&mut self) -> (r: Option<crate::messages::ChangeOwnerMessage>)
        ensures
            final(self).conn_to_client == 0,
            final(self).net_id == old(self).net_id,
            final(self).components@ == old(self).components@,
            final(self).observers@ == old(self).observers@,
            old(self).conn_to_client == 0 <==> r is None,
            r matches Some(m) ==> m.net_id == old(self).net_id && !m.is_owner && !m.is_local_player,
    {
        if self.conn_to_client == 0 {
            return None;
        }
        self.conn_to_client = 0;
        Some(crate::messages::ChangeOwnerMessage::new(self.net_id, false, false))
    }

    /// Adds an observer. The first observer starts from a clean state: every
    /// component's dirty bits are cleared.
    pub fn add_observer(&mut self, conn_id: u64)
        requires
            old(self).wf(),
        ensures
            final(self).wf(),
            final(self).observers@ == if old(self).observers@.contains(conn_id) {
                old(self).observers@
            } else {
                old(self).observers@.push(conn_id)
            },
            final(self).components@.len() == old(self).components@.len(),
            forall|i: int| 0 <= i < final(self).components@.len() ==> {
                let (a, b) = (#[trigger] final(self).components@[i], old(self).components@[i]);
                &&& a.sync_vars@ == b.sync_vars@
                &&& a.sync_direction == b.sync_direction
                &&& a.sync_mode == b.sync_mode
                &&& a.component_type == b.component_type
                &&& a.sync_var_dirty_bits == if old(self).observers@.len() == 0 && !old(self).observers@.contains(conn_id) { 0 } else { b.sync_var_dirty_bits }
            },
            final(self).net_id == old(self).net_id,
            final(self).conn_to_client == old(self).conn_to_client,
    {
        let mut k: usize = 0;
        while k < self.observers.len()
            invariant
                k <= self.observers@.len(),
                forall|j: int| 0 <= j < k ==> self.observers@[j] != conn_id,
                self.wf(),
                self.components@ == old(self).components@,
                self.observers@ == old(self).observers@,
                self.net_id == old(self).net_id,
                self.conn_to_client == old(self).conn_to_client,
            decreases self.observers@.len() - k,
        {
            if self.observers[k] == conn_id {
                assert(self.observers@.contains(conn_id));
                return;
            }
            k = k + 1;
        }
        assert(!self.observers@.contains(conn_id));
        if self.observers.len() == 0 {
            let n = self.components.len();
            let mut j: usize = 0;
            while j < n
                invariant
                    j <= n == self.components@.len() <= 64,
                    n == old(self).components@.len(),
                    self.observers@ == old(self).observers@,
                    forall|i: int| 0 <= i < n ==> {
                        let (a, b) = (#[trigger] self.components@[i], old(self).components@[i]);
                        &&& a.sync_vars@ == b.sync_vars@
                        &&& a.sync_direction == b.sync_direction
                        &&& a.sync_mode == b.sync_mode
                        &&& a.component_type == b.component_type
                        &&& a.sync_var_dirty_bits == if i < j { 0 } else { b.sync_var_dirty_bits }
                    },
                    self.net_id == old(self).net_id,
                    self.conn_to_client == old(self).conn_to_client,
                decreases n - j,
            {
                let mut c = self.components.remove(j);
                c.clear_all_dirty_bits();
                self.components.insert(j, c);
                j = j + 1;
            }
        }
        self.observers.push(conn_id);
    }

    /// Removes every occurrence of an observer.
    pub fn remove_observer(&mut self, conn_id: u64)
        ensures
            final(self).observers@ == old(self).observers@.filter(|c: u64| c != conn_id),
            final(self).components@ == old(self).components@,
            final(self).net_id == old(self).net_id,
            final(self).conn_to_client == old(self).conn_to_client,
    {
        let mut kept: Vec<u64> = Vec::new();
        let mut k: usize = 0;
        while k < self.observers.len()
            invariant
                k <= self.observers@.len(),
                self.observers@ == old(self).observers@,
                kept@ == self.observers@.subrange(0, k as int).filter(|c: u64| c != conn_id),
            decreases self.observers@.len() - k,
        {
            let c = self.observers[k];
            proof {
                let pre = self.observers@.subrange(0, k as int);
                assert(self.observers@.subrange(0, k + 1) =~= pre.push(c));
                pre.lemma_filter_push(c, |c: u64| c != conn_id);
            }
            if c != conn_id {
                kept.push(c);
            }
            k = k + 1;
        }
        assert(self.observers@.subrange(0, self.observers@.len() as int) =~= self.observers@);
        self.observers = kept;
    }

    pub fn clear_observers(&mut self)
        ensures
            final(self).observers@.len() == 0,
            final(self).components@ == old(self).components@,
            final(self).net_id == old(self).net_id,
            final(self).conn_to_client == old(self).conn_to_client,
    {
        self.observers.clear();
    }

    /// Returns the object to its unspawned state: no identifier, no owner,
    /// no observers.
    pub fn reset_state(&mut self)
        ensures
            final(self).net_id == 0,
            final(self).conn_to_client == 0,
            final(self).observers@.len() == 0,
            !final(self).has_spawned,
            !final(self).is_owned,
            final(self).components@ == old(self).components@,
    {
        self.has_spawned = false;
        self.is_owned = false;
        self.net_id = 0;
        self.conn_to_client = 0;
        self.observers.clear();
    }

    /// The non-initial serialization for `tick`, computed once per tick:
    /// a call with the tick of the last one leaves everything as it is.
    pub fn get_server_serialization_at_tick(&mut self, tick: u32)
        requires
            old(self).wf(),
        ensures
            final(self).wf(),
            final(self).last_serialization.tick == tick,
            old(self).last_serialization.tick == tick ==> final(self).last_serialization.owner_writer@ == old(self).last_serialization.owner_writer@
                && final(self).last_serialization.observers_writer@ == old(self).last_serialization.observers_writer@
                && final(self).components@ == old(self).components@,
            old(self).last_serialization.tick != tick ==> {
                &&& final(self).last_serialization.owner_writer@ == stream_spec(old(self).components@, false, true)
                &&& final(self).last_serialization.observers_writer@ == stream_spec(old(self).components@, false, false)
                &&& forall|i: int| 0 <= i < final(self).components@.len() ==> (#[trigger] final(self).components@[i]).sync_var_dirty_bits == 0
            },
            final(self).components@.len() == old(self).components@.len(),
    {
        if self.last_serialization.tick != tick {
            let mut owner_writer = NetworkWriter::new();
            let mut observers_writer = NetworkWriter::new();
            self.serialize_server(false, &mut owner_writer, &mut observers_writer);
            self.last_serialization.reset_writers();
            let o = owner_writer.to_bytes();
            let b = observers_writer.to_bytes();
            self.last_serialization.owner_writer.write_bytes(o.as_slice());
            self.last_serialization.observers_writer.write_bytes(b.as_slice());
            assert(self.last_serialization.owner_writer@ =~= stream_spec(old(self).components@, false, true));
            assert(self.last_serialization.observers_writer@ =~= stream_spec(old(self).components@, false, false));
            self.last_serialization.tick = tick;
        }
    }
}

/// Why an object could not be created.
#[derive(Debug, Clone, Copy, PartialEq, Eq, Structural)]
pub enum SpawnError {
    /// More components than a mask has bits.
    TooManyComponents,
}

/// Hands out object identifiers, counting up from 1. Resetting is making a
/// new allocator.
#[derive(Debug)]
pub struct NetworkIdAllocator {
    pub next: u32,
}

impl NetworkIdAllocator {
    pub fn new() -> (a: NetworkIdAllocator)
        ensures
            a.next == 1,
    {
        NetworkIdAllocator { next: 1 }
    }

    /// The next identifier, or `None` once all are used.
    pub fn allocate(&mut self) -> (r: Option<u32>)
        ensures
            old(self).next == 0 || old(self).next == u32::MAX ==> r is None && final(self).next == old(self).next,
            0 < old(self).next < u32::MAX ==> r == Some(old(self).next) && final(self).next == old(self).next + 1,
    {
        if self.next == 0 || self.next == u32::MAX {
            return None;
        }
        let id = self.next;
        self.next = id + 1;
        Some(id)
    }
}

} // verus!
