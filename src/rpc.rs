//! The remote-call registry: each call is named on the wire by the stable
//! hash of its signature, and resolves to a handler, the kind of component
//! it runs on, and whether the caller must own the object.
use crate::behaviour::{parse_value, read_value};
use crate::identity::NetworkIdentity;
use crate::reader::NetworkReader;
use crate::stable_hash::{get_stable_hash_code16, stable_hash16};
use vstd::prelude::*;
use vstd::utf8::encode_utf8;

verus! {

/// Commands run on the server at a client's request; client calls run on clients.
#[derive(Debug, Clone, Copy, PartialEq, Eq, Structural)]
pub enum RemoteCallType {
    Command,
    ClientRpc,
}

/// What a remote call does to its component.
#[derive(Debug, Clone, Copy, PartialEq, Eq, Structural)]
pub enum RpcHandler {
    /// Reads one value, of the kind that field `slot` holds, into that field
    /// and marks it dirty.
    SetSyncVar(u8),
}

#[derive(Debug, Clone, Copy, PartialEq, Eq, Structural)]
pub struct Invoker {
    pub component_type: u32,
    pub call_type: RemoteCallType,
    pub handler: RpcHandler,
    pub requires_authority: bool,
}

#[derive(Debug, Clone, Copy, PartialEq, Eq, Structural)]
pub enum RegistryError {
    /// Another call is registered under the same hash.
    HashCollision,
}

#[derive(Debug, Clone, Copy, PartialEq, Eq, Structural)]
pub enum DispatchError {
    /// No object with that identifier, or no component at that index.
    UnknownTarget,
    /// No call with that hash for that kind of component.
    UnknownMethod,
    /// The caller may not make this call.
    Unauthorized,
    /// The arguments could not be read.
    BadArguments,
}

/// The invoker registered under `hash`, if any.
pub open spec fn lookup(entries: Seq<(u16, Invoker)>, hash: u16) -> Option<Invoker>
    decreases entries.len(),
{
    if entries.len() == 0 {
        None
    } else if entries.last().0 == hash {
        Some(entries.last().1)
    } else {
        lookup(entries.drop_last(), hash)
    }
}

/// The index of the first object with identifier `net_id`.
pub open spec fn find_object(objects: Seq<NetworkIdentity>, net_id: u32, i: int) -> Option<int>
    decreases objects.len() - i,
{
    if i < 0 || i >= objects.len() {
        None
    } else if objects[i].net_id == net_id {
        Some(i)
    } else {
        find_object(objects, net_id, i + 1)
    }
}

/// The registry of remote calls, built once before connections are served.
#[derive(Debug)]
pub struct RemoteProcedureCalls {
    pub entries: Vec<(u16, Invoker)>,
}

impl RemoteProcedureCalls {
    pub fn new() -> (r: RemoteProcedureCalls)
        ensures
            r.entries@.len() == 0,
    {
        RemoteProcedureCalls { entries: Vec::new() }
    }

    pub fn get_invoker(&self, hash: u16) -> (r: Option<Invoker>)
        ensures
            r == lookup(self.entries@, hash),
    {
        let mut i: usize = self.entries.len();
        assert(self.entries@.subrange(0, i as int) =~= self.entries@);
        while i > 0
            invariant
                i <= self.entries@.len(),
                lookup(self.entries@, hash) == lookup(self.entries@.subrange(0, i as int), hash),
            decreases i,
        {
            let e = self.entries[i - 1];
            proof {
                let pre = self.entries@.subrange(0, i as int);
                assert(pre.drop_last() =~= self.entries@.subrange(0, i - 1));
            }
            if e.0 == hash {
                return Some(e.1);
            }
            i = i - 1;
        }
        None
    }

    /// Registers `invoker` under `hash`. Registering the same call again
    /// changes nothing; a different call under a taken hash is refused.
    pub fn register(&mut self, hash: u16, invoker: Invoker) -> (r: Result<(), RegistryError>)
        ensures
            match lookup(old(self).entries@, hash) {
                None => r is Ok && lookup(final(self).entries@, hash) == Some(invoker)
                    && forall|h: u16| h != hash ==> lookup(#[trigger] final(self).entries@, h) == lookup(old(self).entries@, h),
                Some(existing) => final(self).entries@ == old(self).entries@
                    && (r is Ok <==> existing == invoker)
                    && (r is Err ==> r == Err::<(), RegistryError>(RegistryError::HashCollision)),
            },
    {
        match self.get_invoker(hash) {
            Some(existing) => {
                if existing == invoker {
                    Ok(())
                } else {
                    Err(RegistryError::HashCollision)
                }
            },
            None => {
                self.entries.push((hash, invoker));
                proof {
                    assert(self.entries@.drop_last() =~= old(self).entries@);
                }
                Ok(())
            },
        }
    }

    /// Registers a call under the stable hash of its signature and returns the hash.
    pub fn register_delegate(
        &mut self,
        component_type: u32,
        signature: &str,
        call_type: RemoteCallType,
        handler: RpcHandler,
        requires_authority: bool,
    ) -> (r: Result<u16, RegistryError>)
        ensures
            ({
                let hash = stable_hash16(encode_utf8(signature@));
                let inv = Invoker { component_type, call_type, handler, requires_authority };
                match lookup(old(self).entries@, hash) {
                    None => r == Ok::<u16, RegistryError>(hash) && lookup(final(self).entries@, hash) == Some(inv),
                    Some(existing) => final(self).entries@ == old(self).entries@
                        && (existing == inv ==> r == Ok::<u16, RegistryError>(hash))
                        && (existing != inv ==> r == Err::<u16, RegistryError>(RegistryError::HashCollision)),
                }
            }),
    {
        let hash = get_stable_hash_code16(signature);
        let invoker = Invoker { component_type, call_type, handler, requires_authority };
        match self.register(hash, invoker) {
            Ok(()) => Ok(hash),
            Err(e) => Err(e),
        }
    }
}

/// The index of the first object with identifier `net_id`.
pub fn find_identity(objects: &Vec<NetworkIdentity>, net_id: u32) -> (r: Option<usize>)
    ensures
        r matches Some(i) ==> find_object(objects@, net_id, 0) == Some(i as int) && i < objects@.len()
            && objects@[i as int].net_id == net_id,
        r is None ==> find_object(objects@, net_id, 0) is None,
{
    let mut i: usize = 0;
    while i < objects.len()
        invariant
            i <= objects@.len(),
            find_object(objects@, net_id, 0) == find_object(objects@, net_id, i as int),
        decreases objects@.len() - i,
    {
        if objects[i].net_id == net_id {
            return Some(i);
        }
        i = i + 1;
    }
    None
}

/// Where a command from connection `conn_id` stops, if it does not run:
/// `None` when it runs.
pub open spec fn dispatch_refusal(
    registry: Seq<(u16, Invoker)>,
    objects: Seq<NetworkIdentity>,
    conn_id: u64,
    net_id: u32,
    component_index: u8,
    function_hash: u16,
    args: Seq<u8>,
) -> Option<DispatchError> {
    match find_object(objects, net_id, 0) {
        None => Some(DispatchError::UnknownTarget),
        Some(o) => if component_index as int >= objects[o].components@.len() {
            Some(DispatchError::UnknownTarget)
        } else {
            let c = objects[o].components@[component_index as int];
            match lookup(registry, function_hash) {
                None => Some(DispatchError::UnknownMethod),
                Some(inv) => if inv.component_type != c.component_type {
                    Some(DispatchError::UnknownMethod)
                } else if inv.call_type != RemoteCallType::Command {
                    Some(DispatchError::Unauthorized)
                } else if inv.requires_authority && objects[o].conn_to_client != conn_id {
                    Some(DispatchError::Unauthorized)
                } else {
                    match inv.handler {
                        RpcHandler::SetSyncVar(slot) => if slot >= 64 || slot as int >= c.sync_vars@.len() {
                            Some(DispatchError::BadArguments)
                        } else if parse_value(c.sync_vars@[slot as int], args) is None {
                            Some(DispatchError::BadArguments)
                        } else {
                            None
                        },
                    }
                },
            }
        },
    }
}

/// Runs a command that connection `conn_id` sent for component
/// `component_index` of object `net_id`, its arguments in `reader`.
pub fn handle_remote_call(
    registry: &RemoteProcedureCalls,
    objects: &mut Vec<NetworkIdentity>,
    conn_id: u64,
    net_id: u32,
    component_index: u8,
    function_hash: u16,
    reader: &mut NetworkReader,
) -> (r: Result<(), DispatchError>)
    requires
        old(reader).wf(),
        forall|i: int| 0 <= i < old(objects)@.len() ==> (#[trigger] old(objects)@[i]).wf(),
    ensures
        final(reader).wf(),
        final(reader).bytes() == old(reader).bytes(),
        forall|i: int| 0 <= i < final(objects)@.len() ==> (#[trigger] final(objects)@[i]).wf(),
        final(objects)@.len() == old(objects)@.len(),
        match dispatch_refusal(registry.entries@, old(objects)@, conn_id, net_id, component_index, function_hash, old(reader).rest()) {
            Some(e) => r == Err::<(), DispatchError>(e) && final(objects)@ == old(objects)@,
            None => {
                let o = find_object(old(objects)@, net_id, 0).unwrap();
                let ci = component_index as int;
                let c = old(objects)@[o].components@[ci];
                let slot = match lookup(registry.entries@, function_hash).unwrap().handler {
                    RpcHandler::SetSyncVar(s) => s,
                };
                let (v, k) = parse_value(c.sync_vars@[slot as int], old(reader).rest()).unwrap();
                let nc = final(objects)@[o].components@[ci];
                &&& r is Ok
                &&& final(reader).pos() == old(reader).pos() + k
                &&& forall|i: int| 0 <= i < final(objects)@.len() && i != o ==> #[trigger] final(objects)@[i] == old(objects)@[i]
                &&& final(objects)@[o].components@.len() == old(objects)@[o].components@.len()
                &&& forall|j: int| 0 <= j < final(objects)@[o].components@.len() && j != ci
                    ==> #[trigger] final(objects)@[o].components@[j] == old(objects)@[o].components@[j]
                &&& final(objects)@[o].net_id == old(objects)@[o].net_id
                &&& final(objects)@[o].conn_to_client == old(objects)@[o].conn_to_client
                &&& final(objects)@[o].observers@ == old(objects)@[o].observers@
                &&& nc.sync_vars@ == c.sync_vars@.update(slot as int, v)
                &&& nc.sync_var_dirty_bits == c.sync_var_dirty_bits | (1u64 << slot)
                &&& nc.sync_direction == c.sync_direction
                &&& nc.sync_mode == c.sync_mode
                &&& nc.component_type == c.component_type
            },
        },
{
    let o = match find_identity(objects, net_id) {
        Some(o) => o,
        None => return Err(DispatchError::UnknownTarget),
    };
    let ci = component_index as usize;
    if ci >= objects[o].components.len() {
        return Err(DispatchError::UnknownTarget);
    }
    let inv = match registry.get_invoker(function_hash) {
        Some(inv) => inv,
        None => return Err(DispatchError::UnknownMethod),
    };
    if inv.component_type != objects[o].components[ci].component_type {
        return Err(DispatchError::UnknownMethod);
    }
    if inv.call_type != RemoteCallType::Command {
        return Err(DispatchError::Unauthorized);
    }
    if inv.requires_authority && objects[o].conn_to_client != conn_id {
        return Err(DispatchError::Unauthorized);
    }
    match inv.handler {
        RpcHandler::SetSyncVar(slot) => {
            if slot >= 64 || slot as usize >= objects[o].components[ci].sync_vars.len() {
                return Err(DispatchError::BadArguments);
            }
            let kind = objects[o].components[ci].sync_vars[slot as usize];
            let value = match read_value(reader, kind) {
                Ok(v) => v,
                Err(_) => return Err(DispatchError::BadArguments),
            };
            let mut identity = objects.remove(o);
            let mut component = identity.components.remove(ci);
            component.set_sync_var(slot, value);
            identity.components.insert(ci, component);
            objects.insert(o, identity);
            proof {
                assert forall|i: int| 0 <= i < objects@.len() && i != o implies #[trigger] objects@[i] == old(objects)@[i] by {}
                assert forall|i: int| 0 <= i < objects@.len() implies (#[trigger] objects@[i]).wf() by {
                    if i != o {
                        assert(objects@[i] == old(objects)@[i]);
                    }
                }
            }
            Ok(())
        },
    }
}

} // verus!
