//! Concrete components built on the generic replicated component.
use crate::behaviour::{NetworkBehaviour, SyncDirection, SyncMode, SyncValue};
use crate::rpc::{lookup, Invoker, RegistryError, RemoteCallType, RemoteProcedureCalls, RpcHandler};
use crate::stable_hash::stable_hash16;
use vstd::prelude::*;
use vstd::utf8::encode_utf8;

verus! {

/// Whether a transform is synchronised in local or in world coordinates.
#[derive(Debug, Clone, Copy, PartialEq, Eq, Structural)]
pub enum CoordinateSpace {
    Local,
    World,
}

impl CoordinateSpace {
    /// `1` is `World`; any other byte is `Local`.
    pub fn from_u8(value: u8) -> (r: CoordinateSpace)
        ensures
            r == if value == 1 { CoordinateSpace::World } else { CoordinateSpace::Local },
    {
        match value {
            1 => CoordinateSpace::World,
            _ => CoordinateSpace::Local,
        }
    }
}

/// A player in a lobby: field 0 is whether it is ready to begin, field 1
/// its index in the room.
#[derive(Debug)]
pub struct NetworkRoomPlayer {
    pub network_behaviour: NetworkBehaviour,
}

impl NetworkRoomPlayer {
    pub const COMPONENT_TYPE: u32 = 1;

    pub open spec fn wf(&self) -> bool {
        &&& self.network_behaviour.sync_vars@.len() == 2
        &&& self.network_behaviour.sync_vars@[0] is Bool
        &&& self.network_behaviour.sync_vars@[1] is Int
    }

    pub fn new(component_index: u8, sync_direction: SyncDirection, sync_mode: SyncMode) -> (r: NetworkRoomPlayer)
        ensures
            r.wf(),
            r.network_behaviour.component_index == component_index,
            r.network_behaviour.component_type == Self::COMPONENT_TYPE,
            r.network_behaviour.sync_direction == sync_direction,
            r.network_behaviour.sync_mode == sync_mode,
            r.network_behaviour.sync_var_dirty_bits == 0,
            r.network_behaviour.sync_vars@ == seq![SyncValue::Bool(false), SyncValue::Int(0)],
    {
        let mut vars: Vec<SyncValue> = Vec::new();
        vars.push(SyncValue::Bool(false));
        vars.push(SyncValue::Int(0));
        assert(vars@ =~= seq![SyncValue::Bool(false), SyncValue::Int(0)]);
        NetworkRoomPlayer {
            network_behaviour: NetworkBehaviour {
                component_index,
                component_type: Self::COMPONENT_TYPE,
                sync_direction,
                sync_mode,
                sync_var_dirty_bits: 0,
                sync_vars: vars,
            },
        }
    }

    pub fn ready_to_begin(&self) -> (r: bool)
        requires
            self.wf(),
        ensures
            self.network_behaviour.sync_vars@[0] == SyncValue::Bool(r),
    {
        match self.network_behaviour.sync_vars[0] {
            SyncValue::Bool(b) => b,
            _ => false,
        }
    }

    pub fn index(&self) -> (r: i32)
        requires
            self.wf(),
        ensures
            self.network_behaviour.sync_vars@[1] == SyncValue::Int(r),
    {
        match self.network_behaviour.sync_vars[1] {
            SyncValue::Int(i) => i,
            _ => 0,
        }
    }

    /// The body of the ready-state command: sets the flag and marks it dirty.
    pub fn user_code_cmd_change_ready_state_boolean(&mut self, value: bool)
        requires
            old(self).wf(),
        ensures
            final(self).wf(),
            final(self).network_behaviour.sync_vars@ == old(self).network_behaviour.sync_vars@.update(0, SyncValue::Bool(value)),
            final(self).network_behaviour.sync_var_dirty_bits == old(self).network_behaviour.sync_var_dirty_bits | 1u64,
    {
        self.network_behaviour.set_sync_var(0, SyncValue::Bool(value));
        assert(1u64 << 0u8 == 1u64) by (bit_vector);
    }

    /// Registers the ready-state command, which only the owner may call.
    pub fn register_delegate(registry: &mut RemoteProcedureCalls) -> (r: Result<u16, RegistryError>)
        ensures
            ({
                let hash = stable_hash16(encode_utf8("System.Void Mirror.NetworkRoomPlayer::CmdChangeReadyState(System.Boolean)"@));
                let inv = Invoker {
                    component_type: Self::COMPONENT_TYPE,
                    call_type: RemoteCallType::Command,
                    handler: RpcHandler::SetSyncVar(0),
                    requires_authority: true,
                };
                match lookup(old(registry).entries@, hash) {
                    None => r == Ok::<u16, RegistryError>(hash) && lookup(final(registry).entries@, hash) == Some(inv),
                    Some(existing) => final(registry).entries@ == old(registry).entries@
                        && (existing == inv ==> r == Ok::<u16, RegistryError>(hash))
                        && (existing != inv ==> r == Err::<u16, RegistryError>(RegistryError::HashCollision)),
                }
            }),
    {
        registry.register_delegate(
            Self::COMPONENT_TYPE,
            "System.Void Mirror.NetworkRoomPlayer::CmdChangeReadyState(System.Boolean)",
            RemoteCallType::Command,
            RpcHandler::SetSyncVar(0),
            true,
        )
    }
}

/// A rigidbody whose state travels on the unreliable channel; it keeps no
/// synchronised fields of its own.
#[derive(Debug)]
pub struct NetworkRigidbodyUnreliable {
    pub network_behaviour: NetworkBehaviour,
}

impl NetworkRigidbodyUnreliable {
    pub const COMPONENT_TYPE: u32 = 2;

    pub fn new(component_index: u8, sync_direction: SyncDirection, sync_mode: SyncMode) -> (r: NetworkRigidbodyUnreliable)
        ensures
            r.network_behaviour.component_index == component_index,
            r.network_behaviour.component_type == Self::COMPONENT_TYPE,
            r.network_behaviour.sync_direction == sync_direction,
            r.network_behaviour.sync_mode == sync_mode,
            r.network_behaviour.sync_var_dirty_bits == 0,
            r.network_behaviour.sync_vars@.len() == 0,
    {
        NetworkRigidbodyUnreliable {
            network_behaviour: NetworkBehaviour {
                component_index,
                component_type: Self::COMPONENT_TYPE,
                sync_direction,
                sync_mode,
                sync_var_dirty_bits: 0,
                sync_vars: Vec::new(),
            },
        }
    }
}

} // verus!
