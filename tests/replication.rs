use mirror_server::behaviour::{NetworkBehaviour, SyncDirection, SyncMode, SyncValue};
use mirror_server::components::NetworkRoomPlayer;
use mirror_server::connection::NetworkConnectionToClient;
use mirror_server::identity::{NetworkIdAllocator, NetworkIdentity, ReplicationError, SpawnError};
use mirror_server::reader::NetworkReader;
use mirror_server::rpc::{handle_remote_call, DispatchError, RemoteCallType, RemoteProcedureCalls, RpcHandler};
use mirror_server::snapshot::SnapshotSettings;
use mirror_server::writer::NetworkWriter;

fn comp(index: u8, dir: SyncDirection, mode: SyncMode, vars: Vec<SyncValue>) -> NetworkBehaviour {
    NetworkBehaviour {
        component_index: index,
        component_type: 9,
        sync_direction: dir,
        sync_mode: mode,
        sync_var_dirty_bits: 0,
        sync_vars: vars,
    }
}

fn object(vars: [Vec<SyncValue>; 3]) -> NetworkIdentity {
    let [a, b, c] = vars;
    NetworkIdentity::new_with_asset_id(
        7,
        vec![
            comp(0, SyncDirection::ServerToClient, SyncMode::Observers, a),
            comp(1, SyncDirection::ServerToClient, SyncMode::Owner, b),
            comp(2, SyncDirection::ClientToServer, SyncMode::Observers, c),
        ],
    )
    .unwrap()
}

fn initial_vars() -> [Vec<SyncValue>; 3] {
    [
        vec![SyncValue::Int(0), SyncValue::Bool(false)],
        vec![SyncValue::ULong(0)],
        vec![SyncValue::Int(0)],
    ]
}

#[test]
fn dirty_components_round_trip_and_clear() {
    for pattern in 0u8..8 {
        let mut server = object(initial_vars());
        let mut client = object(initial_vars());
        if pattern & 1 != 0 {
            server.components[0].set_sync_var(0, SyncValue::Int(-5));
        }
        if pattern & 2 != 0 {
            server.components[1].set_sync_var(0, SyncValue::ULong(99));
        }
        if pattern & 4 != 0 {
            server.components[0].set_sync_var(1, SyncValue::Bool(true));
        }
        let mut owner = NetworkWriter::new();
        let mut observers = NetworkWriter::new();
        server.serialize_server(false, &mut owner, &mut observers);
        for c in &server.components {
            assert_eq!(c.sync_var_dirty_bits, 0);
        }
        let expected_mask: u64 = (if pattern & 5 != 0 { 1 } else { 0 }) | (if pattern & 2 != 0 { 2 } else { 0 });
        let bytes = owner.to_bytes();
        if expected_mask == 0 {
            assert!(bytes.is_empty());
            continue;
        }
        let mut r = NetworkReader::new(bytes);
        assert_eq!(client.deserialize(&mut r, false, true), Ok(expected_mask));
        assert_eq!(r.remaining(), 0);
        for i in 0..3 {
            assert_eq!(client.components[i].sync_vars, server.components[i].sync_vars, "component {}", i);
        }
        assert_eq!(client.components[2].sync_vars, vec![SyncValue::Int(0)]);
    }
}

#[test]
fn initial_state_goes_to_owner_whole() {
    let mut server = object(initial_vars());
    let mut owner = NetworkWriter::new();
    let mut observers = NetworkWriter::new();
    server.serialize_server(true, &mut owner, &mut observers);
    let o = owner.to_bytes();
    let b = observers.to_bytes();
    assert_eq!(o[0], 0b111);
    assert_eq!(b[0], 0b101);
    assert_eq!(o.len(), 1 + (4 + 1) + 8 + 4);
    assert_eq!(b.len(), 1 + (4 + 1) + 4);
}

#[test]
fn client_may_not_write_server_authoritative_state() {
    let mut server = object(initial_vars());
    let mut r = NetworkReader::new(vec![1, 1, 1, 0, 0, 0]);
    assert_eq!(server.deserialize(&mut r, false, false), Err(ReplicationError::DirectionMismatch));
    let mut ok = NetworkReader::new(vec![4, 1, 9, 0, 0, 0]);
    assert_eq!(server.deserialize(&mut ok, false, false), Ok(4));
    assert_eq!(server.components[2].sync_vars, vec![SyncValue::Int(9)]);
    let mut short = NetworkReader::new(vec![4, 1, 9]);
    assert_eq!(server.deserialize(&mut short, false, false), Err(ReplicationError::EndOfData));
}

#[test]
fn more_than_sixty_four_components_is_refused() {
    let comps: Vec<NetworkBehaviour> =
        (0..65u8).map(|i| comp(i, SyncDirection::ServerToClient, SyncMode::Observers, vec![])).collect();
    assert!(matches!(NetworkIdentity::new_with_scene_id(3, comps), Err(SpawnError::TooManyComponents)));
}

#[test]
fn first_observer_clears_dirty_bits() {
    let mut obj = object(initial_vars());
    obj.components[0].set_sync_var(0, SyncValue::Int(1));
    obj.add_observer(5);
    assert_eq!(obj.components[0].sync_var_dirty_bits, 0);
    obj.components[0].set_sync_var(0, SyncValue::Int(2));
    obj.add_observer(6);
    obj.add_observer(5);
    assert_eq!(obj.observers, vec![5, 6]);
    assert_eq!(obj.components[0].sync_var_dirty_bits, 1);
    obj.remove_observer(5);
    assert_eq!(obj.observers, vec![6]);
    obj.reset_state();
    assert_eq!(obj.observers, Vec::<u64>::new());
    assert_eq!(obj.net_id, 0);
}

#[test]
fn ids_count_up_from_one() {
    let mut a = NetworkIdAllocator::new();
    assert_eq!(a.allocate(), Some(1));
    assert_eq!(a.allocate(), Some(2));
    let mut full = NetworkIdAllocator { next: u32::MAX };
    assert_eq!(full.allocate(), None);
}

fn settings() -> SnapshotSettings {
    SnapshotSettings {
        buffer_limit: 64,
        catchup_speed_ppm: 20_000,
        slowdown_speed_ppm: 40_000,
        catchup_negative_threshold_ppm: -1_000_000,
        catchup_positive_threshold_ppm: 1_000_000,
        dynamic_adjustment: false,
        dynamic_adjustment_tolerance_ppm: 1_000_000,
        drift_ema_window: 60,
        delivery_time_ema_window: 10,
    }
}

#[test]
fn owner_command_marks_owner_only_state() {
    let conn_a = NetworkConnectionToClient::new(1, "a".to_string(), 1200, 1200, settings(), 33_333, 2_000_000, 0);
    let conn_b = NetworkConnectionToClient::new(2, "b".to_string(), 1200, 1200, settings(), 33_333, 2_000_000, 0);
    let mut registry = RemoteProcedureCalls::new();
    let hash = NetworkRoomPlayer::register_delegate(&mut registry).unwrap();
    assert_eq!(NetworkRoomPlayer::register_delegate(&mut registry), Ok(hash));

    let player = NetworkRoomPlayer::new(0, SyncDirection::ServerToClient, SyncMode::Owner);
    let mut identity = NetworkIdentity::new_with_asset_id(11, vec![player.network_behaviour]).unwrap();
    let mut ids = NetworkIdAllocator::new();
    identity.net_id = ids.allocate().unwrap();
    identity.set_client_owner(conn_a.connection_id);
    identity.add_observer(conn_a.connection_id);
    identity.add_observer(conn_b.connection_id);
    let net_id = identity.net_id;
    let mut objects = vec![identity];

    let mut from_b = NetworkReader::new(vec![1]);
    assert_eq!(
        handle_remote_call(&registry, &mut objects, conn_b.connection_id, net_id, 0, hash, &mut from_b),
        Err(DispatchError::Unauthorized)
    );
    let mut from_a = NetworkReader::new(vec![1]);
    assert_eq!(handle_remote_call(&registry, &mut objects, conn_a.connection_id, net_id, 0, hash, &mut from_a), Ok(()));
    assert_eq!(objects[0].components[0].sync_vars[0], SyncValue::Bool(true));
    assert_eq!(objects[0].components[0].sync_var_dirty_bits, 1);

    let mut owner = NetworkWriter::new();
    let mut observers = NetworkWriter::new();
    objects[0].serialize_server(false, &mut owner, &mut observers);
    let o = owner.to_bytes();
    assert_eq!(o[0] & 1, 1);
    assert!(observers.to_bytes().is_empty());
}

#[test]
fn dispatch_failures_are_named() {
    let mut registry = RemoteProcedureCalls::new();
    let hash = NetworkRoomPlayer::register_delegate(&mut registry).unwrap();
    let rpc_hash = registry
        .register_delegate(NetworkRoomPlayer::COMPONENT_TYPE, "System.Void Foo::RpcBar()", RemoteCallType::ClientRpc, RpcHandler::SetSyncVar(1), false)
        .unwrap();
    let player = NetworkRoomPlayer::new(0, SyncDirection::ServerToClient, SyncMode::Observers);
    let mut identity = NetworkIdentity::new_with_asset_id(11, vec![player.network_behaviour]).unwrap();
    identity.net_id = 4;
    identity.set_client_owner(1);
    let mut objects = vec![identity];
    let mut r = NetworkReader::new(vec![1]);
    assert_eq!(handle_remote_call(&registry, &mut objects, 1, 5, 0, hash, &mut r), Err(DispatchError::UnknownTarget));
    assert_eq!(handle_remote_call(&registry, &mut objects, 1, 4, 3, hash, &mut r), Err(DispatchError::UnknownTarget));
    assert_eq!(handle_remote_call(&registry, &mut objects, 1, 4, 0, hash ^ 1, &mut r), Err(DispatchError::UnknownMethod));
    assert_eq!(handle_remote_call(&registry, &mut objects, 1, 4, 0, rpc_hash, &mut r), Err(DispatchError::Unauthorized));
    let mut empty = NetworkReader::new(vec![]);
    assert_eq!(handle_remote_call(&registry, &mut objects, 1, 4, 0, hash, &mut empty), Err(DispatchError::BadArguments));
}

#[test]
fn hash_collision_is_refused() {
    let mut registry = RemoteProcedureCalls::new();
    let h = registry
        .register_delegate(1, "System.Void A::CmdX()", RemoteCallType::Command, RpcHandler::SetSyncVar(0), true)
        .unwrap();
    let inv = registry.get_invoker(h).unwrap();
    let other = mirror_server::rpc::Invoker { requires_authority: false, ..inv };
    assert_eq!(registry.register(h, other), Err(mirror_server::rpc::RegistryError::HashCollision));
    assert_eq!(registry.register(h, inv), Ok(()));
    assert_eq!(registry.entries.len(), 1);
}

#[test]
fn removing_authority_tells_the_owner() {
    let mut obj = object(initial_vars());
    obj.net_id = 12;
    assert!(obj.remove_client_authority().is_none());
    obj.set_client_owner(3);
    let m = obj.remove_client_authority().unwrap();
    assert_eq!((m.net_id, m.is_owner, m.is_local_player), (12, false, false));
    assert_eq!(obj.conn_to_client, 0);
}
