use mirror_server::components::{CoordinateSpace, NetworkRigidbodyUnreliable, NetworkRoomPlayer};
use mirror_server::behaviour::{SyncDirection, SyncMode, SyncValue};
use mirror_server::messages::{
    ChangeOwnerMessage, CommandMessage, EntityStateMessage, NetworkMessageTrait, NetworkPingMessage, ObjectDestroyMessage,
    ObjectHideMessage, ReadyMessage, RpcMessage, SceneMessage, SceneOperation, SpawnMessage, TimeSnapshotMessage,
};
use mirror_server::network_loop::{LoopPhase, NetworkLoop};
use mirror_server::network_messages::{
    handler_for, MessageHandlerKind, MessageRejection, NetworkMessageHandler, NetworkMessages, TransportChannel,
};
use mirror_server::reader::{DecodeError, NetworkReader};
use mirror_server::identity::NetworkIdentitySerialization;
use mirror_server::writer::{NetworkWriter, Vector3Bits, Vector4Bits};

fn bytes_of<T: NetworkMessageTrait>(m: &T) -> Vec<u8> {
    let mut w = NetworkWriter::new();
    NetworkMessages::pack(m, &mut w);
    w.to_bytes()
}

#[test]
fn command_message_layout_and_round_trip() {
    let m = CommandMessage::new(0x01020304, 2, 0xBEEF, vec![7, 8]);
    let b = bytes_of(&m);
    assert_eq!(b, vec![0xD4, 0x98, 4, 3, 2, 1, 2, 0xEF, 0xBE, 3, 0, 0, 0, 7, 8]);
    let mut r = NetworkReader::new(b);
    assert_eq!(NetworkMessages::unpack_id(&mut r), Ok(39124));
    assert_eq!(CommandMessage::deserialize(&mut r), Ok(m));
    assert_eq!(r.remaining(), 0);
}

#[test]
fn rpc_and_entity_state_round_trip() {
    let m = RpcMessage::new(9, 1, 5, vec![]);
    let mut r = NetworkReader::new(bytes_of(&m));
    assert_eq!(NetworkMessages::unpack_id(&mut r), Ok(40238));
    assert_eq!(RpcMessage::deserialize(&mut r), Ok(m));
    let e = EntityStateMessage::new(3, vec![1, 2, 3]);
    assert_eq!(e.get_payload(), vec![1, 2, 3]);
    let mut r = NetworkReader::new(bytes_of(&e));
    r.read_ushort().unwrap();
    assert_eq!(EntityStateMessage::deserialize(&mut r), Ok(e));
}

#[test]
fn spawn_message_round_trip() {
    let m = SpawnMessage::new(
        5,
        true,
        false,
        77,
        1234,
        Vector3Bits { x: 1.0f32.to_bits(), y: 2.0f32.to_bits(), z: 3.0f32.to_bits() },
        Vector4Bits { x: 0, y: 0, z: 0, w: 1.0f32.to_bits() },
        Vector3Bits { x: 1.0f32.to_bits(), y: 1.0f32.to_bits(), z: 1.0f32.to_bits() },
        vec![42],
    );
    let b = bytes_of(&m);
    assert_eq!(b.len(), 2 + 58 + 4 + 1);
    let mut r = NetworkReader::new(b);
    r.read_ushort().unwrap();
    assert_eq!(SpawnMessage::deserialize(&mut r), Ok(m));
}

#[test]
fn scene_message_round_trip() {
    let m = SceneMessage::new("Lobby".to_string(), SceneOperation::LoadAdditive, true);
    let b = bytes_of(&m);
    assert_eq!(&b[0..2], &3552u16.to_le_bytes());
    let mut r = NetworkReader::new(b);
    r.read_ushort().unwrap();
    assert_eq!(SceneMessage::deserialize(&mut r), Ok(m));
    assert_eq!(SceneOperation::from(2), SceneOperation::UnloadAdditive);
    assert_eq!(SceneOperation::from(9), SceneOperation::Normal);
    assert_eq!(SceneOperation::LoadAdditive.to_u8(), 1);
}

#[test]
fn small_messages_round_trip() {
    let c = ChangeOwnerMessage::new(8, true, false);
    let mut r = NetworkReader::new(bytes_of(&c));
    r.read_ushort().unwrap();
    assert_eq!(ChangeOwnerMessage::deserialize(&mut r), Ok(c));
    let d = ObjectDestroyMessage::new(12);
    assert_eq!(bytes_of(&d).len(), 6);
    let h = ObjectHideMessage::new(13);
    let mut r = NetworkReader::new(bytes_of(&h));
    r.read_ushort().unwrap();
    assert_eq!(ObjectHideMessage::deserialize(&mut r), Ok(h));
    assert_eq!(bytes_of(&ReadyMessage), 43708u16.to_le_bytes().to_vec());
    assert_eq!(bytes_of(&TimeSnapshotMessage), 57097u16.to_le_bytes().to_vec());
    let p = NetworkPingMessage::new(1.5f64.to_bits(), 2.5f64.to_bits());
    let mut r = NetworkReader::new(bytes_of(&p));
    assert_eq!(NetworkMessages::unpack_id(&mut r), Ok(17487));
    assert_eq!(NetworkPingMessage::deserialize(&mut r), Ok(p));
}

#[test]
fn truncated_messages_fail() {
    let mut r = NetworkReader::new(vec![1, 0, 0]);
    assert_eq!(ChangeOwnerMessage::deserialize(&mut r), Err(DecodeError::EndOfData));
    let mut r = NetworkReader::new(vec![1, 0, 0, 0, 0, 0, 0, 9, 0, 0, 0, 1]);
    assert_eq!(CommandMessage::deserialize(&mut r), Err(DecodeError::EndOfData));
}

#[test]
fn content_size_leaves_room_for_header() {
    assert_eq!(NetworkMessages::max_content_size(TransportChannel::Reliable, None), 1500);
    assert_eq!(NetworkMessages::max_content_size(TransportChannel::Reliable, Some(1200)), 1200 - 2 - 2);
    assert_eq!(NetworkMessages::max_content_size(TransportChannel::Unreliable, Some(200)), 200 - 2 - 1);
    assert_eq!(NetworkMessages::max_message_size(TransportChannel::Unreliable, Some(200)), 200 - 1);
    assert_eq!(NetworkMessages::max_content_size(TransportChannel::Unreliable, Some(2)), 0);
}

#[test]
fn handlers_require_authentication() {
    let handlers = vec![
        (43708u16, NetworkMessageHandler::wrap_handler(MessageHandlerKind::Ready, true)),
        (17487u16, NetworkMessageHandler::wrap_handler(MessageHandlerKind::NetworkPing, false)),
    ];
    assert_eq!(handler_for(&handlers, 43708, false), Err(MessageRejection::NotAuthenticated));
    assert_eq!(handler_for(&handlers, 43708, true), Ok(MessageHandlerKind::Ready));
    assert_eq!(handler_for(&handlers, 17487, false), Ok(MessageHandlerKind::NetworkPing));
    assert_eq!(handler_for(&handlers, 1, true), Err(MessageRejection::UnknownMessage));
}

#[test]
fn loop_ticks_until_stopped() {
    let mut l = NetworkLoop::new();
    assert_eq!(l.advance(false), LoopPhase::OnEnable);
    assert_eq!(l.advance(false), LoopPhase::Start);
    assert_eq!(l.advance(false), LoopPhase::FixedUpdate);
    assert_eq!(l.advance(false), LoopPhase::Update);
    assert_eq!(l.advance(false), LoopPhase::LateUpdate);
    assert_eq!(l.advance(false), LoopPhase::FixedUpdate);
    l.advance(true);
    l.advance(true);
    assert_eq!(l.advance(true), LoopPhase::OnDisable);
    assert_eq!(l.advance(true), LoopPhase::OnDestroy);
    assert_eq!(l.advance(true), LoopPhase::Stopped);
}

#[test]
fn room_player_ready_state() {
    let mut p = NetworkRoomPlayer::new(1, SyncDirection::ServerToClient, SyncMode::Observers);
    assert!(!p.ready_to_begin());
    assert_eq!(p.index(), 0);
    p.user_code_cmd_change_ready_state_boolean(true);
    assert!(p.ready_to_begin());
    assert_eq!(p.network_behaviour.sync_var_dirty_bits, 1);
    let mut w = NetworkWriter::new();
    p.network_behaviour.serialize(&mut w, true);
    assert_eq!(w.to_bytes(), vec![1, 0, 0, 0, 0]);
    let mut d = NetworkWriter::new();
    p.network_behaviour.serialize(&mut d, false);
    assert_eq!(d.to_bytes(), vec![1, 1]);
    assert_eq!(CoordinateSpace::from_u8(1), CoordinateSpace::World);
    assert_eq!(CoordinateSpace::from_u8(7), CoordinateSpace::Local);
    let rb = NetworkRigidbodyUnreliable::new(2, SyncDirection::ClientToServer, SyncMode::Owner);
    assert_eq!(rb.network_behaviour.component_index, 2);
    assert_eq!(p.network_behaviour.sync_vars[1], SyncValue::Int(0));
}

#[test]
fn identity_serialization_resets() {
    let mut s = NetworkIdentitySerialization::new(4);
    s.owner_writer.write_byte(1);
    s.reset_writers();
    assert_eq!(s.tick, 4);
    assert_eq!(s.owner_writer.len(), 0);
}
