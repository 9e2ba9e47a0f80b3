use mirror_server::behaviour::{NetworkBehaviour, SyncDirection, SyncMode, SyncValue};
use mirror_server::connection::{NetworkConnectionToClient, SendError};
use mirror_server::network_messages::TransportChannel;
use mirror_server::snapshot::{Snapshot, SnapshotSettings};
use mirror_server::writer::{Vector3Bits, Vector4Bits};

fn settings() -> SnapshotSettings {
    SnapshotSettings {
        buffer_limit: 64,
        catchup_speed_ppm: 20_000,
        slowdown_speed_ppm: 40_000,
        catchup_negative_threshold_ppm: -1_000_000,
        catchup_positive_threshold_ppm: 1_000_000,
        dynamic_adjustment: true,
        dynamic_adjustment_tolerance_ppm: 1_000_000,
        drift_ema_window: 60,
        delivery_time_ema_window: 10,
    }
}

fn connection(id: u64) -> NetworkConnectionToClient {
    NetworkConnectionToClient::new(id, "127.0.0.1".to_string(), 1200, 300, settings(), 33_333, 2_000_000, 0)
}

#[test]
fn test_network_connection() {
    let mut c = connection(1);
    assert_eq!(c.send(&[1, 2, 3], TransportChannel::Reliable, 5, 100), Ok(()));
    assert_eq!(c.send(&[4], TransportChannel::Unreliable, 6, 100), Ok(()));
    assert_eq!(c.send(&[0; 101], TransportChannel::Reliable, 7, 100), Err(SendError::MessageTooLarge));
    let out = c.update();
    assert_eq!(out.len(), 2);
    assert_eq!(out[0].0, TransportChannel::Reliable);
    assert_eq!(out[0].1, vec![5, 0, 0, 0, 0, 0, 0, 0, 3, 1, 2, 3]);
    assert_eq!(out[1].0, TransportChannel::Unreliable);
    assert_eq!(out[1].1, vec![6, 0, 0, 0, 0, 0, 0, 0, 1, 4]);
    assert!(c.update().is_empty());
}

#[test]
fn network_connection_test_network_connection() {
    let mut c = connection(2);
    c.add_owned_object(10);
    c.add_owned_object(11);
    c.add_owned_object(10);
    c.remove_owned_object(10);
    assert_eq!(c.owned, vec![11]);
    c.add_to_observing(3);
    c.remove_from_observing(3);
    assert!(c.observing.is_empty());
    c.send(&[9], TransportChannel::Reliable, 1, 100).unwrap();
    c.disconnect();
    assert!(c.update().is_empty());
    let s = Snapshot {
        remote_time: 10,
        local_time: 10,
        position: Vector3Bits { x: 0, y: 0, z: 0 },
        rotation: Vector4Bits { x: 0, y: 0, z: 0, w: 0 },
        scale: Vector3Bits { x: 0, y: 0, z: 0 },
    };
    assert!(c.update_time_interpolation(1000).is_none());
    assert!(c.on_time_snapshot(s));
    assert!(!c.on_time_snapshot(s));
    let (from, to, _) = c.update_time_interpolation(1000).unwrap();
    assert_eq!((from.remote_time, to.remote_time), (10, 10));
}

#[test]
fn test_network_behaviour_trait() {
    let mut b = NetworkBehaviour {
        component_index: 0,
        component_type: 3,
        sync_direction: SyncDirection::ServerToClient,
        sync_mode: SyncMode::Observers,
        sync_var_dirty_bits: 0,
        sync_vars: vec![SyncValue::Int(1), SyncValue::ULong(2)],
    };
    assert!(!b.is_dirty());
    b.set_sync_var(1, SyncValue::ULong(300));
    assert!(b.is_dirty());
    assert_eq!(b.sync_var_dirty_bits, 2);
    b.clear_all_dirty_bits();
    assert!(!b.is_dirty());
}
