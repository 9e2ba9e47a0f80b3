use mirror_server::ema::{isqrt, ExponentialMovingAverage};
use mirror_server::snapshot::{
    add_snapshot, dynamic_adjustment, insert_if_not_exists, sample, step_interpolation, step_time, timescale, Snapshot,
    SnapshotInterpolation, SnapshotSettings,
};
use mirror_server::writer::{Vector3Bits, Vector4Bits};

fn snap(remote: i64, local: i64) -> Snapshot {
    Snapshot {
        remote_time: remote,
        local_time: local,
        position: Vector3Bits { x: 0, y: 0, z: 0 },
        rotation: Vector4Bits { x: 0, y: 0, z: 0, w: 0 },
        scale: Vector3Bits { x: 0, y: 0, z: 0 },
    }
}

fn settings(limit: usize) -> SnapshotSettings {
    SnapshotSettings {
        buffer_limit: limit,
        catchup_speed_ppm: 20_000,
        slowdown_speed_ppm: 40_000,
        catchup_negative_threshold_ppm: -1_000_000,
        catchup_positive_threshold_ppm: 1_000_000,
        dynamic_adjustment: true,
        dynamic_adjustment_tolerance_ppm: 1_000_000,
        drift_ema_window: 60,
        delivery_time_ema_window: 10,
    }
}

#[test]
fn buffer_limit_rejects_sixty_fifth_sample() {
    let mut s = SnapshotInterpolation::new(settings(64), 33_333, 2_000_000, 0);
    for i in 0..64 {
        assert!(s.on_time_snapshot(snap(1000 * (i + 1), 1000 * (i + 1))));
    }
    assert_eq!(s.len(), 64);
    assert!(!s.on_time_snapshot(snap(1_000_000, 1_000_000)));
    assert_eq!(s.len(), 64);
}

#[test]
fn duplicate_remote_time_is_dropped() {
    let mut buf: Vec<Snapshot> = Vec::new();
    assert!(insert_if_not_exists(&mut buf, 10, snap(5, 1)));
    assert!(!insert_if_not_exists(&mut buf, 10, snap(5, 2)));
    assert_eq!(buf.len(), 1);
    assert_eq!(buf[0].local_time, 1);
}

#[test]
fn out_of_order_arrival_still_steps_forward() {
    let mut buf: Vec<Snapshot> = Vec::new();
    for t in [30, 10, 50, 20, 40] {
        assert!(insert_if_not_exists(&mut buf, 64, snap(t, t)));
    }
    let times: Vec<i64> = buf.iter().map(|s| s.remote_time).collect();
    assert_eq!(times, vec![10, 20, 30, 40, 50]);
    let mut last_to = i64::MIN;
    for timeline in [5, 10, 15, 25, 25, 38, 49, 60, 70] {
        let (_, to, t) = step_interpolation(&mut buf, timeline);
        assert!(to.remote_time >= last_to);
        assert!(t <= 1_000_000);
        last_to = to.remote_time;
    }
    assert_eq!(buf.len(), 1);
}

#[test]
fn sample_brackets_and_interpolates() {
    let buf = vec![snap(100, 0), snap(200, 0), snap(300, 0)];
    assert_eq!(sample(&buf, 150), (0, 1, 500_000));
    assert_eq!(sample(&buf, 275), (1, 2, 750_000));
    assert_eq!(sample(&buf, 50), (0, 0, 0));
    assert_eq!(sample(&buf, 400), (2, 2, 0));
    let one = vec![snap(100, 0)];
    assert_eq!(sample(&one, 100), (0, 0, 0));
}

#[test]
fn step_drops_older_samples() {
    let mut buf = vec![snap(100, 0), snap(200, 0), snap(300, 0), snap(400, 0)];
    let (from, to, t) = step_interpolation(&mut buf, 250);
    assert_eq!((from.remote_time, to.remote_time, t), (200, 300, 500_000));
    assert_eq!(buf.len(), 3);
    assert_eq!(buf[0].remote_time, 200);
}

#[test]
fn timescale_speeds_up_and_slows_down() {
    assert_eq!(timescale(50_000, 10_000, 20_000, 40_000, -1_000_000, 1_000_000), 1_020_000);
    assert_eq!(timescale(-50_000, 10_000, 20_000, 40_000, -1_000_000, 1_000_000), 960_000);
    assert_eq!(timescale(5_000, 10_000, 20_000, 40_000, -1_000_000, 1_000_000), 1_000_000);
    assert_eq!(timescale(10_000, 10_000, 20_000, 40_000, -1_000_000, 1_000_000), 1_000_000);
}

#[test]
fn step_time_scales_delta() {
    let mut tl: i64 = 1000;
    step_time(500, &mut tl, 1_020_000);
    assert_eq!(tl, 1510);
    step_time(1000, &mut tl, 500_000);
    assert_eq!(tl, 2010);
    let mut top: i64 = i64::MAX - 1;
    step_time(1000, &mut top, 1_000_000);
    assert_eq!(top, i64::MAX);
}

#[test]
fn dynamic_adjustment_grows_with_jitter() {
    assert_eq!(dynamic_adjustment(33_000, 0, 1_000_000), 2_000_000);
    assert_eq!(dynamic_adjustment(33_000, 33_000, 1_000_000), 3_000_000);
    assert_eq!(dynamic_adjustment(10_000, 2_500, 500_000), 1_750_000);
}

#[test]
fn moving_average_follows_samples() {
    let mut e = ExponentialMovingAverage::new(3);
    e.add(100);
    assert_eq!(e.value, 100);
    assert_eq!(e.variance, 0);
    e.add(200);
    assert_eq!(e.value, 150);
    assert_eq!(e.variance, 2500);
    assert_eq!(e.standard_deviation, 50);
    e.add(50);
    assert_eq!(e.value, 100);
    assert_eq!(isqrt(0), 0);
    assert_eq!(isqrt(99), 9);
    assert_eq!(isqrt(100), 10);
    assert_eq!(isqrt(u128::MAX), u64::MAX);
}

#[test]
fn first_sample_sets_timeline_behind_by_buffer_time() {
    let mut s = SnapshotInterpolation::new(settings(64), 10_000, 2_000_000, 0);
    assert_eq!(s.buffer_time, 20_000);
    assert!(s.on_time_snapshot(snap(1_000_000, 5)));
    assert_eq!(s.remote_timeline, 1_000_000 - s.buffer_time);
    let step = s.update_time_interpolation(10_000);
    assert!(step.is_some());
}

#[test]
fn missing_parts_come_from_the_newest_sample() {
    let current = Snapshot {
        remote_time: 0,
        local_time: 0,
        position: Vector3Bits { x: 1, y: 1, z: 1 },
        rotation: Vector4Bits { x: 2, y: 2, z: 2, w: 2 },
        scale: Vector3Bits { x: 3, y: 3, z: 3 },
    };
    let mut buf: Vec<Snapshot> = Vec::new();
    assert!(add_snapshot(&mut buf, 8, 100, 5, None, None, None, current));
    assert_eq!(buf[0].position, current.position);
    let moved = Vector3Bits { x: 9, y: 9, z: 9 };
    assert!(add_snapshot(&mut buf, 8, 200, 6, Some(moved), None, None, current));
    assert!(add_snapshot(&mut buf, 8, 300, 7, None, None, None, current));
    assert_eq!(buf[2].position, moved);
    assert_eq!(buf[2].rotation, current.rotation);
    assert!(!add_snapshot(&mut buf, 8, 300, 8, None, None, None, current));
    assert_eq!(buf.len(), 3);
}
