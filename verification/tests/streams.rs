//! Streams and coordinates.

use wayland_agent::coord::Coord;
use wayland_agent::stream::{
    list_streams, node_ids, open_streams, resolve_global, store_frame_sizes,
    stream_at, Scale, StreamInfo,
};

fn coord(x: f64) -> Coord {
    Coord {
        bits: x.to_bits(),
        floor: if x.is_nan() { None } else { Some(x.floor() as i64) },
        text: format!("{x}"),
        rounded: format!("{x:.0}"),
    }
}

fn monitor(node_id: u32, position: (i32, i32), size: (i32, i32)) -> StreamInfo {
    StreamInfo { node_id, position: Some(position), size: Some(size), frame_size: None }
}

#[test]
fn coordinates_are_compared_with_whole_numbers() {
    for x in [
        0.0, -0.0, 0.5, -0.5, 1.0, -1.0, 1.9, -1.9, 2147483647.0, 2147483648.5, -2147483648.9,
        1e30, -1e30, f64::NAN, f64::INFINITY, f64::NEG_INFINITY,
    ] {
        assert_eq!(coord(x).below_zero(), x < 0.0, "{x}");
        for n in [-1i64, 0, 1, 2, 2147483647] {
            assert_eq!(coord(x).at_least(n), x >= n as f64, "{x} {n}");
        }
    }
}

#[test]
fn streams_contain_their_points() {
    let s = monitor(1, (-10, 5), (20, 10));
    assert!(s.contains(&coord(-10.0), &coord(5.0)));
    assert!(s.contains(&coord(9.9), &coord(14.9)));
    assert!(!s.contains(&coord(10.0), &coord(5.0)));
    assert!(!s.contains(&coord(0.0), &coord(15.0)));
    assert!(!s.contains(&coord(-11.0), &coord(5.0)));
    let window = StreamInfo { node_id: 2, position: None, size: Some((5, 5)), frame_size: None };
    assert!(!window.contains(&coord(1.0), &coord(1.0)));
}

#[test]
fn fractions_below_zero_lie_left_of_zero() {
    let right = monitor(1, (0, 0), (100, 100));
    let left = monitor(2, (-100, 0), (100, 100));
    assert!(!right.contains(&coord(-0.5), &coord(10.0)));
    assert!(left.contains(&coord(-0.5), &coord(10.0)));
    assert!(right.contains(&coord(-0.0), &coord(10.0)));
    assert!(!left.contains(&coord(-0.0), &coord(10.0)));
    assert!(!left.contains(&coord(-100.5), &coord(10.0)));
    assert!(!right.contains(&coord(10.0), &coord(-0.25)));
    assert!(monitor(3, (0, -50), (100, 50)).contains(&coord(10.0), &coord(-0.25)));
    let streams = vec![right, left];
    assert_eq!(stream_at(&streams, &coord(-0.5), &coord(10.0)), Some(1));
    assert_eq!(
        resolve_global(&streams, &coord(-0.5), &coord(10.0)).unwrap().stream.node_id,
        2
    );
}

#[test]
fn what_is_not_a_number_lies_nowhere() {
    let s = monitor(1, (-10, -10), (20, 20));
    assert!(!s.contains(&coord(f64::NAN), &coord(0.0)));
    assert!(!s.contains(&coord(0.0), &coord(f64::NAN)));
    assert!(!s.contains(&coord(f64::INFINITY), &coord(0.0)));
    assert!(!s.contains(&coord(0.0), &coord(f64::NEG_INFINITY)));
    assert_eq!(
        resolve_global(&vec![s], &coord(f64::NAN), &coord(0.0)).unwrap_err(),
        "no stream covers global point (NaN, 0)"
    );
}

#[test]
fn screenshot_pixels_are_pointer_coordinates() {
    let mut s = monitor(1, (0, 0), (100, 100));
    s.frame_size = Some((200, 200));
    let (x, y) = s.screenshot_to_input(coord(150.5), coord(3.0));
    assert_eq!(f64::from_bits(x.bits), 150.5);
    assert_eq!(f64::from_bits(y.bits), 3.0);
}

#[test]
fn logical_points_are_scaled_by_the_frame() {
    let mut s = monitor(1, (0, 0), (100, 50));
    assert_eq!(s.logical_local_to_frame(), Scale::Same);
    s.frame_size = Some((150, 75));
    assert_eq!(
        s.logical_local_to_frame(),
        Scale::By { frame: (150, 75), size: (100, 50) }
    );
    s.size = Some((0, 50));
    assert_eq!(s.logical_local_to_frame(), Scale::Same);
    s.size = None;
    assert_eq!(s.logical_local_to_frame(), Scale::Same);
}

#[test]
fn only_the_logical_size_is_reachable() {
    let mut s = monitor(1, (0, 0), (100, 50));
    assert_eq!(s.check_reachable(&coord(99.9), &coord(49.9)), Ok(()));
    assert_eq!(
        s.check_reachable(&coord(100.0), &coord(0.4)).unwrap_err(),
        "point (100, 0) is outside this monitor's reachable pointer range 0..100 x 0..50. GNOME/mutter validates remote-desktop coordinates against the monitor's LOGICAL size, so on a fractional/HiDPI monitor the right/bottom margin of a physical-resolution screenshot (?) can't be clicked."
    );
    s.frame_size = Some((200, 100));
    let e = s.check_reachable(&coord(-0.1), &coord(0.0)).unwrap_err();
    assert!(e.contains("point (-0, 0)") && e.contains("(200x100)"), "{e}");
    assert!(s.check_reachable(&coord(0.0), &coord(50.0)).is_err());
    assert!(s.check_reachable(&coord(0.0), &coord(-1.0)).is_err());
    assert!(s.check_reachable(&coord(f64::NAN), &coord(0.0)).is_err());
    s.size = None;
    assert_eq!(s.check_reachable(&coord(-5.0), &coord(1e9)), Ok(()));
}

#[test]
fn the_first_covering_stream_is_found() {
    let streams = vec![
        monitor(7, (0, 0), (100, 100)),
        monitor(8, (50, 0), (100, 100)),
        monitor(9, (200, 0), (10, 10)),
    ];
    assert_eq!(stream_at(&streams, &coord(60.0), &coord(1.0)), Some(0));
    assert_eq!(stream_at(&streams, &coord(120.0), &coord(1.0)), Some(1));
    assert_eq!(stream_at(&streams, &coord(205.0), &coord(9.0)), Some(2));
    assert_eq!(stream_at(&streams, &coord(205.0), &coord(10.0)), None);
}

#[test]
fn global_points_are_aimed_at() {
    let mut right = monitor(8, (100, 0), (100, 100));
    right.frame_size = Some((200, 200));
    let streams = vec![monitor(7, (0, 0), (100, 100)), right];
    let aim = resolve_global(&streams, &coord(150.0), &coord(20.0)).unwrap();
    assert_eq!(aim.stream.node_id, 8);
    assert_eq!(aim.origin, (100, 0));
    assert_eq!(aim.scale, Scale::By { frame: (200, 200), size: (100, 100) });
    assert_eq!(
        resolve_global(&streams, &coord(-1.5), &coord(20.0)).unwrap_err(),
        "no stream covers global point (-1.5, 20)"
    );
}

#[test]
fn far_edges_may_lie_far() {
    let far = monitor(7, (i32::MAX - 1, 0), (10, i32::MAX));
    assert!(!far.contains(&coord(0.0), &coord(0.0)));
    assert!(far.contains(&coord(2147483655.5), &coord(2147483646.0)));
    assert!(!far.contains(&coord(2147483656.0), &coord(0.0)));
    assert_eq!(stream_at(&vec![far], &coord(3e9), &coord(0.0)), None);
}

#[test]
fn streams_are_opened_and_noted() {
    assert_eq!(
        open_streams(&vec![]).unwrap_err(),
        "portal returned no streams — screencast consent denied or no monitor picked"
    );
    let mut streams =
        open_streams(&vec![(5, Some((0, 0)), Some((10, 20))), (6, None, None)]).unwrap();
    assert_eq!(streams[0], monitor(5, (0, 0), (10, 20)));
    assert_eq!(node_ids(&streams), vec![5, 6]);
    store_frame_sizes(&mut streams, &vec![(20, 40)]);
    assert_eq!(streams[0].frame_size, Some((20, 40)));
    assert_eq!(streams[1].frame_size, None);
    assert_eq!(streams[0].position, Some((0, 0)));
    store_frame_sizes(&mut streams, &vec![(1, 1), (2, 2), (3, 3)]);
    assert_eq!(streams[1].frame_size, Some((2, 2)));
    assert_eq!(streams.len(), 2);
}

#[test]
fn streams_are_listed() {
    assert_eq!(list_streams(&vec![]), "no streams");
    let streams = vec![
        monitor(42, (-1, 2), (1920, 1080)),
        StreamInfo { node_id: 43, position: None, size: None, frame_size: Some((1, 1)) },
    ];
    assert_eq!(
        list_streams(&streams),
        "idx\tnode\tpos\tsize\n0\t42\t-1,2\t1920x1080\n1\t43\t?\t?"
    );
}
