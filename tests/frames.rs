use rover::frame::{encode_scan, first_fix, ImageFrame, PositionFrame, ScanPoint, Sentence};

fn point(angle: f32, distance_mm: f32) -> ScanPoint {
    ScanPoint { angle_bits: angle.to_bits(), distance_bits: distance_mm.to_bits() }
}

fn raw_scan(raw: &[(f32, f32)]) -> Vec<ScanPoint> {
    raw.iter().map(|&(a, d)| point(a, d * 1000.0)).collect()
}

#[test]
fn scan_drops_points_without_positive_distance() {
    let reading = vec![
        point(1.0, 0.0),
        point(2.0, -0.0),
        point(3.0, -7.5),
        point(4.0, f32::NAN),
        point(5.0, 12.5),
        point(6.0, f32::INFINITY),
        point(7.0, f32::MIN_POSITIVE),
    ];
    let frame = encode_scan(&reading);
    let kept: Vec<(f32, f32)> = frame
        .points()
        .iter()
        .map(|p| (f32::from_bits(p.angle_bits), f32::from_bits(p.distance_bits)))
        .collect();
    assert_eq!(kept, vec![(5.0, 12.5), (6.0, f32::INFINITY), (7.0, f32::MIN_POSITIVE)]);
    for p in frame.points() {
        assert!(f32::from_bits(p.distance_bits) > 0.0);
    }
}

#[test]
fn scan_keeps_reported_order() {
    let reading = vec![point(30.0, 1.0), point(10.0, 2.0), point(20.0, 3.0)];
    let frame = encode_scan(&reading);
    assert_eq!(frame.points(), &reading);
    assert_eq!(frame.len(), 3);
}

#[test]
fn empty_scan_is_a_bare_count() {
    let frame = encode_scan(&Vec::new());
    assert_eq!(frame.len(), 0);
    assert_eq!(frame.wire_bytes(), vec![0, 0, 0, 0]);
}

#[test]
fn scan_wire_size_is_four_plus_eight_per_point() {
    for n in [0usize, 1, 2, 5, 300] {
        let reading: Vec<ScanPoint> = (0..n).map(|i| point(i as f32, 1.0 + i as f32)).collect();
        let frame = encode_scan(&reading);
        assert_eq!(frame.wire_bytes().len(), 4 + n * 8);
    }
}

#[test]
fn scan_end_to_end() {
    let reading = raw_scan(&[(10.0, 0.0), (20.0, 500.0), (30.0, -5.0)]);
    let frame = encode_scan(&reading);
    assert_eq!(frame.len(), 1);
    let p = frame.points()[0];
    assert_eq!(f32::from_bits(p.angle_bits), 20.0);
    assert_eq!(f32::from_bits(p.distance_bits), 500000.0);
    let bytes = frame.wire_bytes();
    assert_eq!(bytes.len(), 12);
    assert_eq!(&bytes[0..4], &[1, 0, 0, 0]);
    assert_eq!(&bytes[4..8], &[0x00, 0x00, 0xA0, 0x41]);
    assert_eq!(u32::from_le_bytes([bytes[0], bytes[1], bytes[2], bytes[3]]), 1);
    assert_eq!(f32::from_le_bytes([bytes[4], bytes[5], bytes[6], bytes[7]]), 20.0);
    assert_eq!(f32::from_le_bytes([bytes[8], bytes[9], bytes[10], bytes[11]]), 500000.0);
}

#[test]
fn scan_wire_bytes_are_little_endian() {
    let reading = vec![
        ScanPoint { angle_bits: 0x0403_0201, distance_bits: 0x0807_0605 },
        ScanPoint { angle_bits: 0x0C0B_0A09, distance_bits: 0x100F_0E0D },
    ];
    let bytes = encode_scan(&reading).wire_bytes();
    assert_eq!(bytes, vec![2, 0, 0, 0, 1, 2, 3, 4, 5, 6, 7, 8, 9, 10, 11, 12, 13, 14, 15, 16]);
}

#[test]
fn image_wire_is_u64_length_then_payload() {
    let frame = ImageFrame { payload: vec![0xFF, 0xD8, 0xFF] };
    assert_eq!(frame.wire_bytes(), vec![3, 0, 0, 0, 0, 0, 0, 0, 0xFF, 0xD8, 0xFF]);
    let long = ImageFrame { payload: vec![7; 0x0102] };
    let bytes = long.wire_bytes();
    assert_eq!(&bytes[0..8], &[0x02, 0x01, 0, 0, 0, 0, 0, 0]);
    assert_eq!(bytes.len(), 8 + 0x0102);
}

#[test]
fn empty_image_is_a_bare_length() {
    let frame = ImageFrame { payload: Vec::new() };
    assert_eq!(frame.wire_bytes(), vec![0; 8]);
}

#[test]
fn position_wire_is_latitude_then_longitude() {
    let frame = PositionFrame {
        latitude_bits: 47.5f32.to_bits(),
        longitude_bits: (-122.25f32).to_bits(),
    };
    let bytes = frame.wire_bytes();
    assert_eq!(bytes.len(), 8);
    assert_eq!(&bytes[0..4], &47.5f32.to_le_bytes());
    assert_eq!(&bytes[4..8], &(-122.25f32).to_le_bytes());
}

#[test]
fn first_fix_takes_the_first_fix_record() {
    let a = PositionFrame { latitude_bits: 1, longitude_bits: 2 };
    let b = PositionFrame { latitude_bits: 3, longitude_bits: 4 };
    let line = vec![Sentence::Other, Sentence::Fix(a), Sentence::Fix(b)];
    assert_eq!(first_fix(&line), Some(a));
}

#[test]
fn no_fix_record_gives_no_frame() {
    assert_eq!(first_fix(&vec![Sentence::Other, Sentence::Other]), None);
    assert_eq!(first_fix(&Vec::new()), None);
}
