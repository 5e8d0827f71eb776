use nessstretch::config::{NessStruct, Q16};
use nessstretch::frames::{band_frame_plan, out_points, stretch_points, tail_slice_start};

#[test]
fn read_positions_slide_by_the_hop() {
    // window 256 in a 1024-sample chunk, duration 2: hop is 64 samples,
    // frames are centred 384 samples in
    let pts = stretch_points(0, 4194304, 256, 1024);
    assert_eq!(pts, vec![384, 448, 512, 576, 640, 704, 768, 832]);
}

#[test]
fn read_positions_stay_inside_the_chunk() {
    // duration 1: the hop is a full half-window
    let pts = stretch_points(0, 128 * 65536, 256, 1024);
    assert_eq!(pts.len(), 8);
    for &p in pts.iter() {
        assert!(p + 256 <= 2 * 1024);
    }
    assert_eq!(pts[0], 384);
    assert_eq!(pts[7], 384 + 7 * 128);
}

#[test]
fn read_positions_respect_the_chunk_origin() {
    let pts = stretch_points(1000, 4194304, 256, 1024);
    assert_eq!(pts[0], 1384);
    assert_eq!(pts[5], 1384 + 5 * 64);
}

#[test]
fn write_positions_step_by_half_windows() {
    let pts = out_points(8, 128);
    assert_eq!(pts, vec![0, 128, 256, 384, 512, 640, 768, 896]);
    for &p in pts.iter() {
        assert!(p + 128 <= 8 * 128);
    }
}

#[test]
fn frame_plan_of_the_top_band_at_duration_two() {
    let cfg = NessStruct::new(2 * Q16, 65536, 1, 2, 9, 1, 2, 1);
    let (reads, writes) = band_frame_plan(&cfg, 0);
    // band 0: window 256, hop 64 samples, 512 frames centred 32640 in
    assert_eq!(reads.len(), 512);
    assert_eq!(writes.len(), 512);
    assert_eq!(reads[0], 32640);
    assert_eq!(reads[1], 32704);
    assert_eq!(writes[0], 0);
    assert_eq!(writes[1], 128);
    assert_eq!(writes[511], 511 * 128);
}

#[test]
fn frame_plans_stay_in_range_for_every_band() {
    let cfg = NessStruct::new(3 * Q16, 65536, 1, 2, 9, 1, 2, 1);
    for b in 0..9 {
        let (reads, writes) = band_frame_plan(&cfg, b);
        let w = cfg.win_lens[b];
        assert_eq!(reads.len(), 65536 / (w / 2));
        for &p in reads.iter() {
            assert!(p + w <= 2 * 65536);
        }
        for &o in writes.iter() {
            assert!(o + w / 2 <= 65536);
        }
    }
}

#[test]
fn tail_slices_pack_two_windows_per_channel() {
    assert_eq!(tail_slice_start(0, 256, 0), 0);
    assert_eq!(tail_slice_start(0, 256, 3), 384);
    assert_eq!(tail_slice_start(1, 256, 0), 512);
    assert_eq!(tail_slice_start(1, 256, 2), 768);
    // consecutive slices never overlap
    assert!(tail_slice_start(0, 256, 3) + 128 <= tail_slice_start(1, 256, 0));
}
