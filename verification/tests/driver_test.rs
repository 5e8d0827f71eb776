use nessstretch::config::Q16;
use nessstretch::driver::{
    chunk_points, clamp_num_slices, config_for_rate, max_win_for_rate, num_chunks,
};

#[test]
fn slice_clamp_below_and_above_88k() {
    assert_eq!(clamp_num_slices(44100, 11), 9);
    assert_eq!(clamp_num_slices(48000, 10), 9);
    assert_eq!(clamp_num_slices(88200, 11), 10);
    assert_eq!(clamp_num_slices(96000, 15), 10);
    assert_eq!(clamp_num_slices(44100, 9), 9);
    assert_eq!(clamp_num_slices(44100, 1), 1);
}

#[test]
fn chunk_size_per_sample_rate() {
    assert_eq!(max_win_for_rate(44100), 65536);
    assert_eq!(max_win_for_rate(48000), 65536);
    assert_eq!(max_win_for_rate(88200), 131072);
    assert_eq!(max_win_for_rate(96000), 131072);
    assert_eq!(max_win_for_rate(192000), 262144);
}

#[test]
fn chunk_count_rounds_the_stretch_up() {
    // one second at 44.1 kHz stretched fourfold: 2.69 chunks, so 3
    assert_eq!(num_chunks(44100, 65536, 4 * Q16, 0), 3);
    // three seconds stretched twofold
    assert_eq!(num_chunks(132300, 65536, 2 * Q16, 0), 5);
    assert_eq!(num_chunks(0, 65536, 4 * Q16, 0), 0);
}

#[test]
fn chunk_count_cap_overrides_the_formula() {
    assert_eq!(num_chunks(44100, 65536, 4 * Q16, 7), 7);
    assert_eq!(num_chunks(0, 65536, Q16, 2), 2);
}

#[test]
fn unit_duration_rounds_input_to_chunk_boundary() {
    assert_eq!(num_chunks(65536, 65536, Q16, 0), 1);
    assert_eq!(num_chunks(65537, 65536, Q16, 0), 2);
    let n = num_chunks(44100, 65536, Q16, 0);
    assert_eq!(n, 1);
    let out_len = n * 65536;
    assert!(out_len >= 44100 && out_len < 44100 + 65536);
}

#[test]
fn chunk_origins_scale_down_by_duration() {
    assert_eq!(chunk_points(4, 65536, 2 * Q16), vec![0, 32768, 65536, 98304]);
    // a duration of 3 rounds to the nearest sample
    assert_eq!(chunk_points(4, 65536, 3 * Q16), vec![0, 21845, 43691, 65536]);
    // a fractional duration of 2.5
    assert_eq!(chunk_points(4, 65536, 163840), vec![0, 26214, 52429, 78643]);
}

#[test]
fn run_config_clamps_slices_and_sizes_chunks() {
    let cfg = config_for_rate(2 * Q16, 88200, 11, 2, 1, 2, 1);
    assert_eq!(cfg.max_win_size, 131072);
    assert_eq!(cfg.num_slices, 10);
    assert_eq!(cfg.loops, 4);
    // the largest active band's window fits in the chunk
    assert!(cfg.win_lens[cfg.num_slices - 1] <= cfg.max_win_size);

    let low = config_for_rate(4 * Q16, 44100, 10, 1, 0, 0, 1);
    assert_eq!(low.max_win_size, 65536);
    assert_eq!(low.num_slices, 9);
    assert!(low.win_lens[low.num_slices - 1] <= low.max_win_size);
}
