use photomosaic::utils::buffer_utils::{
    compute_texture_work_group_count, dispatch_count, get_padded_buffer_size,
    pixel_score_entries, readback_layout, remove_row_padding,
};
use photomosaic::utils::math_utils::random_point_2d;
use rand::rngs::StdRng;
use rand::SeedableRng;

#[test]
fn padded_buffer_sizes() {
    assert_eq!(get_padded_buffer_size::<f32>(0), 4);
    assert_eq!(get_padded_buffer_size::<f32>(1), 4);
    assert_eq!(get_padded_buffer_size::<f32>(3), 12);
    assert_eq!(get_padded_buffer_size::<u8>(5), 8);
    assert_eq!(get_padded_buffer_size::<u8>(8), 8);
    assert_eq!(get_padded_buffer_size::<[u8; 24]>(1), 24);
    assert_eq!(get_padded_buffer_size::<[u8; 28]>(1), 28);
    assert_eq!(get_padded_buffer_size::<[u8; 6]>(3), 20);
}

#[test]
fn texture_work_group_counts() {
    assert_eq!(compute_texture_work_group_count((33, 16), (16, 16)), (3, 1));
    assert_eq!(compute_texture_work_group_count((0, 0), (8, 8)), (0, 0));
    assert_eq!(compute_texture_work_group_count((1, 17), (16, 16)), (1, 2));
}

#[test]
fn dispatch_counts() {
    assert_eq!(dispatch_count(17, 4), 5);
    assert_eq!(dispatch_count(16, 16), 1);
    assert_eq!(dispatch_count(0, 16), 0);
    assert_eq!(dispatch_count(500, 4), 125);
}

#[test]
fn pixel_score_buffer_entries() {
    assert_eq!(pixel_score_entries(5, 10, 2), 40);
    assert_eq!(pixel_score_entries(500, 100, 50), 625_000);
    assert_eq!(pixel_score_entries(0, 10, 10), 0);
}

#[test]
fn readback_layouts() {
    let l = readback_layout(10, 2);
    assert_eq!(l.unpadded_bytes_per_row, 40);
    assert_eq!(l.padded_bytes_per_row, 256);
    assert_eq!(l.buffer_size, 512);
    let l = readback_layout(64, 3);
    assert_eq!(l.padded_bytes_per_row, 256);
    assert_eq!(l.buffer_size, 768);
    let l = readback_layout(65, 1);
    assert_eq!(l.padded_bytes_per_row, 512);
}

#[test]
fn row_padding_removed() {
    let l = readback_layout(1, 2);
    assert_eq!(l.unpadded_bytes_per_row, 4);
    let mut data = vec![0u8; l.buffer_size as usize];
    for i in 0..4 {
        data[i] = i as u8 + 1;
        data[256 + i] = i as u8 + 11;
    }
    data[4] = 99;
    let pixels = remove_row_padding(&data, 1, 2, &l);
    assert_eq!(pixels, vec![1, 2, 3, 4, 11, 12, 13, 14]);
}

#[test]
fn row_padding_short_last_row() {
    let l = photomosaic::utils::buffer_utils::ReadbackLayout {
        unpadded_bytes_per_row: 2,
        padded_bytes_per_row: 3,
        buffer_size: 8,
    };
    let data = vec![1u8, 2, 3, 4, 5, 6, 7, 8];
    assert_eq!(remove_row_padding(&data, 1, 1, &l), vec![1, 2, 4, 5, 7, 8]);
    assert_eq!(remove_row_padding(&[], 1, 1, &l), Vec::<u8>::new());
}

#[test]
fn random_points_stay_on_plane() {
    let mut rng = StdRng::seed_from_u64(7);
    let mut below = false;
    for _ in 0..200 {
        let (x, y) = random_point_2d((10, 3), &mut rng);
        assert!(x <= 10 && y <= 3);
        below |= x < 10 && y < 3;
    }
    assert!(below);
    assert_eq!(random_point_2d((0, 0), &mut rng), (0, 0));
}
