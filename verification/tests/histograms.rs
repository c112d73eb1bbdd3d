use image_utils::buffer::PixelBuffer;
use image_utils::histogram::compute_histograms;

fn buffer(width: u32, height: u32, channels: u32, data: Vec<u8>) -> PixelBuffer {
    PixelBuffer::new(width, height, channels, data).unwrap()
}

#[test]
fn two_by_two_pure_red() {
    let pixel = [255u8, 0, 0, 0];
    let mut data = Vec::new();
    for _ in 0..4 {
        data.extend_from_slice(&pixel);
    }
    let buf = buffer(2, 2, 4, data);
    let tables = compute_histograms(&buf);
    assert_eq!(tables.len(), 4);
    for v in 0..256 {
        assert_eq!(tables[0][v], if v == 255 { 4 } else { 0 });
    }
    for c in 1..4 {
        for v in 0..256 {
            assert_eq!(tables[c][v], if v == 0 { 4 } else { 0 });
        }
    }
}

#[test]
fn single_pixel_rgba() {
    let buf = buffer(1, 1, 4, vec![10, 20, 30, 255]);
    let tables = compute_histograms(&buf);
    assert_eq!(tables.len(), 4);
    let expected = [10usize, 20, 30, 255];
    for c in 0..4 {
        for v in 0..256 {
            assert_eq!(tables[c][v], if v == expected[c] { 1 } else { 0 });
        }
    }
}

#[test]
fn channel_count_matches() {
    for channels in 1..=4u32 {
        let data = vec![0u8; (3 * 2 * channels) as usize];
        let buf = buffer(3, 2, channels, data);
        let tables = compute_histograms(&buf);
        assert_eq!(tables.len(), channels as usize);
        for table in &tables {
            assert_eq!(table.len(), 256);
        }
    }
}

#[test]
fn tables_sum_to_pixel_count() {
    let data = vec![
        0u8, 1, 2, 3, 200, 100, 50, 25, 255, 255, 0, 0, 9, 9, 9, 9, 1, 2, 3, 4, 77, 78, 79, 80,
    ];
    let buf = buffer(3, 2, 4, data);
    let tables = compute_histograms(&buf);
    for table in &tables {
        let sum: u64 = table.iter().map(|&x| x as u64).sum();
        assert_eq!(sum, 6);
    }
}

#[test]
fn entries_bounded_by_pixel_count() {
    let data = vec![42u8; 5 * 3 * 2];
    let buf = buffer(5, 3, 2, data);
    let tables = compute_histograms(&buf);
    for table in &tables {
        for &count in table.iter() {
            assert!(count <= 15);
        }
    }
}

#[test]
fn repeated_runs_identical() {
    let data = vec![
        13u8, 14, 15, 13, 14, 15, 200, 201, 202, 0, 0, 0, 13, 14, 15, 255, 255, 255,
    ];
    let buf = buffer(2, 3, 3, data);
    let first = compute_histograms(&buf);
    let second = compute_histograms(&buf);
    assert_eq!(first, second);
}

#[test]
fn mixed_values_exact_counts() {
    let buf = buffer(4, 1, 1, vec![7, 7, 9, 7]);
    let tables = compute_histograms(&buf);
    assert_eq!(tables.len(), 1);
    assert_eq!(tables[0][7], 3);
    assert_eq!(tables[0][9], 1);
    for v in 0..256 {
        if v != 7 && v != 9 {
            assert_eq!(tables[0][v], 0);
        }
    }
}

#[test]
fn rejects_bad_channel_counts() {
    assert!(PixelBuffer::new(2, 2, 0, vec![]).is_none());
    assert!(PixelBuffer::new(2, 2, 5, vec![0; 20]).is_none());
}

#[test]
fn rejects_wrong_data_length() {
    assert!(PixelBuffer::new(2, 2, 4, vec![0; 15]).is_none());
    assert!(PixelBuffer::new(2, 2, 4, vec![0; 17]).is_none());
    assert!(PixelBuffer::new(2, 2, 4, vec![]).is_none());
}

#[test]
fn rejects_oversized_dimensions() {
    assert!(PixelBuffer::new(65536, 65536, 1, vec![]).is_none());
    assert!(PixelBuffer::new(u32::MAX, u32::MAX, 4, vec![]).is_none());
}

#[test]
fn accepts_empty_image() {
    let buf = buffer(0, 0, 4, vec![]);
    let tables = compute_histograms(&buf);
    assert_eq!(tables.len(), 4);
    for table in &tables {
        assert_eq!(table.len(), 256);
        assert!(table.iter().all(|&x| x == 0));
    }
}

#[test]
fn getters_report_dimensions() {
    let buf = buffer(3, 2, 2, vec![0; 12]);
    assert_eq!(buf.width(), 3);
    assert_eq!(buf.height(), 2);
    assert_eq!(buf.channels(), 2);
    assert_eq!(buf.pixel_count(), 6);
}
