//! Tests of the compositor and the plain-text pixmap export, including
//! the parse-back round trip with its channel reordering.

use fire_effect::compose::composite;
use fire_effect::heat::HeatField;
use fire_effect::palette::generate_palette;
use fire_effect::ppm::ppm_bytes;

#[test]
fn compositor_looks_every_cell_up_in_the_palette() {
    let mut field = HeatField::new(4, 4);
    let seeds: Vec<u64> = vec![100; 4];
    field.reseed_bottom_row_with(&seeds);
    field.diffuse();
    // a palette of distinct markers: entry i holds 3*i + 5
    let palette: Vec<u32> = (0..256u32).map(|i| 3 * i + 5).collect();
    let mut frame: Vec<u32> = Vec::new();
    composite(&field, &palette, &mut frame);
    assert_eq!(frame.len(), 16);
    for y in 0..4 {
        for x in 0..4 {
            let heat = field.cell_at(y, x) as u32;
            assert_eq!(frame[y * 4 + x], 3 * heat + 5);
        }
    }
}

#[test]
fn compositor_overwrites_previous_contents() {
    let field = HeatField::new(2, 2);
    let palette: Vec<u32> = (0..256u32).collect();
    let mut frame: Vec<u32> = vec![9999; 50];
    composite(&field, &palette, &mut frame);
    assert_eq!(frame.len(), 4);
    assert!(frame.iter().all(|&px| px == 0));
}

#[test]
fn export_header_lists_dimensions_and_channel_maximum() {
    let frame: Vec<u32> = Vec::new();
    let bytes = ppm_bytes(&frame, 128, 56);
    let text = String::from_utf8(bytes).expect("ASCII output");
    let mut lines = text.lines();
    let magic = lines.next().unwrap();
    assert_eq!(magic.as_bytes(), [80, 51]);
    assert_eq!(lines.next().unwrap(), "128 56");
    assert_eq!(lines.next().unwrap(), "255");
    assert!(lines.next().is_none());
}

#[test]
fn export_reorders_packed_bytes_to_red_green_blue_text() {
    let frame: Vec<u32> = vec![0x0011_2233, 0x00FF_EEDD, 0, 0x0000_00FF];
    let bytes = ppm_bytes(&frame, 4, 1);
    let text = String::from_utf8(bytes).expect("ASCII output");
    let lines: Vec<&str> = text.lines().collect();
    assert_eq!(lines.len(), 3 + 4);
    assert_eq!(lines[3], "17 34 51");
    assert_eq!(lines[4], "255 238 221");
    assert_eq!(lines[5], "0 0 0");
    assert_eq!(lines[6], "0 0 255");
}

#[test]
fn export_parses_back_to_the_frame_channels() {
    let mut field = HeatField::new(8, 8);
    let seeds: Vec<u64> = (0..8u64).map(|x| 97 * x + 13).collect();
    field.reseed_bottom_row_with(&seeds);
    field.diffuse();
    let palette = generate_palette(60);
    let mut frame: Vec<u32> = Vec::new();
    composite(&field, &palette, &mut frame);
    let bytes = ppm_bytes(&frame, 8, 8);
    let text = String::from_utf8(bytes).expect("ASCII output");
    let lines: Vec<&str> = text.lines().collect();
    assert_eq!(lines.len(), 3 + 64);
    for (k, px) in frame.iter().enumerate() {
        let fields: Vec<u32> = lines[3 + k]
            .split_whitespace()
            .map(|f| f.parse().unwrap())
            .collect();
        assert_eq!(fields.len(), 3);
        assert_eq!(fields[0], (px >> 16) & 255, "red re-read from text");
        assert_eq!(fields[1], (px >> 8) & 255, "green re-read from text");
        assert_eq!(fields[2], px & 255, "blue re-read from text");
    }
}
