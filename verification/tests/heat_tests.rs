//! Tests of the heat field: the seeded scenario with its exact expected
//! intensities, range preservation, determinism, and the uniformity of
//! random reseeding.

use fire_effect::heat::HeatField;

#[test]
fn seeded_step_matches_expected_intensities() {
    // all-zero 4x4 grid; the bottom row is seeded to 100 everywhere
    // (a draw of 100 reduced modulo 256 stays 100). One in-place sweep:
    //   row 0 reads the zero rows 1 and 2            -> 0
    //   row 1 reads zero row 2 and seeded row 3      -> (0+0+0+100)*32/129 = 24
    //   row 2 reads seeded row 3 and rewritten row 0 -> (300+0)*32/129   = 74
    //   row 3 reads rewritten rows 0 and 1           -> (0+0+0+24)*32/129 = 5
    let mut field = HeatField::new(4, 4);
    let seeds: Vec<u64> = vec![100; 4];
    field.reseed_bottom_row_with(&seeds);
    for x in 0..4 {
        assert_eq!(field.cell_at(3, x), 100);
        assert_eq!(field.cell_at(0, x), 0);
    }
    field.diffuse();
    for x in 0..4 {
        assert_eq!(field.cell_at(0, x), 0);
        assert_eq!(field.cell_at(1, x), 24);
        assert_eq!(field.cell_at(2, x), 74, "one row above the seeded row");
        assert_eq!(field.cell_at(3, x), 5);
    }
}

#[test]
fn seeds_are_reduced_modulo_256() {
    let mut field = HeatField::new(3, 2);
    let seeds: Vec<u64> = vec![300, 256, 33023];
    field.reseed_bottom_row_with(&seeds);
    assert_eq!(field.cell_at(1, 0), 44);
    assert_eq!(field.cell_at(1, 1), 0);
    assert_eq!(field.cell_at(1, 2), 255);
    // the row above is untouched
    for x in 0..3 {
        assert_eq!(field.cell_at(0, x), 0);
    }
}

#[test]
fn diffusion_is_deterministic_on_equal_snapshots() {
    let mut a = HeatField::new(8, 8);
    let mut b = HeatField::new(8, 8);
    let seeds: Vec<u64> = (0..8u64).map(|x| x * 37 + 11).collect();
    a.reseed_bottom_row_with(&seeds);
    b.reseed_bottom_row_with(&seeds);
    a.diffuse();
    b.diffuse();
    for y in 0..8 {
        for x in 0..8 {
            assert_eq!(a.cell_at(y, x), b.cell_at(y, x));
        }
    }
}

#[test]
fn diffused_intensities_never_exceed_253() {
    // the kernel's maximum is (4*255*32)/129 == 253, and the sweep
    // rewrites every cell, the seeded bottom row included
    let mut field = HeatField::new(16, 16);
    let seeds: Vec<u64> = vec![255; 16];
    for _ in 0..5 {
        field.reseed_bottom_row_with(&seeds);
        field.diffuse();
    }
    for y in 0..16 {
        for x in 0..16 {
            assert!(field.cell_at(y, x) <= 253);
        }
    }
}

#[test]
fn random_step_keeps_dimensions_and_range() {
    let mut field = HeatField::new(32, 24);
    for _ in 0..3 {
        field.step();
    }
    assert_eq!(field.width(), 32);
    assert_eq!(field.height(), 24);
    for y in 0..24 {
        for x in 0..32 {
            assert!(field.cell_at(y, x) <= 253);
        }
    }
}

#[test]
fn random_reseed_touches_only_the_bottom_row() {
    let mut field = HeatField::new(16, 8);
    let marks: Vec<u64> = (0..16u64).map(|x| x + 7).collect();
    field.reseed_bottom_row_with(&marks);
    field.reseed_bottom_row();
    for y in 0..7 {
        for x in 0..16 {
            assert_eq!(field.cell_at(y, x), 0, "rows above the bottom stay");
        }
    }
}

#[test]
fn random_reseed_is_roughly_uniform_over_the_byte_range() {
    // 200 reseeds of a 256-wide bottom row: 51200 samples over 256
    // buckets, 200 expected per bucket; a bucket outside [100, 320]
    // would be an eight-sigma outlier
    let mut field = HeatField::new(256, 2);
    let mut counts = [0u32; 256];
    for _ in 0..200 {
        field.reseed_bottom_row();
        for x in 0..256 {
            counts[field.cell_at(1, x) as usize] += 1;
        }
    }
    for (value, &count) in counts.iter().enumerate() {
        assert!(
            count >= 100 && count <= 320,
            "value {} drawn {} times over 51200 samples",
            value,
            count
        );
    }
}

#[test]
fn step_with_is_reseed_then_diffuse() {
    let mut a = HeatField::new(6, 5);
    let mut b = HeatField::new(6, 5);
    let seeds: Vec<u64> = (0..6u64).map(|x| 50 * x + 3).collect();
    a.step_with(&seeds);
    b.reseed_bottom_row_with(&seeds);
    b.diffuse();
    for y in 0..5 {
        for x in 0..6 {
            assert_eq!(a.cell_at(y, x), b.cell_at(y, x));
        }
    }
}
