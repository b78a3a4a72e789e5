use pixel_terrain::color::Rgba;
use pixel_terrain::image_helper::{
    draw_filled_circle, get_pixel, get_pixel_u8, is_in_disc, set_pixel,
};
use pixel_terrain::raster::{PixelPos, Raster};

fn white_raster(width: u32, height: u32) -> Raster {
    Raster::new(width, height, &Rgba::white()).unwrap()
}

#[test]
fn new_raster_is_filled() {
    let fill = Rgba::new(1, 2, 3, 4);
    let raster = Raster::new(3, 2, &fill).unwrap();
    assert_eq!(raster.width(), 3);
    assert_eq!(raster.height(), 2);
    for y in 0..2 {
        for x in 0..3 {
            assert_eq!(get_pixel_u8(&PixelPos { x, y }, &raster), [1, 2, 3, 4]);
        }
    }
    assert_eq!(
        raster.into_bytes(),
        vec![1, 2, 3, 4, 1, 2, 3, 4, 1, 2, 3, 4, 1, 2, 3, 4, 1, 2, 3, 4, 1, 2, 3, 4]
    );
}

#[test]
fn new_raster_needs_a_pixel() {
    assert!(Raster::new(0, 5, &Rgba::white()).is_none());
    assert!(Raster::new(5, 0, &Rgba::white()).is_none());
    assert!(Raster::new(1, 1, &Rgba::white()).is_some());
}

#[test]
fn from_bytes_checks_the_length() {
    assert!(Raster::from_bytes(2, 1, vec![0; 8]).is_some());
    assert!(Raster::from_bytes(2, 1, vec![0; 7]).is_none());
    assert!(Raster::from_bytes(2, 1, vec![0; 12]).is_none());
    assert!(Raster::from_bytes(0, 1, vec![]).is_none());
    assert!(Raster::from_bytes(1, 0, vec![]).is_none());
}

#[test]
fn from_bytes_keeps_the_layout() {
    let bytes: Vec<u8> = (0..24).collect();
    let raster = Raster::from_bytes(3, 2, bytes.clone()).unwrap();
    assert_eq!(get_pixel_u8(&PixelPos { x: 0, y: 0 }, &raster), [0, 1, 2, 3]);
    assert_eq!(get_pixel_u8(&PixelPos { x: 2, y: 0 }, &raster), [8, 9, 10, 11]);
    assert_eq!(get_pixel_u8(&PixelPos { x: 0, y: 1 }, &raster), [12, 13, 14, 15]);
    assert_eq!(get_pixel_u8(&PixelPos { x: 2, y: 1 }, &raster), [20, 21, 22, 23]);
    assert_eq!(raster.read(&PixelPos { x: 1, y: 1 }), Some(Rgba::new(16, 17, 18, 19)));
    assert_eq!(raster.into_bytes(), bytes);
}

#[test]
fn write_then_read_round_trip() {
    let mut raster = white_raster(7, 5);
    let color = Rgba::new(10, 20, 30, 40);
    for y in 0..5 {
        for x in 0..7 {
            let pos = PixelPos { x, y };
            set_pixel(&pos, &color, &mut raster);
            assert_eq!(get_pixel(&pos, &raster), color);
            assert_eq!(get_pixel_u8(&pos, &raster), [10, 20, 30, 40]);
        }
    }
}

#[test]
fn write_touches_one_pixel_only() {
    let mut raster = white_raster(4, 3);
    set_pixel(&PixelPos { x: 3, y: 1 }, &Rgba::new(9, 8, 7, 6), &mut raster);
    let bytes = raster.into_bytes();
    for (i, byte) in bytes.iter().enumerate() {
        let expected = match i {
            28 => 9,
            29 => 8,
            30 => 7,
            31 => 6,
            _ => 255,
        };
        assert_eq!(*byte, expected, "byte {}", i);
    }
}

#[test]
fn write_out_of_bounds_changes_nothing() {
    let bytes: Vec<u8> = (0..48).collect();
    for pos in [
        PixelPos { x: 4, y: 0 },
        PixelPos { x: 0, y: 3 },
        PixelPos { x: 4, y: 3 },
        PixelPos { x: 5, y: 1 },
        PixelPos { x: u32::MAX, y: u32::MAX },
    ] {
        let mut raster = Raster::from_bytes(4, 3, bytes.clone()).unwrap();
        set_pixel(&pos, &Rgba::red(), &mut raster);
        assert_eq!(raster.into_bytes(), bytes);
    }
}

#[test]
fn read_out_of_bounds_is_defined() {
    let raster = white_raster(4, 3);
    for pos in [
        PixelPos { x: 4, y: 0 },
        PixelPos { x: 0, y: 3 },
        PixelPos { x: 4, y: 2 },
        PixelPos { x: u32::MAX, y: u32::MAX },
    ] {
        assert_eq!(get_pixel_u8(&pos, &raster), [0, 0, 0, 0]);
        assert_eq!(get_pixel(&pos, &raster), Rgba::transparent());
        assert_eq!(raster.read(&pos), None);
        assert!(!raster.in_bounds(&pos));
    }
    assert!(raster.in_bounds(&PixelPos { x: 3, y: 2 }));
}

#[test]
fn column_past_the_row_does_not_wrap() {
    let bytes: Vec<u8> = (0..48).collect();
    let raster = Raster::from_bytes(4, 3, bytes).unwrap();
    assert_eq!(get_pixel_u8(&PixelPos { x: 4, y: 0 }, &raster), [0, 0, 0, 0]);
    assert_eq!(get_pixel_u8(&PixelPos { x: 0, y: 1 }, &raster), [16, 17, 18, 19]);
}

#[test]
fn reading_twice_gives_the_same() {
    let mut raster = white_raster(5, 5);
    set_pixel(&PixelPos { x: 2, y: 2 }, &Rgba::new(1, 2, 3, 4), &mut raster);
    for pos in [PixelPos { x: 2, y: 2 }, PixelPos { x: 0, y: 0 }, PixelPos { x: 9, y: 9 }] {
        let first = get_pixel_u8(&pos, &raster);
        let second = get_pixel_u8(&pos, &raster);
        assert_eq!(first, second);
        assert_eq!(get_pixel(&pos, &raster), get_pixel(&pos, &raster));
    }
}

#[test]
fn colour_bytes_round_trip() {
    let color = Rgba::new(1, 2, 3, 4);
    assert_eq!(color.to_bytes(), [1, 2, 3, 4]);
    assert_eq!(Rgba::from_bytes([1, 2, 3, 4]), color);
    assert_eq!(Rgba::transparent().to_bytes(), [0, 0, 0, 0]);
    assert_eq!(Rgba::black().to_bytes(), [0, 0, 0, 255]);
    assert_eq!(Rgba::white().to_bytes(), [255, 255, 255, 255]);
    assert_eq!(Rgba::red().to_bytes(), [255, 0, 0, 255]);
}

#[test]
fn the_two_kinds_of_terrain_differ() {
    let white = Rgba::white();
    let black = Rgba::black();
    let grey = Rgba::new(100, 100, 100, 255);
    assert_eq!(white.channel_sum(), 765);
    assert_eq!(grey.channel_sum(), 300);
    assert_eq!(black.channel_sum(), 0);
    assert!(white.is_terrain());
    assert!(!white.is_solid());
    assert!(!black.is_terrain());
    assert!(black.is_solid());
    assert!(grey.is_terrain());
    assert!(grey.is_solid());
    assert!(!Rgba::new(255, 255, 255, 0).is_solid());
    assert!(Rgba::new(255, 255, 254, 255).is_solid());
    assert!(!Rgba::new(0, 0, 0, 77).is_terrain());
    assert!(Rgba::new(0, 1, 0, 0).is_terrain());
}

#[test]
fn disc_membership_is_strict() {
    let center = PixelPos { x: 5, y: 5 };
    assert!(is_in_disc(&PixelPos { x: 5, y: 5 }, &center, 5));
    assert!(is_in_disc(&PixelPos { x: 1, y: 5 }, &center, 5));
    assert!(!is_in_disc(&PixelPos { x: 0, y: 5 }, &center, 5));
    assert!(!is_in_disc(&PixelPos { x: 10, y: 5 }, &center, 5));
    assert!(!is_in_disc(&PixelPos { x: 2, y: 1 }, &center, 5));
    assert!(is_in_disc(&PixelPos { x: 2, y: 2 }, &center, 5));
    assert!(!is_in_disc(&PixelPos { x: 5, y: 5 }, &center, 0));
    assert!(is_in_disc(&PixelPos { x: 5, y: 5 }, &center, 1));
    assert!(!is_in_disc(&PixelPos { x: 5, y: 6 }, &center, 1));
}

#[test]
fn disc_membership_at_the_limits() {
    let origin = PixelPos { x: 0, y: 0 };
    let far = PixelPos { x: u32::MAX, y: u32::MAX };
    assert!(!is_in_disc(&far, &origin, u32::MAX));
    assert!(!is_in_disc(&origin, &far, u32::MAX));
    assert!(is_in_disc(&PixelPos { x: u32::MAX - 1, y: 0 }, &origin, u32::MAX));
    assert!(!is_in_disc(&PixelPos { x: u32::MAX, y: 0 }, &origin, u32::MAX));
}

#[test]
fn stamped_disc_has_the_expected_pixels() {
    let mut raster = white_raster(12, 11);
    let center = PixelPos { x: 5, y: 5 };
    let color = Rgba::new(0, 0, 0, 255);
    draw_filled_circle(&center, 3, &color, &mut raster);
    for y in 0..11u32 {
        for x in 0..12u32 {
            let dx = x as i64 - 5;
            let dy = y as i64 - 5;
            let expected = if dx * dx + dy * dy < 9 { color } else { Rgba::white() };
            assert_eq!(get_pixel(&PixelPos { x, y }, &raster), expected, "({}, {})", x, y);
        }
    }
    assert_eq!(get_pixel(&PixelPos { x: 8, y: 5 }, &raster), Rgba::white());
    assert_eq!(get_pixel(&PixelPos { x: 7, y: 5 }, &raster), color);
    assert_eq!(get_pixel(&PixelPos { x: 5, y: 2 }, &raster), Rgba::white());
}

#[test]
fn stamped_disc_of_radius_zero_changes_nothing() {
    let bytes: Vec<u8> = (0..64).collect();
    let mut raster = Raster::from_bytes(4, 4, bytes.clone()).unwrap();
    draw_filled_circle(&PixelPos { x: 1, y: 1 }, 0, &Rgba::red(), &mut raster);
    assert_eq!(raster.into_bytes(), bytes);
}

#[test]
fn stamped_disc_round_a_far_centre_changes_nothing() {
    let bytes: Vec<u8> = (0..64).collect();
    let mut raster = Raster::from_bytes(4, 4, bytes.clone()).unwrap();
    draw_filled_circle(&PixelPos { x: 100, y: 100 }, 5, &Rgba::red(), &mut raster);
    assert_eq!(raster.into_bytes(), bytes);
}

#[test]
fn stamped_disc_may_cover_the_raster() {
    let mut raster = white_raster(4, 4);
    draw_filled_circle(&PixelPos { x: 1, y: 1 }, 100, &Rgba::red(), &mut raster);
    for y in 0..4 {
        for x in 0..4 {
            assert_eq!(get_pixel(&PixelPos { x, y }, &raster), Rgba::red());
        }
    }
}
