use raytracer::image::{area, channel, pixel, place, quantize, scale, Rgb, SCALE_BITS};
use raytracer::ppm::{encode, header, triplet};
use raytracer::scalar::Scalar;

fn shown(x: f32) -> u8 {
    let factor = f32::from_bits(scale().to_bits());
    quantize(Scalar::from_bits((factor * x.sqrt()).to_bits()))
}

#[test]
fn channel_keeps_what_is_in_range() {
    for v in 0..=255 {
        assert_eq!(channel(v) as i32, v);
    }
}

#[test]
fn channel_clamps_what_is_out_of_range() {
    assert_eq!(channel(-1), 0);
    assert_eq!(channel(i32::MIN), 0);
    assert_eq!(channel(256), 255);
    assert_eq!(channel(300), 255);
    assert_eq!(channel(i32::MAX), 255);
}

#[test]
fn scale_is_just_below_two_hundred_and_fifty_six() {
    assert_eq!(SCALE_BITS, 255.99f32.to_bits());
    assert_eq!(scale().to_bits(), 255.99f32.to_bits());
}

#[test]
fn quantize_is_the_clamped_integer_part() {
    let cases: [(f32, u8); 14] = [
        (0.0, 0),
        (-0.0, 0),
        (0.999, 0),
        (1.0, 1),
        (1.999, 1),
        (127.5, 127),
        (254.999, 254),
        (255.0, 255),
        (255.99, 255),
        (256.0, 255),
        (1.0e9, 255),
        (f32::INFINITY, 255),
        (-3.5, 0),
        (f32::NAN, 0),
    ];
    for (x, want) in cases {
        assert_eq!(quantize(Scalar::from_bits(x.to_bits())), want, "{:?}", x);
        assert_eq!(quantize(Scalar::from_bits(x.to_bits())), channel(x as i32));
    }
}

#[test]
fn gamma_and_quantization_at_the_bounds() {
    assert_eq!(shown(0.0), 0);
    assert_eq!(shown(1.0), 255);
    assert_eq!(shown(0.25), 127);
    assert_eq!(shown(0.5), (255.99f32 * 0.5f32.sqrt()).floor() as u8);
    assert_eq!(shown(0.5), 181);
}

#[test]
fn gamma_and_quantization_are_monotone() {
    let mut previous = 0u8;
    for k in 0..=1000 {
        let x = k as f32 / 1000.0;
        let now = shown(x);
        assert_eq!(now as f32, (255.99 * x.sqrt()).floor());
        assert!(previous <= now);
        previous = now;
    }
    assert_eq!(previous, 255);
}

#[test]
fn quantization_tolerates_values_out_of_range() {
    assert_eq!(shown(4.0), 255);
    assert_eq!(shown(f32::INFINITY), 255);
    assert_eq!(shown(-1.0), 0);
    assert_eq!(shown(f32::NAN), 0);
}

#[test]
fn area_is_width_times_height() {
    assert_eq!(area(400, 200), 80000);
    assert_eq!(area(0, 7), 0);
    assert_eq!(area(u32::MAX, u32::MAX), 18446744065119617025);
}

#[test]
fn pixels_go_from_the_top_row_down_and_left_to_right() {
    let expected =
        [(0, 1), (1, 1), (2, 1), (3, 1), (0, 0), (1, 0), (2, 0), (3, 0)];
    for (index, want) in expected.iter().enumerate() {
        assert_eq!(pixel(index as u64, 4, 2), Some(*want));
    }
    assert_eq!(pixel(8, 4, 2), None);
    assert_eq!(pixel(u64::MAX, 4, 2), None);
}

#[test]
fn image_without_pixels_has_no_place() {
    assert_eq!(pixel(0, 0, 5), None);
    assert_eq!(pixel(0, 5, 0), None);
    assert_eq!(place(0, 0, 0, 5), None);
    assert_eq!(place(0, 0, 5, 0), None);
}

#[test]
fn place_and_pixel_undo_each_other() {
    let (width, height) = (7, 5);
    for index in 0..35u64 {
        let (i, j) = pixel(index, width, height).expect("a pixel");
        assert!(i < width && j < height);
        assert_eq!(place(i, j, width, height), Some(index));
    }
    for j in 0..height {
        for i in 0..width {
            let index = place(i, j, width, height).expect("a place");
            assert_eq!(pixel(index, width, height), Some((i, j)));
        }
    }
    assert_eq!(place(7, 0, width, height), None);
    assert_eq!(place(0, 5, width, height), None);
    assert_eq!(place(0, 4, width, height), Some(0));
    assert_eq!(place(6, 0, width, height), Some(34));
}

#[test]
fn first_pixel_of_a_wide_image_is_top_left() {
    assert_eq!(pixel(0, 400, 200), Some((0, 199)));
    assert_eq!(pixel(399, 400, 200), Some((399, 199)));
    assert_eq!(pixel(400, 400, 200), Some((0, 198)));
    assert_eq!(pixel(79999, 400, 200), Some((399, 0)));
    assert_eq!(pixel(80000, 400, 200), None);
}

#[test]
fn large_image_places_do_not_wrap() {
    assert_eq!(place(u32::MAX - 1, 0, u32::MAX, u32::MAX), Some(18446744065119617024));
    assert_eq!(
        pixel(18446744065119617024, u32::MAX, u32::MAX),
        Some((u32::MAX - 1, 0))
    );
}

#[test]
fn header_names_format_size_and_depth() {
    assert_eq!(header(400, 200), b"P3\n400 200\n255\n".to_vec());
    assert_eq!(header(4, 2), b"P3\n4 2\n255\n".to_vec());
    assert_eq!(header(0, 0), b"P3\n0 0\n255\n".to_vec());
    assert_eq!(header(u32::MAX, 10), b"P3\n4294967295 10\n255\n".to_vec());
}

#[test]
fn triplet_is_one_line_of_three_numbers() {
    assert_eq!(triplet(Rgb { r: 255, g: 0, b: 7 }), b"255 0 7\n".to_vec());
    assert_eq!(triplet(Rgb { r: 0, g: 0, b: 0 }), b"0 0 0\n".to_vec());
    assert_eq!(triplet(Rgb { r: 10, g: 100, b: 99 }), b"10 100 99\n".to_vec());
}

#[test]
fn encode_writes_header_and_pixels_in_order() {
    let pixels = vec![
        Rgb { r: 1, g: 2, b: 3 },
        Rgb { r: 40, g: 50, b: 60 },
        Rgb { r: 255, g: 254, b: 253 },
        Rgb { r: 0, g: 0, b: 0 },
    ];
    let text = encode(2, 2, &pixels).expect("a file");
    assert_eq!(
        String::from_utf8(text).expect("text"),
        "P3\n2 2\n255\n1 2 3\n40 50 60\n255 254 253\n0 0 0\n"
    );
}

#[test]
fn encode_refuses_a_wrong_number_of_pixels() {
    let pixels = vec![Rgb { r: 1, g: 2, b: 3 }; 5];
    assert_eq!(encode(2, 2, &pixels), None);
    assert_eq!(encode(3, 2, &pixels), None);
    assert_eq!(encode(0, 0, &pixels), None);
    assert!(encode(5, 1, &pixels).is_some());
    assert!(encode(1, 5, &pixels).is_some());
}

#[test]
fn encode_of_an_empty_image_is_the_header() {
    assert_eq!(encode(0, 0, &Vec::new()), Some(b"P3\n0 0\n255\n".to_vec()));
    assert_eq!(encode(0, 9, &Vec::new()), Some(b"P3\n0 9\n255\n".to_vec()));
}
