use raytracer::ppm::{decimal_text, encode_image, push_header, push_pixel, Pixel};

fn text(bytes: &[u8]) -> String {
    String::from_utf8(bytes.to_vec()).unwrap()
}

#[test]
fn decimal_of_zero_and_multi_digit() {
    assert_eq!(text(&decimal_text(0)), "0");
    assert_eq!(text(&decimal_text(7)), "7");
    assert_eq!(text(&decimal_text(10)), "10");
    assert_eq!(text(&decimal_text(255)), "255");
    assert_eq!(text(&decimal_text(u64::MAX)), "18446744073709551615");
}

#[test]
fn header_names_size_and_max_value() {
    let mut out = Vec::new();
    push_header(&mut out, 400, 225);
    assert_eq!(text(&out), "P3\n400 225\n255\n");
}

#[test]
fn pixel_line_appends_to_existing_text() {
    let mut out = b"x".to_vec();
    push_pixel(&mut out, Pixel { r: 0, g: 128, b: 255 });
    assert_eq!(text(&out), "x0 128 255\n");
}

#[test]
fn image_is_header_then_rows_from_top_left() {
    let pixels = vec![
        Pixel { r: 1, g: 2, b: 3 },
        Pixel { r: 4, g: 5, b: 6 },
        Pixel { r: 7, g: 8, b: 9 },
        Pixel { r: 10, g: 11, b: 12 },
        Pixel { r: 13, g: 14, b: 15 },
        Pixel { r: 255, g: 255, b: 255 },
    ];
    let out = encode_image(3, 2, &pixels).unwrap();
    assert_eq!(
        text(&out),
        "P3\n3 2\n255\n1 2 3\n4 5 6\n7 8 9\n10 11 12\n13 14 15\n255 255 255\n"
    );
}

#[test]
fn image_with_wrong_pixel_count_is_refused() {
    let pixels = vec![Pixel { r: 0, g: 0, b: 0 }; 5];
    assert!(encode_image(3, 2, &pixels).is_none());
    assert!(encode_image(2, 3, &pixels[..].to_vec()).is_none());
    let seven = vec![Pixel { r: 0, g: 0, b: 0 }; 7];
    assert!(encode_image(3, 2, &seven).is_none());
}

#[test]
fn empty_image_is_header_only() {
    let out = encode_image(0, 5, &Vec::new()).unwrap();
    assert_eq!(text(&out), "P3\n0 5\n255\n");
}
