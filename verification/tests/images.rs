use colorfs::color::Color;
use colorfs::encode::{encode, HEIGHT, WIDTH};
use colorfs::window::read_window;

fn decoded_pixel(bytes: &[u8]) -> (u32, u32, [u8; 3]) {
    let image = image::load_from_memory(bytes).expect("a readable image").to_rgb();
    let (width, height) = image.dimensions();
    (width, height, image.get_pixel(0, 0).0)
}

#[test]
fn encoding_is_a_png_stream() {
    let bytes = encode(Color { red: 255, green: 0, blue: 128 });
    assert!(bytes.len() > 8);
    assert_eq!(&bytes[..8], &[137u8, 80, 78, 71, 13, 10, 26, 10]);
    assert_eq!(&bytes[bytes.len() - 8..bytes.len() - 4], b"IEND");
}

#[test]
fn encoding_decodes_to_the_colour() {
    let colors = [
        Color { red: 255, green: 0, blue: 128 },
        Color { red: 0, green: 0, blue: 0 },
        Color { red: 255, green: 255, blue: 255 },
        Color { red: 1, green: 2, blue: 3 },
    ];
    for color in colors {
        let (width, height, pixel) = decoded_pixel(&encode(color));
        assert_eq!((width, height), (WIDTH, HEIGHT));
        assert_eq!(pixel, [color.red, color.green, color.blue]);
    }
}

#[test]
fn channel_order_is_red_green_blue() {
    let (_, _, pixel) = decoded_pixel(&encode(Color { red: 10, green: 20, blue: 30 }));
    assert_eq!(pixel, [10, 20, 30]);
}

#[test]
fn encoding_twice_gives_the_same_bytes() {
    let color = Color { red: 18, green: 52, blue: 86 };
    assert_eq!(encode(color), encode(color));
}

#[test]
fn different_colours_encode_differently() {
    let base = encode(Color { red: 255, green: 0, blue: 128 });
    assert_ne!(base, encode(Color { red: 254, green: 0, blue: 128 }));
    assert_ne!(base, encode(Color { red: 255, green: 1, blue: 128 }));
    assert_ne!(base, encode(Color { red: 255, green: 0, blue: 129 }));
    assert_ne!(base, encode(Color { red: 255, green: 128, blue: 0 }));
}

#[test]
fn window_is_the_clamped_slice() {
    let data: Vec<u8> = (0..10).collect();
    assert_eq!(read_window(&data, 0, 10), data);
    assert_eq!(read_window(&data, 0, 4), vec![0, 1, 2, 3]);
    assert_eq!(read_window(&data, 3, 4), vec![3, 4, 5, 6]);
    assert_eq!(read_window(&data, 6, 4), vec![6, 7, 8, 9]);
    assert_eq!(read_window(&data, 7, 4), vec![7, 8, 9]);
    assert_eq!(read_window(&data, 9, 100), vec![9]);
    assert_eq!(read_window(&data, 2, 0), Vec::<u8>::new());
}

#[test]
fn window_past_the_end_is_empty() {
    let data: Vec<u8> = (0..10).collect();
    assert_eq!(read_window(&data, 10, 1), Vec::<u8>::new());
    assert_eq!(read_window(&data, 11, 5), Vec::<u8>::new());
    assert_eq!(read_window(&data, u64::MAX, u32::MAX), Vec::<u8>::new());
    assert_eq!(read_window(&Vec::new(), 0, 5), Vec::<u8>::new());
}

#[test]
fn window_does_not_overflow() {
    let data: Vec<u8> = (0..10).collect();
    assert_eq!(read_window(&data, 5, u32::MAX), vec![5, 6, 7, 8, 9]);
    assert_eq!(read_window(&data, 0, u32::MAX), data);
}

#[test]
fn every_window_matches_the_slice() {
    let data = encode(Color { red: 255, green: 0, blue: 128 });
    for offset in 0..data.len() + 3 {
        for size in 0..data.len() + 3 {
            let start = offset.min(data.len());
            let end = (offset + size).min(data.len());
            assert_eq!(read_window(&data, offset as u64, size as u32), data[start..end].to_vec());
        }
    }
}
