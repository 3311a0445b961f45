use raycaster::overlay::{decimal_digits, Picture};
use raycaster::palette::{build_color_map, expand_palette, scale_channel};
use raycaster::video::{darken, pack, Video};

fn at(v: &Video, x: u32, y: u32) -> u32 {
    v.buffer[(y * v.width + x) as usize]
}

#[test]
fn color_map_stretches_vga_channels() {
    let m = build_color_map();
    assert_eq!(m.len(), 256);
    assert_eq!(m[0], (0, 0, 0));
    assert_eq!(m[1], (0, 0, 170));
    assert_eq!(m[15], (255, 255, 255));
    assert_eq!(m[255], (153, 0, 137));
}

#[test]
fn channel_scaling_exact_values() {
    assert_eq!(scale_channel(0), 0);
    assert_eq!(scale_channel(21), 85);
    assert_eq!(scale_channel(63), 255);
    assert_eq!(expand_palette(&[(63, 42, 0)]), vec![(255, 170, 0)]);
}

#[test]
fn packing_is_rgb_order() {
    assert_eq!(pack((0x12, 0x34, 0x56)), 0x123456);
}

#[test]
fn darkening_formula() {
    assert_eq!(darken(90, 0, 80), 0);
    assert_eq!(darken(90, 40, 80), 60);
    assert_eq!(darken(90, 60, 80), 90);
    assert_eq!(darken(90, 80, 80), 90);
    assert_eq!(darken(90, 500, 80), 90);
    assert_eq!(darken(255, 80, 80), 255);
    assert_eq!(darken(255, 50, 80), 212);
}

#[test]
fn darkening_never_falls_as_light_grows() {
    for c in [0u8, 1, 17, 90, 200, 255] {
        let mut last = 0u8;
        for l in 0..200u32 {
            let v = darken(c, l, 80);
            assert!(v >= last && v <= c);
            last = v;
        }
    }
}

#[test]
fn new_video_geometry() {
    let v = Video::new(1);
    assert_eq!((v.width, v.height), (320, 200));
    assert_eq!((v.pix_width, v.pix_height, v.pix_center), (320, 160, 80));
    assert_eq!(v.buffer.len(), 64000);
    assert!(v.buffer.iter().all(|&p| p == 0));
    let v3 = Video::new(3);
    assert_eq!((v3.width, v3.height, v3.pix_height, v3.pix_center), (960, 600, 480, 240));
}

#[test]
fn put_pixel_writes_and_drops() {
    let mut v = Video::new(1);
    v.put_pixel(3, 2, 15);
    assert_eq!(at(&v, 3, 2), 0xffffff);
    v.put_pixel(320, 0, 15);
    v.put_pixel(0, 200, 15);
    v.put_pixel(4, 2, 256);
    assert_eq!(v.buffer.iter().filter(|&&p| p != 0).count(), 1);
}

#[test]
fn put_darkened_pixel_exact() {
    let mut v = Video::new(1);
    v.put_darkened_pixel(10, 10, 15, 40);
    assert_eq!(at(&v, 10, 10), 0xaaaaaa);
    v.put_darkened_pixel(11, 10, 15, 0);
    assert_eq!(at(&v, 11, 10), 0);
    v.put_darkened_pixel(12, 10, 300, 80);
    v.put_darkened_pixel(400, 10, 15, 80);
    assert_eq!(v.buffer.iter().filter(|&&p| p != 0).count(), 1);
}

#[test]
fn digits_of_numbers() {
    assert_eq!(decimal_digits(0), vec![0]);
    assert_eq!(decimal_digits(1234), vec![1, 2, 3, 4]);
    assert_eq!(decimal_digits(usize::MAX).len(), 20);
}

#[test]
fn draw_digit_one_font() {
    let mut v = Video::new(1);
    v.draw_digit(0, 0, 1, 1);
    assert_eq!(at(&v, 0, 0), 0);
    assert_eq!(at(&v, 1, 0), pack(v.color_map[255]));
    assert_eq!(at(&v, 0, 1), pack(v.color_map[255]));
    assert_eq!(at(&v, 2, 4), pack(v.color_map[255]));
    assert_eq!(v.buffer.iter().filter(|&&p| p != 0).count(), 8);
}

#[test]
fn draw_digit_ignores_non_digits() {
    let mut v = Video::new(1);
    v.draw_digit(0, 0, 10, 1);
    assert!(v.buffer.iter().all(|&p| p == 0));
}

#[test]
fn fps_counter_places_digits() {
    let mut v = Video::new(1);
    v.draw_fps_counter(7);
    let white = pack(v.color_map[255]);
    // "7": top row fully lit, at scale 2 from (5, 5)
    assert_eq!(at(&v, 5, 5), white);
    assert_eq!(at(&v, 10, 6), white);
    assert_eq!(at(&v, 4, 5), 0);
    assert_eq!(at(&v, 11, 5), 0);
    let mut w = Video::new(1);
    w.draw_fps_counter(10);
    // second digit "0" starts 8 pixels right
    assert_eq!(at(&w, 13, 5), white);
    assert_eq!(at(&w, 15, 7), 0);
}

#[test]
fn draw_texture_reads_planes() {
    let mut v = Video::new(2);
    // 4 by 1 picture: plane k holds column k
    let pic = Picture { width: 4, height: 1, data: vec![1, 2, 3, 4] };
    v.draw_texture(10, 20, &pic);
    for x in 0..4u32 {
        let c = pack(v.color_map[(x + 1) as usize]);
        for dx in 0..2 {
            for dy in 0..2 {
                assert_eq!(at(&v, 10 + 2 * x + dx, 20 + dy), c);
            }
        }
    }
    assert_eq!(at(&v, 18, 20), 0);
    assert_eq!(v.buffer.iter().filter(|&&p| p != 0).count(), 16);
}
