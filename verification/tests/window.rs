use ansinator::image_buffer::{GrayImage, ImageBuffer, RgbImage};
use ansinator::image_window::{ImageWindow, Window, Windowing};

fn grey(width: u32, height: u32) -> GrayImage {
    let data: Vec<u8> = (0..width * height).map(|i| (i % 251) as u8).collect();
    GrayImage::from_raw(width, height, data).unwrap()
}

fn colour(width: u32, height: u32) -> RgbImage {
    let data: Vec<(u8, u8, u8)> = (0..width * height)
        .map(|i| ((i % 256) as u8, (i / 256 % 256) as u8, (i % 7) as u8))
        .collect();
    RgbImage::from_raw(width, height, data).unwrap()
}

#[test]
fn lib_test_map() {
    let w = 2;
    let h = 4;
    let scale_w = 13;
    let scale_h = 7;

    let img = grey(w * scale_w, h * scale_h);

    let imgw = img.clone().to_window(w, h).unwrap();

    let firsts = imgw.windows.iter().map(|w| *w.get_pixel(0, 0)).collect::<Vec<u8>>();
    println!("{:?}", firsts);

    assert_eq!(firsts.len() as u32, scale_w * scale_h);
    for (n, first) in firsts.iter().enumerate() {
        let x = (n as u32 % scale_w) * w;
        let y = (n as u32 / scale_w) * h;
        assert_eq!(first, img.get_pixel(x, y));
    }
}

#[test]
fn lib_test_enum() {
    let w = 2;
    let h = 4;
    let scale_w = 13;
    let scale_h = 7;

    let img = grey(w * scale_w, h * scale_h);

    let windows = img.to_window(w, h).unwrap().windows;

    let mut total = 0;
    for (n, _win) in windows.iter().enumerate() {
        total = n;
    }

    // As many windows in a row as fit in the width, and as many rows as fit
    // in the height.
    assert_eq!(total as u32, scale_w * scale_h - 1);
}

#[test]
fn lib_test_window_too_big() {
    let w = 5000;
    let h = 700;

    let img = colour(640, 480);
    let windows = img.to_window(w, h);

    assert_eq!(true, windows.is_none());
}

#[test]
fn lib_test_eq() {
    let w = 5;
    let h = 7;

    let img = colour(w * 3, h * 4);
    let img2 = colour(w * 3, h * 4);

    let imgw = img.to_window(w, h).unwrap();
    let imgw2 = img2.to_window(w, h).unwrap();

    assert_eq!(imgw.windows, imgw2.windows);
}

#[test]
fn lib_test_creation() {
    let w = 5;
    let h = 7;

    let img = grey(64, 48);

    let imgw = img.to_window(w, h).unwrap();

    assert_eq!(imgw.windows.len() as u32, imgw.windows_per_row * imgw.windows_per_col);
}

#[test]
fn windows_hold_copies_of_their_pixels() {
    let img = grey(7, 5);
    let split: ImageWindow<u8> = img.clone().to_window(3, 2).unwrap();
    assert_eq!(split.windows_per_row, 2);
    assert_eq!(split.windows_per_col, 2);
    assert_eq!(split.image_width, 7);
    assert_eq!(split.image_height, 5);
    assert_eq!(split.windows.len(), 4);
    for j in 0..2u32 {
        for i in 0..2u32 {
            let window = &split.windows[(j * 2 + i) as usize];
            assert_eq!((window.width, window.height), (3, 2));
            assert_eq!(window.data.len(), 6);
            for b in 0..2 {
                for a in 0..3 {
                    assert_eq!(window.get_pixel(a, b), img.get_pixel(i * 3 + a, j * 2 + b));
                }
            }
        }
    }
}

#[test]
fn a_window_as_large_as_the_image_is_the_image() {
    let img = grey(4, 3);
    let split = img.clone().to_window(4, 3).unwrap();
    assert_eq!(split.windows.len(), 1);
    assert_eq!(split.windows[0].data, img.data);
    let exact = img.clone().to_window_exact(4, 3).unwrap();
    assert_eq!(exact.windows[0].data, img.data);
}

#[test]
fn windows_larger_than_the_image_or_empty_give_nothing() {
    assert!(grey(4, 3).to_window(5, 3).is_none());
    assert!(grey(4, 3).to_window(4, 4).is_none());
    assert!(grey(4, 3).to_window(0, 1).is_none());
    assert!(grey(4, 3).to_window(1, 0).is_none());
    assert!(grey(4, 3).to_window_exact(5, 3).is_none());
    assert!(grey(4, 3).to_window_exact(0, 0).is_none());
    assert!(grey(0, 0).to_window(1, 1).is_none());
}

#[test]
fn exact_windows_must_cover_the_image() {
    assert!(grey(6, 4).to_window_exact(3, 2).is_some());
    assert!(grey(7, 4).to_window_exact(3, 2).is_none());
    assert!(grey(6, 5).to_window_exact(3, 2).is_none());
    assert!(grey(7, 5).to_window(3, 2).is_some());
    let exact = grey(6, 4).to_window_exact(3, 2).unwrap();
    let loose = grey(6, 4).to_window(3, 2).unwrap();
    assert_eq!(exact.windows, loose.windows);
    assert_eq!(exact.windows_per_row, 2);
    assert_eq!(exact.windows_per_col, 2);
}

#[test]
fn rows_hold_the_windows_side_by_side() {
    let img = colour(6, 6);
    let split = img.to_window(2, 3).unwrap();
    let rows = split.rows();
    assert_eq!(rows.len(), 2);
    for (j, row) in rows.iter().enumerate() {
        assert_eq!(row.len(), 3);
        for (i, window) in row.iter().enumerate() {
            assert_eq!(**window, split.windows[j * 3 + i]);
        }
    }
}

#[test]
fn window_pixels_are_addressed_by_column_and_row() {
    let window = Window { width: 3, height: 2, data: vec![10u8, 11, 12, 20, 21, 22] };
    assert_eq!(*window.get_pixel(0, 0), 10);
    assert_eq!(*window.get_pixel(2, 0), 12);
    assert_eq!(*window.get_pixel(0, 1), 20);
    assert_eq!(*window.get_pixel(1, 1), 21);
    assert_eq!(*window.get_pixel(2, 1), 22);
}

#[test]
fn checked_access_gives_nothing_outside_the_window() {
    let window = Window { width: 3, height: 2, data: vec![10u8, 11, 12, 20, 21, 22] };
    assert_eq!(window.get_pixel_checked(2, 1), Some(&22));
    assert_eq!(window.get_pixel_checked(0, 0), Some(&10));
    assert_eq!(window.get_pixel_checked(3, 0), None);
    assert_eq!(window.get_pixel_checked(0, 2), None);
    assert_eq!(window.get_pixel_checked(u32::MAX, u32::MAX), None);
    let short = Window { width: 3, height: 2, data: vec![1u8, 2, 3, 4] };
    assert_eq!(short.get_pixel_checked(0, 1), Some(&4));
    assert_eq!(short.get_pixel_checked(1, 1), None);
}

#[test]
fn an_image_needs_a_pixel_for_each_place() {
    assert!(GrayImage::from_raw(2, 2, vec![0, 1, 2]).is_none());
    assert!(GrayImage::from_raw(2, 2, vec![0, 1, 2, 3, 4]).is_none());
    assert!(GrayImage::from_raw(0, 5, vec![]).is_some());
    assert!(GrayImage::from_raw(u32::MAX, u32::MAX, vec![]).is_none());
    let image: ImageBuffer<u8> = GrayImage::from_raw(2, 2, vec![0, 1, 2, 3]).unwrap();
    assert_eq!(image.dimensions(), (2, 2));
    assert_eq!(*image.get_pixel(1, 0), 1);
    assert_eq!(*image.get_pixel(0, 1), 2);
    assert_eq!(image.get_pixel_checked(1, 1), Some(&3));
    assert_eq!(image.get_pixel_checked(2, 0), None);
    assert_eq!(image.get_pixel_checked(0, 2), None);
}
