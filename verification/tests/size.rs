use ansinator::ansi::{AnsiImage, Ansinator};
use ansinator::ascii::AnsiAscii;
use ansinator::braile::AnsiBraile;
use ansinator::func::get_actual_size;
use ansinator::image_buffer::RgbImage;

#[test]
fn a_request_of_nothing_gives_the_size_of_the_image() {
    assert_eq!(get_actual_size((100, 50), (0, 0)), (100, 50));
    assert_eq!(get_actual_size((0, 0), (0, 0)), (0, 0));
}

#[test]
fn a_height_gives_the_width_in_proportion() {
    assert_eq!(get_actual_size((100, 50), (0, 20)), (40, 20));
    assert_eq!(get_actual_size((640, 480), (0, 30)), (40, 30));
    assert_eq!(get_actual_size((10, 30), (0, 10)), (3, 10));
}

#[test]
fn a_width_gives_the_height_in_proportion() {
    assert_eq!(get_actual_size((100, 50), (40, 0)), (40, 20));
    assert_eq!(get_actual_size((640, 480), (40, 0)), (40, 30));
    assert_eq!(get_actual_size((30, 10), (10, 0)), (10, 3));
}

#[test]
fn a_full_request_is_kept() {
    assert_eq!(get_actual_size((100, 50), (30, 30)), (30, 30));
    assert_eq!(get_actual_size((0, 0), (30, 30)), (30, 30));
    assert_eq!(get_actual_size((1, 70000), (30, 30)), (30, 30));
    assert_eq!(get_actual_size((u32::MAX, 1), (1, u32::MAX)), (1, u32::MAX));
}

#[test]
fn a_side_in_proportion_stops_at_the_largest_number() {
    assert_eq!(get_actual_size((u32::MAX, 1), (0, 2)), (u32::MAX, 2));
    assert_eq!(get_actual_size((1, u32::MAX), (2, 0)), (2, u32::MAX));
    assert_eq!(get_actual_size((u32::MAX, u32::MAX), (0, u32::MAX)), (u32::MAX, u32::MAX));
}

#[test]
fn an_image_without_extent_has_a_size_all_the_same() {
    assert_eq!(get_actual_size((100, 0), (0, 20)), (u32::MAX, 20));
    assert_eq!(get_actual_size((0, 0), (0, 20)), (0, 20));
    assert_eq!(get_actual_size((0, 50), (0, 20)), (0, 20));
    assert_eq!(get_actual_size((0, 50), (40, 0)), (40, u32::MAX));
    assert_eq!(get_actual_size((0, 0), (40, 0)), (40, 0));
    assert_eq!(get_actual_size((100, 0), (40, 0)), (40, 0));
}

#[test]
fn settings_resolve_their_size_the_same_way() {
    let ascii = AnsiAscii::new();
    assert_eq!(ascii.size_aspect_ratio((100, 50)), (100, 50));
    assert_eq!(ascii.size(0, 20).size_aspect_ratio((100, 50)), (40, 20));
    assert_eq!(ascii.size(40, 0).size_aspect_ratio((100, 50)), (40, 20));
    assert_eq!(ascii.size(30, 30).size_aspect_ratio((100, 50)), (30, 30));
    assert_eq!(ascii.size(30, 30).size_aspect_ratio((7, 9000)), (30, 30));
}

#[test]
fn the_working_size_is_the_size_times_the_scale() {
    let ascii = AnsiAscii::new().pattern_quadrance().size(0, 20);
    assert_eq!(ascii.scaled_size((100, 50)), Some((200, 140)));
    let braile = AnsiBraile::new().otsu_threshold().size(40, 0);
    assert_eq!(braile.scaled_size((100, 50)), Some((80, 80)));
    let plain: AnsiAscii = AnsiImage::new();
    assert_eq!(plain.scaled_size((100, 50)), Some((100, 50)));
}

#[test]
fn there_is_no_working_size_without_extent_or_beyond_the_numbers() {
    let ascii = AnsiAscii::new().pattern_quadrance();
    assert_eq!(ascii.scaled_size((0, 0)), None);
    assert_eq!(ascii.scaled_size((0, 10)), None);
    assert_eq!(ascii.scaled_size((10, 0)), None);
    assert_eq!(ascii.size(0, 20).scaled_size((100, 0)), None);
    assert_eq!(ascii.size(u32::MAX / 5 + 1, 1).scaled_size((1, 1)), None);
    assert_eq!(ascii.size(1, u32::MAX / 7 + 1).scaled_size((1, 1)), None);
    assert_eq!(ascii.size(u32::MAX / 5, u32::MAX / 7).scaled_size((1, 1)),
        Some((u32::MAX / 5 * 5, u32::MAX / 7 * 7)));
    let mut odd = ascii.size(3, 3);
    odd.scale = (0, 1);
    assert_eq!(odd.scaled_size((1, 1)), None);
}

#[test]
fn an_image_is_brought_to_its_working_size() {
    let image = RgbImage::from_raw(4, 2, vec![(9, 8, 7); 8]).unwrap();
    let ascii = AnsiAscii::new().pattern_ssim().size(0, 3);
    let resized = ascii.image_resize_with_scale(&image).unwrap();
    assert_eq!(resized.dimensions(), (30, 21));
    assert_eq!(resized.data, vec![(9, 8, 7); 630]);
    let braile = AnsiBraile::new().otsu_threshold();
    assert_eq!(braile.image_resize_with_scale(&image).unwrap().dimensions(), (8, 8));
    let empty = RgbImage::from_raw(0, 0, vec![]).unwrap();
    assert!(ascii.image_resize_with_scale(&empty).is_none());
    assert!(braile.size(u32::MAX, 1).image_resize_with_scale(&image).is_none());
    assert!(braile.size(0x80_0000, 1).image_resize_with_scale(&image).is_none());
}
