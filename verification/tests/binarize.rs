use ansinator::image_binarize::{otsu_value, Threshold};
use ansinator::image_buffer::GrayImage;

fn image(data: Vec<u8>) -> GrayImage {
    GrayImage::from_raw(data.len() as u32, 1, data).unwrap()
}

#[test]
fn threshold_turns_levels_above_it_white() {
    let mut img = image(vec![0, 99, 100, 101, 255]);
    img.threshold(100);
    assert_eq!(img.data, vec![0, 0, 0, 255, 255]);
    assert_eq!(img.dimensions(), (5, 1));
}

#[test]
fn threshold_at_the_ends_of_the_scale() {
    let mut img = image(vec![0, 1, 254, 255]);
    img.threshold(0);
    assert_eq!(img.data, vec![0, 255, 255, 255]);
    let mut img = image(vec![0, 1, 254, 255]);
    img.threshold(255);
    assert_eq!(img.data, vec![0, 0, 0, 0]);
}

#[test]
fn invert_exchanges_light_and_dark() {
    let mut img = image(vec![0, 1, 100, 254, 255]);
    img.invert();
    assert_eq!(img.data, vec![255, 254, 155, 1, 0]);
    img.invert();
    assert_eq!(img.data, vec![0, 1, 100, 254, 255]);
}

#[test]
fn histogram_counts_each_level() {
    let mut img = image(vec![3, 3, 0, 255, 3, 255]);
    let hist = img.get_histogram();
    assert_eq!(hist[0], 1);
    assert_eq!(hist[3], 3);
    assert_eq!(hist[255], 2);
    assert_eq!(hist.iter().sum::<usize>(), 6);
    assert_eq!(img.data, vec![3, 3, 0, 255, 3, 255]);
}

#[test]
fn otsu_parts_two_levels() {
    let mut data = vec![10u8; 30];
    data.extend(vec![240u8; 50]);
    let mut img = image(data);
    let t = img.get_otsu_value();
    assert!(10 < t && t < 240);
    assert_eq!(t, 239);
    img.otsu_threshold();
    assert_eq!(img.data.iter().filter(|p| **p == 0).count(), 30);
    assert_eq!(img.data.iter().filter(|p| **p == 255).count(), 50);
}

#[test]
fn otsu_of_two_neighbouring_levels() {
    let mut img = image(vec![10, 11, 11, 10]);
    assert_eq!(img.get_otsu_value(), 10);
    img.otsu_threshold();
    assert_eq!(img.data, vec![0, 255, 255, 0]);
}

#[test]
fn otsu_of_one_level_is_zero() {
    let mut img = image(vec![77; 12]);
    assert_eq!(img.get_otsu_value(), 0);
    img.otsu_threshold();
    assert_eq!(img.data, vec![255; 12]);
    let mut black = image(vec![0; 5]);
    assert_eq!(black.get_otsu_value(), 0);
    black.otsu_threshold();
    assert_eq!(black.data, vec![0; 5]);
    let mut empty = image(vec![]);
    assert_eq!(empty.get_otsu_value(), 0);
}

#[test]
fn otsu_takes_the_last_of_equal_thresholds() {
    let mut hist = [0usize; 256];
    hist[0] = 5;
    hist[255] = 5;
    assert_eq!(otsu_value(&hist), 254);
    hist[100] = 0;
    hist[0] = 1;
    hist[1] = 1;
    hist[255] = 0;
    assert_eq!(otsu_value(&hist), 0);
}

#[test]
fn otsu_of_three_levels() {
    // Levels 0, 100 and 110: parting 0 from the rest gives the variance
    // 210 * 210 / (1 * 2) = 22050, parting 110 from the rest
    // 120 * 120 / (2 * 1) = 7200.
    let mut hist = [0usize; 256];
    hist[0] = 1;
    hist[100] = 1;
    hist[110] = 1;
    assert_eq!(otsu_value(&hist), 99);
    // Levels 0, 10 and 110: 120 * 120 / 2 = 7200 against 210 * 210 / 2 = 22050.
    let mut hist = [0usize; 256];
    hist[0] = 1;
    hist[10] = 1;
    hist[110] = 1;
    assert_eq!(otsu_value(&hist), 109);
}

#[test]
fn otsu_weighs_the_spread_by_the_sizes_of_the_classes() {
    // One pixel of level 0, one of 200 and five of 255. Parting 0 from the
    // rest gives 1475 * 1475 / (1 * 6) = 362604.2, parting 255 from the rest
    // 1550 * 1550 / (2 * 5) = 240250: the smaller spread wins.
    let mut hist = [0usize; 256];
    hist[0] = 1;
    hist[200] = 1;
    hist[255] = 5;
    assert_eq!(otsu_value(&hist), 199);
    let mut data = vec![0u8, 200];
    data.extend(vec![255u8; 5]);
    let mut img = image(data);
    assert_eq!(img.get_otsu_value(), 199);
    img.otsu_threshold();
    assert_eq!(img.data, vec![0, 255, 255, 255, 255, 255, 255]);
}

#[test]
fn otsu_holds_the_largest_counts() {
    let third = (u64::MAX / 3) as usize;
    let mut hist = [0usize; 256];
    hist[3] = third;
    hist[200] = third;
    hist[255] = third;
    // With m pixels of each level, parting 3 from the rest gives
    // (449 m m)^2 / (2 m m), parting 255 from the rest (307 m m)^2 / (2 m m).
    assert_eq!(otsu_value(&hist), 199);
    hist[3] = 1;
    // With one pixel of level 3, parting it from the rest gives
    // (449 m)^2 / (2 m), parting 255 from the rest (55 m m + 252 m)^2 / (m m + m):
    // for a large m the second is the larger.
    assert_eq!(otsu_value(&hist), 254);
}

#[test]
fn binarize_then_invert() {
    // The order of the patterns of dots and of the sextants.
    let mut img = image(vec![50, 120, 200]);
    img.threshold(100);
    img.invert();
    assert_eq!(img.data, vec![255, 0, 0]);
}

#[test]
fn invert_then_binarize() {
    // The other order gives another image.
    let mut img = image(vec![50, 120, 200]);
    img.invert();
    img.threshold(100);
    assert_eq!(img.data, vec![255, 255, 0]);
}
