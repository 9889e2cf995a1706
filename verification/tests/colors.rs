use ansinator::ansi::Color;
use ansinator::func::{rgbcolor, termcolor};
use ansinator::terminal_colors::{palette_color, squared_distance, TermColor, SYSTEM_COLORS};

#[test]
fn the_palette_opens_with_the_named_colours() {
    for index in 0..16u8 {
        assert_eq!(palette_color(index), SYSTEM_COLORS[index as usize]);
    }
    assert_eq!(palette_color(1), (128, 0, 0));
    assert_eq!(palette_color(7), (192, 192, 192));
    assert_eq!(palette_color(15), (255, 255, 255));
}

#[test]
fn the_palette_holds_a_cube_of_six_levels() {
    assert_eq!(palette_color(16), (0, 0, 0));
    assert_eq!(palette_color(17), (0, 0, 95));
    assert_eq!(palette_color(21), (0, 0, 255));
    assert_eq!(palette_color(22), (0, 95, 0));
    assert_eq!(palette_color(52), (95, 0, 0));
    assert_eq!(palette_color(67), (95, 135, 175));
    assert_eq!(palette_color(196), (255, 0, 0));
    assert_eq!(palette_color(231), (255, 255, 255));
}

#[test]
fn the_palette_closes_with_a_ramp_of_greys() {
    assert_eq!(palette_color(232), (8, 8, 8));
    assert_eq!(palette_color(233), (18, 18, 18));
    assert_eq!(palette_color(255), (238, 238, 238));
}

#[test]
fn distance_is_the_sum_of_the_squares() {
    assert_eq!(squared_distance((0, 0, 0), (255, 255, 255)), 195075);
    assert_eq!(squared_distance((255, 255, 255), (0, 0, 0)), 195075);
    assert_eq!(squared_distance((10, 20, 30), (13, 16, 30)), 25);
    assert_eq!(squared_distance((7, 8, 9), (7, 8, 9)), 0);
}

#[test]
fn a_colour_of_the_palette_is_its_own_nearest() {
    let color = TermColor::from(95, 135, 175);
    assert_eq!(color.index, 67);
    assert_eq!(color.rgb, (95, 135, 175));
    assert_eq!(TermColor::from(8, 8, 8).index, 232);
    assert_eq!(TermColor::from(238, 238, 238).index, 255);
    assert_eq!(TermColor::from(128, 0, 128).index, 5);
}

#[test]
fn of_equal_colours_the_lowest_index_is_taken() {
    // Black, red and white lie in the palette more than once.
    assert_eq!(TermColor::from(0, 0, 0).index, 0);
    assert_eq!(TermColor::from(255, 0, 0).index, 9);
    assert_eq!(TermColor::from(255, 255, 255).index, 15);
    assert_eq!(TermColor::from(0, 0, 255).index, 12);
}

#[test]
fn the_nearest_colour_is_nearer_than_every_other() {
    for rgb in [(1u8, 2u8, 3u8), (100, 100, 100), (250, 10, 130), (60, 200, 90), (127, 127, 127)] {
        let color = TermColor::from(rgb.0, rgb.1, rgb.2);
        let least = squared_distance(rgb, color.rgb);
        assert_eq!(color.rgb, palette_color(color.index));
        for index in 0..=255u8 {
            let d = squared_distance(rgb, palette_color(index));
            assert!(least <= d);
            if index < color.index {
                assert!(least < d);
            }
        }
    }
}

#[test]
fn nearest_colours_of_some_colours() {
    assert_eq!(TermColor::from(100, 100, 100).index, 241);
    assert_eq!(TermColor::from(1, 2, 3).index, 0);
    assert_eq!(TermColor::from(250, 10, 130).index, 198);
}

#[test]
fn colours_of_a_terminal_for_colours_of_an_image() {
    assert_eq!(termcolor(255, 255, 255), Color::Fixed(15));
    assert_eq!(termcolor(95, 135, 175), Color::Fixed(67));
    assert_eq!(termcolor(3, 2, 1), Color::Fixed(0));
    assert_eq!(rgbcolor(3, 2, 1), Color::RGB(3, 2, 1));
}
