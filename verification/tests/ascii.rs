use ansinator::ansi::{AnsiImageResult, Ansinator, Color, Style, StyledCell};
use ansinator::ascii::{
    characters, luma_mapping, window_analysis_quadrance, window_analysis_ssim, AnsiAscii,
};
use ansinator::ascii_font::{font_set, AsciiFont};
use ansinator::image_buffer::{GrayImage, RgbImage};

fn setup_image_size() -> (u32, u32) {
    return (120, 50);
}

fn setup_image() -> RgbImage {
    let (width, height) = (64u32, 48u32);
    let mut data = vec![];
    for y in 0..height {
        for x in 0..width {
            let ring = ((x as i32 - 32).pow(2) + (y as i32 - 24).pow(2)) as u32;
            data.push(((x * 4) as u8, (y * 5) as u8, (ring % 256) as u8));
        }
    }
    RgbImage::from_raw(width, height, data).unwrap()
}

fn plain() -> Style {
    Style {
        foreground: None,
        background: None,
        is_bold: false,
        is_blink: false,
        is_underline: false,
    }
}

fn line_end() -> StyledCell {
    StyledCell { style: plain(), text: '\n' }
}

fn check_rows(result: &AnsiImageResult, width: usize, height: usize) {
    assert_eq!(result.data.len(), (width + 1) * height);
    for y in 0..height {
        assert_eq!(result.data[y * (width + 1) + width], line_end());
        for x in 0..width {
            assert_ne!(result.data[y * (width + 1) + x].text, '\n');
        }
    }
}

fn glyph_image(text: &[&str]) -> (RgbImage, GrayImage) {
    let height = text.len() as u32;
    let width = text[0].chars().count() as u32;
    let mut luma = vec![0u8; (width * 5 * height * 7) as usize];
    for (row, line) in text.iter().enumerate() {
        for (col, ch) in line.chars().enumerate() {
            let font = AsciiFont::from(ch);
            for j in 0..7 {
                for i in 0..5 {
                    let x = col * 5 + i;
                    let y = row * 7 + j;
                    luma[y * (width as usize * 5) + x] = font.data[j * 5 + i];
                }
            }
        }
    }
    let rgb: Vec<(u8, u8, u8)> = (0..width * height).map(|i| (i as u8, 2 * i as u8, 255)).collect();
    (
        RgbImage::from_raw(width, height, rgb).unwrap(),
        GrayImage::from_raw(width * 5, height * 7, luma).unwrap(),
    )
}

#[test]
fn ascii_test_gradient_truecolor() {
    let (w, h) = setup_image_size();
    let image = setup_image();

    let ascii = AnsiAscii::new().bold().underline().true_color().gradient().size(w, h);

    println!("{:?}", ascii);

    let result = ascii.convert(&image, "012345789").unwrap();

    check_rows(&result, 120, 50);
    assert!(result.data.iter().all(|c| c.text == '\n' || "012345789".contains(c.text)));
    assert!(!result.to_ansi_string().is_empty());
}

#[test]
fn ascii_test_gradient_terminalcolor() {
    let (w, h) = setup_image_size();
    let image = setup_image();

    let ascii = AnsiAscii::new().bold().underline().terminal_color().gradient().size(w, h);

    println!("{:?}", ascii);

    let result = ascii.convert(&image, "012345789").unwrap();

    check_rows(&result, 120, 50);
    for cell in result.data.iter().filter(|c| c.text != '\n') {
        assert!(matches!(cell.style.foreground, Some(Color::Fixed(_))));
        assert!(cell.style.is_bold && cell.style.is_underline && !cell.style.is_blink);
    }
}

#[test]
fn ascii_test_gradient_fixedcolor() {
    let (w, h) = setup_image_size();
    let image = setup_image();

    let ascii = AnsiAscii::new()
        .bold()
        .underline()
        .set_foreground((255, 0, 255))
        .set_background((0, 255, 255))
        .gradient()
        .size(w, h);

    println!("{:?}", ascii);

    let result = ascii.convert(&image, "012345789").unwrap();

    check_rows(&result, 120, 50);
    let style = Color::RGB(255, 0, 255).on(Color::RGB(0, 255, 255)).bold().underline();
    assert!(result.data.iter().all(|c| c.text == '\n' || c.style == style));
}

#[test]
fn test_pattern_truecolor() {
    let (w, h) = setup_image_size();
    let image = setup_image();

    let ascii = AnsiAscii::new().bold().underline().true_color().pattern().size(w, h);

    println!("{:?}", ascii);

    let result = ascii.convert(&image, "012345789").unwrap();

    check_rows(&result, 120, 50);
}

#[test]
fn test_pattern_terminalcolor() {
    let (w, h) = setup_image_size();
    let image = setup_image();

    let ascii = AnsiAscii::new().bold().underline().terminal_color().pattern().size(w, h);

    println!("{:?}", ascii);

    let result = ascii.convert(&image, "012345789").unwrap();

    check_rows(&result, 120, 50);
}

#[test]
fn test_pattern_fixed() {
    let (w, h) = setup_image_size();
    let image = setup_image();

    let ascii = AnsiAscii::new()
        .bold()
        .underline()
        .set_foreground((150, 50, 200))
        .set_background((50, 255, 155))
        .pattern()
        .size(w, h);

    println!("{:?}", ascii);

    let result = ascii.convert(&image, "012345789").unwrap();

    check_rows(&result, 120, 50);
}

#[test]
fn test_pattern_quadrance_truecolor() {
    let (w, h) = setup_image_size();
    let image = setup_image();

    let ascii = AnsiAscii::new().bold().underline().true_color().pattern_quadrance().size(w, h);

    println!("{:?}", ascii);

    let result = ascii.convert(&image, "012345789").unwrap();

    check_rows(&result, 120, 50);
    assert!(result.data.iter().all(|c| c.text == '\n' || "012345789".contains(c.text)));
}

#[test]
fn test_pattern_ssim_truecolor() {
    let (w, h) = setup_image_size();
    let image = setup_image();

    let ascii = AnsiAscii::new().bold().underline().true_color().pattern_ssim().size(w, h);

    println!("{:?}", ascii);

    let result = ascii.convert(&image, "012345789").unwrap();

    check_rows(&result, 120, 50);
    assert!(result.data.iter().all(|c| c.text == '\n' || "012345789".contains(c.text)));
}

#[test]
fn test_pattern_quadrance_terminalcolor() {
    let (w, h) = setup_image_size();
    let image = setup_image();

    let ascii =
        AnsiAscii::new().bold().underline().terminal_color().pattern_quadrance().size(w, h);

    println!("{:?}", ascii);

    let result = ascii.convert(&image, "012345789").unwrap();

    check_rows(&result, 120, 50);
}

#[test]
fn test_pattern_ssim_terminalcolor() {
    let (w, h) = setup_image_size();
    let image = setup_image();

    let ascii = AnsiAscii::new().bold().underline().terminal_color().pattern_ssim().size(w, h);

    println!("{:?}", ascii);

    let result = ascii.convert(&image, "012345789").unwrap();

    check_rows(&result, 120, 50);
}

#[test]
fn test_pattern_quadrance_fixed() {
    let (w, h) = setup_image_size();
    let image = setup_image();

    let ascii = AnsiAscii::new()
        .bold()
        .underline()
        .set_foreground((150, 50, 200))
        .set_background((50, 255, 155))
        .pattern_quadrance()
        .size(w, h);

    println!("{:?}", ascii);

    let result = ascii.convert(&image, "012345789").unwrap();

    check_rows(&result, 120, 50);
}

#[test]
fn test_pattern_ssim_fixed() {
    let (w, h) = setup_image_size();
    let image = setup_image();

    let ascii = AnsiAscii::new()
        .bold()
        .underline()
        .set_foreground((150, 50, 200))
        .set_background((50, 255, 155))
        .pattern_ssim()
        .size(w, h);

    println!("{:?}", ascii);

    let result = ascii.convert(&image, "012345789").unwrap();

    check_rows(&result, 120, 50);
}

#[test]
fn a_white_image_is_drawn_with_the_last_character() {
    let image = RgbImage::from_raw(10, 10, vec![(255, 255, 255); 100]).unwrap();
    let ascii = AnsiAscii::new().gradient();
    let result = ascii.convert(&image, "AB").unwrap();
    let size = ascii.size_aspect_ratio((10, 10));
    assert_eq!(size, (10, 10));
    assert_eq!(result.data.iter().filter(|c| c.text == '\n').count(), size.1 as usize);
    check_rows(&result, 10, 10);
    assert!(result.data.iter().all(|c| c.text == '\n' || c.text == 'B'));
    let text = result.to_ansi_string();
    assert_eq!(text, "BBBBBBBBBB\n".repeat(10));
}

#[test]
fn a_black_image_is_drawn_with_the_first_character() {
    let image = RgbImage::from_raw(4, 2, vec![(0, 0, 0); 8]).unwrap();
    let result = AnsiAscii::new().gradient().convert(&image, "AB").unwrap();
    assert_eq!(result.to_ansi_string(), "AAAA\nAAAA\n");
    let result = AnsiAscii::new().gradient().invert().convert(&image, "AB").unwrap();
    assert_eq!(result.to_ansi_string(), "BBBB\nBBBB\n");
    let result = AnsiAscii::new().gradient().brighten(255).convert(&image, "AB").unwrap();
    assert_eq!(result.to_ansi_string(), "BBBB\nBBBB\n");
}

#[test]
fn an_empty_character_set_draws_spaces() {
    let image = RgbImage::from_raw(3, 2, vec![(9, 99, 199); 6]).unwrap();
    for ascii in [
        AnsiAscii::new().gradient(),
        AnsiAscii::new().pattern_quadrance(),
        AnsiAscii::new().pattern_ssim(),
    ] {
        let result = ascii.convert(&image, "").unwrap();
        assert_eq!(result.to_ansi_string(), "   \n   \n");
    }
}

#[test]
fn new_settings_draw_by_the_shape_of_the_glyphs() {
    let image = RgbImage::from_raw(3, 2, vec![(255, 255, 255); 6]).unwrap();
    let result = AnsiAscii::new().convert(&image, " #").unwrap();
    assert_eq!(result.to_ansi_string(), "###\n###\n");
}

#[test]
fn ascii_nothing_is_drawn_of_an_image_without_extent() {
    let empty = RgbImage::from_raw(0, 0, vec![]).unwrap();
    assert!(AnsiAscii::new().gradient().convert(&empty, "AB").is_none());
    assert!(AnsiAscii::new().gradient().size(3, 3).convert(&empty, "AB").is_none());
    let flat = RgbImage::from_raw(0, 4, vec![]).unwrap();
    assert!(AnsiAscii::new().pattern_ssim().size(0, 2).convert(&flat, "AB").is_none());
    let image = RgbImage::from_raw(2, 2, vec![(1, 2, 3); 4]).unwrap();
    assert!(AnsiAscii::new().gradient().size(u32::MAX, 1).convert(&image, "AB").is_none());
    assert!(AnsiAscii::new().pattern().size(1, u32::MAX).convert(&image, "AB").is_none());
}

#[test]
fn the_gradient_lays_the_levels_evenly_over_the_characters() {
    let luma = GrayImage::from_raw(6, 1, vec![0, 84, 85, 127, 254, 255]).unwrap();
    let chars: Vec<char> = " .:#".chars().collect();
    let picked: String = (0..6).map(|x| luma_mapping(&luma, x, 0, &chars)).collect();
    // index = level * 3 / 255
    assert_eq!(picked, "  ..:#");
    let one: Vec<char> = vec!['x'];
    assert_eq!(luma_mapping(&luma, 5, 0, &one), 'x');
    assert_eq!(luma_mapping(&luma, 0, 0, &vec![]), ' ');
}

#[test]
fn the_gradient_keeps_the_order_and_the_repeats_of_the_characters() {
    let luma = GrayImage::from_raw(3, 1, vec![0, 128, 255]).unwrap();
    let chars = characters("zaz");
    assert_eq!(chars, vec!['z', 'a', 'z']);
    let picked: String = (0..3).map(|x| luma_mapping(&luma, x, 0, &chars)).collect();
    assert_eq!(picked, "zaz");
    assert_eq!(characters(""), Vec::<char>::new());
    assert_eq!(characters("é\n"), vec!['é', '\n']);
}

#[test]
fn a_patch_that_is_a_glyph_is_drawn_with_its_character() {
    let (rgb, luma) = glyph_image(&["Hi!", "ok?"]);
    let set = font_set("Hi!ok? #@");
    let ascii = AnsiAscii::new().true_color();
    let by_quadrance = ascii.ascii_pattern_quadrance(&rgb, &luma, &set);
    let by_ssim = ascii.ascii_pattern_ssim(&rgb, &luma, &set);
    for result in [by_quadrance, by_ssim] {
        check_rows(&result, 3, 2);
        let text: String = result.data.iter().map(|c| c.text).collect();
        assert_eq!(text, "Hi!\nok?\n");
        for (i, cell) in result.data.iter().filter(|c| c.text != '\n').enumerate() {
            let i = i as u8;
            assert_eq!(cell.style, Color::RGB(i, 2 * i, 255).normal());
        }
    }
    assert_eq!(window_analysis_quadrance(&luma, 2, 1, &set), '?');
    assert_eq!(window_analysis_ssim(&luma, 0, 0, &set), 'H');
}

#[test]
fn render_draws_in_the_mode_of_the_settings() {
    let (rgb, luma) = glyph_image(&["Hi!", "ok?"]);
    let ascii = AnsiAscii::new().pattern_quadrance();
    let text: String = ascii.render(&rgb, &luma, "?ko!iH").data.iter().map(|c| c.text).collect();
    assert_eq!(text, "Hi!\nok?\n");
    let ascii = AnsiAscii::new().pattern_ssim();
    let text: String = ascii.render(&rgb, &luma, "?ko!iH").data.iter().map(|c| c.text).collect();
    assert_eq!(text, "Hi!\nok?\n");
    let small = GrayImage::from_raw(3, 2, vec![0, 128, 255, 255, 128, 0]).unwrap();
    let ascii = AnsiAscii::new().gradient();
    let text: String = ascii.render(&rgb, &small, "abc").data.iter().map(|c| c.text).collect();
    assert_eq!(text, "abc\ncba\n");
}

#[test]
fn the_gradient_colours_each_character_as_its_pixel() {
    let rgb = RgbImage::from_raw(2, 1, vec![(255, 0, 0), (0, 0, 255)]).unwrap();
    let luma = GrayImage::from_raw(2, 1, vec![0, 255]).unwrap();
    let chars = vec!['-', '+'];
    let result = AnsiAscii::new().true_color().bold().ascii_gradient(&rgb, &luma, &chars);
    assert_eq!(
        result.data,
        vec![
            Color::RGB(255, 0, 0).normal().bold().paint('-'),
            Color::RGB(0, 0, 255).normal().bold().paint('+'),
            line_end(),
        ]
    );
    assert_eq!(
        result.to_ansi_string(),
        "\x1b[1;38;2;255;0;0m-\x1b[38;2;0;0;255m+\x1b[0m\n"
    );
    let result = AnsiAscii::new().terminal_color().ascii_gradient(&rgb, &luma, &chars);
    assert_eq!(
        result.data,
        vec![Color::Fixed(9).normal().paint('-'), Color::Fixed(12).normal().paint('+'), line_end()]
    );
}

#[test]
fn styles_follow_the_way_of_colouring() {
    let ascii = AnsiAscii::new();
    assert_eq!(ascii.get_color(1, 2, 3), plain());
    assert_eq!(ascii.true_color().get_color(1, 2, 3), Color::RGB(1, 2, 3).normal());
    assert_eq!(ascii.terminal_color().get_color(255, 255, 255), Color::Fixed(15).normal());
    assert_eq!(
        ascii.set_foreground((7, 8, 9)).get_color(1, 2, 3),
        Color::RGB(7, 8, 9).normal()
    );
    assert_eq!(
        ascii.set_background((7, 8, 9)).get_style(1, 2, 3),
        Color::RGB(0, 0, 0).on(Color::RGB(7, 8, 9))
    );
    assert_eq!(
        ascii.true_color().set_foreground((7, 8, 9)).get_color(1, 2, 3),
        Color::RGB(1, 2, 3).normal()
    );
    assert_eq!(
        ascii.true_color().bold().blink().underline().get_style(1, 2, 3),
        Color::RGB(1, 2, 3).normal().bold().blink().underline()
    );
}

#[test]
fn ascii_the_output_has_the_size_that_was_asked_for() {
    let image = setup_image();
    let result = AnsiAscii::new().gradient().size(0, 12).convert(&image, " .:#").unwrap();
    check_rows(&result, 16, 12);
    let result = AnsiAscii::new().pattern_ssim().size(8, 0).convert(&image, " .:#").unwrap();
    check_rows(&result, 8, 6);
    let result = AnsiAscii::new().gradient().convert(&image, " .:#").unwrap();
    check_rows(&result, 64, 48);
}

#[test]
fn an_inverted_white_image_is_drawn_with_the_first_character() {
    let image = RgbImage::from_raw(10, 10, vec![(255, 255, 255); 100]).unwrap();
    let ascii = AnsiAscii::new().gradient().invert();
    let result = ascii.convert(&image, "AB").unwrap();
    check_rows(&result, 10, 10);
    assert!(result.data.iter().all(|c| c.text == '\n' || c.text == 'A'));
    assert_eq!(result.to_ansi_string(), "AAAAAAAAAA\n".repeat(10));
}

#[test]
fn an_inverted_image_is_coloured_by_its_inverted_pixels() {
    let image = RgbImage::from_raw(2, 1, vec![(10, 100, 250), (255, 255, 255)]).unwrap();
    let ascii = AnsiAscii::new().gradient().true_color().invert();
    let result = ascii.convert(&image, "abc").unwrap();
    // The grey level of (245, 155, 5) is 163, which is the second of three
    // characters.
    assert_eq!(
        result.data,
        vec![
            Color::RGB(245, 155, 5).normal().paint('b'),
            Color::RGB(0, 0, 0).normal().paint('a'),
            line_end(),
        ]
    );
}

#[test]
fn a_resized_image_is_drawn_at_the_size_of_the_output() {
    let image = RgbImage::from_raw(2, 1, vec![(0, 0, 0), (255, 255, 255)]).unwrap();
    let ascii = AnsiAscii::new().gradient();
    let result = ascii.convert_resized(image.clone(), (2, 1), "AB").unwrap();
    assert_eq!(result.to_ansi_string(), "AB\n");
    let result = ascii.invert().convert_resized(image.clone(), (2, 1), "AB").unwrap();
    assert_eq!(result.to_ansi_string(), "BA\n");
    // The image must have the size of the output times the scale.
    assert!(ascii.convert_resized(image.clone(), (1, 1), "AB").is_none());
    assert!(ascii.convert_resized(image.clone(), (2, 2), "AB").is_none());
    assert!(ascii.pattern_ssim().convert_resized(image, (2, 1), "AB").is_none());
    let patch = RgbImage::from_raw(5, 7, vec![(255, 255, 255); 35]).unwrap();
    let pattern = AnsiAscii::new().pattern_quadrance();
    let result = pattern.convert_resized(patch.clone(), (1, 1), " #").unwrap();
    assert_eq!(result.to_ansi_string(), "#\n");
    let result = pattern.invert().convert_resized(patch, (1, 1), " #").unwrap();
    assert_eq!(result.to_ansi_string(), " \n");
    let empty = RgbImage::from_raw(0, 0, vec![]).unwrap();
    assert!(ascii.convert_resized(empty, (0, 0), "AB").is_none());
}
