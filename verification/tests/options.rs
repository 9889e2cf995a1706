use ansinator::ansi::{Color, FilterType};
use ansinator::ascii::{AsciiColor, AsciiMode};
use ansinator::block::{BlockColor, BlockMode};
use ansinator::braile::BraileMode;
use ansinator::image_buffer::RgbImage;
use ansinator::options::{AsciiOptions, BlockOptions, DotOptions};
use ansinator::uniblock::UniblockMode;

fn ascii() -> AsciiOptions {
    AsciiOptions {
        bold: false,
        blink: false,
        underline: false,
        rgbcolor: false,
        termcolor: false,
        frgdcolor: None,
        bkgdcolor: None,
        fullscreen: false,
        width: 0,
        height: 0,
        filter: "LANCZOS".to_string(),
        invert: false,
        brightness: 0,
        luma_mode: "PATTERN_QUADRANCE".to_string(),
    }
}

fn dots() -> DotOptions {
    DotOptions {
        bold: false,
        blink: false,
        frgdcolor: None,
        bkgdcolor: None,
        fullscreen: false,
        width: 0,
        height: 0,
        filter: "LANCZOS".to_string(),
        invert: false,
        brightness: 0,
        threshold: None,
    }
}

#[test]
fn ascii_options_without_a_choice() {
    let settings = ascii().settings();
    assert!(!settings.bold && !settings.blink && !settings.underline && !settings.invert);
    assert!(!settings.has_foreground && !settings.has_background);
    assert_eq!(settings.color, AsciiColor::Fixed);
    assert_eq!(settings.mode, AsciiMode::PatternQuadrance);
    assert_eq!(settings.scale, (5, 7));
    assert_eq!(settings.size, (0, 0));
    assert_eq!(settings.filter, FilterType::Lanczos3);
    assert_eq!(settings.brighten, 0);
}

#[test]
fn ascii_options_with_every_choice() {
    let options = AsciiOptions {
        bold: true,
        blink: true,
        underline: true,
        rgbcolor: true,
        frgdcolor: Some((1, 2, 3)),
        bkgdcolor: Some((4, 5, 6)),
        width: 80,
        height: 24,
        filter: "TRIANGLE".to_string(),
        invert: true,
        brightness: -20,
        luma_mode: "GRADIENT".to_string(),
        ..ascii()
    };
    let settings = options.settings();
    assert!(settings.bold && settings.blink && settings.underline && settings.invert);
    assert!(settings.has_foreground && settings.has_background);
    assert_eq!(settings.foreground, (1, 2, 3));
    assert_eq!(settings.background, (4, 5, 6));
    assert_eq!(settings.color, AsciiColor::Truecolor);
    assert_eq!(settings.mode, AsciiMode::Gradient);
    assert_eq!(settings.scale, (1, 1));
    assert_eq!(settings.size, (80, 24));
    assert_eq!(settings.filter, FilterType::Triangle);
    assert_eq!(settings.brighten, -20);
}

#[test]
fn the_palette_overrides_the_colour_of_the_pixel() {
    let options = AsciiOptions { rgbcolor: true, termcolor: true, ..ascii() };
    assert_eq!(options.settings().color, AsciiColor::Terminalcolor);
    let options = AsciiOptions { termcolor: true, ..ascii() };
    assert_eq!(options.settings().color, AsciiColor::Terminalcolor);
}

#[test]
fn ascii_modes_have_names() {
    let named = |name: &str| AsciiOptions { luma_mode: name.to_string(), ..ascii() }.settings();
    assert_eq!(named("GRADIENT").mode, AsciiMode::Gradient);
    assert_eq!(named("PATTERN_QUADRANCE").mode, AsciiMode::PatternQuadrance);
    assert_eq!(named("PATTERN_SSIM").mode, AsciiMode::PatternSsim);
    assert_eq!(named("PATTERN_SSIM").scale, (5, 7));
    assert_eq!(named("gradient").mode, AsciiMode::PatternQuadrance);
    assert_eq!(named("").mode, AsciiMode::PatternQuadrance);
}

#[test]
fn the_terminal_is_asked_for_the_size_only_on_request() {
    let options = AsciiOptions { fullscreen: true, width: 3, height: 4, bold: true, ..ascii() };
    let settings = options.settings();
    assert!(settings.bold);
    assert_eq!(settings.mode, AsciiMode::PatternQuadrance);
    let options = AsciiOptions { width: 3, height: 4, ..ascii() };
    assert_eq!(options.settings().size, (3, 4));
}

fn blocks() -> BlockOptions {
    BlockOptions {
        bold: false,
        blink: false,
        termcolor: false,
        fullscreen: false,
        width: 10,
        height: 0,
        filter: "NEAREST".to_string(),
        invert: false,
        brightness: 7,
        block_mode: "HALF".to_string(),
    }
}

#[test]
fn block_options() {
    let options = blocks();
    let settings = options.settings();
    assert!(!settings.blink && !settings.bold && !settings.underline && !settings.invert);
    assert_eq!(settings.color, BlockColor::Truecolor);
    assert_eq!(settings.mode, BlockMode::Half);
    assert_eq!(settings.scale, (1, 2));
    assert_eq!(settings.size, (10, 0));
    assert_eq!(settings.filter, FilterType::Nearest);
    assert_eq!(settings.brighten, 7);
    let options = BlockOptions {
        blink: true,
        termcolor: true,
        block_mode: "WHOLE".to_string(),
        filter: "CATMULLROM".to_string(),
        ..options
    };
    let settings = options.settings();
    assert!(settings.blink);
    assert_eq!(settings.color, BlockColor::Terminalcolor);
    assert_eq!(settings.mode, BlockMode::Whole);
    assert_eq!(settings.scale, (1, 1));
    assert_eq!(settings.filter, FilterType::CatmullRom);
    let options = BlockOptions { block_mode: "other".to_string(), ..options };
    assert_eq!(options.settings().mode, BlockMode::Half);
}

#[test]
fn block_options_invert_and_embolden() {
    let settings = BlockOptions { invert: true, ..blocks() }.settings();
    assert!(settings.invert && !settings.bold);
    let settings = BlockOptions { bold: true, ..blocks() }.settings();
    assert!(settings.bold && !settings.invert);
    let settings = BlockOptions { bold: true, invert: true, ..blocks() }.settings();
    assert!(settings.bold && settings.invert && !settings.blink && !settings.underline);
}

#[test]
fn the_block_command_draws_the_inverted_image() {
    let image = RgbImage::from_raw(2, 1, vec![(10, 100, 250), (0, 255, 128)]).unwrap();
    let options = BlockOptions {
        invert: true,
        width: 0,
        brightness: 0,
        block_mode: "WHOLE".to_string(),
        ..blocks()
    };
    let result = options.settings().convert(&image).unwrap();
    let black = Color::RGB(0, 0, 0);
    assert_eq!(
        result.data,
        vec![
            black.on(Color::RGB(245, 155, 5)).paint(' '),
            black.on(Color::RGB(255, 0, 127)).paint(' '),
            black.on(Color::RGB(255, 0, 127)).paint('\n'),
        ]
    );
    let plain = BlockOptions { invert: false, ..options };
    let result = plain.settings().convert(&image).unwrap();
    assert_eq!(result.data[0], black.on(Color::RGB(10, 100, 250)).paint(' '));
}

#[test]
fn the_size_follows_the_answer_of_the_terminal() {
    let full = AsciiOptions { fullscreen: true, width: 3, height: 4, ..ascii() };
    assert_eq!(full.settings_with(Some((80, 24))).size, (80, 24));
    assert_eq!(full.settings_with(None).size, (0, 0));
    let sized = AsciiOptions { width: 3, height: 4, ..ascii() };
    assert_eq!(sized.settings_with(Some((80, 24))).size, (3, 4));
    assert_eq!(sized.settings_with(None).size, (3, 4));
    let full = BlockOptions { fullscreen: true, ..blocks() };
    assert_eq!(full.settings_with(Some((132, 43))).size, (132, 43));
    assert_eq!(full.settings_with(None).size, (0, 0));
    assert_eq!(blocks().settings_with(Some((132, 43))).size, (10, 0));
    let full = DotOptions { fullscreen: true, width: 5, height: 6, ..dots() };
    assert_eq!(full.braile_settings_with(Some((80, 24))).size, (80, 24));
    assert_eq!(full.braile_settings_with(None).size, (0, 0));
    assert_eq!(full.uniblock_settings_with(Some((u16::MAX, 1))).size, (65535, 1));
    assert_eq!(full.uniblock_settings_with(None).size, (0, 0));
    let sized = DotOptions { width: 5, height: 6, ..dots() };
    assert_eq!(sized.braile_settings_with(Some((80, 24))).size, (5, 6));
    assert_eq!(sized.uniblock_settings_with(None).size, (5, 6));
}

#[test]
fn the_answer_of_the_terminal_changes_nothing_but_the_size() {
    let options = AsciiOptions {
        fullscreen: true,
        bold: true,
        invert: true,
        luma_mode: "GRADIENT".to_string(),
        ..ascii()
    };
    let with = options.settings_with(Some((80, 24)));
    let without = options.settings_with(None);
    assert!(with.bold && with.invert && without.bold && without.invert);
    assert_eq!(with.mode, AsciiMode::Gradient);
    assert_eq!(without.mode, AsciiMode::Gradient);
    assert_eq!(with.scale, (1, 1));
    let asked = options.settings();
    assert!(asked.bold && asked.invert);
    assert_eq!(asked.mode, AsciiMode::Gradient);
}

#[test]
fn braille_options() {
    let settings = dots().braile_settings();
    assert_eq!(settings.mode, BraileMode::OtsuThreshold);
    assert!(!settings.has_threshold);
    assert_eq!(settings.scale, (2, 4));
    assert_eq!(settings.filter, FilterType::Lanczos3);
    let options = DotOptions {
        bold: true,
        blink: true,
        frgdcolor: Some((1, 2, 3)),
        bkgdcolor: Some((4, 5, 6)),
        width: 40,
        height: 20,
        filter: "GAUSSIAN".to_string(),
        invert: true,
        brightness: 3,
        threshold: Some(50),
        ..dots()
    };
    let settings = options.braile_settings();
    assert!(settings.bold && settings.blink && settings.invert && !settings.underline);
    assert!(settings.has_foreground && settings.has_background && settings.has_threshold);
    assert_eq!(settings.foreground, (1, 2, 3));
    assert_eq!(settings.background, (4, 5, 6));
    assert_eq!(settings.threshold, 50);
    assert_eq!(settings.mode, BraileMode::ManualThreshold);
    assert_eq!(settings.size, (40, 20));
    assert_eq!(settings.scale, (2, 4));
    assert_eq!(settings.filter, FilterType::Gaussian);
    assert_eq!(settings.brighten, 3);
}

#[test]
fn sextant_options() {
    let settings = dots().uniblock_settings();
    assert_eq!(settings.mode, UniblockMode::OtsuThreshold);
    assert_eq!(settings.scale, (2, 3));
    let options = DotOptions { threshold: Some(0), invert: true, width: 5, ..dots() };
    let settings = options.uniblock_settings();
    assert_eq!(settings.mode, UniblockMode::ManualThreshold);
    assert_eq!(settings.threshold, 0);
    assert!(settings.has_threshold && settings.invert);
    assert_eq!(settings.size, (5, 0));
    assert_eq!(settings.scale, (2, 3));
}
