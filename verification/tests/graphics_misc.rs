use wormhole::drcs::brightness_to_drcs_char;
use wormhole::webcam::RenderMode;
use wormhole::webcam::brightness_to_char;
use wormhole::webcam::brightness_to_enhanced_char;
use wormhole::webcam::{parse_device_index, WebcamError};
use wormhole::sixel::{encode_grayscale, encode_run, SixelConfig, DCS, ST};

#[test]
fn test_sixel_config_default() {
    let config = SixelConfig::default();
    assert_eq!(config.gray_levels, 8);
    assert!(config.use_rle);
}

#[test]
fn test_encode_run() {
    assert_eq!(encode_run('A', 0), "");
    assert_eq!(encode_run('A', 1), "A");
    assert_eq!(encode_run('A', 2), "AA");
    assert_eq!(encode_run('A', 3), "AAA");
    assert_eq!(encode_run('A', 4), "!4A");
    assert_eq!(encode_run('A', 100), "!100A");
}

#[test]
fn test_encode_small_image() {
    // a 6x6 grayscale gradient
    let mut pixels = Vec::new();
    for y in 0..6u32 {
        for x in 0..6u32 {
            pixels.push(((x + y) * 20) as u8);
        }
    }
    let config = SixelConfig {
        gray_levels: 4,
        use_rle: false,
    };
    let result = encode_grayscale(6, 6, &pixels, &config);

    assert!(result.starts_with(DCS));
    assert!(result.ends_with(ST));
    assert!(result.contains("#0"));
    assert!(result.contains("#1"));
    assert!(result.contains("#2"));
    assert!(result.contains("#3"));
}

#[test]
fn test_empty_image() {
    let pixels = Vec::new();
    let config = SixelConfig::default();
    let result = encode_grayscale(0, 0, &pixels, &config);
    assert!(result.is_empty());
}

#[test]
fn drcs_load_sequence_contents() {
    let seq = wormhole::drcs::get_drcs_load_sequence();
    assert_eq!(
        seq,
        "\x1bP1;1;1;0;0;1;0;0{ <!hhhhhhhh/BBBBBBBB;\"oooooooo/FFFFFFFF;#vvvvvvvv/JJJJJJJJ;$~~~~~~~~/NNNNNNNN;\x1b\\\x1b) <"
    );
}

#[test]
fn drcs_brightness_ramp() {
    assert_eq!(brightness_to_drcs_char(0), ' ');
    assert_eq!(brightness_to_drcs_char(50), ' ');
    assert_eq!(brightness_to_drcs_char(51), '!');
    assert_eq!(brightness_to_drcs_char(100), '!');
    assert_eq!(brightness_to_drcs_char(101), '"');
    assert_eq!(brightness_to_drcs_char(150), '"');
    assert_eq!(brightness_to_drcs_char(151), '#');
    assert_eq!(brightness_to_drcs_char(200), '#');
    assert_eq!(brightness_to_drcs_char(201), '$');
    assert_eq!(brightness_to_drcs_char(255), '$');
}

#[test]
fn enhanced_ramp_samples() {
    assert_eq!(brightness_to_enhanced_char(0), (' ', false));
    assert_eq!(brightness_to_enhanced_char(55), ('~', true));
    assert_eq!(brightness_to_enhanced_char(90), ('.', false));
    assert_eq!(brightness_to_enhanced_char(120), (':', false));
    assert_eq!(brightness_to_enhanced_char(150), ('+', false));
    assert_eq!(brightness_to_enhanced_char(170), ('a', true));
    assert_eq!(brightness_to_enhanced_char(200), ('#', false));
    assert_eq!(brightness_to_enhanced_char(255), ('@', false));
}

#[test]
fn ascii_ramp_endpoints() {
    assert_eq!(brightness_to_char(255), ' ');
    assert_eq!(brightness_to_char(0), '@');
}

#[test]
fn render_mode_from_terminal() {
    assert_eq!(
        RenderMode::from_terminal_mode("vt340", 8),
        RenderMode::Sixel { shades: 8 }
    );
    assert_eq!(
        RenderMode::from_terminal_mode("vt340", 1),
        RenderMode::Sixel { shades: 2 }
    );
    assert_eq!(
        RenderMode::from_terminal_mode("vt340", 200),
        RenderMode::Sixel { shades: 64 }
    );
    assert_eq!(RenderMode::from_terminal_mode("vt220", 8), RenderMode::Drcs);
    assert_eq!(RenderMode::from_terminal_mode("vt100", 8), RenderMode::Ascii);
    assert_eq!(RenderMode::from_terminal_mode("ansi", 8), RenderMode::Ascii);
}

#[test]
fn device_path_parsing() {
    assert_eq!(parse_device_index("/dev/video0").unwrap(), 0);
    assert_eq!(parse_device_index("/dev/video12").unwrap(), 12);
    assert_eq!(parse_device_index("3").unwrap(), 3);
    assert!(matches!(
        parse_device_index("/dev/ttyUSB0"),
        Err(WebcamError::InvalidDevice(_))
    ));
    assert!(matches!(
        parse_device_index("/dev/video"),
        Err(WebcamError::InvalidDevice(_))
    ));
    assert!(matches!(
        parse_device_index("/dev/video99999999999"),
        Err(WebcamError::InvalidDevice(_))
    ));
}
