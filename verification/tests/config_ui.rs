use wormhole::codec::Message;
use wormhole::gemini::{ChatMessage, MessageRole};
use wormhole::ui::{
    cleanup_split_screen, draw_tab_bar, init_split_screen_with_tabs, max_input_length,
    redraw_input, redraw_tab_bar,
};
use wormhole::render::{generate_waiting_for_peer_frame, is_sixel_data, render_stream};
use wormhole::terminal::Tab;
use wormhole::terminal::{cursor_to, get_init_sequence, reset_scroll_region};
use wormhole::config::{
    default_baud_rate, default_fps, default_gemini_model, default_port, default_sixel_shades,
    default_true, parse_bool_str, validate, Config, ConfigError, GeminiConfig, LogConfig,
    NetworkConfig, SerialConfig, TerminalConfig, TunesConfig, WebcamConfig,
};

fn sample_config(name: &str, mode: &str, cols_132: bool) -> Config {
    Config {
        serial: SerialConfig {
            port: "/dev/ttyUSB0".to_string(),
            baud_rate: default_baud_rate(),
        },
        network: NetworkConfig {
            name: name.to_string(),
            port: 9999,
            bind_ip: None,
            upnp: default_true(),
            peers: String::new(),
        },
        webcam: WebcamConfig::default(),
        gemini: GeminiConfig::default(),
        terminal: TerminalConfig {
            mode: mode.to_string(),
            cols_132,
        },
        logging: LogConfig::default(),
        tunes: TunesConfig::default(),
    }
}

#[test]
fn test_invalid_terminal_mode() {
    let config = sample_config("TestUser", "vt52", false);
    let result = validate(config);
    assert!(result.is_err());
    let err = result.unwrap_err();
    assert!(matches!(err, ConfigError::InvalidMode(_)));
}

#[test]
fn test_132_cols_requires_vt220() {
    let config = sample_config("TestUser", "vt100", true);
    let result = validate(config);
    assert!(result.is_err());
    let err = result.unwrap_err();
    assert!(matches!(err, ConfigError::InvalidColumnsConfig));
}

#[test]
fn test_name_truncation() {
    let config = sample_config("ThisIsAVeryLongUsernameThatExceeds16Characters", "vt100", false);
    let config = validate(config).unwrap();
    assert_eq!(config.network.name.chars().count(), 16);
}

#[test]
fn valid_configs_pass_unchanged() {
    let config = sample_config("TestUser", "vt220", true);
    let config = validate(config).unwrap();
    assert_eq!(config.network.name, "TestUser");
    assert_eq!(config.terminal.mode, "vt220");
    assert!(config.terminal.cols_132);
    assert_eq!(config.network.port, 9999);
}

#[test]
fn defaults_hold_their_values() {
    assert_eq!(default_baud_rate(), 9600);
    assert_eq!(default_port(), 7890);
    assert!(default_true());
    assert_eq!(default_fps(), 5);
    assert_eq!(default_sixel_shades(), 8);
    assert_eq!(default_gemini_model(), "gemini-2.5-flash");
    let t = TerminalConfig::default();
    assert_eq!(t.mode, "vt100");
    assert!(!t.cols_132);
}

#[test]
fn boolean_words() {
    for w in ["true", "1", "yes", "on"] {
        assert_eq!(parse_bool_str(w), Some(true));
    }
    for w in ["false", "0", "no", "off"] {
        assert_eq!(parse_bool_str(w), Some(false));
    }
    assert_eq!(parse_bool_str("maybe"), None);
    assert_eq!(parse_bool_str(""), None);
}

#[test]
fn cursor_and_init_sequences() {
    assert_eq!(cursor_to(1, 1), "\x1b[1;1H");
    assert_eq!(cursor_to(23, 117), "\x1b[23;117H");
    assert_eq!(reset_scroll_region(), "\x1b[r");
    assert_eq!(get_init_sequence(false, true), "\x1b[?3h");
    assert_eq!(get_init_sequence(false, false), "\x1b[?3l");
    let with_font = get_init_sequence(true, false);
    assert!(with_font.starts_with("\x1b[?3l\x1bP1;1;1;0;0;1;0;0{ <"));
}

#[test]
fn tab_rotation() {
    assert_eq!(Tab::Chat.next(false, false), Tab::Chat);
    assert_eq!(Tab::Chat.next(true, false), Tab::Gemini);
    assert_eq!(Tab::Chat.next(true, true), Tab::Call);
    assert_eq!(Tab::Call.next(false, true), Tab::Chat);
    assert_eq!(Tab::Call.next(true, true), Tab::Gemini);
    assert_eq!(Tab::Gemini.next(true, true), Tab::Chat);
}

#[test]
fn ui_builders_have_their_frames() {
    assert_eq!(max_input_length("Alice", 80), 68 + 76);
    let bar = draw_tab_bar(Tab::Chat, false, None, 80);
    assert!(bar.starts_with("\x1b[1;1H"));
    assert!(bar.contains("[Chat]"));
    assert!(bar.contains("^Refresh / ^Clear"));
    let re = redraw_tab_bar(Tab::Chat, true, Some("Bob"), 80);
    assert!(re.starts_with("\x1b7"));
    assert!(re.ends_with("\x1b8"));
    assert!(re.contains("Call (Bob)"));
    let init = init_split_screen_with_tabs("Alice", Tab::Chat, false, None, None, 80);
    assert!(init.starts_with("\x1b[2J\x1b[H"));
    assert!(init.contains("[Alice] "));
    let input = redraw_input("Alice", "typed text", 10, 80);
    assert!(input.starts_with("\x1b[22;1H"));
    assert!(input.contains("typed text"));
    let bye = cleanup_split_screen(80);
    assert!(bye.starts_with("\x1b[r\x1b[2J"));
    assert!(bye.contains("Wormhole server is not running."));
}

#[test]
fn waiting_frame_and_stream_render() {
    let lines = generate_waiting_for_peer_frame("Bob");
    assert_eq!(lines.len(), 11);
    let w = lines[0].chars().count();
    for l in &lines {
        assert_eq!(l.chars().count(), w);
    }
    assert!(lines.iter().any(|l| l.contains("When Bob calls back,")));

    assert!(!is_sixel_data(&lines));
    let sixel = vec!["\x1bPdata".to_string()];
    assert!(is_sixel_data(&sixel));

    let (out, frame) = render_stream("Bob", &lines, None, 80);
    assert_eq!(frame.height(), 11);
    assert!(out.contains("the video call will start."));
    // rendering the same frame again produces no output
    let (out2, _) = render_stream("Bob", &lines, Some(&frame), 80);
    assert_eq!(out2, "");
}

#[test]
fn chat_messages_survive_the_codec() {
    let m = ChatMessage::from_user("question".to_string());
    assert_eq!(m.role, MessageRole::User);
    let a = ChatMessage::from_assistant("answer".to_string());
    assert_eq!(a.role, MessageRole::Assistant);
    // an assistant line travels the wire like any chat text
    let wire = Message::Chat {
        from: "assistant".to_string(),
        text: a.content.clone(),
    };
    let decoded = Message::from_bytes(&wire.to_bytes()).unwrap();
    match decoded {
        Message::Chat { text, .. } => assert_eq!(text, "answer"),
        _ => panic!("expected chat"),
    }
}
