use jarvis::cli::{key_event_to_bytes, Args, Key, KeyCode};

fn key(code: KeyCode) -> Key {
    Key { code, ctrl: false }
}

fn ctrl(code: KeyCode) -> Key {
    Key { code, ctrl: true }
}

#[test]
fn test_args_parsing_with_path() {
    let args = Args {
        path: Some("/some/path".to_string()),
        file: None,
        debug: false,
    };
    assert_eq!(args.path, Some("/some/path".to_string()));
}

#[test]
fn test_args_parsing_without_path() {
    let args = Args {
        path: None,
        file: None,
        debug: false,
    };
    assert_eq!(args.path, None);
}

#[test]
fn test_args_parsing_with_file() {
    let args = Args {
        path: None,
        file: Some("/some/file.sh".to_string()),
        debug: false,
    };
    assert_eq!(args.file, Some("/some/file.sh".to_string()));
}

#[test]
fn test_key_event_to_bytes_regular_char() {
    assert_eq!(key_event_to_bytes(&key(KeyCode::Char('a'))), vec![b'a']);
}

#[test]
fn test_key_event_to_bytes_uppercase_char() {
    assert_eq!(key_event_to_bytes(&key(KeyCode::Char('A'))), vec![b'A']);
}

#[test]
fn test_key_event_to_bytes_ctrl_c() {
    assert_eq!(key_event_to_bytes(&ctrl(KeyCode::Char('c'))), vec![0x03]);
}

#[test]
fn test_key_event_to_bytes_ctrl_a() {
    assert_eq!(key_event_to_bytes(&ctrl(KeyCode::Char('a'))), vec![0x01]);
}

#[test]
fn test_key_event_to_bytes_ctrl_z() {
    assert_eq!(key_event_to_bytes(&ctrl(KeyCode::Char('z'))), vec![0x1A]);
}

#[test]
fn key_event_to_bytes_ctrl_uppercase_letter() {
    assert_eq!(key_event_to_bytes(&ctrl(KeyCode::Char('C'))), vec![0x03]);
}

#[test]
fn test_key_event_to_bytes_enter() {
    assert_eq!(key_event_to_bytes(&key(KeyCode::Enter)), vec![b'\r']);
}

#[test]
fn test_key_event_to_bytes_backspace() {
    assert_eq!(key_event_to_bytes(&key(KeyCode::Backspace)), vec![0x7f]);
}

#[test]
fn test_key_event_to_bytes_escape() {
    assert_eq!(key_event_to_bytes(&key(KeyCode::Esc)), vec![0x1b]);
}

#[test]
fn test_key_event_to_bytes_tab() {
    assert_eq!(key_event_to_bytes(&key(KeyCode::Tab)), vec![b'\t']);
}

#[test]
fn test_key_event_to_bytes_arrow_keys() {
    assert_eq!(key_event_to_bytes(&key(KeyCode::Up)), b"\x1b[A".to_vec());
    assert_eq!(key_event_to_bytes(&key(KeyCode::Down)), b"\x1b[B".to_vec());
    assert_eq!(key_event_to_bytes(&key(KeyCode::Right)), b"\x1b[C".to_vec());
    assert_eq!(key_event_to_bytes(&key(KeyCode::Left)), b"\x1b[D".to_vec());
}

#[test]
fn test_key_event_to_bytes_function_keys() {
    assert_eq!(key_event_to_bytes(&key(KeyCode::F(1))), b"\x1bOP".to_vec());
    assert_eq!(key_event_to_bytes(&key(KeyCode::F(5))), b"\x1b[15~".to_vec());
    assert_eq!(key_event_to_bytes(&key(KeyCode::F(12))), b"\x1b[24~".to_vec());
}

#[test]
fn test_key_event_to_bytes_special_keys() {
    assert_eq!(key_event_to_bytes(&key(KeyCode::Home)), b"\x1b[H".to_vec());
    assert_eq!(key_event_to_bytes(&key(KeyCode::End)), b"\x1b[F".to_vec());
    assert_eq!(key_event_to_bytes(&key(KeyCode::Delete)), b"\x1b[3~".to_vec());
    assert_eq!(key_event_to_bytes(&key(KeyCode::Insert)), b"\x1b[2~".to_vec());
    assert_eq!(key_event_to_bytes(&key(KeyCode::PageUp)), b"\x1b[5~".to_vec());
    assert_eq!(key_event_to_bytes(&key(KeyCode::PageDown)), b"\x1b[6~".to_vec());
}

#[test]
fn test_key_event_to_bytes_utf8_char() {
    let bytes = key_event_to_bytes(&key(KeyCode::Char('\u{00e9}')));
    assert_eq!(std::str::from_utf8(&bytes).unwrap(), "\u{00e9}");
}

#[test]
fn key_event_to_bytes_four_byte_char() {
    let bytes = key_event_to_bytes(&key(KeyCode::Char('🚀')));
    assert_eq!(bytes, "🚀".as_bytes().to_vec());
}

#[test]
fn test_key_event_to_bytes_unknown_returns_empty() {
    assert_eq!(key_event_to_bytes(&key(KeyCode::F(20))), Vec::<u8>::new());
    assert_eq!(key_event_to_bytes(&key(KeyCode::Other)), Vec::<u8>::new());
}
