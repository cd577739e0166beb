use numbin::{parse_command, same_text, Command, TypeTag};

fn args(items: &[&str]) -> Vec<String> {
    items.iter().map(|s| s.to_string()).collect()
}

#[test]
fn unsupported_type_is_reported() {
    assert!(matches!(parse_command(&args(&["read", "u7", "out.bin"])), Command::UnsupportedFormat));
    assert!(matches!(parse_command(&args(&["write", "f16", "out.bin"])), Command::UnsupportedFormat));
}

#[test]
fn type_is_checked_before_operation() {
    assert!(matches!(parse_command(&args(&["copy", "u7", "out.bin"])), Command::UnsupportedFormat));
}

#[test]
fn wrong_argument_count_shows_help() {
    assert!(matches!(parse_command(&args(&[])), Command::Help));
    assert!(matches!(parse_command(&args(&["write", "u8"])), Command::Help));
    assert!(matches!(parse_command(&args(&["write", "u8", "a", "b"])), Command::Help));
}

#[test]
fn unknown_operation_is_reported() {
    assert!(matches!(parse_command(&args(&["copy", "u8", "out.bin"])), Command::UnknownOperation));
    assert!(matches!(parse_command(&args(&["Write", "u8", "out.bin"])), Command::UnknownOperation));
}

#[test]
fn write_and_read_carry_type_and_file() {
    match parse_command(&args(&["write", "i32", "output.bin"])) {
        Command::Write(t, f) => {
            assert_eq!(t, TypeTag::I32);
            assert_eq!(f, "output.bin");
        }
        other => panic!("unexpected {other:?}"),
    }
    match parse_command(&args(&["read", "f64", "in.bin"])) {
        Command::Read(t, f) => {
            assert_eq!(t, TypeTag::F64);
            assert_eq!(f, "in.bin");
        }
        other => panic!("unexpected {other:?}"),
    }
}

#[test]
fn text_comparison_is_exact() {
    assert!(same_text("write", "write"));
    assert!(!same_text("write", "writ"));
    assert!(!same_text("", "q"));
    assert!(same_text("", ""));
    assert!(same_text("é", "é"));
    assert!(!same_text("é", "e"));
}
