use mastermind::{command_of_key, parse_color_number, Command, Key};

#[test]
fn digits_name_colors() {
    assert_eq!(parse_color_number('1'), Some(0));
    assert_eq!(parse_color_number('7'), Some(6));
    assert_eq!(parse_color_number('9'), Some(8));
    assert_eq!(parse_color_number('0'), None);
    assert_eq!(parse_color_number('a'), None);
}

#[test]
fn keys_map_to_commands() {
    let ch = |c| Key::Char { c, ctrl: false };
    let ctrl = |c| Key::Char { c, ctrl: true };
    assert_eq!(command_of_key(Key::Esc), Some(Command::Quit));
    assert_eq!(command_of_key(ch('q')), Some(Command::Quit));
    assert_eq!(command_of_key(ctrl('c')), Some(Command::Quit));
    assert_eq!(command_of_key(ch('c')), None);
    assert_eq!(command_of_key(Key::Backspace), Some(Command::RemoveLast));
    assert_eq!(command_of_key(ctrl('z')), Some(Command::RemoveLast));
    assert_eq!(command_of_key(Key::Enter), Some(Command::Submit));
    assert_eq!(command_of_key(ch(' ')), Some(Command::Submit));
    assert_eq!(command_of_key(ch('3')), Some(Command::AppendColor(2)));
    assert_eq!(command_of_key(Key::Other), None);
}
