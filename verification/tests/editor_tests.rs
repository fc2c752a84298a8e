use modal_edit::editor::{Effect, Event, State};
use modal_edit::resolver::{Mode, Token};

fn lines(xs: &[&str]) -> Vec<Vec<char>> {
    xs.iter().map(|s| s.chars().collect()).collect()
}

fn strings(rows: &[Vec<char>]) -> Vec<String> {
    rows.iter().map(|r| r.iter().collect()).collect()
}

fn buffer(st: &State) -> Vec<String> {
    strings(&st.text)
}

#[test]
fn scenario_insert_split_and_save() {
    // Buffer ["hello"], cursor moved to (0,5), insert mode entered; Enter
    // splits, `a` inserts, Esc returns to normal, `w` saves.
    let mut st = State::new(lines(&["hello"]), 80, 24);
    for _ in 0..5 {
        let _ = st.execute_keybind(Token::Ch('l'));
    }
    assert_eq!((st.file_posy, st.file_posx), (0, 5));
    let _ = st.execute_keybind(Token::Ch('i'));
    assert_eq!(st.mode, Mode::Insert);

    let _ = st.execute_keybind(Token::Enter);
    assert_eq!(buffer(&st), vec!["hello".to_string(), "".to_string()]);
    assert_eq!((st.file_posy, st.file_posx), (1, 0));

    let _ = st.execute_keybind(Token::Ch('a'));
    assert_eq!(buffer(&st), vec!["hello".to_string(), "a".to_string()]);
    assert_eq!((st.file_posy, st.file_posx), (1, 1));

    let _ = st.execute_keybind(Token::Esc);
    assert_eq!(st.mode, Mode::Normal);

    st.set_filename("x.txt".to_string());
    match st.execute_keybind(Token::Ch('w')) {
        Effect::Save { filename, contents } => {
            assert_eq!(filename, "x.txt");
            let written: String = contents.iter().collect();
            assert_eq!(written, "hello\na");
        }
        _ => panic!("saving with a filename must yield a save effect"),
    }
}

#[test]
fn cursor_at_a_wrap_boundary_maps_one_row_down() {
    // Width 10, line of eleven characters: column 10 lies on the second
    // visual row of the line.
    let mut st = State::new(lines(&["abcdefghijk"]), 10, 24);
    st.update_visuallines();
    assert_eq!(st.find_visual_line(0), 0);
    st.set_old_position();
    st.file_posx = 10;
    st.update_cursor();
    assert_eq!(st.cursor_posy, 1);
    assert_eq!(st.cursor_posx, 0);
}

#[test]
fn find_visual_line_returns_the_first_row_of_each_line() {
    let mut st = State::new(lines(&["abcde", "", "fgh"]), 2, 24);
    st.update_visuallines();
    // Rows: line 0 wraps to three rows, line 1 has one empty row, line 2 two.
    assert_eq!(st.find_visual_line(0), 0);
    assert_eq!(st.find_visual_line(1), 3);
    assert_eq!(st.find_visual_line(2), 4);
    for (line, &row) in [0usize, 3, 4].iter().enumerate() {
        assert_eq!(st.visualtext[row].source_line, line);
        for earlier in 0..row {
            assert_ne!(st.visualtext[earlier].source_line, line);
        }
    }
}

#[test]
fn view_port_stops_at_the_window_height() {
    let mut st = State::new(lines(&["abcdefghijk", "x"]), 10, 2);
    st.update_visuallines();
    st.update_cursor();
    let rows = st.get_view_port();
    assert_eq!(strings(&rows), vec!["abcdefghij".to_string(), "k".to_string()]);
}

#[test]
fn cursor_row_round_trip_is_identity() {
    let mut st = State::new(lines(&["one", "two", "three"]), 80, 24);
    st.update_visuallines();
    st.update_cursor();
    let original = st.cursor_posy;
    st.set_old_position();
    let _ = st.execute_keybind(Token::Ch('j'));
    st.update_visuallines();
    st.update_cursor();
    st.set_old_position();
    let _ = st.execute_keybind(Token::Ch('k'));
    st.update_visuallines();
    st.update_cursor();
    assert_eq!(st.cursor_posy, original);
}

#[test]
fn delete_before_column_zero_is_a_noop() {
    let mut st = State::new(lines(&["abc"]), 80, 24);
    st.delete_char_before();
    assert_eq!(buffer(&st), vec!["abc".to_string()]);
    assert_eq!(st.file_posx, 0);
}

#[test]
fn delete_removes_the_character_before_the_cursor() {
    let mut st = State::new(lines(&["abc"]), 80, 24);
    st.file_posx = 2;
    st.delete_char_before();
    assert_eq!(buffer(&st), vec!["ac".to_string()]);
    assert_eq!(st.file_posx, 1);
}

#[test]
fn update_x_clamps_to_the_line_length() {
    let mut st = State::new(lines(&["abc"]), 80, 24);
    st.update_x(2);
    assert_eq!(st.file_posx, 2);
    st.update_x(99);
    assert_eq!(st.file_posx, 3);
}

#[test]
fn movement_keys_stay_inside_the_buffer() {
    let mut st = State::new(lines(&["long line", "ab"]), 80, 24);
    let _ = st.execute_keybind(Token::Ch('k'));
    assert_eq!(st.file_posy, 0);
    let _ = st.execute_keybind(Token::Ch('h'));
    assert_eq!(st.file_posx, 0);
    for _ in 0..20 {
        let _ = st.execute_keybind(Token::Ch('l'));
    }
    assert_eq!(st.file_posx, 9);
    let _ = st.execute_keybind(Token::Ch('j'));
    assert_eq!((st.file_posy, st.file_posx), (1, 2));
    let _ = st.execute_keybind(Token::Ch('j'));
    assert_eq!(st.file_posy, 1);
}

#[test]
fn view_port_shows_the_wrapped_window() {
    let mut st = State::new(lines(&["hello", "world"]), 80, 24);
    st.update_visuallines();
    st.update_cursor();
    let rows = st.get_view_port();
    assert_eq!(strings(&rows), vec!["hello".to_string(), "world".to_string()]);
}

#[test]
fn command_mode_reserves_the_last_row_for_the_prompt() {
    let mut st = State::new(lines(&["a", "b", "c"]), 80, 2);
    st.update_visuallines();
    st.update_cursor();
    assert_eq!(st.get_view_port().len(), 2);
    let _ = st.execute_keybind(Token::Ch(':'));
    assert_eq!(st.mode, Mode::Command);
    assert_eq!(st.get_view_port().len(), 1);
}

#[test]
fn command_prompt_quits_through_the_table() {
    let mut st = State::new(lines(&[""]), 80, 24);
    let _ = st.execute_keybind(Token::Ch(':'));
    assert_eq!(st.mode, Mode::Command);
    let _ = st.execute_keybind(Token::Ch('q'));
    let prompt = st.command_prompt_line().expect("command mode has a prompt row");
    let prompt: String = prompt.iter().collect();
    assert_eq!(prompt, ":q");
    match st.execute_keybind(Token::Enter) {
        Effect::Quit => {}
        _ => panic!("the q command must quit"),
    }
    assert_eq!(st.mode, Mode::Normal);
    assert!(st.prompbuffer.is_empty());
}

#[test]
fn unknown_command_is_silently_ignored() {
    let mut st = State::new(lines(&[""]), 80, 24);
    let _ = st.execute_keybind(Token::Ch(':'));
    let _ = st.execute_keybind(Token::Ch('z'));
    match st.execute_keybind(Token::Enter) {
        Effect::Nothing => {}
        _ => panic!("an unknown command name must do nothing"),
    }
    assert_eq!(st.mode, Mode::Normal);
}

#[test]
fn prompt_backspace_and_escape_edit_the_prompt() {
    let mut st = State::new(lines(&[""]), 80, 24);
    let _ = st.execute_keybind(Token::Ch(':'));
    let _ = st.execute_keybind(Token::Ch('q'));
    let _ = st.execute_keybind(Token::Ch('x'));
    let _ = st.execute_keybind(Token::Back);
    let prompt: String = st.prompbuffer.iter().collect();
    assert_eq!(prompt, "q");
    let _ = st.execute_keybind(Token::Esc);
    assert_eq!(st.mode, Mode::Normal);
    assert!(st.prompbuffer.is_empty());
}

#[test]
fn save_without_a_filename_is_a_noop() {
    let mut st = State::new(lines(&["abc"]), 80, 24);
    match st.execute_keybind(Token::Ch('w')) {
        Effect::Nothing => {}
        _ => panic!("saving without a filename must do nothing"),
    }
}

#[test]
fn quit_key_reports_the_quit_effect() {
    let mut st = State::new(lines(&["abc"]), 80, 24);
    match st.execute_keybind(Token::Ch('q')) {
        Effect::Quit => {}
        _ => panic!("q in normal mode must quit"),
    }
}

#[test]
fn resize_clamps_the_cursor_row_and_never_zeroes() {
    let mut st = State::new(lines(&["a", "b", "c", "d", "e", "f"]), 80, 24);
    st.cursor_posy = 5;
    match st.process_event(Event::Resize(50, 2)) {
        Effect::Nothing => {}
        _ => panic!("a resize has no effect to perform"),
    }
    assert_eq!((st.width, st.height), (50, 2));
    assert_eq!(st.cursor_posy, 1);
    let _ = st.process_event(Event::Resize(0, 0));
    assert_eq!((st.width, st.height), (1, 1));
}

#[test]
fn to_text_joins_lines_with_the_separator() {
    let st = State::new(lines(&["ab", "", "c"]), 80, 24);
    let joined: String = st.to_text('\n').iter().collect();
    assert_eq!(joined, "ab\n\nc");
}

#[test]
fn split_lines_inverts_the_join() {
    let content: Vec<char> = "ab\n\nc".chars().collect();
    let split = modal_edit::editor::split_lines(&content, '\n');
    assert_eq!(strings(&split), vec!["ab".to_string(), "".to_string(), "c".to_string()]);
    let empty: Vec<char> = Vec::new();
    assert_eq!(modal_edit::editor::split_lines(&empty, '\n').len(), 1);
    let trailing: Vec<char> = "x\n".chars().collect();
    assert_eq!(
        strings(&modal_edit::editor::split_lines(&trailing, '\n')),
        vec!["x".to_string(), "".to_string()]
    );
}

#[test]
fn insert_mode_inserts_in_the_middle_of_a_line() {
    let mut st = State::new(lines(&["ac"]), 80, 24);
    let _ = st.execute_keybind(Token::Ch('l'));
    let _ = st.execute_keybind(Token::Ch('i'));
    let _ = st.execute_keybind(Token::Ch('b'));
    assert_eq!(buffer(&st), vec!["abc".to_string()]);
    assert_eq!(st.file_posx, 2);
}

#[test]
fn insert_mode_backspace_goes_through_the_keybind() {
    let mut st = State::new(lines(&["ab"]), 80, 24);
    let _ = st.execute_keybind(Token::Ch('l'));
    let _ = st.execute_keybind(Token::Ch('i'));
    let _ = st.execute_keybind(Token::Back);
    assert_eq!(buffer(&st), vec!["b".to_string()]);
    assert_eq!(st.file_posx, 0);
    let _ = st.execute_keybind(Token::Back);
    assert_eq!(buffer(&st), vec!["b".to_string()]);
}
