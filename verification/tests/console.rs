use fluxa::app::{App, Focus, MAX_LOG_LINES, PROMPT};
use fluxa::command::{self, Command};
use fluxa::event::{Action, AppEvent, Key, KeyEvent, Modifiers};
use fluxa::layout::Area;
use fluxa::status::NodeStatus;

fn no_modifiers() -> Modifiers {
    Modifiers { shift: false, control: false, alt: false, super_key: false, hyper: false, meta: false }
}

fn key(code: Key) -> KeyEvent {
    KeyEvent { code, modifiers: no_modifiers() }
}

fn ctrl(c: char) -> KeyEvent {
    KeyEvent { code: Key::Char(c), modifiers: Modifiers { control: true, ..no_modifiers() } }
}

fn press(app: &mut App, k: KeyEvent) -> Action {
    assert!(app.accepts_key(&k));
    app.press(k)
}

fn type_line(app: &mut App, line: &str) {
    for c in line.chars() {
        app.insert_char(c);
    }
}

fn enter(app: &mut App, line: &str) -> Action {
    type_line(app, line);
    press(app, key(Key::Enter))
}

fn app() -> App {
    App::new("http://node:1".to_string())
}

#[test]
fn new_console_is_ready() {
    let a = app();
    assert_eq!(a.target, "http://node:1");
    assert_eq!(a.status, NodeStatus::default());
    assert!(a.logs.is_empty());
    assert!(a.follow_tail);
    assert_eq!(a.scroll, 0);
    assert_eq!(a.focus, Focus::Input);
    assert_eq!(a.input, "");
    assert_eq!(a.cursor, 0);
    assert!(a.history.is_empty());
    assert_eq!(a.history_idx, None);
    assert_eq!(a.message, "Ready");
}

#[test]
fn log_keeps_the_last_lines() {
    let mut a = app();
    a.push_log(String::new());
    assert!(a.logs.is_empty());
    for i in 0..MAX_LOG_LINES + 5 {
        a.push_log(format!("line {}", i));
        a.push_log(String::new());
    }
    assert_eq!(a.logs.len(), 2000);
    assert_eq!(a.logs[0], "line 5");
    assert_eq!(a.logs[1999], "line 2004");
    assert_eq!(a.scroll, u16::MAX);
}

#[test]
fn logging_leaves_a_free_view_alone() {
    let mut a = app();
    for i in 0..50 {
        a.push_log(format!("{}", i));
    }
    a.clamp_scroll(Area { x: 0, y: 0, width: 80, height: 12 });
    a.scroll_up(3);
    assert_eq!(a.scroll, 37);
    a.push_log("more".to_string());
    assert_eq!(a.scroll, 37);
    assert!(!a.follow_tail);
    assert_eq!(a.focus, Focus::Output);
}

#[test]
fn following_shows_the_end() {
    let mut a = app();
    for i in 0..50 {
        a.push_log(format!("{}", i));
    }
    let area = Area { x: 0, y: 0, width: 80, height: 12 };
    assert_eq!(a.output_height(area), 10);
    a.clamp_scroll(area);
    assert_eq!(a.scroll, 40);
    a.clamp_scroll(area);
    assert_eq!(a.scroll, 40);
    assert_eq!(a.max_scroll_for(Area { height: 1, ..area }), 50);
    assert_eq!(a.max_scroll_for(Area { height: 60, ..area }), 0);
    assert_eq!(a.output_height(Area { height: 1, ..area }), 0);
}

#[test]
fn scrolling_stops_at_its_limits() {
    let mut a = app();
    a.scroll_down(5);
    assert_eq!(a.scroll, 5);
    a.scroll_up(3);
    assert_eq!(a.scroll, 2);
    a.scroll_up(3);
    assert_eq!(a.scroll, 0);
    a.scroll_down(u16::MAX);
    a.scroll_down(10);
    assert_eq!(a.scroll, u16::MAX);
    a.set_follow_tail(false);
    assert!(!a.follow_tail);
    a.set_follow_tail(true);
    assert!(a.follow_tail);
}

#[test]
fn typing_goes_in_at_the_cursor() {
    let mut a = app();
    type_line(&mut a, "helo");
    a.cursor_left();
    a.insert_char('l');
    assert_eq!(a.input, "hello");
    assert_eq!(a.cursor, 4);
    a.home();
    a.insert_char('>');
    assert_eq!(a.input, ">hello");
    a.end();
    a.insert_char('!');
    assert_eq!(a.input, ">hello!");
    assert_eq!(a.cursor, 7);
}

#[test]
fn wide_characters_move_the_cursor_by_their_bytes() {
    let mut a = app();
    a.insert_char('é');
    assert_eq!((a.input.as_str(), a.cursor), ("é", 2));
    a.insert_char('語');
    assert_eq!((a.input.as_str(), a.cursor), ("é語", 5));
    assert!(!a.accepts_key(&key(Key::Backspace)));
    a.cursor_left();
    assert!(!a.accepts_key(&key(Key::Char('x'))));
    assert!(!a.accepts_key(&key(Key::Delete)));
    assert!(a.accepts_key(&key(Key::Left)));
    assert!(a.accepts_key(&key(Key::Char('q'))));
    assert!(a.accepts_key(&ctrl('x')));
    a.home();
    a.delete();
    assert_eq!((a.input.as_str(), a.cursor), ("語", 0));
}

#[test]
fn backspace_undoes_typing() {
    let mut a = app();
    type_line(&mut a, "ab");
    a.cursor_left();
    a.insert_char('x');
    assert_eq!((a.input.as_str(), a.cursor), ("axb", 2));
    a.backspace();
    assert_eq!((a.input.as_str(), a.cursor), ("ab", 1));
    a.home();
    a.backspace();
    assert_eq!((a.input.as_str(), a.cursor), ("ab", 0));
}

#[test]
fn delete_undoes_typing() {
    let mut a = app();
    type_line(&mut a, "ab");
    a.home();
    a.insert_char('x');
    a.cursor_left();
    a.delete();
    assert_eq!((a.input.as_str(), a.cursor), ("ab", 0));
    a.end();
    a.delete();
    assert_eq!((a.input.as_str(), a.cursor), ("ab", 2));
}

#[test]
fn cursor_stays_in_the_line_and_comes_back() {
    let mut a = app();
    a.cursor_left();
    a.cursor_right();
    assert_eq!(a.cursor, 0);
    type_line(&mut a, "ab");
    a.cursor_right();
    assert_eq!(a.cursor, 2);
    a.cursor_left();
    a.cursor_right();
    assert_eq!(a.cursor, 2);
}

#[test]
fn history_is_walked_both_ways() {
    let mut a = app();
    a.history_up();
    a.history_down();
    assert_eq!(a.history_idx, None);
    for c in ["one", "two", "two", "  ", "three"] {
        a.commit_history(c);
    }
    assert_eq!(a.history, vec!["one", "two", "three"]);
    type_line(&mut a, "draft");
    a.history_down();
    assert_eq!(a.input, "draft");
    for expected in ["three", "two", "one", "one"] {
        a.history_up();
        assert_eq!(a.input, expected);
        assert_eq!(a.cursor, expected.len());
    }
    assert_eq!(a.history_idx, Some(0));
    for expected in ["two", "three", ""] {
        a.history_down();
        assert_eq!(a.input, expected);
    }
    assert_eq!((a.history_idx, a.cursor), (None, 0));
}

#[test]
fn committed_command_is_recalled_first() {
    let mut a = app();
    a.commit_history("ls");
    a.history_up();
    a.commit_history("pwd");
    assert_eq!(a.history_idx, None);
    a.history_up();
    assert_eq!(a.input, "pwd");
    a.commit_history("pwd");
    assert_eq!(a.history, vec!["ls", "pwd"]);
}

#[test]
fn only_q_leaves() {
    let mut a = app();
    assert_eq!(press(&mut a, key(Key::Char('q'))), Action::Quit);
    press(&mut a, key(Key::Tab));
    assert_eq!(press(&mut a, key(Key::Char('q'))), Action::Quit);
    assert_eq!(press(&mut a, ctrl('q')), Action::Wait);
    press(&mut a, key(Key::Tab));
    let alt_q = KeyEvent { code: Key::Char('q'), modifiers: Modifiers { alt: true, ..no_modifiers() } };
    assert_eq!(press(&mut a, alt_q), Action::Wait);
    assert_eq!(a.input, "q");
    assert_eq!(a.handle(None), Action::Quit);
    assert_eq!(a.handle(Some(AppEvent::Resize)), Action::Resize);
}

#[test]
fn entered_command_is_sent() {
    let mut a = app();
    let action = enter(&mut a, "  cargo build ");
    assert_eq!(
        action,
        Action::Submit { target: "http://node:1".to_string(), command: "cargo build".to_string() }
    );
    assert_eq!(a.logs.back().unwrap(), &format!("{}cargo build", PROMPT));
    assert_eq!(a.logs.back().unwrap(), "fluxa> cargo build");
    assert_eq!(a.history, vec!["cargo build"]);
    assert_eq!((a.input.as_str(), a.cursor), ("", 0));
    press(&mut a, key(Key::Up));
    assert_eq!(a.input, "cargo build");
}

#[test]
fn blank_line_is_not_sent() {
    let mut a = app();
    assert_eq!(enter(&mut a, "   "), Action::Wait);
    assert_eq!(a.input, "   ");
    assert!(a.logs.is_empty());
    assert!(a.history.is_empty());
}

#[test]
fn upload_is_understood() {
    let mut a = app();
    assert_eq!(
        enter(&mut a, "upload  job-1   /tmp/p.tar.gz"),
        Action::Upload {
            target: "http://node:1".to_string(),
            job_id: "job-1".to_string(),
            archive_path: "/tmp/p.tar.gz".to_string(),
        }
    );
    assert_eq!(
        enter(&mut a, "upload job-1"),
        Action::Notify("usage: upload <job_id> <archive.tar.gz>".to_string())
    );
    assert_eq!(
        enter(&mut a, "upload a b c"),
        Action::Notify("usage: upload <job_id> <archive.tar.gz>".to_string())
    );
    assert_eq!(
        enter(&mut a, "upload"),
        Action::Submit { target: "http://node:1".to_string(), command: "upload".to_string() }
    );
    assert_eq!(a.history.len(), 4);
}

#[test]
fn command_lines_are_parsed() {
    assert_eq!(
        command::parse("upload j p".to_string()),
        Command::Upload { job_id: "j".to_string(), archive_path: "p".to_string() }
    );
    assert_eq!(command::parse("upload  ".to_string()), Command::UploadUsage);
    assert_eq!(command::parse("uploads j p".to_string()), Command::Run("uploads j p".to_string()));
    assert_eq!(command::parse(" upload j p".to_string()), Command::Run(" upload j p".to_string()));
}

#[test]
fn control_keys_clear_and_note() {
    let mut a = app();
    type_line(&mut a, "x");
    a.push_log("line".to_string());
    a.scroll_up(1);
    press(&mut a, ctrl('l'));
    assert!(a.logs.is_empty());
    assert!(a.follow_tail);
    assert_eq!(a.scroll, u16::MAX);
    assert_eq!(a.message, "cleared output");
    assert_eq!(a.input, "x");
    press(&mut a, ctrl('c'));
    assert_eq!(a.logs[0], "[client] Ctrl+C pressed (cancel not implemented yet)");
    press(&mut a, ctrl('z'));
    assert_eq!(a.logs.len(), 1);
}

#[test]
fn tab_switches_and_comes_back() {
    let mut a = app();
    press(&mut a, key(Key::Tab));
    assert_eq!((a.focus, a.message.as_str()), (Focus::Output, "scroll mode"));
    press(&mut a, key(Key::Tab));
    assert_eq!((a.focus, a.message.as_str()), (Focus::Input, "edit mode"));
}

#[test]
fn scroll_mode_takes_the_keys() {
    let mut a = app();
    type_line(&mut a, "cmd");
    press(&mut a, key(Key::PageDown));
    assert_eq!((a.focus, a.scroll, a.message.as_str()), (Focus::Output, 10, "scroll mode"));
    press(&mut a, key(Key::Down));
    assert_eq!(a.scroll, 11);
    press(&mut a, key(Key::PageUp));
    press(&mut a, key(Key::Up));
    assert_eq!(a.scroll, 0);
    press(&mut a, key(Key::PageDown));
    assert_eq!(a.scroll, 10);
    assert_eq!(press(&mut a, key(Key::Enter)), Action::Wait);
    press(&mut a, key(Key::Char('x')));
    press(&mut a, key(Key::Backspace));
    assert_eq!(a.input, "cmd");
    press(&mut a, key(Key::Esc));
    assert_eq!((a.focus, a.message.as_str()), (Focus::Input, "edit mode"));
    press(&mut a, key(Key::PageUp));
    assert_eq!((a.focus, a.message.as_str()), (Focus::Output, "scroll mode"));
    press(&mut a, key(Key::End));
    assert_eq!((a.focus, a.message.as_str(), a.follow_tail), (Focus::Input, "tail mode", true));
    assert_eq!(a.input, "cmd");
}

#[test]
fn edit_mode_takes_the_keys() {
    let mut a = app();
    for k in [Key::Char('a'), Key::Char('b'), Key::Left, Key::Delete, Key::Char('c'), Key::Home, Key::Right, Key::Backspace, Key::End] {
        press(&mut a, key(k));
    }
    assert_eq!((a.input.as_str(), a.cursor), ("c", 1));
    press(&mut a, key(Key::Other));
    press(&mut a, key(Key::Esc));
    press(&mut a, key(Key::Down));
    assert_eq!((a.input.as_str(), a.focus), ("c", Focus::Input));
}

#[test]
fn news_and_ticks_are_taken_in() {
    let mut a = app();
    let status = NodeStatus { node_name: "n1".to_string(), connected: true, ..NodeStatus::default() };
    let ev = Some(AppEvent::StatusUpdate(status.clone(), Some("hello".to_string())));
    assert!(a.accepts(&ev));
    assert_eq!(a.handle(ev), Action::Wait);
    assert_eq!(a.status, status);
    assert_eq!(a.logs[0], "hello");
    a.handle(Some(AppEvent::StatusUpdate(NodeStatus::default(), None)));
    assert_eq!(a.logs.len(), 1);
    assert_eq!(a.handle(Some(AppEvent::ClientInfo("done".to_string()))), Action::Wait);
    assert_eq!(a.message, "done");
    a.scroll = 3;
    a.handle(Some(AppEvent::Tick));
    assert_eq!(a.scroll, u16::MAX);
    a.scroll_up(5);
    a.handle(Some(AppEvent::Tick));
    assert_eq!(a.scroll, u16::MAX - 5);
    assert!(a.accepts(&Some(AppEvent::Key(key(Key::Char('x'))))));
    a.handle(Some(AppEvent::Key(key(Key::Esc))));
    a.handle(Some(AppEvent::Key(key(Key::Char('x')))));
    assert_eq!(a.input, "x");
}

#[test]
fn ascii_console_takes_every_key() {
    let mut a = app();
    let keys = [
        Key::Char('a'), Key::Char(' '), Key::Char('z'), Key::Left, Key::Left, Key::Backspace, Key::Delete,
        Key::Delete, Key::Backspace, Key::Enter, Key::Char('b'), Key::Enter, Key::Up, Key::Backspace, Key::Down,
    ];
    for k in keys {
        press(&mut a, key(k));
    }
    assert_eq!(a.history, vec!["b"]);
}

#[test]
fn scrolling_down_and_up_comes_back() {
    let mut a = app();
    a.scroll_down(20);
    a.scroll_down(7);
    a.scroll_up(7);
    assert_eq!(a.scroll, 20);
    a.scroll_up(7);
    a.scroll_down(7);
    assert_eq!(a.scroll, 20);
}

#[test]
fn target_outlives_every_event() {
    let mut a = app();
    for _ in 0..3 {
        for k in [Key::Char('x'), Key::Enter, Key::Tab, Key::PageUp, Key::End, Key::Up, Key::Down, Key::Backspace] {
            press(&mut a, key(k));
        }
        press(&mut a, ctrl('l'));
        a.handle(Some(AppEvent::Tick));
        a.handle(Some(AppEvent::StatusUpdate(NodeStatus::default(), Some("x".to_string()))));
    }
    assert_eq!(a.target, "http://node:1");
}

#[test]
fn as_many_downs_take_back_the_ups() {
    for n in 1..8 {
        let mut a = app();
        for c in ["one", "two", "three"] {
            a.commit_history(c);
        }
        for c in "draft".chars() {
            a.insert_char(c);
        }
        for _ in 0..n {
            a.history_up();
        }
        for _ in 0..n {
            a.history_down();
        }
        assert_eq!((a.input.as_str(), a.cursor, a.history_idx), ("", 0, None));
        assert_eq!(a.history, ["one", "two", "three"]);
    }
    let mut a = app();
    for c in ["one", "two", "three"] {
        a.commit_history(c);
    }
    a.history_up();
    a.history_up();
    a.history_up();
    a.history_down();
    a.history_down();
    assert_eq!((a.input.as_str(), a.history_idx), ("three", Some(2)));
    a.history_up();
    a.history_up();
    a.history_down();
    a.history_down();
    assert_eq!((a.input.as_str(), a.history_idx), ("three", Some(2)));
}
