use fluxa::app::{App, Focus};
use fluxa::layout::{screen_rows, Area};

fn area(x: u16, y: u16, width: u16, height: u16) -> Area {
    Area { x, y, width, height }
}

#[test]
fn rows_stand_one_below_the_other() {
    for height in (17..=300).chain([1000, 40000, 65535]) {
        let r = screen_rows(area(0, 0, 80, height));
        assert_eq!(r.header, area(1, 1, 78, 3), "{}", height);
        assert_eq!(r.status, area(1, 4, 78, 3), "{}", height);
        assert_eq!(r.output, area(1, 7, 78, height - 12), "{}", height);
        assert_eq!(r.input, area(1, height - 5, 78, 3), "{}", height);
        assert_eq!(r.bar, area(1, height - 2, 78, 1), "{}", height);
    }
}

#[test]
fn rows_start_where_the_area_does() {
    for (x, y, width, height) in [(3, 5, 20, 24), (100, 200, 2, 17), (0, 65000, 3, 535), (65000, 9, 500, 30)] {
        let r = screen_rows(area(x, y, width, height));
        assert_eq!(r.header, area(x + 1, y + 1, width - 2, 3));
        assert_eq!(r.status, area(x + 1, y + 4, width - 2, 3));
        assert_eq!(r.output, area(x + 1, y + 7, width - 2, height - 12));
        assert_eq!(r.input, area(x + 1, y + height - 5, width - 2, 3));
        assert_eq!(r.bar, area(x + 1, y + height - 2, width - 2, 1));
    }
}

#[test]
fn rows_of_a_small_terminal_have_its_width() {
    for height in 2..17 {
        let r = screen_rows(area(4, 2, 50, height));
        for row in [r.header, r.status, r.output, r.input, r.bar] {
            assert_eq!((row.x, row.width), (5, 48));
            assert!(row.y >= 3 && row.y + row.height <= height + 1);
        }
    }
    for (w, h) in [(1, 40), (40, 1), (0, 0)] {
        let r = screen_rows(area(9, 9, w, h));
        for row in [r.header, r.status, r.output, r.input, r.bar] {
            assert_eq!((row.x, row.width), (0, 0));
        }
    }
}

#[test]
fn screen_of_a_new_console() {
    let mut a = App::new("t".to_string());
    let s = a.ui(area(0, 0, 80, 24), "0.0%", "0.00 MiB").unwrap();
    assert_eq!(s.rows, screen_rows(area(0, 0, 80, 24)));
    assert_eq!(s.status_line, "Node: - | disconnected | CPU: 0.0% | Free RAM: 0.00 MiB | Task: idle");
    assert_eq!(s.output_title, "Output");
    assert_eq!(s.input_title, "Command (edit mode)");
    assert_eq!((s.scroll, s.scrollbar_length, s.scrollbar_position), (0, 1, 0));
    assert_eq!(s.cursor, Some((9, 20)));
    assert_eq!(s.message, " Ready ");
    assert_eq!(s.mode, "[tail]");
}

#[test]
fn screen_of_a_busy_node() {
    let mut a = App::new("t".to_string());
    a.status.node_name = "n1".to_string();
    a.status.connected = true;
    a.status.current_task = "7: make".to_string();
    for i in 0..30 {
        a.push_log(format!("{}", i));
    }
    for c in "ls".chars() {
        a.insert_char(c);
    }
    let s = a.ui(area(0, 0, 80, 24), "12.5%", "512.00 MiB").unwrap();
    assert_eq!(s.status_line, "Node: n1 | connected | CPU: 12.5% | Free RAM: 512.00 MiB | Task: 7: make");
    assert_eq!((s.scroll, s.scrollbar_length, s.scrollbar_position), (20, 30, 20));
    assert_eq!(a.scroll, 20);
    assert_eq!(s.cursor, Some((11, 20)));
    a.scroll_up(5);
    let s = a.ui(area(0, 0, 80, 24), "12.5%", "512.00 MiB").unwrap();
    assert_eq!(s.scroll, 15);
    assert_eq!((s.output_title, s.input_title), ("Output (scroll mode)", "Command"));
    assert_eq!(s.cursor, None);
    assert_eq!(s.mode, "[free]");
}

#[test]
fn no_screen_for_a_cursor_beyond_the_terminal() {
    let mut a = App::new("t".to_string());
    assert!(a.ui(area(65530, 0, 5, 24), "", "").is_none());
    assert!(!a.cursor_fits(area(65528, 0, 5, 3)));
    assert!(a.cursor_fits(area(65527, 0, 5, 3)));
    assert!(!a.cursor_fits(area(0, 65535, 5, 3)));
    a.focus = Focus::Output;
    assert!(a.ui(area(65530, 0, 5, 24), "", "").is_some());
}

fn check_small(a: Area) {
    let r = screen_rows(a);
    let rows = [r.header, r.status, r.output, r.input, r.bar];
    let first = a.y as u32 + 1;
    let bottom = (first + a.height as u32 - 2).min(65535);
    let mut top = first;
    for row in rows {
        assert_eq!(row.y as u32, top, "{:?} {:?}", a, r);
        top += row.height as u32;
    }
    assert_eq!(top, bottom, "{:?} {:?}", a, r);
    assert_eq!(r.output.height as u32, 5.min(bottom - first), "{:?} {:?}", a, r);
    for (row, most) in [(r.header, 3), (r.status, 3), (r.input, 3), (r.bar, 1)] {
        assert!(row.height <= most, "{:?} {:?}", a, r);
    }
}

#[test]
fn rows_of_a_small_terminal_leave_no_gap() {
    for y in [0u16, 1, 7, 30, 500, 65500] {
        for height in 2..17 {
            for width in [2u16, 3, 10, 200] {
                check_small(area(0, y, width, height));
            }
        }
    }
    check_small(area(0, 65530, 10, 40));
}

#[test]
fn log_of_a_small_terminal_comes_first() {
    let heights: Vec<u16> = (2..20).map(|h| screen_rows(area(0, 0, 80, h)).output.height).collect();
    assert_eq!(heights, [0, 1, 2, 3, 4, 5, 5, 5, 5, 5, 5, 5, 5, 5, 5, 5, 6, 7]);
    let r = screen_rows(area(0, 0, 80, 7));
    assert_eq!(r.header, area(1, 1, 78, 0));
    assert_eq!(r.status, area(1, 1, 78, 0));
    assert_eq!(r.output, area(1, 1, 78, 5));
    assert_eq!(r.input, area(1, 6, 78, 0));
    assert_eq!(r.bar, area(1, 6, 78, 0));
}

#[test]
fn rows_end_where_coordinates_do() {
    let r = screen_rows(area(0, 65510, 10, 100));
    assert_eq!(r.header, area(1, 65511, 8, 3));
    assert_eq!(r.output, area(1, 65517, 8, 14));
    assert_eq!(r.input, area(1, 65531, 8, 3));
    assert_eq!(r.bar, area(1, 65534, 8, 1));
}

#[test]
fn node_without_a_task_is_shown_as_idle() {
    let mut node = fluxa::worker::CurrentState::new("n".to_string());
    node.submit_task(&fluxa::client::task_request("1".to_string(), "ls".to_string()));
    node.finish_task();
    let (mut feed, _) = fluxa::feed::StatusFeed::new();
    feed.step(fluxa::feed::FeedEvent::Received { update: node.stream_status(None), now: 1 });
    let mut a = App::new("t".to_string());
    a.status = feed.status.clone();
    assert_eq!(a.status_line("c", "r"), "Node: n | connected | CPU: c | Free RAM: r | Task: idle");
}
