//! What the console shows.
use vstd::prelude::*;

use crate::app::App;
use crate::app::AppModel;
use crate::app::Focus;
use crate::app::PROMPT;
use crate::edit;
use crate::layout;
use crate::layout::Area;
use crate::layout::Rows;

verus! {

/// The name at the head of the console.
pub const HEADER_NAME: &'static str = "Fluxa";

/// What stands between the name and the target.
pub const HEADER_LABEL: &'static str = "  •  Target: ";

/// The frame title of the header.
pub const HEADER_TITLE: &'static str = "Remote Build / Exec";

/// The frame title of the status row.
pub const STATUS_TITLE: &'static str = "Status";

/// The keys, for the bar at the bottom.
pub const HELP: &'static str =
    "Enter: run | upload <id> <tar.gz> | Tab: focus | PgUp/PgDn: scroll | End: tail | Ctrl+L: clear | q: quit";

/// What is shown in each row. The log's lines, the target and the command line
/// are shown as the console holds them.
#[derive(Debug, PartialEq, Eq)]
pub struct Screen {
    pub rows: Rows,
    pub status_line: String,
    pub output_title: &'static str,
    /// The first log line that is shown.
    pub scroll: u16,
    pub scrollbar_length: usize,
    pub scrollbar_position: usize,
    pub input_title: &'static str,
    /// Column and line of the terminal's cursor, where it is shown.
    pub cursor: Option<(u16, u16)>,
    pub message: String,
    pub mode: String,
}

/// The value of a `Screen`.
#[verifier::ext_equal]
pub struct ScreenModel {
    pub rows: Rows,
    pub status_line: Seq<char>,
    pub output_title: Seq<char>,
    pub scroll: nat,
    pub scrollbar_length: nat,
    pub scrollbar_position: nat,
    pub input_title: Seq<char>,
    pub cursor: Option<(u16, u16)>,
    pub message: Seq<char>,
    pub mode: Seq<char>,
}

impl View for Screen {
    type V = ScreenModel;

    open spec fn view(&self) -> ScreenModel {
        ScreenModel {
            rows: self.rows,
            status_line: self.status_line@,
            output_title: self.output_title@,
            scroll: self.scroll as nat,
            scrollbar_length: self.scrollbar_length as nat,
            scrollbar_position: self.scrollbar_position as nat,
            input_title: self.input_title@,
            cursor: self.cursor,
            message: self.message@,
            mode: self.mode@,
        }
    }
}

/// `s`, or `other` where `s` is empty.
pub open spec fn or_else(s: Seq<char>, other: Seq<char>) -> Seq<char> {
    if s.len() == 0 {
        other
    } else {
        s
    }
}

impl AppModel {
    /// The status row, with the load and the free memory as they are written.
    pub open spec fn status_line(self, cpu: Seq<char>, ram: Seq<char>) -> Seq<char> {
        let connection = if self.status.connected {
            "connected"@
        } else {
            "disconnected"@
        };
        "Node: "@ + or_else(self.status.node_name, "-"@) + " | "@ + connection + " | CPU: "@ + cpu
            + " | Free RAM: "@ + ram + " | Task: "@ + or_else(self.status.current_task, "idle"@)
    }

    /// The column of the terminal's cursor: behind the frame, the prompt and
    /// what precedes the cursor in the line.
    pub open spec fn cursor_column(self, input: Area) -> int {
        input.x + 1 + edit::byte_len(PROMPT@) + self.cursor % 65536
    }

    /// The terminal's cursor lies within the coordinates of a terminal.
    pub open spec fn cursor_fits(self, input: Area) -> bool {
        self.focus == Focus::Input ==> self.cursor_column(input) <= u16::MAX && input.y + 1
            <= u16::MAX
    }

    /// Where the terminal's cursor is shown.
    pub open spec fn shown_cursor(self, input: Area) -> Option<(u16, u16)> {
        if self.focus == Focus::Input {
            Some((self.cursor_column(input) as u16, (input.y + 1) as u16))
        } else {
            None
        }
    }

    /// What the console shows in the given rows.
    pub open spec fn screen(self, rows: Rows, cpu: Seq<char>, ram: Seq<char>) -> ScreenModel {
        let shown = self.clamped(rows.output.height as nat);
        ScreenModel {
            rows,
            status_line: self.status_line(cpu, ram),
            output_title: match self.focus {
                Focus::Output => "Output (scroll mode)"@,
                Focus::Input => "Output"@,
            },
            scroll: shown.scroll,
            scrollbar_length: if self.logs.len() == 0 {
                1
            } else {
                self.logs.len()
            },
            scrollbar_position: shown.scroll,
            input_title: match self.focus {
                Focus::Input => "Command (edit mode)"@,
                Focus::Output => "Command"@,
            },
            cursor: self.shown_cursor(rows.input),
            message: " "@ + self.message + " "@,
            mode: "["@ + (if self.follow_tail {
                "tail"@
            } else {
                "free"@
            }) + "]"@,
        }
    }
}

impl App {
    /// The status row.
    pub fn status_line(&self, cpu: &str, ram: &str) -> (r: String)
        ensures
            r@ == self@.status_line(cpu@, ram@),
    {
        let mut r = "Node: ".to_owned();
        if self.status.node_name.as_str().is_empty() {
            r.append("-");
        } else {
            r.append(self.status.node_name.as_str());
        }
        r.append(" | ");
        if self.status.connected {
            r.append("connected");
        } else {
            r.append("disconnected");
        }
        r.append(" | CPU: ");
        r.append(cpu);
        r.append(" | Free RAM: ");
        r.append(ram);
        r.append(" | Task: ");
        if self.status.current_task.as_str().is_empty() {
            r.append("idle");
        } else {
            r.append(self.status.current_task.as_str());
        }
        r
    }

    /// Whether the terminal's cursor lies within the coordinates of a terminal.
    pub fn cursor_fits(&self, input: Area) -> (r: bool)
        ensures
            r == self@.cursor_fits(input),
    {
        if self.focus == Focus::Output {
            return true;
        }
        proof {
            lemma_prompt_width();
        }
        let prompt = edit::byte_length(PROMPT);
        let column: u32 = input.x as u32 + 1 + prompt as u32 + (self.cursor % 65536) as u32;
        column <= 65535 && input.y < u16::MAX
    }

    /// Works out what to show in the given rows, and limits the scroll position
    /// to it.
    pub fn draw(&mut self, rows: Rows, cpu: &str, ram: &str) -> (r: Screen)
        requires
            old(self)@.wf(),
            old(self)@.cursor_fits(rows.input),
        ensures
            final(self)@ == old(self)@.clamped(rows.output.height as nat),
            final(self)@.wf(),
            r@ == old(self)@.screen(rows, cpu@, ram@),
            old(self).focus == Focus::Input ==> (r.cursor matches Some((x, y)) && x == rows.input.x
                + 1 + edit::byte_len(PROMPT@) + old(self).cursor % 65536 && y == rows.input.y + 1),
            old(self).focus == Focus::Output ==> r.cursor is None,
    {
        proof {
            lemma_prompt_width();
        }
        let status_line = self.status_line(cpu, ram);
        self.clamp_scroll(rows.output);
        let total = self.logs.len();
        let max_scroll = self.max_scroll_for(rows.output);
        let position = if self.scroll > max_scroll {
            max_scroll
        } else {
            self.scroll
        };
        let (output_title, input_title) = match self.focus {
            Focus::Output => ("Output (scroll mode)", "Command"),
            Focus::Input => ("Output", "Command (edit mode)"),
        };
        let cursor = if self.focus == Focus::Input {
            let prompt = edit::byte_length(PROMPT) as u16;
            Some((rows.input.x + 1 + prompt + (self.cursor % 65536) as u16, rows.input.y + 1))
        } else {
            None
        };
        let mut message = " ".to_owned();
        message.append(self.message.as_str());
        message.append(" ");
        let mut mode = "[".to_owned();
        if self.follow_tail {
            mode.append("tail");
        } else {
            mode.append("free");
        }
        mode.append("]");
        Screen {
            rows,
            status_line,
            output_title,
            scroll: self.scroll,
            scrollbar_length: if total == 0 {
                1
            } else {
                total
            },
            scrollbar_position: position as usize,
            input_title,
            cursor,
            message,
            mode,
        }
    }

    /// Works out what to show on a terminal of the given size. There is nothing
    /// to show where the cursor would lie outside the coordinates of a terminal.
    pub fn ui(&mut self, area: Area, cpu: &str, ram: &str) -> (r: Option<Screen>)
        requires
            old(self)@.wf(),
        ensures
            final(self)@.wf(),
            match r {
                Some(screen) => {
                    &&& layout::laid_out(area, screen.rows)
                    &&& old(self)@.cursor_fits(screen.rows.input)
                    &&& screen@ == old(self)@.screen(screen.rows, cpu@, ram@)
                    &&& final(self)@ == old(self)@.clamped(screen.rows.output.height as nat)
                },
                None => {
                    &&& exists|rows: Rows| #[trigger]
                        layout::laid_out(area, rows) && !old(self)@.cursor_fits(rows.input)
                    &&& final(self)@ == old(self)@
                },
            },
    {
        let rows = layout::screen_rows(area);
        if self.cursor_fits(rows.input) {
            Some(self.draw(rows, cpu, ram))
        } else {
            None
        }
    }
}

/// The number of bytes of the prompt.
proof fn lemma_prompt_width()
    ensures
        edit::byte_len(PROMPT@) == 7,
{
    reveal_strlit("fluxa> ");
    vstd::utf8::is_ascii_chars_encode_utf8(PROMPT@);
}

} // verus!
