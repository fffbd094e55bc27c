//! The console: a log that scrolls, a command line and its history.
use std::collections::VecDeque;

use vstd::prelude::*;

use crate::edit;
use crate::layout::Area;
use crate::status::NodeStatus;
use crate::status::NodeStatusModel;
use crate::text;

verus! {

/// How many log lines the console keeps.
pub const MAX_LOG_LINES: usize = 2000;

/// What stands in front of the command line.
pub const PROMPT: &'static str = "fluxa> ";

/// Which part of the console takes the keys.
#[derive(Clone, Copy, Debug, PartialEq, Eq, Structural)]
pub enum Focus {
    Input,
    Output,
}

/// The console.
#[derive(Debug)]
pub struct App {
    pub target: String,
    pub status: NodeStatus,
    pub logs: VecDeque<String>,
    pub follow_tail: bool,
    /// The first log line to show. Drawing limits it to what there is to show.
    pub scroll: u16,
    pub focus: Focus,
    pub input: String,
    /// Where the next character goes, in bytes from the start of `input`.
    pub cursor: usize,
    pub history: Vec<String>,
    /// The history entry that was recalled last.
    pub history_idx: Option<usize>,
    pub message: String,
}

/// The value of an `App`.
#[verifier::ext_equal]
pub struct AppModel {
    pub target: Seq<char>,
    pub status: NodeStatusModel,
    pub logs: Seq<Seq<char>>,
    pub follow_tail: bool,
    pub scroll: nat,
    pub focus: Focus,
    pub input: Seq<char>,
    pub cursor: nat,
    pub history: Seq<Seq<char>>,
    pub history_idx: Option<nat>,
    pub message: Seq<char>,
}

impl View for App {
    type V = AppModel;

    open spec fn view(&self) -> AppModel {
        AppModel {
            target: self.target@,
            status: self.status@,
            logs: text::texts(self.logs@),
            follow_tail: self.follow_tail,
            scroll: self.scroll as nat,
            focus: self.focus,
            input: self.input@,
            cursor: self.cursor as nat,
            history: text::texts(self.history@),
            history_idx: match self.history_idx {
                Some(i) => Some(i as nat),
                None => None,
            },
            message: self.message@,
        }
    }
}

/// The last `MAX_LOG_LINES` lines of `lines`.
pub open spec fn last_lines(lines: Seq<Seq<char>>) -> Seq<Seq<char>> {
    if lines.len() > MAX_LOG_LINES {
        lines.skip(lines.len() - MAX_LOG_LINES)
    } else {
        lines
    }
}

/// No line of `lines` is empty.
pub open spec fn no_empty_line(lines: Seq<Seq<char>>) -> bool {
    forall|i: int| 0 <= i < lines.len() ==> (#[trigger] lines[i]).len() > 0
}

/// No entry of `history` is blank, and none repeats the one before it.
pub open spec fn history_ok(history: Seq<Seq<char>>) -> bool {
    &&& forall|i: int| 0 <= i < history.len() ==> !text::blank(#[trigger] history[i])
    &&& forall|i: int, j: int|
        0 <= i && j == i + 1 && j < history.len() ==> #[trigger] history[i] != #[trigger] history[j]
}

impl AppModel {
    /// What holds of every console.
    pub open spec fn wf(self) -> bool {
        &&& self.logs.len() <= MAX_LOG_LINES
        &&& no_empty_line(self.logs)
        &&& self.scroll <= u16::MAX
        &&& self.cursor <= edit::byte_len(self.input)
        &&& history_ok(self.history)
        &&& (self.history_idx matches Some(i) ==> i < self.history.len())
    }

    /// A console that has just been started.
    pub open spec fn initial(target: Seq<char>) -> Self {
        AppModel {
            target,
            status: NodeStatusModel::unknown(),
            logs: Seq::empty(),
            follow_tail: true,
            scroll: 0,
            focus: Focus::Input,
            input: Seq::empty(),
            cursor: 0,
            history: Seq::empty(),
            history_idx: None,
            message: "Ready"@,
        }
    }

    /// Follow the log, from as far down as can be asked for.
    pub open spec fn bottom(self) -> Self {
        AppModel { scroll: u16::MAX as nat, follow_tail: true, ..self }
    }

    /// Follow the log or not.
    pub open spec fn following(self, follow: bool) -> Self {
        if follow {
            self.bottom()
        } else {
            AppModel { follow_tail: false, ..self }
        }
    }

    /// The log with `line` at its end; an empty line leaves no trace.
    pub open spec fn logged(self, line: Seq<char>) -> Self {
        if line.len() == 0 {
            self
        } else {
            let m = AppModel { logs: last_lines(self.logs.push(line)), ..self };
            if self.follow_tail {
                m.bottom()
            } else {
                m
            }
        }
    }

    /// How many lines fit into an area of the given height, borders taken off.
    pub open spec fn visible(height: nat) -> nat {
        if height >= 2 {
            (height - 2) as nat
        } else {
            0
        }
    }

    /// The largest scroll position for an area of the given height.
    pub open spec fn max_scroll(self, height: nat) -> nat {
        let total = self.logs.len();
        if total <= Self::visible(height) {
            0
        } else if total - Self::visible(height) > u16::MAX {
            u16::MAX as nat
        } else {
            (total - Self::visible(height)) as nat
        }
    }

    /// The scroll position limited to what there is to show.
    pub open spec fn clamped(self, height: nat) -> Self {
        if self.scroll > self.max_scroll(height) {
            AppModel { scroll: self.max_scroll(height), ..self }
        } else {
            self
        }
    }

    /// Look `n` lines further up, and no longer follow the log.
    pub open spec fn scrolled_up(self, n: nat) -> Self {
        AppModel {
            follow_tail: false,
            focus: Focus::Output,
            scroll: if self.scroll >= n {
                (self.scroll - n) as nat
            } else {
                0
            },
            ..self
        }
    }

    /// Look `n` lines further down, and no longer follow the log.
    pub open spec fn scrolled_down(self, n: nat) -> Self {
        AppModel {
            follow_tail: false,
            focus: Focus::Output,
            scroll: if self.scroll + n > u16::MAX {
                u16::MAX as nat
            } else {
                self.scroll + n
            },
            ..self
        }
    }

    /// `c` can be typed: the cursor stands between two characters, and the line
    /// has room.
    pub open spec fn can_type(self, c: char) -> bool {
        &&& edit::boundary(self.input, self.cursor as int)
        &&& edit::byte_len(self.input) + edit::width(c) <= isize::MAX / 2
    }

    /// `c` typed at the cursor, which moves past it.
    pub open spec fn typed(self, c: char) -> Self {
        AppModel {
            input: edit::inserted(self.input, self.cursor as int, c),
            cursor: self.cursor + edit::width(c),
            ..self
        }
    }

    /// A character starts one byte before the cursor, or nothing precedes it.
    pub open spec fn can_backspace(self) -> bool {
        self.cursor > 0 ==> edit::boundary(self.input, self.cursor - 1)
    }

    /// The character that starts one byte before the cursor taken out.
    pub open spec fn backspaced(self) -> Self {
        if self.cursor == 0 {
            self
        } else {
            AppModel {
                input: edit::removed(self.input, self.cursor - 1),
                cursor: (self.cursor - 1) as nat,
                ..self
            }
        }
    }

    /// A character starts at the cursor, or nothing follows it.
    pub open spec fn can_delete(self) -> bool {
        self.cursor < edit::byte_len(self.input) ==> edit::boundary(self.input, self.cursor as int)
    }

    /// The character at the cursor taken out.
    pub open spec fn deleted(self) -> Self {
        if self.cursor >= edit::byte_len(self.input) {
            self
        } else {
            AppModel { input: edit::removed(self.input, self.cursor as int), ..self }
        }
    }

    /// The cursor one byte to the left, unless it is at the start.
    pub open spec fn moved_left(self) -> Self {
        if self.cursor > 0 {
            AppModel { cursor: (self.cursor - 1) as nat, ..self }
        } else {
            self
        }
    }

    /// The cursor one byte to the right, unless it is at the end.
    pub open spec fn moved_right(self) -> Self {
        if self.cursor < edit::byte_len(self.input) {
            AppModel { cursor: self.cursor + 1, ..self }
        } else {
            self
        }
    }

    /// The cursor at the start of the line.
    pub open spec fn at_home(self) -> Self {
        AppModel { cursor: 0, ..self }
    }

    /// The cursor at the end of the line.
    pub open spec fn at_end(self) -> Self {
        AppModel { cursor: edit::byte_len(self.input), ..self }
    }

    /// The line replaced by `line`, the cursor at its end.
    pub open spec fn with_input(self, line: Seq<char>) -> Self {
        AppModel { input: line, cursor: edit::byte_len(line), ..self }
    }

    /// `cmd` at the end of the history, unless it is blank or stands there
    /// already. The next recall starts from the end.
    pub open spec fn committed(self, cmd: Seq<char>) -> Self {
        if text::blank(cmd) {
            self
        } else {
            AppModel {
                history: if self.history.len() > 0 && self.history.last() == cmd {
                    self.history
                } else {
                    self.history.push(cmd)
                },
                history_idx: None,
                ..self
            }
        }
    }

    /// The history entry `i` in the command line.
    pub open spec fn recalled(self, i: nat) -> Self {
        AppModel { history_idx: Some(i), ..self }.with_input(self.history[i as int])
    }

    /// The history entry before the one recalled last; the newest at first, and
    /// the oldest stays.
    pub open spec fn recalled_up(self) -> Self {
        if self.history.len() == 0 {
            self
        } else {
            match self.history_idx {
                None => self.recalled((self.history.len() - 1) as nat),
                Some(i) => self.recalled(
                    if i > 0 {
                        (i - 1) as nat
                    } else {
                        0
                    },
                ),
            }
        }
    }

    /// The history entry after the one recalled last; past the newest, an empty
    /// line.
    pub open spec fn recalled_down(self) -> Self {
        if self.history.len() == 0 {
            self
        } else {
            match self.history_idx {
                None => self,
                Some(i) => if i + 1 >= self.history.len() {
                    AppModel { history_idx: None, ..self }.with_input(Seq::empty())
                } else {
                    self.recalled(i + 1)
                },
            }
        }
    }
}

impl App {
    /// A console for the node at `target`.
    pub fn new(target: String) -> (r: Self)
        ensures
            r@ == AppModel::initial(target@),
            r@.wf(),
    {
        let r = App {
            target,
            status: NodeStatus::default(),
            logs: VecDeque::new(),
            follow_tail: true,
            scroll: 0,
            focus: Focus::Input,
            input: String::new(),
            cursor: 0,
            history: Vec::new(),
            history_idx: None,
            message: "Ready".to_owned(),
        };
        assert(text::texts(r.logs@) =~= Seq::empty());
        assert(text::texts(r.history@) =~= Seq::empty());
        r
    }

    /// Appends `line` to the log.
    pub fn push_log(&mut self, line: String)
        requires
            old(self)@.wf(),
        ensures
            final(self)@ == old(self)@.logged(line@),
            final(self)@.wf(),
    {
        if line.as_str().is_empty() {
            return;
        }
        let ghost before = text::texts(self.logs@);
        let ghost all = before.push(line@);
        self.logs.push_back(line);
        assert(text::texts(self.logs@) =~= all);
        assert(all.skip(0) =~= all);
        while self.logs.len() > MAX_LOG_LINES
            invariant
                text::texts(self.logs@) == all.skip(all.len() - self.logs@.len()),
                self.logs@.len() <= all.len(),
                self.logs@.len() < all.len() ==> self.logs@.len() >= MAX_LOG_LINES,
                self.follow_tail == old(self).follow_tail,
                self@ == (AppModel { logs: text::texts(self.logs@), ..old(self)@ }),
            decreases self.logs@.len(),
        {
            let ghost prior = self.logs@;
            self.logs.pop_front();
            assert(text::texts(self.logs@) =~= text::texts(prior).skip(1));
            assert(all.skip(all.len() - prior.len()).skip(1) =~= all.skip(
                all.len() - self.logs@.len(),
            ));
        }
        assert(text::texts(self.logs@) =~= last_lines(all));
        proof {
            lemma_last_lines(before, line@);
        }
        if self.follow_tail {
            self.scroll_to_bottom();
        }
    }

    /// Goes to the end of the log and follows it.
    pub fn scroll_to_bottom(&mut self)
        requires
            old(self)@.wf(),
        ensures
            final(self)@ == old(self)@.bottom(),
            final(self)@.wf(),
    {
        self.scroll = u16::MAX;
        self.follow_tail = true;
    }

    /// How many log lines fit into `output_area`.
    pub fn output_height(&self, output_area: Area) -> (r: usize)
        ensures
            r == AppModel::visible(output_area.height as nat),
    {
        output_area.height.saturating_sub(2) as usize
    }

    /// Follows the log or stops following it.
    pub fn set_follow_tail(&mut self, follow: bool)
        requires
            old(self)@.wf(),
        ensures
            final(self)@ == old(self)@.following(follow),
            final(self)@.wf(),
    {
        self.follow_tail = follow;
        if follow {
            self.scroll_to_bottom();
        }
    }

    /// Limits the scroll position to what `output_area` leaves to show.
    pub fn clamp_scroll(&mut self, output_area: Area)
        requires
            old(self)@.wf(),
        ensures
            final(self)@ == old(self)@.clamped(output_area.height as nat),
            final(self)@.wf(),
            final(self).scroll <= old(self).scroll,
            final(self).scroll < old(self).scroll ==> final(self).scroll
                + output_area.height.saturating_sub(2) >= old(self)@.logs.len(),
            final(self).scroll > 0 ==> final(self).scroll + output_area.height.saturating_sub(2)
                <= old(self)@.logs.len(),
    {
        let max_scroll = self.max_scroll_for(output_area);
        if self.scroll > max_scroll {
            self.scroll = max_scroll;
        }
    }

    /// The largest scroll position for `output_area`.
    pub fn max_scroll_for(&self, output_area: Area) -> (r: u16)
        ensures
            r == self@.max_scroll(output_area.height as nat),
    {
        let visible = self.output_height(output_area);
        let total = self.logs.len();
        let max_scroll = total.saturating_sub(visible);
        if max_scroll > u16::MAX as usize {
            u16::MAX
        } else {
            max_scroll as u16
        }
    }

    /// Scrolls `n` lines up.
    pub fn scroll_up(&mut self, n: u16)
        requires
            old(self)@.wf(),
        ensures
            final(self)@ == old(self)@.scrolled_up(n as nat),
            final(self)@.wf(),
    {
        self.follow_tail = false;
        self.focus = Focus::Output;
        self.scroll = self.scroll.saturating_sub(n);
    }

    /// Scrolls `n` lines down.
    pub fn scroll_down(&mut self, n: u16)
        requires
            old(self)@.wf(),
        ensures
            final(self)@ == old(self)@.scrolled_down(n as nat),
            final(self)@.wf(),
    {
        self.follow_tail = false;
        self.focus = Focus::Output;
        self.scroll = self.scroll.saturating_add(n);
    }

    /// Types `c` at the cursor.
    pub fn insert_char(&mut self, c: char)
        requires
            old(self)@.wf(),
            old(self)@.can_type(c),
        ensures
            final(self)@ == old(self)@.typed(c),
            final(self)@.wf(),
    {
        proof {
            lemma_typed(self@, c);
        }
        self.input = edit::insert_at(&self.input, self.cursor, c);
        self.cursor = self.cursor + edit::char_width(c);
    }

    /// Deletes what precedes the cursor.
    pub fn backspace(&mut self)
        requires
            old(self)@.wf(),
            old(self)@.can_backspace(),
        ensures
            final(self)@ == old(self)@.backspaced(),
            final(self)@.wf(),
    {
        if self.cursor == 0 {
            return;
        }
        let prev = self.cursor - 1;
        proof {
            lemma_removed(self@.input, prev as int);
        }
        self.input = edit::remove_at(&self.input, prev);
        self.cursor = prev;
    }

    /// Deletes what stands at the cursor.
    pub fn delete(&mut self)
        requires
            old(self)@.wf(),
            old(self)@.can_delete(),
        ensures
            final(self)@ == old(self)@.deleted(),
            final(self)@.wf(),
    {
        if self.cursor >= edit::byte_length(self.input.as_str()) {
            return;
        }
        proof {
            lemma_removed(self@.input, self@.cursor as int);
        }
        self.input = edit::remove_at(&self.input, self.cursor);
    }

    /// Moves the cursor to the left.
    pub fn cursor_left(&mut self)
        requires
            old(self)@.wf(),
        ensures
            final(self)@ == old(self)@.moved_left(),
            final(self)@.wf(),
    {
        if self.cursor > 0 {
            self.cursor = self.cursor - 1;
        }
    }

    /// Moves the cursor to the right.
    pub fn cursor_right(&mut self)
        requires
            old(self)@.wf(),
        ensures
            final(self)@ == old(self)@.moved_right(),
            final(self)@.wf(),
    {
        if self.cursor < edit::byte_length(self.input.as_str()) {
            self.cursor = self.cursor + 1;
        }
    }

    /// Moves the cursor to the start of the line.
    pub fn home(&mut self)
        requires
            old(self)@.wf(),
        ensures
            final(self)@ == old(self)@.at_home(),
            final(self)@.wf(),
    {
        self.cursor = 0;
    }

    /// Moves the cursor to the end of the line.
    pub fn end(&mut self)
        requires
            old(self)@.wf(),
        ensures
            final(self)@ == old(self)@.at_end(),
            final(self)@.wf(),
    {
        self.cursor = edit::byte_length(self.input.as_str());
    }

    /// Appends `cmd` to the history.
    pub fn commit_history(&mut self, cmd: &str)
        requires
            old(self)@.wf(),
        ensures
            final(self)@ == old(self)@.committed(cmd@),
            final(self)@.wf(),
    {
        if text::is_blank(cmd) {
            return;
        }
        let entry = cmd.to_owned();
        let n = self.history.len();
        if n == 0 || self.history[n - 1] != entry {
            let ghost prior = self@.history;
            self.history.push(entry);
            assert(self@.history =~= prior.push(cmd@));
        }
        self.history_idx = None;
    }

    /// Recalls the previous command.
    pub fn history_up(&mut self)
        requires
            old(self)@.wf(),
        ensures
            final(self)@ == old(self)@.recalled_up(),
            final(self)@.wf(),
    {
        if self.history.is_empty() {
            return;
        }
        let i = match self.history_idx {
            None => self.history.len() - 1,
            Some(i) => i.saturating_sub(1),
        };
        self.recall(i);
    }

    /// Puts the history entry `i` into the command line.
    fn recall(&mut self, i: usize)
        requires
            old(self)@.wf(),
            i < old(self)@.history.len(),
        ensures
            final(self)@ == old(self)@.recalled(i as nat),
            final(self)@.wf(),
    {
        self.history_idx = Some(i);
        self.input = self.history[i].clone();
        self.cursor = edit::byte_length(self.input.as_str());
    }

    /// Recalls the next command.
    pub fn history_down(&mut self)
        requires
            old(self)@.wf(),
        ensures
            final(self)@ == old(self)@.recalled_down(),
            final(self)@.wf(),
    {
        if self.history.is_empty() {
            return;
        }
        match self.history_idx {
            None => {},
            Some(i) => {
                let n = self.history.len();
                assert(self@.history_idx == Some(i as nat));
                let next = i + 1;
                if next >= n {
                    self.history_idx = None;
                    self.clear_input();
                } else {
                    self.recall(next);
                }
            },
        }
    }

    /// Empties the command line.
    pub fn clear_input(&mut self)
        requires
            old(self)@.wf(),
        ensures
            final(self)@ == old(self)@.with_input(Seq::empty()),
            final(self)@.wf(),
    {
        self.input = String::new();
        self.cursor = 0;
    }
}

/// The log holds no empty line after another line has been logged.
pub proof fn lemma_last_lines(lines: Seq<Seq<char>>, line: Seq<char>)
    requires
        no_empty_line(lines),
        line.len() > 0,
    ensures
        no_empty_line(last_lines(lines.push(line))),
        last_lines(lines.push(line)).len() <= MAX_LOG_LINES,
{
    let all = lines.push(line);
    assert forall|i: int| 0 <= i < last_lines(all).len() implies (#[trigger] last_lines(
        all,
    )[i]).len() > 0 by {
        let j = if all.len() > MAX_LOG_LINES {
            i + all.len() - MAX_LOG_LINES
        } else {
            i
        };
        assert(last_lines(all)[i] == all[j]);
        if j < lines.len() {
            assert(all[j] == lines[j]);
        }
    }
}

/// Typing moves the cursor within the longer line.
pub proof fn lemma_typed(m: AppModel, c: char)
    requires
        m.can_type(c),
    ensures
        edit::byte_len(m.typed(c).input) == edit::byte_len(m.input) + edit::width(c),
        m.typed(c).cursor <= edit::byte_len(m.typed(c).input),
        edit::boundary(m.typed(c).input, m.typed(c).cursor as int),
{
    let at = m.cursor as int;
    let a = edit::before(m.input, at);
    let b = edit::after(m.input, at);
    edit::lemma_split(m.input, at);
    edit::lemma_push_width(a, c);
    edit::lemma_split_concat(a.push(c), b);
    edit::lemma_encode_concat(a.push(c), b);
}

/// Taking out a character leaves what precedes it in place.
pub proof fn lemma_removed(s: Seq<char>, at: int)
    requires
        edit::boundary(s, at),
        at < edit::byte_len(s),
    ensures
        at <= edit::byte_len(edit::removed(s, at)),
        edit::boundary(edit::removed(s, at), at),
{
    let a = edit::before(s, at);
    let b = edit::after(s, at).drop_first();
    edit::lemma_split(s, at);
    edit::lemma_split_concat(a, b);
    edit::lemma_encode_concat(a, b);
}

} // verus!
