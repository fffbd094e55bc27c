//! What happens to the console, and what it asks for in return.
use vstd::prelude::*;

use crate::app::App;
use crate::app::AppModel;
use crate::app::Focus;
use crate::app::PROMPT;
use crate::command;
use crate::command::Command;
use crate::command::CommandModel;
use crate::edit;
use crate::status::NodeStatus;
use crate::status::NodeStatusModel;
use crate::text;

verus! {

/// A key of the keyboard.
#[derive(Clone, Copy, Debug, PartialEq, Eq, Structural)]
pub enum Key {
    Char(char),
    Enter,
    Tab,
    Esc,
    Backspace,
    Delete,
    Left,
    Right,
    Home,
    End,
    Up,
    Down,
    PageUp,
    PageDown,
    /// Any key the console has no use for.
    Other,
}

/// The modifier keys that are held.
#[derive(Clone, Copy, Debug, PartialEq, Eq, Structural)]
pub struct Modifiers {
    pub shift: bool,
    pub control: bool,
    pub alt: bool,
    pub super_key: bool,
    pub hyper: bool,
    pub meta: bool,
}

impl Modifiers {
    /// No modifier is held.
    pub open spec fn none(self) -> bool {
        !self.shift && !self.control && !self.alt && !self.super_key && !self.hyper && !self.meta
    }

    /// Whether no modifier is held.
    pub fn is_empty(&self) -> (r: bool)
        ensures
            r == self.none(),
    {
        !self.shift && !self.control && !self.alt && !self.super_key && !self.hyper && !self.meta
    }
}

/// A key press.
#[derive(Clone, Copy, Debug, PartialEq, Eq, Structural)]
pub struct KeyEvent {
    pub code: Key,
    pub modifiers: Modifiers,
}

impl KeyEvent {
    /// The press that leaves the console.
    pub open spec fn quits(self) -> bool {
        self.modifiers.none() && self.code == Key::Char('q')
    }
}

/// What happens to the console.
#[derive(Debug)]
pub enum AppEvent {
    /// The clock ticked.
    Tick,
    Key(KeyEvent),
    Resize,
    /// News of the node, with a line for the log.
    StatusUpdate(NodeStatus, Option<String>),
    /// The outcome of a request.
    ClientInfo(String),
}

/// The value of an `AppEvent`.
pub enum EventModel {
    Tick,
    Key(KeyEvent),
    Resize,
    StatusUpdate(NodeStatusModel, Option<Seq<char>>),
    ClientInfo(Seq<char>),
}

impl View for AppEvent {
    type V = EventModel;

    open spec fn view(&self) -> EventModel {
        match self {
            AppEvent::Tick => EventModel::Tick,
            AppEvent::Key(k) => EventModel::Key(*k),
            AppEvent::Resize => EventModel::Resize,
            AppEvent::StatusUpdate(status, line) => EventModel::StatusUpdate(
                status@,
                match line {
                    Some(l) => Some(l@),
                    None => None,
                },
            ),
            AppEvent::ClientInfo(info) => EventModel::ClientInfo(info@),
        }
    }
}

/// What the console asks of the program around it.
#[derive(Debug, PartialEq, Eq)]
pub enum Action {
    /// Wait for the next event.
    Wait,
    /// Leave.
    Quit,
    /// Fit the terminal to its new size.
    Resize,
    /// Post a `ClientInfo` event with this text.
    Notify(String),
    /// Submit `command` to the node at `target`.
    Submit { target: String, command: String },
    /// Upload the file at `archive_path` to the node at `target`.
    Upload { target: String, job_id: String, archive_path: String },
}

/// The value of an `Action`.
pub enum ActionModel {
    Wait,
    Quit,
    Resize,
    Notify(Seq<char>),
    Submit { target: Seq<char>, command: Seq<char> },
    Upload { target: Seq<char>, job_id: Seq<char>, archive_path: Seq<char> },
}

impl View for Action {
    type V = ActionModel;

    open spec fn view(&self) -> ActionModel {
        match self {
            Action::Wait => ActionModel::Wait,
            Action::Quit => ActionModel::Quit,
            Action::Resize => ActionModel::Resize,
            Action::Notify(info) => ActionModel::Notify(info@),
            Action::Submit { target, command } => ActionModel::Submit {
                target: target@,
                command: command@,
            },
            Action::Upload { target, job_id, archive_path } => ActionModel::Upload {
                target: target@,
                job_id: job_id@,
                archive_path: archive_path@,
            },
        }
    }
}

/// What a command asks of the program, for the node at `target`.
pub open spec fn request(target: Seq<char>, asked: CommandModel) -> ActionModel {
    match asked {
        CommandModel::Upload { job_id, archive_path } => ActionModel::Upload {
            target,
            job_id,
            archive_path,
        },
        CommandModel::UploadUsage => ActionModel::Notify(
            "usage: upload <job_id> <archive.tar.gz>"@,
        ),
        CommandModel::Run(line) => ActionModel::Submit { target, command: line },
    }
}

impl AppModel {
    /// The console with another message.
    pub open spec fn saying(self, message: Seq<char>) -> Self {
        AppModel { message, ..self }
    }

    /// The console with the keys going to `focus`.
    pub open spec fn focused(self, focus: Focus) -> Self {
        AppModel { focus, ..self }
    }

    /// The console with an empty log that it follows.
    pub open spec fn cleared(self) -> Self {
        AppModel { logs: Seq::empty(), ..self }.bottom().saying("cleared output"@)
    }

    /// A key pressed together with the control key.
    pub open spec fn control_key(self, code: Key) -> Self {
        match code {
            Key::Char(c) => if c == 'l' {
                self.cleared()
            } else if c == 'c' {
                self.logged("[client] Ctrl+C pressed (cancel not implemented yet)"@)
            } else {
                self
            },
            _ => self,
        }
    }

    /// The keys go to the other part.
    pub open spec fn switched(self) -> Self {
        match self.focus {
            Focus::Input => self.focused(Focus::Output).saying("scroll mode"@),
            Focus::Output => self.focused(Focus::Input).saying("edit mode"@),
        }
    }

    /// A key pressed while the log takes the keys.
    pub open spec fn output_key(self, code: Key) -> Self {
        match code {
            Key::Esc => self.focused(Focus::Input).saying("edit mode"@),
            Key::Up => self.scrolled_up(1),
            Key::Down => self.scrolled_down(1),
            Key::PageUp => self.scrolled_up(10),
            Key::PageDown => self.scrolled_down(10),
            Key::End => self.bottom().focused(Focus::Input).saying("tail mode"@),
            _ => self,
        }
    }

    /// The command in the command line, sent off: it is logged behind the
    /// prompt and remembered, and the line is emptied.
    pub open spec fn submitted(self) -> Self {
        let cmd = text::trimmed(self.input);
        self.logged(PROMPT@ + cmd).committed(cmd).with_input(Seq::empty())
    }

    /// A key pressed while the command line takes the keys.
    pub open spec fn input_key(self, code: Key) -> (Self, ActionModel) {
        match code {
            Key::Enter => if text::blank(self.input) {
                (self, ActionModel::Wait)
            } else {
                (
                    self.submitted(),
                    request(self.target, command::meaning(text::trimmed(self.input))),
                )
            },
            Key::Char(c) => (self.typed(c), ActionModel::Wait),
            Key::Backspace => (self.backspaced(), ActionModel::Wait),
            Key::Delete => (self.deleted(), ActionModel::Wait),
            Key::Left => (self.moved_left(), ActionModel::Wait),
            Key::Right => (self.moved_right(), ActionModel::Wait),
            Key::Home => (self.at_home(), ActionModel::Wait),
            Key::End => (self.at_end(), ActionModel::Wait),
            Key::Up => (self.recalled_up(), ActionModel::Wait),
            Key::Down => (self.recalled_down(), ActionModel::Wait),
            Key::PageUp => (self.scrolled_up(10).saying("scroll mode"@), ActionModel::Wait),
            Key::PageDown => (self.scrolled_down(10).saying("scroll mode"@), ActionModel::Wait),
            _ => (self, ActionModel::Wait),
        }
    }

    /// A key press.
    pub open spec fn pressed(self, k: KeyEvent) -> (Self, ActionModel) {
        if k.quits() {
            (self, ActionModel::Quit)
        } else if k.modifiers.control {
            (self.control_key(k.code), ActionModel::Wait)
        } else if k.code == Key::Tab {
            (self.switched(), ActionModel::Wait)
        } else if self.focus == Focus::Output {
            (self.output_key(k.code), ActionModel::Wait)
        } else {
            self.input_key(k.code)
        }
    }

    /// The press reaches the command line.
    pub open spec fn reaches_line(self, k: KeyEvent) -> bool {
        !k.quits() && !k.modifiers.control && k.code != Key::Tab && self.focus == Focus::Input
    }

    /// The press can be carried out: if it edits the line, then at a cursor that
    /// stands between two characters.
    pub open spec fn accepts_key(self, k: KeyEvent) -> bool {
        self.reaches_line(k) ==> match k.code {
            Key::Char(c) => self.can_type(c),
            Key::Backspace => self.can_backspace(),
            Key::Delete => self.can_delete(),
            _ => true,
        }
    }

    /// The event can be carried out.
    pub open spec fn accepts(self, ev: Option<EventModel>) -> bool {
        ev matches Some(EventModel::Key(k)) ==> self.accepts_key(k)
    }

    /// The console after `ev`, and what it asks for; no event means that there
    /// will be no more of them.
    pub open spec fn next(self, ev: Option<EventModel>) -> (Self, ActionModel) {
        match ev {
            None => (self, ActionModel::Quit),
            Some(EventModel::Resize) => (self, ActionModel::Resize),
            Some(EventModel::Tick) => (
                if self.follow_tail {
                    self.bottom()
                } else {
                    self
                },
                ActionModel::Wait,
            ),
            Some(EventModel::ClientInfo(info)) => (self.saying(info), ActionModel::Wait),
            Some(EventModel::StatusUpdate(status, line)) => {
                let m = AppModel { status, ..self };
                (
                    match line {
                        Some(l) => m.logged(l),
                        None => m,
                    },
                    ActionModel::Wait,
                )
            },
            Some(EventModel::Key(k)) => self.pressed(k),
        }
    }
}

impl App {
    /// Whether a key press can be carried out.
    pub fn accepts_key(&self, k: &KeyEvent) -> (r: bool)
        requires
            self@.wf(),
        ensures
            r == self@.accepts_key(*k),
    {
        if k.modifiers.is_empty() && k.code == Key::Char('q') {
            return true;
        }
        if k.modifiers.control || k.code == Key::Tab || self.focus == Focus::Output {
            return true;
        }
        match k.code {
            Key::Char(c) => {
                let n = edit::byte_length(self.input.as_str());
                let room = isize::MAX as usize / 2;
                edit::at_boundary(self.input.as_str(), self.cursor) && n <= room
                    && edit::char_width(c) <= room - n
            },
            Key::Backspace => self.cursor == 0 || edit::at_boundary(
                self.input.as_str(),
                self.cursor - 1,
            ),
            Key::Delete => self.cursor >= edit::byte_length(self.input.as_str())
                || edit::at_boundary(self.input.as_str(), self.cursor),
            _ => true,
        }
    }

    /// Whether an event can be carried out.
    pub fn accepts(&self, ev: &Option<AppEvent>) -> (r: bool)
        requires
            self@.wf(),
        ensures
            r == self@.accepts(
                match ev {
                    Some(e) => Some(e@),
                    None => None,
                },
            ),
    {
        match ev {
            Some(AppEvent::Key(k)) => self.accepts_key(k),
            _ => true,
        }
    }

    /// Carries out an event, or its absence, and says what is to be done next.
    pub fn handle(&mut self, ev: Option<AppEvent>) -> (r: Action)
        requires
            old(self)@.wf(),
            old(self)@.accepts(
                match ev {
                    Some(e) => Some(e@),
                    None => None,
                },
            ),
        ensures
            (final(self)@, r@) == old(self)@.next(
                match ev {
                    Some(e) => Some(e@),
                    None => None,
                },
            ),
            final(self)@.wf(),
    {
        match ev {
            None => Action::Quit,
            Some(AppEvent::Resize) => Action::Resize,
            Some(AppEvent::Tick) => {
                if self.follow_tail {
                    self.scroll_to_bottom();
                }
                Action::Wait
            },
            Some(AppEvent::ClientInfo(info)) => {
                self.message = info;
                Action::Wait
            },
            Some(AppEvent::StatusUpdate(status, line)) => {
                self.status = status;
                match line {
                    Some(l) => self.push_log(l),
                    None => {},
                }
                Action::Wait
            },
            Some(AppEvent::Key(k)) => self.press(k),
        }
    }

    /// Carries out a key press.
    pub fn press(&mut self, k: KeyEvent) -> (r: Action)
        requires
            old(self)@.wf(),
            old(self)@.accepts_key(k),
        ensures
            (final(self)@, r@) == old(self)@.pressed(k),
            final(self)@.wf(),
    {
        if k.modifiers.is_empty() && k.code == Key::Char('q') {
            return Action::Quit;
        }
        if k.modifiers.control {
            self.press_control(k.code);
            return Action::Wait;
        }
        if k.code == Key::Tab {
            match self.focus {
                Focus::Input => {
                    self.focus = Focus::Output;
                    self.message = "scroll mode".to_owned();
                },
                Focus::Output => {
                    self.focus = Focus::Input;
                    self.message = "edit mode".to_owned();
                },
            }
            return Action::Wait;
        }
        if self.focus == Focus::Output {
            self.press_output(k.code);
            return Action::Wait;
        }
        self.press_input(k.code)
    }

    fn press_control(&mut self, code: Key)
        requires
            old(self)@.wf(),
        ensures
            final(self)@ == old(self)@.control_key(code),
            final(self)@.wf(),
    {
        if code == Key::Char('l') {
            self.logs.clear();
            assert(self@.logs =~= Seq::empty());
            self.scroll = 0;
            self.set_follow_tail(true);
            self.message = "cleared output".to_owned();
        } else if code == Key::Char('c') {
            self.push_log("[client] Ctrl+C pressed (cancel not implemented yet)".to_owned());
        }
    }

    fn press_output(&mut self, code: Key)
        requires
            old(self)@.wf(),
        ensures
            final(self)@ == old(self)@.output_key(code),
            final(self)@.wf(),
    {
        match code {
            Key::Esc => {
                self.focus = Focus::Input;
                self.message = "edit mode".to_owned();
            },
            Key::Up => self.scroll_up(1),
            Key::Down => self.scroll_down(1),
            Key::PageUp => self.scroll_up(10),
            Key::PageDown => self.scroll_down(10),
            Key::End => {
                self.set_follow_tail(true);
                self.focus = Focus::Input;
                self.message = "tail mode".to_owned();
            },
            _ => {},
        }
    }

    fn press_input(&mut self, code: Key) -> (r: Action)
        requires
            old(self)@.wf(),
            match code {
                Key::Char(c) => old(self)@.can_type(c),
                Key::Backspace => old(self)@.can_backspace(),
                Key::Delete => old(self)@.can_delete(),
                _ => true,
            },
        ensures
            (final(self)@, r@) == old(self)@.input_key(code),
            final(self)@.wf(),
    {
        match code {
            Key::Enter => {
                return self.submit();
            },
            Key::Char(c) => self.insert_char(c),
            Key::Backspace => self.backspace(),
            Key::Delete => self.delete(),
            Key::Left => self.cursor_left(),
            Key::Right => self.cursor_right(),
            Key::Home => self.home(),
            Key::End => self.end(),
            Key::Up => self.history_up(),
            Key::Down => self.history_down(),
            Key::PageUp => {
                self.scroll_up(10);
                self.message = "scroll mode".to_owned();
            },
            Key::PageDown => {
                self.scroll_down(10);
                self.message = "scroll mode".to_owned();
            },
            _ => {},
        }
        Action::Wait
    }

    fn submit(&mut self) -> (r: Action)
        requires
            old(self)@.wf(),
        ensures
            (final(self)@, r@) == old(self)@.input_key(Key::Enter),
            final(self)@.wf(),
    {
        let cmd = text::trim(self.input.as_str());
        proof {
            text::law_trimmed(self.input@);
        }
        if cmd.as_str().is_empty() {
            return Action::Wait;
        }
        let mut line = PROMPT.to_owned();
        line.append(cmd.as_str());
        self.push_log(line);
        self.commit_history(cmd.as_str());
        self.clear_input();
        let target = self.target.clone();
        match command::parse(cmd) {
            Command::Upload { job_id, archive_path } => Action::Upload {
                target,
                job_id,
                archive_path,
            },
            Command::UploadUsage => Action::Notify(
                "usage: upload <job_id> <archive.tar.gz>".to_owned(),
            ),
            Command::Run(line) => Action::Submit { target, command: line },
        }
    }
}

} // verus!
