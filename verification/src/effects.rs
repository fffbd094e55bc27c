//! What each operation does, told by its effect on what it is given: how the
//! result relates to the input, and how the results of two calls relate.
use vstd::prelude::*;
use vstd::utf8::*;

use crate::app::App;
use crate::app::AppModel;
use crate::app::Focus;
use crate::app::MAX_LOG_LINES;
use crate::cli;
use crate::client;
use crate::clock;
use crate::clock::TerminalInput;
use crate::command;
use crate::command::Command;
use crate::command::CommandModel;
use crate::edit;
use crate::event::Action;
use crate::event::ActionModel;
use crate::event::AppEvent;
use crate::event::EventModel;
use crate::event::Key;
use crate::event::KeyEvent;
use crate::feed;
use crate::feed::FeedAction;
use crate::feed::FeedEvent;
use crate::feed::FeedEventModel;
use crate::feed::FeedStep;
use crate::laws;
use crate::layout;
use crate::layout::Area;
use crate::layout::Rows;
use crate::screen;
use crate::screen::Screen;
use crate::status::NodeStatus;
use crate::status::NodeStatusModel;
use crate::task;
use crate::task::Task;
use crate::task::TaskRepo;
use crate::text;
use crate::upload;
use crate::upload::ChunkWrite;
use crate::upload::Extraction;
use crate::upload::ExtractionModel;
use crate::upload::Refusal;
use crate::upload::RefusalKind;
use crate::upload::SessionModel;
use crate::upload::Upload;
use crate::upload::UploadAction;
use crate::upload::UploadActionModel;
use crate::upload::UploadEvent;
use crate::upload::UploadEventModel;
use crate::upload::UploadModel;
use crate::upload::UploadOutcome;
use crate::upload::UploadSession;
use crate::upload::UploadStage;
use crate::wire::ChunkModel;
use crate::wire::ProjectChunk;
use crate::wire::StatusUpdate;
use crate::wire::UpdateModel;
use crate::worker;
use crate::worker::CurrentState;
use crate::worker::StateModel;
use crate::worker::StatusStream;
use crate::worker::StreamAction;
use crate::worker::StreamActionModel;
use crate::worker::StreamEvent;
use crate::worker::StreamEventModel;
use crate::worker::StreamModel;

verus! {

// ---- text ----

/// All characters of `s` from `i` on and before `j` are white space.
pub open spec fn white_between(s: Seq<char>, i: int, j: int) -> bool {
    forall|k: int| i <= k < j ==> text::white(#[trigger] s[k])
}

/// White space is what separates words in writing: no letter, digit or sign of
/// ASCII is, and of its other characters just the blank, the tab and those that
/// break a line.
pub proof fn law_white_space_of_ascii(c: char)
    requires
        (c as u32) < 0x80,
    ensures
        text::white(c) <==> c == ' ' || c == '\t' || c == '\n' || c == '\r' || c as u32 == 0x0b
            || c as u32 == 0x0c,
{
}

/// Trimming takes white space from both ends and nothing else: what is left is
/// a part of the text, all that precedes and follows it there is white space,
/// and it begins and ends with something else.
pub proof fn law_trimming_takes_only_white_space(s: Seq<char>) -> (span: (int, int))
    ensures
        0 <= span.0 <= span.1 <= s.len(),
        text::trimmed(s) == s.subrange(span.0, span.1),
        white_between(s, 0, span.0),
        white_between(s, span.1, s.len() as int),
        span.0 < span.1 ==> !text::white(s[span.0]) && !text::white(s[span.1 - 1]),
{
    let t = text::trim_start(s);
    let u = text::trimmed(s);
    text::lemma_trim_start(s);
    text::lemma_trim_end(t);
    let i = s.len() - t.len();
    let j = i + u.len();
    lemma_trim_start_white(s);
    lemma_trim_end_white(t);
    assert(u =~= s.subrange(i, j));
    assert forall|k: int| j <= k < s.len() implies text::white(#[trigger] s[k]) by {
        assert(t[k - i] == s[k]);
    }
    (i, j)
}

/// A text with white space around it trims to what the text alone trims to, and
/// a text that neither begins nor ends with white space stays as it is.
pub proof fn law_white_space_around_is_ignored(a: Seq<char>, s: Seq<char>, b: Seq<char>)
    requires
        white_between(a, 0, a.len() as int),
        white_between(b, 0, b.len() as int),
        s.len() > 0,
        !text::white(s[0]),
        !text::white(s.last()),
    ensures
        text::trimmed(a + s + b) == s,
        text::trimmed(s) == s,
{
    let w = a + s + b;
    let (i, j) = law_trimming_takes_only_white_space(w);
    let n = a.len() as int;
    let m = n + s.len();
    assert(w[n] == s[0] && w[m - 1] == s.last());
    assert(i <= n && m <= j);
    if i < n {
        assert(w[i] == a[i]);
    }
    if j > m {
        assert(w[j - 1] == b[j - 1 - m]);
    }
    assert(w.subrange(n, m) =~= s);
    let (k, l) = law_trimming_takes_only_white_space(s);
    assert(k == 0 && l == s.len());
    assert(s.subrange(0, l) =~= s);
}

/// A text is blank exactly if there is nothing in it but white space.
pub proof fn law_blank_is_white_all_through(s: Seq<char>)
    ensures
        text::blank(s) <==> white_between(s, 0, s.len() as int),
{
}

proof fn lemma_trim_start_white(s: Seq<char>)
    ensures
        white_between(s, 0, s.len() - text::trim_start(s).len()),
    decreases s.len(),
{
    if s.len() > 0 && text::white(s[0]) {
        let r = s.drop_first();
        lemma_trim_start_white(r);
        assert forall|k: int| 0 <= k < s.len() - text::trim_start(s).len() implies text::white(
            #[trigger] s[k],
        ) by {
            if k > 0 {
                assert(r[k - 1] == s[k]);
            }
        }
    }
}

proof fn lemma_trim_end_white(s: Seq<char>)
    ensures
        white_between(s, text::trim_end(s).len() as int, s.len() as int),
    decreases s.len(),
{
    if s.len() > 0 && text::white(s.last()) {
        let r = s.drop_last();
        lemma_trim_end_white(r);
        assert forall|k: int| text::trim_end(s).len() <= k < s.len() implies text::white(
            #[trigger] s[k],
        ) by {
            if k < s.len() - 1 {
                assert(r[k] == s[k]);
            }
        }
    }
}

/// `spans` are where `words` stand in `s`: each is free of white space and not
/// empty, there is white space between any two of them, and nothing but white
/// space outside.
pub open spec fn stand_at(s: Seq<char>, words: Seq<Seq<char>>, spans: Seq<(int, int)>) -> bool {
    &&& spans.len() == words.len()
    &&& forall|k: int| #![trigger spans[k]]
        0 <= k < spans.len() ==> {
            &&& 0 <= spans[k].0 < spans[k].1 <= s.len()
            &&& words[k] == s.subrange(spans[k].0, spans[k].1)
            &&& forall|i: int| spans[k].0 <= i < spans[k].1 ==> !text::white(#[trigger] s[i])
        }
    &&& forall|k: int, l: int|
        0 <= k && l == k + 1 && l < spans.len() ==> (#[trigger] spans[k]).1 < (#[trigger] spans[l]).0
            && white_between(s, spans[k].1, spans[l].0)
    &&& spans.len() == 0 ==> white_between(s, 0, s.len() as int)
    &&& spans.len() > 0 ==> white_between(s, 0, spans[0].0) && white_between(
        s,
        spans.last().1,
        s.len() as int,
    )
}

/// The words of a text are all that stands between its white space, in order.
pub proof fn law_words_stand_between_white_space(s: Seq<char>) -> (spans: Seq<(int, int)>)
    ensures
        stand_at(s, text::words(s), spans),
    decreases s.len(),
{
    let t = text::trim_start(s);
    text::lemma_trim_start(s);
    lemma_trim_start_white(s);
    let d = s.len() - t.len();
    if t.len() == 0 {
        assert(text::words(s) =~= Seq::<Seq<char>>::empty());
        Seq::empty()
    } else {
        text::lemma_word_len(t);
        let n = text::word_len(t) as int;
        let rest = t.skip(n);
        let inner = law_words_stand_between_white_space(rest);
        let at = d + n;
        let moved = Seq::new(inner.len(), |k: int| (inner[k].0 + at, inner[k].1 + at));
        let spans = seq![(d, at)] + moved;
        let words = text::words(s);
        assert(words =~= seq![t.take(n)] + text::words(rest));
        assert(forall|i: int| #![trigger rest[i]] 0 <= i < rest.len() ==> rest[i] == s[i + at]);
        assert(forall|i: int| #![trigger t[i]] 0 <= i < t.len() ==> t[i] == s[i + d]);
        assert(t.take(n) =~= s.subrange(d, at));
        assert forall|k: int| #![trigger spans[k]] 0 <= k < spans.len() implies {
            &&& 0 <= spans[k].0 < spans[k].1 <= s.len()
            &&& words[k] == s.subrange(spans[k].0, spans[k].1)
            &&& forall|i: int| spans[k].0 <= i < spans[k].1 ==> !text::white(#[trigger] s[i])
        } by {
            if k == 0 {
                assert forall|i: int| d <= i < at implies !text::white(#[trigger] s[i]) by {
                    assert(s[i] == t[i - d]);
                }
            } else {
                let j = k - 1;
                assert(spans[k] == moved[j]);
                assert(words[k] == text::words(rest)[j]);
                assert(0 <= inner[j].0 < inner[j].1 <= rest.len());
                assert(rest.subrange(inner[j].0, inner[j].1) =~= s.subrange(
                    spans[k].0,
                    spans[k].1,
                ));
                assert forall|i: int| spans[k].0 <= i < spans[k].1 implies !text::white(
                    #[trigger] s[i],
                ) by {
                    assert(rest[i - at] == s[i]);
                }
            }
        }
        if rest.len() > 0 {
            assert(rest[0] == t[n]);
            assert(text::white(rest[0]));
        }
        if inner.len() > 0 {
            assert(0 <= inner[0].0 < inner[0].1 <= rest.len());
            assert(!text::white(rest[inner[0].0]));
            assert(inner[0].0 > 0);
            assert(moved[0] == (inner[0].0 + at, inner[0].1 + at));
            lemma_white_moved(rest, s, at, 0, inner[0].0);
            lemma_white_moved(rest, s, at, inner.last().1, rest.len() as int);
            assert(spans.last() == moved.last());
        } else {
            lemma_white_moved(rest, s, at, 0, rest.len() as int);
        }
        assert forall|k: int, l: int|
            0 <= k && l == k + 1 && l < spans.len() implies (#[trigger] spans[k]).1 < (
        #[trigger] spans[l]).0 && white_between(s, spans[k].1, spans[l].0) by {
            assert(spans[l] == moved[l - 1]);
            if k > 0 {
                assert(spans[k] == moved[k - 1]);
                assert(inner[k - 1].1 < inner[l - 1].0);
                assert(0 <= inner[k - 1].0 < inner[k - 1].1 <= rest.len());
                assert(0 <= inner[l - 1].0 < inner[l - 1].1 <= rest.len());
                lemma_white_moved(rest, s, at, inner[k - 1].1, inner[l - 1].0);
            }
        }
        spans
    }
}

proof fn lemma_white_moved(rest: Seq<char>, s: Seq<char>, at: int, i: int, j: int)
    requires
        forall|k: int| #![trigger rest[k]] 0 <= k < rest.len() ==> rest[k] == s[k + at],
        0 <= i,
        j <= rest.len(),
        white_between(rest, i, j),
    ensures
        white_between(s, i + at, j + at),
{
    assert forall|k: int| i + at <= k < j + at implies text::white(#[trigger] s[k]) by {
        assert(rest[k - at] == s[k]);
    }
}

/// What follows a prefix, put behind it again, is the text; and whatever is put
/// behind the prefix is what follows it.
pub proof fn law_prefix_comes_off(s: Seq<char>, prefix: Seq<char>, rest: Seq<char>)
    ensures
        text::after_prefix(prefix + rest, prefix) == Some(rest),
        text::after_prefix(s, prefix) matches Some(r) ==> s == prefix + r,
        text::after_prefix(s, prefix) is None ==> forall|r: Seq<char>| #[trigger]
            (prefix + r) != s,
{
    let w = prefix + rest;
    assert(w.subrange(0, prefix.len() as int) =~= prefix);
    assert(w.skip(prefix.len() as int) =~= rest);
    if let Some(r) = text::after_prefix(s, prefix) {
        assert(s =~= prefix + r);
    } else {
        assert forall|r: Seq<char>| #[trigger] (prefix + r) != s by {
            if prefix + r == s {
                assert(s.subrange(0, prefix.len() as int) =~= prefix);
            }
        }
    }
}

/// The number that a numeral is read as, digit by digit.
pub open spec fn read_number(s: Seq<char>) -> int
    decreases s.len(),
{
    if s.len() == 0 {
        0
    } else {
        read_number(s.drop_last()) * 10 + (s.last() as int - '0' as int)
    }
}

/// A numeral is made of the ten digits, does not begin with a zero but for the
/// number zero, and is read as the number it was written for.
pub proof fn law_numerals_read_back(n: nat)
    ensures
        text::decimal(n).len() > 0,
        forall|i: int|
            0 <= i < text::decimal(n).len() ==> '0' <= (#[trigger] text::decimal(n)[i]) <= '9',
        n > 0 ==> text::decimal(n)[0] != '0',
        n == 0 ==> text::decimal(n).len() == 1,
        read_number(text::decimal(n)) == n,
    decreases n,
{
    reveal_with_fuel(read_number, 2);
    let s = text::decimal(n);
    if n < 10 {
        assert(s.drop_last() =~= Seq::empty());
        assert(s.last() as int == 48 + n);
    } else {
        law_numerals_read_back(n / 10);
        assert(s.drop_last() =~= text::decimal(n / 10));
        assert(s.last() as int == 48 + n % 10);
    }
}

/// A negative number is written as a minus sign and its numeral, any other as
/// its numeral alone; so two numbers are never written alike.
pub proof fn law_signed_numerals_read_back(i: int, j: int)
    ensures
        i >= 0 ==> text::signed_decimal(i)[0] != '-' && read_number(text::signed_decimal(i)) == i,
        i < 0 ==> text::signed_decimal(i)[0] == '-' && read_number(
            text::signed_decimal(i).drop_first(),
        ) == -i,
        i != j ==> text::signed_decimal(i) != text::signed_decimal(j),
{
    lemma_signed(i);
    lemma_signed(j);
}

proof fn lemma_signed(i: int)
    ensures
        i >= 0 ==> text::signed_decimal(i)[0] != '-' && read_number(text::signed_decimal(i)) == i,
        i < 0 ==> text::signed_decimal(i)[0] == '-' && read_number(
            text::signed_decimal(i).drop_first(),
        ) == -i,
{
    if i >= 0 {
        law_numerals_read_back(i as nat);
    } else {
        law_numerals_read_back((-i) as nat);
        assert(text::signed_decimal(i).drop_first() =~= text::decimal((-i) as nat));
    }
}

// ---- commands ----

/// A line that begins with `upload ` asks for an upload exactly if two words
/// follow, whatever the white space around them: the first is the job, the
/// second the path.
pub proof fn law_upload_takes_two_words(rest: Seq<char>, spans: Seq<(int, int)>)
    requires
        stand_at(rest, text::words(rest), spans),
    ensures
        spans.len() == 2 ==> command::meaning("upload "@ + rest) == (CommandModel::Upload {
            job_id: rest.subrange(spans[0].0, spans[0].1),
            archive_path: rest.subrange(spans[1].0, spans[1].1),
        }),
        spans.len() != 2 ==> command::meaning("upload "@ + rest) == CommandModel::UploadUsage,
{
    law_prefix_comes_off(rest, "upload "@, rest);
    if spans.len() == 2 {
        assert(0 <= spans[0].0 && 0 <= spans[1].0);
    }
}

/// A job and a path with any white space before, between and behind them are
/// found.
pub proof fn law_upload_words_are_found(
    a: Seq<char>,
    job: Seq<char>,
    b: Seq<char>,
    path: Seq<char>,
    c: Seq<char>,
)
    requires
        white_between(a, 0, a.len() as int),
        white_between(b, 0, b.len() as int),
        white_between(c, 0, c.len() as int),
        b.len() > 0,
        laws::is_word(job),
        laws::is_word(path),
    ensures
        command::meaning("upload "@ + (a + job + b + path + c)) == (CommandModel::Upload {
            job_id: job,
            archive_path: path,
        }),
{
    let rest = a + job + b + path + c;
    lemma_leading_white(a, job + b + path + c);
    lemma_leading_white(b, path + c);
    lemma_leading_white(c, Seq::empty());
    let t1 = job + b + path + c;
    let t2 = path + c;
    assert(rest =~= a + t1);
    assert(t1 =~= job + (b + t2));
    assert((b + t2)[0] == b[0]);
    laws::lemma_word_len_of_word(job, b + t2);
    assert(text::white((b + t2)[0]));
    assert(t1[0] == job[0]);
    assert(text::trim_start(t1) == t1);
    assert(t1.take(job.len() as int) =~= job);
    assert(t1.skip(job.len() as int) =~= b + t2);
    assert(t2[0] == path[0]);
    assert(text::trim_start(t2) == t2);
    if c.len() > 0 {
        assert(text::white(c[0]));
    }
    laws::lemma_word_len_of_word(path, c);
    assert(t2.take(path.len() as int) =~= path);
    assert(t2.skip(path.len() as int) =~= c);
    assert(c + Seq::<char>::empty() =~= c);
    assert(text::trim_start(c) == Seq::<char>::empty());
    assert(text::words(c) =~= Seq::<Seq<char>>::empty());
    assert(text::words(b + t2) =~= seq![path]);
    assert(text::words(rest) =~= seq![job, path]);
    law_prefix_comes_off(rest, "upload "@, rest);
}

proof fn lemma_leading_white(a: Seq<char>, s: Seq<char>)
    requires
        white_between(a, 0, a.len() as int),
    ensures
        text::trim_start(a + s) == text::trim_start(s),
    decreases a.len(),
{
    if a.len() > 0 {
        let r = a.drop_first();
        assert((a + s)[0] == a[0]);
        assert((a + s).drop_first() =~= r + s);
        assert forall|k: int| 0 <= k < r.len() implies text::white(#[trigger] r[k]) by {
            assert(r[k] == a[k + 1]);
        }
        lemma_leading_white(r, s);
    } else {
        assert(a + s =~= s);
    }
}

// ---- the console ----

/// The two consoles differ in nothing but log, view and whether they follow it.
pub open spec fn same_but_view(a: AppModel, b: AppModel) -> bool {
    &&& a.target == b.target && a.status == b.status
    &&& a.focus == b.focus && a.message == b.message
    &&& a.input == b.input && a.cursor == b.cursor
    &&& a.history == b.history && a.history_idx == b.history_idx
}

/// The two consoles differ in nothing but the command line and the cursor.
pub open spec fn same_but_line(a: AppModel, b: AppModel) -> bool {
    &&& a.target == b.target && a.status == b.status
    &&& a.logs == b.logs && a.follow_tail == b.follow_tail && a.scroll == b.scroll
    &&& a.focus == b.focus && a.message == b.message
    &&& a.history == b.history && a.history_idx == b.history_idx
}

/// A console that is started has nothing in its log, its line and its history,
/// knows nothing of the node, follows the log and takes commands; two of them
/// differ in nothing but what node they are for.
pub proof fn law_new_console(target: Seq<char>, other: Seq<char>)
    ensures
        ({
            let m = AppModel::initial(target);
            &&& m.target == target
            &&& m.logs.len() == 0 && m.input.len() == 0 && m.history.len() == 0
            &&& m.cursor == 0 && m.scroll == 0 && m.history_idx is None
            &&& m.follow_tail && m.focus == Focus::Input && m.message == "Ready"@
            &&& !m.status.connected && m.status.last_seen is None
            &&& m.status.node_name.len() == 0 && m.status.current_task.len() == 0
            &&& m.status.cpu_usage == 0 && m.status.free_ram_bytes == 0
            &&& AppModel { target: other, ..m } == AppModel::initial(other)
        }),
{
}

/// A line that is logged is the last of the log. What was there precedes it, all
/// of it as long as there is room, and then without the oldest line. An empty
/// line does nothing. The view goes as far down as can be asked for if the
/// console follows the log, and else stays where it is.
pub proof fn law_logging_appends(m: AppModel, line: Seq<char>)
    requires
        m.wf(),
    ensures
        line.len() == 0 ==> m.logged(line) == m,
        line.len() > 0 ==> {
            let n = m.logged(line);
            &&& n.logs.len() > 0 && n.logs.last() == line
            &&& m.logs.len() < MAX_LOG_LINES ==> n.logs.drop_last() == m.logs
            &&& m.logs.len() == MAX_LOG_LINES ==> n.logs.drop_last() == m.logs.drop_first()
            &&& n.follow_tail == m.follow_tail
            &&& m.follow_tail ==> n.scroll == u16::MAX
            &&& !m.follow_tail ==> n.scroll == m.scroll
            &&& same_but_view(n, m)
        },
{
    let all = m.logs.push(line);
    if line.len() > 0 {
        if m.logs.len() < MAX_LOG_LINES {
            assert(m.logged(line).logs.drop_last() =~= m.logs);
        } else {
            assert(m.logged(line).logs.drop_last() =~= m.logs.drop_first());
        }
    }
}

/// Going to the bottom, and deciding to follow the log, go as far down as can be
/// asked for; deciding not to follow it leaves the view where it is.
pub proof fn law_following(m: AppModel, follow: bool)
    ensures
        m.bottom().follow_tail && m.bottom().scroll == u16::MAX,
        m.bottom().logs == m.logs && same_but_view(m.bottom(), m),
        m.following(follow).follow_tail == follow,
        m.following(follow).scroll == (if follow {
            u16::MAX as nat
        } else {
            m.scroll
        }),
        m.following(follow).logs == m.logs && same_but_view(m.following(follow), m),
{
}

/// The log is shown in a frame: of the lines of an area two are lost to it, and
/// every other one shows a line of the log.
pub proof fn law_frame_takes_two_lines(height: nat)
    ensures
        height >= 2 ==> AppModel::visible(height) + 2 == height,
        height <= 2 ==> AppModel::visible(height) == 0,
{
}

/// Drawing leaves the smaller of the scroll position and of the one at which the
/// last line of the log is the last that fits, whether the console follows the
/// log or not; and it changes nothing else.
pub proof fn law_drawing_stops_at_the_end(m: AppModel, height: nat)
    requires
        m.wf(),
    ensures
        ({
            let n = m.clamped(height);
            let fit = if height >= 2 {
                height - 2
            } else {
                0
            };
            &&& n.scroll <= m.scroll
            &&& n.scroll > 0 ==> n.scroll + fit <= m.logs.len()
            &&& n.scroll < m.scroll ==> n.scroll + fit >= m.logs.len()
            &&& n.scroll == if m.scroll <= m.max_scroll(height) {
                m.scroll
            } else {
                m.max_scroll(height)
            }
            &&& m.logs.len() >= fit ==> m.max_scroll(height) + fit == m.logs.len()
            &&& m.logs.len() <= fit ==> m.max_scroll(height) == 0
            &&& n.follow_tail == m.follow_tail && n.logs == m.logs
            &&& same_but_view(n, m)
        }),
{
}

/// Scrolling moves the view by as many lines as asked, but not beyond the
/// limits; scrolling twice is scrolling once by the sum. It gives the keys to
/// the log and stops following it, and changes nothing else.
pub proof fn law_scrolling_moves_the_view(m: AppModel, a: nat, b: nat)
    requires
        m.wf(),
    ensures
        a <= m.scroll ==> m.scrolled_up(a).scroll + a == m.scroll,
        a >= m.scroll ==> m.scrolled_up(a).scroll == 0,
        m.scroll + a <= u16::MAX ==> m.scrolled_down(a).scroll == m.scroll + a,
        m.scroll + a >= u16::MAX ==> m.scrolled_down(a).scroll == u16::MAX,
        m.scrolled_up(a).scrolled_up(b) == m.scrolled_up(a + b),
        m.scrolled_down(a).scrolled_down(b) == m.scrolled_down(a + b),
        forall|n: AppModel| n == m.scrolled_up(a) || n == m.scrolled_down(a) ==> {
            &&& !n.follow_tail && (#[trigger] n.focus) == Focus::Output
            &&& n.logs == m.logs
            &&& same_but_view(AppModel { focus: m.focus, ..n }, m)
        },
{
}

// ---- the command line ----

/// A cursor stands between two characters exactly where the line can be parted
/// so that the first part takes as many bytes as the cursor counts.
pub proof fn law_boundaries_part_the_text(s: Seq<char>, at: int)
    ensures
        edit::boundary(s, at) <==> exists|a: Seq<char>, b: Seq<char>|
            s == #[trigger] (a + b) && encode_utf8(a).len() == at,
{
    if edit::boundary(s, at) {
        edit::lemma_split(s, at);
        assert(s == edit::before(s, at) + edit::after(s, at));
    }
    assert forall|a: Seq<char>, b: Seq<char>|
        s == #[trigger] (a + b) && encode_utf8(a).len() == at implies edit::boundary(s, at) by {
        edit::lemma_split_concat(a, b);
    }
}

/// A character that is typed goes between what precedes the cursor and what
/// follows it, and the cursor goes behind it, by as many bytes as the character
/// takes.
pub proof fn law_typing_goes_between(m: AppModel, a: Seq<char>, b: Seq<char>, c: char)
    requires
        m.input == a + b,
        m.cursor == encode_utf8(a).len(),
    ensures
        m.typed(c).input == a.push(c) + b,
        m.typed(c).cursor == encode_utf8(a.push(c)).len(),
        same_but_line(m.typed(c), m),
{
    edit::lemma_split_concat(a, b);
    edit::lemma_push_width(a, c);
}

/// Backspace takes out the character that begins one byte before the cursor,
/// and the cursor goes to where it stood; at the start of the line it does
/// nothing.
pub proof fn law_backspace_takes_out_what_precedes(
    m: AppModel,
    a: Seq<char>,
    c: char,
    b: Seq<char>,
)
    ensures
        m.cursor == 0 ==> m.backspaced() == m,
        m.input == a + seq![c] + b && m.cursor == encode_utf8(a).len() + 1 ==> {
            &&& m.backspaced().input == a + b
            &&& m.backspaced().cursor == encode_utf8(a).len()
            &&& same_but_line(m.backspaced(), m)
        },
{
    if m.input == a + seq![c] + b {
        assert(m.input =~= a + (seq![c] + b));
        edit::lemma_split_concat(a, seq![c] + b);
        assert((seq![c] + b).drop_first() =~= b);
    }
}

/// Delete takes out the character that begins at the cursor, which stays; at the
/// end of the line it does nothing.
pub proof fn law_delete_takes_out_what_follows(m: AppModel, a: Seq<char>, c: char, b: Seq<char>)
    ensures
        m.cursor == encode_utf8(m.input).len() ==> m.deleted() == m,
        m.input == a + seq![c] + b && m.cursor == encode_utf8(a).len() ==> {
            &&& m.deleted().input == a + b
            &&& m.deleted().cursor == m.cursor
            &&& same_but_line(m.deleted(), m)
        },
{
    if m.input == a + seq![c] + b && m.cursor == encode_utf8(a).len() {
        assert(m.input =~= a + (seq![c] + b));
        edit::lemma_split_concat(a, seq![c] + b);
        assert((seq![c] + b).drop_first() =~= b);
        edit::lemma_encode_concat(a, seq![c] + b);
        edit::lemma_encode_concat(seq![c], b);
        edit::lemma_push_width(Seq::empty(), c);
        assert(Seq::<char>::empty().push(c) =~= seq![c]);
    }
}

/// A character takes one byte if it is ASCII, and two to four otherwise.
pub proof fn law_widths(c: char)
    ensures
        edit::width(c) == encode_utf8(seq![c]).len(),
        edit::width(c) == (if (c as u32) < 0x80 {
            1nat
        } else if (c as u32) < 0x800 {
            2
        } else if (c as u32) < 0x10000 {
            3
        } else {
            4
        }),
{
    edit::lemma_push_width(Seq::empty(), c);
    assert(Seq::<char>::empty().push(c) =~= seq![c]);
}

/// The cursor goes by one byte, within the line, or to one of its ends; the line
/// stays as it is.
pub proof fn law_cursor_moves(m: AppModel)
    requires
        m.wf(),
    ensures
        m.cursor > 0 ==> m.moved_left().cursor + 1 == m.cursor,
        m.cursor == 0 ==> m.moved_left().cursor == 0,
        m.cursor < encode_utf8(m.input).len() ==> m.moved_right().cursor == m.cursor + 1,
        m.cursor == encode_utf8(m.input).len() ==> m.moved_right().cursor == m.cursor,
        m.at_home().cursor == 0,
        m.at_end().cursor == encode_utf8(m.input).len(),
        forall|n: AppModel|
            n == m.moved_left() || n == m.moved_right() || n == m.at_home() || n == m.at_end() ==> (
            #[trigger] n.input) == m.input && same_but_line(n, m),
{
}

// ---- the history ----

/// A command that is committed is the newest entry, behind all that were there;
/// but it is not entered twice in a row, and not at all if it is blank. The next
/// recall begins at the newest. Nothing else changes.
pub proof fn law_committing_appends(m: AppModel, cmd: Seq<char>)
    ensures
        text::blank(cmd) ==> m.committed(cmd) == m,
        !text::blank(cmd) ==> {
            let n = m.committed(cmd);
            &&& m.history.len() > 0 && m.history.last() == cmd ==> n.history == m.history
            &&& (m.history.len() == 0 || m.history.last() != cmd) ==> n.history.len()
                == m.history.len() + 1 && n.history.last() == cmd && n.history.drop_last()
                == m.history
            &&& n.history_idx is None
            &&& n == (AppModel { history: n.history, history_idx: None, ..m })
        },
{
    if !text::blank(cmd) && (m.history.len() == 0 || m.history.last() != cmd) {
        assert(m.committed(cmd).history.drop_last() =~= m.history);
    }
}

/// The up key puts the entry before the one recalled last into the line, or the
/// newest if none was, and the oldest again if that was it; the cursor goes to
/// the end. The history and all else stay.
pub proof fn law_up_recalls_the_one_before(m: AppModel)
    requires
        m.wf(),
    ensures
        m.history.len() == 0 ==> m.recalled_up() == m,
        m.history.len() > 0 ==> {
            let n = m.recalled_up();
            &&& n.history_idx is Some && n.history_idx->0 < m.history.len()
            &&& n.input == m.history[n.history_idx->0 as int]
            &&& n.cursor == encode_utf8(n.input).len()
            &&& m.history_idx is None ==> n.history_idx->0 + 1 == m.history.len()
            &&& m.history_idx matches Some(i) ==> (i > 0 ==> n.history_idx->0 + 1 == i) && (i == 0
                ==> n.history_idx->0 == 0)
            &&& same_but_line(AppModel { history_idx: m.history_idx, ..n }, m)
        },
{
}

/// The down key puts the entry after the one recalled last into the line, the
/// cursor at its end, or empties the line behind the newest; where none was
/// recalled it does nothing. The history and all else stay.
pub proof fn law_down_recalls_the_one_after(m: AppModel)
    requires
        m.wf(),
    ensures
        m.history_idx is None ==> m.recalled_down() == m,
        m.history_idx matches Some(i) ==> {
            let n = m.recalled_down();
            &&& i + 1 < m.history.len() ==> n.history_idx == Some((i + 1) as nat) && n.input
                == m.history[i as int + 1] && n.cursor == encode_utf8(n.input).len()
            &&& i + 1 == m.history.len() ==> n.history_idx is None && n.input.len() == 0 && n.cursor
                == 0
            &&& same_but_line(AppModel { history_idx: m.history_idx, ..n }, m)
        },
{
}

/// Emptying the line leaves no character in it, the cursor at its start, and all
/// else alone; putting another line there puts the cursor at its end.
pub proof fn law_line_is_replaced(m: AppModel, line: Seq<char>)
    ensures
        m.with_input(line).input == line,
        m.with_input(line).cursor == encode_utf8(line).len(),
        m.with_input(Seq::empty()).cursor == 0,
        same_but_line(m.with_input(line), m),
{
}

// ---- events ----

/// The press of `q` alone.
pub open spec fn plain_q(k: KeyEvent) -> bool {
    &&& k.code == Key::Char('q')
    &&& !k.modifiers.shift && !k.modifiers.control && !k.modifiers.alt
    &&& !k.modifiers.super_key && !k.modifiers.hyper && !k.modifiers.meta
}

/// The press goes to the part of the console that takes the keys.
pub open spec fn goes_to(m: AppModel, k: KeyEvent, focus: Focus) -> bool {
    !plain_q(k) && !k.modifiers.control && k.code != Key::Tab && m.focus == focus
}

/// The console is left by `q` alone and at the end of all events, and by nothing
/// else.
pub proof fn law_leaving(m: AppModel, ev: Option<EventModel>, k: KeyEvent)
    ensures
        m.next(None) == (m, ActionModel::Quit),
        plain_q(k) ==> m.next(Some(EventModel::Key(k))) == (m, ActionModel::Quit),
        m.next(ev).1 is Quit ==> ev is None || (ev matches Some(EventModel::Key(p)) && plain_q(p)),
        m.next(Some(EventModel::Key(k))) == m.pressed(k),
{
}

/// A tick takes a console that follows the log to its end and does nothing to
/// another; a change of size is passed on; a report is shown as the message;
/// news of the node replace what was known, and a line that comes with them is
/// logged.
pub proof fn law_other_events(
    m: AppModel,
    info: Seq<char>,
    status: NodeStatusModel,
    line: Option<Seq<char>>,
)
    ensures
        m.next(Some(EventModel::Tick)).1 is Wait,
        m.follow_tail ==> m.next(Some(EventModel::Tick)).0 == (AppModel {
            scroll: u16::MAX as nat,
            ..m
        }),
        !m.follow_tail ==> m.next(Some(EventModel::Tick)).0 == m,
        m.next(Some(EventModel::Resize)) == (m, ActionModel::Resize),
        m.next(Some(EventModel::ClientInfo(info))) == (
            AppModel { message: info, ..m },
            ActionModel::Wait,
        ),
        ({
            let (n, action) = m.next(Some(EventModel::StatusUpdate(status, line)));
            &&& action is Wait
            &&& n.status == status
            &&& line is None ==> n == (AppModel { status, ..m })
            &&& line matches Some(l) ==> AppModel { status: m.status, ..n } == m.logged(l)
        }),
{
}

/// With the control key held, `l` empties the log, which is followed from then
/// on, `c` is noted in the log, and no other key does anything; nothing is asked
/// for in any case.
pub proof fn law_control_keys(m: AppModel, k: KeyEvent)
    requires
        k.modifiers.control,
    ensures
        ({
            let (n, action) = m.pressed(k);
            &&& action is Wait
            &&& k.code == Key::Char('l') ==> {
                &&& n.logs.len() == 0 && n.follow_tail && n.scroll == u16::MAX
                &&& n.message == "cleared output"@
                &&& same_but_view(AppModel { message: m.message, ..n }, m)
            }
            &&& k.code == Key::Char('c') ==> n == m.logged(
                "[client] Ctrl+C pressed (cancel not implemented yet)"@,
            )
            &&& k.code != Key::Char('l') && k.code != Key::Char('c') ==> n == m
        }),
{
}

/// The tab key gives the keys to the other part and says so, and does nothing
/// else.
pub proof fn law_tab_switches(m: AppModel, k: KeyEvent)
    requires
        !k.modifiers.control,
        k.code == Key::Tab,
    ensures
        m.focus == Focus::Input ==> m.pressed(k) == (
            AppModel { focus: Focus::Output, message: "scroll mode"@, ..m },
            ActionModel::Wait,
        ),
        m.focus == Focus::Output ==> m.pressed(k) == (
            AppModel { focus: Focus::Input, message: "edit mode"@, ..m },
            ActionModel::Wait,
        ),
{
}

/// The keys that move the view move it by a line or by ten; escape returns to
/// the command line, end does so and follows the log; no other key does
/// anything while the log takes the keys.
pub proof fn law_keys_of_the_log(m: AppModel, k: KeyEvent)
    requires
        goes_to(m, k, Focus::Output),
    ensures
        m.pressed(k).1 is Wait,
        k.code == Key::Up ==> m.pressed(k).0 == m.scrolled_up(1),
        k.code == Key::Down ==> m.pressed(k).0 == m.scrolled_down(1),
        k.code == Key::PageUp ==> m.pressed(k).0 == m.scrolled_up(10),
        k.code == Key::PageDown ==> m.pressed(k).0 == m.scrolled_down(10),
        k.code == Key::Esc ==> m.pressed(k).0 == (AppModel {
            focus: Focus::Input,
            message: "edit mode"@,
            ..m
        }),
        k.code == Key::End ==> m.pressed(k).0 == (AppModel {
            focus: Focus::Input,
            message: "tail mode"@,
            follow_tail: true,
            scroll: u16::MAX as nat,
            ..m
        }),
        k.code != Key::Up && k.code != Key::Down && k.code != Key::PageUp && k.code != Key::PageDown
            && k.code != Key::Esc && k.code != Key::End ==> m.pressed(k).0 == m,
{
}

/// In the command line characters are typed, the editing keys edit, the arrows
/// move the cursor or recall commands, the paging keys scroll; nothing but enter
/// asks for anything, and the other keys do nothing.
pub proof fn law_keys_of_the_line(m: AppModel, k: KeyEvent)
    requires
        goes_to(m, k, Focus::Input),
        k.code != Key::Enter,
    ensures
        m.pressed(k).1 is Wait,
        match k.code {
            Key::Char(c) => m.pressed(k).0 == m.typed(c),
            Key::Backspace => m.pressed(k).0 == m.backspaced(),
            Key::Delete => m.pressed(k).0 == m.deleted(),
            Key::Left => m.pressed(k).0 == m.moved_left(),
            Key::Right => m.pressed(k).0 == m.moved_right(),
            Key::Home => m.pressed(k).0 == m.at_home(),
            Key::End => m.pressed(k).0 == m.at_end(),
            Key::Up => m.pressed(k).0 == m.recalled_up(),
            Key::Down => m.pressed(k).0 == m.recalled_down(),
            Key::PageUp => m.pressed(k).0 == (AppModel {
                message: "scroll mode"@,
                ..m.scrolled_up(10)
            }),
            Key::PageDown => m.pressed(k).0 == (AppModel {
                message: "scroll mode"@,
                ..m.scrolled_down(10)
            }),
            _ => m.pressed(k).0 == m,
        },
{
}

/// Enter takes the line without the white space around it, whole, however long
/// it is: that is logged behind the prompt, entered into the history and asked
/// for at the console's node, to be run as it stands or, if it begins with
/// `upload `, as an upload of its two words. A line of nothing but white space
/// is left as it is.
pub proof fn law_enter_takes_the_whole_line(
    m: AppModel,
    k: KeyEvent,
    a: Seq<char>,
    cmd: Seq<char>,
    b: Seq<char>,
    rest: Seq<char>,
)
    requires
        m.wf(),
        goes_to(m, k, Focus::Input),
        k.code == Key::Enter,
        white_between(a, 0, a.len() as int),
        white_between(b, 0, b.len() as int),
        cmd.len() > 0 ==> !text::white(cmd[0]) && !text::white(cmd.last()),
        m.input == a + cmd + b,
    ensures
        cmd.len() == 0 ==> m.pressed(k) == (m, ActionModel::Wait),
        cmd.len() > 0 ==> {
            let (n, action) = m.pressed(k);
            &&& n.input.len() == 0 && n.cursor == 0
            &&& n.logs == m.logged("fluxa> "@ + cmd).logs
            &&& n.logs.last() == "fluxa> "@ + cmd
            &&& n.scroll == m.logged("fluxa> "@ + cmd).scroll
            &&& n.follow_tail == m.follow_tail
            &&& n.history == m.committed(cmd).history
            &&& n.history.last() == cmd
            &&& n.history_idx is None
            &&& n.target == m.target && n.status == m.status
            &&& n.focus == m.focus && n.message == m.message
            &&& !("upload "@.is_prefix_of(cmd)) ==> action == (ActionModel::Submit {
                target: m.target,
                command: cmd,
            })
            &&& cmd == "upload "@ + rest && text::words(rest).len() == 2 ==> action == (
            ActionModel::Upload {
                target: m.target,
                job_id: text::words(rest)[0],
                archive_path: text::words(rest)[1],
            })
            &&& cmd == "upload "@ + rest && text::words(rest).len() != 2 ==> action
                == ActionModel::Notify("usage: upload <job_id> <archive.tar.gz>"@)
        },
{
    if cmd.len() == 0 {
        assert forall|i: int| 0 <= i < m.input.len() implies text::white(#[trigger] m.input[i]) by {
            if i < a.len() {
                assert(m.input[i] == a[i]);
            } else {
                assert(m.input[i] == b[i - a.len()]);
            }
        }
    } else {
        law_white_space_around_is_ignored(a, cmd, b);
        assert(m.input[a.len() as int] == cmd[0]);
        text::law_trimmed(m.input);
        law_prefix_comes_off(cmd, "upload "@, rest);
        reveal_strlit("fluxa> ");
        law_logging_appends(m, "fluxa> "@ + cmd);
    }
}

/// The console after the characters of `s` were typed, one after the other.
pub open spec fn typed_all(m: AppModel, s: Seq<char>) -> AppModel
    decreases s.len(),
{
    if s.len() == 0 {
        m
    } else {
        typed_all(m, s.drop_last()).typed(s.last())
    }
}

/// What is typed into an empty line is what stands in it, however long it is,
/// with the cursor at its end.
pub proof fn law_what_is_typed_stands_there(m: AppModel, s: Seq<char>)
    requires
        m.input.len() == 0,
        m.cursor == 0,
    ensures
        typed_all(m, s).input == s,
        typed_all(m, s).cursor == encode_utf8(s).len(),
        same_but_line(typed_all(m, s), m),
    decreases s.len(),
{
    if s.len() == 0 {
        assert(m.input =~= s);
    } else {
        let fewer = s.drop_last();
        let e = Seq::<char>::empty();
        law_what_is_typed_stands_there(m, fewer);
        assert(fewer + e =~= fewer);
        law_typing_goes_between(typed_all(m, fewer), fewer, e, s.last());
        assert(fewer.push(s.last()) + e =~= s);
        assert(fewer.push(s.last()) =~= s);
    }
}

/// A command that is typed and entered is asked for as it was typed, and comes
/// back as it was typed when it is recalled.
pub proof fn law_typed_command_is_sent(m: AppModel, cmd: Seq<char>, enter: KeyEvent, up: KeyEvent)
    requires
        m.wf(),
        m.input.len() == 0,
        m.cursor == 0,
        cmd.len() > 0,
        !text::white(cmd[0]),
        !text::white(cmd.last()),
        goes_to(m, enter, Focus::Input),
        goes_to(m, up, Focus::Input),
        enter.code == Key::Enter,
        up.code == Key::Up,
    ensures
        ({
            let (sent, action) = typed_all(m, cmd).pressed(enter);
            &&& !("upload "@.is_prefix_of(cmd)) ==> action == (ActionModel::Submit {
                target: m.target,
                command: cmd,
            })
            &&& sent.logs.last() == "fluxa> "@ + cmd
            &&& sent.input.len() == 0
            &&& sent.pressed(up).0.input == cmd
        }),
{
    let e = Seq::<char>::empty();
    let t = typed_all(m, cmd);
    law_what_is_typed_stands_there(m, cmd);
    assert(t.input =~= e + cmd + e);
    assert(t.wf());
    law_enter_takes_the_whole_line(t, enter, e, cmd, e, e);
    law_keys_of_the_line(t.pressed(enter).0, up);
}

/// Every event can be carried out but for a key that edits the line where the
/// cursor does not stand between two characters (one byte before it, for
/// backspace), and for a character too many for the line to hold.
pub proof fn law_what_can_be_carried_out(m: AppModel, ev: Option<EventModel>, k: KeyEvent)
    ensures
        m.accepts(Some(EventModel::Key(k))) <==> m.accepts_key(k),
        !(ev matches Some(EventModel::Key(_))) ==> m.accepts(ev),
        !goes_to(m, k, Focus::Input) ==> m.accepts_key(k),
        goes_to(m, k, Focus::Input) ==> (m.accepts_key(k) <==> match k.code {
            Key::Char(c) => edit::boundary(m.input, m.cursor as int) && encode_utf8(m.input).len()
                + encode_utf8(seq![c]).len() <= isize::MAX / 2,
            Key::Backspace => m.cursor == 0 || edit::boundary(m.input, m.cursor - 1),
            Key::Delete => m.cursor >= encode_utf8(m.input).len() || edit::boundary(
                m.input,
                m.cursor as int,
            ),
            _ => true,
        }),
{
    if let Key::Char(c) = k.code {
        law_widths(c);
    }
}

// ---- the screen ----

/// The status row names the node, or a dash where it has no name, says whether
/// it is connected, gives its load and its free memory, and names its task, or
/// says that it is idle.
pub proof fn law_status_row(m: AppModel, cpu: Seq<char>, ram: Seq<char>)
    ensures
        ({
            let name = if m.status.node_name.len() > 0 {
                m.status.node_name
            } else {
                "-"@
            };
            let task = if m.status.current_task.len() > 0 {
                m.status.current_task
            } else {
                "idle"@
            };
            let tail = " | CPU: "@ + cpu + " | Free RAM: "@ + ram + " | Task: "@ + task;
            &&& m.status.connected ==> m.status_line(cpu, ram) == "Node: "@ + name + " | "@
                + "connected"@ + tail
            &&& !m.status.connected ==> m.status_line(cpu, ram) == "Node: "@ + name + " | "@
                + "disconnected"@ + tail
        }),
{
    let name = if m.status.node_name.len() > 0 {
        m.status.node_name
    } else {
        "-"@
    };
    let task = if m.status.current_task.len() > 0 {
        m.status.current_task
    } else {
        "idle"@
    };
    let tail = " | CPU: "@ + cpu + " | Free RAM: "@ + ram + " | Task: "@ + task;
    let connection = if m.status.connected {
        "connected"@
    } else {
        "disconnected"@
    };
    assert(m.status_line(cpu, ram) =~= "Node: "@ + name + " | "@ + connection + tail);
}

/// What is shown of the console: its scroll position once it is limited, in the
/// view and in the scroll bar, which is as long as the log; the titles and the
/// mode by where the keys go and whether the log is followed; the message.
pub proof fn law_screen_shows_the_console(
    m: AppModel,
    rows: Rows,
    cpu: Seq<char>,
    ram: Seq<char>,
)
    ensures
        ({
            let s = m.screen(rows, cpu, ram);
            &&& s.rows == rows
            &&& s.status_line == m.status_line(cpu, ram)
            &&& s.scroll == m.clamped(rows.output.height as nat).scroll
            &&& s.scrollbar_position == s.scroll
            &&& s.cursor == m.shown_cursor(rows.input)
            &&& m.logs.len() > 0 ==> s.scrollbar_length == m.logs.len()
            &&& m.logs.len() == 0 ==> s.scrollbar_length == 1
            &&& m.focus == Focus::Output ==> s.output_title == "Output (scroll mode)"@
                && s.input_title == "Command"@ && s.cursor is None
            &&& m.focus == Focus::Input ==> s.output_title == "Output"@ && s.input_title
                == "Command (edit mode)"@ && s.cursor is Some
            &&& s.message.len() == m.message.len() + 2 && s.message.subrange(
                1,
                m.message.len() as int + 1,
            ) == m.message && s.message[0] == ' ' && s.message.last() == ' '
            &&& m.follow_tail ==> s.mode == "[tail]"@
            &&& !m.follow_tail ==> s.mode == "[free]"@
        }),
{
    reveal_strlit(" ");
    reveal_strlit("[");
    reveal_strlit("]");
    reveal_strlit("tail");
    reveal_strlit("free");
    reveal_strlit("[tail]");
    reveal_strlit("[free]");
    let s = m.screen(rows, cpu, ram);
    assert(s.message.subrange(1, m.message.len() as int + 1) =~= m.message);
    assert("["@ + "tail"@ + "]"@ =~= "[tail]"@);
    assert("["@ + "free"@ + "]"@ =~= "[free]"@);
}

/// What is shown of every console alike.
pub proof fn law_fixed_texts()
    ensures
        screen::HEADER_NAME@ == "Fluxa"@,
        screen::HEADER_LABEL@ == "  •  Target: "@,
        screen::HEADER_TITLE@ == "Remote Build / Exec"@,
        screen::STATUS_TITLE@ == "Status"@,
        screen::HELP@
            == "Enter: run | upload <id> <tar.gz> | Tab: focus | PgUp/PgDn: scroll | End: tail | Ctrl+L: clear | q: quit"@,
        client::DEFAULT_TARGET@ == "http://127.0.0.1:50051"@,
        MAX_LOG_LINES == 2000,
{
}

/// The terminal's cursor is where the cursor of the line is: right behind the
/// frame and the prompt if that is at the start, and further by just as much as
/// the line's cursor is; on the line below the frame. It depends on nothing else
/// of the console.
pub proof fn law_cursor_is_shown_where_it_is(m: AppModel, n: AppModel, input: Area)
    requires
        m.focus == Focus::Input,
        n.focus == Focus::Input,
        m.cursor < 65536,
        n.cursor < 65536,
        m.cursor_fits(input),
        n.cursor_fits(input),
    ensures
        m.shown_cursor(input) is Some && n.shown_cursor(input) is Some,
        ({
            let (x, y) = m.shown_cursor(input)->0;
            let (u, v) = n.shown_cursor(input)->0;
            &&& x - u == m.cursor - n.cursor
            &&& y == v == input.y + 1
            &&& m.cursor == 0 ==> x == input.x + 1 + "fluxa> "@.len()
            &&& x == input.x + 1 + "fluxa> "@.len() + m.cursor
        }),
{
    reveal_strlit("fluxa> ");
    is_ascii_chars_encode_utf8("fluxa> "@);
}

/// The cursor counts in the columns of a terminal: past the last of them it
/// begins anew. It can be shown exactly where it then lies on a terminal, and
/// need not be while the log takes the keys.
pub proof fn law_where_the_cursor_can_be_shown(m: AppModel, input: Area)
    ensures
        m.focus == Focus::Output ==> m.cursor_fits(input) && m.shown_cursor(input) is None,
        m.focus == Focus::Input ==> (m.cursor_fits(input) <==> input.x + 1 + "fluxa> "@.len()
            + m.cursor % 65536 <= u16::MAX && input.y < u16::MAX),
        m.focus == Focus::Input && m.cursor_fits(input) ==> (m.shown_cursor(input)->0).0 == input.x + 1
            + "fluxa> "@.len() + m.cursor % 65536,
{
    reveal_strlit("fluxa> ");
    is_ascii_chars_encode_utf8("fluxa> "@);
}

/// On a terminal with room for all rows: header and status of three lines each
/// below the first, then the log, the command line of three lines and the bar
/// of one above the last; all without the first and the last column.
pub proof fn law_rows_of_a_terminal(area: Area, rows: Rows)
    requires
        layout::laid_out(area, rows),
        area.width >= 2,
        area.height >= 17,
        area.x < u16::MAX,
        area.y + area.height <= u16::MAX,
    ensures
        forall|r: Area|
            r == rows.header || r == rows.status || r == rows.output || r == rows.input || r
                == rows.bar ==> (#[trigger] r.x) == area.x + 1 && r.width == area.width - 2,
        rows.header.y == area.y + 1 && rows.header.height == 3,
        rows.status.y == area.y + 4 && rows.status.height == 3,
        rows.output.y == area.y + 7 && rows.output.height == area.height - 12,
        rows.input.y == area.y + area.height - 5 && rows.input.height == 3,
        rows.bar.y == area.y + area.height - 2 && rows.bar.height == 1,
{
    lemma_rows(area, rows);
}

/// On a lower terminal the rows still follow each other without a gap from the
/// second line to the last but one; the log has five lines, or all there are,
/// and no other row more than it has on a higher one.
pub proof fn law_rows_of_a_low_terminal(area: Area, rows: Rows)
    requires
        layout::laid_out(area, rows),
        area.width >= 2,
        2 <= area.height < 17,
        area.x < u16::MAX,
        area.y + area.height <= u16::MAX,
    ensures
        forall|r: Area|
            r == rows.header || r == rows.status || r == rows.output || r == rows.input || r
                == rows.bar ==> (#[trigger] r.x) == area.x + 1 && r.width == area.width - 2,
        rows.header.y == area.y + 1,
        rows.status.y == rows.header.y + rows.header.height,
        rows.output.y == rows.status.y + rows.status.height,
        rows.input.y == rows.output.y + rows.output.height,
        rows.bar.y == rows.input.y + rows.input.height,
        rows.bar.y + rows.bar.height == area.y + area.height - 1,
        area.height >= 7 ==> rows.output.height == 5,
        area.height < 7 ==> rows.output.height == area.height - 2,
        rows.header.height <= 3 && rows.status.height <= 3 && rows.input.height <= 3,
        rows.bar.height <= 1,
{
    lemma_rows(area, rows);
}

/// On a terminal that is all margin the rows are nothing.
pub proof fn law_rows_of_a_narrow_terminal(area: Area, rows: Rows)
    requires
        layout::laid_out(area, rows),
        area.width < 2 || area.height < 2,
    ensures
        forall|r: Area|
            r == rows.header || r == rows.status || r == rows.output || r == rows.input || r
                == rows.bar ==> (#[trigger] r.x) == 0 && r.y == 0 && r.width == 0 && r.height == 0,
{
    lemma_rows(area, rows);
}

/// Where an area reaches past the last line that a terminal can have, the rows
/// share what lies before it, as on a terminal that ends there.
pub proof fn law_rows_end_with_the_coordinates(area: Area, rows: Rows)
    requires
        layout::laid_out(area, rows),
        area.width >= 2,
        area.height >= 2,
        area.y < u16::MAX,
        area.y + area.height > u16::MAX,
        area.x < u16::MAX,
    ensures
        rows.header.y == area.y + 1,
        rows.status.y == rows.header.y + rows.header.height,
        rows.output.y == rows.status.y + rows.status.height,
        rows.input.y == rows.output.y + rows.output.height,
        rows.bar.y == rows.input.y + rows.input.height,
        area.y + area.height > u16::MAX + 1 ==> rows.bar.y + rows.bar.height == u16::MAX,
        area.y + 16 <= u16::MAX && area.height >= 17 ==> rows.header.height == 3
            && rows.status.height == 3 && rows.input.height == 3 && rows.bar.height == 1
            && rows.output.height >= 5,
{
    lemma_rows(area, rows);
}

proof fn lemma_rows(area: Area, rows: Rows)
    requires
        layout::laid_out(area, rows),
    ensures
        ({
            let space = area.inner(1);
            &&& rows.header.x == space.x && rows.header.width == space.width
            &&& rows.status.x == space.x && rows.status.width == space.width
            &&& rows.output.x == space.x && rows.output.width == space.width
            &&& rows.input.x == space.x && rows.input.width == space.width
            &&& rows.bar.x == space.x && rows.bar.width == space.width
            &&& rows.header.y == space.y
            &&& rows.status.y == rows.header.y + rows.header.height
            &&& rows.output.y == rows.status.y + rows.status.height
            &&& rows.input.y == rows.output.y + rows.output.height
            &&& rows.bar.y == rows.input.y + rows.input.height
        }),
{
    let order = rows.in_order();
    assert(order[0] == rows.header && order[1] == rows.status && order[2] == rows.output
        && order[3] == rows.input && order[4] == rows.bar);
    assert(order[1].y == order[1 - 1].y + order[1 - 1].height);
    assert(order[2].y == order[2 - 1].y + order[2 - 1].height);
    assert(order[3].y == order[3 - 1].y + order[3 - 1].height);
    assert(order[4].y == order[4 - 1].y + order[4 - 1].height);
}

// ---- requests ----

/// An archive is sent in chunks of 65536 bytes, in order and without a gap, the
/// last as long as what is left, and each names the job.
pub proof fn law_chunks_cut_the_archive(job_id: Seq<char>, data: Seq<u8>)
    ensures
        ({
            let chunks = client::chunked(job_id, data);
            &&& data.len() <= chunks.len() * 65536
            &&& chunks.len() > 0 ==> (chunks.len() - 1) * 65536 < data.len()
            &&& forall|i: int|
                0 <= i < chunks.len() ==> (#[trigger] chunks[i]).job_id == job_id && chunks[i].data
                    == data.subrange(
                    i * 65536,
                    if (i + 1) * 65536 <= data.len() {
                        (i + 1) * 65536
                    } else {
                        data.len() as int
                    },
                )
        }),
    decreases data.len(),
{
    let chunks = client::chunked(job_id, data);
    let n = 65536int;
    if data.len() == 0 {
    } else if data.len() <= n {
        assert(chunks[0].data =~= data.subrange(0, data.len() as int));
    } else {
        let rest = data.skip(n);
        let later = client::chunked(job_id, rest);
        law_chunks_cut_the_archive(job_id, rest);
        assert(client::pieces(data) =~= seq![data.take(n)] + client::pieces(rest));
        assert forall|i: int| 0 <= i < chunks.len() implies (#[trigger] chunks[i]).job_id == job_id
            && chunks[i].data == data.subrange(
            i * 65536,
            if (i + 1) * 65536 <= data.len() {
                (i + 1) * 65536
            } else {
                data.len() as int
            },
        ) by {
            if i == 0 {
                assert(data.take(n) =~= data.subrange(0, n));
            } else {
                assert(chunks[i].data == later[i - 1].data);
                let to = if i * 65536 <= rest.len() {
                    i * 65536
                } else {
                    rest.len() as int
                };
                assert(later[i - 1].data == rest.subrange((i - 1) * 65536, to));
                assert(rest.subrange((i - 1) * 65536, to) =~= data.subrange(i * 65536, to + n));
            }
        }
    }
}

/// Yes and no are told apart in the reports.
pub proof fn law_truth_is_told()
    ensures
        client::bool_text(true) == "true"@,
        client::bool_text(false) == "false"@,
{
}

// ---- the feed ----

/// The feed connects, opens the stream, reads one piece of news after the other,
/// and rests for two seconds when anything is amiss, to connect again.
pub proof fn law_feed_goes_round(status: NodeStatusModel, ev: FeedEventModel)
    ensures
        ({
            let next = feed::feed_next(status, ev).1.next;
            match ev {
                FeedEventModel::Rested => next == FeedAction::Connect,
                FeedEventModel::Connected { .. } => next == FeedAction::OpenStream,
                FeedEventModel::StreamOpened => next == FeedAction::Read,
                FeedEventModel::Received { .. } => next == FeedAction::Read,
                _ => next == (FeedAction::Rest { seconds: 2 }),
            }
        }),
{
}

/// The console is told when the node is reached, with nothing known of it yet;
/// of all news, as they are, at the time at which they come, with their line if
/// it is not empty; and of every failure, by what failed and why. It is told
/// nothing else.
pub proof fn law_feed_tells(status: NodeStatusModel, ev: FeedEventModel)
    ensures
        ({
            let (after, step) = feed::feed_next(status, ev);
            let nothing = NodeStatusModel {
                node_name: Seq::empty(),
                cpu_usage: 0,
                free_ram_bytes: 0,
                current_task: Seq::empty(),
                connected: false,
                last_seen: None,
            };
            match ev {
                FeedEventModel::Connected { now } => step.report == Some(
                    EventModel::StatusUpdate(
                        NodeStatusModel { connected: true, last_seen: Some(now), ..nothing },
                        Some("Connected"@),
                    ),
                ),
                FeedEventModel::Received { update, now } => {
                    &&& step.report matches Some(EventModel::StatusUpdate(told, line))
                    &&& told.node_name == update.node_name && told.cpu_usage == update.cpu_usage
                    &&& told.free_ram_bytes == update.free_ram_bytes
                    &&& told.current_task == update.current_task
                    &&& told.connected && told.last_seen == Some(now)
                    &&& update.log_line.len() == 0 ==> line is None
                    &&& update.log_line.len() > 0 ==> line == Some(update.log_line)
                },
                FeedEventModel::ConnectFailed(e) => step.report == Some(
                    EventModel::StatusUpdate(nothing, Some("connect failed: "@ + e)),
                ),
                FeedEventModel::StreamFailed(e) => step.report == Some(
                    EventModel::StatusUpdate(nothing, Some("stream_status failed: "@ + e)),
                ),
                FeedEventModel::ReceiveFailed(e) => step.report == Some(
                    EventModel::StatusUpdate(nothing, Some("Disconnected: "@ + e)),
                ),
                _ => step.report is None && after == status,
            }
        }),
{
}

/// A feed that is started, and every node that is lost, is one of which nothing
/// is known.
pub proof fn law_nothing_is_known_at_first()
    ensures
        ({
            let s = NodeStatusModel::unknown();
            &&& s.node_name.len() == 0 && s.current_task.len() == 0
            &&& s.cpu_usage == 0 && s.free_ram_bytes == 0
            &&& !s.connected && s.last_seen is None
        }),
{
}

// ---- the node ----

/// A node tells of itself as it is: its name, the load and the memory that were
/// measured last, the task that it runs and none if it runs none, and the line
/// that came up.
pub proof fn law_node_tells_of_itself(
    state: StateModel,
    task: Seq<char>,
    line: Option<Seq<char>>,
    name: Seq<char>,
)
    ensures
        ({
            let told = state.told(line);
            &&& told.node_name == state.node_name
            &&& told.cpu_usage == state.cpu_usage
            &&& told.free_ram_bytes == state.free_ram_bytes
            &&& line matches Some(l) ==> told.log_line == l
            &&& line is None ==> told.log_line.len() == 0
            &&& state.running(Some(task)).told(line) == (UpdateModel { current_task: task, ..told })
            &&& state.running(None).told(line) == (UpdateModel {
                current_task: Seq::empty(),
                ..told
            })
            &&& state.current_task matches Some(t) ==> told.current_task == t
            &&& state.current_task is None ==> told.current_task.len() == 0
            &&& state.running(state.current_task) == state
        }),
        StateModel::started(name).node_name == name,
        StateModel::started(name).current_task is None,
        StateModel::started(name).cpu_usage == 0 && StateModel::started(name).free_ram_bytes == 0,
{
}

/// A task is named by its id and its command, both of them whole.
pub proof fn law_task_is_named(id: Seq<char>, command: Seq<char>)
    ensures
        worker::task_label(id, command).len() == id.len() + 2 + command.len(),
        worker::task_label(id, command).take(id.len() as int) == id,
        worker::task_label(id, command).skip(id.len() as int + 2) == command,
        worker::task_label(id, command)[id.len() as int] == ':',
        worker::task_label(id, command)[id.len() as int + 1] == ' ',
{
    reveal_strlit(": ");
    let label = worker::task_label(id, command);
    assert(label.take(id.len() as int) =~= id);
    assert(label.skip(id.len() as int + 2) =~= command);
}

/// The exit code that is logged is the very code that the command left, and -1
/// where it left none: commands that ended with different codes are logged
/// differently.
pub proof fn law_exit_code_is_shown(c: i32, d: i32)
    ensures
        worker::shown_code(Some(c)) == c,
        worker::shown_code(None) == -1,
        c != d ==> text::signed_decimal(worker::shown_code(Some(c))) != text::signed_decimal(
            worker::shown_code(Some(d)),
        ),
        c >= 0 ==> read_number(text::signed_decimal(worker::shown_code(Some(c)))) == c,
        c < 0 ==> text::signed_decimal(worker::shown_code(Some(c)))[0] == '-' && read_number(
            text::signed_decimal(worker::shown_code(Some(c))).drop_first(),
        ) == -c,
{
    law_signed_numerals_read_back(c as int, d as int);
}

/// A status stream reads the state, waits for a line, tells the two and starts
/// over, until there is nobody to tell.
pub proof fn law_stream_goes_round(state: StateModel, line: Option<Seq<char>>)
    ensures
        StreamModel::Reading.next(StreamEventModel::Snapshot(state)) == Some(
            (StreamModel::Waiting(state), StreamActionModel::TakeLine),
        ),
        StreamModel::Waiting(state).next(StreamEventModel::Line(line)) == Some(
            (StreamModel::Sending, StreamActionModel::Send(state.told(line))),
        ),
        StreamModel::Sending.next(StreamEventModel::Sent) == Some(
            (StreamModel::Reading, StreamActionModel::ReadState),
        ),
        StreamModel::Sending.next(StreamEventModel::Gone) == Some(
            (StreamModel::Over, StreamActionModel::Stop),
        ),
{
}

/// A stream takes nothing but what it waits for.
pub proof fn law_stream_waits_for_one_thing(stream: StreamModel, ev: StreamEventModel)
    ensures
        stream.next(ev) is Some <==> ((stream is Reading && ev is Snapshot) || (stream is Waiting
            && ev is Line) || (stream is Sending && (ev is Sent || ev is Gone))),
{
}

// ---- uploads ----

/// The archive and the directory of a job stand in the store under its name, and
/// what the command unpacks is that archive, into that directory.
pub proof fn law_job_has_its_places(job: Seq<char>, total: nat)
    ensures
        upload::archive_path(job) == "/tmp/fluxa/"@ + job + ".tar.gz"@,
        upload::extract_dir(job) == "/tmp/fluxa/"@ + job,
        ExtractionModel::of(job, total).job_id == job,
        ExtractionModel::of(job, total).total_bytes == total,
        ExtractionModel::of(job, total).extract_dir == "/tmp/fluxa/"@ + job,
        ExtractionModel::of(job, total).command == "tar -xzf '"@ + ("/tmp/fluxa/"@ + job
            + ".tar.gz"@) + "' -C '"@ + ("/tmp/fluxa/"@ + job) + "'"@,
{
}

/// Whatever the job, its archive and its directory stand in the store that an
/// upload begins by creating.
pub proof fn law_places_stand_in_the_store(job: Seq<char>)
    ensures
        upload::archive_path(job).take(11) == upload::STORE_DIR@.push('/'),
        upload::extract_dir(job).take(11) == upload::STORE_DIR@.push('/'),
        upload::archive_path(job) == upload::extract_dir(job) + ".tar.gz"@,
{
    reveal_strlit("/tmp/fluxa/");
    reveal_strlit("/tmp/fluxa");
    assert(upload::archive_path(job).take(11) =~= upload::STORE_DIR@.push('/'));
    assert(upload::extract_dir(job).take(11) =~= upload::STORE_DIR@.push('/'));
}

/// The first chunk of an upload must name a job; the archive of that job is then
/// created, and the chunk's data written into it when it is there. The data of
/// every later chunk is written at once, whatever it names. All data is counted.
pub proof fn law_chunk_is_stored(s: SessionModel, chunk: ChunkModel)
    requires
        s.total_bytes + chunk.data.len() <= usize::MAX,
    ensures
        ({
            let step = UploadModel::Receiving(s).next(UploadEventModel::Received(chunk));
            &&& s.job_id is None && text::blank(chunk.job_id) ==> {
                &&& step matches Some((UploadModel::Over, UploadActionModel::Refuse(why)))
                &&& why.kind == RefusalKind::InvalidArgument
                &&& why.message == "job_id is required in first chunk"@
            }
            &&& s.job_id is None && !text::blank(chunk.job_id) ==> {
                &&& step matches Some((creating, UploadActionModel::CreateArchive { path }))
                &&& path == "/tmp/fluxa/"@ + chunk.job_id + ".tar.gz"@
                &&& creating.next(UploadEventModel::Done) matches Some(
                    (UploadModel::Writing(after), UploadActionModel::Write { data }),
                )
                &&& data == chunk.data
                &&& after.job_id == Some(chunk.job_id)
                &&& after.total_bytes == s.total_bytes + chunk.data.len()
            }
            &&& s.job_id is Some ==> {
                &&& step matches Some(
                    (UploadModel::Writing(after), UploadActionModel::Write { data }),
                )
                &&& data == chunk.data
                &&& after.job_id == s.job_id
                &&& after.total_bytes == s.total_bytes + chunk.data.len()
            }
            &&& UploadModel::Writing(s).next(UploadEventModel::Done) == Some(
                (UploadModel::Receiving(s), UploadActionModel::Read),
            )
        }),
{
}

/// An upload begins with an empty session once the store is there; without a
/// chunk it is refused at the end, and else goes on to unpack the archive of the
/// job that the first chunk named.
pub proof fn law_upload_begins_and_ends(s: SessionModel, x: ExtractionModel)
    ensures
        UploadModel::Preparing.next(UploadEventModel::Done) matches Some(
            (UploadModel::Receiving(e), UploadActionModel::Read),
        ) && e.job_id is None && e.total_bytes == 0,
        s.job_id is None ==> (UploadModel::Receiving(s).next(UploadEventModel::Ended) matches Some(
            (UploadModel::Over, UploadActionModel::Refuse(why)),
        ) && why.kind == RefusalKind::InvalidArgument && why.message == "no chunks received"@),
        s.job_id matches Some(job) ==> (UploadModel::Receiving(s).next(UploadEventModel::Ended)
            matches Some((UploadModel::Placing(p), UploadActionModel::CreateExtractDir { path }))
            && path == "/tmp/fluxa/"@ + job && p.job_id == job && p.total_bytes == s.total_bytes
            && p.extract_dir == path && p.command == "tar -xzf '"@ + ("/tmp/fluxa/"@ + job
            + ".tar.gz"@) + "' -C '"@ + path + "'"@),
        UploadModel::Placing(x).next(UploadEventModel::Done) == Some(
            (UploadModel::Unpacking(x), UploadActionModel::RunTar { command: x.command }),
        ),
{
}

/// An upload that was unpacked is answered with where it was, and logged with
/// the number of its bytes; one that was not is answered with how the unpacking
/// ended, and not logged.
pub proof fn law_upload_is_answered(x: ExtractionModel, success: bool, status: Seq<char>)
    ensures
        UploadModel::Unpacking(x).next(UploadEventModel::Exited { success, status }) matches Some(
            (UploadModel::Over, UploadActionModel::Answer(answer)),
        ) && {
            &&& answer.job_id == x.job_id
            &&& answer.ok == success
            &&& success ==> answer.message == "uploaded and extracted to "@ + x.extract_dir
            &&& !success ==> answer.message == "tar failed: "@ + status && answer.log is None
            &&& success ==> answer.log == Some(
                "[upload] job="@ + x.job_id + " extracted to "@ + x.extract_dir + " ("@
                    + text::decimal(x.total_bytes) + " bytes)"@,
            )
        },
{
}

/// A failure is told with the stage that failed and the reason, which is the
/// node's fault.
pub proof fn law_failure_is_told(u: UploadModel, why: Seq<char>)
    ensures
        u is Over ==> u.next(UploadEventModel::Failed(why)) is None,
        !(u is Over) ==> (u.next(UploadEventModel::Failed(why)) matches Some(
            (UploadModel::Over, UploadActionModel::Refuse(refusal)),
        ) && refusal.kind == RefusalKind::Internal && refusal.message == match u {
            UploadModel::Preparing => "create /tmp/fluxa failed: "@,
            UploadModel::Receiving(_) => "stream recv error: "@,
            UploadModel::Creating { .. } => "create archive failed: "@,
            UploadModel::Writing(_) => "write archive failed: "@,
            UploadModel::Placing(_) => "create extract dir failed: "@,
            _ => "tar exec failed: "@,
        } + why),
{
}

/// The words for a stage that failed.
pub proof fn law_stages_have_their_words(stage: UploadStage)
    ensures
        stage.complaint() == match stage {
            UploadStage::CreateStore => "create /tmp/fluxa failed: "@,
            UploadStage::Receive => "stream recv error: "@,
            UploadStage::CreateArchive => "create archive failed: "@,
            UploadStage::WriteArchive => "write archive failed: "@,
            UploadStage::CreateExtractDir => "create extract dir failed: "@,
            UploadStage::RunTar => "tar exec failed: "@,
        },
{
}

/// No stage comes to anything but its own events, and only a count of bytes past
/// all bounds stops an upload otherwise.
pub proof fn law_stage_comes_to_its_own(u: UploadModel, ev: UploadEventModel)
    ensures
        u.next(ev) is Some <==> match ev {
            UploadEventModel::Failed(_) => !(u is Over),
            UploadEventModel::Done => u is Preparing || u is Creating || u is Writing || u
                is Placing,
            UploadEventModel::Received(chunk) => u matches UploadModel::Receiving(s)
                && s.total_bytes + chunk.data.len() <= usize::MAX,
            UploadEventModel::Ended => u is Receiving,
            UploadEventModel::Exited { .. } => u is Unpacking,
        },
{
}

/// All that an upload asks for in the course of `events`, in order.
pub open spec fn asked(events: Seq<UploadEventModel>) -> Seq<UploadActionModel>
    decreases events.len(),
{
    if events.len() == 0 {
        seq![UploadActionModel::CreateStore]
    } else {
        match laws::run(events) {
            Some((_, action)) => asked(events.drop_last()).push(action),
            None => asked(events.drop_last()),
        }
    }
}

/// In an upload that meets no failure one file is created, before anything is
/// written: the archive of the job that the first chunk names, which is the file
/// that the command then unpacks; and this whatever the size of the chunks.
pub proof fn law_what_is_created_is_unpacked(
    chunks: Seq<ChunkModel>,
    success: bool,
    status: Seq<char>,
)
    requires
        chunks.len() > 0,
        !text::blank(chunks[0].job_id),
        laws::carried(chunks).len() <= usize::MAX,
    ensures
        ({
            let all = asked(
                laws::smooth(chunks).push(UploadEventModel::Ended).push(UploadEventModel::Done).push(
                    UploadEventModel::Exited { success, status },
                ),
            );
            let n = all.len() as int;
            let archive = "/tmp/fluxa/"@ + chunks[0].job_id + ".tar.gz"@;
            let dir = "/tmp/fluxa/"@ + chunks[0].job_id;
            &&& n >= 7
            &&& all[0] is CreateStore
            &&& all[1] is Read
            &&& all[2] == UploadActionModel::CreateArchive { path: archive }
            &&& forall|i: int| 3 <= i < n - 3 ==> (#[trigger] all[i]) is Write || all[i] is Read
            &&& all[n - 3] == UploadActionModel::CreateExtractDir { path: dir }
            &&& all[n - 2] == UploadActionModel::RunTar {
                command: "tar -xzf '"@ + archive + "' -C '"@ + dir + "'"@,
            }
            &&& all[n - 1] is Answer
        }),
{
    let sent = laws::smooth(chunks);
    let ended = sent.push(UploadEventModel::Ended);
    let placed = ended.push(UploadEventModel::Done);
    let exited = placed.push(UploadEventModel::Exited { success, status });
    laws::law_upload_is_carried_out(chunks, success, status);
    lemma_asked_smooth(chunks);
    lemma_asked_push(sent, UploadEventModel::Ended);
    lemma_asked_push(ended, UploadEventModel::Done);
    lemma_asked_push(placed, UploadEventModel::Exited { success, status });
    let all = asked(exited);
    assert forall|i: int| 3 <= i < all.len() - 3 implies (#[trigger] all[i]) is Write
        || all[i] is Read by {
        assert(all[i] == asked(sent)[i]);
    }
}

proof fn lemma_asked_push(events: Seq<UploadEventModel>, ev: UploadEventModel)
    requires
        laws::run(events.push(ev)) is Some,
    ensures
        asked(events.push(ev)) == asked(events).push((laws::run(events.push(ev))->0).1),
{
    assert(events.push(ev).drop_last() =~= events);
}

proof fn lemma_asked_smooth(chunks: Seq<ChunkModel>)
    requires
        chunks.len() > 0 ==> !text::blank(chunks[0].job_id),
        laws::carried(chunks).len() <= usize::MAX,
    ensures
        ({
            let all = asked(laws::smooth(chunks));
            &&& all.len() >= 2 && all[0] is CreateStore && all[1] is Read
            &&& chunks.len() == 0 ==> all.len() == 2
            &&& chunks.len() > 0 ==> all.len() >= 4 && all[2] == UploadActionModel::CreateArchive {
                path: "/tmp/fluxa/"@ + chunks[0].job_id + ".tar.gz"@,
            }
            &&& forall|i: int| 3 <= i < all.len() ==> (#[trigger] all[i]) is Write || all[i] is Read
        }),
    decreases chunks.len(),
{
    let done = UploadEventModel::Done;
    let none = Seq::<UploadEventModel>::empty();
    if chunks.len() == 0 {
        laws::lemma_run_push(none, done);
        lemma_asked_push(none, done);
        assert(none.push(done) =~= laws::smooth(chunks));
    } else {
        let prior = chunks.drop_last();
        let chunk = chunks.last();
        laws::lemma_carried(chunks);
        lemma_asked_smooth(prior);
        laws::lemma_smooth(prior);
        laws::lemma_receive(prior);
        let before = laws::smooth(prior);
        let arrived = before.push(UploadEventModel::Received(chunk));
        laws::lemma_run_push(before, UploadEventModel::Received(chunk));
        lemma_asked_push(before, UploadEventModel::Received(chunk));
        laws::lemma_run_push(arrived, done);
        lemma_asked_push(arrived, done);
        if chunks.len() == 1 {
            laws::lemma_run_push(arrived.push(done), done);
            lemma_asked_push(arrived.push(done), done);
        }
        let all = asked(laws::smooth(chunks));
        let old = asked(before);
        assert forall|i: int| 3 <= i < all.len() implies (#[trigger] all[i]) is Write
            || all[i] is Read by {
            if i < old.len() {
                assert(all[i] == old[i]);
            }
        }
    }
}

// ---- the clock ----

/// After a wait the console is told of the key or the change of size that was
/// reported, and then of a tick if one is due: 33 milliseconds after the last.
pub proof fn law_wait_is_followed(input: Option<TerminalInput>, elapsed: u128, k: KeyEvent)
    ensures
        clock::heard(input, elapsed) == clock::heard(input, 0) + clock::heard(None, elapsed),
        clock::heard(Some(TerminalInput::Key(k)), 0) == seq![EventModel::Key(k)],
        clock::heard(Some(TerminalInput::Resize), 0) == seq![EventModel::Resize],
        clock::heard(Some(TerminalInput::Other), 0).len() == 0,
        clock::heard(None, 0).len() == 0,
        elapsed >= 33_000_000 ==> clock::heard(None, elapsed) == seq![EventModel::Tick],
        elapsed < 33_000_000 ==> clock::heard(None, elapsed).len() == 0,
{
    assert(clock::heard(input, elapsed) =~= clock::heard(input, 0) + clock::heard(None, elapsed));
    assert(clock::heard(Some(TerminalInput::Key(k)), 0) =~= seq![EventModel::Key(k)]);
    assert(clock::heard(Some(TerminalInput::Resize), 0) =~= seq![EventModel::Resize]);
    assert(elapsed >= 33_000_000 ==> clock::heard(None, elapsed) =~= seq![EventModel::Tick]);
}

// ---- tasks and the tool ----

/// What is found under an id is a task with that id, the first that was added;
/// nothing is found only where no task has it.
pub proof fn law_found_is_the_first(tasks: Seq<Task>, id: u64)
    ensures
        task::lookup(tasks, id) matches Some(t) ==> exists|i: int| {
            &&& 0 <= i < tasks.len() && #[trigger] tasks[i] == t && t.id == id
            &&& forall|j: int| 0 <= j < i ==> (#[trigger] tasks[j]).id != id
        },
        task::lookup(tasks, id) is None ==> forall|i: int|
            0 <= i < tasks.len() ==> (#[trigger] tasks[i]).id != id,
    decreases tasks.len(),
{
    if tasks.len() == 0 {
        task::lemma_lookup(tasks, id, 0);
    } else {
        let fewer = tasks.drop_last();
        law_found_is_the_first(fewer, id);
        assert(fewer.push(tasks.last()) =~= tasks);
        laws::law_added_task_is_found(fewer, tasks.last(), id);
        assert(forall|i: int| #![trigger fewer[i]] 0 <= i < fewer.len() ==> fewer[i] == tasks[i]);
        match task::lookup(fewer, id) {
            Some(t) => {
                let i = choose|i: int| {
                    &&& 0 <= i < fewer.len() && #[trigger] fewer[i] == t && t.id == id
                    &&& forall|j: int| 0 <= j < i ==> (#[trigger] fewer[j]).id != id
                };
                assert(tasks[i] == t);
                assert forall|j: int| 0 <= j < i implies (#[trigger] tasks[j]).id != id by {
                    assert(fewer[j].id != id);
                }
            },
            None => {
                assert forall|j: int| 0 <= j < fewer.len() implies (#[trigger] tasks[j]).id
                    != id by {
                    assert(fewer[j].id != id);
                }
                assert(tasks[tasks.len() - 1] == tasks.last());
            },
        }
    }
}

/// A task that lacks a name or a payload cannot be carried out, and any other
/// can.
pub proof fn law_valid_tasks(t: Task)
    ensures
        t.name@.len() == 0 ==> !task::valid(t),
        t.payload@.len() == 0 ==> !task::valid(t),
        t.name@.len() > 0 && t.payload@.len() > 0 ==> task::valid(t),
{
}

/// The tool goes by its first argument: it tries out the protocol if that is all
/// it is asked for, knows two other words, and tells how it is used if it is
/// asked for nothing.
pub proof fn law_tool_answers(args: Seq<Seq<char>>)
    ensures
        cli::asks_protocol(args) <==> args.len() == 2 && args[1] == "test-protocol"@,
        args.len() <= 1 ==> cli::reply(args) == "Usage: fluxa-cli [submit|agent|test-protocol]"@,
        args.len() > 1 && args[1] == "submit"@ ==> cli::reply(args) == "Submitting task..."@,
        args.len() > 1 && args[1] == "agent"@ ==> cli::reply(args) == "Starting agent..."@,
        args.len() > 1 && args[1] != "submit"@ && args[1] != "agent"@ ==> cli::reply(args)
            == "Unknown command"@,
{
    reveal_strlit("submit");
    reveal_strlit("agent");
    assert("submit"@.len() == 6 && "agent"@.len() == 5);
}

// ---- values ----

/// The value of a list of texts is the list of their values, and so with chunks.
pub proof fn law_value_of_a_list(texts: Seq<String>, chunks: Seq<ProjectChunk>, i: int)
    ensures
        text::texts(texts).len() == texts.len(),
        0 <= i < texts.len() ==> text::texts(texts)[i] == texts[i]@,
        client::chunk_models(chunks).len() == chunks.len(),
        0 <= i < chunks.len() ==> client::chunk_models(chunks)[i].job_id == chunks[i].job_id@
            && client::chunk_models(chunks)[i].data == chunks[i].data@,
{
}

/// The value of a console holds all that the console does.
pub proof fn law_value_of_a_console(a: App)
    ensures
        a@.target == a.target@ && a@.status == a.status@ && a@.message == a.message@,
        a@.logs.len() == a.logs@.len(),
        forall|i: int| 0 <= i < a.logs@.len() ==> #[trigger] a@.logs[i] == a.logs@[i]@,
        a@.history.len() == a.history@.len(),
        forall|i: int| 0 <= i < a.history@.len() ==> #[trigger] a@.history[i] == a.history@[i]@,
        a@.follow_tail == a.follow_tail && a@.scroll == a.scroll && a@.focus == a.focus,
        a@.input == a.input@ && a@.cursor == a.cursor,
        a.history_idx is None <==> a@.history_idx is None,
        a.history_idx matches Some(i) ==> a@.history_idx == Some(i as nat),
{
}

/// So do those of a node as the console knows it, of its news, and of its state.
pub proof fn law_value_of_a_node(n: NodeStatus, u: StatusUpdate, c: CurrentState)
    ensures
        n@.node_name == n.node_name@ && n@.current_task == n.current_task@,
        n@.cpu_usage == n.cpu_usage && n@.free_ram_bytes == n.free_ram_bytes,
        n@.connected == n.connected && n@.last_seen == n.last_seen,
        u@.node_name == u.node_name@ && u@.current_task == u.current_task@,
        u@.cpu_usage == u.cpu_usage && u@.free_ram_bytes == u.free_ram_bytes,
        u@.log_line == u.log_line@,
        c@.node_name == c.node_name@,
        c@.cpu_usage == c.cpu_usage && c@.free_ram_bytes == c.free_ram_bytes,
        c.current_task is None <==> c@.current_task is None,
        c.current_task matches Some(t) ==> c@.current_task == Some(t@),
{
}

/// So do those of what happens to the console and of what it asks for.
pub proof fn law_value_of_an_event(e: AppEvent, a: Action, c: Command)
    ensures
        match e {
            AppEvent::Tick => e@ is Tick,
            AppEvent::Key(k) => e@ == EventModel::Key(k),
            AppEvent::Resize => e@ is Resize,
            AppEvent::StatusUpdate(n, None) => e@ == EventModel::StatusUpdate(n@, None),
            AppEvent::StatusUpdate(n, Some(l)) => e@ == EventModel::StatusUpdate(n@, Some(l@)),
            AppEvent::ClientInfo(i) => e@ == EventModel::ClientInfo(i@),
        },
        match a {
            Action::Wait => a@ is Wait,
            Action::Quit => a@ is Quit,
            Action::Resize => a@ is Resize,
            Action::Notify(i) => a@ == ActionModel::Notify(i@),
            Action::Submit { target, command } => a@ == (ActionModel::Submit {
                target: target@,
                command: command@,
            }),
            Action::Upload { target, job_id, archive_path } => a@ == (ActionModel::Upload {
                target: target@,
                job_id: job_id@,
                archive_path: archive_path@,
            }),
        },
        match c {
            Command::Upload { job_id, archive_path } => c@ == (CommandModel::Upload {
                job_id: job_id@,
                archive_path: archive_path@,
            }),
            Command::UploadUsage => c@ is UploadUsage,
            Command::Run(l) => c@ == CommandModel::Run(l@),
        },
{
}

/// So do those of what happens to the feed and of its steps.
pub proof fn law_value_of_a_feed(e: FeedEvent, s: FeedStep)
    ensures
        match e {
            FeedEvent::Connected { now } => e@ == (FeedEventModel::Connected { now }),
            FeedEvent::ConnectFailed(w) => e@ == FeedEventModel::ConnectFailed(w@),
            FeedEvent::StreamOpened => e@ is StreamOpened,
            FeedEvent::StreamFailed(w) => e@ == FeedEventModel::StreamFailed(w@),
            FeedEvent::Received { update, now } => e@ == (FeedEventModel::Received {
                update: update@,
                now,
            }),
            FeedEvent::ReceiveFailed(w) => e@ == FeedEventModel::ReceiveFailed(w@),
            FeedEvent::StreamEnded => e@ is StreamEnded,
            FeedEvent::Rested => e@ is Rested,
        },
        s@.next == s.next,
        s.report is None <==> s@.report is None,
        s.report matches Some(r) ==> s@.report == Some(r@),
{
}

/// So do those of a status stream, of what happens to it and of what it asks for.
pub proof fn law_value_of_a_stream(s: StatusStream, e: StreamEvent, a: StreamAction)
    ensures
        match s {
            StatusStream::Reading => s@ is Reading,
            StatusStream::Waiting(state) => s@ == StreamModel::Waiting(state@),
            StatusStream::Sending => s@ is Sending,
            StatusStream::Over => s@ is Over,
        },
        match e {
            StreamEvent::Snapshot(state) => e@ == StreamEventModel::Snapshot(state@),
            StreamEvent::Line(Some(l)) => e@ == StreamEventModel::Line(Some(l@)),
            StreamEvent::Line(None) => e@ == StreamEventModel::Line(None),
            StreamEvent::Sent => e@ is Sent,
            StreamEvent::Gone => e@ is Gone,
        },
        match a {
            StreamAction::ReadState => a@ is ReadState,
            StreamAction::TakeLine => a@ is TakeLine,
            StreamAction::Send(u) => a@ == StreamActionModel::Send(u@),
            StreamAction::Stop => a@ is Stop,
        },
{
}

/// So do those of the parts of an upload.
pub proof fn law_value_of_an_upload_part(
    c: ProjectChunk,
    r: Refusal,
    s: UploadSession,
    w: ChunkWrite,
    x: Extraction,
    o: UploadOutcome,
)
    ensures
        c@.job_id == c.job_id@ && c@.data == c.data@,
        r@.kind == r.kind && r@.message == r.message@,
        s@.total_bytes == s.total_bytes,
        s.job_id is None <==> s@.job_id is None,
        s.job_id matches Some(j) ==> s@.job_id == Some(j@),
        w@.data == w.data@,
        w.create is None <==> w@.create is None,
        w.create matches Some(p) ==> w@.create == Some(p@),
        x@.job_id == x.job_id@ && x@.extract_dir == x.extract_dir@,
        x@.command == x.command@ && x@.total_bytes == x.total_bytes,
        o@.job_id == o.ack.job_id@ && o@.ok == o.ack.ok && o@.message == o.ack.message@,
        o.log is None <==> o@.log is None,
        o.log matches Some(l) ==> o@.log == Some(l@),
{
}

/// So do those of an upload, of what happens to it and of what it asks for.
pub proof fn law_value_of_an_upload(u: Upload, e: UploadEvent, a: UploadAction)
    ensures
        match u {
            Upload::Preparing => u@ is Preparing,
            Upload::Receiving(s) => u@ == UploadModel::Receiving(s@),
            Upload::Creating { session, data } => u@ == (UploadModel::Creating {
                session: session@,
                data: data@,
            }),
            Upload::Writing(s) => u@ == UploadModel::Writing(s@),
            Upload::Placing(x) => u@ == UploadModel::Placing(x@),
            Upload::Unpacking(x) => u@ == UploadModel::Unpacking(x@),
            Upload::Over => u@ is Over,
        },
        match e {
            UploadEvent::Done => e@ is Done,
            UploadEvent::Failed(w) => e@ == UploadEventModel::Failed(w@),
            UploadEvent::Received(c) => e@ == UploadEventModel::Received(c@),
            UploadEvent::Ended => e@ is Ended,
            UploadEvent::Exited { success, status } => e@ == (UploadEventModel::Exited {
                success,
                status: status@,
            }),
        },
        match a {
            UploadAction::CreateStore => a@ is CreateStore,
            UploadAction::Read => a@ is Read,
            UploadAction::CreateArchive { path } => a@ == (UploadActionModel::CreateArchive {
                path: path@,
            }),
            UploadAction::Write { data } => a@ == (UploadActionModel::Write { data: data@ }),
            UploadAction::CreateExtractDir { path } => a@ == (UploadActionModel::CreateExtractDir {
                path: path@,
            }),
            UploadAction::RunTar { command } => a@ == (UploadActionModel::RunTar {
                command: command@,
            }),
            UploadAction::Refuse(r) => a@ == UploadActionModel::Refuse(r@),
            UploadAction::Answer(o) => a@ == UploadActionModel::Answer(o@),
        },
        upload::step_model(None) is None,
        upload::step_model(Some((u, a))) == Some((u@, a@)),
{
}

/// So do those of what is shown, and of the repository.
pub proof fn law_value_of_a_screen(s: Screen, r: TaskRepo)
    ensures
        s@.rows == s.rows && s@.status_line == s.status_line@,
        s@.output_title == s.output_title@ && s@.input_title == s.input_title@,
        s@.scroll == s.scroll && s@.scrollbar_length == s.scrollbar_length,
        s@.scrollbar_position == s.scrollbar_position && s@.cursor == s.cursor,
        s@.message == s.message@ && s@.mode == s.mode@,
        r@ == r.tasks@,
{
}

/// A session takes in a chunk as an upload does: it refuses a first one without
/// a job, and of any other writes all data, into an archive that the first one
/// starts; it remembers the job that the first named and counts all bytes.
pub proof fn law_session_takes_in(s: SessionModel, chunk: ChunkModel)
    ensures
        SessionModel::empty().job_id is None && SessionModel::empty().total_bytes == 0,
        s.refuses(chunk) <==> s.job_id is None && text::blank(chunk.job_id),
        s.write(chunk).data == chunk.data,
        s.job_id is None ==> s.write(chunk).create == Some(
            "/tmp/fluxa/"@ + chunk.job_id + ".tar.gz"@,
        ),
        s.job_id is Some ==> s.write(chunk).create is None,
        s.received(chunk).total_bytes == s.total_bytes + chunk.data.len(),
        s.job_id is None ==> s.received(chunk).job_id == Some(chunk.job_id),
        s.job_id is Some ==> s.received(chunk).job_id == s.job_id,
        upload::nameless().kind == RefusalKind::InvalidArgument,
        upload::nameless().message == "job_id is required in first chunk"@,
        upload::chunkless().kind == RefusalKind::InvalidArgument,
        upload::chunkless().message == "no chunks received"@,
{
}

} // verus!
