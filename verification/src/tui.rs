//! Decisions of the interactive view: how keys and AI results change its
//! state, what the help bar offers, and how the AI pane is sized.

use vstd::prelude::*;
use vstd::string::*;
use crate::text::{chars_of, lemma_split_nonempty, split_on};

verus! {

/// A line without the carriage return that ends it, if any.
pub open spec fn strip_cr(l: Seq<char>) -> Seq<char> {
    if l.len() > 0 && l.last() == '\r' {
        l.drop_last()
    } else {
        l
    }
}

/// The lines of `s` as `str::lines` yields them: every piece ended by `\n`
/// (without a `\r` just before it), then the unterminated rest if non-empty.
pub open spec fn text_lines(s: Seq<char>) -> Seq<Seq<char>> {
    let p = split_on(s, '\n');
    let done = p.drop_last().map_values(|l: Seq<char>| strip_cr(l));
    if p.last().len() > 0 {
        done.push(p.last())
    } else {
        done
    }
}

/// Rows that `len` characters take when wrapped at `width` (an empty line takes one).
pub open spec fn rows_for(len: nat, width: nat) -> nat {
    if len == 0 {
        1
    } else {
        ((len + width - 1) / width as int) as nat
    }
}

/// Rows that a line takes when wrapped at `width` characters.
pub open spec fn rows_of(l: Seq<char>, width: nat) -> nat {
    rows_for(l.len(), width)
}

/// Rows that all lines take.
pub open spec fn total_rows(lines: Seq<Seq<char>>, width: nat) -> nat
    decreases lines.len(),
{
    if lines.len() == 0 {
        0
    } else {
        total_rows(lines.drop_last(), width) + rows_of(lines.last(), width)
    }
}

/// Estimated number of rows of `text` wrapped at `width`: the line count
/// when the width is 0, otherwise the rows of every line; at least 1.
pub open spec fn wrapped_line_count(text: Seq<char>, width: nat) -> nat {
    let lines = text_lines(text);
    let n = if width == 0 {
        lines.len()
    } else {
        total_rows(lines, width)
    };
    if n == 0 {
        1
    } else {
        n
    }
}

/// Rounding a line up to whole rows stays within usize for each line.
pub open spec fn rows_fit(text: Seq<char>, width: nat) -> bool {
    forall|k: int|
        0 <= k < text_lines(text).len() && #[trigger] text_lines(text)[k].len() > 0 ==> text_lines(
            text,
        )[k].len() + width - 1 <= usize::MAX
}

proof fn lemma_split_prefix(s: Seq<char>, i: int, j: int)
    requires
        0 <= i <= j <= s.len(),
    ensures
        split_on(s.take(i), '\n').drop_last().is_prefix_of(split_on(s.take(j), '\n').drop_last()),
    decreases j - i,
{
    if i < j {
        lemma_split_prefix(s, i, j - 1);
        let a = split_on(s.take(j - 1), '\n');
        let b = split_on(s.take(j), '\n');
        assert(s.take(j).drop_last() =~= s.take(j - 1));
        lemma_split_nonempty(s.take(j - 1), '\n');
        if s[j - 1] == '\n' {
            assert(b.drop_last() =~= a);
        } else {
            assert(b.drop_last() =~= a.drop_last());
        }
    }
}

proof fn lemma_rows_le_len(len: nat, width: nat)
    requires
        len >= 1,
        width >= 1,
    ensures
        (len + width - 1) / (width as int) <= len,
{
    assert((len + width - 1) / (width as int) <= len) by (nonlinear_arith)
        requires
            len >= 1,
            width >= 1,
    {
        assert(len + width - 1 < (len + 1) * width);
    }
}

/// Rows taken by a line of `len` characters at `width` (one per line when
/// the width is 0).
fn line_rows(len: usize, width: usize) -> (r: usize)
    requires
        len > 0 ==> len + width - 1 <= usize::MAX,
    ensures
        r == if width == 0 {
            1
        } else {
            rows_for(len as nat, width as nat)
        },
        r <= len || (len == 0 && r == 1),
{
    if width == 0 || len == 0 {
        1
    } else {
        proof {
            lemma_rows_le_len(len as nat, width as nat);
        }
        (len - 1 + width) / width
    }
}

/// Estimates wrapped line count for `text` given a terminal width.
/// Uses character count per line as a proxy for word-wrapped layout.
pub fn count_wrapped_lines(text: &str, width: usize) -> (n: usize)
    requires
        rows_fit(text@, width as nat),
    ensures
        n == wrapped_line_count(text@, width as nat),
{
    let v = chars_of(text);
    let len = v.len();
    let ghost w = width as nat;
    let ghost all = split_on(v@, '\n');
    let ghost f = |l: Seq<char>| strip_cr(l);
    let mut acc: usize = 0;
    let ghost mut done: Seq<Seq<char>> = seq![];
    let mut start: usize = 0;
    let mut i: usize = 0;
    assert(v@.take(0) =~= Seq::<char>::empty());
    assert(split_on(v@.take(0), '\n') =~= done.push(v@.subrange(0, 0)));
    proof {
        lemma_split_nonempty(v@, '\n');
        assert(v@.take(len as int) =~= v@);
    }
    while i < len
        invariant
            start <= i <= len == v.len(),
            v@ == text@,
            all == split_on(v@, '\n'),
            f == (|l: Seq<char>| strip_cr(l)),
            w == width as nat,
            rows_fit(text@, width as nat),
            split_on(v@.take(i as int), '\n') == done.push(v@.subrange(start as int, i as int)),
            done.is_prefix_of(all.drop_last()),
            acc as nat == (if width == 0 {
                done.len()
            } else {
                total_rows(done.map_values(f), w)
            }),
            acc <= start,
        decreases len - i,
    {
        let ghost prev = v@.take(i as int);
        let ghost next = v@.take(i as int + 1);
        assert(next.drop_last() =~= prev);
        assert(next.last() == v@[i as int]);
        if v[i] == '\n' {
            let ghost line = v@.subrange(start as int, i as int);
            let ghost done2 = done.push(line);
            assert(split_on(next, '\n') == split_on(prev, '\n').push(seq![]));
            proof {
                lemma_split_prefix(v@, i + 1, len as int);
                assert(v@.take(len as int) =~= v@);
                assert(split_on(next, '\n').drop_last() =~= done2);
                assert(done2.is_prefix_of(all.drop_last()));
                assert(done2 == all.drop_last().subrange(0, done2.len() as int));
                assert(done2[done.len() as int] == line);
                assert(all.drop_last().subrange(0, done2.len() as int)[done.len() as int]
                    == all.drop_last()[done.len() as int]);
                assert(all.drop_last()[done.len() as int] == line);
            }
            let mut end = i;
            if end > start && v[end - 1] == '\r' {
                end = end - 1;
            }
            let ghost stripped = v@.subrange(start as int, end as int);
            assert(strip_cr(line) =~= stripped);
            proof {
                let lines = text_lines(text@);
                assert(lines[done.len() as int] == strip_cr(line));
                if stripped.len() > 0 {
                    assert(lines[done.len() as int].len() > 0);
                }
                assert(done2.map_values(f) =~= done.map_values(f).push(strip_cr(line)));
                assert(done2.map_values(f).drop_last() =~= done.map_values(f));
            }
            let rows = line_rows(end - start, width);
            acc = acc + rows;
            proof {
                if width == 0 {
                    assert(done2.len() == done.len() + 1);
                } else {
                    assert(total_rows(done2.map_values(f), w) == total_rows(done.map_values(f), w)
                        + rows_of(strip_cr(line), w));
                    assert(rows == rows_of(strip_cr(line), w));
                }
                assert(acc as nat == (if width == 0 {
                    done2.len()
                } else {
                    total_rows(done2.map_values(f), w)
                }));
            }
            proof {
                done = done2;
            }
            start = i + 1;
            assert(v@.subrange(start as int, (i + 1) as int) =~= Seq::<char>::empty());
            assert(split_on(next, '\n') =~= done.push(v@.subrange(start as int, (i + 1) as int)));
        } else {
            let ghost rest = split_on(prev, '\n');
            proof {
                lemma_split_nonempty(prev, '\n');
            }
            assert(split_on(next, '\n') == rest.update(
                rest.len() - 1,
                rest.last().push(v@[i as int]),
            ));
            assert(rest.last().push(v@[i as int]) =~= v@.subrange(start as int, (i + 1) as int));
            assert(split_on(next, '\n') =~= done.push(v@.subrange(start as int, (i + 1) as int)));
        }
        i = i + 1;
    }
    let ghost last = v@.subrange(start as int, len as int);
    assert(all == done.push(last));
    assert(all.drop_last() =~= done);
    assert(all.last() == last);
    let total = if start < len {
        proof {
            let lines = text_lines(text@);
            assert(lines =~= done.map_values(f).push(last));
            assert(lines[done.len() as int] == last);
            assert(lines.drop_last() =~= done.map_values(f));
        }
        let rows = line_rows(len - start, width);
        acc + rows
    } else {
        proof {
            let lines = text_lines(text@);
            assert(lines =~= done.map_values(f));
        }
        acc
    };
    if total == 0 {
        1
    } else {
        total
    }
}


/// Where the AI analysis stands.
#[derive(Clone, Debug)]
pub enum AiState {
    Idle,
    Loading,
    Done(String),
    Error(String),
}

/// The view's own state (the snapshot on show is kept beside it).
#[derive(Clone, Debug)]
pub struct ViewState {
    pub ai_state: AiState,
    /// Rows scrolled in the AI pane.
    pub ai_scroll: u16,
}

/// A key the view reacts to.
#[derive(Clone, Copy, Debug, PartialEq, Eq, Structural)]
pub enum Key {
    Char(char),
    Esc,
    Up,
    Down,
    PageUp,
    PageDown,
    Other,
}

/// What the event loop has to do after a key.
#[derive(Clone, Copy, Debug, PartialEq, Eq, Structural)]
pub enum Action {
    /// Leave the loop.
    Quit,
    /// Take a new snapshot now and restart the refresh timer.
    Refresh,
    /// Send the current snapshot for analysis.
    StartAnalysis,
    /// Nothing beyond the state change.
    Nothing,
}

/// The AI pane holds a result (an answer or an error) that can be scrolled.
pub open spec fn shows_result(s: AiState) -> bool {
    s is Done || s is Error
}

/// `a - b` floored at 0.
pub open spec fn scroll_back(a: u16, b: u16) -> u16 {
    if a >= b {
        (a - b) as u16
    } else {
        0
    }
}

/// `a + b` capped at the largest offset.
pub open spec fn scroll_on(a: u16, b: u16) -> u16 {
    if a + b <= u16::MAX {
        (a + b) as u16
    } else {
        u16::MAX
    }
}

/// The view state with another scroll offset.
pub open spec fn scrolled(s: ViewState, offset: u16) -> ViewState {
    ViewState { ai_state: s.ai_state, ai_scroll: offset }
}

/// How a key changes the view and what the loop must do.  Only presses count;
/// `q` and Esc quit, `r` refreshes, `a` starts an analysis unless one is
/// running (showing the pane from the top), and the arrow and page keys scroll
/// the pane by 1 and 10 rows while it shows a result.
pub open spec fn key_step(s: ViewState, key: Key, pressed: bool) -> (ViewState, Action) {
    if !pressed {
        (s, Action::Nothing)
    } else {
        match key {
            Key::Char('q') => (s, Action::Quit),
            Key::Esc => (s, Action::Quit),
            Key::Char('r') => (s, Action::Refresh),
            Key::Char('a') => if s.ai_state is Loading {
                (s, Action::Nothing)
            } else {
                (ViewState { ai_state: AiState::Loading, ai_scroll: 0 }, Action::StartAnalysis)
            },
            Key::Up if shows_result(s.ai_state) => (
                scrolled(s, scroll_back(s.ai_scroll, 1)),
                Action::Nothing,
            ),
            Key::Down if shows_result(s.ai_state) => (
                scrolled(s, scroll_on(s.ai_scroll, 1)),
                Action::Nothing,
            ),
            Key::PageUp if shows_result(s.ai_state) => (
                scrolled(s, scroll_back(s.ai_scroll, 10)),
                Action::Nothing,
            ),
            Key::PageDown if shows_result(s.ai_state) => (
                scrolled(s, scroll_on(s.ai_scroll, 10)),
                Action::Nothing,
            ),
            _ => (s, Action::Nothing),
        }
    }
}

impl ViewState {
    /// No analysis yet, pane at the top.
    pub fn new() -> (s: Self)
        ensures
            s.ai_state is Idle,
            s.ai_scroll == 0,
    {
        ViewState { ai_state: AiState::Idle, ai_scroll: 0 }
    }

    /// Whether the AI pane shows a result.
    pub fn shows_result(&self) -> (b: bool)
        ensures
            b == shows_result(self.ai_state),
    {
        match self.ai_state {
            AiState::Done(_) | AiState::Error(_) => true,
            _ => false,
        }
    }

    /// Applies a key (see `key_step`).
    pub fn on_key(&mut self, key: Key, pressed: bool) -> (a: Action)
        ensures
            (*final(self), a) == key_step(*old(self), key, pressed),
    {
        if !pressed {
            return Action::Nothing;
        }
        let has_result = self.shows_result();
        if key == Key::Char('q') || key == Key::Esc {
            return Action::Quit;
        }
        if key == Key::Char('r') {
            return Action::Refresh;
        }
        if key == Key::Char('a') {
            if let AiState::Loading = self.ai_state {
                return Action::Nothing;
            }
            self.ai_state = AiState::Loading;
            self.ai_scroll = 0;
            return Action::StartAnalysis;
        }
        if has_result {
            if key == Key::Up {
                self.ai_scroll = self.ai_scroll.saturating_sub(1);
            } else if key == Key::Down {
                self.ai_scroll = self.ai_scroll.saturating_add(1);
            } else if key == Key::PageUp {
                self.ai_scroll = self.ai_scroll.saturating_sub(10);
            } else if key == Key::PageDown {
                self.ai_scroll = self.ai_scroll.saturating_add(10);
            }
        }
        Action::Nothing
    }

    /// Records the outcome of an analysis and shows it from the top.
    pub fn on_ai_result(&mut self, result: Result<String, String>)
        ensures
            final(self).ai_scroll == 0,
            match result {
                Ok(text) => final(self).ai_state == AiState::Done(text),
                Err(e) => final(self).ai_state == AiState::Error(e),
            },
    {
        self.ai_state = match result {
            Ok(text) => AiState::Done(text),
            Err(e) => AiState::Error(e),
        };
        self.ai_scroll = 0;
    }

    /// Height of the AI pane: 12 rows once an analysis was asked for, else collapsed.
    pub fn ai_pane_height(&self) -> (h: u16)
        ensures
            h == if self.ai_state is Idle {
                0u16
            } else {
                12u16
            },
    {
        match self.ai_state {
            AiState::Idle => 0,
            _ => 12,
        }
    }
}

/// The snapshot is due again once the interval has fully elapsed.
pub fn refresh_due(elapsed_nanos: u128, interval_secs: u64) -> (due: bool)
    ensures
        due == (elapsed_nanos >= interval_secs * 1_000_000_000),
{
    elapsed_nanos >= interval_secs as u128 * 1_000_000_000
}

/// Colour family of a pane's text.
#[derive(Clone, Copy, Debug, PartialEq, Eq, Structural)]
pub enum Tone {
    Plain,
    Waiting,
    Failure,
}

/// Title, text and tone of the AI pane for a state (none while idle).
pub open spec fn ai_pane_spec(s: AiState) -> Option<(Seq<char>, Seq<char>, Tone)> {
    match s {
        AiState::Idle => None,
        AiState::Loading => Some(
            (" AI Analysis — analyzing... "@, "Waiting on AI response..."@, Tone::Waiting),
        ),
        AiState::Done(text) => Some((" AI Analysis "@, text@, Tone::Plain)),
        AiState::Error(e) => Some((" AI Analysis — error "@, "Error: "@ + e@, Tone::Failure)),
    }
}

/// What the AI pane shows.
pub fn ai_pane(s: &AiState) -> (r: Option<(String, String, Tone)>)
    ensures
        match r {
            None => ai_pane_spec(*s) is None,
            Some((t, c, tone)) => ai_pane_spec(*s) == Some((t@, c@, tone)),
        },
{
    match s {
        AiState::Idle => None,
        AiState::Loading => Some(
            (
                " AI Analysis — analyzing... ".to_owned(),
                "Waiting on AI response...".to_owned(),
                Tone::Waiting,
            ),
        ),
        AiState::Done(text) => Some((" AI Analysis ".to_owned(), text.clone(), Tone::Plain)),
        AiState::Error(e) => {
            let mut c = "Error: ".to_owned();
            c.append(e.as_str());
            Some((" AI Analysis — error ".to_owned(), c, Tone::Failure))
        },
    }
}

/// Entries of the help bar: key and label.
pub open spec fn help_spec(s: AiState) -> Seq<(Seq<char>, Seq<char>)> {
    if shows_result(s) {
        seq![
            ("r"@, "refresh  "@),
            ("a"@, "AI  "@),
            ("↑↓"@, "scroll  "@),
            ("PgUp/Dn"@, "fast scroll  "@),
            ("q"@, "quit"@),
        ]
    } else {
        seq![("r"@, "refresh  "@), ("a"@, "AI analysis  "@), ("q"@, "quit"@)]
    }
}

fn entry(key: &str, label: &str) -> (e: (String, String))
    ensures
        e.0@ == key@,
        e.1@ == label@,
{
    (key.to_owned(), label.to_owned())
}

/// The help bar: scrolling keys are listed while a result is shown.
pub fn help_entries(s: &AiState) -> (r: Vec<(String, String)>)
    ensures
        r@.map_values(|e: (String, String)| (e.0@, e.1@)) == help_spec(*s),
{
    let mut r: Vec<(String, String)> = Vec::new();
    match s {
        AiState::Done(_) | AiState::Error(_) => {
            r.push(entry("r", "refresh  "));
            r.push(entry("a", "AI  "));
            r.push(entry("↑↓", "scroll  "));
            r.push(entry("PgUp/Dn", "fast scroll  "));
            r.push(entry("q", "quit"));
        },
        _ => {
            r.push(entry("r", "refresh  "));
            r.push(entry("a", "AI analysis  "));
            r.push(entry("q", "quit"));
        },
    }
    assert(r@.map_values(|e: (String, String)| (e.0@, e.1@)) =~= help_spec(*s));
    r
}

/// The scrollbar is drawn when the wrapped text needs more rows than the
/// pane has; one column is kept for the bar itself.
pub fn scrollbar_visible(content: &str, inner_width: u16, inner_height: u16) -> (b: bool)
    requires
        rows_fit(content@, if inner_width >= 1 {
            (inner_width - 1) as nat
        } else {
            0
        }),
    ensures
        b == (wrapped_line_count(content@, if inner_width >= 1 {
            (inner_width - 1) as nat
        } else {
            0
        }) > inner_height),
{
    let text_width = inner_width.saturating_sub(1) as usize;
    let total = count_wrapped_lines(content, text_width);
    total > inner_height as usize
}


/// Keys count only when pressed: a release or repeat report changes nothing.
pub proof fn law_only_presses_count(s: ViewState, key: Key)
    ensures
        key_step(s, key, false) == (s, Action::Nothing),
{
}

/// Quitting leaves the view as it was.
pub proof fn law_quit_keeps_view(s: ViewState)
    ensures
        key_step(s, Key::Char('q'), true) == (s, Action::Quit),
        key_step(s, Key::Esc, true) == (s, Action::Quit),
{
}

/// While an analysis runs, asking for another one changes nothing.
pub proof fn law_no_second_analysis(s: ViewState)
    requires
        s.ai_state is Loading,
    ensures
        key_step(s, Key::Char('a'), true) == (s, Action::Nothing),
{
}

/// Starting an analysis shows the pane from the top.
pub proof fn law_analysis_starts_at_top(s: ViewState)
    requires
        !(s.ai_state is Loading),
    ensures
        key_step(s, Key::Char('a'), true).0.ai_scroll == 0,
        key_step(s, Key::Char('a'), true).0.ai_state is Loading,
        key_step(s, Key::Char('a'), true).1 == Action::StartAnalysis,
{
}

/// Without a result on show, the scrolling keys change nothing.
pub proof fn law_scrolling_needs_result(s: ViewState, key: Key)
    requires
        !shows_result(s.ai_state),
        key == Key::Up || key == Key::Down || key == Key::PageUp || key == Key::PageDown,
    ensures
        key_step(s, key, true) == (s, Action::Nothing),
{
}

/// Scrolling down and back up by the same step returns to the same offset
/// when the offset was not at its limit.
pub proof fn law_scroll_round_trip(s: ViewState)
    requires
        shows_result(s.ai_state),
    ensures
        s.ai_scroll < u16::MAX ==> key_step(key_step(s, Key::Down, true).0, Key::Up, true).0 == s,
        s.ai_scroll <= u16::MAX - 10 ==> key_step(key_step(s, Key::PageDown, true).0, Key::PageUp, true).0
            == s,
{
}

/// A line takes no more rows at a wider width.
proof fn lemma_rows_for_wider(len: nat, w1: nat, w2: nat)
    requires
        0 < w1 <= w2,
    ensures
        rows_for(len, w2) <= rows_for(len, w1),
{
    if len > 0 {
        let a = len as int;
        let q1 = (a + w1 - 1) / (w1 as int);
        let q2 = (a + w2 - 1) / (w2 as int);
        assert(q1 * w1 >= a) by (nonlinear_arith)
            requires
                q1 == (a + w1 - 1) / (w1 as int),
                w1 > 0,
                a > 0,
        ;
        assert(q2 <= q1) by (nonlinear_arith)
            requires
                q2 == (a + w2 - 1) / (w2 as int),
                q1 * w1 >= a,
                0 < w1 <= w2,
                q1 >= 0,
        ;
    }
}

proof fn lemma_total_rows_wider(lines: Seq<Seq<char>>, w1: nat, w2: nat)
    requires
        0 < w1 <= w2,
    ensures
        total_rows(lines, w2) <= total_rows(lines, w1),
    decreases lines.len(),
{
    if lines.len() > 0 {
        lemma_total_rows_wider(lines.drop_last(), w1, w2);
        lemma_rows_for_wider(lines.last().len(), w1, w2);
    }
}

/// A wider terminal never needs more rows for the same text.
pub proof fn law_wider_needs_no_more_rows(text: Seq<char>, w1: nat, w2: nat)
    requires
        0 < w1 <= w2,
    ensures
        wrapped_line_count(text, w2) <= wrapped_line_count(text, w1),
{
    lemma_total_rows_wider(text_lines(text), w1, w2);
}

/// While the pane holds a result, an answer or an error alike, the arrow keys
/// move it by one row and the page keys by ten, stopping at the top and at the
/// largest offset; the analysis itself is left as it is.
pub proof fn law_scroll_keys_move_result(s: ViewState, key: Key)
    requires
        s.ai_state is Done || s.ai_state is Error,
    ensures
        key == Key::Up || key == Key::Down || key == Key::PageUp || key == Key::PageDown ==> (
        key_step(s, key, true).0.ai_state == s.ai_state && key_step(s, key, true).1
            == Action::Nothing),
        key == Key::Down ==> key_step(s, key, true).0.ai_scroll == if s.ai_scroll < u16::MAX {
            s.ai_scroll + 1
        } else {
            u16::MAX as int
        },
        key == Key::Up ==> key_step(s, key, true).0.ai_scroll == if s.ai_scroll > 0 {
            s.ai_scroll - 1
        } else {
            0
        },
        key == Key::PageDown ==> key_step(s, key, true).0.ai_scroll == if s.ai_scroll
            <= u16::MAX - 10 {
            s.ai_scroll + 10
        } else {
            u16::MAX as int
        },
        key == Key::PageUp ==> key_step(s, key, true).0.ai_scroll == if s.ai_scroll >= 10 {
            s.ai_scroll - 10
        } else {
            0
        },
{
}

/// An error on show scrolls exactly as an answer does: for any key, the same
/// offset gives the same new offset and the same action.
pub proof fn law_error_scrolls_like_answer(e: String, t: String, offset: u16, key: Key)
    ensures
        key_step(ViewState { ai_state: AiState::Error(e), ai_scroll: offset }, key, true).0.ai_scroll
            == key_step(ViewState { ai_state: AiState::Done(t), ai_scroll: offset }, key, true).0.ai_scroll,
        key_step(ViewState { ai_state: AiState::Error(e), ai_scroll: offset }, key, true).1
            == key_step(ViewState { ai_state: AiState::Done(t), ai_scroll: offset }, key, true).1,
{
}

/// An answer is shown as it came, under the plain title and tone; only an
/// error gets the error title, the `Error: ` prefix and the failure tone.
pub proof fn law_pane_shows_answer_plainly(s: AiState)
    ensures
        s matches AiState::Done(t) ==> ai_pane_spec(s) == Some(
            (" AI Analysis "@, t@, Tone::Plain),
        ),
        s matches AiState::Error(e) ==> ai_pane_spec(s) == Some(
            (" AI Analysis — error "@, "Error: "@ + e@, Tone::Failure),
        ),
        (ai_pane_spec(s) matches Some((_, _, tone)) && tone == Tone::Failure) <==> s is Error,
        ai_pane_spec(s) is None <==> s is Idle,
{
}

/// The estimate never reports fewer than one row.
pub proof fn law_at_least_one_row(text: Seq<char>, width: nat)
    ensures
        wrapped_line_count(text, width) >= 1,
{
}

} // verus!
