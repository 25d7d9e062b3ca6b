use vstd::prelude::*;
use crate::history::{
    in_memory_history, lemma_push_no_adjacent_dups, next_result, no_adjacent_dups, prev_result,
    prev_scroll, pushed, History,
};
use crate::input::{classified, classify, Line, LineView};
use crate::options::{Options, OptionsView, PromptOptions};
use crate::text::{all_white, chars_of, lemma_trimmed_empty_iff_all_white, string_of, trim, trimmed};

verus! {

/// A key event, as far as the editor tells keys apart.
#[derive(Debug, Clone, Copy, PartialEq, Eq, Structural)]
pub enum Key {
    /// A printable character.
    Char(char),
    Backspace,
    Left,
    Right,
    /// Jump to the start of the line.
    Home,
    /// Jump to the end of the line.
    End,
    /// Recall an older history entry.
    Up,
    /// Recall a newer history entry, or return to the line being written.
    Down,
    Enter,
    /// The interrupt key: ends the session.
    Interrupt,
    /// Any other key: ignored.
    Other,
}

/// What the host does after a key was handled.
#[derive(Debug)]
pub enum Step {
    /// Nothing changed.
    Ignored,
    /// The line or the cursor changed: draw the line again.
    Redraw,
    /// A blank line: show a fresh prompt.
    Blank,
    /// The session ended: return `Input::Exit`.
    Exit,
    /// A line was submitted. `appended` says that the history grew and is due
    /// to be stored again.
    Submitted { appended: bool, line: Line },
}

/// A `Step` as plain values.
pub ghost enum StepView {
    Ignored,
    Redraw,
    Blank,
    Exit,
    Submitted { appended: bool, line: LineView },
}

impl View for Step {
    type V = StepView;

    open spec fn view(&self) -> StepView {
        match self {
            Step::Ignored => StepView::Ignored,
            Step::Redraw => StepView::Redraw,
            Step::Blank => StepView::Blank,
            Step::Exit => StepView::Exit,
            Step::Submitted { appended, line } => StepView::Submitted {
                appended: *appended,
                line: line@,
            },
        }
    }
}

/// The state of a session: its configuration, whether it has ended, the line
/// being edited with its cursor, the history with its scroll position, and
/// the line that was being written when history browsing began.
pub ghost struct SessionView {
    pub options: OptionsView,
    pub terminated: bool,
    pub buffer: Seq<char>,
    pub offset: nat,
    pub log: Seq<Seq<char>>,
    pub scroll: nat,
    pub draft: Option<Seq<char>>,
}

/// The cursor stands within the line, and the scroll position within the
/// history or at the live line.
pub open spec fn session_wf(s: SessionView) -> bool {
    s.offset <= s.buffer.len() && s.scroll <= s.log.len()
}

/// The line shown when stepping down from history browsing.
pub open spec fn recalled_down(s: SessionView) -> Seq<char> {
    match next_result(s.log, s.scroll) {
        Some(e) => e,
        None => match s.draft {
            Some(d) => d,
            None => Seq::empty(),
        },
    }
}

/// The effect of one key: the next state, and what the host is to do.
pub open spec fn step(s: SessionView, k: Key) -> (SessionView, StepView) {
    if s.terminated {
        (s, StepView::Ignored)
    } else {
        match k {
            Key::Interrupt => (SessionView { terminated: true, ..s }, StepView::Exit),
            Key::Home => (SessionView { offset: 0, ..s }, StepView::Redraw),
            Key::End => (SessionView { offset: s.buffer.len(), ..s }, StepView::Redraw),
            Key::Left => if s.offset > 0 {
                (SessionView { offset: (s.offset - 1) as nat, ..s }, StepView::Redraw)
            } else {
                (s, StepView::Ignored)
            },
            Key::Right => if s.offset < s.buffer.len() {
                (SessionView { offset: s.offset + 1, ..s }, StepView::Redraw)
            } else {
                (s, StepView::Ignored)
            },
            Key::Backspace => if s.offset > 0 {
                (
                    SessionView {
                        buffer: s.buffer.remove(s.offset - 1),
                        offset: (s.offset - 1) as nat,
                        ..s
                    },
                    StepView::Redraw,
                )
            } else {
                (s, StepView::Ignored)
            },
            Key::Char(c) => (
                SessionView { buffer: s.buffer.insert(s.offset as int, c), offset: s.offset + 1, ..s },
                StepView::Redraw,
            ),
            Key::Up => match prev_result(s.log, s.scroll) {
                None => (s, StepView::Ignored),
                Some(e) => (
                    SessionView {
                        buffer: e,
                        offset: e.len(),
                        scroll: prev_scroll(s.scroll),
                        draft: if s.scroll == s.log.len() {
                            Some(s.buffer)
                        } else {
                            s.draft
                        },
                        ..s
                    },
                    StepView::Redraw,
                ),
            },
            Key::Down => if s.scroll < s.log.len() {
                let e = recalled_down(s);
                (
                    SessionView {
                        buffer: e,
                        offset: e.len(),
                        scroll: s.scroll + 1,
                        draft: if s.scroll + 1 == s.log.len() {
                            None
                        } else {
                            s.draft
                        },
                        ..s
                    },
                    StepView::Redraw,
                )
            } else {
                (s, StepView::Ignored)
            },
            Key::Enter => {
                let line = trimmed(s.buffer);
                if line.len() == 0 {
                    (SessionView { buffer: Seq::empty(), offset: 0, ..s }, StepView::Blank)
                } else {
                    let log = pushed(s.log, line);
                    (
                        SessionView {
                            buffer: Seq::empty(),
                            offset: 0,
                            log: log,
                            scroll: log.len(),
                            draft: None,
                            ..s
                        },
                        StepView::Submitted {
                            appended: log != s.log,
                            line: classified(s.options, line),
                        },
                    )
                }
            },
            Key::Other => (s, StepView::Ignored),
        }
    }
}

/// The state after the keys `keys`, in order.
pub open spec fn run(s: SessionView, keys: Seq<Key>) -> SessionView
    decreases keys.len(),
{
    if keys.len() == 0 {
        s
    } else {
        run(step(s, keys[0]).0, keys.drop_first())
    }
}

/// What the host is told for each of the keys `keys`, in order.
pub open spec fn outcomes(s: SessionView, keys: Seq<Key>) -> Seq<StepView>
    decreases keys.len(),
{
    if keys.len() == 0 {
        Seq::empty()
    } else {
        seq![step(s, keys[0]).1] + outcomes(step(s, keys[0]).0, keys.drop_first())
    }
}

/// One key keeps the cursor within the line and the scroll position within
/// the history.
pub proof fn lemma_step_wf(s: SessionView, k: Key)
    requires
        session_wf(s),
    ensures
        session_wf(step(s, k).0),
{
}

/// Whatever keys arrive, the cursor stays within the line: `0 <= offset <=
/// len(buffer)`, counted in characters.
pub proof fn lemma_offset_in_bounds(s: SessionView, keys: Seq<Key>)
    requires
        session_wf(s),
    ensures
        session_wf(run(s, keys)),
        run(s, keys).offset <= run(s, keys).buffer.len(),
    decreases keys.len(),
{
    if keys.len() > 0 {
        lemma_step_wf(s, keys[0]);
        lemma_offset_in_bounds(step(s, keys[0]).0, keys.drop_first());
    }
}

/// Whatever keys arrive, a history without neighbouring repeats keeps none.
pub proof fn lemma_history_no_adjacent_dups(s: SessionView, keys: Seq<Key>)
    requires
        no_adjacent_dups(s.log),
    ensures
        no_adjacent_dups(run(s, keys).log),
    decreases keys.len(),
{
    if keys.len() > 0 {
        lemma_push_no_adjacent_dups(s.log, trimmed(s.buffer));
        lemma_history_no_adjacent_dups(step(s, keys[0]).0, keys.drop_first());
    }
}

proof fn lemma_terminated_absorbs(s: SessionView, keys: Seq<Key>)
    requires
        s.terminated,
    ensures
        run(s, keys) == s,
        forall|i: int| 0 <= i < keys.len() ==> #[trigger] outcomes(s, keys)[i] == StepView::Ignored,
        outcomes(s, keys).len() == keys.len(),
    decreases keys.len(),
{
    if keys.len() > 0 {
        lemma_terminated_absorbs(s, keys.drop_first());
        let rest = outcomes(s, keys.drop_first());
        assert forall|i: int| 0 <= i < keys.len() implies #[trigger] outcomes(s, keys)[i]
            == StepView::Ignored by {
            if i > 0 {
                assert(outcomes(s, keys)[i] == rest[i - 1]);
            }
        }
    }
}

/// The interrupt key yields `Exit` once; the session is then over, and no
/// later key changes it or yields anything.
pub proof fn lemma_interrupt_ends_session(s: SessionView, keys: Seq<Key>)
    requires
        !s.terminated,
    ensures
        step(s, Key::Interrupt).1 == StepView::Exit,
        step(s, Key::Interrupt).0.terminated,
        run(step(s, Key::Interrupt).0, keys) == step(s, Key::Interrupt).0,
        forall|i: int|
            0 <= i < keys.len() ==> #[trigger] outcomes(step(s, Key::Interrupt).0, keys)[i]
                == StepView::Ignored,
{
    lemma_terminated_absorbs(step(s, Key::Interrupt).0, keys);
}

/// A blank or whitespace-only line completes nothing and leaves the history
/// as it was.
pub proof fn lemma_blank_line_completes_nothing(s: SessionView)
    requires
        !s.terminated,
        all_white(s.buffer),
    ensures
        step(s, Key::Enter).1 == StepView::Blank,
        step(s, Key::Enter).0.log == s.log,
        step(s, Key::Enter).0.scroll == s.scroll,
{
    lemma_trimmed_empty_iff_all_white(s.buffer);
}

/// Recalling the newest entry from the live line and stepping back down
/// falls through to the live line and restores the line being written.
pub proof fn lemma_fall_through_restores_draft(s: SessionView)
    requires
        session_wf(s),
        !s.terminated,
        s.scroll == s.log.len(),
        s.log.len() > 0,
    ensures
        ({
            let up = step(s, Key::Up).0;
            let down = step(up, Key::Down).0;
            &&& up.buffer == s.log.last()
            &&& next_result(up.log, up.scroll) is None
            &&& down.buffer == s.buffer
            &&& down.offset == s.buffer.len()
            &&& down.scroll == s.log.len()
            &&& down.draft is None
        }),
{
}

/// An interactive session: configuration, edit line, history and whether the
/// session has ended.
pub struct Inputs {
    options: Options,
    terminated: bool,
    buffer: Vec<char>,
    offset: usize,
    history: History,
    draft: Option<Vec<char>>,
}

/// A session whose history starts empty and is kept in memory only.
pub fn in_memory_inputs(options: Options) -> (r: Inputs)
    ensures
        r.wf(),
        r@ == (SessionView {
            options: options@,
            terminated: false,
            buffer: Seq::empty(),
            offset: 0,
            log: Seq::empty(),
            scroll: 0,
            draft: None,
        }),
{
    Inputs::new(options, in_memory_history())
}

impl View for Inputs {
    type V = SessionView;

    closed spec fn view(&self) -> SessionView {
        SessionView {
            options: self.options@,
            terminated: self.terminated,
            buffer: self.buffer@,
            offset: self.offset as nat,
            log: self.history.log(),
            scroll: self.history.scroll(),
            draft: match self.draft {
                Some(d) => Some(d@),
                None => None,
            },
        }
    }
}

impl Inputs {
    pub open spec fn wf(&self) -> bool {
        session_wf(self@)
    }

    /// A fresh session over `history` (as loaded from storage).
    pub fn new(options: Options, history: History) -> (r: Inputs)
        requires
            history.wf(),
        ensures
            r.wf(),
            r@ == (SessionView {
                options: options@,
                terminated: false,
                buffer: Seq::empty(),
                offset: 0,
                log: history.log(),
                scroll: history.scroll(),
                draft: None,
            }),
    {
        Inputs {
            options,
            terminated: false,
            buffer: Vec::new(),
            offset: 0,
            history,
            draft: None,
        }
    }

    /// Handles one key event.
    pub fn handle_key(&mut self, key: Key) -> (r: Step)
        requires
            old(self).wf(),
        ensures
            final(self).wf(),
            (final(self)@, r@) == step(old(self)@, key),
    {
        if self.terminated {
            return Step::Ignored;
        }
        match key {
            Key::Interrupt => {
                self.terminated = true;
                Step::Exit
            },
            Key::Home => {
                self.offset = 0;
                Step::Redraw
            },
            Key::End => {
                self.offset = self.buffer.len();
                Step::Redraw
            },
            Key::Left => {
                if self.offset > 0 {
                    self.offset = self.offset - 1;
                    Step::Redraw
                } else {
                    Step::Ignored
                }
            },
            Key::Right => {
                if self.offset < self.buffer.len() {
                    self.offset = self.offset + 1;
                    Step::Redraw
                } else {
                    Step::Ignored
                }
            },
            Key::Backspace => {
                if self.offset > 0 {
                    self.offset = self.offset - 1;
                    self.buffer.remove(self.offset);
                    Step::Redraw
                } else {
                    Step::Ignored
                }
            },
            Key::Char(c) => {
                self.buffer.insert(self.offset, c);
                let len = self.buffer.len();
                assert(self.offset < len);
                self.offset = self.offset + 1;
                Step::Redraw
            },
            Key::Up => {
                let at_live = self.history.entries().len() == self.history_scroll();
                match self.history.prev_entry() {
                    None => Step::Ignored,
                    Some(e) => {
                        let mut recalled = chars_of(e.as_str());
                        if at_live {
                            std::mem::swap(&mut self.buffer, &mut recalled);
                            self.draft = Some(recalled);
                        } else {
                            self.buffer = recalled;
                        }
                        self.offset = self.buffer.len();
                        Step::Redraw
                    },
                }
            },
            Key::Down => {
                if self.history_scroll() < self.history.entries().len() {
                    let line = match self.history.next_entry() {
                        Some(e) => chars_of(e.as_str()),
                        None => match self.draft.take() {
                            Some(d) => d,
                            None => Vec::new(),
                        },
                    };
                    self.buffer = line;
                    self.offset = self.buffer.len();
                    Step::Redraw
                } else {
                    Step::Ignored
                }
            },
            Key::Enter => {
                let line = trim(&self.buffer);
                self.buffer = Vec::new();
                self.offset = 0;
                if line.len() == 0 {
                    return Step::Blank;
                }
                let appended = self.history.push(string_of(&line));
                self.draft = None;
                Step::Submitted { appended, line: classify(&self.options, &line) }
            },
            Key::Other => Step::Ignored,
        }
    }

    /// Whether the interrupt key has ended the session; then no further input
    /// is to be read.
    pub fn is_terminated(&self) -> (r: bool)
        ensures
            r == self@.terminated,
    {
        self.terminated
    }

    /// The line being edited.
    pub fn line(&self) -> (r: String)
        ensures
            r@ == self@.buffer,
    {
        string_of(&self.buffer)
    }

    /// The cursor, as a character index into the line.
    pub fn cursor(&self) -> (r: usize)
        ensures
            r == self@.offset,
    {
        self.offset
    }

    /// The session's configuration.
    pub fn options(&self) -> (r: &Options)
        ensures
            r@ == self@.options,
    {
        &self.options
    }

    /// The history.
    pub fn history(&self) -> (r: &History)
        ensures
            r.log() == self@.log,
            r.scroll() == self@.scroll,
    {
        &self.history
    }

    fn history_scroll(&self) -> (r: usize)
        ensures
            r == self.history.scroll(),
    {
        self.history.scroll_position()
    }
}

} // verus!
