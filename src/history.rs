use vstd::prelude::*;
use crate::text::{all_white, chars_of, is_blank};

verus! {

/// The log after `line` was submitted: blank lines and a repeat of the newest
/// entry leave it as it was.
pub open spec fn pushed(log: Seq<Seq<char>>, line: Seq<char>) -> Seq<Seq<char>> {
    if all_white(line) || (log.len() > 0 && log.last() == line) {
        log
    } else {
        log.push(line)
    }
}

/// No entry equals the one right after it.
pub open spec fn no_adjacent_dups(log: Seq<Seq<char>>) -> bool {
    forall|i: int| 0 < i < log.len() ==> #[trigger] log[i] != log[i - 1]
}

/// Scroll position after a step toward older entries: one back, floored at
/// the oldest entry.
pub open spec fn prev_scroll(scroll: nat) -> nat {
    if scroll > 0 {
        (scroll - 1) as nat
    } else {
        0
    }
}

/// The entry shown after a step toward older entries.
pub open spec fn prev_result(log: Seq<Seq<char>>, scroll: nat) -> Option<Seq<char>> {
    if log.len() == 0 {
        None
    } else {
        Some(log[prev_scroll(scroll) as int])
    }
}

/// Scroll position after a step toward newer entries: one on, up to the live
/// line.
pub open spec fn next_scroll(len: nat, scroll: nat) -> nat {
    if scroll < len {
        scroll + 1
    } else {
        scroll
    }
}

/// The entry shown after a step toward newer entries; `None` at the live
/// line, whether it was reached by this step or before it.
pub open spec fn next_result(log: Seq<Seq<char>>, scroll: nat) -> Option<Seq<char>> {
    if scroll + 1 < log.len() {
        Some(log[(scroll + 1) as int])
    } else {
        None
    }
}

/// The lines submitted so far, oldest first, and a scroll position into them.
/// A scroll position equal to the number of entries means that no entry is
/// being viewed: the live line is.
#[derive(Debug)]
pub struct History {
    entries: Vec<String>,
    offset: usize,
}

/// A history that starts empty.
pub fn in_memory_history() -> (h: History)
    ensures
        h.wf(),
        h.log() == Seq::<Seq<char>>::empty(),
        h.scroll() == 0,
{
    History::new(Vec::new())
}

impl History {
    /// The entries, oldest first.
    pub closed spec fn log(&self) -> Seq<Seq<char>> {
        self.entries.deep_view()
    }

    /// The scroll position.
    pub closed spec fn scroll(&self) -> nat {
        self.offset as nat
    }

    pub open spec fn wf(&self) -> bool {
        self.scroll() <= self.log().len()
    }

    /// Whether an entry, rather than the live line, is being viewed.
    pub open spec fn browsing(&self) -> bool {
        self.scroll() < self.log().len()
    }

    /// A history holding `entries` (as loaded from storage), viewing the live
    /// line.
    pub fn new(entries: Vec<String>) -> (h: Self)
        ensures
            h.wf(),
            h.log() == entries.deep_view(),
            h.scroll() == h.log().len(),
    {
        let offset = entries.len();
        History { entries, offset }
    }

    /// Appends `entry` unless it is blank or equal to the newest entry, and
    /// returns to the live line. Returns whether the log grew, in which case
    /// the whole log is due to be stored again.
    pub fn push(&mut self, entry: String) -> (appended: bool)
        requires
            old(self).wf(),
        ensures
            final(self).wf(),
            final(self).log() == pushed(old(self).log(), entry@),
            final(self).scroll() == final(self).log().len(),
            appended == (final(self).log() != old(self).log()),
    {
        let ghost before = self.entries.deep_view();
        let cs = chars_of(entry.as_str());
        let n = self.entries.len();
        let appended = if is_blank(&cs) {
            false
        } else if n > 0 && self.entries[n - 1] == entry {
            false
        } else {
            self.entries.push(entry);
            assert(self.entries.deep_view() =~= before.push(entry@));
            assert(self.entries.deep_view().len() != before.len());
            true
        };
        self.offset = self.entries.len();
        appended
    }

    /// Steps toward older entries and returns the entry now viewed; `None`
    /// when the log is empty. At the oldest entry it stays there.
    pub fn prev_entry(&mut self) -> (r: Option<String>)
        requires
            old(self).wf(),
        ensures
            final(self).wf(),
            final(self).log() == old(self).log(),
            final(self).scroll() == (if old(self).log().len() == 0 {
                old(self).scroll()
            } else {
                prev_scroll(old(self).scroll())
            }),
            r.deep_view() == prev_result(old(self).log(), old(self).scroll()),
    {
        if self.entries.len() == 0 {
            return None;
        }
        if self.offset >= 1 {
            self.offset = self.offset - 1;
        }
        Some(self.entries[self.offset].clone())
    }

    /// Steps toward newer entries and returns the entry now viewed; `None`
    /// once the live line is reached, or when it already was.
    pub fn next_entry(&mut self) -> (r: Option<String>)
        requires
            old(self).wf(),
        ensures
            final(self).wf(),
            final(self).log() == old(self).log(),
            final(self).scroll() == next_scroll(old(self).log().len(), old(self).scroll()),
            r.deep_view() == next_result(old(self).log(), old(self).scroll()),
    {
        if self.entries.len() == 0 || self.offset == self.entries.len() {
            return None;
        }
        self.offset = self.offset + 1;
        if self.offset == self.entries.len() {
            return None;
        }
        Some(self.entries[self.offset].clone())
    }

    /// The scroll position.
    pub fn scroll_position(&self) -> (r: usize)
        ensures
            r == self.scroll(),
    {
        self.offset
    }

    /// The entries, oldest first.
    pub fn entries(&self) -> (r: &Vec<String>)
        ensures
            r.deep_view() == self.log(),
    {
        &self.entries
    }
}

/// Pushing keeps the log free of neighbouring repeats; pushing a copy of the
/// newest entry leaves the log as it was.
pub proof fn lemma_push_no_adjacent_dups(log: Seq<Seq<char>>, line: Seq<char>)
    requires
        no_adjacent_dups(log),
    ensures
        no_adjacent_dups(pushed(log, line)),
        log.len() > 0 && log.last() == line ==> pushed(log, line) == log,
{
    let p = pushed(log, line);
    assert forall|i: int| 0 < i < p.len() implies #[trigger] p[i] != p[i - 1] by {
        if i < log.len() {
            assert(p[i] == log[i] && p[i - 1] == log[i - 1]);
        }
    }
}

} // verus!
