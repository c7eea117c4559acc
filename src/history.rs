//! Cycling a single-line composer through previously submitted messages.
use vstd::prelude::*;
use crate::buffer::CursorBuffer;

verus! {

/// The index after browsing up among `n` entries: from the first entry (or
/// from before browsing starts) it wraps to the last.
pub open spec fn up_index(i: int, n: int) -> int {
    (if i == 0 { n } else { i }) - 1
}

/// The index after browsing down among `n` entries, cyclically.
pub open spec fn down_index(i: int, n: int) -> int {
    (i + 1) % n
}

/// Browsing down after browsing up returns to the entry one started from.
pub proof fn lemma_down_after_up(i: int, n: int)
    requires
        n > 0,
        0 <= i < n,
    ensures
        down_index(up_index(i, n), n) == i,
{
    if i == 0 {
        assert((n - 1 + 1) % n == 0) by (nonlinear_arith)
            requires n > 0;
    } else {
        assert((i - 1 + 1) % n == i) by (nonlinear_arith)
            requires 0 < i < n;
    }
}

pub struct HistoryNavigator {
    entries: Vec<Vec<char>>,
    index: usize,
}

impl HistoryNavigator {
    pub closed spec fn entries(&self) -> Seq<Seq<char>> {
        self.entries@.map_values(|e: Vec<char>| e@)
    }

    /// The entry being shown; `entries().len()` when not browsing.
    pub closed spec fn index(&self) -> int {
        self.index as int
    }

    pub open spec fn wf(&self) -> bool {
        &&& 0 <= self.index() <= self.entries().len()
        &&& forall|i: int| 0 <= i < self.entries().len() ==> #[trigger] self.entries()[i].len() < usize::MAX
    }

    pub fn new() -> (r: Self)
        ensures
            r.wf(),
            r.entries() == Seq::<Seq<char>>::empty(),
            r.index() == 0,
    {
        let r = HistoryNavigator { entries: Vec::new(), index: 0 };
        assert(r.entries() =~= Seq::<Seq<char>>::empty());
        r
    }

    pub fn current_index(&self) -> (r: usize)
        ensures
            r == self.index(),
    {
        self.index
    }

    /// The recorded messages, oldest first.
    pub fn messages(&self) -> (r: &Vec<Vec<char>>)
        ensures
            r@.map_values(|e: Vec<char>| e@) == self.entries(),
    {
        &self.entries
    }

    pub fn len(&self) -> (r: usize)
        ensures
            r == self.entries().len(),
    {
        self.entries.len()
    }

    /// Appends a submitted message and stops browsing.
    pub fn record(&mut self, message: Vec<char>)
        requires
            old(self).wf(),
            message@.len() < usize::MAX,
        ensures
            final(self).wf(),
            final(self).entries() == old(self).entries().push(message@),
            final(self).index() == final(self).entries().len(),
    {
        self.entries.push(message);
        self.index = self.entries.len();
        proof {
            assert(self.entries() =~= old(self).entries().push(message@));
        }
    }

    fn show_current(&self, buf: &mut CursorBuffer)
        requires
            self.wf(),
            self.index() < self.entries().len(),
        ensures
            final(buf).wf(),
            final(buf).text() == seq![self.entries()[self.index()]],
            final(buf).cursor_pos() == self.entries()[self.index()].len(),
    {
        let entry = &self.entries[self.index];
        let mut line: Vec<char> = Vec::new();
        let mut j: usize = 0;
        while j < entry.len()
            invariant
                0 <= j <= entry@.len(),
                line@ == entry@.take(j as int),
            decreases entry@.len() - j,
        {
            line.push(entry[j]);
            j = j + 1;
            proof {
                assert(line@ =~= entry@.take(j as int));
            }
        }
        proof {
            assert(line@ =~= entry@);
            assert(self.entries()[self.index()] == entry@);
        }
        buf.set_single_line(line);
    }

    /// Shows the previous entry in a single-line composer; nothing when the
    /// composer spans several lines or the history is empty.
    pub fn browse_up(&mut self, buf: &mut CursorBuffer)
        requires
            old(self).wf(),
            old(buf).wf(),
        ensures
            final(self).wf(),
            final(buf).wf(),
            final(self).entries() == old(self).entries(),
            if old(buf).text().len() == 1 && old(self).entries().len() > 0 {
                &&& final(self).index() == up_index(old(self).index(), old(self).entries().len() as int)
                &&& final(buf).text() == seq![final(self).entries()[final(self).index()]]
                &&& final(buf).cursor_pos() == final(self).entries()[final(self).index()].len()
            } else {
                &&& final(self).index() == old(self).index()
                &&& *final(buf) == *old(buf)
            },
    {
        let n = self.entries.len();
        if buf.lines().len() == 1 && n > 0 {
            if self.index == 0 {
                self.index = n - 1;
            } else {
                self.index = self.index - 1;
            }
            self.show_current(buf);
        }
    }

    /// Shows the next entry, cyclically, in a single-line composer; nothing
    /// when the composer spans several lines or the history is empty.
    pub fn browse_down(&mut self, buf: &mut CursorBuffer)
        requires
            old(self).wf(),
            old(buf).wf(),
        ensures
            final(self).wf(),
            final(buf).wf(),
            final(self).entries() == old(self).entries(),
            if old(buf).text().len() == 1 && old(self).entries().len() > 0 {
                &&& final(self).index() == down_index(old(self).index(), old(self).entries().len() as int)
                &&& final(buf).text() == seq![final(self).entries()[final(self).index()]]
                &&& final(buf).cursor_pos() == final(self).entries()[final(self).index()].len()
            } else {
                &&& final(self).index() == old(self).index()
                &&& *final(buf) == *old(buf)
            },
    {
        let n = self.entries.len();
        if buf.lines().len() == 1 && n > 0 {
            let i = self.index;
            if i < n - 1 {
                self.index = i + 1;
                assert((i as int + 1) % (n as int) == i as int + 1) by (nonlinear_arith)
                    requires 0 <= i as int + 1 < n;
            } else if self.index == n - 1 {
                self.index = 0;
                assert((n as int) % (n as int) == 0) by (nonlinear_arith)
                    requires n > 0;
            } else {
                self.index = 1 % n;
                assert((n as int + 1) % (n as int) == 1int % (n as int)) by (nonlinear_arith)
                    requires n > 0;
            }
            self.show_current(buf);
        }
    }
}

} // verus!
