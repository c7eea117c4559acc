//! The message log as display lines, and the scroll position over them.
use vstd::prelude::*;

verus! {

/// A message cut at each newline character, as `str::split('\n')` cuts it:
/// an empty message is one empty line, a trailing newline ends in an empty line.
pub open spec fn split_newlines(s: Seq<char>) -> Seq<Seq<char>>
    decreases s.len(),
{
    if s.len() == 0 {
        seq![Seq::empty()]
    } else {
        let r = split_newlines(s.drop_last());
        if s.last() == '\n' {
            r.push(Seq::empty())
        } else {
            r.update(r.len() - 1, r.last().push(s.last()))
        }
    }
}

/// All messages cut into display lines, in order.
pub open spec fn flatten(ms: Seq<Seq<char>>) -> Seq<Seq<char>>
    decreases ms.len(),
{
    if ms.len() == 0 {
        Seq::empty()
    } else {
        flatten(ms.drop_last()) + split_newlines(ms.last())
    }
}

/// The largest scroll offset that still fills a viewport of `height` lines.
pub open spec fn max_scroll(len: int, height: int) -> int {
    if len > height { len - height } else { 0 }
}

pub proof fn lemma_split_nonempty(s: Seq<char>)
    ensures
        split_newlines(s).len() >= 1,
    decreases s.len(),
{
    if s.len() > 0 {
        lemma_split_nonempty(s.drop_last());
    }
}

/// Appends the display lines of `m` to `out`.
fn push_split(m: &Vec<char>, out: &mut Vec<Vec<char>>)
    ensures
        final(out)@.map_values(|l: Vec<char>| l@) == old(out)@.map_values(|l: Vec<char>| l@)
            + split_newlines(m@),
{
    let ghost base = old(out)@.map_values(|l: Vec<char>| l@);
    let mut cur: Vec<char> = Vec::new();
    let mut j: usize = 0;
    proof {
        assert(m@.take(0) =~= Seq::<char>::empty());
        assert(base + split_newlines(Seq::<char>::empty()) =~= base.push(cur@));
    }
    while j < m.len()
        invariant
            0 <= j <= m@.len(),
            out@.map_values(|l: Vec<char>| l@).push(cur@) == base + split_newlines(m@.take(j as int)),
        decreases m@.len() - j,
    {
        let ghost prev = out@.map_values(|l: Vec<char>| l@);
        let ghost r = split_newlines(m@.take(j as int));
        proof {
            lemma_split_nonempty(m@.take(j as int));
            assert(m@.take(j + 1).drop_last() =~= m@.take(j as int));
            assert(m@.take(j + 1).last() == m@[j as int]);
        }
        let c = m[j];
        if c == '\n' {
            let mut done: Vec<char> = Vec::new();
            std::mem::swap(&mut done, &mut cur);
            out.push(done);
            proof {
                assert(out@.map_values(|l: Vec<char>| l@) =~= prev.push(done@));
                assert(base + r.push(Seq::empty()) =~= (base + r).push(Seq::empty()));
                assert(out@.map_values(|l: Vec<char>| l@).push(cur@) =~= base + r.push(Seq::empty()));
            }
        } else {
            let ghost before = cur@;
            cur.push(c);
            proof {
                assert(prev.push(before) == base + r);
                assert((base + r).len() == prev.push(before).len());
                assert(prev.len() + 1 == base.len() + r.len());
                assert((base + r)[base.len() + r.len() - 1] == r.last());
                assert(prev.push(before)[prev.len() as int] == before);
                assert(r.last() == before);
                assert forall|k: int| 0 <= k < prev.len() implies prev[k] == (base + r.drop_last())[k] by {
                    assert(prev.push(before)[k] == (base + r)[k]);
                }
                assert(prev =~= base + r.drop_last());
                assert(base + r.update(r.len() - 1, r.last().push(c)) =~= prev.push(cur@));
            }
        }
        j = j + 1;
    }
    let ghost prev = out@.map_values(|l: Vec<char>| l@);
    out.push(cur);
    proof {
        assert(m@.take(m@.len() as int) =~= m@);
        assert(out@.map_values(|l: Vec<char>| l@) =~= prev.push(cur@));
    }
}

/// The display lines of every message in the log.
pub fn flatten_log(messages: &Vec<Vec<char>>) -> (r: Vec<Vec<char>>)
    ensures
        r@.map_values(|l: Vec<char>| l@) == flatten(messages@.map_values(|m: Vec<char>| m@)),
{
    let ghost ms = messages@.map_values(|m: Vec<char>| m@);
    let mut out: Vec<Vec<char>> = Vec::new();
    let mut i: usize = 0;
    proof {
        assert(ms.take(0) =~= Seq::<Seq<char>>::empty());
        assert(out@.map_values(|l: Vec<char>| l@) =~= Seq::<Seq<char>>::empty());
    }
    while i < messages.len()
        invariant
            ms == messages@.map_values(|m: Vec<char>| m@),
            0 <= i <= messages@.len(),
            out@.map_values(|l: Vec<char>| l@) == flatten(ms.take(i as int)),
        decreases messages@.len() - i,
    {
        push_split(&messages[i], &mut out);
        proof {
            assert(ms.take(i + 1).drop_last() =~= ms.take(i as int));
            assert(ms.take(i + 1).last() == messages@[i as int]@);
        }
        i = i + 1;
    }
    proof {
        assert(ms.take(messages@.len() as int) =~= ms);
    }
    out
}

pub struct Viewport {
    scroll_offset: usize,
    follow_tail: bool,
}

impl Viewport {
    /// Index of the first display line shown.
    pub closed spec fn offset(&self) -> int {
        self.scroll_offset as int
    }

    /// Whether the next draw jumps to the bottom of the log.
    pub closed spec fn following(&self) -> bool {
        self.follow_tail
    }

    /// At the top, about to follow the tail on the first draw.
    pub fn new() -> (r: Self)
        ensures
            r.offset() == 0,
            r.following(),
    {
        Viewport { scroll_offset: 0, follow_tail: true }
    }

    pub fn scroll_offset(&self) -> (r: usize)
        ensures
            r == self.offset(),
    {
        self.scroll_offset
    }

    pub fn follows_tail(&self) -> (r: bool)
        ensures
            r == self.following(),
    {
        self.follow_tail
    }

    /// A message arrived: the next draw shows the bottom of the log.
    pub fn follow(&mut self)
        ensures
            final(self).offset() == old(self).offset(),
            final(self).following(),
    {
        self.follow_tail = true;
    }

    /// Places the scroll offset for a log of `total_lines` display lines in a
    /// viewport of `height` lines: at the bottom when following the tail,
    /// else where it was, clamped to the bottom.
    pub fn settle(&mut self, total_lines: usize, height: usize)
        ensures
            final(self).offset() == (if old(self).following() {
                max_scroll(total_lines as int, height as int)
            } else if old(self).offset() > max_scroll(total_lines as int, height as int) {
                max_scroll(total_lines as int, height as int)
            } else {
                old(self).offset()
            }),
            0 <= final(self).offset() <= max_scroll(total_lines as int, height as int),
            !final(self).following(),
    {
        let max = if total_lines > height { total_lines - height } else { 0 };
        if self.follow_tail {
            self.scroll_offset = max;
            self.follow_tail = false;
        }
        if self.scroll_offset > max {
            self.scroll_offset = max;
        }
    }

    /// One frame: flattens the log, settles the scroll offset and returns the
    /// display lines that fit in `height` lines from that offset.
    pub fn draw(&mut self, messages: &Vec<Vec<char>>, height: usize) -> (r: Vec<Vec<char>>)
        ensures
            ({
                let flat = flatten(messages@.map_values(|m: Vec<char>| m@));
                let bound = max_scroll(flat.len() as int, height as int);
                &&& final(self).offset() == (if old(self).following() {
                    bound
                } else if old(self).offset() > bound {
                    bound
                } else {
                    old(self).offset()
                })
                &&& 0 <= final(self).offset() <= bound
                &&& !final(self).following()
                &&& r@.map_values(|l: Vec<char>| l@) == flat.subrange(
                    final(self).offset(),
                    if final(self).offset() + height < flat.len() {
                        final(self).offset() + height
                    } else {
                        flat.len() as int
                    },
                )
            }),
    {
        let mut flat = flatten_log(messages);
        let ghost fv = flat@;
        self.settle(flat.len(), height);
        let mut shown = flat.split_off(self.scroll_offset);
        if shown.len() > height {
            shown.truncate(height);
        }
        proof {
            let end = if self.offset() + height < fv.len() { self.offset() + height } else { fv.len() as int };
            assert(shown@ =~= fv.subrange(self.offset(), end));
            assert(shown@.map_values(|l: Vec<char>| l@) =~= fv.map_values(|l: Vec<char>| l@).subrange(self.offset(), end));
        }
        shown
    }
}

} // verus!
