//! The composer's text: a non-empty sequence of lines and one global character cursor.
//! A line boundary counts as one virtual character in cursor arithmetic.
use vstd::prelude::*;

verus! {

/// Sum of the character counts of all lines.
pub open spec fn sum_lens(ls: Seq<Seq<char>>) -> nat
    decreases ls.len(),
{
    if ls.len() == 0 {
        0
    } else {
        sum_lens(ls.drop_last()) + ls.last().len()
    }
}

/// Number of cursor positions in the buffer: every character plus one
/// virtual newline per line boundary.
pub open spec fn total_of(ls: Seq<Seq<char>>) -> int {
    sum_lens(ls) + ls.len() - 1
}

/// Global offset of the first position of line `k`.
pub open spec fn line_start_of(ls: Seq<Seq<char>>, k: int) -> int
    decreases k,
{
    if k <= 0 {
        0
    } else {
        line_start_of(ls, k - 1) + ls[k - 1].len() + 1
    }
}

/// `(l, c)` names the global offset `pos`: column `c` of line `l`.
pub open spec fn is_location(ls: Seq<Seq<char>>, pos: int, l: int, c: int) -> bool {
    &&& 0 <= l < ls.len()
    &&& 0 <= c <= ls[l].len()
    &&& line_start_of(ls, l) + c == pos
}

/// The line and column of a global offset; an offset past the end maps to the
/// end of the last line.
pub open spec fn location_of(ls: Seq<Seq<char>>, pos: int) -> (int, int) {
    if pos > total_of(ls) {
        (ls.len() - 1, ls.last().len() as int)
    } else {
        choose|l: int, c: int| is_location(ls, pos, l, c)
    }
}

pub open spec fn text_wf(ls: Seq<Seq<char>>, cursor: int) -> bool {
    &&& ls.len() >= 1
    &&& 0 <= cursor <= total_of(ls)
    &&& total_of(ls) < usize::MAX
}

pub proof fn lemma_sum_lens_take(ls: Seq<Seq<char>>, k: int)
    requires
        0 <= k < ls.len(),
    ensures
        sum_lens(ls.take(k + 1)) == sum_lens(ls.take(k)) + ls[k].len(),
{
    assert(ls.take(k + 1).drop_last() =~= ls.take(k));
}

pub proof fn lemma_sum_lens_take_mono(ls: Seq<Seq<char>>, a: int, b: int)
    requires
        0 <= a <= b <= ls.len(),
    ensures
        sum_lens(ls.take(a)) <= sum_lens(ls.take(b)),
    decreases b - a,
{
    if a < b {
        lemma_sum_lens_take(ls, b - 1);
        lemma_sum_lens_take_mono(ls, a, b - 1);
    }
}

/// The start of line `k` is the characters of the lines before it plus one
/// virtual newline for each of them.
pub proof fn lemma_line_start_sum(ls: Seq<Seq<char>>, k: int)
    requires
        0 <= k <= ls.len(),
    ensures
        line_start_of(ls, k) == sum_lens(ls.take(k)) + k,
    decreases k,
{
    if k > 0 {
        lemma_line_start_sum(ls, k - 1);
        lemma_sum_lens_take(ls, k - 1);
    } else {
        assert(ls.take(0) =~= Seq::<Seq<char>>::empty());
    }
}

/// The buffer ends where its last line ends.
pub proof fn lemma_total_is_last_end(ls: Seq<Seq<char>>)
    requires
        ls.len() >= 1,
    ensures
        total_of(ls) == line_start_of(ls, ls.len() - 1) + ls.last().len(),
{
    lemma_line_start_sum(ls, ls.len() - 1);
    lemma_sum_lens_take(ls, ls.len() - 1);
    assert(ls.take(ls.len() as int) =~= ls);
}

/// Every line ends before the next one starts.
pub proof fn lemma_line_start_gap(ls: Seq<Seq<char>>, a: int, b: int)
    requires
        0 <= a < b <= ls.len(),
    ensures
        line_start_of(ls, a) + ls[a].len() + 1 <= line_start_of(ls, b),
    decreases b - a,
{
    if a + 1 < b {
        lemma_line_start_gap(ls, a, b - 1);
    }
}

/// Each line ends within the buffer.
pub proof fn lemma_line_end_bound(ls: Seq<Seq<char>>, k: int)
    requires
        0 <= k < ls.len(),
    ensures
        0 <= line_start_of(ls, k),
        line_start_of(ls, k) + ls[k].len() <= total_of(ls),
{
    lemma_line_start_sum(ls, k);
    lemma_line_start_sum(ls, k + 1);
    lemma_sum_lens_take(ls, k);
    lemma_sum_lens_take_mono(ls, k + 1, ls.len() as int);
    assert(ls.take(ls.len() as int) =~= ls);
}

/// A global offset names at most one line and column.
pub proof fn lemma_location_unique(ls: Seq<Seq<char>>, pos: int, l1: int, c1: int, l2: int, c2: int)
    requires
        is_location(ls, pos, l1, c1),
        is_location(ls, pos, l2, c2),
    ensures
        l1 == l2,
        c1 == c2,
{
    if l1 < l2 {
        lemma_line_start_gap(ls, l1, l2);
    } else if l2 < l1 {
        lemma_line_start_gap(ls, l2, l1);
    }
}

proof fn lemma_location_exists_from(ls: Seq<Seq<char>>, pos: int, k: int)
    requires
        ls.len() >= 1,
        0 <= k < ls.len(),
        line_start_of(ls, k) <= pos <= total_of(ls),
    ensures
        exists|l: int, c: int| is_location(ls, pos, l, c),
    decreases ls.len() - k,
{
    if pos <= line_start_of(ls, k) + ls[k].len() {
        assert(is_location(ls, pos, k, pos - line_start_of(ls, k)));
    } else {
        lemma_total_is_last_end(ls);
        lemma_location_exists_from(ls, pos, k + 1);
    }
}

/// Every offset within the buffer has a line and column, and `location_of` gives it.
pub proof fn lemma_location_of(ls: Seq<Seq<char>>, pos: int)
    requires
        ls.len() >= 1,
        0 <= pos <= total_of(ls),
    ensures
        is_location(ls, pos, location_of(ls, pos).0, location_of(ls, pos).1),
{
    lemma_location_exists_from(ls, pos, 0);
}

/// Once a witness is known, `location_of` is that witness.
pub proof fn lemma_location_is(ls: Seq<Seq<char>>, pos: int, l: int, c: int)
    requires
        ls.len() >= 1,
        is_location(ls, pos, l, c),
    ensures
        location_of(ls, pos) == (l, c),
{
    lemma_line_end_bound(ls, l);
    lemma_location_of(ls, pos);
    let lc = location_of(ls, pos);
    lemma_location_unique(ls, pos, l, c, lc.0, lc.1);
}

/// Sum of line lengths distributes over concatenation.
pub proof fn lemma_sum_lens_concat(a: Seq<Seq<char>>, b: Seq<Seq<char>>)
    ensures
        sum_lens(a + b) == sum_lens(a) + sum_lens(b),
    decreases b.len(),
{
    if b.len() == 0 {
        assert(a + b =~= a);
    } else {
        assert((a + b).drop_last() =~= a + b.drop_last());
        lemma_sum_lens_concat(a, b.drop_last());
    }
}

proof fn lemma_sum_lens_single(s: Seq<char>)
    ensures
        sum_lens(seq![s]) == s.len(),
{
    assert(seq![s].drop_last() =~= Seq::<Seq<char>>::empty());
    assert(sum_lens(Seq::<Seq<char>>::empty()) == 0);
    assert(seq![s].last() == s);
}

/// Replacing line `k` by `s` changes the character sum by the difference in length.
pub proof fn lemma_sum_lens_update(ls: Seq<Seq<char>>, k: int, s: Seq<char>)
    requires
        0 <= k < ls.len(),
    ensures
        sum_lens(ls.update(k, s)) == sum_lens(ls) - ls[k].len() + s.len(),
{
    let pre = ls.take(k);
    let post = ls.skip(k + 1);
    assert(ls =~= pre + seq![ls[k]] + post);
    assert(ls.update(k, s) =~= pre + seq![s] + post);
    lemma_sum_lens_concat(pre + seq![ls[k]], post);
    lemma_sum_lens_concat(pre, seq![ls[k]]);
    lemma_sum_lens_concat(pre + seq![s], post);
    lemma_sum_lens_concat(pre, seq![s]);
    lemma_sum_lens_single(ls[k]);
    lemma_sum_lens_single(s);
}

/// Replacing line `k` by `a` and putting `b` after it.
pub proof fn lemma_sum_lens_split(ls: Seq<Seq<char>>, k: int, a: Seq<char>, b: Seq<char>)
    requires
        0 <= k < ls.len(),
    ensures
        sum_lens(ls.update(k, a).insert(k + 1, b)) == sum_lens(ls) - ls[k].len() + a.len() + b.len(),
{
    let pre = ls.take(k);
    let post = ls.skip(k + 1);
    assert(ls =~= pre + seq![ls[k]] + post);
    assert(ls.update(k, a).insert(k + 1, b) =~= pre + seq![a, b] + post);
    assert(seq![a, b] =~= seq![a] + seq![b]);
    lemma_sum_lens_concat(pre + seq![ls[k]], post);
    lemma_sum_lens_concat(pre, seq![ls[k]]);
    lemma_sum_lens_concat(pre + seq![a, b], post);
    lemma_sum_lens_concat(pre, seq![a, b]);
    lemma_sum_lens_concat(seq![a], seq![b]);
    lemma_sum_lens_single(ls[k]);
    lemma_sum_lens_single(a);
    lemma_sum_lens_single(b);
}

/// Joining line `k` with the line after it keeps the character sum.
pub proof fn lemma_sum_lens_merge(ls: Seq<Seq<char>>, k: int)
    requires
        0 <= k,
        k + 1 < ls.len(),
    ensures
        sum_lens(ls.update(k, ls[k] + ls[k + 1]).remove(k + 1)) == sum_lens(ls),
{
    let x = ls.update(k, ls[k] + ls[k + 1]).remove(k + 1);
    assert(x.update(k, ls[k]).insert(k + 1, ls[k + 1]) =~= ls);
    lemma_sum_lens_split(x, k, ls[k], ls[k + 1]);
}

/// Lines before `k` that keep their lengths keep the start of line `k`.
pub proof fn lemma_line_start_prefix(a: Seq<Seq<char>>, b: Seq<Seq<char>>, k: int)
    requires
        0 <= k,
        k <= a.len(),
        k <= b.len(),
        forall|j: int| 0 <= j < k ==> a[j].len() == b[j].len(),
    ensures
        line_start_of(a, k) == line_start_of(b, k),
    decreases k,
{
    if k > 0 {
        lemma_line_start_prefix(a, b, k - 1);
    }
}

/// The buffer after typing `ch` at the cursor.
pub open spec fn insert_text(ls: Seq<Seq<char>>, pos: int, ch: char) -> Seq<Seq<char>> {
    let (l, c) = location_of(ls, pos);
    ls.update(l, ls[l].insert(c, ch))
}

/// The buffer and cursor after a backspace.
pub open spec fn backspace_state(ls: Seq<Seq<char>>, pos: int) -> (Seq<Seq<char>>, int) {
    let (l, c) = location_of(ls, pos);
    if pos == 0 {
        (ls, pos)
    } else if c > 0 {
        (ls.update(l, ls[l].remove(c - 1)), pos - 1)
    } else {
        (ls.update(l - 1, ls[l - 1] + ls[l]).remove(l), pos - 1)
    }
}

/// The buffer after deleting forward; the cursor stays.
pub open spec fn delete_text(ls: Seq<Seq<char>>, pos: int) -> Seq<Seq<char>> {
    let (l, c) = location_of(ls, pos);
    if pos >= total_of(ls) {
        ls
    } else if c < ls[l].len() {
        ls.update(l, ls[l].remove(c))
    } else {
        ls.update(l, ls[l] + ls[l + 1]).remove(l + 1)
    }
}

/// The buffer after cutting the cursor's line at the cursor.
pub open spec fn split_text(ls: Seq<Seq<char>>, pos: int) -> Seq<Seq<char>> {
    let (l, c) = location_of(ls, pos);
    ls.update(l, ls[l].take(c)).insert(l + 1, ls[l].skip(c))
}

pub open spec fn min_int(a: int, b: int) -> int {
    if a <= b { a } else { b }
}

/// The cursor after moving one line up, keeping the column where the line allows.
pub open spec fn up_target(ls: Seq<Seq<char>>, pos: int) -> int {
    let (l, c) = location_of(ls, pos);
    if l > 0 {
        line_start_of(ls, l - 1) + min_int(c, ls[l - 1].len() as int)
    } else {
        pos
    }
}

/// The cursor after moving one line down, keeping the column where the line allows.
pub open spec fn down_target(ls: Seq<Seq<char>>, pos: int) -> int {
    let (l, c) = location_of(ls, pos);
    if l + 1 < ls.len() {
        line_start_of(ls, l + 1) + min_int(c, ls[l + 1].len() as int)
    } else {
        pos
    }
}

/// Locating a cursor and turning the line and column back into a global
/// offset gives the cursor again.
pub proof fn lemma_locate_round_trip(ls: Seq<Seq<char>>, pos: int)
    requires
        text_wf(ls, pos),
    ensures
        line_start_of(ls, location_of(ls, pos).0) + location_of(ls, pos).1 == pos,
{
    lemma_location_of(ls, pos);
}

/// Typing a character and then erasing it with backspace restores the lines
/// and the cursor exactly.
pub proof fn lemma_insert_then_backspace(ls: Seq<Seq<char>>, pos: int, ch: char)
    requires
        text_wf(ls, pos),
    ensures
        backspace_state(insert_text(ls, pos, ch), pos + 1) == (ls, pos),
{
    lemma_location_of(ls, pos);
    let (l, c) = location_of(ls, pos);
    let ls1 = insert_text(ls, pos, ch);
    assert forall|j: int| 0 <= j < l implies ls1[j].len() == ls[j].len() by {}
    lemma_line_start_prefix(ls1, ls, l);
    assert(is_location(ls1, pos + 1, l, c + 1));
    lemma_location_is(ls1, pos + 1, l, c + 1);
    assert(ls[l].insert(c, ch).remove(c) =~= ls[l]);
    assert(ls1.update(l, ls1[l].remove(c)) =~= ls);
}

/// Moving up lands on the previous line at the old column clamped to that
/// line's length.
pub proof fn lemma_move_up_clamps(ls: Seq<Seq<char>>, pos: int)
    requires
        text_wf(ls, pos),
        location_of(ls, pos).0 > 0,
    ensures
        location_of(ls, up_target(ls, pos)).0 == location_of(ls, pos).0 - 1,
        location_of(ls, up_target(ls, pos)).1 == min_int(
            location_of(ls, pos).1,
            ls[location_of(ls, pos).0 - 1].len() as int,
        ),
        location_of(ls, up_target(ls, pos)).1 <= ls[location_of(ls, pos).0 - 1].len(),
{
    lemma_location_of(ls, pos);
    let (l, c) = location_of(ls, pos);
    lemma_location_is(ls, up_target(ls, pos), l - 1, min_int(c, ls[l - 1].len() as int));
}

/// Moving down lands on the next line at the old column clamped to that
/// line's length.
pub proof fn lemma_move_down_clamps(ls: Seq<Seq<char>>, pos: int)
    requires
        text_wf(ls, pos),
        location_of(ls, pos).0 + 1 < ls.len(),
    ensures
        location_of(ls, down_target(ls, pos)).0 == location_of(ls, pos).0 + 1,
        location_of(ls, down_target(ls, pos)).1 == min_int(
            location_of(ls, pos).1,
            ls[location_of(ls, pos).0 + 1].len() as int,
        ),
        location_of(ls, down_target(ls, pos)).1 <= ls[location_of(ls, pos).0 + 1].len(),
{
    lemma_location_of(ls, pos);
    let (l, c) = location_of(ls, pos);
    lemma_location_is(ls, down_target(ls, pos), l + 1, min_int(c, ls[l + 1].len() as int));
}

/// The lines joined with newline characters.
pub open spec fn join_lines(ls: Seq<Seq<char>>) -> Seq<char>
    decreases ls.len(),
{
    if ls.len() == 0 {
        Seq::empty()
    } else if ls.len() == 1 {
        ls[0]
    } else {
        join_lines(ls.drop_last()) + seq!['\n'] + ls.last()
    }
}

/// The character drawn at the cursor in the composer.
pub const CURSOR_MARK: char = '\u{2502}';

/// The composer as displayed: the cursor mark inserted at the cursor's line
/// and column, and every line indented by one space.
pub open spec fn display_of(ls: Seq<Seq<char>>, pos: int) -> Seq<Seq<char>> {
    let (l, c) = location_of(ls, pos);
    let marked = ls.update(l, ls[l].insert(c, CURSOR_MARK));
    Seq::new(marked.len(), |i: int| seq![' '] + marked[i])
}

/// The joined text has one character per cursor step.
pub proof fn lemma_join_len(ls: Seq<Seq<char>>)
    requires
        ls.len() >= 1,
    ensures
        join_lines(ls).len() == total_of(ls),
    decreases ls.len(),
{
    if ls.len() == 1 {
        lemma_sum_lens_single(ls[0]);
        assert(ls =~= seq![ls[0]]);
    } else {
        lemma_join_len(ls.drop_last());
    }
}

pub struct CursorBuffer {
    lines: Vec<Vec<char>>,
    cursor: usize,
}

impl CursorBuffer {
    /// The lines as character sequences.
    pub closed spec fn text(&self) -> Seq<Seq<char>> {
        self.lines@.map_values(|l: Vec<char>| l@)
    }

    /// The global cursor offset.
    pub closed spec fn cursor_pos(&self) -> int {
        self.cursor as int
    }

    pub open spec fn wf(&self) -> bool {
        text_wf(self.text(), self.cursor_pos())
    }

    /// An empty buffer: one empty line, cursor at 0.
    pub fn new() -> (r: Self)
        ensures
            r.wf(),
            r.text() == seq![Seq::<char>::empty()],
            r.cursor_pos() == 0,
            total_of(r.text()) == 0,
    {
        let mut lines: Vec<Vec<char>> = Vec::new();
        lines.push(Vec::new());
        let r = CursorBuffer { lines, cursor: 0 };
        assert(r.text() =~= seq![Seq::<char>::empty()]);
        assert(r.text().drop_last() =~= Seq::<Seq<char>>::empty());
        assert(sum_lens(Seq::<Seq<char>>::empty()) == 0);
        r
    }

    /// Total number of cursor positions past offset 0.
    pub fn total_chars(&self) -> (r: usize)
        requires
            self.wf(),
        ensures
            r == total_of(self.text()),
            r == sum_lens(self.text()) + self.text().len() - 1,
    {
        let ghost ls = self.text();
        let n = self.lines.len();
        let mut total: usize = 0;
        let mut i: usize = 0;
        while i < n
            invariant
                ls == self.text(),
                n == ls.len(),
                text_wf(ls, self.cursor_pos()),
                0 <= i <= n,
                total == sum_lens(ls.take(i as int)) + (if i > 0 { i - 1 } else { 0 }),
            decreases n - i,
        {
            proof {
                lemma_sum_lens_take(ls, i as int);
                lemma_sum_lens_take_mono(ls, i as int + 1, n as int);
                assert(ls.take(n as int) =~= ls);
            }
            if i > 0 {
                total = total + 1;
            }
            total = total + self.lines[i].len();
            i = i + 1;
        }
        proof {
            assert(ls.take(n as int) =~= ls);
        }
        total
    }

    /// Global offset of the first position of line `line_idx`.
    pub fn line_start(&self, line_idx: usize) -> (r: usize)
        requires
            self.wf(),
            line_idx <= self.text().len(),
        ensures
            r == line_start_of(self.text(), line_idx as int),
    {
        let ghost ls = self.text();
        proof {
            if line_idx < ls.len() {
                lemma_line_end_bound(ls, line_idx as int);
            } else {
                lemma_total_is_last_end(ls);
            }
        }
        let mut position: usize = 0;
        let mut i: usize = 0;
        while i < line_idx
            invariant
                ls == self.text(),
                text_wf(ls, self.cursor_pos()),
                line_idx <= ls.len(),
                line_start_of(ls, line_idx as int) <= total_of(ls) + 1,
                0 <= i <= line_idx,
                position == line_start_of(ls, i as int),
            decreases line_idx - i,
        {
            proof {
                lemma_line_start_gap(ls, i as int, line_idx as int);
            }
            position = position + self.lines[i].len() + 1;
            i = i + 1;
        }
        position
    }

    /// Global offset of the end of line `line_idx`.
    pub fn line_end(&self, line_idx: usize) -> (r: usize)
        requires
            self.wf(),
            line_idx < self.text().len(),
        ensures
            r == line_start_of(self.text(), line_idx as int) + self.text()[line_idx as int].len(),
    {
        proof {
            lemma_line_end_bound(self.text(), line_idx as int);
        }
        let position = self.line_start(line_idx);
        position + self.lines[line_idx].len()
    }

    /// Line and column of global offset `pos`.
    pub fn locate(&self, pos: usize) -> (r: (usize, usize))
        requires
            self.wf(),
        ensures
            r.0 as int == location_of(self.text(), pos as int).0,
            r.1 as int == location_of(self.text(), pos as int).1,
            r.0 < self.text().len(),
            r.1 <= self.text()[r.0 as int].len(),
            pos <= total_of(self.text()) ==> is_location(self.text(), pos as int, r.0 as int, r.1 as int),
    {
        let ghost ls = self.text();
        let n = self.lines.len();
        let mut rem: usize = pos;
        let mut i: usize = 0;
        while i < n
            invariant
                ls == self.text(),
                text_wf(ls, self.cursor_pos()),
                n == ls.len(),
                0 <= i < n,
                line_start_of(ls, i as int) + rem == pos,
            decreases n - i,
        {
            let len = self.lines[i].len();
            if i + 1 < n {
                if rem <= len {
                    proof {
                        lemma_location_is(ls, pos as int, i as int, rem as int);
                    }
                    return (i, rem);
                }
                rem = rem - len - 1;
            } else {
                proof {
                    lemma_total_is_last_end(ls);
                }
                if rem <= len {
                    proof {
                        lemma_location_is(ls, pos as int, i as int, rem as int);
                    }
                    return (i, rem);
                }
                return (i, len);
            }
            i = i + 1;
        }
        (n - 1, self.lines[n - 1].len())
    }
    fn replace_line(&mut self, l: usize, line: Vec<char>) -> (prev: Vec<char>)
        requires
            l < old(self).lines.len(),
        ensures
            final(self).text() == old(self).text().update(l as int, line@),
            final(self).cursor == old(self).cursor,
            final(self).lines@.len() == old(self).lines@.len(),
            prev@ == old(self).text()[l as int],
    {
        let prev = self.lines.remove(l);
        self.lines.insert(l, line);
        proof {
            assert(self.text() =~= old(self).text().update(l as int, line@));
        }
        prev
    }

    /// The lines, each as its characters.
    pub fn lines(&self) -> (r: &Vec<Vec<char>>)
        ensures
            r@.map_values(|l: Vec<char>| l@) == self.text(),
    {
        &self.lines
    }

    /// The global cursor offset.
    pub fn cursor(&self) -> (r: usize)
        ensures
            r == self.cursor_pos(),
    {
        self.cursor
    }

    /// Types `ch` at the cursor; the cursor moves past it.
    pub fn insert_char(&mut self, ch: char)
        requires
            old(self).wf(),
            total_of(old(self).text()) + 1 < usize::MAX,
        ensures
            final(self).wf(),
            final(self).text() == insert_text(old(self).text(), old(self).cursor_pos(), ch),
            final(self).cursor_pos() == old(self).cursor_pos() + 1,
            total_of(final(self).text()) == total_of(old(self).text()) + 1,
    {
        let ghost ls = self.text();
        let (l, c) = self.locate(self.cursor);
        let mut line = self.replace_line(l, Vec::new());
        line.insert(c, ch);
        self.replace_line(l, line);
        self.cursor = self.cursor + 1;
        proof {
            lemma_sum_lens_update(ls, l as int, ls[l as int].insert(c as int, ch));
            assert(self.text() =~= insert_text(ls, old(self).cursor_pos(), ch));
        }
    }

    /// Removes the character before the cursor, or joins the cursor's line onto
    /// the previous one when the cursor starts a line; nothing at offset 0.
    pub fn backspace(&mut self)
        requires
            old(self).wf(),
        ensures
            final(self).wf(),
            (final(self).text(), final(self).cursor_pos()) == backspace_state(
                old(self).text(),
                old(self).cursor_pos(),
            ),
            total_of(final(self).text()) == total_of(old(self).text()) - (if old(self).cursor_pos() > 0 {
                1int
            } else {
                0int
            }),
    {
        let ghost ls = self.text();
        if self.cursor == 0 {
            return;
        }
        let (l, c) = self.locate(self.cursor);
        if c > 0 {
            let mut line = self.replace_line(l, Vec::new());
            line.remove(c - 1);
            self.replace_line(l, line);
            self.cursor = self.cursor - 1;
            proof {
                lemma_sum_lens_update(ls, l as int, ls[l as int].remove(c - 1));
                assert(self.text() =~= ls.update(l as int, ls[l as int].remove(c - 1)));
            }
        } else {
            let mut cur = self.lines.remove(l);
            proof {
                assert(self.text() =~= ls.remove(l as int));
            }
            let mut prev = self.replace_line(l - 1, Vec::new());
            prev.append(&mut cur);
            self.replace_line(l - 1, prev);
            self.cursor = self.cursor - 1;
            proof {
                lemma_sum_lens_merge(ls, l - 1);
                assert(self.text() =~= ls.update(l - 1, ls[l - 1] + ls[l as int]).remove(l as int));
            }
        }
    }

    /// Removes the character after the cursor, or joins the next line onto the
    /// cursor's line at a line's end; nothing at the end of the buffer.
    pub fn delete_forward(&mut self)
        requires
            old(self).wf(),
        ensures
            final(self).wf(),
            final(self).text() == delete_text(old(self).text(), old(self).cursor_pos()),
            final(self).cursor_pos() == old(self).cursor_pos(),
            total_of(final(self).text()) == total_of(old(self).text()) - (if old(self).cursor_pos()
                < total_of(old(self).text()) {
                1int
            } else {
                0int
            }),
    {
        let ghost ls = self.text();
        let total = self.total_chars();
        if self.cursor >= total {
            return;
        }
        let (l, c) = self.locate(self.cursor);
        if c < self.lines[l].len() {
            let mut line = self.replace_line(l, Vec::new());
            line.remove(c);
            self.replace_line(l, line);
            proof {
                lemma_sum_lens_update(ls, l as int, ls[l as int].remove(c as int));
                assert(self.text() =~= ls.update(l as int, ls[l as int].remove(c as int)));
            }
        } else {
            proof {
                lemma_total_is_last_end(ls);
            }
            let mut next = self.lines.remove(l + 1);
            proof {
                assert(self.text() =~= ls.remove(l + 1));
            }
            let mut line = self.replace_line(l, Vec::new());
            line.append(&mut next);
            self.replace_line(l, line);
            proof {
                lemma_sum_lens_merge(ls, l as int);
                assert(self.text() =~= ls.update(l as int, ls[l as int] + ls[l + 1]).remove(l + 1));
            }
        }
    }

    /// Cuts the cursor's line at the cursor into two lines; the cursor moves
    /// onto the start of the new line.
    pub fn split_line(&mut self)
        requires
            old(self).wf(),
            total_of(old(self).text()) + 1 < usize::MAX,
        ensures
            final(self).wf(),
            final(self).text() == split_text(old(self).text(), old(self).cursor_pos()),
            final(self).cursor_pos() == old(self).cursor_pos() + 1,
            total_of(final(self).text()) == total_of(old(self).text()) + 1,
    {
        let ghost ls = self.text();
        let (l, c) = self.locate(self.cursor);
        let mut line = self.replace_line(l, Vec::new());
        let right = line.split_off(c);
        let ghost a = ls[l as int].take(c as int);
        let ghost b = ls[l as int].skip(c as int);
        assert(line@ =~= a);
        assert(right@ =~= b);
        self.replace_line(l, line);
        let ghost mid = self.text();
        assert(mid == ls.update(l as int, a));
        self.lines.insert(l + 1, right);
        self.cursor = self.cursor + 1;
        proof {
            assert(self.text() =~= mid.insert(l + 1, b));
            lemma_sum_lens_split(ls, l as int, a, b);
            assert(self.text() =~= ls.update(l as int, a).insert(l + 1, b));
        }
    }

    /// One position left, stopping at 0.
    pub fn move_left(&mut self)
        requires
            old(self).wf(),
        ensures
            final(self).wf(),
            final(self).text() == old(self).text(),
            final(self).cursor_pos() == (if old(self).cursor_pos() > 0 {
                old(self).cursor_pos() - 1
            } else {
                0
            }),
    {
        if self.cursor > 0 {
            self.cursor = self.cursor - 1;
        }
    }

    /// One position right, stopping at the end of the buffer.
    pub fn move_right(&mut self)
        requires
            old(self).wf(),
        ensures
            final(self).wf(),
            final(self).text() == old(self).text(),
            final(self).cursor_pos() == (if old(self).cursor_pos() < total_of(old(self).text()) {
                old(self).cursor_pos() + 1
            } else {
                old(self).cursor_pos()
            }),
    {
        let total = self.total_chars();
        if self.cursor < total {
            self.cursor = self.cursor + 1;
        }
    }

    /// To the same column of the previous line, clamped to its length; nothing
    /// on the first line.
    pub fn move_up(&mut self)
        requires
            old(self).wf(),
        ensures
            final(self).wf(),
            final(self).text() == old(self).text(),
            final(self).cursor_pos() == up_target(old(self).text(), old(self).cursor_pos()),
    {
        let ghost ls = self.text();
        let (l, c) = self.locate(self.cursor);
        if l > 0 {
            let len = self.lines[l - 1].len();
            let col = if c <= len { c } else { len };
            proof {
                lemma_line_end_bound(ls, l - 1);
            }
            self.cursor = self.line_start(l - 1) + col;
        }
    }

    /// To the same column of the next line, clamped to its length; nothing on
    /// the last line.
    pub fn move_down(&mut self)
        requires
            old(self).wf(),
        ensures
            final(self).wf(),
            final(self).text() == old(self).text(),
            final(self).cursor_pos() == down_target(old(self).text(), old(self).cursor_pos()),
    {
        let ghost ls = self.text();
        let (l, c) = self.locate(self.cursor);
        let n = self.lines.len();
        if l + 1 < n {
            let len = self.lines[l + 1].len();
            let col = if c <= len { c } else { len };
            proof {
                lemma_line_end_bound(ls, l + 1);
            }
            self.cursor = self.line_start(l + 1) + col;
        }
    }

    /// To the start of the cursor's line.
    pub fn move_home(&mut self)
        requires
            old(self).wf(),
        ensures
            final(self).wf(),
            final(self).text() == old(self).text(),
            final(self).cursor_pos() == line_start_of(
                old(self).text(),
                location_of(old(self).text(), old(self).cursor_pos()).0,
            ),
    {
        let (l, _c) = self.locate(self.cursor);
        proof {
            lemma_line_end_bound(self.text(), l as int);
        }
        self.cursor = self.line_start(l);
    }

    /// To the end of the cursor's line.
    pub fn move_end(&mut self)
        requires
            old(self).wf(),
        ensures
            final(self).wf(),
            final(self).text() == old(self).text(),
            final(self).cursor_pos() == line_start_of(
                old(self).text(),
                location_of(old(self).text(), old(self).cursor_pos()).0,
            ) + old(self).text()[location_of(old(self).text(), old(self).cursor_pos()).0].len(),
    {
        let (l, _c) = self.locate(self.cursor);
        proof {
            lemma_line_end_bound(self.text(), l as int);
        }
        self.cursor = self.line_end(l);
    }
    /// The whole text, lines joined by newline characters.
    pub fn joined(&self) -> (r: Vec<char>)
        requires
            self.wf(),
        ensures
            r@ == join_lines(self.text()),
            r@.len() == total_of(self.text()),
    {
        let ghost ls = self.text();
        proof {
            lemma_join_len(ls);
        }
        let n = self.lines.len();
        let mut out: Vec<char> = Vec::new();
        let mut i: usize = 0;
        while i < n
            invariant
                ls == self.text(),
                n == ls.len(),
                n >= 1,
                0 <= i <= n,
                out@ == join_lines(ls.take(i as int)),
            decreases n - i,
        {
            if i > 0 {
                out.push('\n');
            }
            let line = &self.lines[i];
            let ghost before = out@;
            let mut j: usize = 0;
            while j < line.len()
                invariant
                    line@ == ls[i as int],
                    0 <= j <= line@.len(),
                    out@ == before + line@.take(j as int),
                decreases line@.len() - j,
            {
                out.push(line[j]);
                j = j + 1;
                proof {
                    assert(line@.take(j as int) =~= line@.take(j - 1) + seq![line@[j - 1]]);
                }
            }
            proof {
                assert(line@.take(j as int) =~= line@);
                assert(ls.take(i + 1).drop_last() =~= ls.take(i as int));
                if i == 0 {
                    assert(ls.take(1) =~= seq![ls[0]]);
                    assert(before =~= Seq::<char>::empty());
                }
            }
            i = i + 1;
        }
        proof {
            assert(ls.take(n as int) =~= ls);
        }
        out
    }

    /// Makes the buffer the single line `line`, with the cursor at its end.
    pub fn set_single_line(&mut self, line: Vec<char>)
        requires
            line@.len() < usize::MAX,
        ensures
            final(self).wf(),
            final(self).text() == seq![line@],
            final(self).cursor_pos() == line@.len(),
    {
        let len = line.len();
        let mut lines: Vec<Vec<char>> = Vec::new();
        lines.push(line);
        self.lines = lines;
        self.cursor = len;
        proof {
            assert(self.text() =~= seq![line@]);
            lemma_sum_lens_single(line@);
        }
    }
    /// The lines to draw for the composer: the cursor mark at the cursor,
    /// each line indented by one space.
    pub fn display_lines(&self) -> (r: Vec<Vec<char>>)
        requires
            self.wf(),
        ensures
            r@.map_values(|l: Vec<char>| l@) == display_of(self.text(), self.cursor_pos()),
    {
        let ghost ls = self.text();
        let (l, c) = self.locate(self.cursor);
        let n = self.lines.len();
        let ghost want = display_of(ls, self.cursor_pos());
        let mut out: Vec<Vec<char>> = Vec::new();
        let mut i: usize = 0;
        while i < n
            invariant
                ls == self.text(),
                n == ls.len(),
                want == display_of(ls, self.cursor_pos()),
                l as int == location_of(ls, self.cursor_pos()).0,
                c as int == location_of(ls, self.cursor_pos()).1,
                l < n,
                c <= ls[l as int].len(),
                0 <= i <= n,
                out@.map_values(|v: Vec<char>| v@) == want.take(i as int),
            decreases n - i,
        {
            let src = &self.lines[i];
            let mut line: Vec<char> = Vec::new();
            line.push(' ');
            let mut j: usize = 0;
            while j < src.len()
                invariant
                    src@ == ls[i as int],
                    l < n,
                    c <= ls[l as int].len(),
                    0 <= j <= src@.len(),
                    line@ == seq![' '] + (if i == l && c < j {
                        src@.take(j as int).insert(c as int, CURSOR_MARK)
                    } else {
                        src@.take(j as int)
                    }),
                decreases src@.len() - j,
            {
                if i == l && j == c {
                    line.push(CURSOR_MARK);
                }
                line.push(src[j]);
                j = j + 1;
                proof {
                    if i == l && c < j {
                        assert(src@.take(j as int).insert(c as int, CURSOR_MARK) =~= src@.take(j - 1).insert(c as int, CURSOR_MARK).push(src@[j - 1]));
                    } else {
                        assert(src@.take(j as int) =~= src@.take(j - 1).push(src@[j - 1]));
                    }
                }
            }
            if i == l && j == c {
                line.push(CURSOR_MARK);
            }
            proof {
                assert(src@.take(j as int) =~= src@);
                if i == l {
                    assert(line@ =~= seq![' '] + ls[i as int].insert(c as int, CURSOR_MARK));
                } else {
                    assert(line@ =~= seq![' '] + ls[i as int]);
                }
                assert(line@ == want[i as int]);
            }
            let ghost prev = out@.map_values(|v: Vec<char>| v@);
            out.push(line);
            i = i + 1;
            proof {
                assert(out@.map_values(|v: Vec<char>| v@) =~= prev.push(line@));
                assert(want.take(i as int) =~= want.take(i - 1).push(want[i - 1]));
            }
        }
        proof {
            assert(want.take(n as int) =~= want);
        }
        out
    }
}

} // verus!
