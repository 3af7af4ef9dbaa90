use std::collections::VecDeque;
use vstd::prelude::*;

verus! {

/// `n` copies of the character `c`.
pub open spec fn repeat(c: char, n: nat) -> Seq<char> {
    Seq::new(n, |_k: int| c)
}

/// Builds a line of `n` copies of `c`.
fn push_repeat(line: &mut Vec<char>, c: char, n: usize)
    ensures
        final(line)@ == old(line)@ + repeat(c, n as nat),
{
    let ghost start = line@;
    let mut k: usize = 0;
    while k < n
        invariant
            k <= n,
            line@ == start + repeat(c, k as nat),
        decreases n - k,
    {
        line.push(c);
        k = k + 1;
        assert(line@ =~= start + repeat(c, k as nat));
    }
    assert(line@ =~= start + repeat(c, n as nat));
}

/// Marker of one unit of progress in unbounded mode.
pub const MARK: char = '*';

/// Marker of one completed position of a bounded bar.
pub const FILLED: char = '\u{2588}';

/// Marker of one position of a bounded bar that is still to come.
pub const EMPTY: char = ' ';

/// A way of rendering the number of items handed out so far as one line of text.
pub trait ProgressDisplay: Sized {
    /// The line shown when `count` items have been handed out.
    spec fn line(&self, count: nat) -> Seq<char>;

    /// Renders the line for `count` items handed out.
    fn display(&self, count: usize) -> (r: Vec<char>)
        ensures
            r@ == self.line(count as nat),
    ;
}

/// Display mode with no known end: one marker per item handed out.
pub struct Unbounded;

/// Display mode of a source whose length was known: a bar between two delimiters.
pub struct Bounded {
    pub bound: usize,
    pub delims: (char, char),
}

impl ProgressDisplay for Unbounded {
    open spec fn line(&self, count: nat) -> Seq<char> {
        repeat(MARK, count)
    }

    fn display(&self, count: usize) -> (r: Vec<char>) {
        let mut line: Vec<char> = Vec::new();
        push_repeat(&mut line, MARK, count);
        assert(line@ =~= repeat(MARK, count as nat));
        line
    }
}

/// Positions of a bar of `bound` positions still to come after `count` items;
/// zero once `count` reaches or passes `bound`.
pub open spec fn empty_width(bound: nat, count: nat) -> nat {
    if count < bound {
        (bound - count) as nat
    } else {
        0
    }
}

impl ProgressDisplay for Bounded {
    open spec fn line(&self, count: nat) -> Seq<char> {
        seq![self.delims.0] + repeat(FILLED, count) + repeat(EMPTY, empty_width(self.bound as nat, count))
            + seq![self.delims.1]
    }

    fn display(&self, count: usize) -> (r: Vec<char>) {
        let mut line: Vec<char> = Vec::new();
        line.push(self.delims.0);
        push_repeat(&mut line, FILLED, count);
        let empty: usize = if count < self.bound {
            self.bound - count
        } else {
            0
        };
        push_repeat(&mut line, EMPTY, empty);
        line.push(self.delims.1);
        assert(line@ =~= self.line(count as nat));
        line
    }
}


/// What consuming a decorator in mode `shape`, with `count` items already handed
/// out and `items` still to come, shows and yields: one pair of a displayed line
/// and the item handed out after it, per item, in order.
pub open spec fn trace<T, B: ProgressDisplay>(shape: B, count: nat, items: Seq<T>) -> Seq<(Seq<char>, T)>
    decreases items.len(),
{
    if items.len() == 0 {
        Seq::empty()
    } else {
        seq![(shape.line(count), items[0])] + trace(shape, count + 1, items.drop_first())
    }
}

/// The `k`-th step of a trace shows the line for `count + k` and yields the
/// `k`-th item.
pub proof fn lemma_trace_index<T, B: ProgressDisplay>(shape: B, count: nat, items: Seq<T>)
    ensures
        trace(shape, count, items).len() == items.len(),
        forall|k: int|
            0 <= k < items.len() ==> #[trigger] trace(shape, count, items)[k] == (
            shape.line(count + k as nat),
            items[k],
        ),
    decreases items.len(),
{
    if items.len() > 0 {
        lemma_trace_index(shape, count + 1, items.drop_first());
        let t = trace(shape, count, items);
        assert forall|k: int| 0 <= k < items.len() implies #[trigger] t[k] == (
            shape.line(count + k as nat),
            items[k],
        ) by {
            if k > 0 {
                assert(t[k] == trace(shape, count + 1, items.drop_first())[k - 1]);
                assert(count + 1 + (k - 1) as nat == count + k as nat);
            }
        }
    }
}

/// A source of items decorated with a progress display.
///
/// The items still to come are held in order; `i` counts the items handed
/// out so far and `bound` is the display mode.
pub struct Progress<T, B> {
    iter: VecDeque<T>,
    i: usize,
    bound: B,
}

impl<T, B> Progress<T, B> {
    /// The items still to come, in the order in which they will be handed out.
    pub closed spec fn remaining(&self) -> Seq<T> {
        self.iter@
    }

    /// The number of items handed out so far.
    pub closed spec fn count(&self) -> nat {
        self.i as nat
    }

    /// The display mode.
    pub closed spec fn shape(&self) -> B {
        self.bound
    }

    /// The counter can be advanced once for every item still to come.
    pub closed spec fn wf(&self) -> bool {
        self.i + self.iter@.len() <= usize::MAX
    }
}

impl<T> Progress<T, Unbounded> {
    /// Wraps `iter`, with nothing handed out yet, in unbounded mode.
    pub fn new(iter: Vec<T>) -> (r: Self)
        ensures
            r.wf(),
            r.remaining() == iter@,
            r.count() == 0,
    {
        let mut iter = iter;
        let ghost all = iter@;
        let n: usize = iter.len();
        let mut items: VecDeque<T> = VecDeque::new();
        while iter.len() > 0
            invariant
                all == iter@ + items@,
                all.len() == n,
            decreases iter.len(),
        {
            let item = iter.pop().unwrap();
            items.push_front(item);
            assert(all =~= iter@ + items@);
        }
        assert(items@ =~= all);
        Progress { iter: items, i: 0, bound: Unbounded }
    }

    /// Turns the decorator into bounded mode: the bar has as many positions as
    /// there are items still to come, between the delimiters `[` and `]`.
    pub fn with_bound(self) -> (r: Progress<T, Bounded>)
        requires
            self.wf(),
        ensures
            r.wf(),
            r.remaining() == self.remaining(),
            r.count() == self.count(),
            r.shape() == (Bounded { bound: self.remaining().len() as usize, delims: ('[', ']') }),
    {
        let bound = Bounded { bound: self.iter.len(), delims: ('[', ']') };
        Progress { iter: self.iter, i: self.i, bound }
    }
}

impl<T> Progress<T, Bounded> {
    /// Replaces the bar's opening and closing delimiters; any two characters will do.
    pub fn with_delims(self, delims: (char, char)) -> (r: Self)
        requires
            self.wf(),
        ensures
            r.wf(),
            r.remaining() == self.remaining(),
            r.count() == self.count(),
            r.shape() == (Bounded { bound: self.shape().bound, delims }),
    {
        let mut this = self;
        this.bound.delims = delims;
        this
    }
}

impl<T, B: ProgressDisplay> Progress<T, B> {
    /// Hands out the next item together with the line that shows the progress
    /// before it: the line renders the count of items handed out before this one,
    /// and the count then grows by one. Once the source is exhausted nothing is
    /// shown and nothing changes, so a source of `n` items gives exactly `n` lines.
    pub fn next(&mut self) -> (r: Option<(Vec<char>, T)>)
        requires
            old(self).wf(),
        ensures
            final(self).wf(),
            final(self).shape() == old(self).shape(),
            old(self).remaining().len() == 0 ==> r.is_none() && *final(self) == *old(self),
            old(self).remaining().len() > 0 ==> ({
                &&& r.is_some()
                &&& r.unwrap().0@ == old(self).shape().line(old(self).count())
                &&& r.unwrap().1 == old(self).remaining()[0]
                &&& final(self).remaining() == old(self).remaining().drop_first()
                &&& final(self).count() == old(self).count() + 1
            }),
    {
        if self.iter.len() == 0 {
            return None;
        }
        let line = self.bound.display(self.i);
        self.i = self.i + 1;
        let item = self.iter.pop_front().unwrap();
        assert(self.iter@ =~= old(self).iter@.drop_first());
        Some((line, item))
    }

    /// Consumes the decorator to the end: the lines shown, one per item, and the
    /// items handed out, in order.
    pub fn run(self) -> (r: (Vec<Vec<char>>, Vec<T>))
        requires
            self.wf(),
        ensures
            r.0@.len() == trace(self.shape(), self.count(), self.remaining()).len(),
            r.1@.len() == trace(self.shape(), self.count(), self.remaining()).len(),
            forall|k: int|
                0 <= k < r.0@.len() ==> (#[trigger] r.0@[k])@ == trace(
                    self.shape(),
                    self.count(),
                    self.remaining(),
                )[k].0,
            forall|k: int|
                0 <= k < r.1@.len() ==> #[trigger] r.1@[k] == trace(
                    self.shape(),
                    self.count(),
                    self.remaining(),
                )[k].1,
            r.1@ == self.remaining(),
    {
        let ghost shape = self.shape();
        let ghost c0 = self.count();
        let ghost all = self.remaining();
        proof {
            lemma_trace_index(shape, c0, all);
        }
        let mut this = self;
        let mut lines: Vec<Vec<char>> = Vec::new();
        let mut items: Vec<T> = Vec::new();
        loop
            invariant
                this.wf(),
                this.shape() == shape,
                all == items@ + this.remaining(),
                this.count() == c0 + items@.len(),
                lines@.len() == items@.len(),
                forall|k: int|
                    0 <= k < lines@.len() ==> (#[trigger] lines@[k])@ == shape.line(c0 + k as nat),
            ensures
                all == items@,
                lines@.len() == items@.len(),
                forall|k: int|
                    0 <= k < lines@.len() ==> (#[trigger] lines@[k])@ == shape.line(c0 + k as nat),
            decreases this.remaining().len(),
        {
            let ghost before = this.remaining();
            match this.next() {
                None => {
                    assert(items@ =~= all);
                    break;
                },
                Some((line, item)) => {
                    lines.push(line);
                    items.push(item);
                    assert(all =~= items@ + this.remaining()) by {
                        assert(before =~= seq![before[0]] + before.drop_first());
                    }
                },
            }
        }
        (lines, items)
    }
}

} // verus!
