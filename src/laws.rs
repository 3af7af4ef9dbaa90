use crate::decorator::{
    empty_width, lemma_trace_index, repeat, trace, Bounded, ProgressDisplay, Unbounded, MARK,
};
use vstd::prelude::*;

verus! {

/// A freshly wrapped source of `n` items, consumed in unbounded mode, shows
/// exactly `n` lines, the `k`-th one made of `k` markers, and hands out the
/// source's items unchanged and in order.
pub proof fn law_unbounded_run<T>(items: Seq<T>)
    ensures
        trace(Unbounded, 0, items).len() == items.len(),
        forall|k: int|
            0 <= k < items.len() ==> #[trigger] trace(Unbounded, 0, items)[k] == (
            repeat(MARK, k as nat),
            items[k],
        ),
{
    lemma_trace_index(Unbounded, 0, items);
    assert forall|k: int| 0 <= k < items.len() implies #[trigger] trace(Unbounded, 0, items)[k] == (
        repeat(MARK, k as nat),
        items[k],
    ) by {
        assert(0 + k as nat == k as nat);
    }
}

/// Wrapping a source and consuming it with no configuration in between yields
/// exactly the source's items.
pub proof fn law_wrap_keeps_items<T>(items: Seq<T>)
    ensures
        trace(Unbounded, 0, items).map_values(|e: (Seq<char>, T)| e.1) == items,
{
    lemma_trace_index(Unbounded, 0, items);
    assert(trace(Unbounded, 0, items).map_values(|e: (Seq<char>, T)| e.1) =~= items);
}

/// A freshly wrapped source of `n` items, turned into bounded mode, has a bar
/// of `n` positions, and every line shown while consuming it is `n + 2`
/// characters wide.
pub proof fn law_bounded_width<T>(items: Seq<T>)
    requires
        items.len() <= usize::MAX,
    ensures
        ({
            let shape = Bounded { bound: items.len() as usize, delims: ('[', ']') };
            &&& shape.bound == items.len()
            &&& forall|k: int|
                0 <= k < items.len() ==> (#[trigger] trace(shape, 0, items)[k]).0.len() == items.len()
                    + 2
        }),
{
    let shape = Bounded { bound: items.len() as usize, delims: ('[', ']') };
    lemma_trace_index(shape, 0, items);
    assert forall|k: int| 0 <= k < items.len() implies (#[trigger] trace(
        shape,
        0,
        items,
    )[k]).0.len() == items.len() + 2 by {
        assert(0 + k as nat == k as nat);
        assert(empty_width(items.len(), k as nat) == items.len() - k);
    }
}

/// After the delimiters are replaced, every line shown starts with the new
/// opening delimiter and ends with the new closing one.
pub proof fn law_delims<T>(bound: usize, delims: (char, char), count: nat, items: Seq<T>)
    ensures
        ({
            let shape = Bounded { bound, delims };
            forall|k: int|
                0 <= k < items.len() ==> {
                    let line = (#[trigger] trace(shape, count, items)[k]).0;
                    &&& line.len() >= 2
                    &&& line[0] == delims.0
                    &&& line.last() == delims.1
                }
        }),
{
    let shape = Bounded { bound, delims };
    lemma_trace_index(shape, count, items);
}

/// An empty source shows nothing and hands out nothing, in any mode.
pub proof fn law_empty_source<T, B: ProgressDisplay>(shape: B, count: nat)
    ensures
        trace(shape, count, Seq::<T>::empty()).len() == 0,
{
}

} // verus!
