use vstd::prelude::*;

use core::time::Duration;

verus! {

/// A module's declarative request for timer-driven messages.
pub enum Subscription<M: Send + 'static> {
    Empty,
    Batch(Vec<Subscription<M>>),
    Interval { every: Duration, message: M },
    Timeout { after: Duration, message: M },
}

/// Whether `s` is a timer request rather than a combinator.
pub open spec fn is_leaf<M: Send + 'static>(s: Subscription<M>) -> bool {
    s is Interval || s is Timeout
}

/// The timer requests of a subscription tree, depth first, in order.
pub open spec fn leaves<M: Send + 'static>(s: Subscription<M>) -> Seq<Subscription<M>>
    decreases s,
{
    match s {
        Subscription::Empty => Seq::empty(),
        Subscription::Batch(v) => leaves_of_seq(v@),
        _ => seq![s],
    }
}

/// The timer requests of a sequence of trees, each tree's in turn.
pub open spec fn leaves_of_seq<M: Send + 'static>(v: Seq<Subscription<M>>) -> Seq<Subscription<M>>
    decreases v,
{
    if v.len() == 0 {
        Seq::empty()
    } else {
        leaves_of_seq(v.drop_last()) + leaves(v.last())
    }
}

/// Appends the timer requests of `s` to `out`, depth first.
pub fn flatten_into<M: Send + 'static>(s: Subscription<M>, out: &mut Vec<Subscription<M>>)
    ensures
        final(out)@ == old(out)@ + leaves(s),
    decreases s,
{
    let ghost whole = s;
    match s {
        Subscription::Empty => {
            assert(final(out)@ =~= old(out)@ + leaves(whole));
        },
        Subscription::Batch(mut v) => {
            let ghost items = v@;
            let count = v.len();
            let mut k: usize = 0;
            while k < count
                invariant
                    s == whole,
                    whole == Subscription::Batch(whole->Batch_0),
                    whole->Batch_0@ == items,
                    count == items.len(),
                    k <= count,
                    v@ == items.subrange(k as int, items.len() as int),
                    out@ == old(out)@ + leaves_of_seq(items.subrange(0, k as int)),
                decreases count - k,
            {
                let child = v.remove(0);
                proof {
                    assert(items.subrange(0, k + 1).drop_last() =~= items.subrange(0, k as int));
                    assert(decreases_to!(whole->Batch_0 => items));
                    assert(decreases_to!(s => child));
                }
                flatten_into(child, out);
                proof {
                    assert(out@ =~= old(out)@ + leaves_of_seq(items.subrange(0, k + 1)));
                }
                k = k + 1;
            }
            assert(items.subrange(0, items.len() as int) =~= items);
        },
        leaf => {
            out.push(leaf);
            assert(out@ =~= old(out)@ + leaves(whole));
        },
    }
}

/// The timer requests of `s`, depth first; `Empty` and `Batch` nodes are dropped.
pub fn flatten<M: Send + 'static>(s: Subscription<M>) -> (r: Vec<Subscription<M>>)
    ensures
        r@ == leaves(s),
        forall|i: int| 0 <= i < r@.len() ==> is_leaf(#[trigger] r@[i]),
{
    let mut out: Vec<Subscription<M>> = Vec::new();
    flatten_into(s, &mut out);
    assert(out@ =~= leaves(s));
    proof { lemma_leaves_are_leaves(s); }
    out
}

proof fn lemma_leaves_are_leaves<M: Send + 'static>(s: Subscription<M>)
    ensures
        forall|i: int| 0 <= i < leaves(s).len() ==> is_leaf(#[trigger] leaves(s)[i]),
    decreases s,
{
    match s {
        Subscription::Batch(v) => {
            lemma_seq_leaves_are_leaves(v@);
            assert(leaves(s) == leaves_of_seq(v@));
        },
        _ => {},
    }
}

proof fn lemma_seq_leaves_are_leaves<M: Send + 'static>(v: Seq<Subscription<M>>)
    ensures
        forall|i: int| 0 <= i < leaves_of_seq(v).len() ==> is_leaf(#[trigger] leaves_of_seq(v)[i]),
    decreases v,
{
    if v.len() > 0 {
        lemma_seq_leaves_are_leaves(v.drop_last());
        lemma_leaves_are_leaves(v.last());
        let a = leaves_of_seq(v.drop_last());
        let b = leaves(v.last());
        assert forall|i: int| 0 <= i < (a + b).len() implies is_leaf(#[trigger] (a + b)[i]) by {
            if i < a.len() {
                assert((a + b)[i] == a[i]);
            } else {
                assert((a + b)[i] == b[i - a.len()]);
            }
        }
    }
}

} // verus!
