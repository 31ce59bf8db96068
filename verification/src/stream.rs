//! The tail of a stream: what a window of fixed capacity holds of it.
use vstd::prelude::*;

verus! {

/// The last `n` items of `s`, or all of `s` where it has fewer.
pub open spec fn last_n<T>(s: Seq<T>, n: nat) -> Seq<T> {
    if s.len() <= n {
        s
    } else {
        s.subrange(s.len() - n, s.len() as int)
    }
}

/// A window after one more item: the oldest leaves where the window is
/// full, and the new item joins at the end.
pub open spec fn slide<T>(window: Seq<T>, capacity: nat, item: T) -> Seq<T> {
    if window.len() >= capacity {
        window.drop_first().push(item)
    } else {
        window.push(item)
    }
}

/// A window of the given capacity that started empty and took the whole of
/// `stream`, item by item.
pub open spec fn replay<T>(capacity: nat, stream: Seq<T>) -> Seq<T>
    decreases stream.len(),
{
    if stream.len() == 0 {
        Seq::empty()
    } else {
        slide(replay(capacity, stream.drop_last()), capacity, stream.last())
    }
}

/// A window that started empty holds, after any stream, the last
/// `capacity` items of it, or all of them while there are fewer.
pub proof fn lemma_replay_is_tail<T>(capacity: nat, stream: Seq<T>)
    requires
        capacity >= 1,
    ensures
        replay(capacity, stream) == last_n(stream, capacity),
        replay(capacity, stream).len() == if stream.len() <= capacity {
            stream.len()
        } else {
            capacity
        },
    decreases stream.len(),
{
    if stream.len() > 0 {
        let earlier = stream.drop_last();
        lemma_replay_is_tail(capacity, earlier);
        assert(replay(capacity, stream) =~= last_n(stream, capacity));
    }
}

} // verus!
