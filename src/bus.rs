use std::collections::VecDeque;
use vstd::prelude::*;
use crate::frame::Duplicate;

verus! {

/// Model of one cursor: the items waiting for its reader, and whether it is live.
pub struct CursorView<V> {
    pub pending: Seq<V>,
    pub live: bool,
}

/// What one read of a cursor gives, in the model.
///
/// `None` is end of stream, `Some(None)` the idle marker, `Some(Some(x))` an item.
pub open spec fn read_result<V>(c: CursorView<V>) -> Option<Option<V>> {
    if !c.live {
        None
    } else if c.pending.len() == 0 {
        Some(None)
    } else {
        Some(Some(c.pending[0]))
    }
}

/// The cursor after one read.
pub open spec fn after_read<V>(c: CursorView<V>) -> CursorView<V> {
    if c.live && c.pending.len() > 0 {
        CursorView { pending: c.pending.drop_first(), live: true }
    } else {
        c
    }
}

/// The cursors after a push of `item`: appended to each live cursor's queue.
pub open spec fn after_push<V>(cursors: Seq<CursorView<V>>, item: V) -> Seq<CursorView<V>> {
    cursors.map_values(
        |c: CursorView<V>|
            if c.live {
                CursorView { pending: c.pending.push(item), live: true }
            } else {
                c
            },
    )
}

/// The cursors after a sequence of pushes, in order.
pub open spec fn after_pushes<V>(cursors: Seq<CursorView<V>>, items: Seq<V>) -> Seq<
    CursorView<V>,
>
    decreases items.len(),
{
    if items.len() == 0 {
        cursors
    } else {
        after_push(after_pushes(cursors, items.drop_last()), items.last())
    }
}

/// The cursors after a close: every one no longer live, queues kept.
pub open spec fn after_close<V>(cursors: Seq<CursorView<V>>) -> Seq<CursorView<V>> {
    cursors.map_values(|c: CursorView<V>| CursorView { pending: c.pending, live: false })
}

/// The cursors after a new one is registered: it starts empty and live.
pub open spec fn after_register<V>(cursors: Seq<CursorView<V>>) -> Seq<CursorView<V>> {
    cursors.push(CursorView { pending: Seq::empty(), live: true })
}

/// A disposed-of cursor: nothing waiting, and never live again.
pub open spec fn released<V>() -> CursorView<V> {
    CursorView { pending: Seq::empty(), live: false }
}

/// Pushes keep the number of cursors.
pub proof fn lemma_pushes_len<V>(cursors: Seq<CursorView<V>>, items: Seq<V>)
    ensures
        after_pushes(cursors, items).len() == cursors.len(),
    decreases items.len(),
{
    if items.len() > 0 {
        lemma_pushes_len(cursors, items.drop_last());
    }
}

/// Fan-out: a sequence of pushes reaches every cursor that is live when it
/// starts, each receiving all the items, in push order, after what it held.
pub proof fn lemma_fan_out<V>(cursors: Seq<CursorView<V>>, items: Seq<V>)
    ensures
        after_pushes(cursors, items).len() == cursors.len(),
        forall|k: int|
            0 <= k < cursors.len() && cursors[k].live ==> #[trigger] after_pushes(cursors, items)[k]
                == (CursorView { pending: cursors[k].pending + items, live: true }),
        forall|k: int|
            0 <= k < cursors.len() && !cursors[k].live ==> #[trigger] after_pushes(cursors, items)[k]
                == cursors[k],
    decreases items.len(),
{
    lemma_pushes_len(cursors, items);
    if items.len() > 0 {
        let prev = items.drop_last();
        lemma_fan_out(cursors, prev);
        assert forall|k: int| 0 <= k < cursors.len() && cursors[k].live implies #[trigger] after_pushes(
            cursors,
            items,
        )[k] == (CursorView { pending: cursors[k].pending + items, live: true }) by {
            assert(cursors[k].pending + items =~= (cursors[k].pending + prev).push(items.last()));
        }
    } else {
        assert forall|k: int| 0 <= k < cursors.len() && cursors[k].live implies #[trigger] after_pushes(
            cursors,
            items,
        )[k] == (CursorView { pending: cursors[k].pending + items, live: true }) by {
            assert(cursors[k].pending + items =~= cursors[k].pending);
        }
    }
}

/// No replay: a cursor registered after the pushes `before` and followed by
/// the pushes `after` holds exactly `after`, in push order, and none of `before`.
pub proof fn lemma_no_replay<V>(cursors: Seq<CursorView<V>>, before: Seq<V>, after: Seq<V>)
    ensures
        ({
            let id = cursors.len() as int;
            let s = after_pushes(after_register(after_pushes(cursors, before)), after);
            &&& s.len() == id + 1
            &&& s[id] == (CursorView { pending: after, live: true })
        }),
{
    let mid = after_register(after_pushes(cursors, before));
    lemma_pushes_len(cursors, before);
    lemma_fan_out(mid, after);
    let id = cursors.len() as int;
    assert(mid[id].pending + after =~= after);
}

/// Idle is not end of stream: a live cursor with nothing waiting reads the idle
/// marker and is left as it was, so it reads the idle marker on every read
/// until an item is pushed or the bus is closed.
pub proof fn lemma_idle_not_closed<V>(c: CursorView<V>)
    requires
        c.live,
        c.pending.len() == 0,
    ensures
        read_result(c) == Some(None::<V>),
        after_read(c) == c,
{
}

/// An idle cursor reads a pushed item next, and end of stream after a close.
pub proof fn lemma_idle_then_data_or_end<V>(cursors: Seq<CursorView<V>>, k: int, item: V)
    requires
        0 <= k < cursors.len(),
        cursors[k].live,
        cursors[k].pending.len() == 0,
    ensures
        read_result(after_push(cursors, item)[k]) == Some(Some(item)),
        read_result(after_close(cursors)[k]) is None,
{
}

/// Closing twice has the same effect as closing once.
pub proof fn lemma_close_idempotent<V>(cursors: Seq<CursorView<V>>)
    ensures
        after_close(after_close(cursors)) == after_close(cursors),
{
    assert(after_close(after_close(cursors)) =~= after_close(cursors));
}

/// After a close no cursor takes a pushed item, and every cursor reads end of stream.
pub proof fn lemma_closed_is_terminal<V>(cursors: Seq<CursorView<V>>, items: Seq<V>)
    ensures
        after_pushes(after_close(cursors), items) == after_close(cursors),
        forall|k: int|
            0 <= k < cursors.len() ==> #[trigger] read_result(
                after_pushes(after_close(cursors), items)[k],
            ) is None,
{
    let closed = after_close(cursors);
    lemma_fan_out(closed, items);
    assert(after_pushes(closed, items) =~= closed);
}

struct Cursor<T> {
    data: VecDeque<T>,
    running: bool,
}

spec fn cursor_view<T: View>(c: Cursor<T>) -> CursorView<T::V> {
    CursorView { pending: c.data@.map_values(|x: T| x@), live: c.running }
}

/// A broadcast bus: every pushed item goes to each live cursor registered at
/// the time of the push, in push order. Cursors are named by their index.
pub struct PushBus<T> {
    iters: Vec<Cursor<T>>,
}

impl<T: View> View for PushBus<T> {
    type V = Seq<CursorView<T::V>>;

    closed spec fn view(&self) -> Seq<CursorView<T::V>> {
        self.iters@.map_values(|c: Cursor<T>| cursor_view(c))
    }
}

impl<T: Duplicate> PushBus<T> {
    pub fn new() -> (r: Self)
        ensures
            r@ == Seq::<CursorView<T::V>>::empty(),
    {
        let r = PushBus { iters: Vec::new() };
        assert(r@ =~= Seq::<CursorView<T::V>>::empty());
        r
    }

    /// Number of cursors registered so far.
    pub fn cursor_count(&self) -> (r: usize)
        ensures
            r == self@.len(),
    {
        self.iters.len()
    }

    /// Registers a new cursor with an empty queue; returns its index.
    pub fn iter(&mut self) -> (id: usize)
        requires
            old(self)@.len() < usize::MAX,
        ensures
            id == old(self)@.len(),
            final(self)@ == after_register(old(self)@),
    {
        let id = self.iters.len();
        self.iters.push(Cursor { data: VecDeque::new(), running: true });
        assert(self.iters@[id as int].data@.map_values(|x: T| x@) =~= Seq::<T::V>::empty());
        assert(self@ =~= after_register(old(self)@));
        id
    }

    /// Appends a copy of `item` to the queue of every live cursor.
    pub fn push(&mut self, item: T)
        ensures
            final(self)@ == after_push(old(self)@, item@),
    {
        let n = self.iters.len();
        let mut i: usize = 0;
        while i < n
            invariant
                n == self.iters@.len(),
                n == old(self).iters@.len(),
                i <= n,
                forall|k: int|
                    0 <= k < i ==> cursor_view(#[trigger] self.iters@[k]) == after_push(
                        old(self)@,
                        item@,
                    )[k],
                forall|k: int| i <= k < n ==> #[trigger] self.iters@[k] == old(self).iters@[k],
            decreases n - i,
        {
            let mut c = Cursor { data: VecDeque::new(), running: false };
            self.iters.set_and_swap(i, &mut c);
            let ghost before = c.data@;
            if c.running {
                let copy = item.duplicate();
                c.data.push_back(copy);
                assert(c.data@.map_values(|x: T| x@) =~= before.map_values(|x: T| x@).push(
                    item@,
                ));
            }
            self.iters.set_and_swap(i, &mut c);
            i = i + 1;
        }
        assert(self@ =~= after_push(old(self)@, item@));
    }

    /// Disposes of cursor `id`: its queue is dropped and it takes no more items.
    pub fn release(&mut self, id: usize)
        requires
            id < old(self)@.len(),
        ensures
            final(self)@ == old(self)@.update(id as int, released()),
    {
        let mut c = Cursor { data: VecDeque::new(), running: false };
        assert(cursor_view(c) == released::<T::V>()) by {
            assert(c.data@.map_values(|x: T| x@) =~= Seq::<T::V>::empty());
        }
        self.iters.set_and_swap(id, &mut c);
        assert(self@ =~= old(self)@.update(id as int, released()));
    }

    /// Marks every registered cursor as no longer live.
    pub fn close(&mut self)
        ensures
            final(self)@ == after_close(old(self)@),
    {
        let n = self.iters.len();
        let mut i: usize = 0;
        while i < n
            invariant
                n == self.iters@.len(),
                n == old(self).iters@.len(),
                i <= n,
                forall|k: int|
                    0 <= k < i ==> cursor_view(#[trigger] self.iters@[k]) == after_close(
                        old(self)@,
                    )[k],
                forall|k: int| i <= k < n ==> #[trigger] self.iters@[k] == old(self).iters@[k],
            decreases n - i,
        {
            let mut c = Cursor { data: VecDeque::new(), running: false };
            self.iters.set_and_swap(i, &mut c);
            c.running = false;
            self.iters.set_and_swap(i, &mut c);
            i = i + 1;
        }
        assert(self@ =~= after_close(old(self)@));
    }

    /// One read of cursor `id`: end of stream once the cursor is closed, the
    /// idle marker while it is live and empty, else the oldest waiting item.
    pub fn next(&mut self, id: usize) -> (r: Option<Option<T>>)
        requires
            id < old(self)@.len(),
        ensures
            r matches Some(Some(x)) ==> read_result(old(self)@[id as int]) == Some(Some(x@)),
            r matches Some(None) ==> read_result(old(self)@[id as int]) == Some(None::<T::V>),
            r is None ==> read_result(old(self)@[id as int]) is None,
            final(self)@ == old(self)@.update(id as int, after_read(old(self)@[id as int])),
    {
        let mut c = Cursor { data: VecDeque::new(), running: false };
        self.iters.set_and_swap(id, &mut c);
        let r = if !c.running {
            None
        } else {
            Some(c.data.pop_front())
        };
        proof {
            let oldc = old(self).iters@[id as int];
            if oldc.running && oldc.data@.len() > 0 {
                assert(c.data@.map_values(|x: T| x@) =~= oldc.data@.map_values(|x: T| x@).drop_first());
            }
        }
        self.iters.set_and_swap(id, &mut c);
        assert(self@ =~= old(self)@.update(id as int, after_read(old(self)@[id as int])));
        r
    }
}

} // verus!
