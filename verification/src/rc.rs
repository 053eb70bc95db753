//! Shared ownership of one value by counted handles, and the protocol by
//! which the count decides when the value is released.
use core::marker::PhantomData;
use vstd::prelude::*;
use crate::cell::Cell;

verus! {

/// How a value is shared, as a mathematical value: by the given number of
/// handles, or not at all once it is released.
pub enum Shares {
    Live(nat),
    Freed,
}

impl Shares {
    /// A live value has at least one owner.
    pub open spec fn wf(self) -> bool {
        self matches Shares::Live(count) ==> count >= 1
    }

    /// The number of handles that own the value.
    pub open spec fn handles(self) -> nat {
        match self {
            Shares::Live(count) => count,
            Shares::Freed => 0,
        }
    }

    /// The state after one of the handles is duplicated.
    pub open spec fn clone_handle(self) -> Shares {
        match self {
            Shares::Live(count) => Shares::Live(count + 1),
            Shares::Freed => Shares::Freed,
        }
    }

    /// The state after one of the handles is destroyed: the last one takes
    /// the value with it.
    pub open spec fn drop_handle(self) -> Shares {
        match self {
            Shares::Live(count) => if count == 1 {
                Shares::Freed
            } else {
                Shares::Live((count - 1) as nat)
            },
            Shares::Freed => Shares::Freed,
        }
    }
}

/// The count of a value that has just been stored: its one handle.
pub const SOLE_OWNER: usize = 1;

/// The count after one of `count` handles is duplicated.
pub fn retain(count: usize) -> (next: usize)
    requires
        1 <= count < usize::MAX,
    ensures
        next == count + 1,
        Shares::Live(next as nat) == Shares::Live(count as nat).clone_handle(),
{
    count + 1
}

/// The count after one of `count` handles is destroyed, `None` where that
/// handle is the last owner and the value goes with it. The count is never
/// brought to zero: the handle that finds it at one releases the storage.
pub fn release(count: usize) -> (next: Option<usize>)
    requires
        count >= 1,
    ensures
        match next {
            Some(left) => count > 1 && left == count - 1,
            None => count == 1,
        },
        Shares::Live(count as nat).drop_handle() == match next {
            Some(left) => Shares::Live(left as nat),
            None => Shares::Freed,
        },
{
    if count == 1 {
        None
    } else {
        Some(count - 1)
    }
}

/// What a slot holds as a mathematical value: a value and the handles that
/// own it, or nothing once the last of them is gone. Each handle is known by
/// an identity that the slot gave it.
pub enum Storage<T> {
    Live { value: T, owners: Set<int> },
    Freed,
}

impl<T> Storage<T> {
    /// How the value is shared: by as many handles as own it.
    pub open spec fn shares(self) -> Shares {
        match self {
            Storage::Live { owners, .. } => Shares::Live(owners.len()),
            Storage::Freed => Shares::Freed,
        }
    }

    /// A live value has finitely many owners, and at least one.
    pub open spec fn wf(self) -> bool {
        &&& self matches Storage::Live { owners, .. } ==> owners.finite()
        &&& self.shares().wf()
    }

    /// The value is live and the handle known by `id` is one of its owners.
    pub open spec fn owned_by(self, id: int) -> bool {
        self matches Storage::Live { owners, .. } && owners.contains(id)
    }

    /// The storage after one of its handles is duplicated into the handle
    /// known by `made`.
    pub open spec fn with_owner(self, made: int) -> Storage<T> {
        match self {
            Storage::Live { value, owners } => Storage::Live { value, owners: owners.insert(made) },
            Storage::Freed => Storage::Freed,
        }
    }

    /// The storage after the handle known by `id` is destroyed: the value
    /// stays for the owners that are left, and goes where none is.
    pub open spec fn without_owner(self, id: int) -> Storage<T> {
        match self {
            Storage::Live { value, owners } => if owners.remove(id).is_empty() {
                Storage::Freed
            } else {
                Storage::Live { value, owners: owners.remove(id) }
            },
            Storage::Freed => Storage::Freed,
        }
    }
}

/// The stored count, with the record of the handles that it counts.
#[derive(Clone, Copy)]
struct Tally {
    count: usize,
    owners: Ghost<Set<int>>,
    unused: Ghost<int>,
}

impl Tally {
    /// The count is the number of recorded handles, which is not zero, and
    /// every identity from `unused` on is still to be given.
    spec fn inv(self) -> bool {
        &&& self.owners@.finite()
        &&& self.count == self.owners@.len()
        &&& self.count >= 1
        &&& forall|id: int| self.owners@.contains(id) ==> id < self.unused@
    }
}

/// The place of the stored count, which keeps it true to its record.
struct TallyCell {
    tally: Cell<Tally>,
}

impl TallyCell {
    #[verifier::type_invariant]
    spec fn inv(&self) -> bool {
        self.tally@.inv()
    }

    fn new(tally: Tally) -> (made: Self)
        requires
            tally.inv(),
        ensures
            made.tally@ == tally,
    {
        TallyCell { tally: Cell::new(tally) }
    }

    fn get(&self) -> (tally: Tally)
        ensures
            tally == self.tally@,
            tally.inv(),
    {
        proof {
            use_type_invariant(self);
        }
        self.tally.get()
    }

    fn set(&mut self, tally: Tally)
        requires
            tally.inv(),
        ensures
            final(self).tally@ == tally,
    {
        self.tally.set(tally);
    }
}

/// The value and the count of its handles, as they lie in a slot.
struct RcInner<T> {
    value: T,
    count: TallyCell,
}

/// The place where a shared value lies until its last handle is destroyed.
pub struct Slot<T> {
    inner: Option<RcInner<T>>,
}

/// A handle to a shared value: one owner among those the slot counts.
#[must_use]
pub struct Rc<T> {
    id: Ghost<int>,
    owns: PhantomData<T>,
}

impl<T> View for Slot<T> {
    type V = Storage<T>;

    closed spec fn view(&self) -> Storage<T> {
        match self.inner {
            Some(inner) => Storage::Live { value: inner.value, owners: inner.count.tally@.owners@ },
            None => Storage::Freed,
        }
    }
}

impl<T> Slot<T> {
    /// The number of handles that own the value, 0 once it is released.
    pub fn count(&self) -> (count: usize)
        ensures
            count == self@.shares().handles(),
            self@.wf(),
    {
        match &self.inner {
            Some(inner) => inner.count.get().count,
            None => 0,
        }
    }
}

impl<T> Rc<T> {
    /// The identity by which the slot of this handle knows it.
    pub closed spec fn id(&self) -> int {
        self.id@
    }

    /// Puts `value` into a slot of its own and returns the slot with the one
    /// handle that owns it.
    pub fn new(value: T) -> (made: (Rc<T>, Slot<T>))
        ensures
            made.1@ == (Storage::Live {
                value,
                owners: Set::<int>::empty().insert(made.0.id()),
            }),
            made.1@.shares() == Shares::Live(1),
    {
        let id: Ghost<int> = Ghost(0);
        let tally = Tally {
            count: SOLE_OWNER,
            owners: Ghost(Set::empty().insert(id@)),
            unused: Ghost(id@ + 1),
        };
        let inner = RcInner { value, count: TallyCell::new(tally) };
        (Rc { id, owns: PhantomData }, Slot { inner: Some(inner) })
    }

    /// A second handle to the value: the slot counts one owner more.
    pub fn clone(&self, slot: &mut Slot<T>) -> (handle: Rc<T>)
        requires
            old(slot)@.owned_by(self.id()),
            old(slot)@.shares().handles() < usize::MAX,
        ensures
            final(slot)@.wf(),
            !old(slot)@.owned_by(handle.id()),
            final(slot)@ == old(slot)@.with_owner(handle.id()),
            final(slot)@.shares() == old(slot)@.shares().clone_handle(),
    {
        let inner = slot.inner.as_mut().unwrap();
        let tally = inner.count.get();
        let id = tally.unused;
        inner.count.set(
            Tally {
                count: retain(tally.count),
                owners: Ghost(tally.owners@.insert(id@)),
                unused: Ghost(id@ + 1),
            },
        );
        Rc { id, owns: PhantomData }
    }

    /// The shared value.
    pub fn deref<'a>(&self, slot: &'a Slot<T>) -> (value: &'a T)
        requires
            slot@.owned_by(self.id()),
        ensures
            slot@ matches Storage::Live { value: held, .. } && *value == held,
    {
        &slot.inner.as_ref().unwrap().value
    }

    /// Destroys the handle. The last owner releases the value; any other
    /// leaves it in the slot, which counts one owner fewer.
    pub fn drop(self, slot: &mut Slot<T>)
        requires
            old(slot)@.owned_by(self.id()),
        ensures
            final(slot)@.wf(),
            final(slot)@ == old(slot)@.without_owner(self.id()),
            final(slot)@.shares() == old(slot)@.shares().drop_handle(),
    {
        let inner = slot.inner.as_mut().unwrap();
        let tally = inner.count.get();
        match release(tally.count) {
            Some(left) => {
                inner.count.set(
                    Tally {
                        count: left,
                        owners: Ghost(tally.owners@.remove(self.id@)),
                        unused: tally.unused,
                    },
                );
            },
            None => {
                slot.inner = None;
            },
        }
    }
}

/// What a live handle can do to the value it owns a share of.
pub enum HandleOp {
    Clone,
    Drop,
}

impl Shares {
    /// The state after `op`.
    pub open spec fn apply(self, op: HandleOp) -> Shares {
        match op {
            HandleOp::Clone => self.clone_handle(),
            HandleOp::Drop => self.drop_handle(),
        }
    }

    /// The state after each of `ops` in turn.
    pub open spec fn run(self, ops: Seq<HandleOp>) -> Shares
        decreases ops.len(),
    {
        if ops.len() == 0 {
            self
        } else {
            self.run(ops.drop_last()).apply(ops.last())
        }
    }

    /// The number of times that the value is released in the course of
    /// `ops`: the steps that find it live and leave it freed.
    pub open spec fn releases(self, ops: Seq<HandleOp>) -> nat
        decreases ops.len(),
    {
        if ops.len() == 0 {
            0
        } else {
            let before = self.run(ops.drop_last());
            let released: nat = if before is Live && before.apply(ops.last()) is Freed {
                1
            } else {
                0
            };
            self.releases(ops.drop_last()) + released
        }
    }

    /// The state in which `handles` live handles share the value: none of
    /// them leaves nothing behind.
    pub open spec fn shared_by(handles: int) -> Shares {
        if handles >= 1 {
            Shares::Live(handles as nat)
        } else {
            Shares::Freed
        }
    }
}

/// The number of handles that are live after `ops`, where `start` were live
/// before: each duplication adds one and each destruction takes one away.
pub open spec fn live_handles(start: int, ops: Seq<HandleOp>) -> int
    decreases ops.len(),
{
    if ops.len() == 0 {
        start
    } else {
        live_handles(start, ops.drop_last()) + match ops.last() {
            HandleOp::Clone => 1int,
            HandleOp::Drop => -1int,
        }
    }
}

/// Every operation of `ops` is made through a handle that is live when its
/// turn comes.
pub open spec fn feasible(start: int, ops: Seq<HandleOp>) -> bool {
    forall|i: int| 0 <= i < ops.len() ==> #[trigger] live_handles(start, ops.take(i)) >= 1
}

/// `n` times `op`.
pub open spec fn repeat(op: HandleOp, n: nat) -> Seq<HandleOp> {
    Seq::new(n, |i: int| op)
}

/// Through any feasible sequence of duplications and destructions, the
/// count is exactly the number of live handles. So the value stays while a
/// handle is live, and is released by the destruction of the last one.
pub proof fn lemma_count_is_live_handles(start: nat, ops: Seq<HandleOp>)
    requires
        start >= 1,
        feasible(start as int, ops),
    ensures
        live_handles(start as int, ops) >= 0,
        Shares::Live(start).run(ops) == Shares::shared_by(live_handles(start as int, ops)),
    decreases ops.len(),
{
    if ops.len() > 0 {
        let front = ops.drop_last();
        assert(front =~= ops.take(ops.len() - 1));
        assert forall|i: int| 0 <= i < front.len() implies #[trigger] live_handles(
            start as int,
            front.take(i),
        ) >= 1 by {
            assert(front.take(i) =~= ops.take(i));
        }
        lemma_count_is_live_handles(start, front);
    }
}

/// The value is released at most at the end of a feasible sequence: after
/// any shorter part of it the value is still live.
pub proof fn lemma_released_only_by_last(start: nat, ops: Seq<HandleOp>, i: int)
    requires
        start >= 1,
        feasible(start as int, ops),
        0 <= i < ops.len(),
    ensures
        Shares::Live(start).run(ops.take(i)) is Live,
{
    let part = ops.take(i);
    assert forall|j: int| 0 <= j < part.len() implies #[trigger] live_handles(
        start as int,
        part.take(j),
    ) >= 1 by {
        assert(part.take(j) =~= ops.take(j));
    }
    lemma_count_is_live_handles(start, part);
}

/// Whatever is done to the handles, the value is released at most once,
/// and stays freed from then on.
pub proof fn lemma_released_at_most_once(start: nat, ops: Seq<HandleOp>)
    requires
        start >= 1,
    ensures
        Shares::Live(start).releases(ops) <= 1,
        Shares::Live(start).releases(ops) == 1 <==> Shares::Live(start).run(ops) is Freed,
    decreases ops.len(),
{
    if ops.len() > 0 {
        lemma_released_at_most_once(start, ops.drop_last());
    }
}

/// Through a feasible sequence the value is released exactly once if no
/// handle is left live, and not at all while one is.
pub proof fn lemma_released_once_when_none_left(start: nat, ops: Seq<HandleOp>)
    requires
        start >= 1,
        feasible(start as int, ops),
    ensures
        Shares::Live(start).releases(ops) == if live_handles(start as int, ops) == 0 {
            1nat
        } else {
            0nat
        },
{
    lemma_released_at_most_once(start, ops);
    lemma_count_is_live_handles(start, ops);
}

/// After `n` duplications of a first handle and `k` destructions, the value
/// is still shared by the `n + 1 - k` handles that are left, and it is
/// released by the destruction that leaves none.
pub proof fn lemma_clones_then_drops(n: nat, k: nat)
    requires
        k <= n + 1,
    ensures
        Shares::Live(1).run(repeat(HandleOp::Clone, n) + repeat(HandleOp::Drop, k))
            == Shares::shared_by(n + 1 - k),
    decreases n + k,
{
    let ops = repeat(HandleOp::Clone, n) + repeat(HandleOp::Drop, k);
    if k > 0 {
        let front = repeat(HandleOp::Clone, n) + repeat(HandleOp::Drop, (k - 1) as nat);
        assert(ops.drop_last() =~= front);
        lemma_clones_then_drops(n, (k - 1) as nat);
    } else if n > 0 {
        let front = repeat(HandleOp::Clone, (n - 1) as nat) + repeat(HandleOp::Drop, 0);
        assert(ops.drop_last() =~= front);
        lemma_clones_then_drops((n - 1) as nat, 0);
    }
}

} // verus!
