//! A container that checks shared and exclusive access to its value when the
//! access is asked for, and the protocol its access state follows.
use core::marker::PhantomData;
use vstd::prelude::*;
use crate::cell::Cell;

verus! {

/// The access state of a cell as a mathematical value: no live guard, `n`
/// live read guards, or one live write guard.
pub enum Access {
    Unreferenced,
    Shared(nat),
    Exclusive,
}

impl Access {
    /// A shared state counts at least one read guard.
    pub open spec fn wf(self) -> bool {
        self matches Access::Shared(n) ==> n >= 1
    }

    /// The state in which `n` read guards and no write guard are live.
    pub open spec fn readers(n: nat) -> Access {
        if n == 0 {
            Access::Unreferenced
        } else {
            Access::Shared(n)
        }
    }

    /// The number of guards that are live in this state.
    pub open spec fn guards(self) -> nat {
        match self {
            Access::Unreferenced => 0,
            Access::Shared(n) => n,
            Access::Exclusive => 1,
        }
    }

    /// The state after a request for shared access, `None` where it is refused.
    pub open spec fn borrow(self) -> Option<Access> {
        match self {
            Access::Unreferenced => Some(Access::Shared(1)),
            Access::Shared(n) => Some(Access::Shared(n + 1)),
            Access::Exclusive => None,
        }
    }

    /// The state after a request for exclusive access, `None` where it is refused.
    pub open spec fn borrow_mut(self) -> Option<Access> {
        match self {
            Access::Unreferenced => Some(Access::Exclusive),
            _ => None,
        }
    }

    /// The state after one read guard is destroyed, `None` where no read guard
    /// can be live.
    pub open spec fn release_shared(self) -> Option<Access> {
        match self {
            Access::Shared(n) if n == 1 => Some(Access::Unreferenced),
            Access::Shared(n) if n > 1 => Some(Access::Shared((n - 1) as nat)),
            _ => None,
        }
    }

    /// The state after the write guard is destroyed, `None` where no write
    /// guard can be live.
    pub open spec fn release_exclusive(self) -> Option<Access> {
        match self {
            Access::Exclusive => Some(Access::Unreferenced),
            _ => None,
        }
    }
}

/// The guards that are live, counted by kind.
pub struct LiveGuards {
    pub readers: nat,
    pub writers: nat,
}

impl LiveGuards {
    /// Read guards share the value among themselves, and a write guard
    /// shares it with no other guard.
    pub open spec fn exclusive_or_shared(self) -> bool {
        self.writers == 0 || (self.writers == 1 && self.readers == 0)
    }

    /// The access state that stands for these guards.
    pub open spec fn access(self) -> Access {
        if self.writers >= 1 {
            Access::Exclusive
        } else {
            Access::readers(self.readers)
        }
    }
}

/// The access state as the cell stores it.
#[derive(Clone, Copy, Debug, PartialEq, Eq, Structural)]
pub enum RefState {
    UnReferenced,
    Referenced(usize),
    Exclusive,
}

impl View for RefState {
    type V = Access;

    open spec fn view(&self) -> Access {
        match *self {
            RefState::UnReferenced => Access::Unreferenced,
            RefState::Referenced(n) => Access::Shared(n as nat),
            RefState::Exclusive => Access::Exclusive,
        }
    }
}

impl RefState {
    /// One more read guard can be counted without leaving `usize`.
    pub open spec fn has_room(self) -> bool {
        self@.guards() < usize::MAX
    }

    /// Whether the state counts as many read guards as `usize` can hold.
    pub fn is_full(self) -> (full: bool)
        ensures
            full == !self.has_room(),
    {
        match self {
            RefState::Referenced(n) => n == usize::MAX,
            _ => false,
        }
    }

    /// Requests shared access: the next state, or `None` where the request is
    /// refused.
    pub fn borrow(self) -> (next: Option<RefState>)
        requires
            self.has_room(),
        ensures
            match self@.borrow() {
                Some(access) => next matches Some(state) && state@ == access,
                None => next is None,
            },
    {
        match self {
            RefState::UnReferenced => Some(RefState::Referenced(1)),
            RefState::Referenced(n) => Some(RefState::Referenced(n + 1)),
            RefState::Exclusive => None,
        }
    }

    /// Requests exclusive access: the next state, or `None` where the request
    /// is refused.
    pub fn borrow_mut(self) -> (next: Option<RefState>)
        ensures
            match self@.borrow_mut() {
                Some(access) => next matches Some(state) && state@ == access,
                None => next is None,
            },
    {
        match self {
            RefState::UnReferenced => Some(RefState::Exclusive),
            _ => None,
        }
    }

    /// Destroys one read guard: the next state, or `None` where the state
    /// counts no read guard.
    pub fn release_shared(self) -> (next: Option<RefState>)
        ensures
            match self@.release_shared() {
                Some(access) => next matches Some(state) && state@ == access,
                None => next is None,
            },
    {
        match self {
            RefState::Referenced(n) => {
                if n == 1 {
                    Some(RefState::UnReferenced)
                } else if n > 1 {
                    Some(RefState::Referenced(n - 1))
                } else {
                    None
                }
            },
            _ => None,
        }
    }

    /// Destroys the write guard: the next state, or `None` where the state is
    /// not exclusive.
    pub fn release_exclusive(self) -> (next: Option<RefState>)
        ensures
            match self@.release_exclusive() {
                Some(access) => next matches Some(state) && state@ == access,
                None => next is None,
            },
    {
        match self {
            RefState::Exclusive => Some(RefState::UnReferenced),
            _ => None,
        }
    }
}

/// What a cell holds: its value, and which guards are live on it. Each
/// guard is known by an identity that the cell gave it.
pub struct Contents<T> {
    pub value: T,
    pub readers: Set<int>,
    pub writer: Option<int>,
}

impl<T> Contents<T> {
    /// The live guards, counted by kind.
    pub open spec fn live(self) -> LiveGuards {
        LiveGuards {
            readers: self.readers.len(),
            writers: if self.writer is Some {
                1
            } else {
                0
            },
        }
    }

    /// The access state that stands for the live guards.
    pub open spec fn access(self) -> Access {
        self.live().access()
    }

    /// Finitely many read guards are live, and none beside a write guard.
    pub open spec fn wf(self) -> bool {
        &&& self.readers.finite()
        &&& self.writer is Some ==> self.readers.is_empty()
    }
}

/// The stored access state, with the record of the guards that it counts.
#[derive(Clone, Copy)]
struct Flag {
    state: RefState,
    readers: Ghost<Set<int>>,
    writer: Ghost<Option<int>>,
    unused: Ghost<int>,
}

impl Flag {
    /// The stored state stands for the recorded guards, and every identity
    /// from `unused` on is still to be given.
    spec fn inv(self) -> bool {
        &&& self.readers@.finite()
        &&& self.writer@ is Some ==> self.readers@.is_empty()
        &&& self.state@ == (LiveGuards {
            readers: self.readers@.len(),
            writers: if self.writer@ is Some {
                1
            } else {
                0
            },
        }).access()
        &&& forall|id: int| self.readers@.contains(id) ==> id < self.unused@
        &&& self.writer@ matches Some(id) ==> id < self.unused@
    }
}

/// The place of the stored access state, which keeps it true to its record.
struct FlagCell {
    flag: Cell<Flag>,
}

impl FlagCell {
    #[verifier::type_invariant]
    spec fn inv(&self) -> bool {
        self.flag@.inv()
    }

    fn new() -> (made: Self)
        ensures
            made.flag@.state == RefState::UnReferenced,
            made.flag@.readers@ == Set::<int>::empty(),
            made.flag@.writer@ is None,
    {
        FlagCell {
            flag: Cell::new(
                Flag {
                    state: RefState::UnReferenced,
                    readers: Ghost(Set::empty()),
                    writer: Ghost(None),
                    unused: Ghost(0),
                },
            ),
        }
    }

    fn get(&self) -> (flag: Flag)
        ensures
            flag == self.flag@,
            flag.inv(),
    {
        proof {
            use_type_invariant(self);
        }
        self.flag.get()
    }

    fn set(&mut self, flag: Flag)
        requires
            flag.inv(),
        ensures
            final(self).flag@ == flag,
    {
        self.flag.set(flag);
    }
}

/// A container of one value that hands out read guards and a write guard,
/// and refuses a guard that would conflict with a live one.
pub struct RefCell<T> {
    value: T,
    ref_state: FlagCell,
}

/// A read guard: one granted request for shared access.
#[must_use]
pub struct Ref<T> {
    id: Ghost<int>,
    reads: PhantomData<T>,
}

/// A write guard: the granted request for exclusive access.
#[must_use]
pub struct RefMut<T> {
    id: Ghost<int>,
    writes: PhantomData<T>,
}

impl<T> View for RefCell<T> {
    type V = Contents<T>;

    closed spec fn view(&self) -> Contents<T> {
        Contents {
            value: self.value,
            readers: self.ref_state.flag@.readers@,
            writer: self.ref_state.flag@.writer@,
        }
    }
}

impl<T> RefCell<T> {
    /// A cell that holds `value`, with no guard live.
    pub fn new(value: T) -> (cell: Self)
        ensures
            cell@ == (Contents { value, readers: Set::<int>::empty(), writer: None }),
            cell@.access() == Access::Unreferenced,
    {
        RefCell { value, ref_state: FlagCell::new() }
    }

    /// The access state of the cell: it stands for the guards that are live.
    pub fn state(&self) -> (state: RefState)
        ensures
            state@ == self@.access(),
            self@.wf(),
    {
        self.ref_state.get().state
    }

    /// Requests shared access. A read guard is granted unless a write guard
    /// is live, and the cell then counts it among its live read guards.
    pub fn borrow(&mut self) -> (guard: Option<Ref<T>>)
        requires
            old(self)@.readers.len() < usize::MAX,
        ensures
            final(self)@.wf(),
            match guard {
                Some(granted) => {
                    &&& old(self)@.writer is None
                    &&& !old(self)@.readers.contains(granted.id())
                    &&& final(self)@ == (Contents {
                        readers: old(self)@.readers.insert(granted.id()),
                        ..old(self)@
                    })
                    &&& old(self)@.access().borrow() == Some(final(self)@.access())
                },
                None => {
                    &&& old(self)@.writer is Some
                    &&& final(self)@ == old(self)@
                    &&& old(self)@.access().borrow() is None
                },
            },
    {
        let flag = self.ref_state.get();
        match flag.state.borrow() {
            Some(next) => {
                let id = flag.unused;
                self.ref_state.set(
                    Flag {
                        state: next,
                        readers: Ghost(flag.readers@.insert(id@)),
                        writer: flag.writer,
                        unused: Ghost(id@ + 1),
                    },
                );
                Some(Ref { id, reads: PhantomData })
            },
            None => None,
        }
    }

    /// Requests exclusive access. The write guard is granted only while no
    /// guard is live, and the cell then counts it as its live write guard.
    pub fn borrow_mut(&mut self) -> (guard: Option<RefMut<T>>)
        ensures
            final(self)@.wf(),
            match guard {
                Some(granted) => {
                    &&& old(self)@.writer is None
                    &&& old(self)@.readers.is_empty()
                    &&& final(self)@ == (Contents { writer: Some(granted.id()), ..old(self)@ })
                    &&& old(self)@.access().borrow_mut() == Some(final(self)@.access())
                },
                None => {
                    &&& old(self)@.writer is Some || !old(self)@.readers.is_empty()
                    &&& final(self)@ == old(self)@
                    &&& old(self)@.access().borrow_mut() is None
                },
            },
    {
        let flag = self.ref_state.get();
        match flag.state.borrow_mut() {
            Some(next) => {
                let id = flag.unused;
                self.ref_state.set(
                    Flag {
                        state: next,
                        readers: flag.readers,
                        writer: Ghost(Some(id@)),
                        unused: Ghost(id@ + 1),
                    },
                );
                Some(RefMut { id, writes: PhantomData })
            },
            None => None,
        }
    }
}

impl<T> Ref<T> {
    /// The identity by which the cell that granted this guard knows it.
    pub closed spec fn id(&self) -> int {
        self.id@
    }

    /// The value of the cell on which this guard is live.
    pub fn deref<'a>(&self, cell: &'a RefCell<T>) -> (value: &'a T)
        requires
            cell@.readers.contains(self.id()),
        ensures
            *value == cell@.value,
    {
        &cell.value
    }

    /// Destroys the guard: the cell counts it no longer, and is unreferenced
    /// where this was its last guard.
    pub fn drop(self, cell: &mut RefCell<T>)
        requires
            old(cell)@.readers.contains(self.id()),
        ensures
            final(cell)@.wf(),
            final(cell)@ == (Contents {
                readers: old(cell)@.readers.remove(self.id()),
                ..old(cell)@
            }),
            old(cell)@.access().release_shared() == Some(final(cell)@.access()),
    {
        let flag = cell.ref_state.get();
        let next = flag.state.release_shared().unwrap();
        cell.ref_state.set(
            Flag {
                state: next,
                readers: Ghost(flag.readers@.remove(self.id@)),
                writer: flag.writer,
                unused: flag.unused,
            },
        );
    }
}

impl<T> RefMut<T> {
    /// The identity by which the cell that granted this guard knows it.
    pub closed spec fn id(&self) -> int {
        self.id@
    }

    /// The value of the cell on which this guard is live.
    pub fn deref<'a>(&self, cell: &'a RefCell<T>) -> (value: &'a T)
        requires
            cell@.writer == Some(self.id()),
        ensures
            *value == cell@.value,
    {
        &cell.value
    }

    /// The value of the cell on which this guard is live, open to change.
    pub fn deref_mut<'a>(&mut self, cell: &'a mut RefCell<T>) -> (value: &'a mut T)
        requires
            old(cell)@.writer == Some(old(self).id()),
        ensures
            *value == old(cell)@.value,
            final(cell)@ == (Contents { value: *final(value), ..old(cell)@ }),
            final(self).id() == old(self).id(),
    {
        &mut cell.value
    }

    /// Destroys the guard: the cell has no guard live.
    pub fn drop(self, cell: &mut RefCell<T>)
        requires
            old(cell)@.writer == Some(self.id()),
        ensures
            final(cell)@.wf(),
            final(cell)@ == (Contents { writer: None, ..old(cell)@ }),
            final(cell)@.access() == Access::Unreferenced,
    {
        let flag = cell.ref_state.get();
        let next = flag.state.release_exclusive().unwrap();
        cell.ref_state.set(
            Flag { state: next, readers: flag.readers, writer: Ghost(None), unused: flag.unused },
        );
    }
}

/// What can happen to a cell: a request for a guard, or the destruction of
/// a guard.
pub enum GuardOp {
    Borrow,
    BorrowMut,
    DropRef,
    DropRefMut,
}

impl Access {
    /// The state after `n` requests for shared access, `None` where one of
    /// them is refused.
    pub open spec fn borrow_n(self, n: nat) -> Option<Access>
        decreases n,
    {
        if n == 0 {
            Some(self)
        } else {
            match self.borrow_n((n - 1) as nat) {
                Some(state) => state.borrow(),
                None => None,
            }
        }
    }

    /// The state after `n` read guards are destroyed, `None` where fewer
    /// are live.
    pub open spec fn release_n(self, n: nat) -> Option<Access>
        decreases n,
    {
        if n == 0 {
            Some(self)
        } else {
            match self.release_n((n - 1) as nat) {
                Some(state) => state.release_shared(),
                None => None,
            }
        }
    }

    /// The state after `op`. A refused request leaves the state as it is.
    pub open spec fn apply(self, op: GuardOp) -> Access {
        let next = match op {
            GuardOp::Borrow => self.borrow(),
            GuardOp::BorrowMut => self.borrow_mut(),
            GuardOp::DropRef => self.release_shared(),
            GuardOp::DropRefMut => self.release_exclusive(),
        };
        match next {
            Some(state) => state,
            None => self,
        }
    }

    /// The state after each of `ops` in turn.
    pub open spec fn run(self, ops: Seq<GuardOp>) -> Access
        decreases ops.len(),
    {
        if ops.len() == 0 {
            self
        } else {
            self.run(ops.drop_last()).apply(ops.last())
        }
    }
}

impl LiveGuards {
    /// The live guards after `op`. A read guard is granted while no write
    /// guard is live, a write guard while no guard at all is live, and a
    /// destruction takes one guard of its kind away.
    pub open spec fn apply(self, op: GuardOp) -> LiveGuards {
        match op {
            GuardOp::Borrow => if self.writers == 0 {
                LiveGuards { readers: self.readers + 1, writers: self.writers }
            } else {
                self
            },
            GuardOp::BorrowMut => if self.writers == 0 && self.readers == 0 {
                LiveGuards { readers: 0, writers: 1 }
            } else {
                self
            },
            GuardOp::DropRef => LiveGuards {
                readers: (self.readers - 1) as nat,
                writers: self.writers,
            },
            GuardOp::DropRefMut => LiveGuards {
                readers: self.readers,
                writers: (self.writers - 1) as nat,
            },
        }
    }

    /// The live guards after each of `ops` in turn.
    pub open spec fn run(self, ops: Seq<GuardOp>) -> LiveGuards
        decreases ops.len(),
    {
        if ops.len() == 0 {
            self
        } else {
            self.run(ops.drop_last()).apply(ops.last())
        }
    }

    /// Every destruction in `ops` is that of a guard which is live when its
    /// turn comes.
    pub open spec fn feasible(self, ops: Seq<GuardOp>) -> bool {
        forall|i: int|
            0 <= i < ops.len() ==> match ops[i] {
                GuardOp::DropRef => (#[trigger] self.run(ops.take(i))).readers >= 1,
                GuardOp::DropRefMut => (#[trigger] self.run(ops.take(i))).writers >= 1,
                _ => true,
            }
    }
}

/// The access state of a cell counts exactly the guards that are live on
/// it, and a write guard is live beside no other guard.
pub proof fn lemma_access_counts_contents<T>(contents: Contents<T>)
    requires
        contents.wf(),
    ensures
        contents.live().exclusive_or_shared(),
        contents.access().wf(),
        contents.access().guards() == contents.live().readers + contents.live().writers,
        contents.access() is Exclusive <==> contents.writer is Some,
        contents.access() is Unreferenced <==> contents.writer is None
            && contents.readers.is_empty(),
{
}

/// Any number of requests for shared access in a row are all granted while
/// no write guard is live, and the state then counts every one of them.
pub proof fn lemma_shared_borrows_all_succeed(start: nat, n: nat)
    ensures
        Access::readers(start).borrow_n(n) == Some(Access::readers(start + n)),
    decreases n,
{
    if n > 0 {
        lemma_shared_borrows_all_succeed(start, (n - 1) as nat);
    }
}

/// A request for shared access is granted exactly where no write guard is
/// live.
pub proof fn lemma_shared_needs_no_writer(state: Access)
    ensures
        state.borrow() is Some <==> !(state is Exclusive),
{
}

/// A request for exclusive access is granted exactly where no guard of
/// either kind is live.
pub proof fn lemma_exclusive_needs_no_guard(state: Access)
    requires
        state.wf(),
    ensures
        state.borrow_mut() is Some <==> state.guards() == 0,
        state.borrow_mut() is Some ==> state.borrow_mut() == Some(Access::Exclusive),
{
}

/// Destroying `k` of `n` live read guards leaves the other `n - k` counted.
pub proof fn lemma_releases_count_down(n: nat, k: nat)
    requires
        k <= n,
    ensures
        Access::readers(n).release_n(k) == Some(Access::readers((n - k) as nat)),
    decreases k,
{
    if k > 0 {
        lemma_releases_count_down(n, (k - 1) as nat);
    }
}

/// Destroying every live read guard leaves the cell unreferenced, and a
/// request for exclusive access is then granted.
pub proof fn lemma_release_all_then_exclusive(n: nat)
    ensures
        Access::readers(n).release_n(n) == Some(Access::Unreferenced),
        Access::Unreferenced.borrow_mut() == Some(Access::Exclusive),
{
    lemma_releases_count_down(n, n);
}

/// Through any sequence of requests and destructions on a new cell, where
/// only live guards are destroyed, the access state stands for exactly the
/// guards that are live, and a write guard is never live beside another.
pub proof fn lemma_access_counts_live_guards(ops: Seq<GuardOp>)
    requires
        (LiveGuards { readers: 0, writers: 0 }).feasible(ops),
    ensures
        (LiveGuards { readers: 0, writers: 0 }).run(ops).exclusive_or_shared(),
        Access::Unreferenced.run(ops) == (LiveGuards { readers: 0, writers: 0 }).run(ops).access(),
        Access::Unreferenced.run(ops).wf(),
    decreases ops.len(),
{
    let none = LiveGuards { readers: 0, writers: 0 };
    if ops.len() > 0 {
        let front = ops.drop_last();
        assert(front =~= ops.take(ops.len() - 1));
        assert forall|i: int| 0 <= i < front.len() implies match front[i] {
            GuardOp::DropRef => (#[trigger] none.run(front.take(i))).readers >= 1,
            GuardOp::DropRefMut => (#[trigger] none.run(front.take(i))).writers >= 1,
            _ => true,
        } by {
            assert(front.take(i) =~= ops.take(i));
        }
        lemma_access_counts_live_guards(front);
    }
}

} // verus!
