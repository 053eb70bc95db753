//! Shared ownership and dynamically checked borrowing for single-threaded
//! code, with the protocols of both stated and proved.
//!
//! * [`cell::Cell`] holds one value and reads or replaces it without any
//!   test.
//! * [`rc::Rc`] is a handle to a value that several handles own together.
//!   The value lies in a [`rc::Slot`] with the count of its handles, and is
//!   released by the handle that finds itself the last.
//! * [`refcell::RefCell`] holds a value and grants read guards
//!   ([`refcell::Ref`]) and a write guard ([`refcell::RefMut`]) as its
//!   access state allows.
//! * [`rwlock::RwLock`] is the interface of a lock for use across threads.
//!
//! A handle or a guard here does not point into its slot or cell. Whoever
//! uses one passes the slot or cell along, and every contract says what the
//! operation does to it. The slot and the cell know each handle and guard
//! they have given out by an identity, so a contract can ask that a handle
//! is live on the very slot it is used with.
pub mod cell;
pub mod refcell;
pub mod rc;
pub mod rwlock;
