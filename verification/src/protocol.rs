//! The exchange between an operation and whoever performs its copies.
//!
//! An operation hands out one [`Action`] at a time; the caller performs it
//! against the target process and hands back the matching [`Event`]. A copy is
//! all or nothing: a short copy is reported as [`Event::Failed`].

use vstd::prelude::*;
use crate::process::Handle;

verus! {

/// One raw copy that the caller is asked to perform.
#[derive(Debug, PartialEq, Eq)]
pub enum Action {
    /// Copy `len` bytes out of the target process, starting at `address`.
    Fetch { handle: Handle, address: u64, len: usize },
    /// Copy `bytes` into the target process, starting at `address`.
    Store { handle: Handle, address: u64, bytes: Vec<u8> },
}

/// How the copy that was asked for ended.
#[derive(Debug, PartialEq, Eq)]
pub enum Event {
    /// A fetch succeeded and brought these bytes.
    Fetched(Vec<u8>),
    /// A store succeeded.
    Stored,
    /// The copy failed as a whole.
    Failed,
}

/// An [`Action`] as a mathematical value.
pub enum ActionView {
    Fetch { handle: Handle, address: u64, len: nat },
    Store { handle: Handle, address: u64, bytes: Seq<u8> },
}

/// An [`Event`] as a mathematical value.
pub enum EventView {
    Fetched(Seq<u8>),
    Stored,
    Failed,
}

impl View for Action {
    type V = ActionView;

    open spec fn view(&self) -> ActionView {
        match *self {
            Action::Fetch { handle, address, len } => ActionView::Fetch {
                handle,
                address,
                len: len as nat,
            },
            Action::Store { handle, address, bytes } => ActionView::Store {
                handle,
                address,
                bytes: bytes@,
            },
        }
    }
}

impl View for Event {
    type V = EventView;

    open spec fn view(&self) -> EventView {
        match *self {
            Event::Fetched(bytes) => EventView::Fetched(bytes@),
            Event::Stored => EventView::Stored,
            Event::Failed => EventView::Failed,
        }
    }
}

} // verus!
