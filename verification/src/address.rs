use crate::mailbox;
use crossbeam_channel::Sender;
use vstd::prelude::*;

verus! {

/// A handle that posts messages of type `M` into one cell's mailbox. It owns
/// neither the cell nor its actor, and may outlive both.
#[verifier::reject_recursive_types(M)]
pub struct Address<M> {
    cell_id: u128,
    postman: Sender<M>,
}

impl<M> Address<M> {
    /// The id of the cell this address posts to.
    pub closed spec fn target(&self) -> u128 {
        self.cell_id
    }

    pub(crate) fn new(cell_id: u128, tx: Sender<M>) -> (address: Self)
        ensures
            address.target() == cell_id,
    {
        Address { cell_id, postman: tx }
    }

    /// The id of the cell this address posts to.
    pub fn uuid(&self) -> (id: u128)
        ensures
            id == self.target(),
    {
        self.cell_id
    }

    /// Posts `msg` to the cell's mailbox without blocking. Where the cell is
    /// gone the message is dropped and the caller is not told.
    pub fn send(&self, msg: M) {
        mailbox::post(&self.postman, msg);
    }
}

impl<M> Clone for Address<M> {
    fn clone(&self) -> (copy: Self)
        ensures
            copy.target() == self.target(),
    {
        Address { cell_id: self.cell_id, postman: mailbox::share(&self.postman) }
    }
}

} // verus!
