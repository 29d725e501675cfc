use vstd::prelude::*;
use crate::error::ServiceError;

verus! {

/// A worker process receives the messages of its host through this trait.
pub trait Worker {
    /// Takes one message.
    fn on_message(&mut self, msg: &[u8]) -> Result<(), ServiceError>;
}

} // verus!
