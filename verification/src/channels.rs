use crate::engines::QueueError;
use crate::types::QuantumCommand;
use vstd::prelude::*;

verus! {

/// A channel that carries batches of commands to a quantum engine.
pub trait CommandChannel {
    /// Sends a batch of commands.
    fn send_commands(&mut self, cmds: Vec<QuantumCommand>) -> Result<(), QueueError>;

    /// Writes out whatever is still buffered.
    fn flush(&mut self) -> Result<(), QueueError>;
}

/// A channel that carries measurement outcomes back.
pub trait MessageChannel {
    /// Receives one outcome.
    fn receive_message(&mut self) -> Result<u32, QueueError>;
}

} // verus!
