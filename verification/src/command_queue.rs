use crate::engine_types::QuantumCommand;
use std::collections::VecDeque;
use vstd::prelude::*;

verus! {

/// A first-in, first-out queue of commands.
pub struct CommandQueue {
    queue: VecDeque<QuantumCommand>,
}

impl View for CommandQueue {
    type V = Seq<QuantumCommand>;

    /// The queued commands, oldest first.
    closed spec fn view(&self) -> Seq<QuantumCommand> {
        self.queue@
    }
}

impl CommandQueue {
    /// An empty queue.
    pub fn new() -> (q: Self)
        ensures
            q@ == Seq::<QuantumCommand>::empty(),
    {
        CommandQueue { queue: VecDeque::new() }
    }

    /// Adds a command at the back.
    pub fn push(&mut self, cmd: QuantumCommand)
        ensures
            final(self)@ == old(self)@.push(cmd),
    {
        self.queue.push_back(cmd);
    }

    /// Takes the oldest command, if there is one.
    pub fn pop(&mut self) -> (r: Option<QuantumCommand>)
        ensures
            old(self)@.len() == 0 ==> r is None && final(self)@ == old(self)@,
            old(self)@.len() > 0 ==> r == Some(old(self)@[0]) && final(self)@ == old(
                self,
            )@.drop_first(),
    {
        self.queue.pop_front()
    }

    /// Whether the queue holds no command.
    pub fn is_empty(&self) -> (b: bool)
        ensures
            b == (self@.len() == 0),
    {
        self.queue.len() == 0
    }

    /// The number of queued commands.
    pub fn len(&self) -> (n: usize)
        ensures
            n == self@.len(),
    {
        self.queue.len()
    }
}

impl Default for CommandQueue {
    fn default() -> (q: Self)
        ensures
            q@ == Seq::<QuantumCommand>::empty(),
    {
        Self::new()
    }
}

/// Whatever is pushed comes out again in the order it went in: pushing `cmd` onto a
/// queue and popping gives the queue's own front where it was not empty, else `cmd`.
pub proof fn lemma_queue_first_in_first_out(q: Seq<QuantumCommand>, cmd: QuantumCommand)
    ensures
        q.len() > 0 ==> q.push(cmd)[0] == q[0] && q.push(cmd).drop_first() == q.drop_first().push(
            cmd,
        ),
        q.len() == 0 ==> q.push(cmd)[0] == cmd && q.push(cmd).drop_first().len() == 0,
{
    if q.len() > 0 {
        assert(q.push(cmd).drop_first() =~= q.drop_first().push(cmd));
    }
}

} // verus!
