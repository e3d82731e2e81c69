//! The raw command stream: what is recorded, in the order in which it is
//! recorded, and the pool that gives it room.

use vstd::prelude::*;
use crate::barrier::{BarrierRequest, PipelineBarrierBuilder};

verus! {

/// The level of a command buffer.
#[derive(Clone, Copy, Debug, PartialEq, Eq, Structural)]
pub enum Kind {
    Primary,
    Secondary,
}

/// How often and how a command buffer may be submitted.
#[derive(Clone, Copy, Debug, PartialEq, Eq, Structural)]
pub enum Flags {
    /// The command buffer may be submitted many times, one submission after another.
    SequentialUse,
    /// The command buffer may be pending several times at once.
    SimultaneousUse,
    /// The command buffer is submitted once.
    OneTimeSubmit,
}

/// Why a raw stream could not be opened or closed.
#[derive(Clone, Copy, Debug, PartialEq, Eq, Structural)]
pub enum StreamError {
    /// The pool has no command buffer left to hand out.
    PoolExhausted,
    /// The device that the pool belongs to is lost.
    DeviceLost,
    /// More was recorded than the command buffer has room for.
    OutOfMemory,
}

/// An operation that the device carries out.
#[derive(Debug, PartialEq, Eq)]
pub enum RawOperation {
    /// Writes `data` into a buffer, from `offset` on.
    UpdateBuffer { buffer: u64, offset: u64, data: Vec<u8> },
    /// Fills `size` bytes of a buffer, from `offset` on, with copies of `value`.
    FillBuffer { buffer: u64, offset: u64, size: u64, value: u32 },
    /// Copies `size` bytes from one buffer to another.
    CopyBuffer {
        source: u64,
        source_offset: u64,
        destination: u64,
        destination_offset: u64,
        size: u64,
    },
    /// Runs the bound compute pipeline over a grid of work groups.
    Dispatch { x: u32, y: u32, z: u32 },
}

/// What a `RawOperation` stands for.
pub enum Operation {
    UpdateBuffer { buffer: u64, offset: u64, data: Seq<u8> },
    FillBuffer { buffer: u64, offset: u64, size: u64, value: u32 },
    CopyBuffer {
        source: u64,
        source_offset: u64,
        destination: u64,
        destination_offset: u64,
        size: u64,
    },
    Dispatch { x: u32, y: u32, z: u32 },
}

impl View for RawOperation {
    type V = Operation;

    open spec fn view(&self) -> Operation {
        match *self {
            RawOperation::UpdateBuffer { buffer, offset, data } => Operation::UpdateBuffer {
                buffer,
                offset,
                data: data@,
            },
            RawOperation::FillBuffer { buffer, offset, size, value } => Operation::FillBuffer {
                buffer,
                offset,
                size,
                value,
            },
            RawOperation::CopyBuffer {
                source,
                source_offset,
                destination,
                destination_offset,
                size,
            } => Operation::CopyBuffer {
                source,
                source_offset,
                destination,
                destination_offset,
                size,
            },
            RawOperation::Dispatch { x, y, z } => Operation::Dispatch { x, y, z },
        }
    }
}

/// One entry of a raw stream.
#[derive(Debug, PartialEq, Eq)]
pub enum RawCommand {
    /// A pipeline barrier that carries a whole batch of requests.
    PipelineBarrier(PipelineBarrierBuilder),
    /// An operation.
    Operation(RawOperation),
}

/// What a `RawCommand` stands for.
pub enum Command {
    /// One pipeline barrier for the given requests, oldest first.
    PipelineBarrier(Seq<BarrierRequest>),
    Operation(Operation),
}

impl View for RawCommand {
    type V = Command;

    open spec fn view(&self) -> Command {
        match *self {
            RawCommand::PipelineBarrier(batch) => Command::PipelineBarrier(batch@),
            RawCommand::Operation(operation) => Command::Operation(operation@),
        }
    }
}

/// What a run of raw commands stands for, entry by entry.
pub open spec fn commands_view(commands: Seq<RawCommand>) -> Seq<Command> {
    Seq::new(commands.len(), |i: int| commands[i]@)
}

/// Where command buffers come from. A pool hands out `available` more command
/// buffers, each with room for `capacity` commands.
#[derive(Clone, Copy, Debug, PartialEq, Eq, Structural)]
pub struct CommandPool {
    pub available: usize,
    pub capacity: usize,
    pub device_lost: bool,
}

impl CommandPool {
    /// The reason, if there is one, for which the pool hands out no command
    /// buffer: the device is lost, or else none is left.
    pub open spec fn refusal(self) -> Option<StreamError> {
        if self.device_lost {
            Some(StreamError::DeviceLost)
        } else if self.available == 0 {
            Some(StreamError::PoolExhausted)
        } else {
            None
        }
    }

    /// Whether `after` is the pool once it has handed out one command buffer.
    pub open spec fn hands_out(self, after: CommandPool) -> bool {
        &&& self.refusal() is None
        &&& after.available == self.available - 1
        &&& after.capacity == self.capacity
        &&& after.device_lost == self.device_lost
    }
}

/// A raw stream that is being recorded. It keeps what it is given, in order, and
/// checks nothing.
pub struct UnsafeCommandBufferBuilder {
    kind: Kind,
    flags: Flags,
    capacity: usize,
    commands: Vec<RawCommand>,
}

/// A raw stream that is closed.
#[derive(Debug, PartialEq, Eq)]
pub struct UnsafeCommandBuffer {
    kind: Kind,
    flags: Flags,
    commands: Vec<RawCommand>,
}

impl View for UnsafeCommandBufferBuilder {
    type V = Seq<Command>;

    closed spec fn view(&self) -> Seq<Command> {
        commands_view(self.commands@)
    }
}

impl View for UnsafeCommandBuffer {
    type V = Seq<Command>;

    closed spec fn view(&self) -> Seq<Command> {
        commands_view(self.commands@)
    }
}

impl UnsafeCommandBufferBuilder {
    /// The level that the stream was opened at.
    pub closed spec fn spec_kind(&self) -> Kind {
        self.kind
    }

    /// The submission mode that the stream was opened in.
    pub closed spec fn spec_flags(&self) -> Flags {
        self.flags
    }

    /// The number of commands that the stream has room for.
    pub closed spec fn spec_capacity(&self) -> usize {
        self.capacity
    }

    /// Takes a command buffer from `pool` and opens a stream on it. Fails, and
    /// leaves the pool as it was, if the device is lost or the pool has no
    /// command buffer left.
    pub fn new(pool: &mut CommandPool, kind: Kind, flags: Flags) -> (r: Result<
        UnsafeCommandBufferBuilder,
        StreamError,
    >)
        ensures
            match r {
                Ok(stream) => {
                    &&& old(pool).hands_out(*final(pool))
                    &&& stream@ == Seq::<Command>::empty()
                    &&& stream.spec_kind() == kind
                    &&& stream.spec_flags() == flags
                    &&& stream.spec_capacity() == old(pool).capacity
                },
                Err(error) => old(pool).refusal() == Some(error) && *final(pool) == *old(pool),
            },
    {
        if pool.device_lost {
            return Err(StreamError::DeviceLost);
        }
        if pool.available == 0 {
            return Err(StreamError::PoolExhausted);
        }
        pool.available = pool.available - 1;
        let stream = UnsafeCommandBufferBuilder {
            kind,
            flags,
            capacity: pool.capacity,
            commands: Vec::new(),
        };
        assert(stream@ =~= Seq::<Command>::empty());
        Ok(stream)
    }

    #[verifier::when_used_as_spec(spec_kind)]
    pub fn kind(&self) -> (r: Kind)
        ensures
            r == self.spec_kind(),
    {
        self.kind
    }

    #[verifier::when_used_as_spec(spec_flags)]
    pub fn flags(&self) -> (r: Flags)
        ensures
            r == self.spec_flags(),
    {
        self.flags
    }

    #[verifier::when_used_as_spec(spec_capacity)]
    pub fn capacity(&self) -> (r: usize)
        ensures
            r == self.spec_capacity(),
    {
        self.capacity
    }

    /// What was recorded so far, oldest first.
    pub fn commands(&self) -> (r: &Vec<RawCommand>)
        ensures
            commands_view(r@) == self@,
    {
        &self.commands
    }

    /// Records `operation`.
    pub fn append(&mut self, operation: RawOperation)
        ensures
            final(self)@ == old(self)@.push(Command::Operation(operation@)),
            final(self).spec_kind() == old(self).spec_kind(),
            final(self).spec_flags() == old(self).spec_flags(),
            final(self).spec_capacity() == old(self).spec_capacity(),
    {
        self.commands.push(RawCommand::Operation(operation));
        assert(self@ =~= old(self)@.push(Command::Operation(operation@)));
    }

    /// Records one pipeline barrier that carries all of `batch`.
    pub fn pipeline_barrier(&mut self, batch: PipelineBarrierBuilder)
        ensures
            final(self)@ == old(self)@.push(Command::PipelineBarrier(batch@)),
            final(self).spec_kind() == old(self).spec_kind(),
            final(self).spec_flags() == old(self).spec_flags(),
            final(self).spec_capacity() == old(self).spec_capacity(),
    {
        self.commands.push(RawCommand::PipelineBarrier(batch));
        assert(self@ =~= old(self)@.push(Command::PipelineBarrier(batch@)));
    }

    /// Closes the stream. Fails if more was recorded than the stream has room
    /// for.
    pub fn build(self) -> (r: Result<UnsafeCommandBuffer, StreamError>)
        ensures
            match r {
                Ok(buffer) => {
                    &&& self@.len() <= self.spec_capacity()
                    &&& buffer@ == self@
                    &&& buffer.spec_kind() == self.spec_kind()
                    &&& buffer.spec_flags() == self.spec_flags()
                },
                Err(error) => {
                    &&& self@.len() > self.spec_capacity()
                    &&& error == StreamError::OutOfMemory
                },
            },
    {
        if self.commands.len() > self.capacity {
            return Err(StreamError::OutOfMemory);
        }
        Ok(UnsafeCommandBuffer { kind: self.kind, flags: self.flags, commands: self.commands })
    }
}

impl UnsafeCommandBuffer {
    /// The level of the command buffer.
    pub closed spec fn spec_kind(&self) -> Kind {
        self.kind
    }

    /// The submission mode of the command buffer.
    pub closed spec fn spec_flags(&self) -> Flags {
        self.flags
    }

    #[verifier::when_used_as_spec(spec_kind)]
    pub fn kind(&self) -> (r: Kind)
        ensures
            r == self.spec_kind(),
    {
        self.kind
    }

    #[verifier::when_used_as_spec(spec_flags)]
    pub fn flags(&self) -> (r: Flags)
        ensures
            r == self.spec_flags(),
    {
        self.flags
    }

    /// The commands of the buffer, in the order in which the device runs them.
    pub fn commands(&self) -> (r: &Vec<RawCommand>)
        ensures
            commands_view(r@) == self@,
    {
        &self.commands
    }
}

} // verus!
