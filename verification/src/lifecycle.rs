//! The life of one streamed medium: paused, streaming, destroyed.

use crate::bridge::StreamId;
use vstd::prelude::*;

verus! {

/// A command to the task that owns a streamed medium.
#[derive(Debug, Clone, Copy, PartialEq, Eq, Structural)]
pub enum MediaLifecycle {
    Pause,
    Resume,
    Destroy,
}

/// A call that the task makes on the torrent engine or on the bridge.
#[derive(Debug, Clone, Copy, PartialEq, Eq, Structural)]
pub enum EngineCall {
    /// Pause the torrent.
    Pause,
    /// Unpause the torrent.
    Unpause,
    /// Register the file with the bridge.
    StreamFile,
    /// End the stream with this handle.
    StopStreaming(StreamId),
}

/// What the task knows: the handle of its stream once the file is registered
/// with the bridge, and whether it was destroyed.
#[derive(Debug, Clone, Copy, PartialEq, Eq, Structural)]
pub struct Lifecycle {
    pub stream: Option<StreamId>,
    pub destroyed: bool,
}

/// Which of the two calls of a command failed, if one did.
#[derive(Debug, Clone, Copy, PartialEq, Eq, Structural)]
pub enum Failed {
    /// The first call failed; the second was still made where it was due.
    First,
    /// The first call succeeded or was not due, and the second failed.
    Second,
}

impl Lifecycle {
    /// The call that a command starts with, if any. `Pause` pauses the
    /// torrent. `Resume` registers the file, unless it is registered. `Destroy`
    /// ends the stream, if the file is registered. A destroyed task makes no
    /// call.
    pub open spec fn spec_first_call(self, command: MediaLifecycle) -> Option<EngineCall> {
        if self.destroyed {
            None
        } else {
            match command {
                MediaLifecycle::Pause => Some(EngineCall::Pause),
                MediaLifecycle::Resume => if self.stream is None {
                    Some(EngineCall::StreamFile)
                } else {
                    None
                },
                MediaLifecycle::Destroy => match self.stream {
                    Some(id) => Some(EngineCall::StopStreaming(id)),
                    None => None,
                },
            }
        }
    }

    /// The call that follows the first, if any: `Resume` unpauses the torrent
    /// where it is paused, whether or not the registration succeeded.
    pub open spec fn spec_second_call(self, command: MediaLifecycle, paused: bool) -> Option<
        EngineCall,
    > {
        if !self.destroyed && command == MediaLifecycle::Resume && paused {
            Some(EngineCall::Unpause)
        } else {
            None
        }
    }

    /// The state after a command whose first call gave `registered`: the
    /// handle of the new stream where the call was a registration that
    /// succeeded. `Destroy` ends the task.
    pub open spec fn spec_after(self, command: MediaLifecycle, registered: Option<StreamId>) -> Lifecycle {
        if self.destroyed {
            self
        } else {
            match command {
                MediaLifecycle::Pause => self,
                MediaLifecycle::Resume => if self.stream is None {
                    Lifecycle { stream: registered, destroyed: false }
                } else {
                    self
                },
                MediaLifecycle::Destroy => Lifecycle { stream: self.stream, destroyed: true },
            }
        }
    }

    /// A task that has registered nothing.
    pub fn new() -> (l: Lifecycle)
        ensures
            l.stream is None,
            !l.destroyed,
    {
        Lifecycle { stream: None, destroyed: false }
    }

    /// The call that a command starts with.
    pub fn first_call(&self, command: MediaLifecycle) -> (c: Option<EngineCall>)
        ensures
            c == self.spec_first_call(command),
    {
        if self.destroyed {
            return None;
        }
        match command {
            MediaLifecycle::Pause => Some(EngineCall::Pause),
            MediaLifecycle::Resume => match self.stream {
                None => Some(EngineCall::StreamFile),
                Some(_) => None,
            },
            MediaLifecycle::Destroy => match self.stream {
                Some(id) => Some(EngineCall::StopStreaming(id)),
                None => None,
            },
        }
    }

    /// The call that follows the first.
    pub fn second_call(&self, command: MediaLifecycle, paused: bool) -> (c: Option<EngineCall>)
        ensures
            c == self.spec_second_call(command, paused),
    {
        match command {
            MediaLifecycle::Resume => if !self.destroyed && paused {
                Some(EngineCall::Unpause)
            } else {
                None
            },
            _ => None,
        }
    }

    /// Takes note of what the first call of a command gave.
    pub fn advance(&mut self, command: MediaLifecycle, registered: Option<StreamId>)
        ensures
            *final(self) == old(self).spec_after(command, registered),
    {
        if self.destroyed {
            return ;
        }
        match command {
            MediaLifecycle::Pause => {},
            MediaLifecycle::Resume => {
                if self.stream.is_none() {
                    self.stream = registered;
                }
            },
            MediaLifecycle::Destroy => {
                self.destroyed = true;
            },
        }
    }

    /// Whether the task has ended.
    pub fn is_terminal(&self) -> (b: bool)
        ensures
            b == self.destroyed,
    {
        self.destroyed
    }

    /// What a command reports: the failure of its first call, else that of its
    /// second, else success.
    pub fn outcome(first_ok: bool, second_ok: bool) -> (r: Result<(), Failed>)
        ensures
            r == if !first_ok {
                Err::<(), Failed>(Failed::First)
            } else if !second_ok {
                Err::<(), Failed>(Failed::Second)
            } else {
                Ok::<(), Failed>(())
            },
    {
        if !first_ok {
            Err(Failed::First)
        } else if !second_ok {
            Err(Failed::Second)
        } else {
            Ok(())
        }
    }
}

/// Of two `Resume` commands in a row, the second registers nothing where the
/// first registered the file: a task registers one stream at most until it is
/// destroyed.
pub proof fn lemma_resume_registers_once(state: Lifecycle, id: StreamId)
    requires
        !state.destroyed,
    ensures
        state.spec_after(MediaLifecycle::Resume, Some(id)).spec_first_call(MediaLifecycle::Resume)
            is None,
        state.spec_after(MediaLifecycle::Resume, Some(id)).stream is Some,
        state.stream is Some ==> state.spec_after(MediaLifecycle::Resume, Some(id)) == state,
{
}

/// `Pause` and `Resume` never end the task, and nothing follows `Destroy`.
pub proof fn lemma_destroy_is_terminal(state: Lifecycle, command: MediaLifecycle, id: Option<StreamId>)
    ensures
        state.spec_after(MediaLifecycle::Destroy, id).destroyed,
        command != MediaLifecycle::Destroy ==> state.spec_after(command, id).destroyed
            == state.destroyed,
        state.destroyed ==> state.spec_first_call(command) is None && state.spec_second_call(
            command,
            true,
        ) is None && state.spec_after(command, id) == state,
{
}

} // verus!
