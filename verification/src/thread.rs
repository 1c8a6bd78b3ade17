//! The run loop of a service thread: its status, the hooks that a service
//! implements, and what one turn of the loop does for each status.
use vstd::prelude::*;

verus! {

/// The period of the run loop, in milliseconds.
pub const LOOP_PERIOD: u64 = 100;

/// Thread status
#[derive(Clone, Copy, Debug, PartialEq, Eq, Structural)]
pub enum ThreadStatus {
    /// Event loop is running
    Running,
    /// Event loop has been killed
    Stop,
    /// Event loop is on-hold
    Pause,
}

/// Thread information trait
pub trait ThreadInfo {
    /// The status that the thread is in.  This is a statement about the
    /// context, for the contracts; nothing runs it.
    spec fn current_status(&self) -> ThreadStatus;

    /// get status
    fn status(&self) -> (r: ThreadStatus)
        ensures
            r == self.current_status();

    /// set status
    fn set_status(&mut self, status: ThreadStatus)
        ensures
            final(self).current_status() == status;

    /// thread name
    fn thread_name(&self) -> String;

    /// time to sleep until next run
    fn thread_update_time_span(&self) -> u64;
}

/// Thread executor trait
pub trait ThreadExec {
    /// Called before a run loop
    fn prepare(&mut self);

    /// Called at begin of the loop
    fn pre_exec(&mut self);

    /// Exec
    fn exec(&mut self) -> bool;

    /// Called at end of the loop
    fn post_exec(&mut self);

    /// Called after a run loop
    fn end(&mut self);
}

/// Thread service trait: starting, pausing and stopping the run loop of a
/// context.  Launching the thread that runs it is left to the caller.
pub trait ThreadService: ThreadInfo {
    /// Start the run loop
    fn start(&mut self)
        ensures
            final(self).current_status() == ThreadStatus::Running,
    {
        self.set_status(ThreadStatus::Running);
    }

    /// Pause the run loop
    fn pause(&mut self)
        ensures
            final(self).current_status() == ThreadStatus::Pause,
    {
        self.set_status(ThreadStatus::Pause);
    }

    /// Break the run loop
    fn stop(&mut self)
        ensures
            final(self).current_status() == ThreadStatus::Stop,
    {
        self.set_status(ThreadStatus::Stop);
    }
}

impl<T: ThreadInfo> ThreadService for T {
}

/// What one turn of the run loop does.
#[derive(Clone, Copy, Debug, PartialEq, Eq, Structural)]
pub enum LoopStep {
    /// Run `pre_exec`, `exec` and `post_exec`, then sleep for the time span.
    Execute,
    /// Sleep for the pause period, then for the time span.
    Idle,
    /// Leave the loop.
    Exit,
}

/// The turn that the run loop takes for a status: a running thread
/// executes, a paused one idles, a stopped one leaves the loop.
pub fn loop_step(status: ThreadStatus) -> (r: LoopStep)
    ensures
        status == ThreadStatus::Running <==> r == LoopStep::Execute,
        status == ThreadStatus::Pause <==> r == LoopStep::Idle,
        status == ThreadStatus::Stop <==> r == LoopStep::Exit,
{
    match status {
        ThreadStatus::Running => LoopStep::Execute,
        ThreadStatus::Pause => LoopStep::Idle,
        ThreadStatus::Stop => LoopStep::Exit,
    }
}

} // verus!
