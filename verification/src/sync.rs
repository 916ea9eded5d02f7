//! How a client gets in step with the compositor: the globals, then the objects that
//! they announce, then the cosmic extensions of those objects, then what the extensions
//! have to say, until the compositor is done or the time is up.

use vstd::prelude::*;

verus! {

/// How long a connection waits for the extensions, in milliseconds.
pub const CONNECT_WAIT_MS: u64 = 800;

/// How long a dump waits for the extensions, in milliseconds.
pub const DUMP_WAIT_MS: u64 = 500;

/// What to do next.
#[derive(Debug, Clone, Copy, PartialEq, Eq, Structural)]
pub enum SyncStep {
    /// a round trip that brings the globals
    Globals,
    /// a round trip that brings outputs, windows and workspaces
    Objects,
    /// ask for the cosmic extension of each window and workspace
    Extensions,
    /// read what the extensions answer
    Replies,
    /// the state is complete
    Ready,
}

/// Whether there is still something to wait for.
pub open spec fn waiting(waited_ms: u64, limit_ms: u64, done: bool) -> bool {
    waited_ms < limit_ms && !done
}

/// The step that comes after a step.
pub open spec fn step_after(step: SyncStep, waited_ms: u64, limit_ms: u64, done: bool) -> SyncStep {
    match step {
        SyncStep::Globals => SyncStep::Objects,
        SyncStep::Objects => SyncStep::Extensions,
        SyncStep::Extensions | SyncStep::Replies => if waiting(waited_ms, limit_ms, done) {
            SyncStep::Replies
        } else {
            SyncStep::Ready
        },
        SyncStep::Ready => SyncStep::Ready,
    }
}

/// Goes on to the next step. `waited_ms` is the time since the extensions were asked
/// for, `done` whether the compositor has told all that it has to tell of the windows.
pub fn next_step(step: SyncStep, waited_ms: u64, limit_ms: u64, done: bool) -> (r: SyncStep)
    ensures
        r == step_after(step, waited_ms, limit_ms, done),
{
    match step {
        SyncStep::Globals => SyncStep::Objects,
        SyncStep::Objects => SyncStep::Extensions,
        SyncStep::Extensions | SyncStep::Replies => {
            if waited_ms < limit_ms && !done {
                SyncStep::Replies
            } else {
                SyncStep::Ready
            }
        },
        SyncStep::Ready => SyncStep::Ready,
    }
}

/// The step after the first `n` ones, when before going on from step number `i` the time
/// waited is `waited(i)` and the compositor is done if `done(i)` says so.
pub open spec fn step_at(
    n: nat,
    limit_ms: u64,
    waited: spec_fn(int) -> u64,
    done: spec_fn(int) -> bool,
) -> SyncStep
    decreases n,
{
    if n == 0 {
        SyncStep::Globals
    } else {
        step_after(
            step_at((n - 1) as nat, limit_ms, waited, done),
            waited(n - 1),
            limit_ms,
            done(n - 1),
        )
    }
}

/// Whatever the clock and the compositor do, two round trips come first and then the
/// request for the extensions; after that there are only replies, and then the end.
pub proof fn steps_come_in_order(
    n: nat,
    limit_ms: u64,
    waited: spec_fn(int) -> u64,
    done: spec_fn(int) -> bool,
)
    ensures
        n == 0 ==> step_at(n, limit_ms, waited, done) == SyncStep::Globals,
        n == 1 ==> step_at(n, limit_ms, waited, done) == SyncStep::Objects,
        n == 2 ==> step_at(n, limit_ms, waited, done) == SyncStep::Extensions,
        n > 2 ==> {
            ||| step_at(n, limit_ms, waited, done) == SyncStep::Replies
            ||| step_at(n, limit_ms, waited, done) == SyncStep::Ready
        },
    decreases n,
{
    if n > 0 {
        steps_come_in_order((n - 1) as nat, limit_ms, waited, done);
    }
}

/// The client is ready after step number `n` exactly when, at that step or at an earlier
/// one from the request for the extensions on, the compositor was done or the time was
/// up. So it stops as soon as that happens, and not before.
pub proof fn ready_once_nothing_is_awaited(
    n: nat,
    limit_ms: u64,
    waited: spec_fn(int) -> u64,
    done: spec_fn(int) -> bool,
)
    requires
        n > 2,
    ensures
        step_at(n, limit_ms, waited, done) == SyncStep::Ready <==> exists|i: int|
            2 <= i < n && !waiting(#[trigger] waited(i), limit_ms, done(i)),
    decreases n,
{
    steps_come_in_order((n - 1) as nat, limit_ms, waited, done);
    if n > 3 {
        ready_once_nothing_is_awaited((n - 1) as nat, limit_ms, waited, done);
        assert(waiting(waited(n - 1), limit_ms, done(n - 1)) || !waiting(
            waited(n - 1),
            limit_ms,
            done(n - 1),
        ));
    } else {
        assert(waiting(waited(2), limit_ms, done(2)) || !waiting(waited(2), limit_ms, done(2)));
    }
}

/// Once the extensions were asked for, replies are read as long as the time is not up and the
/// compositor is not done, and not longer; the client then stays ready. Before that, neither the
/// time nor the compositor matters.
pub proof fn only_time_and_the_compositor_end_the_wait(waited_ms: u64, limit_ms: u64, done: bool)
    ensures
        step_after(SyncStep::Globals, waited_ms, limit_ms, done) == SyncStep::Objects,
        step_after(SyncStep::Objects, waited_ms, limit_ms, done) == SyncStep::Extensions,
        waited_ms < limit_ms && !done ==> {
            &&& step_after(SyncStep::Extensions, waited_ms, limit_ms, done) == SyncStep::Replies
            &&& step_after(SyncStep::Replies, waited_ms, limit_ms, done) == SyncStep::Replies
        },
        waited_ms >= limit_ms || done ==> {
            &&& step_after(SyncStep::Extensions, waited_ms, limit_ms, done) == SyncStep::Ready
            &&& step_after(SyncStep::Replies, waited_ms, limit_ms, done) == SyncStep::Ready
        },
        step_after(SyncStep::Ready, waited_ms, limit_ms, done) == SyncStep::Ready,
{
}

} // verus!
