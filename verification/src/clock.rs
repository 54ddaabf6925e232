//! The laws of the clock: when a timer fires.
use vstd::prelude::*;
use crate::engine::{Completion, EngineView, Frame, TimerEntry};
use crate::frames::{on_timer_end, on_timer_next, on_timers};
use crate::laws::law_earliest_timer;
use crate::meaning::{calm, leads, on};
use crate::nth::next;
use crate::value::Value;

verus! {

/// A timer waits behind those that are set, under a number of its own, until the clock
/// has gone on by its delay: its deadline is that much later than the present. Nothing
/// else changes.
pub proof fn law_deadlines(s: EngineView, callback: Value, list: usize, delay: u64, repeat: Option<u64>)
    ensures
        ({
            let (t, id) = s.set_timer(callback, list, delay, repeat);
            let set = t.timers.last();
            &&& t.timers.len() == s.timers.len() + 1
            &&& t.timers.drop_last() == s.timers
            &&& set.id == id
            &&& set.callback == callback
            &&& set.args == list
            &&& set.repeat == repeat
            &&& s.now + delay <= u64::MAX ==> set.deadline - delay == s.now
            &&& s.now + delay > u64::MAX ==> set.deadline == u64::MAX
            &&& t.now == s.now
            &&& t.jobs == s.jobs
            &&& t.frames == s.frames
            &&& t.store == s.store
            &&& s.next_timer < u64::MAX ==> t.next_timer > id
        }),
{
    let (t, id) = s.set_timer(callback, list, delay, repeat);
    assert(t.timers.drop_last() =~= s.timers);
}

/// A timer that was set with a delay is not run before the clock has reached the time
/// at which it was set plus the delay, whatever happens to the clock and the other
/// timers meanwhile.
pub proof fn law_never_early<'a>(s: EngineView<'a>, callback: Value, list: usize, delay: u64, repeat: Option<u64>, u: EngineView<'a>, k: Seq<Frame<'a>>, ran: usize, limit: usize)
    requires
        calm(u),
        ran < limit,
        s.now + delay <= u64::MAX,
        u.pop_timer().1 == Some(s.set_timer(callback, list, delay, repeat).0.timers.last()),
        !u.cancelled.contains(s.next_timer),
    ensures
        exists|w: EngineView<'a>| #[trigger] leads(on(u, k).push(Frame::Timers(ran, limit)), w) && w.now >= s.now + delay && w.now >= u.now && (w.now == u.now || w.now == s.now + delay)
            && w.frames.last() == (Frame::Call { func: callback, this: Value::Undefined, list }),
{
    let t = s.set_timer(callback, list, delay, repeat).0.timers.last();
    on_timers(u, k, ran, limit);
    let w = on(u, k).drain_timers(ran, limit);
    assert(on(u, k).pop_timer().1 == Some(t));
    assert(w.frames.last() == Frame::Call { func: callback, this: Value::Undefined, list });
}

/// A repeating timer is due again one interval after its callback and the jobs behind
/// it have run; one that does not repeat is gone. Both keep their number.
pub proof fn law_repetition<'a>(s: EngineView<'a>, k: Seq<Frame<'a>>, t: TimerEntry, ran: usize, limit: usize) -> (w: EngineView<'a>)
    requires
        calm(s),
        !s.cancelled.contains(t.id),
    ensures
        leads(on(s, k).push(Frame::TimerNext(t, ran, limit)), w),
        w.frames == k.push(Frame::Timers(ran, limit)),
        w.now == s.now,
        t.repeat is None ==> w.timers == s.timers,
        t.repeat matches Some(d) ==> {
            &&& w.timers.len() == s.timers.len() + 1
            &&& w.timers.drop_last() == s.timers
            &&& w.timers.last().id == t.id
            &&& w.timers.last().callback == t.callback
            &&& w.timers.last().args == t.args
            &&& w.timers.last().repeat == Some(d)
            &&& s.now + d <= u64::MAX ==> w.timers.last().deadline - d == s.now
        },
{
    on_timer_next(s, k, t, ran, limit);
    let w = on(s, k).timer_next(t, ran, limit);
    if t.repeat is Some {
        assert(w.timers.drop_last() =~= s.timers);
    }
    w
}

/// After the callback of a timer the jobs run, before the timer is set again and
/// before any other fires.
pub proof fn law_jobs_after_timers<'a>(s: EngineView<'a>, k: Seq<Frame<'a>>, t: TimerEntry, ran: usize, limit: usize) -> (w: EngineView<'a>)
    requires
        s.ready(),
    ensures
        leads(on(s, k).push(Frame::TimerEnd(t, ran, limit)), w),
        w.frames == k.push(Frame::TimerNext(t, ran, limit)).push(Frame::Drain(0)),
        w.acc == Completion::Normal(None),
        s.acc is Normal ==> w.unhandled == s.unhandled,
        s.acc matches Completion::Throw(e) ==> w.unhandled == s.unhandled.push(e),
        w.timers == s.timers,
        w.now == s.now,
{
    on_timer_end(s, k, t, ran, limit);
    on(s, k).timer_end(t, ran, limit)
}

/// The timer that fires next has the earliest deadline; of timers with one deadline the
/// one with the lower number fires, which was set first.
pub proof fn law_firing_order<'a>(s: EngineView<'a>, k: int)
    requires
        0 <= k < s.timers.len(),
    ensures
        s.pop_timer().1 matches Some(t) && t.deadline <= s.timers[k].deadline && (t.deadline == s.timers[k].deadline ==> t.id <= s.timers[k].id),
{
    law_earliest_timer(s, k);
}

} // verus!
