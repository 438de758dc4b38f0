//! What can be relied on of the limits on requests, and of the time that a process is given to
//! end.

use vstd::prelude::*;

use crate::agent::StopPlan;
use crate::rate_limit::{
    admits, after_request, after_requests, bucket_ok, forward, limit_of, retry_secs, BucketView,
};
use crate::stop::{
    fresh_stop, stop_answers, stop_course, stop_fits, stop_step, StopEvent, StopMoment, StopPhase,
    StopStep,
};
use crate::text::decimal_of;

verus! {

/// What a request finds in the bucket: what was there, and what has come in since, up to what the
/// bucket holds. It is let through exactly if that is a token or more, and then takes one; one
/// that is turned away takes nothing.
pub proof fn lemma_a_request_takes_one_token(b: BucketView, now: u64)
    requires
        bucket_ok(b),
        now >= b.last,
    ensures
        ({
            let c = after_request(b, now);
            let most = b.burst * 1_000_000_000;
            let come = b.tokens + (now - b.last) * b.rate;
            let there = if come < most {
                come
            } else {
                most
            };
            &&& admits(b, now) <==> there >= 1_000_000_000_000_000_000
            &&& admits(b, now) ==> c.tokens == there - 1_000_000_000_000_000_000
            &&& !admits(b, now) ==> c.tokens == there
            &&& c.last == now && c.rate == b.rate && c.burst == b.burst
        }),
{
}

/// A clock that goes back brings nothing in.
pub proof fn lemma_nothing_comes_in_backwards(b: BucketView, now: u64)
    requires
        bucket_ok(b),
        now < b.last,
    ensures
        admits(b, now) <==> b.tokens >= 1_000_000_000_000_000_000,
        after_request(b, now).tokens == if admits(b, now) {
            b.tokens - 1_000_000_000_000_000_000
        } else {
            b.tokens
        },
        after_request(b, now).last == now,
{
}

/// Of requests that come all at once to a full bucket, exactly as many are let through as it
/// holds whole tokens.
pub proof fn lemma_burst(b: BucketView, times: Seq<u64>)
    requires
        b.tokens == b.burst * 1_000_000_000,
        forall|i: int| 0 <= i < times.len() ==> #[trigger] times[i] == b.last,
    ensures
        ({
            let whole = b.burst as int / 1_000_000_000;
            let (c, n) = after_requests(b, times);
            &&& n == if times.len() <= whole {
                times.len() as int
            } else {
                whole
            }
            &&& c.tokens == b.tokens - n * 1_000_000_000_000_000_000
            &&& c.last == b.last && c.rate == b.rate && c.burst == b.burst
        }),
    decreases times.len(),
{
    if times.len() > 0 {
        let front = times.drop_last();
        assert forall|i: int| 0 <= i < front.len() implies #[trigger] front[i] == b.last by {
            assert(front[i] == times[i]);
        }
        assert(times[times.len() - 1] == b.last);
        lemma_burst(b, front);
        let (c, n) = after_requests(b, front);
        assert((b.last - c.last) * c.rate == 0) by (nonlinear_arith)
            requires
                b.last == c.last,
        ;
    }
}

/// Requests that come no faster than tokens do are all let through, once there is a token.
pub proof fn lemma_patient_requests_pass(b: BucketView, times: Seq<u64>)
    requires
        bucket_ok(b),
        b.burst >= 1_000_000_000,
        b.tokens >= 1_000_000_000_000_000_000,
        forward(b.last, times),
        forall|i: int|
            0 < i < times.len() ==> (#[trigger] times[i] - times[i - 1]) * b.rate
                >= 1_000_000_000_000_000_000,
    ensures
        after_requests(b, times).1 == times.len(),
        bucket_ok(after_requests(b, times).0),
    decreases times.len(),
{
    if times.len() > 0 {
        let front = times.drop_last();
        let t = times.last();
        assert(forward(b.last, front));
        assert forall|i: int| 0 < i < front.len() implies (#[trigger] front[i] - front[i - 1])
            * b.rate >= 1_000_000_000_000_000_000 by {
            assert((times[i] - times[i - 1]) * b.rate >= 1_000_000_000_000_000_000);
        }
        lemma_patient_requests_pass(b, front);
        crate::rate_limit::lemma_rate_is_bounded(b, front);
        let c = after_requests(b, front).0;
        if front.len() == 0 {
            assert(c == b);
            assert((t - b.last) * b.rate >= 0) by (nonlinear_arith)
                requires
                    t >= b.last,
            ;
        } else {
            let n = times.len() - 1;
            assert(c.last == times[n - 1]);
            assert((times[n] - times[n - 1]) * b.rate >= 1_000_000_000_000_000_000);
        }
    }
}

/// Who is turned away is told the least number of whole seconds in which enough comes in for one
/// request; where nothing ever comes in, the greatest number.
pub proof fn lemma_told_when_to_come_back(b: BucketView)
    requires
        bucket_ok(b),
        b.tokens < 1_000_000_000_000_000_000,
    ensures
        b.rate == 0 ==> retry_secs(b) == u64::MAX,
        b.rate > 0 ==> {
            &&& retry_secs(b) >= 1
            &&& b.tokens + retry_secs(b) * b.rate * 1_000_000_000 >= 1_000_000_000_000_000_000
            &&& b.tokens + (retry_secs(b) - 1) * b.rate * 1_000_000_000 < 1_000_000_000_000_000_000
        },
{
    if b.rate > 0 {
        let per = b.rate * 1_000_000_000;
        let missing = 1_000_000_000_000_000_000 - b.tokens;
        let secs = retry_secs(b);
        assert(secs * per >= missing && (secs - 1) * per < missing && secs >= 1)
            by (nonlinear_arith)
            requires
                secs == (missing + per - 1) / per,
                per >= 1,
                missing >= 1,
        ;
        assert(secs * b.rate * 1_000_000_000 == secs * per) by (nonlinear_arith)
            requires
                per == b.rate * 1_000_000_000,
        ;
        assert((secs - 1) * b.rate * 1_000_000_000 == (secs - 1) * per) by (nonlinear_arith)
            requires
                per == b.rate * 1_000_000_000,
        ;
    }
}

/// A limit is what the setting says, where that is a number above 0 that fits; without a setting,
/// with 0, and with one that holds anything but digits behind one `+`, it is the default.
pub proof fn lemma_limit_as_set(setting: &str, n: nat, default: usize)
    ensures
        limit_of(None, default) == default,
        setting@ == decimal_of(n) && 0 < n <= usize::MAX ==> limit_of(Some(setting), default) == n,
        setting@ == decimal_of(n) && (n == 0 || n > usize::MAX) ==> limit_of(
            Some(setting),
            default,
        ) == default,
        setting@.len() == 0 ==> limit_of(Some(setting), default) == default,
        (exists|i: int|
            0 <= i < setting@.len() && !('0' <= #[trigger] setting@[i] && setting@[i] <= '9') && !(i
                == 0 && setting@[i] == '+')) ==> limit_of(Some(setting), default) == default,
{
    if setting@ == decimal_of(n) {
        crate::laws::texts::lemma_number_reads_back(n, usize::MAX as int);
    }
    if exists|i: int|
        0 <= i < setting@.len() && !('0' <= #[trigger] setting@[i] && setting@[i] <= '9') && !(i
            == 0 && setting@[i] == '+') {
        let i = choose|i: int|
            0 <= i < setting@.len() && !('0' <= #[trigger] setting@[i] && setting@[i] <= '9') && !(i
                == 0 && setting@[i] == '+');
        crate::laws::texts::lemma_no_number(setting@, i, usize::MAX as int);
    }
}

/// A process that is to end is asked first. It then has the whole of the time that it is given,
/// counted from when it was asked, and is waited for no longer than what is left of it. Where it
/// ends meanwhile nothing more is done; where it has not ended when the time is up, and only then,
/// it is killed, and then nothing more is done.
pub proof fn lemma_time_to_end(plan: StopPlan, course: Seq<StopMoment>)
    requires
        plan.child is Some,
        stop_fits(fresh_stop(plan), course),
    ensures
        ({
            let child = plan.child->0;
            let v = stop_course(fresh_stop(plan), course);
            let last = course.last();
            let up = course[0].now + plan.timeout_secs * 1_000_000_000;
            &&& course.len() == 0 ==> v.phase == StopPhase::Asking && forall|now: u64|
                stop_step(v, now) == StopStep::Ask(child)
            &&& course.len() > 0 ==> course[0].event == StopEvent::Asked
            &&& course.len() > 0 ==> stop_step(v, last.now) == match last.event {
                StopEvent::Asked => StopStep::Wait {
                    child,
                    nanos: (plan.timeout_secs * 1_000_000_000) as u128,
                },
                StopEvent::Waited(true) => StopStep::Finished,
                StopEvent::Waited(false) => if last.now >= up {
                    StopStep::Kill(child)
                } else {
                    StopStep::Wait { child, nanos: (up - last.now) as u128 }
                },
                StopEvent::Killed => StopStep::Finished,
            }
        }),
    decreases course.len(),
{
    if course.len() > 0 {
        let front = course.drop_last();
        crate::stop::lemma_killed_only_after_the_wait(plan, front, 0);
        lemma_time_to_end(plan, front);
        if front.len() > 0 {
            assert(front[0] == course[0]);
        } else {
            assert(stop_course(fresh_stop(plan), front) == fresh_stop(plan));
        }
    }
}

/// Without a process there is nothing to end.
pub proof fn lemma_nothing_to_end(plan: StopPlan, event: StopEvent, now: u64)
    requires
        plan.child is None,
    ensures
        stop_step(fresh_stop(plan), now) == StopStep::Finished,
        !stop_answers(fresh_stop(plan).phase, event),
{
}

} // verus!
