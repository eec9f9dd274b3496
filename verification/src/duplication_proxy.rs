//! The stand-in for a desktop duplication instance.
//!
//! The capturing program holds a proxy in place of the real instance. Every call on the proxy is
//! carried out at once by a call on the real instance; when that one turns out to be dead it is
//! given up and replaced on the spot, and the program is told that no frame has arrived yet.
//!
//! A call of `AcquireNextFrame` is a short dialogue: [`DuplicationProxy::begin_acquire`] opens
//! it, each [`AcquireStep`] names the call to make on the system, and its outcome goes to the
//! method for that step until a step says what to return.
use vstd::prelude::*;

use crate::dxgi::{
    is_access_loss, is_loss, ACCESS_DENIED, ACCESS_LOST, INVALID_CALL, NULL_POINTER, WAIT_TIMEOUT,
};
use crate::recovery::Rebuilt;
use crate::state::DuplicationSource;

verus! {

/// How often each thing happened to `AcquireNextFrame` since the last report.
#[derive(Debug, Clone, Copy, PartialEq, Eq, Structural)]
pub struct Stats {
    /// Calls by the capturing program.
    pub calls: u64,
    /// Calls that returned a frame.
    pub hits: u64,
    /// Calls that found no frame.
    pub timeouts: u64,
    /// Instances replaced.
    pub recoveries: u64,
    /// Replacements that failed.
    pub recovery_failures: u64,
    /// The time-out that the last call asked for, in milliseconds.
    pub last_timeout_ms: u64,
}

impl Stats {
    /// After one more call with the time-out `timeout_ms`.
    pub open spec fn called(self, timeout_ms: u32) -> Stats {
        Stats {
            calls: self.calls.wrapping_add(1),
            last_timeout_ms: timeout_ms as u64,
            ..self
        }
    }

    /// After one more frame.
    pub open spec fn hit(self) -> Stats {
        Stats { hits: self.hits.wrapping_add(1), ..self }
    }

    /// After one more time-out.
    pub open spec fn timed_out(self) -> Stats {
        Stats { timeouts: self.timeouts.wrapping_add(1), ..self }
    }

    /// After one more attempt to recover.
    pub open spec fn recovered(self, success: bool) -> Stats {
        if success {
            Stats { recoveries: self.recoveries.wrapping_add(1), ..self }
        } else {
            Stats { recovery_failures: self.recovery_failures.wrapping_add(1), ..self }
        }
    }

    /// At the beginning of a new reporting period.
    pub open spec fn cleared(self) -> Stats {
        Stats {
            calls: 0,
            hits: 0,
            timeouts: 0,
            recoveries: 0,
            recovery_failures: 0,
            last_timeout_ms: self.last_timeout_ms,
        }
    }
}

/// What the capturing program is told by `AcquireNextFrame`.
#[derive(Debug, Clone, Copy, PartialEq, Eq, Structural)]
pub enum AcquireReply {
    /// Here is a frame.
    Frame,
    /// There is one, but no place was given to put it.
    NoPlace,
    /// There is none, for this reason.
    Error(i32),
}

impl AcquireReply {
    /// The result code of the reply.
    pub open spec fn code(self) -> i32 {
        match self {
            AcquireReply::Frame => 0,
            AcquireReply::NoPlace => NULL_POINTER,
            AcquireReply::Error(code) => code,
        }
    }

    /// Gives the result code of the reply.
    pub fn result_code(&self) -> (code: i32)
        ensures
            code == self.code(),
    {
        match self {
            AcquireReply::Frame => 0,
            AcquireReply::NoPlace => NULL_POINTER,
            AcquireReply::Error(code) => *code,
        }
    }
}

/// What has to be done next for a call of `AcquireNextFrame`.
#[derive(Debug, Clone, Copy, PartialEq, Eq, Structural)]
pub enum AcquireStep {
    /// Ask for a replacement of the instance.
    Recover,
    /// Ask this instance for its next frame.
    Acquire { instance: u64 },
    /// Return to the capturing program.
    Return(AcquireReply),
}

/// Whether `last` describes the same call as `source`.
pub open spec fn is_source(last: Option<DuplicationSource>, source: DuplicationSource) -> bool {
    last matches Some(known) && known.same(source)
}

/// A proxy for one duplication instance.
#[derive(Debug)]
pub struct DuplicationProxy {
    /// The real instance; nothing while it could not be replaced.
    pub real: Option<u64>,
    /// The instance that the frame which the capturing program holds came from.
    pub locked_frame_owner: Option<u64>,
    /// How the real instance was made.
    pub source: DuplicationSource,
    /// What happened since the last report.
    pub stats: Stats,
}

impl DuplicationProxy {
    /// A proxy for `instance`, which was just made as `source` says. What is known of the last
    /// good duplication, `last`, is replaced.
    pub fn wrap_duplication(
        instance: u64,
        source: DuplicationSource,
        last: &mut Option<DuplicationSource>,
    ) -> (proxy: DuplicationProxy)
        ensures
            is_source(*final(last), source),
            proxy.real == Some(instance),
            proxy.locked_frame_owner is None,
            proxy.source == source,
            proxy.stats == (Stats {
                calls: 0,
                hits: 0,
                timeouts: 0,
                recoveries: 0,
                recovery_failures: 0,
                last_timeout_ms: 0,
            }),
    {
        *last = Some(source.copy());
        DuplicationProxy {
            real: Some(instance),
            locked_frame_owner: None,
            source,
            stats: Stats {
                calls: 0,
                hits: 0,
                timeouts: 0,
                recoveries: 0,
                recovery_failures: 0,
                last_timeout_ms: 0,
            },
        }
    }

    /// Whether the proxy still refers to an instance; one that it does not is to be released.
    pub open spec fn refers_to(self, instance: u64) -> bool {
        self.real == Some(instance) || self.locked_frame_owner == Some(instance)
    }

    /// Tells whether the proxy still refers to an instance.
    pub fn is_live(&self, instance: u64) -> (live: bool)
        ensures
            live == self.refers_to(instance),
    {
        let is_real = match self.real {
            Some(id) => id == instance,
            None => false,
        };
        let is_owner = match self.locked_frame_owner {
            Some(id) => id == instance,
            None => false,
        };
        is_real || is_owner
    }

    /// The proxy after an attempt to recover.
    pub open spec fn after_recovery(self, outcome: Result<Rebuilt, i32>) -> DuplicationProxy {
        match outcome {
            Ok(rebuilt) => DuplicationProxy {
                real: Some(rebuilt.duplication),
                source: rebuilt.source,
                stats: self.stats.recovered(true),
                ..self
            },
            Err(_) => DuplicationProxy { stats: self.stats.recovered(false), ..self },
        }
    }

    fn note_recovery(
        &mut self,
        outcome: Result<Rebuilt, i32>,
        last: &mut Option<DuplicationSource>,
    )
        ensures
            *final(self) == old(self).after_recovery(outcome),
            outcome matches Ok(rebuilt) ==> is_source(*final(last), rebuilt.source),
            outcome is Err ==> *final(last) == *old(last),
    {
        match outcome {
            Ok(rebuilt) => {
                *last = Some(rebuilt.source.copy());
                self.stats.recoveries = self.stats.recoveries.wrapping_add(1);
                self.source = rebuilt.source;
                self.real = Some(rebuilt.duplication);
            },
            Err(_) => {
                self.stats.recovery_failures = self.stats.recovery_failures.wrapping_add(1);
            },
        }
    }

    /// The proxy when a call begins, and its first step: a missing instance is replaced first.
    pub open spec fn begun(self, timeout_ms: u32) -> (DuplicationProxy, AcquireStep) {
        (
            DuplicationProxy { stats: self.stats.called(timeout_ms), ..self },
            match self.real {
                Some(instance) => AcquireStep::Acquire { instance },
                None => AcquireStep::Recover,
            },
        )
    }

    /// Opens a call of `AcquireNextFrame` with the time-out `timeout_ms`.
    pub fn begin_acquire(&mut self, timeout_ms: u32) -> (step: AcquireStep)
        ensures
            (*final(self), step) == old(self).begun(timeout_ms),
    {
        self.stats.calls = self.stats.calls.wrapping_add(1);
        self.stats.last_timeout_ms = timeout_ms as u64;
        match self.real {
            Some(instance) => AcquireStep::Acquire { instance },
            None => AcquireStep::Recover,
        }
    }

    /// The proxy after the replacement of an instance that was missing when the call began: a new
    /// one is asked for its frame at once, without one there is no frame yet.
    pub open spec fn retried(self, outcome: Result<Rebuilt, i32>) -> (
        DuplicationProxy,
        AcquireStep,
    ) {
        let after = self.after_recovery(outcome);
        match outcome {
            Ok(rebuilt) => (after, AcquireStep::Acquire { instance: rebuilt.duplication }),
            Err(_) => (
                DuplicationProxy { stats: after.stats.timed_out(), ..after },
                AcquireStep::Return(AcquireReply::Error(WAIT_TIMEOUT)),
            ),
        }
    }

    /// Takes the outcome of a recovery at the beginning of a call.
    pub fn recovered_before_acquire(
        &mut self,
        outcome: Result<Rebuilt, i32>,
        last: &mut Option<DuplicationSource>,
    ) -> (step: AcquireStep)
        requires
            old(self).real is None,
        ensures
            (*final(self), step) == old(self).retried(outcome),
            outcome matches Ok(rebuilt) ==> is_source(*final(last), rebuilt.source),
            outcome is Err ==> *final(last) == *old(last),
    {
        self.note_recovery(outcome, last);
        match self.real {
            Some(instance) => AcquireStep::Acquire { instance },
            None => {
                self.stats.timeouts = self.stats.timeouts.wrapping_add(1);
                AcquireStep::Return(AcquireReply::Error(WAIT_TIMEOUT))
            },
        }
    }

    /// The proxy after its instance was asked for a frame.
    ///
    /// A frame is handed on, and its instance kept for as long as the frame is held; it cannot be
    /// handed on where the capturing program left no place for it. A loss makes the proxy give up
    /// the instance before it asks for another. Any other code is the capturing program's.
    pub open spec fn asked(self, outcome: Result<bool, i32>) -> (DuplicationProxy, AcquireStep) {
        match outcome {
            Ok(true) => (
                DuplicationProxy {
                    locked_frame_owner: self.real,
                    stats: self.stats.hit(),
                    ..self
                },
                AcquireStep::Return(AcquireReply::Frame),
            ),
            Ok(false) => (self, AcquireStep::Return(AcquireReply::NoPlace)),
            Err(code) => if code == WAIT_TIMEOUT {
                (
                    DuplicationProxy { stats: self.stats.timed_out(), ..self },
                    AcquireStep::Return(AcquireReply::Error(WAIT_TIMEOUT)),
                )
            } else if is_loss(code) {
                (DuplicationProxy { real: None, ..self }, AcquireStep::Recover)
            } else {
                (self, AcquireStep::Return(AcquireReply::Error(code)))
            },
        }
    }

    /// Takes the outcome of `AcquireNextFrame` on the instance: whether the frame could be written
    /// to the place that the capturing program gave, or the code of the failure.
    pub fn acquired(&mut self, outcome: Result<bool, i32>) -> (step: AcquireStep)
        requires
            old(self).real is Some,
        ensures
            (*final(self), step) == old(self).asked(outcome),
    {
        match outcome {
            Ok(written) => {
                if !written {
                    return AcquireStep::Return(AcquireReply::NoPlace);
                }
                self.stats.hits = self.stats.hits.wrapping_add(1);
                self.locked_frame_owner = self.real;
                AcquireStep::Return(AcquireReply::Frame)
            },
            Err(code) => {
                if code == WAIT_TIMEOUT {
                    self.stats.timeouts = self.stats.timeouts.wrapping_add(1);
                    AcquireStep::Return(AcquireReply::Error(WAIT_TIMEOUT))
                } else if is_access_loss(code) {
                    self.real = None;
                    AcquireStep::Recover
                } else {
                    AcquireStep::Return(AcquireReply::Error(code))
                }
            },
        }
    }

    /// Takes the outcome of a recovery after a loss. Even a new instance has no frame yet.
    pub fn recovered_after_loss(
        &mut self,
        outcome: Result<Rebuilt, i32>,
        last: &mut Option<DuplicationSource>,
    ) -> (step: AcquireStep)
        requires
            old(self).real is None,
        ensures
            *final(self) == old(self).after_recovery(outcome),
            outcome matches Ok(rebuilt) ==> is_source(*final(last), rebuilt.source),
            outcome is Err ==> *final(last) == *old(last),
            step == AcquireStep::Return(AcquireReply::Error(WAIT_TIMEOUT)),
    {
        self.note_recovery(outcome, last);
        AcquireStep::Return(AcquireReply::Error(WAIT_TIMEOUT))
    }

    /// Ends a call: after a second without a report, the numbers since the last one, which then
    /// start again. A frame for which there was no place ends the call without a report.
    pub fn finish_acquire(&mut self, reply: AcquireReply, since_last_ms: u64) -> (report: Option<
        Stats,
    >)
        ensures
            since_last_ms >= 1000 && reply !is NoPlace ==> report == Some(old(self).stats)
                && *final(self) == (DuplicationProxy {
                stats: old(self).stats.cleared(),
                ..*old(self)
            }),
            since_last_ms < 1000 || reply is NoPlace ==> report is None && *final(self) == *old(
                self,
            ),
    {
        if since_last_ms < 1000 {
            return None;
        }
        match reply {
            AcquireReply::NoPlace => {
                return None;
            },
            _ => {},
        }
        let report = self.stats;
        self.stats = Stats {
            calls: 0,
            hits: 0,
            timeouts: 0,
            recoveries: 0,
            recovery_failures: 0,
            last_timeout_ms: report.last_timeout_ms,
        };
        Some(report)
    }

    /// The instance to ask for the pointer shape: the one whose frame is held. Without one the
    /// shape has no bytes.
    pub fn pointer_shape_owner(&self) -> (owner: Option<u64>)
        ensures
            owner == self.locked_frame_owner,
    {
        self.locked_frame_owner
    }

    /// Ends the hold on a frame: the instance to release it on is the one it came from. Without a
    /// held frame there is nothing to do.
    pub fn release_frame(&mut self) -> (owner: Option<u64>)
        ensures
            owner == old(self).locked_frame_owner,
            *final(self) == (DuplicationProxy { locked_frame_owner: None, ..*old(self) }),
    {
        let owner = self.locked_frame_owner;
        self.locked_frame_owner = None;
        owner
    }

    /// A whole call of `AcquireNextFrame`: the proxy after it and what the capturing program is
    /// told.
    pub open spec fn whole_call(self, call: Call) -> (DuplicationProxy, AcquireReply) {
        let (p1, step1) = self.begun(call.timeout_ms);
        let (p2, step2) = if step1 is Recover {
            p1.retried(call.retry)
        } else {
            (p1, step1)
        };
        match step2 {
            AcquireStep::Return(reply) => (p2, reply),
            _ => {
                let (p3, step3) = p2.asked(call.frame);
                match step3 {
                    AcquireStep::Return(reply) => (p3, reply),
                    _ => (p3.after_recovery(call.recovery), AcquireReply::Error(WAIT_TIMEOUT)),
                }
            },
        }
    }

    /// The proxy after some calls, with no frame released in between.
    pub open spec fn after_calls(self, calls: Seq<Call>) -> DuplicationProxy
        decreases calls.len(),
    {
        if calls.len() == 0 {
            self
        } else {
            self.after_calls(calls.drop_last()).whole_call(calls.last()).0
        }
    }

    /// What the capturing program is told by the call `i` of some.
    pub open spec fn reply_to(self, calls: Seq<Call>, i: int) -> AcquireReply {
        self.after_calls(calls.take(i)).whole_call(calls[i]).1
    }
}

/// One call of `AcquireNextFrame` and everything the system may answer on the way.
pub ghost struct Call {
    pub timeout_ms: u32,
    /// The outcome of the recovery at the beginning; it matters where the instance is missing.
    pub retry: Result<Rebuilt, i32>,
    /// The outcome of asking for a frame; it matters where there is an instance to ask.
    pub frame: Result<bool, i32>,
    /// The outcome of the recovery after a loss; it matters after one.
    pub recovery: Result<Rebuilt, i32>,
}

/// The capturing program never learns that an instance was lost: whatever the system answers, it
/// is told of a frame, of none yet, or of an unrelated failure.
pub proof fn law_loss_is_never_reported(p: DuplicationProxy, call: Call)
    ensures
        !is_loss(p.whole_call(call).1.code()),
{
}

/// A call that meets a loss tells the capturing program that no frame has arrived, and afterwards
/// the proxy holds the replacement, or nothing where there was none.
pub proof fn law_loss_looks_like_a_timeout(p: DuplicationProxy, call: Call)
    requires
        call.frame matches Err(code) && is_loss(code),
        p.real is Some || call.retry is Ok,
    ensures
        p.whole_call(call).1 == AcquireReply::Error(WAIT_TIMEOUT),
        p.whole_call(call).0.real == (match call.recovery {
            Ok(rebuilt) => Some(rebuilt.duplication),
            Err(_) => None,
        }),
{
}

/// A dead instance is given up before its replacement is asked for: at every step that asks for
/// one, the proxy holds no real instance.
pub proof fn law_dropped_before_recovery(
    p: DuplicationProxy,
    timeout_ms: u32,
    frame: Result<bool, i32>,
)
    ensures
        p.begun(timeout_ms).1 is Recover ==> p.begun(timeout_ms).0.real is None,
        p.asked(frame).1 is Recover ==> p.asked(frame).0.real is None,
{
}

/// A failed recovery is tried again by the next call, and when it succeeds that same call asks the
/// new instance for a frame.
pub proof fn law_failed_recovery_is_retried(p: DuplicationProxy, call: Call)
    requires
        p.real is None,
        call.retry is Ok,
        call.frame == Ok::<bool, i32>(true),
    ensures
        ({
            let (after, reply) = p.whole_call(call);
            &&& reply is Frame
            &&& after.real == Some(call.retry->Ok_0.duplication)
            &&& after.locked_frame_owner == Some(call.retry->Ok_0.duplication)
        }),
{
}

/// A frame comes from the instance that the proxy holds when the call returns.
pub proof fn law_frame_owner(p: DuplicationProxy, call: Call)
    requires
        p.whole_call(call).1 is Frame,
    ensures
        p.whole_call(call).0.locked_frame_owner is Some,
        p.whole_call(call).0.locked_frame_owner == p.whole_call(call).0.real,
{
}

/// A frame belongs to the instance that delivered it: however many calls without a frame follow,
/// and however many instances they give up and replace, it is released on that instance.
pub proof fn law_frame_keeps_its_owner(p: DuplicationProxy, calls: Seq<Call>)
    requires
        forall|i: int| 0 <= i < calls.len() ==> (#[trigger] p.reply_to(calls, i)) !is Frame,
    ensures
        p.after_calls(calls).locked_frame_owner == p.locked_frame_owner,
    decreases calls.len(),
{
    if calls.len() > 0 {
        let earlier = calls.drop_last();
        assert forall|i: int| 0 <= i < earlier.len() implies (#[trigger] p.reply_to(
            earlier,
            i,
        )) !is Frame by {
            assert(earlier.take(i) =~= calls.take(i));
            assert(p.reply_to(calls, i) !is Frame);
        }
        law_frame_keeps_its_owner(p, earlier);
        assert(calls.take(calls.len() - 1) =~= earlier);
        assert(p.reply_to(calls, calls.len() - 1) !is Frame);
    }
}

/// The numbers of a reporting period add up: no more frames and time-outs than calls.
pub proof fn law_stats_add_up(p: DuplicationProxy, call: Call)
    requires
        p.stats.hits + p.stats.timeouts <= p.stats.calls,
        p.stats.calls < u64::MAX,
    ensures
        ({
            let after = p.whole_call(call).0;
            after.stats.hits + after.stats.timeouts <= after.stats.calls
        }),
{
}

/// What the real instance answers reaches the capturing program unchanged, unless the answer is
/// that the instance is dead: its code is the code that the call returns, whatever time-out was
/// asked for, and the proxy goes on with the same instance and the same held frame.
pub proof fn law_other_codes_pass_through(p: DuplicationProxy, call: Call, code: i32)
    requires
        call.frame == Err::<bool, i32>(code),
        code != ACCESS_LOST && code != ACCESS_DENIED && code != INVALID_CALL,
        p.real is Some || call.retry is Ok,
    ensures
        p.whole_call(call).1 == AcquireReply::Error(code),
        p.whole_call(call).1.code() == code,
        p.whole_call(call).0.real == (if p.real is Some {
            p.real
        } else {
            Some(call.retry->Ok_0.duplication)
        }),
        p.whole_call(call).0.locked_frame_owner == p.locked_frame_owner,
{
}

/// A frame reaches the capturing program whenever the instance delivers one and there is a place
/// for it; where there is no place, the held frame stays the one it was.
pub proof fn law_frames_pass_through(p: DuplicationProxy, call: Call, written: bool)
    requires
        call.frame == Ok::<bool, i32>(written),
        p.real is Some || call.retry is Ok,
    ensures
        written ==> p.whole_call(call).1.code() == 0,
        !written ==> p.whole_call(call).1.code() + 0x1_0000_0000 == 0x8000_4003,
        p.whole_call(call).0.real == (if p.real is Some {
            p.real
        } else {
            Some(call.retry->Ok_0.duplication)
        }),
        p.whole_call(call).0.locked_frame_owner == (if written {
            p.whole_call(call).0.real
        } else {
            p.locked_frame_owner
        }),
{
}

/// A call that has no instance and gets none tells the capturing program that there is no frame
/// yet, and leaves everything for the next call as it was; what the system would have answered
/// about a frame plays no part.
pub proof fn law_missing_instance_is_a_timeout(p: DuplicationProxy, call: Call)
    requires
        p.real is None,
        call.retry is Err,
    ensures
        p.whole_call(call).1.code() + 0x1_0000_0000 == 0x887a_0027,
        p.whole_call(call).0.real is None,
        p.whole_call(call).0.locked_frame_owner == p.locked_frame_owner,
        p.whole_call(call).0.source == p.source,
{
}

/// The proxy remembers how the instance that it holds was made: by the last recovery that
/// succeeded, or else as before.
pub proof fn law_source_follows_the_instance(p: DuplicationProxy, call: Call)
    ensures
        ({
            let tried = p.real is None;
            let asked = p.real is Some || call.retry is Ok;
            let lost = asked && (call.frame matches Err(code) && is_loss(code));
            p.whole_call(call).0.source == (if lost && call.recovery is Ok {
                call.recovery->Ok_0.source
            } else if tried && call.retry is Ok {
                call.retry->Ok_0.source
            } else {
                p.source
            })
        }),
{
}

/// Every call is counted once; it counts as a frame exactly when it returns one, as a time-out
/// exactly when the instance reported one or there was none to ask, and each recovery counts by
/// how it went. A count that has reached its end starts again at zero.
pub proof fn law_every_call_is_counted(p: DuplicationProxy, call: Call)
    ensures
        ({
            let after = p.whole_call(call).0.stats;
            let tried = p.real is None;
            let asked = p.real is Some || call.retry is Ok;
            let lost = asked && (call.frame matches Err(code) && is_loss(code));
            let one = |counted: bool|
                if counted {
                    1int
                } else {
                    0
                };
            let end = 0x1_0000_0000_0000_0000int;
            &&& after.calls == (p.stats.calls + 1) % end
            &&& after.last_timeout_ms == call.timeout_ms
            &&& after.hits == (p.stats.hits + one(p.whole_call(call).1 is Frame)) % end
            &&& after.timeouts == (p.stats.timeouts + one(
                !asked || call.frame == Err::<bool, i32>(WAIT_TIMEOUT),
            )) % end
            &&& after.recoveries == (p.stats.recoveries + one(tried && call.retry is Ok) + one(
                lost && call.recovery is Ok,
            )) % end
            &&& after.recovery_failures == (p.stats.recovery_failures + one(
                tried && call.retry is Err,
            ) + one(lost && call.recovery is Err)) % end
        }),
{
}

/// However many calls are made, as many are counted.
pub proof fn law_calls_are_counted(p: DuplicationProxy, calls: Seq<Call>)
    requires
        p.stats.calls + calls.len() <= u64::MAX,
    ensures
        p.after_calls(calls).stats.calls == p.stats.calls + calls.len(),
    decreases calls.len(),
{
    if calls.len() > 0 {
        law_calls_are_counted(p, calls.drop_last());
    }
}

/// A call opens by asking the instance that the proxy holds, and by asking for a new one only
/// where it holds none; nothing but the counts changes.
pub proof fn law_held_instance_is_asked(p: &mut DuplicationProxy, timeout_ms: u32, step: AcquireStep)
    requires
        call_ensures(DuplicationProxy::begin_acquire, (p, timeout_ms), step),
    ensures
        old(p).real matches Some(held) ==> step == (AcquireStep::Acquire { instance: held }),
        old(p).real is None ==> step is Recover,
        final(p).real == old(p).real,
        final(p).locked_frame_owner == old(p).locked_frame_owner,
        final(p).source == old(p).source,
        final(p).stats.calls == (old(p).stats.calls + 1) % 0x1_0000_0000_0000_0000,
        final(p).stats.hits == old(p).stats.hits,
        final(p).stats.timeouts == old(p).stats.timeouts,
        final(p).stats.recoveries == old(p).stats.recoveries,
        final(p).stats.recovery_failures == old(p).stats.recovery_failures,
        final(p).stats.last_timeout_ms == timeout_ms,
{
}

/// The answer of the instance decides the step: a frame or a failure is returned as it is, with
/// the instance kept, and only the three codes that mean its death make the proxy give it up and
/// ask for another.
pub proof fn law_answer_decides(
    p: &mut DuplicationProxy,
    outcome: Result<bool, i32>,
    step: AcquireStep,
)
    requires
        call_ensures(DuplicationProxy::acquired, (p, outcome), step),
    ensures
        outcome == Ok::<bool, i32>(true) ==> step == AcquireStep::Return(AcquireReply::Frame)
            && final(p).locked_frame_owner == old(p).real,
        outcome == Ok::<bool, i32>(false) ==> step == AcquireStep::Return(AcquireReply::NoPlace),
        outcome matches Err(code) ==> {
            let unsigned = code + 0x1_0000_0000;
            let lost = unsigned == 0x887a_0026 || unsigned == 0x887a_002b || unsigned
                == 0x887a_0001;
            &&& lost ==> step is Recover && final(p).real is None && final(p).stats == old(
                p,
            ).stats
            &&& !lost ==> step == AcquireStep::Return(AcquireReply::Error(code))
        },
        step !is Recover ==> final(p).real == old(p).real,
        outcome != Ok::<bool, i32>(true) ==> final(p).locked_frame_owner == old(
            p,
        ).locked_frame_owner,
        outcome != Ok::<bool, i32>(true) ==> final(p).stats.hits == old(p).stats.hits,
        outcome == Ok::<bool, i32>(true) ==> final(p).stats.hits == (old(p).stats.hits + 1)
            % 0x1_0000_0000_0000_0000,
        outcome != Err::<bool, i32>(WAIT_TIMEOUT) ==> final(p).stats.timeouts == old(
            p,
        ).stats.timeouts,
        outcome == Err::<bool, i32>(WAIT_TIMEOUT) ==> final(p).stats.timeouts == (old(
            p,
        ).stats.timeouts + 1) % 0x1_0000_0000_0000_0000,
        final(p).source == old(p).source,
        final(p).stats.calls == old(p).stats.calls,
        final(p).stats.last_timeout_ms == old(p).stats.last_timeout_ms,
        final(p).stats.recoveries == old(p).stats.recoveries,
        final(p).stats.recovery_failures == old(p).stats.recovery_failures,
{
}

/// A recovery at the beginning of a call: a new instance is held, remembered as the last good one
/// and asked at once; a failure leaves the proxy without one and ends the call as a time-out.
pub proof fn law_new_instance_is_asked(
    p: &mut DuplicationProxy,
    outcome: Result<Rebuilt, i32>,
    last: &mut Option<DuplicationSource>,
    step: AcquireStep,
)
    requires
        old(p).real is None,
        call_ensures(DuplicationProxy::recovered_before_acquire, (p, outcome, last), step),
    ensures
        outcome matches Ok(rebuilt) ==> {
            &&& step == (AcquireStep::Acquire { instance: rebuilt.duplication })
            &&& final(p).real == Some(rebuilt.duplication)
            &&& final(p).source == rebuilt.source
            &&& *final(last) matches Some(known) && known.device() == rebuilt.source.device()
                && known.output() == rebuilt.source.output()
        },
        outcome is Err ==> step == AcquireStep::Return(AcquireReply::Error(WAIT_TIMEOUT)),
        outcome is Err ==> final(p).real is None && final(p).source == old(p).source && *final(last)
            == *old(last),
        final(p).locked_frame_owner == old(p).locked_frame_owner,
        final(p).stats.calls == old(p).stats.calls,
        final(p).stats.hits == old(p).stats.hits,
{
}

/// A recovery after a loss: whether or not there is a new instance, the call ends as a time-out.
pub proof fn law_recovery_ends_the_call(
    p: &mut DuplicationProxy,
    outcome: Result<Rebuilt, i32>,
    last: &mut Option<DuplicationSource>,
    step: AcquireStep,
)
    requires
        old(p).real is None,
        call_ensures(DuplicationProxy::recovered_after_loss, (p, outcome, last), step),
    ensures
        step matches AcquireStep::Return(AcquireReply::Error(code)) && code + 0x1_0000_0000
            == 0x887a_0027,
        outcome matches Ok(rebuilt) ==> {
            &&& final(p).real == Some(rebuilt.duplication)
            &&& final(p).source == rebuilt.source
            &&& *final(last) matches Some(known) && known.device() == rebuilt.source.device()
                && known.output() == rebuilt.source.output()
        },
        outcome is Err ==> final(p).real is None && final(p).source == old(p).source && *final(last)
            == *old(last),
        final(p).locked_frame_owner == old(p).locked_frame_owner,
        final(p).stats.calls == old(p).stats.calls,
        final(p).stats.hits == old(p).stats.hits,
        final(p).stats.timeouts == old(p).stats.timeouts,
{
}

/// The numbers of a period are reported once: a report holds all that was counted, and counting
/// goes on from zero after it; without a report nothing is lost. A report is due after a second.
pub proof fn law_counts_are_reported_once(
    p: &mut DuplicationProxy,
    reply: AcquireReply,
    since_last_ms: u64,
    report: Option<Stats>,
)
    requires
        call_ensures(DuplicationProxy::finish_acquire, (p, reply, since_last_ms), report),
    ensures
        report is Some <==> since_last_ms >= 1000 && reply != AcquireReply::NoPlace,
        report matches Some(told) ==> {
            &&& told == old(p).stats
            &&& final(p).stats.calls == 0 && final(p).stats.hits == 0
            &&& final(p).stats.timeouts == 0 && final(p).stats.recoveries == 0
            &&& final(p).stats.recovery_failures == 0
        },
        report is None ==> final(p).stats == old(p).stats,
        final(p).stats.last_timeout_ms == old(p).stats.last_timeout_ms,
        final(p).real == old(p).real,
        final(p).locked_frame_owner == old(p).locked_frame_owner,
        final(p).source == old(p).source,
{
}

/// A frame is released once, on the instance it came from, even where the proxy has moved on to
/// another; a second release has nothing to do.
pub proof fn law_frame_is_released_once(
    p: &mut DuplicationProxy,
    first: Option<u64>,
    again: &mut DuplicationProxy,
    second: Option<u64>,
)
    requires
        call_ensures(DuplicationProxy::release_frame, (p,), first),
        *old(again) == *final(p),
        call_ensures(DuplicationProxy::release_frame, (again,), second),
    ensures
        first == old(p).locked_frame_owner,
        second is None,
        final(p).real == old(p).real,
        final(p).stats == old(p).stats,
        final(p).source == old(p).source,
        *final(again) == *final(p),
{
}

/// The shape of the pointer is asked of the instance whose frame is held, and of none once the
/// frame has been released.
pub proof fn law_pointer_belongs_to_the_frame(
    p: &mut DuplicationProxy,
    released: Option<u64>,
    before: Option<u64>,
    after: Option<u64>,
)
    requires
        call_ensures(DuplicationProxy::pointer_shape_owner, (&*old(p),), before),
        call_ensures(DuplicationProxy::release_frame, (p,), released),
        call_ensures(DuplicationProxy::pointer_shape_owner, (&*final(p),), after),
    ensures
        before == old(p).locked_frame_owner,
        before == released,
        after is None,
{
}

/// A new proxy holds the instance that it was made for, without a frame and with nothing counted.
pub proof fn law_proxy_starts_with_its_instance(
    instance: u64,
    source: DuplicationSource,
    last: &mut Option<DuplicationSource>,
    p: DuplicationProxy,
)
    requires
        call_ensures(DuplicationProxy::wrap_duplication, (instance, source, last), p),
    ensures
        p.real == Some(instance),
        p.locked_frame_owner is None,
        p.source == source,
        *final(last) matches Some(known) && known.device() == source.device() && known.output()
            == source.output(),
        p.stats.calls == 0 && p.stats.hits == 0 && p.stats.timeouts == 0,
        p.stats.recoveries == 0 && p.stats.recovery_failures == 0,
        p.stats.last_timeout_ms == 0,
{
}

/// An instance is kept exactly as long as the proxy goes on with it or holds a frame of it.
pub proof fn law_instance_is_kept_while_needed(p: &DuplicationProxy, instance: u64, live: bool)
    requires
        call_ensures(DuplicationProxy::is_live, (p, instance), live),
    ensures
        live <==> (p.real == Some(instance) || p.locked_frame_owner == Some(instance)),
{
}

/// The code of a reply is success for a frame, the code for a missing pointer where there was no
/// place for one, and otherwise the code that the reply carries.
pub proof fn law_reply_code(reply: &AcquireReply, code: i32)
    requires
        call_ensures(AcquireReply::result_code, (reply,), code),
    ensures
        *reply is Frame ==> code == 0,
        *reply is NoPlace ==> code + 0x1_0000_0000 == 0x8000_4003,
        *reply matches AcquireReply::Error(carried) ==> code == carried,
{
}

} // verus!
