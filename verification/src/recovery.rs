//! Recovery of a lost duplication, and the attachment of threads to the input desktop.
use vstd::prelude::*;

use crate::dxgi::FAILED;
use crate::state::DuplicationSource;

verus! {

/// A replacement for a lost duplication instance, and the call that produced it.
#[derive(Debug)]
pub struct Rebuilt {
    /// The new instance.
    pub duplication: u64,
    /// How it was made, for the next recovery.
    pub source: DuplicationSource,
}

/// Whether this thread has been attached to the input desktop, and whether it has to be now:
/// `attached` is the thread's own mark, and the answer is yes on the first call with it only.
///
/// The attachment may fail; it is not tried again.
pub fn attach_once_this_thread(attached: &mut bool) -> (attach_now: bool)
    ensures
        attach_now == !*old(attached),
        *final(attached),
{
    let already = *attached;
    *attached = true;
    !already
}

/// Recovers on the device and the output of the last known duplication.
///
/// `outcome` is what the repeated `DuplicateOutput` or `DuplicateOutput1` call returned; it is
/// not made where there is no such duplication.
pub fn reduplicate_same_device(
    last: &Option<DuplicationSource>,
    outcome: Result<u64, i32>,
) -> (res: Result<Rebuilt, i32>)
    ensures
        match (*last, outcome) {
            (None, _) => res == Err::<Rebuilt, i32>(FAILED),
            (Some(_), Err(code)) => res == Err::<Rebuilt, i32>(code),
            (Some(source), Ok(duplication)) => res matches Ok(rebuilt) && rebuilt.duplication
                == duplication && rebuilt.source.same(source),
        },
{
    match last {
        None => Err(FAILED),
        Some(source) => match outcome {
            Err(code) => Err(code),
            Ok(duplication) => Ok(Rebuilt { duplication, source: source.copy() }),
        },
    }
}

/// Recovers on the device of the last known duplication, on an output that was enumerated anew.
///
/// `outcome` is the new output and what the `DuplicateOutput` or `DuplicateOutput1` call on it
/// returned, or the code of the first call that failed on the way there.
pub fn renumerate_output_and_duplicate(
    last: &Option<DuplicationSource>,
    outcome: Result<(u64, u64), i32>,
) -> (res: Result<Rebuilt, i32>)
    ensures
        match (*last, outcome) {
            (None, _) => res == Err::<Rebuilt, i32>(FAILED),
            (Some(_), Err(code)) => res == Err::<Rebuilt, i32>(code),
            (Some(source), Ok((output, duplication))) => res matches Ok(rebuilt)
                && rebuilt.duplication == duplication && rebuilt.source.same_call(source)
                && rebuilt.source.output() == output,
        },
{
    match last {
        None => Err(FAILED),
        Some(source) => match outcome {
            Err(code) => Err(code),
            Ok((output, duplication)) => Ok(
                Rebuilt { duplication, source: source.on_output(output) },
            ),
        },
    }
}

/// Recovery never changes the device, the kind of the call or its arguments: the capturing program
/// goes on using the device that it made at the start.
pub proof fn law_recovery_keeps_the_device(last: DuplicationSource, rebuilt: Rebuilt)
    requires
        rebuilt.source.same_call(last),
    ensures
        rebuilt.source.device() == last.device(),
        rebuilt.source is V5 <==> last is V5,
{
}

/// A thread is attached once: the first call on a thread's mark asks for it and no later one does.
pub proof fn law_attached_once(mark: &mut bool, first: bool, again: &mut bool, second: bool)
    requires
        !*old(mark),
        call_ensures(attach_once_this_thread, (mark,), first),
        *old(again) == *final(mark),
        call_ensures(attach_once_this_thread, (again,), second),
    ensures
        first,
        !second,
        *final(again),
{
}

/// Recovery on the known output succeeds exactly where there is a known duplication and the
/// repeated call succeeds, with the instance which that call made; it is described by the same
/// device and the same output. The code of a failed call is the code of the failure.
pub proof fn law_recovery_repeats_the_call(
    last: &Option<DuplicationSource>,
    outcome: Result<u64, i32>,
    res: Result<Rebuilt, i32>,
)
    requires
        call_ensures(reduplicate_same_device, (last, outcome), res),
    ensures
        res is Ok <==> *last is Some && outcome is Ok,
        res matches Ok(rebuilt) ==> {
            &&& outcome == Ok::<u64, i32>(rebuilt.duplication)
            &&& (last->0 is V5 <==> rebuilt.source is V5)
            &&& rebuilt.source.device() == last->0.device()
            &&& rebuilt.source.output() == last->0.output()
            &&& last->0 is V5 ==> rebuilt.source->V5_flags == last->0->V5_flags
                && rebuilt.source->supported_formats@ == last->0->supported_formats@
        },
        res matches Err(code) ==> if *last is None {
            code + 0x1_0000_0000 == 0x8000_4005
        } else {
            outcome == Err::<u64, i32>(code)
        },
{
}

/// Recovery on a new output succeeds exactly where there is a known duplication and the calls on
/// the way succeed; the new instance is then described by the known device and the new output. The
/// code of a failed call is the code of the failure.
pub proof fn law_recovery_moves_to_the_new_output(
    last: &Option<DuplicationSource>,
    outcome: Result<(u64, u64), i32>,
    res: Result<Rebuilt, i32>,
)
    requires
        call_ensures(renumerate_output_and_duplicate, (last, outcome), res),
    ensures
        res is Ok <==> *last is Some && outcome is Ok,
        res matches Ok(rebuilt) ==> {
            &&& outcome == Ok::<(u64, u64), i32>((rebuilt.source.output(), rebuilt.duplication))
            &&& (last->0 is V5 <==> rebuilt.source is V5)
            &&& rebuilt.source.device() == last->0.device()
            &&& last->0 is V5 ==> rebuilt.source->V5_flags == last->0->V5_flags
                && rebuilt.source->supported_formats@ == last->0->supported_formats@
        },
        res matches Err(code) ==> if *last is None {
            code + 0x1_0000_0000 == 0x8000_4005
        } else {
            outcome == Err::<(u64, u64), i32>(code)
        },
{
}

} // verus!
