//! The measuring TCP sink: how many bytes a connection brought, in all and since the last sample.
//!
//! Times are nanoseconds since the connection was accepted.
use vstd::prelude::*;

use crate::clock::{elapsed, since};

verus! {

/// A measurement.
#[derive(Debug, Clone, Copy, PartialEq, Eq, Structural)]
pub struct Sample {
    pub elapsed_ms: u64,
    pub total_bytes: u64,
    /// The bytes since the sample before.
    pub interval_bytes: u64,
    /// The time since the sample before.
    pub interval_ns: u64,
}

/// The meter of one connection.
#[derive(Debug, Clone, Copy, PartialEq, Eq, Structural)]
pub struct Meter {
    /// The time between two samples.
    pub period_ns: u128,
    pub total_bytes: u64,
    pub interval_bytes: u64,
    pub last_sample_ns: u64,
}

impl Meter {
    /// A meter for a new connection, which takes a sample every so many milliseconds.
    pub fn new(interval_ms: u64) -> (meter: Meter)
        ensures
            meter == (Meter {
                period_ns: (interval_ms * 1_000_000) as u128,
                total_bytes: 0,
                interval_bytes: 0,
                last_sample_ns: 0,
            }),
    {
        Meter {
            period_ns: interval_ms as u128 * 1_000_000,
            total_bytes: 0,
            interval_bytes: 0,
            last_sample_ns: 0,
        }
    }

    /// Of the bytes in all, some came since the last sample.
    pub open spec fn wf(self) -> bool {
        self.interval_bytes <= self.total_bytes
    }

    /// The sample at a time.
    pub open spec fn sample(self, now_ns: u64) -> Sample {
        Sample {
            elapsed_ms: (now_ns / 1_000_000) as u64,
            total_bytes: self.total_bytes,
            interval_bytes: self.interval_bytes,
            interval_ns: since(now_ns, self.last_sample_ns) as u64,
        }
    }

    /// The meter after `n` more bytes had come at the time `now_ns`, and the sample that is then
    /// due. No bytes are the end of the connection, which is always a sample.
    pub open spec fn after(self, n: u64, now_ns: u64) -> (Meter, Option<Sample>) {
        if n == 0 {
            (self, Some(self.sample(now_ns)))
        } else {
            let counted = Meter {
                total_bytes: (self.total_bytes + n) as u64,
                interval_bytes: (self.interval_bytes + n) as u64,
                ..self
            };
            if since(now_ns, self.last_sample_ns) >= self.period_ns {
                (
                    Meter { interval_bytes: 0, last_sample_ns: now_ns, ..counted },
                    Some(counted.sample(now_ns)),
                )
            } else {
                (counted, None)
            }
        }
    }

    /// Counts what one read brought, and gives the sample that is due.
    pub fn received(&mut self, n: u64, now_ns: u64) -> (sample: Option<Sample>)
        requires
            old(self).wf(),
            old(self).total_bytes + n <= u64::MAX,
        ensures
            final(self).wf(),
            (*final(self), sample) == old(self).after(n, now_ns),
    {
        if n != 0 {
            self.total_bytes = self.total_bytes + n;
            self.interval_bytes = self.interval_bytes + n;
        }
        let passed: u64 = elapsed(now_ns, self.last_sample_ns);
        if n != 0 && (passed as u128) < self.period_ns {
            return None;
        }
        let sample = Sample {
            elapsed_ms: now_ns / 1_000_000,
            total_bytes: self.total_bytes,
            interval_bytes: self.interval_bytes,
            interval_ns: passed,
        };
        if n != 0 {
            self.interval_bytes = 0;
            self.last_sample_ns = now_ns;
        }
        Some(sample)
    }
}

/// Tells whether the sink is done after so many connections; a limit of zero is none.
pub fn is_done(accepted: u64, limit: u64) -> (done: bool)
    ensures
        done == (limit != 0 && accepted >= limit),
{
    limit != 0 && accepted >= limit
}

/// What reads bring: bytes, and the time they came at.
pub ghost struct Arrival {
    pub n: u64,
    pub now_ns: u64,
}

/// A meter after some reads.
pub open spec fn after_all(meter: Meter, reads: Seq<Arrival>) -> Meter
    decreases reads.len(),
{
    if reads.len() == 0 {
        meter
    } else {
        after_all(meter, reads.drop_last()).after(reads.last().n, reads.last().now_ns).0
    }
}

/// The bytes in all the samples of some reads.
pub open spec fn sampled(meter: Meter, reads: Seq<Arrival>) -> int
    decreases reads.len(),
{
    if reads.len() == 0 {
        0
    } else {
        sampled(meter, reads.drop_last()) + match after_all(meter, reads.drop_last()).after(
            reads.last().n,
            reads.last().now_ns,
        ).1 {
            Some(sample) => sample.interval_bytes as int,
            None => 0,
        }
    }
}

/// The bytes of some reads.
pub open spec fn brought(reads: Seq<Arrival>) -> int
    decreases reads.len(),
{
    if reads.len() == 0 {
        0
    } else {
        brought(reads.drop_last()) + reads.last().n
    }
}

/// No byte is lost or counted twice: while a connection is open, the samples together with what
/// has come since the last one are all the bytes that it brought.
pub proof fn law_samples_add_up(interval_ms: u64, reads: Seq<Arrival>)
    requires
        brought(reads) <= u64::MAX,
        forall|i: int| 0 <= i < reads.len() ==> (#[trigger] reads[i]).n > 0,
    ensures
        ({
            let start = Meter {
                period_ns: (interval_ms * 1_000_000) as u128,
                total_bytes: 0,
                interval_bytes: 0,
                last_sample_ns: 0,
            };
            let end = after_all(start, reads);
            &&& end.total_bytes == brought(reads)
            &&& sampled(start, reads) + end.interval_bytes == brought(reads)
            &&& 0 <= sampled(start, reads)
        }),
    decreases reads.len(),
{
    if reads.len() > 0 {
        law_samples_add_up(interval_ms, reads.drop_last());
        assert(reads.last().n > 0);
    }
}

/// A new meter has counted nothing, and its period is the interval in nanoseconds.
pub proof fn law_meter_starts_at_zero(interval_ms: u64, meter: Meter)
    requires
        call_ensures(Meter::new, (interval_ms,), meter),
    ensures
        meter.period_ns == interval_ms * 1_000_000,
        meter.total_bytes == 0,
        meter.interval_bytes == 0,
        meter.last_sample_ns == 0,
{
}

/// Every read is counted in full, and a sample is taken where a period has passed since the last
/// one, and at the end of the connection. It tells the bytes in all, the bytes and the time since
/// the last sample, and the whole milliseconds since the start; counting for the next sample then
/// starts again.
pub proof fn law_sample_after_each_period(
    meter: &mut Meter,
    n: u64,
    now_ns: u64,
    sample: Option<Sample>,
)
    requires
        old(meter).wf(),
        old(meter).total_bytes + n <= u64::MAX,
        call_ensures(Meter::received, (meter, n, now_ns), sample),
    ensures
        sample is Some <==> n == 0 || vstd::math::max(0, now_ns - old(meter).last_sample_ns) >= old(
            meter,
        ).period_ns,
        final(meter).total_bytes == old(meter).total_bytes + n,
        final(meter).period_ns == old(meter).period_ns,
        sample matches Some(taken) ==> {
            &&& taken.total_bytes == old(meter).total_bytes + n
            &&& taken.interval_bytes == old(meter).interval_bytes + n
            &&& taken.interval_ns == vstd::math::max(0, now_ns - old(meter).last_sample_ns)
            &&& taken.elapsed_ms * 1_000_000 <= now_ns < (taken.elapsed_ms + 1) * 1_000_000
        },
        n > 0 && sample is Some ==> final(meter).interval_bytes == 0 && final(meter).last_sample_ns
            == now_ns,
        sample is None || n == 0 ==> final(meter).interval_bytes == old(meter).interval_bytes + n
            && final(meter).last_sample_ns == old(meter).last_sample_ns,
{
}

/// The sink is done once it has accepted as many connections as allowed; with a limit of zero it
/// never is.
pub proof fn law_done_at_the_limit(accepted: u64, limit: u64, done: bool)
    requires
        call_ensures(is_done, (accepted, limit), done),
    ensures
        limit == 0 ==> !done,
        limit > 0 ==> (done <==> accepted >= limit),
{
}

} // verus!
