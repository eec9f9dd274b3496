//! What is remembered of the calls that created the device and the duplication.
//!
//! COM objects appear as the numbers under which their owner finds them again.
use vstd::prelude::*;

verus! {

/// The arguments of the first successful `D3D11CreateDevice` call.
#[derive(Debug)]
pub struct DeviceCreateArgs {
    /// The adapter, or zero for the default one.
    pub adapter: u64,
    pub driver_type: i32,
    pub software: u64,
    pub flags: u32,
    pub feature_levels: Vec<i32>,
    pub sdk_version: u32,
}

/// What it takes to run `DuplicateOutput` or `DuplicateOutput1` again with the same arguments.
#[derive(Debug)]
pub enum DuplicationSource {
    /// `DuplicateOutput` on an `IDXGIOutput1`.
    V1 { output1: u64, device: u64 },
    /// `DuplicateOutput1` on an `IDXGIOutput5`.
    V5 { output5: u64, device: u64, flags: u32, supported_formats: Vec<u32> },
}

impl DuplicationSource {
    /// The device that the duplication was created with.
    pub open spec fn device(self) -> u64 {
        match self {
            DuplicationSource::V1 { device, .. } => device,
            DuplicationSource::V5 { device, .. } => device,
        }
    }

    /// The output that was duplicated.
    pub open spec fn output(self) -> u64 {
        match self {
            DuplicationSource::V1 { output1, .. } => output1,
            DuplicationSource::V5 { output5, .. } => output5,
        }
    }

    /// Whether two sources describe the same call but for the output.
    pub open spec fn same_call(self, other: DuplicationSource) -> bool {
        match (self, other) {
            (
                DuplicationSource::V1 { device: d1, .. },
                DuplicationSource::V1 { device: d2, .. },
            ) => d1 == d2,
            (
                DuplicationSource::V5 { device: d1, flags: f1, supported_formats: s1, .. },
                DuplicationSource::V5 { device: d2, flags: f2, supported_formats: s2, .. },
            ) => d1 == d2 && f1 == f2 && s1@ == s2@,
            _ => false,
        }
    }

    /// Whether two sources describe the same call on the same output.
    pub open spec fn same(self, other: DuplicationSource) -> bool {
        self.same_call(other) && self.output() == other.output()
    }

    /// The device that the duplication was created with.
    pub fn device_of(&self) -> (id: u64)
        ensures
            id == self.device(),
    {
        match self {
            DuplicationSource::V1 { device, .. } => *device,
            DuplicationSource::V5 { device, .. } => *device,
        }
    }

    /// A second source for the same call, on another output.
    pub fn on_output(&self, output: u64) -> (copy: DuplicationSource)
        ensures
            copy.same_call(*self),
            copy.output() == output,
    {
        match self {
            DuplicationSource::V1 { device, .. } => DuplicationSource::V1 {
                output1: output,
                device: *device,
            },
            DuplicationSource::V5 { device, flags, supported_formats, .. } => {
                let formats = copy_formats(supported_formats);
                DuplicationSource::V5 {
                    output5: output,
                    device: *device,
                    flags: *flags,
                    supported_formats: formats,
                }
            },
        }
    }

    /// A second source for the same call on the same output, with another device.
    pub fn on_device(&self, device: u64) -> (copy: DuplicationSource)
        ensures
            copy.device() == device,
            copy.output() == self.output(),
            match (*self, copy) {
                (DuplicationSource::V1 { .. }, DuplicationSource::V1 { .. }) => true,
                (
                    DuplicationSource::V5 { flags: f1, supported_formats: s1, .. },
                    DuplicationSource::V5 { flags: f2, supported_formats: s2, .. },
                ) => f1 == f2 && s1@ == s2@,
                _ => false,
            },
    {
        match self {
            DuplicationSource::V1 { output1, .. } => DuplicationSource::V1 {
                output1: *output1,
                device,
            },
            DuplicationSource::V5 { output5, flags, supported_formats, .. } => {
                let formats = copy_formats(supported_formats);
                DuplicationSource::V5 {
                    output5: *output5,
                    device,
                    flags: *flags,
                    supported_formats: formats,
                }
            },
        }
    }

    /// A second source for the same call on the same output.
    pub fn copy(&self) -> (copy: DuplicationSource)
        ensures
            copy.same(*self),
    {
        match self {
            DuplicationSource::V1 { output1, .. } => self.on_output(*output1),
            DuplicationSource::V5 { output5, .. } => self.on_output(*output5),
        }
    }
}

fn copy_formats(formats: &Vec<u32>) -> (copy: Vec<u32>)
    ensures
        copy@ == formats@,
{
    let mut out: Vec<u32> = Vec::new();
    let mut i: usize = 0;
    while i < formats.len()
        invariant
            i <= formats.len(),
            out@ == formats@.take(i as int),
        decreases formats.len() - i,
    {
        out.push(formats[i]);
        assert(formats@.take(i as int + 1) == formats@.take(i as int).push(formats@[i as int]));
        i += 1;
    }
    assert(formats@.take(formats@.len() as int) == formats@);
    out
}

/// A copy describes the very same call: the same interface, output and device, and with
/// `DuplicateOutput1` the same flags and the same formats in the same order.
pub proof fn law_copy_repeats_the_call(source: &DuplicationSource, copy: DuplicationSource)
    requires
        call_ensures(DuplicationSource::copy, (source,), copy),
    ensures
        *source matches DuplicationSource::V1 { output1, device } ==> copy == (
        DuplicationSource::V1 { output1, device }),
        *source matches DuplicationSource::V5 { output5, device, flags, supported_formats } ==> {
            &&& copy is V5
            &&& copy->output5 == output5 && copy->V5_device == device && copy->V5_flags == flags
            &&& copy->supported_formats@ == supported_formats@
        },
{
}

/// The same call on another output differs from it in nothing but the output, so that moving it
/// back gives the first call again.
pub proof fn law_only_the_output_moves(
    source: &DuplicationSource,
    output: u64,
    moved: &DuplicationSource,
    back: DuplicationSource,
)
    requires
        call_ensures(DuplicationSource::on_output, (source, output), *moved),
        call_ensures(DuplicationSource::on_output, (moved, source.output()), back),
    ensures
        *source matches DuplicationSource::V1 { output1, device } ==> *moved == (
        DuplicationSource::V1 { output1: output, device }) && back == (DuplicationSource::V1 {
            output1,
            device,
        }),
        *source matches DuplicationSource::V5 { output5, device, flags, supported_formats } ==> {
            &&& moved is V5 && back is V5
            &&& moved->output5 == output && back->output5 == output5
            &&& moved->V5_device == device && back->V5_device == device
            &&& moved->V5_flags == flags && back->V5_flags == flags
            &&& moved->supported_formats@ == supported_formats@
            &&& back->supported_formats@ == supported_formats@
        },
{
}

/// The same call with another device differs from it in nothing but the device, and the device is
/// the one that it is then found to have.
pub proof fn law_only_the_device_moves(
    source: &DuplicationSource,
    device: u64,
    moved: &DuplicationSource,
    found: u64,
)
    requires
        call_ensures(DuplicationSource::on_device, (source, device), *moved),
        call_ensures(DuplicationSource::device_of, (moved,), found),
    ensures
        found == device,
        *source matches DuplicationSource::V1 { output1, device: _ } ==> *moved == (
        DuplicationSource::V1 { output1, device }),
        *source matches DuplicationSource::V5 { output5, device: _, flags, supported_formats } ==> {
            &&& moved is V5
            &&& moved->output5 == output5 && moved->V5_device == device && moved->V5_flags == flags
            &&& moved->supported_formats@ == supported_formats@
        },
{
}

} // verus!
