//! The chain of hooks from the creation of a device to the duplication of an output.
//!
//! Only `D3D11CreateDevice` is hooked from the start. Every further hook goes in when the object
//! that it belongs to is seen for the first time. Each `observe` method is told how a hooked call
//! ended and says which slot to patch, if any; the patch itself is made by the caller, who then
//! reports what the slot held with [`Hooks::record_original`].
use vstd::prelude::*;

use crate::duplication_proxy::{is_source, DuplicationProxy};
use crate::dxgi::{is_ok, succeeded};
use crate::recovery::Rebuilt;
use crate::slots::{
    DUPLICATE_OUTPUT, DUPLICATE_OUTPUT1, ENUM_OUTPUTS, GET_PARENT, QUERY_INTERFACE,
};
use crate::state::{DeviceCreateArgs, DuplicationSource};
use crate::vtable::PatchRegistry;

verus! {

/// The interface id of `IDXGIAdapter`.
pub const IID_IDXGIADAPTER: u128 = 0x2411e7e1_12ac_4ccf_bd14_9798e8534dc0;

/// The interface id of `IDXGIDevice`.
pub const IID_IDXGIDEVICE: u128 = 0x54ec77fa_1377_44e6_8c32_88fd5f44c84c;

/// The interface id of `IDXGIOutput1`.
pub const IID_IDXGIOUTPUT1: u128 = 0x00cddea8_939b_4b83_a340_a685226666cc;

/// The interface id of `IDXGIOutput5`.
pub const IID_IDXGIOUTPUT5: u128 = 0x80a07424_ab52_42eb_833c_0c42fd282d98;

/// A hooked method.
#[derive(Debug, Clone, Copy, PartialEq, Eq, Structural)]
pub enum Hook {
    DeviceQueryInterface,
    GetParent,
    EnumOutputs,
    OutputQueryInterface,
    DuplicateOutput,
    DuplicateOutput1,
}

impl Hook {
    /// The slot of the method.
    pub open spec fn slot(self) -> usize {
        match self {
            Hook::DeviceQueryInterface => QUERY_INTERFACE,
            Hook::GetParent => GET_PARENT,
            Hook::EnumOutputs => ENUM_OUTPUTS,
            Hook::OutputQueryInterface => QUERY_INTERFACE,
            Hook::DuplicateOutput => DUPLICATE_OUTPUT,
            Hook::DuplicateOutput1 => DUPLICATE_OUTPUT1,
        }
    }

    /// Gives the slot of the method.
    pub fn slot_index(self) -> (slot: usize)
        ensures
            slot == self.slot(),
    {
        match self {
            Hook::DeviceQueryInterface => QUERY_INTERFACE,
            Hook::GetParent => GET_PARENT,
            Hook::EnumOutputs => ENUM_OUTPUTS,
            Hook::OutputQueryInterface => QUERY_INTERFACE,
            Hook::DuplicateOutput => DUPLICATE_OUTPUT,
            Hook::DuplicateOutput1 => DUPLICATE_OUTPUT1,
        }
    }
}

/// A slot to patch.
#[derive(Debug, Clone, Copy, PartialEq, Eq, Structural)]
pub struct Patch {
    /// The table that the slot is in.
    pub vtable: u64,
    /// The method to redirect.
    pub hook: Hook,
}

/// The methods that the patched slots held.
#[derive(Debug, Clone, Copy, PartialEq, Eq, Structural)]
pub struct Originals {
    pub device_query_interface: Option<u64>,
    pub get_parent: Option<u64>,
    pub enum_outputs: Option<u64>,
    pub output_query_interface: Option<u64>,
    pub duplicate_output: Option<u64>,
    pub duplicate_output1: Option<u64>,
}

impl Originals {
    /// The method behind a hook.
    pub open spec fn of(self, hook: Hook) -> Option<u64> {
        match hook {
            Hook::DeviceQueryInterface => self.device_query_interface,
            Hook::GetParent => self.get_parent,
            Hook::EnumOutputs => self.enum_outputs,
            Hook::OutputQueryInterface => self.output_query_interface,
            Hook::DuplicateOutput => self.duplicate_output,
            Hook::DuplicateOutput1 => self.duplicate_output1,
        }
    }
}

/// What recovery has to ask the system for.
#[derive(Debug, Clone, Copy, PartialEq, Eq, Structural)]
pub struct RecoveryRequest {
    /// The device to go on with.
    pub device: u64,
    /// The output to enumerate again.
    pub output_index: u32,
    /// Whether to duplicate it with `DuplicateOutput1`.
    pub with_formats: bool,
}

/// Everything the hooks know.
#[derive(Debug)]
pub struct Hooks {
    /// The address of `D3D11CreateDevice`, once it is hooked.
    pub create_device: Option<u64>,
    pub patched: PatchRegistry,
    pub originals: Originals,
    /// The arguments of the first device that was created.
    pub device_create_args: Option<DeviceCreateArgs>,
    /// The index of the output that was enumerated last.
    pub last_output_index: u32,
    /// How the last good duplication was made.
    pub last_duplication_source: Option<DuplicationSource>,
}

impl Hooks {
    /// No hooks yet.
    pub fn new() -> (hooks: Hooks)
        ensures
            hooks.create_device is None,
            forall|v: u64, s: u64| !#[trigger] hooks.patched.holds(v, s),
            forall|hook: Hook| (#[trigger] hooks.originals.of(hook)) is None,
            hooks.device_create_args is None,
            hooks.last_output_index == 0,
            hooks.last_duplication_source is None,
    {
        Hooks {
            create_device: None,
            patched: PatchRegistry::new(),
            originals: Originals {
                device_query_interface: None,
                get_parent: None,
                enum_outputs: None,
                output_query_interface: None,
                duplicate_output: None,
                duplicate_output1: None,
            },
            device_create_args: None,
            last_output_index: 0,
            last_duplication_source: None,
        }
    }

    /// Hooks `D3D11CreateDevice`, whose address is `proc`; nothing where its library could not be
    /// loaded or does not have it. Gives the address to put the inline hook at: once only.
    pub fn install(&mut self, proc: Option<u64>) -> (target: Option<u64>)
        ensures
            target == if old(self).create_device is Some {
                None
            } else {
                proc
            },
            *final(self) == (Hooks {
                create_device: if old(self).create_device is Some {
                    old(self).create_device
                } else {
                    proc
                },
                ..*old(self)
            }),
    {
        if self.create_device.is_some() {
            return None;
        }
        self.create_device = proc;
        proc
    }

    /// The patch that installs a hook on a table, where it is not installed yet.
    pub open spec fn patch_for(self, vtable: u64, hook: Hook) -> Option<Patch> {
        if self.patched.holds(vtable, hook.slot() as u64) {
            None
        } else {
            Some(Patch { vtable, hook })
        }
    }

    /// Whether the hooks are as before but for one slot that now counts as patched.
    pub open spec fn marked(self, before: Hooks, vtable: u64, hook: Hook) -> bool {
        &&& self.patched.extends(before.patched, vtable, hook.slot() as u64)
        &&& self.originals == before.originals
        &&& self.create_device == before.create_device
        &&& self.device_create_args == before.device_create_args
        &&& self.last_output_index == before.last_output_index
        &&& self.last_duplication_source == before.last_duplication_source
    }

    fn mark(&mut self, vtable: u64, hook: Hook) -> (patch: Option<Patch>)
        ensures
            patch == old(self).patch_for(vtable, hook),
            final(self).marked(*old(self), vtable, hook),
    {
        let slot: usize = hook.slot_index();
        if self.patched.already_patched(vtable, slot as u64) {
            None
        } else {
            Some(Patch { vtable, hook })
        }
    }

    /// Hooks `QueryInterface` of a device, by its table, the first time that the table is seen.
    pub fn install_device_hooks(&mut self, vtable: u64) -> (patch: Option<Patch>)
        ensures
            patch == old(self).patch_for(vtable, Hook::DeviceQueryInterface),
            final(self).marked(*old(self), vtable, Hook::DeviceQueryInterface),
    {
        self.mark(vtable, Hook::DeviceQueryInterface)
    }

    /// Hooks `EnumOutputs` of an adapter, by its table, the first time that the table is seen.
    pub fn install_adapter_hooks(&mut self, vtable: u64) -> (patch: Option<Patch>)
        ensures
            patch == old(self).patch_for(vtable, Hook::EnumOutputs),
            final(self).marked(*old(self), vtable, Hook::EnumOutputs),
    {
        self.mark(vtable, Hook::EnumOutputs)
    }

    /// Hooks `QueryInterface` of an output, by its table, the first time that the table is seen.
    pub fn install_output_hooks(&mut self, vtable: u64) -> (patch: Option<Patch>)
        ensures
            patch == old(self).patch_for(vtable, Hook::OutputQueryInterface),
            final(self).marked(*old(self), vtable, Hook::OutputQueryInterface),
    {
        self.mark(vtable, Hook::OutputQueryInterface)
    }

    /// Takes what a slot held before it was patched.
    pub fn record_original(&mut self, hook: Hook, original: u64)
        ensures
            forall|h: Hook| #[trigger]
                final(self).originals.of(h) == if h == hook {
                    Some(original)
                } else {
                    old(self).originals.of(h)
                },
            *final(self) == (Hooks { originals: final(self).originals, ..*old(self) }),
    {
        match hook {
            Hook::DeviceQueryInterface => {
                self.originals.device_query_interface = Some(original);
            },
            Hook::GetParent => {
                self.originals.get_parent = Some(original);
            },
            Hook::EnumOutputs => {
                self.originals.enum_outputs = Some(original);
            },
            Hook::OutputQueryInterface => {
                self.originals.output_query_interface = Some(original);
            },
            Hook::DuplicateOutput => {
                self.originals.duplicate_output = Some(original);
            },
            Hook::DuplicateOutput1 => {
                self.originals.duplicate_output1 = Some(original);
            },
        }
    }

    /// The method to call in place of a hook.
    pub fn original(&self, hook: Hook) -> (original: Option<u64>)
        ensures
            original == self.originals.of(hook),
    {
        match hook {
            Hook::DeviceQueryInterface => self.originals.device_query_interface,
            Hook::GetParent => self.originals.get_parent,
            Hook::EnumOutputs => self.originals.enum_outputs,
            Hook::OutputQueryInterface => self.originals.output_query_interface,
            Hook::DuplicateOutput => self.originals.duplicate_output,
            Hook::DuplicateOutput1 => self.originals.duplicate_output1,
        }
    }

    /// A call of `D3D11CreateDevice` has ended with the code `hr`; `device` is the table of the
    /// new device, if there is one. The arguments of the first such call are kept.
    pub fn observe_create_device(&mut self, hr: i32, device: Option<u64>, args: DeviceCreateArgs)
        -> (patch: Option<Patch>)
        ensures
            match device {
                Some(vtable) if succeeded(hr) => {
                    &&& patch == old(self).patch_for(vtable, Hook::DeviceQueryInterface)
                    &&& final(self).marked(
                        Hooks {
                            device_create_args: match old(self).device_create_args {
                                Some(first) => Some(first),
                                None => Some(args),
                            },
                            ..*old(self)
                        },
                        vtable,
                        Hook::DeviceQueryInterface,
                    )
                },
                _ => patch is None && *final(self) == *old(self),
            },
    {
        if !is_ok(hr) {
            return None;
        }
        match device {
            Some(vtable) => {
                let patch = self.install_device_hooks(vtable);
                if self.device_create_args.is_none() {
                    self.device_create_args = Some(args);
                }
                patch
            },
            None => None,
        }
    }

    /// A call of `QueryInterface` on a device has ended with the code `hr`; `object` is the table
    /// of the interface that was had, if there is one, and `iid` its id.
    pub fn observe_device_query_interface(&mut self, hr: i32, object: Option<u64>, iid: u128) -> (
        patch: Option<Patch>)
        ensures
            match object {
                Some(vtable) if succeeded(hr) && iid == IID_IDXGIDEVICE => {
                    &&& patch == old(self).patch_for(vtable, Hook::GetParent)
                    &&& final(self).marked(*old(self), vtable, Hook::GetParent)
                },
                _ => patch is None && *final(self) == *old(self),
            },
    {
        if !is_ok(hr) || iid != IID_IDXGIDEVICE {
            return None;
        }
        match object {
            Some(vtable) => self.mark(vtable, Hook::GetParent),
            None => None,
        }
    }

    /// A call of `GetParent` on a device has ended with the code `hr`; `parent` is the table of
    /// the parent, if there is one, and `riid` its interface id, if one was given.
    pub fn observe_get_parent(&mut self, hr: i32, parent: Option<u64>, riid: Option<u128>) -> (
        patch: Option<Patch>)
        ensures
            match parent {
                Some(vtable) if succeeded(hr) && riid == Some(IID_IDXGIADAPTER) => {
                    &&& patch == old(self).patch_for(vtable, Hook::EnumOutputs)
                    &&& final(self).marked(*old(self), vtable, Hook::EnumOutputs)
                },
                _ => patch is None && *final(self) == *old(self),
            },
    {
        let wanted = match riid {
            Some(id) => id == IID_IDXGIADAPTER,
            None => false,
        };
        if !is_ok(hr) || !wanted {
            return None;
        }
        match parent {
            Some(vtable) => self.install_adapter_hooks(vtable),
            None => None,
        }
    }

    /// A call of `EnumOutputs` for the output `index` has ended with the code `hr`; `output` is
    /// the table of the output, if there is one.
    pub fn observe_enum_outputs(&mut self, hr: i32, index: u32, output: Option<u64>) -> (patch:
        Option<Patch>)
        ensures
            match output {
                Some(vtable) if succeeded(hr) => {
                    &&& patch == old(self).patch_for(vtable, Hook::OutputQueryInterface)
                    &&& final(self).marked(
                        Hooks { last_output_index: index, ..*old(self) },
                        vtable,
                        Hook::OutputQueryInterface,
                    )
                },
                _ => patch is None && *final(self) == *old(self),
            },
    {
        if !is_ok(hr) {
            return None;
        }
        match output {
            Some(vtable) => {
                self.last_output_index = index;
                self.install_output_hooks(vtable)
            },
            None => None,
        }
    }

    /// The hook for an interface of an output.
    pub open spec fn output_hook(iid: u128) -> Option<Hook> {
        if iid == IID_IDXGIOUTPUT1 {
            Some(Hook::DuplicateOutput)
        } else if iid == IID_IDXGIOUTPUT5 {
            Some(Hook::DuplicateOutput1)
        } else {
            None
        }
    }

    /// A call of `QueryInterface` on an output has ended with the code `hr`; `object` is the table
    /// of the interface that was had, if there is one, and `iid` its id.
    pub fn observe_output_query_interface(&mut self, hr: i32, object: Option<u64>, iid: u128) -> (
        patch: Option<Patch>)
        ensures
            match (object, Self::output_hook(iid)) {
                (Some(vtable), Some(hook)) if succeeded(hr) => {
                    &&& patch == old(self).patch_for(vtable, hook)
                    &&& final(self).marked(*old(self), vtable, hook)
                },
                _ => patch is None && *final(self) == *old(self),
            },
    {
        if !is_ok(hr) {
            return None;
        }
        match object {
            Some(vtable) => {
                if iid == IID_IDXGIOUTPUT1 {
                    self.mark(vtable, Hook::DuplicateOutput)
                } else if iid == IID_IDXGIOUTPUT5 {
                    self.mark(vtable, Hook::DuplicateOutput1)
                } else {
                    None
                }
            },
            None => None,
        }
    }

    /// What recovery has to ask for: on the device of the last good duplication, the output that
    /// was enumerated last.
    pub open spec fn request(self) -> Option<RecoveryRequest> {
        match self.last_duplication_source {
            Some(source) => Some(
                RecoveryRequest {
                    device: source.device(),
                    output_index: self.last_output_index,
                    with_formats: source is V5,
                },
            ),
            None => None,
        }
    }

    /// Tells what recovery has to ask for; nothing where there was no duplication yet.
    pub fn recovery_request(&self) -> (request: Option<RecoveryRequest>)
        ensures
            request == self.request(),
    {
        match &self.last_duplication_source {
            Some(source) => Some(
                RecoveryRequest {
                    device: source.device_of(),
                    output_index: self.last_output_index,
                    with_formats: match source {
                        DuplicationSource::V1 { .. } => false,
                        DuplicationSource::V5 { .. } => true,
                    },
                },
            ),
            None => None,
        }
    }

    /// A call of `DuplicateOutput` or `DuplicateOutput1`, which `source` describes, has ended with
    /// the code `hr`; `instance` is the duplication, if there is one. Gives the proxy to hand out
    /// in its place.
    pub fn observe_duplicate_output(
        &mut self,
        hr: i32,
        instance: Option<u64>,
        source: DuplicationSource,
    ) -> (proxy: Option<DuplicationProxy>)
        ensures
            match instance {
                Some(id) if succeeded(hr) => {
                    &&& proxy matches Some(p) && p.real == Some(id) && p.locked_frame_owner is None
                        && p.source == source && p.stats.calls == 0 && p.stats.hits == 0
                        && p.stats.timeouts == 0 && p.stats.recoveries == 0
                        && p.stats.recovery_failures == 0 && p.stats.last_timeout_ms == 0
                    &&& is_source(final(self).last_duplication_source, source)
                    &&& *final(self) == (Hooks {
                        last_duplication_source: final(self).last_duplication_source,
                        ..*old(self)
                    })
                },
                _ => proxy is None && *final(self) == *old(self),
            },
    {
        if !is_ok(hr) {
            return None;
        }
        match instance {
            Some(id) => Some(
                DuplicationProxy::wrap_duplication(id, source, &mut self.last_duplication_source),
            ),
            None => None,
        }
    }
}

/// A slot is patched once: after it was marked, no state of the hooks that still counts it as
/// patched asks for that patch again.
pub proof fn law_patched_once(before: Hooks, after: Hooks, vtable: u64, hook: Hook)
    requires
        after.marked(before, vtable, hook),
    ensures
        after.patch_for(vtable, hook) is None,
{
}

/// Marks are never lost: a slot that was patched stays so whatever is marked later.
pub proof fn law_patches_stay(
    before: Hooks,
    after: Hooks,
    vtable: u64,
    hook: Hook,
    other: u64,
    other_hook: Hook,
)
    requires
        after.marked(before, other, other_hook),
        before.patch_for(vtable, hook) is None,
    ensures
        after.patch_for(vtable, hook) is None,
{
}

/// Patching one slot of a table leaves its other slots to be patched.
pub proof fn law_slots_are_independent(
    before: Hooks,
    after: Hooks,
    vtable: u64,
    hook: Hook,
    other_hook: Hook,
)
    requires
        after.marked(before, vtable, hook),
        hook.slot() != other_hook.slot(),
    ensures
        after.patch_for(vtable, other_hook) == before.patch_for(vtable, other_hook),
{
}

/// Recovery goes back to the same monitor on the same device: whatever a recovery replaces, the
/// next one asks for the same thing.
pub proof fn law_recovery_stays_on_the_monitor(before: Hooks, after: Hooks, rebuilt: Rebuilt)
    requires
        before.last_duplication_source matches Some(last) && rebuilt.source.same_call(last),
        is_source(after.last_duplication_source, rebuilt.source),
        after.last_output_index == before.last_output_index,
    ensures
        after.request() == before.request(),
{
}

/// Each hook takes the slot that the method has in its interface: `QueryInterface` is the first
/// method of all, and the others stand where the interfaces have them.
pub proof fn law_hooks_take_the_slots_of_their_methods(hook: Hook, slot: usize)
    requires
        call_ensures(Hook::slot_index, (hook,), slot),
    ensures
        hook is DeviceQueryInterface || hook is OutputQueryInterface ==> slot == 0,
        hook is GetParent ==> slot == 6,
        hook is EnumOutputs ==> slot == 7,
        hook is DuplicateOutput ==> slot == 22,
        hook is DuplicateOutput1 ==> slot == 26,
{
}

/// `D3D11CreateDevice` is hooked once: the first address is the one to hook, and it is remembered;
/// after it no other is asked for. Without an address there is nothing to hook, and a later one is
/// still taken.
pub proof fn law_create_device_is_hooked_once(
    hooks: &mut Hooks,
    proc: Option<u64>,
    target: Option<u64>,
    again: &mut Hooks,
    other: Option<u64>,
    second: Option<u64>,
)
    requires
        old(hooks).create_device is None,
        call_ensures(Hooks::install, (hooks, proc), target),
        *old(again) == *final(hooks),
        call_ensures(Hooks::install, (again, other), second),
    ensures
        target == proc,
        final(hooks).create_device == proc,
        proc is Some ==> second is None && *final(again) == *final(hooks),
        proc is None ==> second == other && final(again).create_device == other,
        final(hooks).patched == old(hooks).patched,
        final(hooks).originals == old(hooks).originals,
        final(hooks).device_create_args == old(hooks).device_create_args,
        final(hooks).last_output_index == old(hooks).last_output_index,
        final(hooks).last_duplication_source == old(hooks).last_duplication_source,
{
}

/// What a slot held is what is called in place of the hook, and what the other slots held stays.
pub proof fn law_originals_are_given_back(
    hooks: &mut Hooks,
    hook: Hook,
    original: u64,
    asked: Hook,
    before: Option<u64>,
    after: Option<u64>,
)
    requires
        call_ensures(Hooks::original, (&*old(hooks), asked), before),
        call_ensures(Hooks::record_original, (hooks, hook, original), ()),
        call_ensures(Hooks::original, (&*final(hooks), asked), after),
    ensures
        asked == hook ==> after == Some(original),
        asked != hook ==> after == before,
        final(hooks).patched == old(hooks).patched,
        final(hooks).create_device == old(hooks).create_device,
        final(hooks).device_create_args == old(hooks).device_create_args,
        final(hooks).last_output_index == old(hooks).last_output_index,
        final(hooks).last_duplication_source == old(hooks).last_duplication_source,
{
}

/// The methods that hooks remember before any was recorded: none.
pub proof fn law_hooks_start_empty(hooks: Hooks, hook: Hook, original: Option<u64>)
    requires
        call_ensures(Hooks::new, (), hooks),
        call_ensures(Hooks::original, (&hooks, hook), original),
    ensures
        original is None,
        hooks.create_device is None,
        hooks.device_create_args is None,
        hooks.last_duplication_source is None,
        hooks.last_output_index == 0,
        forall|vtable: u64, slot: u64| !#[trigger] hooks.patched.holds(vtable, slot),
{
}

/// A new device is hooked on `QueryInterface` the first time that its table is seen, and the
/// arguments of the first one are kept. A call that failed changes nothing.
pub proof fn law_new_devices_are_hooked(
    hooks: &mut Hooks,
    hr: i32,
    device: Option<u64>,
    args: DeviceCreateArgs,
    patch: Option<Patch>,
)
    requires
        call_ensures(Hooks::observe_create_device, (hooks, hr, device, args), patch),
    ensures
        hr < 0 || device is None ==> patch is None && *final(hooks) == *old(hooks),
        hr >= 0 ==> (device matches Some(vtable) ==> {
            &&& patch == (if old(hooks).patched.holds(vtable, 0) {
                None
            } else {
                Some(Patch { vtable, hook: Hook::DeviceQueryInterface })
            })
            &&& forall|v: u64, s: u64| #[trigger]
                final(hooks).patched.holds(v, s) <==> old(hooks).patched.holds(v, s) || (v == vtable
                    && s == 0)
            &&& final(hooks).device_create_args == (if old(hooks).device_create_args is Some {
                old(hooks).device_create_args
            } else {
                Some(args)
            })
        }),
        final(hooks).originals == old(hooks).originals,
        final(hooks).create_device == old(hooks).create_device,
        final(hooks).last_output_index == old(hooks).last_output_index,
        final(hooks).last_duplication_source == old(hooks).last_duplication_source,
{
}

/// Of the interfaces of a device only `IDXGIDevice` is hooked, on `GetParent`, the first time that
/// its table is seen.
pub proof fn law_dxgi_devices_are_hooked(
    hooks: &mut Hooks,
    hr: i32,
    object: Option<u64>,
    iid: u128,
    patch: Option<Patch>,
)
    requires
        call_ensures(Hooks::observe_device_query_interface, (hooks, hr, object, iid), patch),
    ensures
        hr < 0 || object is None || iid != 0x54ec77fa_1377_44e6_8c32_88fd5f44c84c ==> patch is None
            && *final(hooks) == *old(hooks),
        hr >= 0 && iid == 0x54ec77fa_1377_44e6_8c32_88fd5f44c84c ==> (object matches Some(vtable)
            ==> {
            &&& patch == (if old(hooks).patched.holds(vtable, 6) {
                None
            } else {
                Some(Patch { vtable, hook: Hook::GetParent })
            })
            &&& forall|v: u64, s: u64| #[trigger]
                final(hooks).patched.holds(v, s) <==> old(hooks).patched.holds(v, s) || (v == vtable
                    && s == 6)
        }),
        final(hooks).originals == old(hooks).originals,
        final(hooks).create_device == old(hooks).create_device,
        final(hooks).device_create_args == old(hooks).device_create_args,
        final(hooks).last_output_index == old(hooks).last_output_index,
        final(hooks).last_duplication_source == old(hooks).last_duplication_source,
{
}

/// Of the parents of a device only an `IDXGIAdapter` is hooked, on `EnumOutputs`, the first time
/// that its table is seen.
pub proof fn law_adapters_are_hooked(
    hooks: &mut Hooks,
    hr: i32,
    parent: Option<u64>,
    riid: Option<u128>,
    patch: Option<Patch>,
)
    requires
        call_ensures(Hooks::observe_get_parent, (hooks, hr, parent, riid), patch),
    ensures
        hr < 0 || parent is None || riid != Some(0x2411e7e1_12ac_4ccf_bd14_9798e8534dc0u128)
            ==> patch is None && *final(hooks) == *old(hooks),
        hr >= 0 && riid == Some(0x2411e7e1_12ac_4ccf_bd14_9798e8534dc0u128) ==> (
        parent matches Some(vtable) ==> {
            &&& patch == (if old(hooks).patched.holds(vtable, 7) {
                None
            } else {
                Some(Patch { vtable, hook: Hook::EnumOutputs })
            })
            &&& forall|v: u64, s: u64| #[trigger]
                final(hooks).patched.holds(v, s) <==> old(hooks).patched.holds(v, s) || (v == vtable
                    && s == 7)
        }),
        final(hooks).originals == old(hooks).originals,
        final(hooks).create_device == old(hooks).create_device,
        final(hooks).device_create_args == old(hooks).device_create_args,
        final(hooks).last_output_index == old(hooks).last_output_index,
        final(hooks).last_duplication_source == old(hooks).last_duplication_source,
{
}

/// Every output that is enumerated is hooked on `QueryInterface` the first time that its table is
/// seen, and its index is remembered. A call that failed changes nothing.
pub proof fn law_outputs_are_hooked(
    hooks: &mut Hooks,
    hr: i32,
    index: u32,
    output: Option<u64>,
    patch: Option<Patch>,
)
    requires
        call_ensures(Hooks::observe_enum_outputs, (hooks, hr, index, output), patch),
    ensures
        hr < 0 || output is None ==> patch is None && *final(hooks) == *old(hooks),
        hr >= 0 ==> (output matches Some(vtable) ==> {
            &&& patch == (if old(hooks).patched.holds(vtable, 0) {
                None
            } else {
                Some(Patch { vtable, hook: Hook::OutputQueryInterface })
            })
            &&& forall|v: u64, s: u64| #[trigger]
                final(hooks).patched.holds(v, s) <==> old(hooks).patched.holds(v, s) || (v == vtable
                    && s == 0)
            &&& final(hooks).last_output_index == index
        }),
        final(hooks).originals == old(hooks).originals,
        final(hooks).create_device == old(hooks).create_device,
        final(hooks).device_create_args == old(hooks).device_create_args,
        final(hooks).last_duplication_source == old(hooks).last_duplication_source,
{
}

/// Of the interfaces of an output two are hooked, the first time that their table is seen:
/// `IDXGIOutput1` on `DuplicateOutput` and `IDXGIOutput5` on `DuplicateOutput1`.
pub proof fn law_duplications_are_hooked(
    hooks: &mut Hooks,
    hr: i32,
    object: Option<u64>,
    iid: u128,
    patch: Option<Patch>,
)
    requires
        call_ensures(Hooks::observe_output_query_interface, (hooks, hr, object, iid), patch),
    ensures
        hr < 0 || object is None || (iid != 0x00cddea8_939b_4b83_a340_a685226666cc && iid
            != 0x80a07424_ab52_42eb_833c_0c42fd282d98) ==> patch is None && *final(hooks) == *old(
            hooks,
        ),
        hr >= 0 && iid == 0x00cddea8_939b_4b83_a340_a685226666cc ==> (object matches Some(vtable)
            ==> {
            &&& patch == (if old(hooks).patched.holds(vtable, 22) {
                None
            } else {
                Some(Patch { vtable, hook: Hook::DuplicateOutput })
            })
            &&& forall|v: u64, s: u64| #[trigger]
                final(hooks).patched.holds(v, s) <==> old(hooks).patched.holds(v, s) || (v == vtable
                    && s == 22)
        }),
        hr >= 0 && iid == 0x80a07424_ab52_42eb_833c_0c42fd282d98 ==> (object matches Some(vtable)
            ==> {
            &&& patch == (if old(hooks).patched.holds(vtable, 26) {
                None
            } else {
                Some(Patch { vtable, hook: Hook::DuplicateOutput1 })
            })
            &&& forall|v: u64, s: u64| #[trigger]
                final(hooks).patched.holds(v, s) <==> old(hooks).patched.holds(v, s) || (v == vtable
                    && s == 26)
        }),
        final(hooks).originals == old(hooks).originals,
        final(hooks).create_device == old(hooks).create_device,
        final(hooks).device_create_args == old(hooks).device_create_args,
        final(hooks).last_output_index == old(hooks).last_output_index,
        final(hooks).last_duplication_source == old(hooks).last_duplication_source,
{
}

/// Every duplication that is made is handed out behind a proxy, and recovery then asks for its
/// device and for the output that was enumerated last, by the call that made it. A call that failed
/// changes nothing.
pub proof fn law_recovery_asks_for_the_last_duplication(
    hooks: &mut Hooks,
    hr: i32,
    instance: Option<u64>,
    source: DuplicationSource,
    proxy: Option<DuplicationProxy>,
    request: Option<RecoveryRequest>,
)
    requires
        call_ensures(Hooks::observe_duplicate_output, (hooks, hr, instance, source), proxy),
        call_ensures(Hooks::recovery_request, (&*final(hooks),), request),
    ensures
        hr < 0 || instance is None ==> proxy is None && *final(hooks) == *old(hooks),
        hr >= 0 && instance is Some ==> {
            &&& proxy matches Some(p) && p.real == instance && p.locked_frame_owner is None
                && p.source == source
            &&& request matches Some(asked) && asked.output_index == old(hooks).last_output_index
                && (source matches DuplicationSource::V1 { device, .. } ==> asked.device == device
                && !asked.with_formats) && (source matches DuplicationSource::V5 { device, .. }
                ==> asked.device == device && asked.with_formats)
        },
        final(hooks).last_duplication_source is None ==> request is None,
        final(hooks).patched == old(hooks).patched,
        final(hooks).originals == old(hooks).originals,
        final(hooks).create_device == old(hooks).create_device,
        final(hooks).device_create_args == old(hooks).device_create_args,
        final(hooks).last_output_index == old(hooks).last_output_index,
{
}

/// A hook goes into a table once, however often the table is seen, and whichever of the three
/// methods that install by table is asked.
pub proof fn law_tables_are_hooked_once(
    hooks: &mut Hooks,
    vtable: u64,
    patch: Option<Patch>,
    again: &mut Hooks,
    second: Option<Patch>,
)
    requires
        *old(again) == *final(hooks),
        ({
            ||| call_ensures(Hooks::install_device_hooks, (hooks, vtable), patch) && call_ensures(
                Hooks::install_device_hooks,
                (again, vtable),
                second,
            )
            ||| call_ensures(Hooks::install_adapter_hooks, (hooks, vtable), patch) && call_ensures(
                Hooks::install_adapter_hooks,
                (again, vtable),
                second,
            )
            ||| call_ensures(Hooks::install_output_hooks, (hooks, vtable), patch) && call_ensures(
                Hooks::install_output_hooks,
                (again, vtable),
                second,
            )
        }),
    ensures
        second is None,
        patch matches Some(p) ==> p.vtable == vtable,
        patch is None ==> exists|s: u64| #[trigger] old(hooks).patched.holds(vtable, s),
        final(again).originals == old(hooks).originals,
{
}

} // verus!
