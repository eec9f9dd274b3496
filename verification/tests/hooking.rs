use ddagrab_proxy::dxgi::FAILED;
use ddagrab_proxy::hooks::{
    Hook, Hooks, Patch, RecoveryRequest, IID_IDXGIADAPTER, IID_IDXGIDEVICE, IID_IDXGIOUTPUT1, IID_IDXGIOUTPUT5,
};
use ddagrab_proxy::slots;
use ddagrab_proxy::state::{DeviceCreateArgs, DuplicationSource};
use ddagrab_proxy::vtable::{make_stub, patch_slot, InlineHook, PatchRegistry};

fn args(flags: u32) -> DeviceCreateArgs {
    DeviceCreateArgs {
        adapter: 0,
        driver_type: 1,
        software: 0,
        flags,
        feature_levels: vec![0xb000],
        sdk_version: 7,
    }
}

#[test]
fn slots_of_the_interfaces() {
    assert_eq!(slots::QUERY_INTERFACE, 0);
    assert_eq!(slots::GET_PARENT, 6);
    assert_eq!(slots::GET_ADAPTER, 7);
    assert_eq!(slots::ENUM_OUTPUTS, 7);
    assert_eq!(slots::DUPLICATE_OUTPUT, 22);
    assert_eq!(slots::DUPLICATE_OUTPUT1, 26);
    assert_eq!(slots::ACQUIRE_NEXT_FRAME, 8);
    assert_eq!(slots::RELEASE_FRAME, 14);
}

#[test]
fn slots_are_patched_once_each() {
    let mut r = PatchRegistry::new();
    assert!(!r.already_patched(0x1000, 0));
    assert!(r.already_patched(0x1000, 0));
    assert!(!r.already_patched(0x1000, 22));
    assert!(!r.already_patched(0x2000, 0));
    assert!(r.already_patched(0x1000, 22));
    assert!(!r.already_patched(u64::MAX, u64::MAX));
    assert!(!r.already_patched(0, 0));
}

#[test]
fn a_slot_is_replaced() {
    let mut table = [1usize, 2, 3];
    assert_eq!(patch_slot(&mut table, 1, 9), 2);
    assert_eq!(table, [1, 9, 3]);
}

#[test]
fn the_stub_jumps_to_the_detour() {
    assert_eq!(
        make_stub(0x1122334455667788),
        vec![0x48, 0xB8, 0x88, 0x77, 0x66, 0x55, 0x44, 0x33, 0x22, 0x11, 0xFF, 0xE0]
    );
    let stub = make_stub(u64::MAX - 1);
    let mut operand = [0u8; 8];
    operand.copy_from_slice(&stub[2..10]);
    assert_eq!(u64::from_le_bytes(operand), u64::MAX - 1);
}

#[test]
fn an_inline_hook_is_called_through() {
    let original: Vec<u8> = (1..=16).collect();
    let mut code = original.clone();
    let hook = InlineHook::install(0x7000, &mut code, 42);
    assert_eq!(hook.target, 0x7000);
    assert_eq!(hook.original_bytes, original[..12].to_vec());
    assert_eq!(code[..12], make_stub(42)[..]);
    assert_eq!(code[12..], original[12..]);
    let hooked = code.clone();
    let saved = hook.begin_call_through(&mut code);
    assert_eq!(code, original);
    hook.end_call_through(&mut code, &saved);
    assert_eq!(code, hooked);
}

#[test]
fn device_creation_is_hooked_once() {
    let mut h = Hooks::new();
    assert_eq!(h.install(None), None);
    assert_eq!(h.install(Some(5)), Some(5));
    assert_eq!(h.install(Some(6)), None);
    assert_eq!(h.create_device, Some(5));
}

#[test]
fn the_chain_of_hooks() {
    let mut h = Hooks::new();
    let p = h.observe_create_device(0, Some(0x10), args(1));
    assert_eq!(p, Some(Patch { vtable: 0x10, hook: Hook::DeviceQueryInterface }));
    assert_eq!(h.original(Hook::DeviceQueryInterface), None);
    h.record_original(Hook::DeviceQueryInterface, 0xa1);
    assert_eq!(h.original(Hook::DeviceQueryInterface), Some(0xa1));

    let p = h.observe_device_query_interface(0, Some(0x20), IID_IDXGIDEVICE);
    assert_eq!(p, Some(Patch { vtable: 0x20, hook: Hook::GetParent }));
    let p = h.observe_get_parent(0, Some(0x30), Some(IID_IDXGIADAPTER));
    assert_eq!(p, Some(Patch { vtable: 0x30, hook: Hook::EnumOutputs }));
    let p = h.observe_enum_outputs(0, 2, Some(0x40));
    assert_eq!(p, Some(Patch { vtable: 0x40, hook: Hook::OutputQueryInterface }));
    assert_eq!(h.last_output_index, 2);
    let p = h.observe_output_query_interface(0, Some(0x40), IID_IDXGIOUTPUT1);
    assert_eq!(p, Some(Patch { vtable: 0x40, hook: Hook::DuplicateOutput }));
    let p = h.observe_output_query_interface(0, Some(0x40), IID_IDXGIOUTPUT5);
    assert_eq!(p, Some(Patch { vtable: 0x40, hook: Hook::DuplicateOutput1 }));
    assert_eq!(Hook::DuplicateOutput1.slot_index(), 26);

    assert_eq!(h.observe_create_device(0, Some(0x10), args(2)), None);
    assert_eq!(h.observe_device_query_interface(0, Some(0x20), IID_IDXGIDEVICE), None);
    assert_eq!(h.observe_get_parent(0, Some(0x30), Some(IID_IDXGIADAPTER)), None);
    assert_eq!(h.observe_enum_outputs(0, 3, Some(0x40)), None);
    assert_eq!(h.observe_output_query_interface(0, Some(0x40), IID_IDXGIOUTPUT1), None);
    assert_eq!(h.observe_output_query_interface(0, Some(0x40), IID_IDXGIOUTPUT5), None);
    assert_eq!(h.last_output_index, 3);
    assert_eq!(h.device_create_args.as_ref().unwrap().flags, 1);
}

#[test]
fn failed_and_foreign_calls_are_not_hooked() {
    let mut h = Hooks::new();
    assert_eq!(h.observe_create_device(FAILED, Some(0x10), args(1)), None);
    assert_eq!(h.observe_create_device(0, None, args(1)), None);
    assert!(h.device_create_args.is_none());
    assert_eq!(h.observe_device_query_interface(0, Some(0x20), IID_IDXGIADAPTER), None);
    assert_eq!(h.observe_device_query_interface(FAILED, Some(0x20), IID_IDXGIDEVICE), None);
    assert_eq!(h.observe_get_parent(0, Some(0x30), None), None);
    assert_eq!(h.observe_get_parent(0, None, Some(IID_IDXGIADAPTER)), None);
    assert_eq!(h.observe_enum_outputs(FAILED, 1, Some(0x40)), None);
    assert_eq!(h.last_output_index, 0);
    assert_eq!(h.observe_output_query_interface(0, Some(0x40), IID_IDXGIDEVICE), None);
    assert!(h.observe_device_query_interface(0, Some(0x20), IID_IDXGIDEVICE).is_some());
}

#[test]
fn a_duplication_is_wrapped() {
    let mut h = Hooks::new();
    let source = || DuplicationSource::V1 { output1: 3, device: 4 };
    assert!(h.observe_duplicate_output(FAILED, Some(9), source()).is_none());
    assert!(h.observe_duplicate_output(0, None, source()).is_none());
    assert!(h.last_duplication_source.is_none());
    let proxy = h.observe_duplicate_output(0, Some(9), source()).unwrap();
    assert_eq!(proxy.real, Some(9));
    assert!(matches!(h.last_duplication_source, Some(DuplicationSource::V1 { output1: 3, device: 4 })));
}

#[test]
fn recovery_asks_for_the_same_monitor() {
    let mut h = Hooks::new();
    assert_eq!(h.recovery_request(), None);
    h.observe_enum_outputs(0, 2, Some(0x40));
    assert_eq!(h.recovery_request(), None);
    h.observe_duplicate_output(0, Some(9), DuplicationSource::V1 { output1: 3, device: 4 });
    let request = RecoveryRequest { device: 4, output_index: 2, with_formats: false };
    assert_eq!(h.recovery_request(), Some(request));
    h.last_duplication_source = Some(DuplicationSource::V1 { output1: 8, device: 4 });
    assert_eq!(h.recovery_request(), Some(request));
    let v5 = DuplicationSource::V5 { output5: 3, device: 5, flags: 0, supported_formats: vec![] };
    h.observe_duplicate_output(0, Some(10), v5);
    assert_eq!(
        h.recovery_request(),
        Some(RecoveryRequest { device: 5, output_index: 2, with_formats: true })
    );
}
