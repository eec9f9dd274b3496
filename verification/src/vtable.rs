//! Patching method tables and the first bytes of functions.
//!
//! Memory is changed here as plain slices; whoever owns it makes it writable before and restores
//! its protection after.
use std::collections::HashSet;
use vstd::prelude::*;

verus! {

broadcast use vstd::std_specs::hash::group_hash_axioms;

/// The slots that were patched, each in the table it belongs to.
///
/// A single table often serves a whole chain of interfaces, so one table may be patched in several
/// slots.
#[derive(Debug)]
pub struct PatchRegistry {
    keys: HashSet<u128>,
}

/// One number for a slot of a table.
pub closed spec fn slot_key(vtable: u64, slot: u64) -> u128 {
    (vtable * 0x1_0000_0000_0000_0000 + slot) as u128
}

/// No two slots have the same number.
proof fn lemma_slot_key_is_injective(vtable: u64, slot: u64, other_vtable: u64, other_slot: u64)
    ensures
        slot_key(vtable, slot) == slot_key(other_vtable, other_slot) ==> vtable == other_vtable
            && slot == other_slot,
{
}

impl PatchRegistry {
    /// Whether a slot of a table was patched.
    pub closed spec fn holds(self, vtable: u64, slot: u64) -> bool {
        self.keys@.contains(slot_key(vtable, slot))
    }

    /// No patches yet.
    pub fn new() -> (registry: PatchRegistry)
        ensures
            forall|v: u64, s: u64| !#[trigger] registry.holds(v, s),
    {
        PatchRegistry { keys: HashSet::new() }
    }

    /// Whether a registry holds the slots of another and one more.
    pub open spec fn extends(self, before: PatchRegistry, vtable: u64, slot: u64) -> bool {
        forall|v: u64, s: u64| #[trigger]
            self.holds(v, s) <==> before.holds(v, s) || (v == vtable && s == slot)
    }

    /// Tells whether a slot of a table was patched before; from now on it counts as patched.
    pub fn already_patched(&mut self, vtable: u64, slot: u64) -> (already: bool)
        ensures
            already == old(self).holds(vtable, slot),
            final(self).extends(*old(self), vtable, slot),
    {
        let key: u128 = vtable as u128 * 0x1_0000_0000_0000_0000 + slot as u128;
        let fresh = self.keys.insert(key);
        proof {
            assert forall|v: u64, s: u64| #[trigger] self.holds(v, s) <==> old(self).holds(v, s)
                || (v == vtable && s == slot) by {
                lemma_slot_key_is_injective(v, s, vtable, slot);
            }
        }
        !fresh
    }
}

/// Replaces one slot of a table and gives back what it held.
pub fn patch_slot(table: &mut [usize], slot_index: usize, new_fn: usize) -> (original: usize)
    requires
        slot_index < old(table)@.len(),
    ensures
        final(table)@ == old(table)@.update(slot_index as int, new_fn),
        original == old(table)@[slot_index as int],
{
    let original: usize = table[slot_index];
    table[slot_index] = new_fn;
    original
}

/// The number of bytes that an inline hook takes.
pub const STUB_LEN: usize = 12;

/// Byte `k` of a number, counted from the least.
pub open spec fn byte_of(n: u64, k: nat) -> u8
    decreases k,
{
    if k == 0 {
        (n % 256) as u8
    } else {
        byte_of(n / 256, (k - 1) as nat)
    }
}

/// The machine code `mov rax, detour; jmp rax`.
pub open spec fn stub(detour: u64) -> Seq<u8> {
    seq![0x48u8, 0xB8u8] + Seq::new(8, |k: int| byte_of(detour, k as nat)) + seq![0xFFu8, 0xE0u8]
}

/// The number whose bytes stand in `bytes`, the least first.
pub open spec fn number_of(bytes: Seq<u8>) -> nat
    decreases bytes.len(),
{
    if bytes.len() == 0 {
        0
    } else {
        bytes[0] as nat + 256 * number_of(bytes.skip(1))
    }
}

/// An inline hook on a function: where it is and which bytes it has replaced.
#[derive(Debug)]
pub struct InlineHook {
    pub target: u64,
    pub original_bytes: Vec<u8>,
}

/// The code with its first bytes replaced.
pub open spec fn with_head(code: Seq<u8>, head: Seq<u8>) -> Seq<u8> {
    head + code.skip(head.len() as int)
}

fn write_head(code: &mut [u8], head: &Vec<u8>)
    requires
        head@.len() <= old(code)@.len(),
    ensures
        final(code)@ == with_head(old(code)@, head@),
{
    let mut i: usize = 0;
    while i < head.len()
        invariant
            i <= head@.len() <= code@.len(),
            code@ == with_head(old(code)@, head@.take(i as int)),
            code@.len() == old(code)@.len(),
        decreases head.len() - i,
    {
        code[i] = head[i];
        i += 1;
        assert(code@ =~= with_head(old(code)@, head@.take(i as int)));
    }
    assert(head@.take(head@.len() as int) =~= head@);
}

fn read_head(code: &[u8]) -> (head: Vec<u8>)
    requires
        code@.len() >= STUB_LEN,
    ensures
        head@ == code@.take(STUB_LEN as int),
{
    let mut head: Vec<u8> = Vec::new();
    let mut i: usize = 0;
    while i < STUB_LEN
        invariant
            i <= STUB_LEN <= code@.len(),
            head@ == code@.take(i as int),
        decreases STUB_LEN - i,
    {
        head.push(code[i]);
        i += 1;
        assert(head@ =~= code@.take(i as int));
    }
    head
}

/// Writes the machine code `mov rax, detour; jmp rax`.
pub fn make_stub(detour: u64) -> (code: Vec<u8>)
    ensures
        code@ == stub(detour),
        code@.len() == STUB_LEN,
{
    let mut code: Vec<u8> = Vec::new();
    code.push(0x48);
    code.push(0xB8);
    let mut rest: u64 = detour;
    let mut k: usize = 0;
    while k < 8
        invariant
            k <= 8,
            code@ == stub(detour).take(2 + k as int),
            forall|j: nat| #[trigger] byte_of(rest, j) == byte_of(detour, k as nat + j),
        decreases 8 - k,
    {
        let ghost before = rest;
        assert(byte_of(rest, 0) == byte_of(detour, k as nat));
        code.push((rest % 256) as u8);
        rest = rest / 256;
        assert forall|j: nat| #[trigger] byte_of(rest, j) == byte_of(detour, k as nat + 1 + j) by {
            assert(byte_of(before, j + 1) == byte_of(detour, k as nat + (j + 1)));
        }
        k += 1;
        assert(code@ =~= stub(detour).take(2 + k as int));
    }
    code.push(0xFF);
    code.push(0xE0);
    assert(code@ =~= stub(detour));
    code
}

impl InlineHook {
    /// A hook keeps as many bytes as it replaces.
    pub open spec fn wf(self) -> bool {
        self.original_bytes@.len() == STUB_LEN
    }

    /// Redirects the function at the address `target`, whose code is given, to `detour`.
    pub fn install(target: u64, code: &mut [u8], detour: u64) -> (hook: InlineHook)
        requires
            old(code)@.len() >= STUB_LEN,
        ensures
            hook.wf(),
            hook.target == target,
            hook.original_bytes@ == old(code)@.take(STUB_LEN as int),
            final(code)@ == with_head(old(code)@, stub(detour)),
    {
        let original_bytes = read_head(code);
        let stub_bytes = make_stub(detour);
        write_head(code, &stub_bytes);
        InlineHook { target, original_bytes }
    }

    /// Puts the original bytes back for a call to the function itself, and gives the bytes that
    /// stood there.
    pub fn begin_call_through(&self, code: &mut [u8]) -> (saved: Vec<u8>)
        requires
            self.wf(),
            old(code)@.len() >= STUB_LEN,
        ensures
            saved@ == old(code)@.take(STUB_LEN as int),
            final(code)@ == with_head(old(code)@, self.original_bytes@),
    {
        let saved = read_head(code);
        write_head(code, &self.original_bytes);
        saved
    }

    /// Ends the call: the bytes that stood there before it stand there again.
    pub fn end_call_through(&self, code: &mut [u8], saved: &Vec<u8>)
        requires
            saved@.len() <= old(code)@.len(),
        ensures
            final(code)@ == with_head(old(code)@, saved@),
    {
        write_head(code, saved);
    }
}

/// During a call through an installed hook the function has its original code, and after the call
/// it is hooked again.
pub proof fn law_call_through(code: Seq<u8>, detour: u64)
    requires
        code.len() >= STUB_LEN,
    ensures
        ({
            let original = code.take(STUB_LEN as int);
            let hooked = with_head(code, stub(detour));
            let saved = hooked.take(STUB_LEN as int);
            let during = with_head(hooked, original);
            &&& during == code
            &&& with_head(during, saved) == hooked
        }),
{
    let original = code.take(STUB_LEN as int);
    let hooked = with_head(code, stub(detour));
    let saved = hooked.take(STUB_LEN as int);
    let during = with_head(hooked, original);
    assert(during =~= code);
    assert(saved =~= stub(detour));
    assert(with_head(during, saved) =~= hooked);
}

/// The machine code jumps to the detour: the operand of its `mov` is the detour's address.
pub proof fn law_stub_reaches_detour(detour: u64)
    ensures
        stub(detour).len() == STUB_LEN,
        number_of(stub(detour).subrange(2, 10)) == detour,
{
    lemma_number_of_bytes(detour, 8);
    assert(stub(detour).subrange(2, 10) =~= Seq::new(8, |k: int| byte_of(detour, k as nat)));
}

proof fn lemma_number_of_bytes(n: u64, len: nat)
    requires
        len == 8 || len < 8 && n < vstd::arithmetic::power::pow(256, len),
    ensures
        number_of(Seq::new(len, |k: int| byte_of(n, k as nat))) == n,
    decreases len,
{
    let bytes = Seq::new(len, |k: int| byte_of(n, k as nat));
    reveal(vstd::arithmetic::power::pow);
    if len > 0 {
        let rest = Seq::new((len - 1) as nat, |k: int| byte_of(n / 256, k as nat));
        assert(bytes.skip(1) =~= rest) by {
            assert forall|k: int| 0 <= k < len - 1 implies bytes.skip(1)[k] == rest[k] by {
                assert(byte_of(n, (k + 1) as nat) == byte_of(n / 256, k as nat));
            }
        }
        assert(vstd::arithmetic::power::pow(256, 7) == 0x100_0000_0000_0000) by {
            reveal_with_fuel(vstd::arithmetic::power::pow, 8);
        }
        assert(vstd::arithmetic::power::pow(256, len) == 256 * vstd::arithmetic::power::pow(
            256,
            (len - 1) as nat,
        ));
        lemma_number_of_bytes(n / 256, (len - 1) as nat);
        assert(n == n % 256 + 256 * (n / 256));
    } else {
        assert(vstd::arithmetic::power::pow(256, 0) == 1);
    }
}

/// A slot counts as patched from the first time that it is asked about, and no other slot does.
pub proof fn law_first_time_is_noticed(
    registry: &mut PatchRegistry,
    vtable: u64,
    slot: u64,
    first: bool,
    again: &mut PatchRegistry,
    other_vtable: u64,
    other_slot: u64,
    second: bool,
)
    requires
        call_ensures(PatchRegistry::already_patched, (registry, vtable, slot), first),
        *old(again) == *final(registry),
        call_ensures(PatchRegistry::already_patched, (again, other_vtable, other_slot), second),
    ensures
        first == old(registry).holds(vtable, slot),
        (other_vtable, other_slot) == (vtable, slot) ==> second,
        (other_vtable, other_slot) != (vtable, slot) ==> second == old(registry).holds(
            other_vtable,
            other_slot,
        ),
{
}

/// A patched slot holds the new method and every other slot what it held; patching the slot with
/// what it held before restores the table and gives the new method back.
pub proof fn law_patch_can_be_undone(
    table: &mut [usize],
    slot: usize,
    new_fn: usize,
    original: usize,
    again: &mut [usize],
    second: usize,
)
    requires
        slot < old(table)@.len(),
        call_ensures(patch_slot, (table, slot, new_fn), original),
        old(again)@ == final(table)@,
        call_ensures(patch_slot, (again, slot, original), second),
    ensures
        final(table)@.len() == old(table)@.len(),
        final(table)@[slot as int] == new_fn,
        forall|i: int|
            0 <= i < old(table)@.len() && i != slot ==> #[trigger] final(table)@[i] == old(table)@[i],
        second == new_fn,
        final(again)@ == old(table)@,
{
    assert(final(again)@ =~= old(table)@);
}

/// The twelve bytes of a stub: the code of `mov rax`, the address with its least byte first, and
/// the code of `jmp rax`.
pub proof fn law_bytes_of_a_stub(detour: u64, code: Vec<u8>)
    requires
        call_ensures(make_stub, (detour,), code),
    ensures
        code@.len() == 12,
        code@[0] == 0x48 && code@[1] == 0xb8,
        code@[10] == 0xff && code@[11] == 0xe0,
        detour == code@[2] + 0x100 * code@[3] + 0x1_0000 * code@[4] + 0x100_0000 * code@[5]
            + 0x1_0000_0000 * code@[6] + 0x100_0000_0000 * code@[7] + 0x1_0000_0000_0000 * code@[8]
            + 0x100_0000_0000_0000 * code@[9],
{
    reveal_with_fuel(byte_of, 9);
    let n0 = detour as int;
    let n1 = n0 / 256;
    let n2 = n1 / 256;
    let n3 = n2 / 256;
    let n4 = n3 / 256;
    let n5 = n4 / 256;
    let n6 = n5 / 256;
    let n7 = n6 / 256;
    assert(code@[2] == byte_of(detour, 0));
    assert(code@[3] == byte_of(detour, 1));
    assert(code@[4] == byte_of(detour, 2));
    assert(code@[5] == byte_of(detour, 3));
    assert(code@[6] == byte_of(detour, 4));
    assert(code@[7] == byte_of(detour, 5));
    assert(code@[8] == byte_of(detour, 6));
    assert(code@[9] == byte_of(detour, 7));
    assert(n7 < 256);
}

/// A hooked function starts with the stub and goes on as before; calling through restores its code
/// for the time of the call and hooks it again afterwards.
pub proof fn law_hook_and_call_through(
    target: u64,
    code: &mut [u8],
    detour: u64,
    hook: InlineHook,
    stub_bytes: Vec<u8>,
    during: &mut [u8],
    saved: Vec<u8>,
    after: &mut [u8],
)
    requires
        old(code)@.len() >= 12,
        call_ensures(InlineHook::install, (target, code, detour), hook),
        call_ensures(make_stub, (detour,), stub_bytes),
        old(during)@ == final(code)@,
        call_ensures(InlineHook::begin_call_through, (&hook, during), saved),
        old(after)@ == final(during)@,
        call_ensures(InlineHook::end_call_through, (&hook, after, &saved), ()),
    ensures
        hook.target == target,
        final(code)@.len() == old(code)@.len(),
        final(code)@.take(12) == stub_bytes@,
        forall|i: int| 12 <= i < old(code)@.len() ==> #[trigger] final(code)@[i] == old(code)@[i],
        final(during)@ == old(code)@,
        final(after)@ == final(code)@,
{
    law_call_through(old(code)@, detour);
    law_bytes_of_a_stub(detour, stub_bytes);
    assert(final(code)@.take(12) =~= stub_bytes@);
}

/// No slot counts as patched at first.
pub proof fn law_nothing_is_patched_at_first(
    registry: PatchRegistry,
    vtable: u64,
    slot: u64,
    used: &mut PatchRegistry,
    already: bool,
)
    requires
        call_ensures(PatchRegistry::new, (), registry),
        *old(used) == registry,
        call_ensures(PatchRegistry::already_patched, (used, vtable, slot), already),
    ensures
        !already,
{
}

} // verus!
