//! The virtual display helper: finding the output of a new display, and the words it speaks with
//! its caller.
use vstd::prelude::*;

use crate::cursor::lemma_size_without_a_sign;
use crate::desktop::spells;
use crate::text::{
    decimal, eq_ignore_ascii_case, lemma_same_but_for_case, push_decimal, same_ignoring_case,
    signed_decimal, to_signed_decimal, trim, trimmed,
};
use crate::wide::{
    decode_lossy, decode_name, encode, law_name_round_trip, lemma_until_nul, until_nul,
};

verus! {

/// Whether the description of an output names a display. Such names are the same whatever the
/// case of their letters.
pub open spec fn names_display(desc: Seq<u16>, target: Seq<char>) -> bool {
    same_ignoring_case(decode_lossy(until_nul(desc)), target)
}

/// The first output whose description names a display, from one of them on.
pub open spec fn first_named(descs: Seq<Vec<u16>>, target: Seq<char>, from: int) -> Option<int>
    decreases descs.len() - from,
{
    if from < 0 || from >= descs.len() {
        None
    } else if names_display(descs[from]@, target) {
        Some(from)
    } else {
        first_named(descs, target, from + 1)
    }
}

/// Finds the first output whose description names a display; `descs` holds the names in the
/// descriptions, in the order in which the outputs are enumerated.
pub fn find_dxgi_output_index(descs: &Vec<Vec<u16>>, target_device_name: &str) -> (found: Option<
    u32,
>)
    requires
        descs@.len() <= u32::MAX,
    ensures
        match found {
            Some(i) => {
                &&& i < descs@.len()
                &&& names_display(descs@[i as int]@, target_device_name@)
                &&& forall|j: int|
                    0 <= j < i ==> !#[trigger] names_display(descs@[j]@, target_device_name@)
            },
            None => forall|j: int|
                0 <= j < descs@.len() ==> !#[trigger] names_display(
                    descs@[j]@,
                    target_device_name@,
                ),
        },
        first_named(descs@, target_device_name@, 0) == (match found {
            Some(i) => Some(i as int),
            None => None,
        }),
{
    let mut i: usize = 0;
    while i < descs.len()
        invariant
            i <= descs@.len() <= u32::MAX,
            forall|j: int|
                0 <= j < i ==> !#[trigger] names_display(descs@[j]@, target_device_name@),
            first_named(descs@, target_device_name@, 0) == first_named(
                descs@,
                target_device_name@,
                i as int,
            ),
        decreases descs.len() - i,
    {
        let name = decode_name(descs[i].as_slice());
        if eq_ignore_ascii_case(name.as_str(), target_device_name) {
            return Some(i as u32);
        }
        i += 1;
    }
    None
}

/// The size of a display: that of its mode, or full HD where it has none.
pub fn display_size(mode: Option<(i32, i32)>) -> (size: (u32, u32))
    ensures
        size == match mode {
            Some((width, height)) => (width as u32, height as u32),
            None => (1920u32, 1080u32),
        },
{
    match mode {
        Some((width, height)) => (
            #[verifier::truncate]
            (width as u32),
            #[verifier::truncate]
            (height as u32),
        ),
        None => (1920, 1080),
    }
}

/// The line that tells the caller of a new display.
pub open spec fn announcement(monitor_id: int, output_idx: nat, width: nat, height: nat) -> Seq<
    char,
> {
    "monitor_id="@ + signed_decimal(monitor_id) + " output_idx="@ + decimal(output_idx)
        + " width="@ + decimal(width) + " height="@ + decimal(height)
}

/// Gives the line that tells the caller of a new display.
pub fn ready_line(monitor_id: i32, output_idx: u32, width: u32, height: u32) -> (line: String)
    ensures
        line@ == announcement(
            monitor_id as int,
            output_idx as nat,
            width as nat,
            height as nat,
        ),
{
    let id = to_signed_decimal(monitor_id as i64);
    let mut line = "monitor_id=".to_owned();
    line.append(id.as_str());
    line.append(" output_idx=");
    push_decimal(&mut line, output_idx as u128);
    line.append(" width=");
    push_decimal(&mut line, width as u128);
    line.append(" height=");
    push_decimal(&mut line, height as u128);
    assert(line@ =~= announcement(
        monitor_id as int,
        output_idx as nat,
        width as nat,
        height as nat,
    ));
    line
}

/// Gives the line that tells the caller of the removal of a display.
pub fn removed_line(monitor_id: i32) -> (line: String)
    ensures
        line@ == "removed monitor_id="@ + signed_decimal(monitor_id as int),
{
    let id = to_signed_decimal(monitor_id as i64);
    let mut line = "removed monitor_id=".to_owned();
    line.append(id.as_str());
    line
}

/// Whether a line asks for the removal of the display.
pub open spec fn asks_for_removal(line: Seq<char>) -> bool {
    same_ignoring_case(trimmed(line), "remove"@)
}

/// Takes a line of the caller, or nothing where it could not be read: tells whether to remove the
/// display and end.
pub fn ends_on(line: Option<&str>) -> (end: bool)
    ensures
        end == match line {
            Some(line) => asks_for_removal(line@),
            None => true,
        },
{
    match line {
        Some(line) => {
            let command = trim(line);
            eq_ignore_ascii_case(command.as_str(), "remove")
        },
        None => true,
    }
}

/// A description names a display exactly where the text before its first zero spells the name of
/// the display, each letter in either case; what stands behind the zero does not matter.
pub proof fn law_description_spells_the_name(desc: Seq<u16>, target: Seq<char>, len: int)
    requires
        0 <= len <= desc.len(),
        forall|i: int| 0 <= i < len ==> #[trigger] desc[i] != 0,
        len < desc.len() ==> desc[len] == 0,
    ensures
        names_display(desc, target) <==> spells(decode_lossy(desc.take(len)), target),
{
    lemma_until_nul(desc, len);
    lemma_same_but_for_case(decode_lossy(desc.take(len)), target);
}

/// A display is found by the name that was encoded for it.
pub proof fn law_display_is_found_by_its_name(target: Seq<char>)
    requires
        forall|i: int| 0 <= i < target.len() ==> #[trigger] target[i] != '\0',
    ensures
        names_display(encode(target).push(0), target),
{
    law_name_round_trip(target);
}

/// A display has the size of its mode, taken without a sign, and full HD where it has none.
pub proof fn law_size_of_the_mode(mode: Option<(i32, i32)>, size: (u32, u32))
    requires
        call_ensures(display_size, (mode,), size),
    ensures
        mode is None ==> size == (1920u32, 1080u32),
        mode matches Some((width, height)) ==> {
            &&& width >= 0 ==> size.0 == width
            &&& height >= 0 ==> size.1 == height
            &&& width < 0 ==> size.0 == width + 0x1_0000_0000
            &&& height < 0 ==> size.1 == height + 0x1_0000_0000
        },
{
    if let Some((width, height)) = mode {
        lemma_size_without_a_sign(width);
        lemma_size_without_a_sign(height);
    }
}

/// The words of the helper: the four numbers of a new display, each behind its name and in decimal,
/// and the number of one that was removed.
pub proof fn law_words_of_the_helper(
    monitor_id: i32,
    output_idx: u32,
    width: u32,
    height: u32,
    line: String,
    removed: String,
    id: String,
    output: String,
    w: String,
    h: String,
)
    requires
        call_ensures(ready_line, (monitor_id, output_idx, width, height), line),
        call_ensures(removed_line, (monitor_id,), removed),
        call_ensures(to_signed_decimal, (monitor_id as i64,), id),
        call_ensures(crate::text::to_decimal, (output_idx as u128,), output),
        call_ensures(crate::text::to_decimal, (width as u128,), w),
        call_ensures(crate::text::to_decimal, (height as u128,), h),
    ensures
        line@ == "monitor_id="@ + id@ + " output_idx="@ + output@ + " width="@ + w@ + " height="@
            + h@,
        removed@ == "removed monitor_id="@ + id@,
{
}

/// The display is removed at the word "remove", in whatever case and with white space around it or
/// not, and where nothing more can be read; any other line changes nothing.
pub proof fn law_removal_is_asked_for(
    line: Option<&str>,
    end: bool,
    text: &str,
    command: String,
)
    requires
        call_ensures(ends_on, (line,), end),
        line matches Some(read) ==> read@ == text@,
        call_ensures(trim, (text,), command),
    ensures
        line is None ==> end,
        line is Some && command@ == "remove"@ ==> end,
        line is Some ==> (end <==> spells(command@, "remove"@)),
{
    lemma_same_but_for_case(command@, "remove"@);
    reveal_strlit("remove");
}

proof fn lemma_first_named(descs: Seq<Vec<u16>>, target: Seq<char>, from: int, i: int)
    requires
        0 <= from <= i <= descs.len(),
        forall|j: int| from <= j < i ==> !#[trigger] names_display(descs[j]@, target),
        i < descs.len() ==> names_display(descs[i]@, target),
    ensures
        first_named(descs, target, from) == (if i < descs.len() {
            Some(i)
        } else {
            None
        }),
    decreases i - from,
{
    if from < i {
        lemma_first_named(descs, target, from + 1, i);
    }
}

/// The first output of the name is found, where there is one; `i` is its place, or the number of
/// outputs where there is none.
pub proof fn law_first_output_of_the_name(
    descs: &Vec<Vec<u16>>,
    target: &str,
    found: Option<u32>,
    i: int,
)
    requires
        descs@.len() <= u32::MAX,
        call_ensures(find_dxgi_output_index, (descs, target), found),
        0 <= i <= descs@.len(),
        forall|j: int|
            0 <= j < i ==> !spells(decode_lossy(until_nul((#[trigger] descs@[j])@)), target@),
        i < descs@.len() ==> spells(decode_lossy(until_nul(descs@[i]@)), target@),
    ensures
        i < descs@.len() ==> found is Some && found->0 == i,
        i == descs@.len() ==> found is None,
{
    assert forall|j: int| 0 <= j < i implies !#[trigger] names_display(descs@[j]@, target@) by {
        lemma_same_but_for_case(decode_lossy(until_nul(descs@[j]@)), target@);
        assert(!spells(decode_lossy(until_nul(descs@[j]@)), target@));
    }
    if i < descs@.len() {
        lemma_same_but_for_case(decode_lossy(until_nul(descs@[i]@)), target@);
    }
    lemma_first_named(descs@, target@, 0, i);
}

} // verus!
