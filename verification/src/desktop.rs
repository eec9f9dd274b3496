//! The input desktop: its name, whether it is secure, and when it changes.
use vstd::prelude::*;

use crate::text::{
    eq_ignore_ascii_case, lemma_same_but_for_case, same_ignoring_case, same_text,
};

verus! {

/// A letter or digit of ASCII, or a dash.
pub open spec fn is_plain(c: char) -> bool {
    ('0' <= c && c <= '9') || ('A' <= c && c <= 'Z') || ('a' <= c && c <= 'z') || c == '-'
}

/// The name with everything but plain characters replaced by an underscore.
pub open spec fn sanitized(name: Seq<char>) -> Seq<char> {
    Seq::new(
        name.len(),
        |i: int|
            if is_plain(name[i]) {
                name[i]
            } else {
                '_'
            },
    )
}

/// Makes a desktop name fit for a file name.
pub fn sanitize(name: &str) -> (out: String)
    ensures
        out@ == sanitized(name@),
{
    let mut out = String::new();
    for c in it: name.chars()
        invariant
            it.seq() == name@,
            out@ == sanitized(name@).take(it.index()),
    {
        let plain = ('0' <= c && c <= '9') || ('A' <= c && c <= 'Z') || ('a' <= c && c <= 'z') || c
            == '-';
        out.push(
            if plain {
                c
            } else {
                '_'
            },
        );
        assert(out@ =~= sanitized(name@).take(it.index() + 1));
    }
    assert(sanitized(name@).take(name@.len() as int) =~= sanitized(name@));
    out
}

/// Whether a desktop is one on which Windows shows a logon, a consent prompt or a screen saver.
pub open spec fn is_secure_name(name: Seq<char>) -> bool {
    same_ignoring_case(name, "Winlogon"@) || same_ignoring_case(name, "Screen-saver"@)
}

/// Tells whether a desktop is secure.
pub fn is_secure(name: &str) -> (secure: bool)
    ensures
        secure == is_secure_name(name@),
{
    eq_ignore_ascii_case(name, "Winlogon") || eq_ignore_ascii_case(name, "Screen-saver")
}

/// The outcome of attaching a thread to the input desktop: the desktop has to be opened, which
/// gives its name, and the thread has to be switched to it.
pub fn attach_input_desktop(opened: Result<String, i32>, switched: Result<(), i32>) -> (res: Result<
    String,
    i32,
>)
    ensures
        res == match (opened, switched) {
            (Err(code), _) => Err::<String, i32>(code),
            (Ok(_), Err(code)) => Err::<String, i32>(code),
            (Ok(name), Ok(_)) => Ok::<String, i32>(name),
        },
{
    match opened {
        Err(code) => Err(code),
        Ok(name) => match switched {
            Err(code) => Err(code),
            Ok(_) => Ok(name),
        },
    }
}

/// The desktop that was last seen.
#[derive(Debug)]
pub struct DesktopWatch {
    pub last: String,
}

impl DesktopWatch {
    /// The desktop that is known after another look, and whether it is another than before. A look
    /// that failed changes nothing.
    pub open spec fn seen(last: Seq<char>, name: Option<Seq<char>>) -> (Seq<char>, bool) {
        match name {
            Some(now) => (now, now != last),
            None => (last, false),
        }
    }

    /// Takes another look at the desktop; `name` is nothing where that failed. Tells whether it
    /// has changed.
    pub fn look(&mut self, name: Option<String>) -> (changed: bool)
        ensures
            (final(self).last@, changed) == Self::seen(
                old(self).last@,
                match name {
                    Some(now) => Some(now@),
                    None => None,
                },
            ),
    {
        match name {
            Some(now) => {
                if same_text(now.as_str(), self.last.as_str()) {
                    false
                } else {
                    self.last = now;
                    true
                }
            },
            None => false,
        }
    }
}

/// A sanitised name holds nothing but plain characters and underscores.
pub proof fn law_sanitized_is_plain(name: Seq<char>)
    ensures
        sanitized(name).len() == name.len(),
        forall|i: int|
            0 <= i < name.len() ==> is_plain(#[trigger] sanitized(name)[i]) || sanitized(name)[i]
                == '_',
{
}

/// Sanitising a sanitised name changes nothing.
pub proof fn law_sanitize_is_idempotent(name: Seq<char>)
    ensures
        sanitized(sanitized(name)) == sanitized(name),
{
    assert(sanitized(sanitized(name)) =~= sanitized(name));
}

/// Looking at the same desktop twice reports at most one change.
pub proof fn law_change_is_reported_once(last: Seq<char>, name: Seq<char>)
    ensures
        !DesktopWatch::seen(DesktopWatch::seen(last, Some(name)).0, Some(name)).1,
{
}

/// Each character of a name is kept where it is a digit, a letter of ASCII or a dash, and becomes
/// an underscore otherwise; none is added or left out.
pub proof fn law_sanitized_by_character(name: &str, out: String)
    requires
        call_ensures(sanitize, (name,), out),
    ensures
        out@.len() == name@.len(),
        forall|i: int|
            0 <= i < name@.len() ==> {
                let code = name@[i] as u32;
                let plain = 48 <= code <= 57 || 65 <= code <= 90 || 97 <= code <= 122 || code == 45;
                #[trigger] out@[i] == (if plain {
                    name@[i]
                } else {
                    '_'
                })
            },
{
    assert forall|i: int| 0 <= i < name@.len() implies {
        let code = name@[i] as u32;
        let plain = 48 <= code <= 57 || 65 <= code <= 90 || 97 <= code <= 122 || code == 45;
        #[trigger] out@[i] == (if plain {
            name@[i]
        } else {
            '_'
        })
    } by {
        lemma_plain_codes(name@[i]);
        assert(out@[i] == sanitized(name@)[i]);
    }
}

proof fn lemma_plain_codes(c: char)
    ensures
        is_plain(c) <==> 48 <= c as u32 <= 57 || 65 <= c as u32 <= 90 || 97 <= c as u32 <= 122 || c
            as u32 == 45,
{
}

/// Whether a name has the letters of another, each in either case.
pub open spec fn spells(name: Seq<char>, known: Seq<char>) -> bool {
    &&& name.len() == known.len()
    &&& forall|i: int|
        0 <= i < name.len() ==> {
            let (x, y) = (#[trigger] name[i] as u32, known[i] as u32);
            x == y || (65 <= x <= 90 && y == x + 32) || (65 <= y <= 90 && x == y + 32)
        }
}

/// Secure are the desktops named "Winlogon" and "Screen-saver", in whatever case, and no others.
pub proof fn law_secure_desktops(name: &str, secure: bool)
    requires
        call_ensures(is_secure, (name,), secure),
    ensures
        name@ == "Winlogon"@ || name@ == "winlogon"@ || name@ == "WINLOGON"@ ==> secure,
        name@ == "Screen-saver"@ || name@ == "screen-saver"@ || name@ == "SCREEN-SAVER"@ ==> secure,
        secure <==> spells(name@, "Winlogon"@) || spells(name@, "Screen-saver"@),
{
    lemma_same_but_for_case(name@, "Winlogon"@);
    lemma_same_but_for_case(name@, "Screen-saver"@);
    reveal_strlit("Winlogon");
    reveal_strlit("winlogon");
    reveal_strlit("WINLOGON");
    reveal_strlit("Screen-saver");
    reveal_strlit("screen-saver");
    reveal_strlit("SCREEN-SAVER");
}

/// A thread is attached only where both steps succeed, to the desktop that was opened; the first
/// step that fails says why not.
pub proof fn law_attached_where_both_steps_succeed(
    opened: Result<String, i32>,
    switched: Result<(), i32>,
    res: Result<String, i32>,
)
    requires
        call_ensures(attach_input_desktop, (opened, switched), res),
    ensures
        res is Ok <==> opened is Ok && switched is Ok,
        res is Ok ==> res == opened,
        opened matches Err(code) ==> res == Err::<String, i32>(code),
        opened is Ok ==> (switched matches Err(code) ==> res == Err::<String, i32>(code)),
{
}

/// A look that succeeds is remembered and reports a change exactly where the name is another; a
/// second look at the same desktop reports none. A look that fails changes nothing.
pub proof fn law_looks_are_remembered(
    watch: &mut DesktopWatch,
    name: Option<String>,
    changed: bool,
    again: &mut DesktopWatch,
    second: bool,
)
    requires
        call_ensures(DesktopWatch::look, (watch, name), changed),
        old(again).last@ == final(watch).last@,
        call_ensures(DesktopWatch::look, (again, name), second),
    ensures
        name matches Some(now) ==> final(watch).last@ == now@ && (changed <==> now@ != old(
            watch,
        ).last@),
        name is None ==> !changed && final(watch).last@ == old(watch).last@,
        !second,
        final(again).last@ == final(watch).last@,
{
}

} // verus!
