//! The lines of the logs, and where the logs are kept.
use vstd::prelude::*;

use crate::text::{decimal, push_decimal, to_chars};

verus! {

/// A line of the hook library's log: who writes it, when, and what.
pub open spec fn line_of(elapsed_ms: nat, message: Seq<char>) -> Seq<char> {
    "[dda_hook_core] [t="@ + decimal(elapsed_ms) + "ms] "@ + message + "\n"@
}

/// A line of the proxy library's log.
pub open spec fn proxy_line_of(elapsed_ms: nat, message: Seq<char>) -> Seq<char> {
    "[ddagrab_proxy] [t="@ + decimal(elapsed_ms) + "ms] "@ + message + "\n"@
}

fn stamped(head: &str, elapsed_ms: u128, message: &str) -> (line: String)
    ensures
        line@ == head@ + decimal(elapsed_ms as nat) + "ms] "@ + message@ + "\n"@,
{
    let mut line = head.to_owned();
    push_decimal(&mut line, elapsed_ms);
    line.append("ms] ");
    line.append(message);
    line.append("\n");
    assert(line@ =~= head@ + decimal(elapsed_ms as nat) + "ms] "@ + message@ + "\n"@);
    line
}

/// Makes a line of the hook library's log.
pub fn log_line(elapsed_ms: u128, message: &str) -> (line: String)
    ensures
        line@ == line_of(elapsed_ms as nat, message@),
{
    stamped("[dda_hook_core] [t=", elapsed_ms, message)
}

/// Makes a line of the proxy library's log.
pub fn proxy_log_line(elapsed_ms: u128, message: &str) -> (line: String)
    ensures
        line@ == proxy_line_of(elapsed_ms as nat, message@),
{
    stamped("[ddagrab_proxy] [t=", elapsed_ms, message)
}

/// Whether a name can follow the path of a directory as it is: after a separator, after the letter
/// of a drive alone, and after nothing.
pub open spec fn needs_no_separator(dir: Seq<char>) -> bool {
    ||| dir.len() == 0
    ||| dir.last() == '\\' || dir.last() == '/'
    ||| dir.len() == 2 && dir[1] == ':' && ('a' <= dir[0] && dir[0] <= 'z' || 'A' <= dir[0]
        && dir[0] <= 'Z')
}

/// The path of a file in a directory.
pub open spec fn path_in(dir: Seq<char>, name: Seq<char>) -> Seq<char> {
    if needs_no_separator(dir) {
        dir + name
    } else {
        dir + "\\"@ + name
    }
}

fn file_in(dir: &str, name: &str) -> (path: String)
    ensures
        path@ == path_in(dir@, name@),
{
    let chars = to_chars(dir);
    let n: usize = chars.len();
    let plain = n == 0 || chars[n - 1] == '\\' || chars[n - 1] == '/' || (n == 2 && chars[1] == ':'
        && ('a' <= chars[0] && chars[0] <= 'z' || 'A' <= chars[0] && chars[0] <= 'Z'));
    let mut path = dir.to_owned();
    if !plain {
        path.append("\\");
    }
    path.append(name);
    assert(path@ =~= path_in(dir@, name@));
    path
}

/// Where the hook library keeps its log: next to the library itself, where its directory is known,
/// else in the directory for temporary files.
pub fn log_path(dll_dir: Option<&str>, temp_dir: &str) -> (path: String)
    ensures
        path@ == path_in(
            match dll_dir {
                Some(dir) => dir@,
                None => temp_dir@,
            },
            "dda_hook_core.log"@,
        ),
{
    match dll_dir {
        Some(dir) => file_in(dir, "dda_hook_core.log"),
        None => file_in(temp_dir, "dda_hook_core.log"),
    }
}

/// Where the proxy library keeps its log: in the same way, under a name of its own.
pub fn proxy_log_path(dll_dir: Option<&str>, temp_dir: &str) -> (path: String)
    ensures
        path@ == path_in(
            match dll_dir {
                Some(dir) => dir@,
                None => temp_dir@,
            },
            "ddagrab_proxy.log"@,
        ),
{
    match dll_dir {
        Some(dir) => file_in(dir, "ddagrab_proxy.log"),
        None => file_in(temp_dir, "ddagrab_proxy.log"),
    }
}

/// A line names its library, the time in decimal and the message, in this order, and ends the line.
pub proof fn law_parts_of_a_line(
    elapsed_ms: u128,
    message: &str,
    line: String,
    proxy_line: String,
    time: String,
)
    requires
        call_ensures(log_line, (elapsed_ms, message), line),
        call_ensures(proxy_log_line, (elapsed_ms, message), proxy_line),
        call_ensures(crate::text::to_decimal, (elapsed_ms,), time),
    ensures
        line@ == "[dda_hook_core] [t="@ + time@ + "ms] "@ + message@ + "\n"@,
        proxy_line@ == "[ddagrab_proxy] [t="@ + time@ + "ms] "@ + message@ + "\n"@,
{
}

/// A log is kept in the directory of its library, where that is known, else in the directory for
/// temporary files: its path is the directory, a separator where the directory needs one, and the
/// name of the log. A directory needs none where it ends in one, where it is a drive alone, and
/// where it is empty.
pub proof fn law_log_lies_in_its_directory(
    dll_dir: Option<&str>,
    temp_dir: &str,
    path: String,
    proxy_path: String,
)
    requires
        call_ensures(log_path, (dll_dir, temp_dir), path),
        call_ensures(proxy_log_path, (dll_dir, temp_dir), proxy_path),
    ensures
        ({
            let dir = if dll_dir is Some {
                dll_dir->0@
            } else {
                temp_dir@
            };
            let letter = dir[0] as u32;
            let ends = dir.len() == 0 || dir.last() == '\\' || dir.last() == '/' || (dir.len() == 2
                && dir[1] == ':' && (65 <= letter <= 90 || 97 <= letter <= 122));
            &&& ends ==> path@ == dir + "dda_hook_core.log"@ && proxy_path@ == dir
                + "ddagrab_proxy.log"@
            &&& !ends ==> path@ == dir + "\\"@ + "dda_hook_core.log"@ && proxy_path@ == dir + "\\"@
                + "ddagrab_proxy.log"@
        }),
{
    let dir = if dll_dir is Some {
        dll_dir->0@
    } else {
        temp_dir@
    };
    lemma_letter_codes(dir[0]);
}

proof fn lemma_letter_codes(c: char)
    ensures
        ('a' <= c && c <= 'z' || 'A' <= c && c <= 'Z') <==> (65 <= c as u32 <= 90 || 97 <= c as u32
            <= 122),
{
}

} // verus!
