//! Where the entries of an archive are unpacked: each entry's name made into a path that stays
//! below the directory it is unpacked into.

use vstd::prelude::*;
use crate::utils::text::{chars_of, replace_char, replace_spec, split_chars, split_spec, string_of};

verus! {

/// A plain name for one step of a path: it holds no separator of any system, and it is neither
/// `.` nor `..`, so joined below a directory it names something inside that directory.
pub open spec fn plain_component(s: Seq<char>) -> bool {
    &&& !s.contains('/')
    &&& !s.contains('\\')
    &&& s != "."@
    &&& s != ".."@
}

/// Whether `part` is what is left of `whole` with some of its characters taken out: its
/// characters appear in `whole` in the same order.
pub open spec fn is_subsequence(part: Seq<char>, whole: Seq<char>) -> bool {
    exists|at: Seq<int>|
        #![trigger at.len()]
        at.len() == part.len() && (forall|k: int| 0 <= k < at.len() ==> 0 <= #[trigger] at[k] < whole.len()
            && whole[at[k]] == part[k]) && (forall|j: int, k: int| 0 <= j < k < at.len() ==> at[j] < at[k])
}

/// A character no system allows in a file name: `/ ? < > \ : * | "`.
pub open spec fn illegal_char(c: char) -> bool {
    c == '/' || c == '?' || c == '<' || c == '>' || c == '\\' || c == ':' || c == '*' || c == '|' || c == '"'
}

/// A control character: below 0x20, or from 0x80 to 0x9f.
pub open spec fn control_char(c: char) -> bool {
    (c as u32) < 0x20 || (0x80 <= (c as u32) && (c as u32) <= 0x9f)
}

/// An ASCII letter in lower case.
pub open spec fn folded(c: char) -> char {
    if 'A' <= c && c <= 'Z' {
        (((c as u8) + 32) as u8) as char
    } else {
        c
    }
}

/// A name Windows reserves for a device, in any case, alone or before a `.`: `con`, `prn`,
/// `aux`, `nul`, `com0` to `com9`, `lpt0` to `lpt9`.
pub open spec fn windows_device(name: Seq<char>) -> bool {
    let l = name.map_values(|c: char| folded(c));
    ||| l.len() >= 3 && (l.take(3) == "con"@ || l.take(3) == "prn"@ || l.take(3) == "aux"@
        || l.take(3) == "nul"@) && (l.len() == 3 || l[3] == '.')
    ||| l.len() >= 4 && (l.take(3) == "com"@ || l.take(3) == "lpt"@) && '0' <= l[3] && l[3] <= '9' && (
    l.len() == 4 || l[4] == '.')
}

/// A name that is safe on every system as it is: only ASCII letters, digits, `-`, `_` and `.`,
/// not ending in `.`, no device name of Windows, and at most 255 characters.
pub open spec fn plain_name(name: Seq<char>) -> bool {
    &&& forall|i: int|
        0 <= i < name.len() ==> {
            let c = #[trigger] name[i];
            ('a' <= c && c <= 'z') || ('A' <= c && c <= 'Z') || ('0' <= c && c <= '9') || c == '-' || c
                == '_' || c == '.'
        }
    &&& name.len() <= 255
    &&& (name.len() == 0 || name.last() != '.')
    &&& !windows_device(name)
}

/// Trusted: `sanitize_filename::sanitize`. What it leaves of a name depends on the system it runs
/// on (it removes what Windows reserves only there), so its result is not named. On every system
/// it only takes characters out or cuts the name short, never adds or changes one: it removes
/// `/`, `\` and the other characters no system allows and the control characters, a name of
/// nothing but dots becomes empty, and a name it cuts to 255 bytes keeps at least 252, so none
/// becomes `.` or `..`. A plain name, which none of its rules touches on any system, comes back
/// as it is.
#[verifier::external_body]
fn sanitize_name(name: &str) -> (r: String)
    ensures
        plain_component(r@),
        is_subsequence(r@, name@),
        forall|i: int| 0 <= i < r@.len() ==> !illegal_char(#[trigger] r@[i]) && !control_char(r@[i]),
        plain_name(name@) ==> r@ == name@,
{
    sanitize_filename::sanitize(name)
}

/// The steps of an entry's path in an archive, as it names them: with `\` taken as `/`, cut at
/// every `/`.
pub open spec fn entry_steps(name: Seq<char>) -> Seq<Seq<char>> {
    split_spec(replace_spec(name, '\\', '/'), '/')
}

/// An entry's name made into the steps of a path below the directory an archive is unpacked
/// into: one for each of its own steps, each made a plain name, so that nothing unpacked lands
/// outside that directory.
pub fn sanitize_file_path(name: &str) -> (r: Vec<String>)
    ensures
        r@.len() == entry_steps(name@).len(),
        forall|i: int| 0 <= i < r@.len() ==> plain_component(#[trigger] r@[i]@),
        forall|i: int| 0 <= i < r@.len() ==> is_subsequence(#[trigger] r@[i]@, entry_steps(name@)[i]),
        forall|i: int|
            0 <= i < r@.len() && plain_name(entry_steps(name@)[i]) ==> #[trigger] r@[i]@ == entry_steps(
                name@,
            )[i],
{
    let chars = chars_of(name);
    let slashed = replace_char(chars.as_slice(), '\\', '/');
    let steps = split_chars(slashed.as_slice(), '/');
    let mut r: Vec<String> = Vec::new();
    let mut i: usize = 0;
    while i < steps.len()
        invariant
            i <= steps@.len(),
            steps@.len() == entry_steps(name@).len(),
            forall|k: int| 0 <= k < steps@.len() ==> #[trigger] steps@[k]@ == entry_steps(name@)[k],
            r@.len() == i,
            forall|k: int| 0 <= k < i ==> plain_component(#[trigger] r@[k]@),
            forall|k: int| 0 <= k < i ==> is_subsequence(#[trigger] r@[k]@, entry_steps(name@)[k]),
            forall|k: int|
                0 <= k < i && plain_name(entry_steps(name@)[k]) ==> #[trigger] r@[k]@ == entry_steps(name@)[k],
        decreases steps@.len() - i,
    {
        let step = string_of(steps[i].as_slice());
        r.push(sanitize_name(step.as_str()));
        i = i + 1;
    }
    r
}

/// Whether an entry of an archive is a directory: its name ends in `/`.
pub fn entry_is_dir(name: &str) -> (r: bool)
    ensures
        r == (name@.len() > 0 && name@.last() == '/'),
{
    let chars = chars_of(name);
    chars.len() > 0 && chars[chars.len() - 1] == '/'
}

} // verus!
