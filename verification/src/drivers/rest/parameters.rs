//! The catalog of ArduPilot parameters, which is kept in one folder per
//! firmware and version, named `<firmware>-<version>`.

use vstd::prelude::*;
use vstd::string::{StrSliceExecFns, StringExecFns};

verus! {

/// The file of a folder that holds its parameters.
pub const PARAMETERS_FILE: &'static str = "apm.pdef.json";

/// The first place in `s`, from `from` on, at which a dash stands; the
/// length of `s` where there is none.
pub open spec fn dash_from(s: Seq<char>, from: int) -> int
    decreases s.len() - from,
{
    if from < 0 || from >= s.len() {
        s.len() as int
    } else if s[from] == '-' {
        from
    } else {
        dash_from(s, from + 1)
    }
}

/// Firmware and version that the name `folder` of a folder gives: what
/// stands before the first dash, and what stands between the first dash
/// and the second, or the end. None where the name holds no dash.
pub open spec fn firmware_and_version_of(folder: Seq<char>) -> Option<(Seq<char>, Seq<char>)> {
    let first = dash_from(folder, 0);
    if first >= folder.len() {
        None
    } else {
        Some((folder.subrange(0, first), folder.subrange(first + 1, dash_from(folder, first + 1))))
    }
}

/// The place of the first dash in `text` from `from` on.
fn find_dash(text: &str, from: usize, len: usize) -> (place: usize)
    requires
        len == text@.len(),
        from <= len,
    ensures
        place == dash_from(text@, from as int),
        from <= place <= len,
{
    let mut i: usize = from;
    while i < len && text.get_char(i) != '-'
        invariant
            from <= i <= len,
            len == text@.len(),
            dash_from(text@, from as int) == dash_from(text@, i as int),
        decreases len - i,
    {
        i = i + 1;
    }
    i
}

/// Firmware and version of the folder called `folder`; none where the
/// name holds no dash.
pub fn firmware_and_version(folder: &str) -> (names: Option<(String, String)>)
    ensures
        names is Some <==> firmware_and_version_of(folder@) is Some,
        names matches Some(n) ==> Some((n.0@, n.1@)) == firmware_and_version_of(folder@),
{
    let len = folder.unicode_len();
    let first = find_dash(folder, 0, len);
    if first >= len {
        return None;
    }
    let second = find_dash(folder, first + 1, len);
    let firmware = String::from_str(folder.substring_char(0, first));
    let version = String::from_str(folder.substring_char(first + 1, second));
    Some((firmware, version))
}

} // verus!
