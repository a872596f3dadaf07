//! What the embedded interpreter is started with.
use vstd::prelude::*;

use crate::text::{chars_of, debug_form, debug_text};

verus! {

/// The code that puts a directory on the module search path.
pub open spec fn appends_path(dir: Seq<char>) -> Seq<char> {
    "import sys; sys.path.append("@ + debug_form(dir) + ")"@
}

/// Writes the code that puts a directory on the module search path, so that
/// the operator modules in it resolve like installed packages.
pub fn path_code(dir: &str) -> (r: String)
    ensures
        r@ == appends_path(dir@),
{
    "import sys; sys.path.append(".to_string().concat(debug_text(dir).as_str()).concat(")")
}

/// The code points of a text, and a zero behind them.
pub open spec fn code_points(text: Seq<char>) -> Seq<u32> {
    text.map_values(|c: char| c as u32).push(0)
}

/// Encodes a path as the zero-terminated wide string that the interpreter's
/// configuration takes where a wide character holds a code point.
pub fn wide(path: &str) -> (r: Vec<u32>)
    ensures
        r@ == code_points(path@),
{
    let chars = chars_of(path);
    let mut out: Vec<u32> = Vec::new();
    for i in 0..chars.len()
        invariant
            chars@ == path@,
            out@.len() == i,
            forall|k: int| 0 <= k < i ==> #[trigger] out@[k] == chars@[k] as u32,
    {
        out.push(chars[i] as u32);
    }
    out.push(0);
    assert(out@ =~= code_points(path@));
    out
}

proof fn only_nul_is_zero(c: char)
    ensures
        c as u32 == 0 <==> c == '\0',
{
}

/// The wide string of a path ends at its only zero, when the path has none:
/// the interpreter reads all of it.
pub proof fn a_wide_path_is_read_whole(path: Seq<char>, i: int)
    requires
        forall|k: int| 0 <= k < path.len() ==> #[trigger] path[k] != '\0',
        0 <= i < code_points(path).len(),
    ensures
        code_points(path)[i] == 0 <==> i == path.len(),
{
    if i < path.len() {
        only_nul_is_zero(path[i]);
    }
}

} // verus!
