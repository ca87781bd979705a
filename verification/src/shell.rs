//! Quoting paths for the shell commands that `syu` suggests.
use vstd::prelude::*;

use crate::text::{is_alnum, replace_char, replace_char_seq};

verus! {

/// A character that a shell word may hold without quotes.
pub open spec fn shell_safe(c: char) -> bool {
    is_alnum(c) || c == '/' || c == '.' || c == '_' || c == '-'
}

/// The path as one shell word: `''` for an empty path, the path itself when
/// every character is safe, else the path in single quotes with each single
/// quote written as `'\''`.
pub open spec fn shell_quote_spec(path: Seq<char>) -> Seq<char> {
    if path.len() == 0 {
        "''"@
    } else if forall|i: int| 0 <= i < path.len() ==> shell_safe(#[trigger] path[i]) {
        path
    } else {
        "'"@ + replace_char_seq(path, '\'', "'\\''"@) + "'"@
    }
}

fn all_shell_safe(s: &str) -> (res: bool)
    ensures
        res == forall|i: int| 0 <= i < s@.len() ==> shell_safe(#[trigger] s@[i]),
{
    let n = s.unicode_len();
    let mut i: usize = 0;
    while i < n
        invariant
            n == s@.len(),
            i <= n,
            forall|k: int| 0 <= k < i ==> shell_safe(#[trigger] s@[k]),
        decreases n - i,
    {
        let c = s.get_char(i);
        let ok = ('a' <= c && c <= 'z') || ('A' <= c && c <= 'Z') || ('0' <= c && c <= '9') || c == '/' || c
            == '.' || c == '_' || c == '-';
        if !ok {
            assert(!shell_safe(s@[i as int]));
            return false;
        }
        i = i + 1;
    }
    true
}

/// Quotes a path for a suggested shell command.
pub fn shell_quote_path(path: &str) -> (res: String)
    ensures
        res@ == shell_quote_spec(path@),
{
    if path.unicode_len() == 0 {
        return String::from_str("''");
    }
    if all_shell_safe(path) {
        String::from_str(path)
    } else {
        let mut out = String::from_str("'");
        let escaped = replace_char(path, '\'', "'\\''");
        out.append(escaped.as_str());
        out.append("'");
        out
    }
}

} // verus!
