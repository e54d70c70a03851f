//! Slash-separated paths as plain strings, joined the way `PathBuf::join`
//! joins on Unix.
use vstd::prelude::*;

use crate::text::{chars_of, string_of};

verus! {

/// `base.join(seg)`: an absolute segment replaces the base, an empty base
/// yields the segment, and a separator is inserted unless the base already
/// ends with one.
pub open spec fn join_seq(base: Seq<char>, seg: Seq<char>) -> Seq<char> {
    if seg.len() > 0 && seg[0] == '/' {
        seg
    } else if base.len() == 0 {
        seg
    } else if base.last() == '/' {
        base + seg
    } else {
        base + seq!['/'] + seg
    }
}

/// Joins one path segment onto a base path.
pub fn join_path(base: &str, seg: &str) -> (out: String)
    ensures
        out@ == join_seq(base@, seg@),
{
    let b = chars_of(base);
    let s = chars_of(seg);
    if s.len() > 0 && s[0] == '/' {
        return string_of(&s);
    }
    if b.len() == 0 {
        return string_of(&s);
    }
    let mut out = b;
    if out[out.len() - 1] != '/' {
        out.push('/');
    }
    let ghost mid = out@;
    let mut i: usize = 0;
    while i < s.len()
        invariant
            i <= s.len(),
            out@ == mid + s@.take(i as int),
        decreases s.len() - i,
    {
        out.push(s[i]);
        i = i + 1;
        assert(s@.take(i as int) == s@.take(i - 1).push(s@[i - 1]));
    }
    assert(s@.take(s.len() as int) == s@);
    string_of(&out)
}

} // verus!
