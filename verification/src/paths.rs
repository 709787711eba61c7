//! The file-name component of a local path.
//!
//! Uploads name their target after the source file, so the library
//! needs the base name of a '/'-separated path: trailing separators and
//! trailing current-directory markers are ignored, and a path whose
//! last component is empty, `.` or `..` carries no file name.

use vstd::prelude::*;
use crate::urls::{last_slash_index, lemma_last_slash_index_range};

verus! {

/// `p` with trailing '/' separators and trailing "/." markers removed.
pub open spec fn strip_trailing(p: Seq<char>) -> Seq<char>
    decreases p.len(),
{
    if p.len() > 0 && p.last() == '/' {
        strip_trailing(p.drop_last())
    } else if p.len() >= 2 && p.last() == '.' && p[p.len() - 2] == '/' {
        strip_trailing(p.subrange(0, p.len() - 2))
    } else {
        p
    }
}

/// The base name of a local path: its last '/'-separated component,
/// ignoring trailing separators and trailing `.` components; nothing
/// where that component is absent or is `.` or `..`.
pub open spec fn base_name_of(p: Seq<char>) -> Option<Seq<char>> {
    let t = strip_trailing(p);
    let comp = t.subrange(last_slash_index(t) + 1, t.len() as int);
    if t.len() == 0 || comp == seq!['.'] || comp == seq!['.', '.'] {
        None
    } else {
        Some(comp)
    }
}

/// The base name of a '/'-separated path, as `base_name_of` defines it.
pub fn base_name(path: &str) -> (r: Option<String>)
    ensures
        match r {
            Some(f) => base_name_of(path@) == Some(f@),
            None => base_name_of(path@) is None,
        },
{
    let n = path.unicode_len();
    let mut end: usize = n;
    proof {
        assert(path@.subrange(0, n as int) =~= path@);
    }
    loop
        invariant
            n == path@.len(),
            n <= usize::MAX,
            end <= n,
            strip_trailing(path@) == strip_trailing(path@.subrange(0, end as int)),
        ensures
            end <= n,
            strip_trailing(path@) == path@.subrange(0, end as int),
        decreases end,
    {
        let ghost pre = path@.subrange(0, end as int);
        if end > 0 && path.get_char(end - 1) == '/' {
            proof {
                assert(pre.last() == path@[end - 1]);
                assert(pre.drop_last() =~= path@.subrange(0, end - 1 as int));
            }
            end = end - 1;
        } else if end >= 2 && path.get_char(end - 1) == '.' && path.get_char(end - 2) == '/' {
            proof {
                assert(pre.last() == path@[end - 1]);
                assert(pre[pre.len() - 2] == path@[end - 2]);
                assert(pre.subrange(0, pre.len() - 2) =~= path@.subrange(0, end - 2 as int));
            }
            end = end - 2;
        } else {
            proof {
                if end > 0 {
                    assert(pre.last() == path@[end - 1]);
                }
                if end >= 2 {
                    assert(pre[pre.len() - 2] == path@[end - 2]);
                }
                assert(strip_trailing(pre) == pre);
            }
            break;
        }
    }
    let ghost t = path@.subrange(0, end as int);
    if end == 0 {
        return None;
    }
    // Find the component start: one past the last '/' before `end`.
    let mut i: usize = end;
    proof {
        assert(t.subrange(0, end as int) =~= t);
    }
    let mut start: usize = 0;
    let mut found = false;
    loop
        invariant_except_break
            !found,
            start == 0,
        invariant
            n == path@.len(),
            n <= usize::MAX,
            0 < end <= n,
            t == path@.subrange(0, end as int),
            i <= end,
            last_slash_index(t) == last_slash_index(t.subrange(0, i as int)),
        ensures
            0 < end <= n,
            t == path@.subrange(0, end as int),
            found ==> 0 < start <= end && last_slash_index(t) == start - 1,
            !found ==> start == 0 && last_slash_index(t) == -1,
        decreases i,
    {
        if i == 0 {
            proof {
                assert(t.subrange(0, 0) =~= Seq::<char>::empty());
            }
            break;
        }
        let ghost pre = t.subrange(0, i as int);
        proof {
            assert(pre.last() == t[i - 1]);
            assert(t[i - 1] == path@[i - 1]);
        }
        if path.get_char(i - 1) == '/' {
            start = i;
            found = true;
            proof {
                broadcast use lemma_last_slash_index_range;
            }
            break;
        }
        proof {
            assert(pre.drop_last() =~= t.subrange(0, i - 1 as int));
        }
        i = i - 1;
    }
    let ghost comp = t.subrange(last_slash_index(t) + 1, t.len() as int);
    proof {
        broadcast use lemma_last_slash_index_range;
        assert(comp =~= path@.subrange(start as int, end as int));
    }
    let len = end - start;
    if len == 1 && path.get_char(start) == '.' {
        proof {
            assert(comp =~= seq!['.']);
        }
        return None;
    }
    if len == 2 && path.get_char(start) == '.' && path.get_char(start + 1) == '.' {
        proof {
            assert(comp =~= seq!['.', '.']);
        }
        return None;
    }
    proof {
        if comp == seq!['.'] {
            assert(comp.len() == 1 && comp[0] == '.');
        }
        if comp == seq!['.', '.'] {
            assert(comp.len() == 2 && comp[0] == '.' && comp[1] == '.');
        }
    }
    let segment = path.substring_char(start, end);
    Some(segment.to_owned())
}

} // verus!
