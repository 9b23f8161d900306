//! The path model: paths are `/`-separated strings. Canonicalization
//! resolves `.` and `..` segments without touching any filesystem; the
//! basename is the final segment, and a path whose final segment is
//! empty or a dot form has none.

use vstd::prelude::*;
use vstd::string::StrSliceExecFns;
use vstd::string::StringExecFns;

use crate::strutil::join_chars;
use crate::strutil::join_str;
use crate::strutil::split_chars;
use crate::strutil::split_str;
use crate::strutil::str_eq;

verus! {

/// A segment that canonicalization drops: empty (doubled or trailing
/// separators) or the current-directory dot.
pub open spec fn is_skip_seg(s: Seq<char>) -> bool {
    s.len() == 0 || s == seq!['.']
}

/// The parent-directory segment.
pub open spec fn is_parent_seg(s: Seq<char>) -> bool {
    s == seq!['.', '.']
}

/// Resolves `.` and `..` over a segment sequence: empty and `.` segments
/// vanish, `..` removes the segment before it (or nothing at the front),
/// every other segment stays in order.
pub open spec fn canon_segs(segs: Seq<Seq<char>>) -> Seq<Seq<char>>
    decreases segs.len(),
{
    if segs.len() == 0 {
        Seq::empty()
    } else {
        let prev = canon_segs(segs.drop_last());
        let last = segs.last();
        if is_skip_seg(last) {
            prev
        } else if is_parent_seg(last) {
            if prev.len() == 0 {
                prev
            } else {
                prev.drop_last()
            }
        } else {
            prev.push(last)
        }
    }
}

/// The canonical form of a relative path: its segments resolved and
/// joined again with `/`.
pub open spec fn spec_path_canon(path: Seq<char>) -> Seq<char> {
    join_chars(canon_segs(split_chars(path, '/')), '/')
}

/// Canonicalizes a relative path, resolving `.` and `..` segments
/// lexically. An absolute path (a root component) is a programming
/// error here and is excluded by precondition.
pub fn path_canon(path: &str) -> (r: String)
    requires
        path@.len() == 0 || path@[0] != '/',
    ensures
        r@ == spec_path_canon(path@),
{
    proof {
        reveal_strlit(".");
        reveal_strlit("..");
        reveal_strlit("/");
        assert("."@ =~= seq!['.']);
        assert(".."@ =~= seq!['.', '.']);
    }
    let parts = split_str(path, '/');
    let ghost segs = split_chars(path@, '/');
    let mut kept: Vec<String> = Vec::new();
    let mut i: usize = 0;
    proof {
        assert(segs.take(0) =~= Seq::<Seq<char>>::empty());
        assert(kept.deep_view() =~= canon_segs(segs.take(0)));
    }
    while i < parts.len()
        invariant
            0 <= i <= parts.len(),
            parts.deep_view() == segs,
            segs.len() == parts.len(),
            kept.deep_view() == canon_segs(segs.take(i as int)),
        decreases parts.len() - i,
    {
        proof {
            reveal_strlit(".");
            reveal_strlit("..");
            assert("."@ =~= seq!['.']);
            assert(".."@ =~= seq!['.', '.']);
            assert(parts.deep_view()[i as int] == parts@[i as int]@);
            assert(segs.take(i as int + 1).drop_last() =~= segs.take(i as int));
            assert(segs.take(i as int + 1).last() == segs[i as int]);
        }
        let part = &parts[i];
        if part.as_str().is_empty() || str_eq(part.as_str(), ".") {
        } else if str_eq(part.as_str(), "..") {
            if kept.len() > 0 {
                let ghost prev = kept.deep_view();
                let _ = kept.pop();
                proof {
                    assert(kept.deep_view() =~= prev.drop_last());
                }
            }
        } else {
            let ghost prev = kept.deep_view();
            kept.push(part.clone());
            proof {
                assert(kept.deep_view() =~= prev.push(segs[i as int]));
            }
        }
        i = i + 1;
    }
    proof {
        assert(segs.take(segs.len() as int) =~= segs);
    }
    join_str(&kept, "/")
}

/// The basename of a path: its final `/`-separated segment, or nothing
/// when that segment is empty (a trailing separator) or a dot form.
pub open spec fn spec_basename(path: Seq<char>) -> Option<Seq<char>> {
    let parts = split_chars(path, '/');
    let last = parts[parts.len() - 1];
    if is_skip_seg(last) || is_parent_seg(last) {
        None
    } else {
        Some(last)
    }
}

/// Extracts the basename, if the path has one.
pub fn basename(path: &str) -> (r: Option<String>)
    ensures
        match r {
            Some(b) => spec_basename(path@) == Some(b@),
            None => spec_basename(path@) is None,
        },
{
    proof {
        reveal_strlit(".");
        reveal_strlit("..");
        assert("."@ =~= seq!['.']);
        assert(".."@ =~= seq!['.', '.']);
    }
    let parts = split_str(path, '/');
    proof {
        assert(split_chars(path@, '/').len() >= 1);
        assert(parts.deep_view()[parts@.len() - 1] == parts@[parts@.len() - 1]@);
    }
    let last = &parts[parts.len() - 1];
    if last.as_str().is_empty() || str_eq(last.as_str(), ".") || str_eq(last.as_str(), "..") {
        None
    } else {
        Some(last.clone())
    }
}

/// Appends `name` to `root` with a single separator between them.
pub open spec fn join_path_chars(root: Seq<char>, name: Seq<char>) -> Seq<char> {
    root + seq!['/'] + name
}

/// Joins a destination root and an entry name into one path.
pub fn join_path(root: &str, name: &str) -> (r: String)
    ensures
        r@ == join_path_chars(root@, name@),
{
    proof {
        reveal_strlit("/");
        assert("/"@ =~= seq!['/']);
    }
    let mut s = root.to_owned();
    s.append("/");
    s.append(name);
    proof {
        assert(s@ =~= join_path_chars(root@, name@));
    }
    s
}

/// Concatenates two strings.
pub fn concat_str(a: &str, b: &str) -> (r: String)
    ensures
        r@ == a@ + b@,
{
    let mut s = a.to_owned();
    s.append(b);
    s
}

} // verus!
