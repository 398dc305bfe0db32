//! Path-name helpers: base name, stem, and extension of a slash-separated
//! path, as the module registry and the language modules need them.
//!
//! Trailing separators are ignored; a name whose only dot leads it has no
//! extension, and `.` and `..` name no file.

use vstd::prelude::*;

use crate::strutil::chars_range;

verus! {

/// `p` with every trailing `/` removed.
pub open spec fn strip_trailing_slashes(p: Seq<char>) -> Seq<char>
    decreases p.len(),
{
    if p.len() > 0 && p[p.len() - 1] == '/' {
        strip_trailing_slashes(p.drop_last())
    } else {
        p
    }
}

/// The characters after the last `/` of `p` (all of `p` when it has none).
pub open spec fn after_last_slash(p: Seq<char>) -> Seq<char>
    decreases p.len(),
{
    if p.len() == 0 {
        p
    } else if p[p.len() - 1] == '/' {
        Seq::empty()
    } else {
        after_last_slash(p.drop_last()).push(p[p.len() - 1])
    }
}

/// The final path component, with trailing separators ignored; nothing
/// for an empty name or for `.` and `..`.
pub open spec fn spec_file_name(p: Seq<char>) -> Option<Seq<char>> {
    let b = after_last_slash(strip_trailing_slashes(p));
    if b.len() == 0 || b == "."@ || b == ".."@ {
        None
    } else {
        Some(b)
    }
}

/// The index of the last `.` of `b`, if any.
pub open spec fn last_dot(b: Seq<char>) -> Option<int>
    decreases b.len(),
{
    if b.len() == 0 {
        None
    } else if b[b.len() - 1] == '.' {
        Some(b.len() - 1)
    } else {
        last_dot(b.drop_last())
    }
}

/// The stem of the file name of `p`: the name up to its last dot, the
/// whole name when there is no dot or the only dot leads it.
pub open spec fn spec_file_stem(p: Seq<char>) -> Option<Seq<char>> {
    match spec_file_name(p) {
        None => None,
        Some(b) => match last_dot(b) {
            None => Some(b),
            Some(i) => if i == 0 {
                Some(b)
            } else {
                Some(b.take(i))
            },
        },
    }
}

/// The extension of the file name of `p`: what follows its last dot,
/// when that dot is not the leading character.
pub open spec fn spec_extension(p: Seq<char>) -> Option<Seq<char>> {
    match spec_file_name(p) {
        None => None,
        Some(b) => match last_dot(b) {
            None => None,
            Some(i) => if i == 0 {
                None
            } else {
                Some(b.skip(i + 1))
            },
        },
    }
}

/// The final path component of `v`, with trailing separators ignored.
pub fn file_name_chars(v: &Vec<char>) -> (r: Option<Vec<char>>)
    ensures
        r.deep_view() == spec_file_name(v@),
{
    broadcast use crate::strutil::lemma_chars_deep_view;

    let mut end: usize = v.len();
    proof {
        assert(v@.take(v@.len() as int) =~= v@);
    }
    while end > 0 && v[end - 1] == '/'
        invariant
            end <= v@.len(),
            strip_trailing_slashes(v@) == strip_trailing_slashes(v@.take(end as int)),
        decreases end,
    {
        proof {
            let cur = v@.take(end as int);
            assert(cur[cur.len() - 1] == '/');
            assert(cur.drop_last() =~= v@.take(end - 1 as int));
        }
        end = end - 1;
    }
    proof {
        let cur = v@.take(end as int);
        assert(strip_trailing_slashes(cur) == cur);
    }
    let mut start: usize = end;
    while start > 0 && v[start - 1] != '/'
        invariant
            start <= end <= v@.len(),
            strip_trailing_slashes(v@) == v@.take(end as int),
            after_last_slash(v@.take(end as int)) =~= after_last_slash(v@.take(start as int))
                + v@.subrange(start as int, end as int),
        decreases start,
    {
        proof {
            let cur = v@.take(start as int);
            assert(cur[cur.len() - 1] == v@[start - 1]);
            assert(cur.drop_last() =~= v@.take(start - 1 as int));
            assert(after_last_slash(v@.take(start as int)) =~= after_last_slash(
                v@.take(start - 1 as int),
            ).push(v@[start - 1]));
            assert(after_last_slash(v@.take(start - 1 as int)) + v@.subrange(
                start - 1 as int,
                end as int,
            ) =~= (after_last_slash(v@.take(start - 1 as int)).push(v@[start - 1])) + v@.subrange(
                start as int,
                end as int,
            ));
        }
        start = start - 1;
    }
    proof {
        let cur = v@.take(start as int);
        if start > 0 {
            assert(cur[cur.len() - 1] == v@[start - 1]);
            assert(after_last_slash(cur) =~= Seq::<char>::empty());
        } else {
            assert(cur =~= Seq::<char>::empty());
        }
        assert(after_last_slash(v@.take(end as int)) =~= v@.subrange(
            start as int,
            end as int,
        ));
    }
    let b = chars_range(v, start, end);
    proof {
        reveal_strlit(".");
        reveal_strlit("..");
    }
    if b.len() == 0 {
        return None;
    }
    if b.len() == 1 && b[0] == '.' {
        proof {
            assert(b@ =~= "."@);
        }
        return None;
    }
    if b.len() == 2 && b[0] == '.' && b[1] == '.' {
        proof {
            assert(b@ =~= ".."@);
        }
        return None;
    }
    proof {
        assert(b@ != "."@ && b@ != ".."@) by {
            if b@ == "."@ {
                assert(b@.len() == 1 && b@[0] == '.');
            }
            if b@ == ".."@ {
                assert(b@.len() == 2 && b@[0] == '.' && b@[1] == '.');
            }
        }
    }
    Some(b)
}

/// The index of the last `.` of `b`, if any.
pub fn last_dot_exec(b: &Vec<char>) -> (r: Option<usize>)
    ensures
        match r {
            Some(i) => i < b@.len() && last_dot(b@) == Some(i as int),
            None => last_dot(b@) is None,
        },
{
    let mut end: usize = b.len();
    proof {
        assert(b@.take(b@.len() as int) =~= b@);
    }
    while end > 0
        invariant
            end <= b@.len(),
            last_dot(b@) == last_dot(b@.take(end as int)),
        decreases end,
    {
        proof {
            let cur = b@.take(end as int);
            assert(cur[cur.len() - 1] == b@[end - 1]);
            assert(cur.drop_last() =~= b@.take(end - 1 as int));
        }
        if b[end - 1] == '.' {
            return Some(end - 1);
        }
        end = end - 1;
    }
    proof {
        assert(b@.take(0) =~= Seq::<char>::empty());
    }
    None
}

/// The stem of the file name of `v`.
pub fn file_stem_chars(v: &Vec<char>) -> (r: Option<Vec<char>>)
    ensures
        r.deep_view() == spec_file_stem(v@),
{
    broadcast use crate::strutil::lemma_chars_deep_view;

    let b = match file_name_chars(v) {
        None => {
            return None;
        },
        Some(b) => b,
    };
    match last_dot_exec(&b) {
        None => Some(b),
        Some(i) => {
            if i == 0 {
                Some(b)
            } else {
                let s = chars_range(&b, 0, i);
                proof {
                    assert(s@ =~= b@.take(i as int));
                }
                Some(s)
            }
        },
    }
}

/// The extension of the file name of `v`.
pub fn extension_chars(v: &Vec<char>) -> (r: Option<Vec<char>>)
    ensures
        r.deep_view() == spec_extension(v@),
{
    broadcast use crate::strutil::lemma_chars_deep_view;

    let b = match file_name_chars(v) {
        None => {
            return None;
        },
        Some(b) => b,
    };
    match last_dot_exec(&b) {
        None => None,
        Some(i) => {
            if i == 0 {
                None
            } else {
                let n = b.len();
                let s = chars_range(&b, i + 1, n);
                proof {
                    assert(s@ =~= b@.skip(i + 1 as int));
                }
                Some(s)
            }
        },
    }
}

/// The stem of `path`, or `unknown` when it has none: the fallback
/// module name for languages without a package declaration.
pub fn module_name_of(path: &str) -> (r: String)
    ensures
        r@ == match spec_file_stem(path@) {
            Some(s) => s,
            None => "unknown"@,
        },
{
    let v = crate::strutil::to_chars(path);
    match file_stem_chars(&v) {
        Some(s) => crate::strutil::from_chars(&s),
        None => "unknown".to_owned(),
    }
}

} // verus!
