//! A plain-text model of file paths.
//!
//! The library keeps paths as strings: `/`-separated, absolute when they
//! start with `/`. This is all the stores need — they compare, join and
//! split paths, and leave touching the file system to the caller.

use vstd::prelude::*;

verus! {

/// An absolute path starts with `/`.
pub open spec fn is_absolute_spec(p: Seq<char>) -> bool {
    p.len() > 0 && p[0] == '/'
}

/// The part of `p` after its last `/`; all of `p` when it has none.
/// Empty exactly when `p` is empty or ends with `/`.
pub open spec fn base_name_spec(p: Seq<char>) -> Seq<char> {
    if exists|k: int| crate::env_file::is_last_index_of(p, '/', k) {
        let k = choose|k: int| crate::env_file::is_last_index_of(p, '/', k);
        p.subrange(k + 1, p.len() as int)
    } else {
        p
    }
}

/// `dir` and `rel` joined with a single `/`; an absolute `rel` stands
/// alone, and a leading `./` on `rel` is dropped.
pub open spec fn join_spec(dir: Seq<char>, rel: Seq<char>) -> Seq<char> {
    let rel = if rel.len() >= 2 && rel[0] == '.' && rel[1] == '/' {
        rel.subrange(2, rel.len() as int)
    } else {
        rel
    };
    if is_absolute_spec(rel) {
        rel
    } else if dir.len() > 0 && dir.last() == '/' {
        dir + rel
    } else {
        dir + seq!['/'] + rel
    }
}

/// The directory part of `p`: what precedes its last `/`; empty when `p`
/// has no `/`.
pub open spec fn parent_spec(p: Seq<char>) -> Seq<char> {
    if exists|k: int| crate::env_file::is_last_index_of(p, '/', k) {
        let k = choose|k: int| crate::env_file::is_last_index_of(p, '/', k);
        p.subrange(0, k)
    } else {
        Seq::empty()
    }
}

/// `p` with the leading directory `pre` removed: the whole of `p` when
/// `pre` is empty, the remainder after `pre` and one separating `/` when
/// `pre` leads `p`, and `None` otherwise.
pub open spec fn strip_prefix_spec(p: Seq<char>, pre: Seq<char>) -> Option<Seq<char>> {
    if pre.len() == 0 {
        Some(p)
    } else if p == pre {
        Some(Seq::empty())
    } else if p.len() > pre.len() && p.subrange(0, pre.len() as int) == pre {
        if pre.last() == '/' {
            Some(p.subrange(pre.len() as int, p.len() as int))
        } else if p[pre.len() as int] == '/' {
            Some(p.subrange(pre.len() as int + 1, p.len() as int))
        } else {
            None
        }
    } else {
        None
    }
}

/// Whether the path starts with `/`.
pub fn is_absolute(p: &str) -> (b: bool)
    ensures
        b == is_absolute_spec(p@),
{
    p.unicode_len() > 0 && p.get_char(0) == '/'
}

/// The file-name part of `p`: what follows its last `/`.
pub fn base_name(p: &str) -> (r: String)
    ensures
        r@ == base_name_spec(p@),
{
    let len = p.unicode_len();
    match crate::env_file::find_last_char(p, '/') {
        Some(k) => {
            proof {
                let kk = choose|j: int| crate::env_file::is_last_index_of(p@, '/', j);
                assert(crate::env_file::is_last_index_of(p@, '/', k as int));
                assert(forall|j: int| kk < j < p@.len() ==> p@[j] != '/');
                assert(kk == k as int);
            }
            String::from_str(p.substring_char(k + 1, len))
        },
        None => String::from_str(p),
    }
}

/// The directory part of `p`: what precedes its last `/`.
pub fn parent(p: &str) -> (r: String)
    ensures
        r@ == parent_spec(p@),
{
    match crate::env_file::find_last_char(p, '/') {
        Some(k) => {
            proof {
                let kk = choose|j: int| crate::env_file::is_last_index_of(p@, '/', j);
                assert(crate::env_file::is_last_index_of(p@, '/', k as int));
                assert(forall|j: int| kk < j < p@.len() ==> p@[j] != '/');
                assert(kk == k as int);
            }
            String::from_str(p.substring_char(0, k))
        },
        None => String::new(),
    }
}

/// Whether `a@` and `b@` are the same text.
pub fn str_eq(a: &str, b: &str) -> (r: bool)
    ensures
        r == (a@ == b@),
{
    let a_len = a.unicode_len();
    let b_len = b.unicode_len();
    if a_len != b_len {
        return false;
    }
    let mut i: usize = 0;
    while i < a_len
        invariant
            0 <= i <= a_len,
            a_len == a@.len(),
            a_len == b@.len(),
            forall|j: int| 0 <= j < i ==> a@[j] == b@[j],
        decreases a_len - i,
    {
        if a.get_char(i) != b.get_char(i) {
            return false;
        }
        i = i + 1;
    }
    proof {
        assert(a@ =~= b@);
    }
    true
}

/// The remainder of `p` after the leading directory `pre`; `None` when
/// `pre` does not lead `p`.
pub fn strip_prefix(p: &str, pre: &str) -> (r: Option<String>)
    ensures
        match strip_prefix_spec(p@, pre@) {
            Some(rest) => r matches Some(s) && s@ == rest,
            None => r is None,
        },
{
    let p_len = p.unicode_len();
    let pre_len = pre.unicode_len();
    if pre_len == 0 {
        return Some(String::from_str(p));
    }
    if str_eq(p, pre) {
        return Some(String::new());
    }
    if p_len <= pre_len {
        proof {
            if p_len == pre_len && p@.subrange(0, pre_len as int) == pre@ {
                assert(p@ =~= p@.subrange(0, pre_len as int));
            }
        }
        return None;
    }
    let head = p.substring_char(0, pre_len);
    if !str_eq(head, pre) {
        return None;
    }
    if pre.get_char(pre_len - 1) == '/' {
        Some(String::from_str(p.substring_char(pre_len, p_len)))
    } else if p.get_char(pre_len) == '/' {
        Some(String::from_str(p.substring_char(pre_len + 1, p_len)))
    } else {
        None
    }
}

/// `dir` and `rel` joined with a single `/`.
pub fn join(dir: &str, rel: &str) -> (r: String)
    ensures
        r@ == join_spec(dir@, rel@),
{
    let rel_len = rel.unicode_len();
    let rel = if rel_len >= 2 && rel.get_char(0) == '.' && rel.get_char(1) == '/' {
        rel.substring_char(2, rel_len)
    } else {
        rel
    };
    if is_absolute(rel) {
        String::from_str(rel)
    } else {
        let dir_len = dir.unicode_len();
        let mut out = String::from_str(dir);
        if !(dir_len > 0 && dir.get_char(dir_len - 1) == '/') {
            out.append("/");
            proof {
                reveal_strlit("/");
                assert(("/")@ =~= seq!['/']);
            }
        }
        out.append(rel);
        out
    }
}

} // verus!
