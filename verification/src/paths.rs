//! File system paths as text.
use vstd::prelude::*;

verus! {

/// The path without its last component; none for a root or an empty path.
pub uninterp spec fn parent_path(path: Seq<char>) -> Option<Seq<char>>;

/// `Path::parent` takes the last component off a path; the result depends on the path alone.
#[verifier::external_body]
pub(crate) fn parent(path: &str) -> (parent: Option<String>)
    ensures
        match parent {
            Some(parent) => parent_path(path@) == Some(parent@),
            None => parent_path(path@) is None,
        },
{
    std::path::Path::new(path).parent().map(|parent| parent.to_string_lossy().into_owned())
}

/// `part` below `base`; an absolute `part` stands for itself.
pub open spec fn joined_path(base: Seq<char>, part: Seq<char>) -> Seq<char> {
    if base.len() == 0 || (part.len() > 0 && part[0] == '/') {
        part
    } else if base.last() == '/' {
        base + part
    } else {
        base + "/"@ + part
    }
}

/// `part` below `base`; an absolute `part` stands for itself.
pub fn join(base: &str, part: &str) -> (path: String)
    ensures
        path@ == joined_path(base@, part@),
{
    let base_len: usize = base.unicode_len();
    if base_len == 0 || (part.unicode_len() > 0 && part.get_char(0) == '/') {
        return part.to_owned();
    }
    let mut path: String = base.to_owned();
    if base.get_char(base_len - 1) != '/' {
        path.append("/");
    }
    path.append(part);
    path
}


/// A relative part stands below its base: the path begins with the base, ends with the part, and
/// has one separator between them. An absolute part, or one without a base, stands for itself.
pub proof fn law_joined_path_stands_below(base: Seq<char>, part: Seq<char>)
    ensures
        part.len() > 0 && part[0] == '/' ==> joined_path(base, part) == part,
        base.len() == 0 ==> joined_path(base, part) == part,
        base.len() > 0 && (part.len() == 0 || part[0] != '/') ==> {
            &&& base.is_prefix_of(joined_path(base, part))
            &&& part.is_suffix_of(joined_path(base, part))
            &&& joined_path(base, part)[joined_path(base, part).len() - part.len() - 1] == '/'
            &&& joined_path(base, part).len() == base.len() + part.len() + if base.last() == '/' {
                0int
            } else {
                1int
            }
        },
{
    reveal_strlit("/");
    if base.len() > 0 && (part.len() == 0 || part[0] != '/') {
        assert(base.is_prefix_of(joined_path(base, part)));
        assert(part.is_suffix_of(joined_path(base, part)));
    }
}

} // verus!
