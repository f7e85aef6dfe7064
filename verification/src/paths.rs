//! File system paths as text, the way `std::path::Path` builds them on Unix.
use vstd::prelude::*;

use crate::text::{append_str, chars_of, opt_view, string_of};

verus! {

/// `Path::join` on Unix: an absolute `name` replaces `base`; otherwise `name`
/// follows `base`, with a `/` between them unless `base` is empty or already
/// ends with one.
pub open spec fn join_path(base: Seq<char>, name: Seq<char>) -> Seq<char> {
    if name.len() > 0 && name[0] == '/' {
        name
    } else if base.len() == 0 || base.last() == '/' {
        base + name
    } else {
        base + "/"@ + name
    }
}

/// Whether a path is absolute on Unix: it starts at the root.
pub open spec fn is_absolute(p: Seq<char>) -> bool {
    p.len() > 0 && p[0] == '/'
}

/// The path `name` under `base` (see [`join_path`]).
pub fn path_join(base: &str, name: &str) -> (r: String)
    ensures
        r@ == join_path(base@, name@),
{
    let n = chars_of(name);
    if n.len() > 0 && n[0] == '/' {
        return name.to_owned();
    }
    let mut v = chars_of(base);
    if v.len() == 0 || v[v.len() - 1] == '/' {
        append_str(&mut v, name);
    } else {
        append_str(&mut v, "/");
        append_str(&mut v, name);
    }
    string_of(&v)
}

/// What `Path::parent` gives for the path `p`, as text.
pub uninterp spec fn path_parent(p: Seq<char>) -> Option<Seq<char>>;

/// `std::path::Path::parent`: the path without its final component, or
/// nothing when the path ends in the root or is empty. Which component is
/// the final one follows the component rules of `std::path`, so the result
/// is only named here.
#[verifier::external_body]
pub(crate) fn parent_of(p: &str) -> (r: Option<String>)
    ensures
        opt_view(r) == path_parent(p@),
{
    std::path::Path::new(p).parent().map(|q| q.to_string_lossy().into_owned())
}

} // verus!
