//! Where a glTF model's buffers and images are fetched from.

use vstd::prelude::*;
use crate::text::{chars_of, push_str};

verus! {

/// Whether `s` begins with `prefix`.
pub open spec fn has_prefix(s: Seq<char>, prefix: Seq<char>) -> bool {
    prefix.len() <= s.len() && s.take(prefix.len() as int) == prefix
}

/// Whether `s` begins with `prefix`.
pub fn starts_with(s: &str, prefix: &str) -> (r: bool)
    ensures
        r == has_prefix(s@, prefix@),
{
    let cs = chars_of(s);
    let ps = chars_of(prefix);
    if ps.len() > cs.len() {
        return false;
    }
    let mut i: usize = 0;
    while i < ps.len()
        invariant
            cs@ == s@,
            ps@ == prefix@,
            ps@.len() <= cs@.len(),
            i <= ps@.len(),
            forall|k: int| 0 <= k < i ==> cs@[k] == ps@[k],
        decreases ps.len() - i,
    {
        if cs[i] != ps[i] {
            assert(s@.take(prefix@.len() as int)[i as int] != prefix@[i as int]);
            return false;
        }
        i = i + 1;
    }
    assert(s@.take(prefix@.len() as int) =~= prefix@);
    true
}

/// Whether `uri` already carries its own location: an absolute or
/// protocol-relative URL (`http://`, `https://`, `//`), a self-contained
/// URI (`blob:`, `data:`), or an origin-absolute path (leading `/`).
pub open spec fn carries_own_location(uri: Seq<char>) -> bool {
    ||| has_prefix(uri, "http://"@)
    ||| has_prefix(uri, "https://"@)
    ||| has_prefix(uri, "//"@)
    ||| has_prefix(uri, "blob:"@)
    ||| has_prefix(uri, "data:"@)
    ||| has_prefix(uri, "/"@)
}

/// Resolves a glTF asset `uri` (buffer or image) against the model's
/// `folder_path`: a URI that carries its own location is returned
/// unchanged, any other is joined to the folder with a single `/` (so with
/// an empty folder it becomes `"/{uri}"`).
pub fn asset_uri_resolve(folder_path: &str, uri: &str) -> (r: String)
    ensures
        r@ == (if carries_own_location(uri@) { uri@ } else { folder_path@ + "/"@ + uri@ }),
{
    let own = starts_with(uri, "http://") || starts_with(uri, "https://") || starts_with(uri, "//")
        || starts_with(uri, "blob:") || starts_with(uri, "data:") || starts_with(uri, "/");
    let mut r = String::new();
    if own {
        push_str(&mut r, uri);
    } else {
        push_str(&mut r, folder_path);
        push_str(&mut r, "/");
        push_str(&mut r, uri);
    }
    r
}

} // verus!
