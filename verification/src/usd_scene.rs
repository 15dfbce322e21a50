//! Scene-level decisions of USD ingestion: which prims belong to a shading
//! subtree (and so never become scene nodes), and which referenced asset
//! of a material is its MaterialX document.

use vstd::prelude::*;
use crate::text::{chars_of, str_eq, string_of};
use crate::usd::{last_index_of, lemma_last_index_of, rfind_char};

verus! {

/// The parent of prim path `p`: the path up to its last `/` (the absolute
/// root `/` for a top-level prim); the root and relative names have none.
pub open spec fn parent_path(p: Seq<char>) -> Option<Seq<char>> {
    if p == seq!['/'] {
        None
    } else {
        match last_index_of(p, '/') {
            Some(i) => if i == 0 { Some(seq!['/']) } else { Some(p.take(i)) },
            None => None,
        }
    }
}

proof fn lemma_parent_shorter(p: Seq<char>)
    ensures
        parent_path(p) matches Some(q) ==> q.len() < p.len(),
{
    lemma_last_index_of(p, '/');
    if p != seq!['/'] {
        if let Some(i) = last_index_of(p, '/') {
            if i == 0 {
                assert(p.len() >= 1);
                if p.len() == 1 {
                    assert(p =~= seq!['/']);
                }
            }
        }
    }
}

/// Whether `p` or one of its ancestors is among `shading`.
pub open spec fn under_shading_spec(p: Seq<char>, shading: Seq<Seq<char>>) -> bool
    decreases p.len(),
{
    shading.contains(p) || match parent_path(p) {
        Some(q) => {
            if q.len() < p.len() { under_shading_spec(q, shading) } else { false }
        },
        None => false,
    }
}

fn parent_of(p: &Vec<char>) -> (r: Option<Vec<char>>)
    ensures
        match r {
            Some(q) => parent_path(p@) == Some(q@),
            None => parent_path(p@) is None,
        },
{
    if p.len() == 1 && p[0] == '/' {
        assert(p@ =~= seq!['/']);
        return None;
    }
    assert(p@ != seq!['/']);
    match rfind_char(p, '/') {
        Some(0) => {
            let mut root: Vec<char> = Vec::new();
            root.push('/');
            assert(root@ =~= seq!['/']);
            Some(root)
        },
        Some(i) => {
            proof { lemma_last_index_of(p@, '/'); }
            let q = crate::text::slice_chars(p.as_slice(), 0, i);
            assert(q@ =~= p@.take(i as int));
            Some(q)
        },
        None => None,
    }
}

fn contains_path(shading: &Vec<String>, p: &Vec<char>) -> (r: bool)
    ensures
        r == shading@.map_values(|s: String| s@).contains(p@),
{
    let ps = string_of(p.as_slice());
    let mut i: usize = 0;
    while i < shading.len()
        invariant
            ps@ == p@,
            i <= shading@.len(),
            forall|j: int| 0 <= j < i ==> shading@[j]@ != p@,
        decreases shading.len() - i,
    {
        if str_eq(shading[i].as_str(), ps.as_str()) {
            assert(shading@.map_values(|s: String| s@)[i as int] == p@);
            return true;
        }
        i = i + 1;
    }
    proof {
        let v = shading@.map_values(|s: String| s@);
        if v.contains(p@) {
            let j = choose|j: int| 0 <= j < v.len() && v[j] == p@;
            assert(shading@[j]@ == p@);
        }
    }
    false
}

/// Whether the prim at `path` lies in a shading subtree: it, or one of its
/// ancestors, is one of the `shading` prims (materials, shaders, node
/// graphs, looks).
pub fn under_shading(path: &str, shading: &Vec<String>) -> (r: bool)
    ensures
        r == under_shading_spec(path@, shading@.map_values(|s: String| s@)),
{
    let ghost set = shading@.map_values(|s: String| s@);
    let mut cur = chars_of(path);
    let ghost start = cur@;
    while !contains_path(shading, &cur)
        invariant
            set == shading@.map_values(|s: String| s@),
            under_shading_spec(path@, set) == under_shading_spec(cur@, set),
        decreases cur@.len(),
    {
        proof { lemma_parent_shorter(cur@); }
        match parent_of(&cur) {
            Some(q) => {
                cur = q;
            },
            None => {
                return false;
            },
        }
    }
    true
}

/// ASCII lower case of `c`.
pub open spec fn ascii_lower(c: char) -> char {
    if 'A' <= c && c <= 'Z' { ((c as u32) + 32) as char } else { c }
}

/// Whether `a` and `b` are equal up to ASCII case (`str::eq_ignore_ascii_case`).
pub open spec fn eq_ignore_ascii_case_spec(a: Seq<char>, b: Seq<char>) -> bool {
    a.len() == b.len() && forall|i: int| 0 <= i < a.len() ==> ascii_lower(#[trigger] a[i]) == ascii_lower(b[i])
}

/// Whether an asset path names a MaterialX document: the text after its
/// last `.` is `mtlx` in any ASCII case.
pub open spec fn is_mtlx_asset(path: Seq<char>) -> bool {
    match last_index_of(path, '.') {
        Some(i) => eq_ignore_ascii_case_spec(path.skip(i + 1), "mtlx"@),
        None => false,
    }
}

fn lower(c: char) -> (r: char)
    ensures
        r == ascii_lower(c),
{
    if 'A' <= c && c <= 'Z' {
        let u = (c as u32) + 32;
        assert(u < 128);
        (u as u8) as char
    } else {
        c
    }
}

/// Whether `path` names a MaterialX document (see [`is_mtlx_asset`]).
pub fn mtlx_asset(path: &str) -> (r: bool)
    ensures
        r == is_mtlx_asset(path@),
{
    let cs = chars_of(path);
    match rfind_char(&cs, '.') {
        None => false,
        Some(i) => {
            proof { lemma_last_index_of(cs@, '.'); }
            let ext = crate::text::slice_chars(cs.as_slice(), i + 1, cs.len());
            assert(ext@ =~= path@.skip(i + 1));
            let m = chars_of("mtlx");
            if ext.len() != m.len() {
                return false;
            }
            let mut k: usize = 0;
            while k < ext.len()
                invariant
                    m@ == "mtlx"@,
                    ext@ == path@.skip(i + 1),
                    last_index_of(path@, '.') == Some(i as int),
                    ext@.len() == m@.len(),
                    k <= ext@.len(),
                    forall|j: int| 0 <= j < k ==> ascii_lower(#[trigger] ext@[j]) == ascii_lower(m@[j]),
                decreases ext.len() - k,
            {
                if lower(ext[k]) != lower(m[k]) {
                    assert(path@.skip(i + 1)[k as int] == ext@[k as int]);
                    assert(!eq_ignore_ascii_case_spec(path@.skip(i + 1), "mtlx"@));
                    return false;
                }
                k = k + 1;
            }
            true
        },
    }
}

/// The first `.mtlx` asset among a material's `references`, taken in the
/// order explicit, prepended, appended, added.
pub open spec fn first_mtlx_spec(assets: Seq<Seq<char>>) -> Option<Seq<char>>
    decreases assets.len(),
{
    if assets.len() == 0 {
        None
    } else if is_mtlx_asset(assets[0]) {
        Some(assets[0])
    } else {
        first_mtlx_spec(assets.drop_first())
    }
}

/// The first asset path of `assets` that names a MaterialX document.
pub fn first_mtlx_reference(assets: &Vec<String>) -> (r: Option<String>)
    ensures
        match r {
            Some(s) => first_mtlx_spec(assets@.map_values(|a: String| a@)) == Some(s@),
            None => first_mtlx_spec(assets@.map_values(|a: String| a@)) is None,
        },
{
    let ghost all = assets@.map_values(|a: String| a@);
    let mut i: usize = 0;
    assert(all.skip(0) =~= all);
    while i < assets.len()
        invariant
            all == assets@.map_values(|a: String| a@),
            i <= assets@.len(),
            first_mtlx_spec(all) == first_mtlx_spec(all.skip(i as int)),
        decreases assets.len() - i,
    {
        assert(all.skip(i as int)[0] == assets@[i as int]@);
        assert(all.skip(i as int).drop_first() =~= all.skip(i + 1));
        if mtlx_asset(assets[i].as_str()) {
            let s = string_of(chars_of(assets[i].as_str()).as_slice());
            return Some(s);
        }
        i = i + 1;
    }
    assert(all.skip(i as int) =~= Seq::<Seq<char>>::empty());
    None
}

/// The name of the prim at `p`: the text after its last `/` (empty for the
/// absolute root; the whole text of a name without `/`).
pub open spec fn prim_name_spec(p: Seq<char>) -> Seq<char> {
    match last_index_of(p, '/') {
        Some(i) => p.skip(i + 1),
        None => p,
    }
}

/// The parent a scene-list entry records for the prim at `p`: its parent
/// path, except that a top-level prim (whose parent is the absolute root)
/// records none.
pub open spec fn scene_parent_spec(p: Seq<char>) -> Option<Seq<char>> {
    match parent_path(p) {
        Some(q) => if q == seq!['/'] { None } else { Some(q) },
        None => None,
    }
}

/// The name and the recorded parent of the prim at `path` (see
/// [`prim_name_spec`] and [`scene_parent_spec`]).
pub fn prim_name_and_parent(path: &str) -> (r: (String, Option<String>))
    ensures
        r.0@ == prim_name_spec(path@),
        match r.1 {
            Some(q) => scene_parent_spec(path@) == Some(q@),
            None => scene_parent_spec(path@) is None,
        },
{
    let cs = chars_of(path);
    let name = match rfind_char(&cs, '/') {
        Some(i) => {
            proof { lemma_last_index_of(cs@, '/'); }
            let t = crate::text::slice_chars(cs.as_slice(), i + 1, cs.len());
            assert(t@ =~= cs@.skip(i + 1));
            string_of(t.as_slice())
        },
        None => string_of(cs.as_slice()),
    };
    let parent = match parent_of(&cs) {
        Some(q) => {
            if q.len() == 1 && q[0] == '/' {
                assert(q@ =~= seq!['/']);
                None
            } else {
                assert(q@ != seq!['/']);
                Some(string_of(q.as_slice()))
            }
        },
        None => None,
    };
    (name, parent)
}

/// A prim's computed purpose (UsdGeom `purpose`).
#[derive(Clone, Copy, Debug, PartialEq, Eq)]
pub enum UsdPurpose {
    Default,
    Render,
    Proxy,
    Guide,
}

/// Whether a traversed prim joins the flat scene list: never the absolute
/// root nor a prim of a shading subtree, never an inactive prim; a mesh
/// only when it is not invisible and its purpose is `Default` or `Render`
/// (visibility and purpose are read on meshes alone); any other prim is
/// kept as a group that carries its children's transforms.
pub open spec fn prim_kept_spec(is_root: bool, in_shading: bool, is_mesh: bool, invisible: bool, purpose: UsdPurpose, active: bool) -> bool {
    &&& !is_root
    &&& !in_shading
    &&& active
    &&& is_mesh ==> !invisible && (purpose is Default || purpose is Render)
}

/// Whether a traversed prim joins the flat scene list (see
/// [`prim_kept_spec`]).
pub fn prim_kept(is_root: bool, in_shading: bool, is_mesh: bool, invisible: bool, purpose: UsdPurpose, active: bool) -> (r: bool)
    ensures
        r == prim_kept_spec(is_root, in_shading, is_mesh, invisible, purpose, active),
{
    if is_root || in_shading {
        return false;
    }
    if is_mesh {
        let rendered = match purpose {
            UsdPurpose::Default | UsdPurpose::Render => true,
            UsdPurpose::Proxy | UsdPurpose::Guide => false,
        };
        if invisible || !rendered {
            return false;
        }
    }
    active
}

} // verus!
