//! The pure, off-GPU core of USD scene ingestion: the in-memory asset
//! resolver that serves a stage and its referenced layers from a
//! `path -> bytes` map, asset-path normalization, and the topology half of
//! mesh extraction (fan triangulation with primvar corner resolution and
//! corner de-duplication).

use vstd::prelude::*;
use vstd::hash_map::StringHashMap;
use std::collections::HashMap;
use crate::text::{chars_of, str_eq, string_of};

verus! {

/// The `/`-separated segments of `s`, as `str::split('/')` yields them
/// (an empty string has one, empty, segment).
pub open spec fn split_segments(s: Seq<char>) -> Seq<Seq<char>>
    decreases s.len(),
{
    if s.len() == 0 {
        seq![Seq::<char>::empty()]
    } else {
        let init = split_segments(s.drop_last());
        if s.last() == '/' {
            init.push(Seq::<char>::empty())
        } else {
            init.update(init.len() - 1, init.last().push(s.last()))
        }
    }
}

/// Whether a path segment survives normalization: it is neither empty nor `.`.
pub open spec fn kept_segment(seg: Seq<char>) -> bool {
    seg.len() > 0 && seg != seq!['.']
}

/// The kept segments of `parts`, joined with `/`.
pub open spec fn join_kept(parts: Seq<Seq<char>>) -> Seq<char>
    decreases parts.len(),
{
    if parts.len() == 0 {
        Seq::<char>::empty()
    } else {
        let head = join_kept(parts.drop_last());
        let seg = parts.last();
        if !kept_segment(seg) {
            head
        } else if head.len() == 0 {
            seg
        } else {
            head + seq!['/'] + seg
        }
    }
}

/// `path` with its empty and `.` segments dropped.
pub open spec fn normalized_path(path: Seq<char>) -> Seq<char> {
    join_kept(split_segments(path))
}

proof fn lemma_split_nonempty(s: Seq<char>)
    ensures
        split_segments(s).len() >= 1,
    decreases s.len(),
{
    if s.len() > 0 {
        lemma_split_nonempty(s.drop_last());
    }
}

/// Whether `seg` holds no `/`.
pub open spec fn slash_free(seg: Seq<char>) -> bool {
    forall|i: int| 0 <= i < seg.len() ==> seg[i] != '/'
}

proof fn lemma_split_slash_free(s: Seq<char>)
    ensures
        forall|i: int| 0 <= i < split_segments(s).len() ==> slash_free(#[trigger] split_segments(s)[i]),
    decreases s.len(),
{
    lemma_split_nonempty(s);
    if s.len() > 0 {
        lemma_split_slash_free(s.drop_last());
        lemma_split_nonempty(s.drop_last());
    }
}

proof fn lemma_split_append_segment(s: Seq<char>, seg: Seq<char>)
    requires
        slash_free(seg),
    ensures
        split_segments(s + seg) == split_segments(s).update(split_segments(s).len() - 1, split_segments(s).last() + seg),
    decreases seg.len(),
{
    lemma_split_nonempty(s);
    if seg.len() == 0 {
        assert(s + seg =~= s);
        assert(split_segments(s).last() + seg =~= split_segments(s).last());
        assert(split_segments(s).update(split_segments(s).len() - 1, split_segments(s).last()) =~= split_segments(s));
    } else {
        let init = seg.drop_last();
        assert(slash_free(init)) by {
            assert forall|i: int| 0 <= i < init.len() implies init[i] != '/' by {
                assert(init[i] == seg[i]);
            }
        }
        lemma_split_append_segment(s, init);
        let c = seg.last();
        assert(c == seg[seg.len() - 1]);
        assert(c != '/');
        assert((s + seg).drop_last() =~= s + init);
        assert((s + seg).last() == c);
        let parts = split_segments(s);
        let init2 = split_segments(s + init);
        assert(init2 == parts.update(parts.len() - 1, parts.last() + init));
        assert(split_segments(s + seg) == init2.update(init2.len() - 1, init2.last().push(c)));
        assert((parts.last() + init).push(c) =~= parts.last() + seg);
        assert(split_segments(s + seg) =~= parts.update(parts.len() - 1, parts.last() + seg));
    }
}

proof fn lemma_join_kept_nonempty_tail(parts: Seq<Seq<char>>)
    requires
        forall|i: int| 0 <= i < parts.len() ==> slash_free(#[trigger] parts[i]),
    ensures
        join_kept(parts).len() == 0 ==> join_kept(split_segments(join_kept(parts))) == join_kept(parts),
        join_kept(parts).len() > 0 ==> join_kept(split_segments(join_kept(parts))) == join_kept(parts),
    decreases parts.len(),
{
    if parts.len() == 0 {
        let e = Seq::<char>::empty();
        assert(split_segments(e) == seq![e]);
        assert(seq![e].drop_last() =~= Seq::<Seq<char>>::empty());
        assert(seq![e].last() == e);
        assert(!kept_segment(e));
        assert(join_kept(seq![e]) == join_kept(Seq::<Seq<char>>::empty()));
    } else {
        let head = join_kept(parts.drop_last());
        let seg = parts.last();
        assert(forall|i: int| 0 <= i < parts.drop_last().len() ==> slash_free(#[trigger] parts.drop_last()[i])) by {
            assert forall|i: int| 0 <= i < parts.drop_last().len() implies slash_free(#[trigger] parts.drop_last()[i]) by {
                assert(parts.drop_last()[i] == parts[i]);
            }
        }
        lemma_join_kept_nonempty_tail(parts.drop_last());
        assert(slash_free(seg)) by {
            assert(seg == parts[parts.len() - 1]);
        }
        if !kept_segment(seg) {
        } else if head.len() == 0 {
            lemma_split_append_segment(Seq::<char>::empty(), seg);
            assert(Seq::<char>::empty() + seg =~= seg);
            let sp = split_segments(seg);
            assert(sp =~= seq![seg]);
            assert(sp.drop_last() =~= Seq::<Seq<char>>::empty());
            assert(sp.last() == seg);
            assert(join_kept(sp.drop_last()) == Seq::<char>::empty());
            assert(kept_segment(sp.last()));
            assert(join_kept(sp) == seg);
        } else {
            let pre = head + seq!['/'];
            lemma_split_append_segment(pre, seg);
            assert(pre.drop_last() =~= head);
            lemma_split_nonempty(head);
            assert(split_segments(pre) == split_segments(head).push(Seq::<char>::empty()));
            let sp = split_segments(head + seq!['/'] + seg);
            assert(sp =~= split_segments(head).push(seg));
            assert(sp.drop_last() =~= split_segments(head));
            assert(sp.last() == seg);
            assert(join_kept(split_segments(head)) == head);
            assert(join_kept(sp) == head + seq!['/'] + seg);
        }
    }
}

/// Normalizing a path twice gives what normalizing it once gives: a
/// normalized path is its own key.
pub proof fn lemma_normalize_idempotent(path: Seq<char>)
    ensures
        normalized_path(normalized_path(path)) == normalized_path(path),
{
    lemma_split_slash_free(path);
    lemma_join_kept_nonempty_tail(split_segments(path));
}

/// Looking an asset up after inserting one gives the inserted bytes for
/// every path that normalizes like the inserted one, and what was there
/// before for every other path.
pub proof fn lemma_resolver_read_after_insert(before: Map<Seq<char>, Vec<u8>>, path: Seq<char>, bytes: Vec<u8>, query: Seq<char>)
    ensures
        ({
            let after = before.insert(normalized_path(path), bytes);
            let key = normalized_path(query);
            &&& key == normalized_path(path) ==> after.contains_key(key) && after[key] == bytes
            &&& key != normalized_path(path) ==> (after.contains_key(key) == before.contains_key(key)
                && (before.contains_key(key) ==> after[key] == before[key]))
        }),
{
}

/// Strips `./` segments (and empty ones) so `./gold.mtlx`, `.//gold.mtlx`
/// and `gold.mtlx` all key to the same entry. Not a general path canonizer:
/// `..` is kept as is.
pub fn normalize_asset_path(path: &str) -> (r: String)
    ensures
        r@ == normalized_path(path@),
{
    let cs = chars_of(path);
    let mut out: Vec<char> = Vec::new();
    let mut cur: Vec<char> = Vec::new();
    let mut i: usize = 0;
    proof {
        assert(cs@.take(0) =~= Seq::<char>::empty());
    }
    while i < cs.len()
        invariant
            cs@ == path@,
            i <= cs.len(),
            split_segments(cs@.take(i as int)).len() >= 1,
            cur@ == split_segments(cs@.take(i as int)).last(),
            out@ == join_kept(split_segments(cs@.take(i as int)).drop_last()),
        decreases cs.len() - i,
    {
        let c = cs[i];
        let ghost parts = split_segments(cs@.take(i as int));
        proof {
            assert(cs@.take(i + 1).drop_last() =~= cs@.take(i as int));
            assert(parts =~= parts.drop_last().push(parts.last()));
        }
        if c == '/' {
            flush_segment(&mut out, &cur, Ghost(parts.drop_last()));
            cur = Vec::new();
            proof {
                assert(split_segments(cs@.take(i + 1)) == parts.push(Seq::<char>::empty()));
                assert(split_segments(cs@.take(i + 1)).drop_last() =~= parts);
            }
        } else {
            cur.push(c);
            proof {
                let next = split_segments(cs@.take(i + 1));
                assert(next == parts.update(parts.len() - 1, parts.last().push(c)));
                assert(next.drop_last() =~= parts.drop_last());
                lemma_split_nonempty(cs@.take(i + 1));
            }
        }
        i = i + 1;
    }
    proof {
        assert(cs@.take(cs.len() as int) =~= cs@);
        let parts = split_segments(cs@);
        assert(parts =~= parts.drop_last().push(parts.last()));
    }
    flush_segment(&mut out, &cur, Ghost(split_segments(cs@).drop_last()));
    string_of(out.as_slice())
}

fn flush_segment(out: &mut Vec<char>, seg: &Vec<char>, Ghost(before): Ghost<Seq<Seq<char>>>)
    requires
        old(out)@ == join_kept(before),
    ensures
        final(out)@ == join_kept(before.push(seg@)),
{
    proof {
        assert(before.push(seg@).drop_last() =~= before);
    }
    let keep = seg.len() > 0 && !(seg.len() == 1 && seg[0] == '.');
    proof {
        if seg@ == seq!['.'] {
            assert(seg@.len() == 1 && seg@[0] == '.');
        }
        if seg.len() == 1 && seg@[0] == '.' {
            assert(seg@ =~= seq!['.']);
        }
    }
    if keep {
        if out.len() > 0 {
            out.push('/');
        }
        let mut j: usize = 0;
        let ghost start = out@;
        while j < seg.len()
            invariant
                j <= seg.len(),
                out@ == start + seg@.take(j as int),
            decreases seg.len() - j,
        {
            out.push(seg[j]);
            j = j + 1;
            assert(out@ =~= start + seg@.take(j as int));
        }
        assert(seg@.take(seg.len() as int) =~= seg@);
        proof {
            if start.len() == 0 {
                assert(out@ =~= seg@);
            } else {
                assert(out@ =~= join_kept(before) + seq!['/'] + seg@);
            }
        }
    }
}


/// `path -> bytes` map serving a stage root and every asset it references.
/// Keys are compared after [`normalize_asset_path`].
pub struct UsdInMemoryResolver {
    files: StringHashMap<Vec<u8>>,
}

impl View for UsdInMemoryResolver {
    type V = Map<Seq<char>, Vec<u8>>;

    closed spec fn view(&self) -> Map<Seq<char>, Vec<u8>> {
        self.files@
    }
}

impl UsdInMemoryResolver {
    /// Creates an empty resolver.
    pub fn new() -> (r: Self)
        ensures
            r@ == Map::<Seq<char>, Vec<u8>>::empty(),
    {
        UsdInMemoryResolver { files: StringHashMap::new() }
    }

    /// Inserts one asset under its normalized path, replacing any earlier one.
    pub fn insert(&mut self, path: &str, bytes: Vec<u8>)
        ensures
            final(self)@ == old(self)@.insert(normalized_path(path@), bytes),
    {
        let key = normalize_asset_path(path);
        self.files.insert(key, bytes);
    }

    /// Looks an asset up by (normalized) path.
    pub fn get(&self, path: &str) -> (r: Option<&Vec<u8>>)
        ensures
            match r {
                Some(v) => self@.contains_key(normalized_path(path@)) && *v == self@[normalized_path(path@)],
                None => !self@.contains_key(normalized_path(path@)),
            },
    {
        let key = normalize_asset_path(path);
        self.files.get(key.as_str())
    }
}

/// A source of USD-referenced text assets (the `.mtlx` files a `Material`
/// prim points at via `references = @./x.mtlx@`), addressed by the authored
/// asset-path token.
pub trait UsdAssetProvider {
    /// Returns the UTF-8 text of `path`, if this source knows it.
    fn asset_text(&self, path: &str) -> Option<String>;
}

/// `std::str::from_utf8` on `bytes`, copied into a `String`.
/// Trusted: it succeeds exactly on valid UTF-8 and then yields the decoded
/// characters.
#[verifier::external_body]
fn utf8_text(bytes: &[u8]) -> (r: Option<String>)
    ensures
        r is Some <==> vstd::utf8::valid_utf8(bytes@),
        r matches Some(t) ==> t@ == vstd::utf8::decode_utf8(bytes@),
{
    std::str::from_utf8(bytes).ok().map(|t| t.to_string())
}

impl UsdInMemoryResolver {
    /// The text of the asset stored under `path`'s normalized form, when it is
    /// valid UTF-8.
    pub fn text_of(&self, path: &str) -> (r: Option<String>)
        ensures
            !self@.contains_key(normalized_path(path@)) ==> r is None,
            self@.contains_key(normalized_path(path@)) ==> {
                let b = self@[normalized_path(path@)]@;
                &&& r is Some <==> vstd::utf8::valid_utf8(b)
                &&& r matches Some(t) ==> t@ == vstd::utf8::decode_utf8(b)
            },
    {
        match self.get(path) {
            Some(bytes) => utf8_text(bytes.as_slice()),
            None => None,
        }
    }
}

impl UsdAssetProvider for UsdInMemoryResolver {
    fn asset_text(&self, path: &str) -> (r: Option<String>)
        ensures
            !self@.contains_key(normalized_path(path@)) ==> r is None,
            self@.contains_key(normalized_path(path@)) ==> {
                let b = self@[normalized_path(path@)]@;
                &&& r is Some <==> vstd::utf8::valid_utf8(b)
                &&& r matches Some(t) ==> t@ == vstd::utf8::decode_utf8(b)
            },
    {
        self.text_of(path)
    }
}

/// Index of the last `c` in `s`, if any.
pub open spec fn last_index_of(s: Seq<char>, c: char) -> Option<int>
    decreases s.len(),
{
    if s.len() == 0 {
        None
    } else if s.last() == c {
        Some(s.len() - 1)
    } else {
        last_index_of(s.drop_last(), c)
    }
}

pub(crate) proof fn lemma_last_index_of(s: Seq<char>, c: char)
    ensures
        last_index_of(s, c) matches Some(i) ==> 0 <= i < s.len() && s[i] == c
            && forall|j: int| i < j < s.len() ==> s[j] != c,
        last_index_of(s, c) is None ==> forall|j: int| 0 <= j < s.len() ==> s[j] != c,
    decreases s.len(),
{
    if s.len() > 0 {
        let t = s.drop_last();
        lemma_last_index_of(t, c);
        assert(forall|j: int| 0 <= j < t.len() ==> t[j] == s[j]);
    }
}

pub(crate) fn rfind_char(cs: &Vec<char>, c: char) -> (r: Option<usize>)
    ensures
        match r {
            Some(i) => last_index_of(cs@, c) == Some(i as int),
            None => last_index_of(cs@, c) is None,
        },
{
    let mut i: usize = cs.len();
    assert(cs@.take(i as int) =~= cs@);
    while i > 0
        invariant
            i <= cs.len(),
            last_index_of(cs@, c) == last_index_of(cs@.take(i as int), c),
        decreases i,
    {
        proof {
            assert(cs@.take(i as int).drop_last() =~= cs@.take(i - 1));
        }
        if cs[i - 1] == c {
            return Some(i - 1);
        }
        i = i - 1;
    }
    None
}

/// The directory prefix of an asset path (everything up to and including
/// the last `/`), used to resolve `@./sibling@` references relative to the
/// referencing file. Empty for a bare filename.
pub fn asset_dir(path: &str) -> (r: &str)
    ensures
        r@ == match last_index_of(path@, '/') {
            Some(i) => path@.take(i + 1),
            None => Seq::<char>::empty(),
        },
{
    let cs = chars_of(path);
    let n = cs.len();
    match rfind_char(&cs, '/') {
        Some(i) => {
            proof { lemma_last_index_of(cs@, '/'); }
            assert(i < n);
            path.substring_char(0, i + 1)
        },
        None => path.substring_char(0, 0),
    }
}

/// `s` with every `\` turned into `/`.
pub open spec fn forward_slashes(s: Seq<char>) -> Seq<char> {
    s.map_values(|c: char| if c == '\\' { '/' } else { c })
}

/// The identifier an asset reference resolves to: absolute paths and
/// references without a context stay as authored; relative ones are joined
/// to the directory of the referencing layer (`\` read as `/`) and normalized.
pub open spec fn identifier_spec(asset_path: Seq<char>, context: Option<Seq<char>>) -> Seq<char> {
    match context {
        None => asset_path,
        Some(ctx) => if asset_path.len() > 0 && asset_path[0] == '/' {
            asset_path
        } else {
            let c = forward_slashes(ctx);
            match last_index_of(c, '/') {
                Some(i) => if i == 0 {
                    normalized_path(asset_path)
                } else {
                    normalized_path(c.take(i) + seq!['/'] + asset_path)
                },
                None => normalized_path(asset_path),
            }
        },
    }
}

/// Resolves a (possibly relative) asset reference against the identifier of
/// the layer that holds it.
pub fn asset_identifier(asset_path: &str, context: Option<&str>) -> (r: String)
    ensures
        r@ == identifier_spec(asset_path@, match context { Some(c) => Some(c@), None => None }),
{
    let ctx = match context {
        None => return string_of(chars_of(asset_path).as_slice()),
        Some(c) => c,
    };
    let ap = chars_of(asset_path);
    if ap.len() > 0 && ap[0] == '/' {
        return string_of(ap.as_slice());
    }
    let cs = chars_of(ctx);
    let mut fwd: Vec<char> = Vec::new();
    let mut i: usize = 0;
    while i < cs.len()
        invariant
            i <= cs.len(),
            fwd@ == forward_slashes(cs@.take(i as int)),
        decreases cs.len() - i,
    {
        let c = cs[i];
        fwd.push(if c == '\\' { '/' } else { c });
        i = i + 1;
        assert(fwd@ =~= forward_slashes(cs@.take(i as int)));
    }
    assert(cs@.take(cs.len() as int) =~= cs@);
    match rfind_char(&fwd, '/') {
        Some(j) if j > 0 => {
            proof { lemma_last_index_of(fwd@, '/'); }
            let mut joined: Vec<char> = Vec::new();
            let mut k: usize = 0;
            while k < j
                invariant
                    k <= j, j < fwd.len(),
                    joined@ == fwd@.take(k as int),
                decreases j - k,
            {
                joined.push(fwd[k]);
                k = k + 1;
                assert(joined@ =~= fwd@.take(k as int));
            }
            joined.push('/');
            let mut m: usize = 0;
            let ghost base = joined@;
            while m < ap.len()
                invariant
                    m <= ap.len(),
                    joined@ == base + ap@.take(m as int),
                decreases ap.len() - m,
            {
                joined.push(ap[m]);
                m = m + 1;
                assert(joined@ =~= base + ap@.take(m as int));
            }
            assert(ap@.take(ap.len() as int) =~= ap@);
            let joined_str = string_of(joined.as_slice());
            assert(joined@ =~= fwd@.take(j as int) + seq!['/'] + asset_path@);
            normalize_asset_path(joined_str.as_str())
        },
        _ => normalize_asset_path(asset_path),
    }
}

/// `true` if `prim_type` marks a shading prim (a `Material` or a node-graph
/// building block) that must not become a renderable scene node.
pub fn is_shading_type(prim_type: Option<&str>) -> (r: bool)
    ensures
        r == match prim_type {
            Some(t) => t@ == "Material"@ || t@ == "Shader"@ || t@ == "NodeGraph"@ || t@ == "Look"@,
            None => false,
        },
{
    match prim_type {
        Some(t) => str_eq(t, "Material") || str_eq(t, "Shader") || str_eq(t, "NodeGraph") || str_eq(t, "Look"),
        None => false,
    }
}

/// How a primvar's values map to face corners (UsdGeomPrimvar semantics).
#[derive(Clone, Copy, PartialEq, Eq, Structural, Debug)]
pub enum Interpolation {
    /// One value per vertex; indexed by `faceVertexIndices`.
    Vertex,
    /// One value per corner (optionally with an `:indices` indirection).
    FaceVarying,
    /// One value for the whole prim.
    Uniform,
}

impl Interpolation {
    /// Maps the `interpolation` metadatum; unauthored (or unknown) falls back
    /// to `vertex`, matching `UsdGeomPrimvar::GetInterpolation`.
    pub fn from_token(token: Option<&str>) -> (r: Interpolation)
        ensures
            r == match token {
                Some(t) => if t@ == "faceVarying"@ {
                    Interpolation::FaceVarying
                } else if t@ == "uniform"@ || t@ == "constant"@ {
                    Interpolation::Uniform
                } else {
                    Interpolation::Vertex
                },
                None => Interpolation::Vertex,
            },
    {
        match token {
            Some(t) => if str_eq(t, "faceVarying") {
                Interpolation::FaceVarying
            } else if str_eq(t, "uniform") || str_eq(t, "constant") {
                Interpolation::Uniform
            } else {
                Interpolation::Vertex
            },
            None => Interpolation::Vertex,
        }
    }
}


/// `v` clamped below at zero.
pub open spec fn clamp0(v: i32) -> nat {
    if v < 0 { 0 } else { v as nat }
}

/// The characters of an optional index array.
pub open spec fn opt_indices(indices: Option<Vec<i32>>) -> Option<Seq<i32>> {
    match indices {
        Some(v) => Some(v@),
        None => None,
    }
}

/// The value index a primvar with `interp` (and optional `:indices`) uses
/// for corner `corner` whose `faceVertexIndices` entry is `fvi`. A missing
/// indirection entry reads as 0.
pub open spec fn corner_value_spec(interp: Interpolation, fvi: i32, corner: nat, indices: Option<Seq<i32>>) -> nat {
    match interp {
        Interpolation::Vertex => clamp0(fvi),
        Interpolation::Uniform => 0,
        Interpolation::FaceVarying => match indices {
            Some(idx) => if corner < idx.len() { clamp0(idx[corner as int]) } else { 0 },
            None => corner,
        },
    }
}

/// Resolves one primvar's value index for the `corner`-th corner of the
/// source mesh, given its interpolation and optional `:indices`.
pub fn corner_value_index(interp: Interpolation, face_vertex_index: i32, corner: usize, indices: Option<&Vec<i32>>) -> (r: usize)
    ensures
        r == corner_value_spec(interp, face_vertex_index, corner as nat, match indices { Some(v) => Some(v@), None => None }),
{
    match interp {
        Interpolation::Vertex => if face_vertex_index < 0 { 0 } else { face_vertex_index as usize },
        Interpolation::Uniform => 0,
        Interpolation::FaceVarying => match indices {
            Some(idx) => if corner < idx.len() {
                let v = idx[corner];
                if v < 0 { 0 } else { v as usize }
            } else {
                0
            },
            None => corner,
        },
    }
}

/// How one optional primvar (`normals`, `primvars:st`,
/// `primvars:displayColor`) maps to corners.
#[derive(Clone, PartialEq, Eq, Debug)]
pub struct PrimvarLayout {
    /// The primvar's `interpolation` metadatum.
    pub interpolation: Interpolation,
    /// Its `:indices` indirection, when authored.
    pub indices: Option<Vec<i32>>,
}

/// The layouts of the primvars a mesh authors; `None` when absent.
#[derive(Clone, PartialEq, Eq, Debug)]
pub struct MeshPrimvars {
    /// `normals`.
    pub normals: Option<PrimvarLayout>,
    /// `primvars:st`.
    pub uvs: Option<PrimvarLayout>,
    /// `primvars:displayColor`.
    pub colors: Option<PrimvarLayout>,
}

/// One mesh corner: the (point, normal, uv, color) source-value indices it
/// resolves to. Equal keys share one output vertex.
pub type CornerKey = (u32, Option<u32>, Option<u32>, Option<u32>);

/// A primvar's value index at a corner, when the primvar is authored.
pub open spec fn primvar_slot(l: Option<PrimvarLayout>, fvi: i32, corner: nat) -> Option<u32> {
    match l {
        Some(l) => Some(corner_value_spec(l.interpolation, fvi, corner, opt_indices(l.indices)) as u32),
        None => None,
    }
}

/// The key of source corner `c`.
pub open spec fn corner_key(fi: Seq<i32>, pv: MeshPrimvars, c: nat) -> CornerKey {
    let fvi = fi[c as int];
    (clamp0(fvi) as u32, primvar_slot(pv.normals, fvi, c), primvar_slot(pv.uvs, fvi, c), primvar_slot(pv.colors, fvi, c))
}

/// Number of `faceVertexIndices` entries the faces of `counts` consume.
pub open spec fn corner_total(counts: Seq<i32>) -> nat
    decreases counts.len(),
{
    if counts.len() == 0 {
        0
    } else {
        corner_total(counts.drop_last()) + clamp0(counts.last())
    }
}

/// The source corner of the `j`-th emitted corner of a face starting at
/// `first`: fan triangle `t = j / 3` is `(first, first + t + 1, first + t + 2)`.
pub open spec fn fan_corner(first: nat, j: nat) -> nat {
    if j % 3 == 0 { first } else { first + j / 3 + j % 3 }
}

/// The corner keys one face of `count` corners starting at `first` emits:
/// none for a point or line, else its fan triangulation.
pub open spec fn face_keys(fi: Seq<i32>, pv: MeshPrimvars, first: nat, count: i32) -> Seq<CornerKey> {
    if count < 3 {
        Seq::<CornerKey>::empty()
    } else {
        Seq::new((3 * (count - 2)) as nat, |j: int| corner_key(fi, pv, fan_corner(first, j as nat)))
    }
}

/// The corner keys of the whole mesh, face by face, in triangle order.
pub open spec fn triangulated_keys(counts: Seq<i32>, fi: Seq<i32>, pv: MeshPrimvars) -> Seq<CornerKey>
    decreases counts.len(),
{
    if counts.len() == 0 {
        Seq::<CornerKey>::empty()
    } else {
        triangulated_keys(counts.drop_last(), fi, pv)
            + face_keys(fi, pv, corner_total(counts.drop_last()), counts.last())
    }
}

/// `s` with every element after its first occurrence dropped.
pub open spec fn first_occurrences(s: Seq<CornerKey>) -> Seq<CornerKey>
    decreases s.len(),
{
    if s.len() == 0 {
        Seq::<CornerKey>::empty()
    } else {
        let d = first_occurrences(s.drop_last());
        if d.contains(s.last()) { d } else { d.push(s.last()) }
    }
}

/// The position of `k` in `s` (meaningful when `s` holds `k` exactly once).
pub open spec fn position_of(s: Seq<CornerKey>, k: CornerKey) -> int {
    choose|v: int| 0 <= v < s.len() && s[v] == k
}

/// Triangulated mesh topology: the unique corner keys (one per output
/// vertex, in first-use order) and the triangle index buffer into them.
#[derive(Clone, PartialEq, Eq, Debug)]
pub struct MeshTopology {
    /// One key per output vertex.
    pub corners: Vec<CornerKey>,
    /// Triangle indices into `corners`.
    pub indices: Vec<u32>,
}

/// Why a mesh's topology cannot be triangulated.
#[derive(Clone, Copy, PartialEq, Eq, Structural, Debug)]
pub enum TopologyError {
    /// `faceVertexCounts` asks for more corners than `faceVertexIndices` holds.
    CornerCount {
        /// Corners the counts sum to.
        total: usize,
        /// Entries of `faceVertexIndices`.
        available: usize,
    },
    /// A corner references a point beyond `points`.
    PointOutOfRange {
        /// The referenced point.
        point: usize,
        /// Number of points.
        count: usize,
    },
    /// No face has three or more corners.
    Empty,
}

proof fn lemma_corner_total_prefix(counts: Seq<i32>, f: int)
    requires
        0 <= f <= counts.len(),
    ensures
        corner_total(counts.take(f)) <= corner_total(counts),
    decreases counts.len() - f,
{
    if f < counts.len() {
        lemma_corner_total_prefix(counts, f + 1);
        assert(counts.take(f + 1).drop_last() =~= counts.take(f));
    } else {
        assert(counts.take(f) =~= counts);
    }
}

fn corner_total_exec(counts: &[i32]) -> (r: usize)
    requires
        corner_total(counts@) <= usize::MAX,
    ensures
        r == corner_total(counts@),
{
    let mut total: usize = 0;
    let mut f: usize = 0;
    assert(counts@.take(0) =~= Seq::<i32>::empty());
    while f < counts.len()
        invariant
            f <= counts.len(),
            corner_total(counts@) <= usize::MAX,
            total == corner_total(counts@.take(f as int)),
        decreases counts.len() - f,
    {
        assert(counts@.take(f + 1).drop_last() =~= counts@.take(f as int));
        proof { lemma_corner_total_prefix(counts@, f + 1); }
        let c = counts[f];
        total = total + if c < 0 { 0 } else { c as usize };
        f = f + 1;
    }
    assert(counts@.take(counts.len() as int) =~= counts@);
    total
}

fn primvar_slot_exec(l: &Option<PrimvarLayout>, fvi: i32, corner: usize) -> (r: Option<u32>)
    ensures
        r == primvar_slot(*l, fvi, corner as nat),
{
    match l {
        Some(layout) => {
            let idx = match &layout.indices {
                Some(v) => Some(v),
                None => None,
            };
            Some(corner_value_index(layout.interpolation, fvi, corner, idx) as u32)
        },
        None => None,
    }
}

fn corner_key_exec(fi: &[i32], pv: &MeshPrimvars, c: usize) -> (r: CornerKey)
    requires
        c < fi@.len(),
    ensures
        r == corner_key(fi@, *pv, c as nat),
{
    let fvi = fi[c];
    let p: u32 = if fvi < 0 { 0 } else { fvi as u32 };
    (p, primvar_slot_exec(&pv.normals, fvi, c), primvar_slot_exec(&pv.uvs, fvi, c), primvar_slot_exec(&pv.colors, fvi, c))
}

fn triangulate_keys(counts: &[i32], fi: &[i32], pv: &MeshPrimvars) -> (r: Vec<CornerKey>)
    requires
        corner_total(counts@) <= fi@.len(),
    ensures
        r@ == triangulated_keys(counts@, fi@, *pv),
{
    let mut keys: Vec<CornerKey> = Vec::new();
    let mut first: usize = 0;
    let mut f: usize = 0;
    let fi_len = fi.len();
    assert(counts@.take(0) =~= Seq::<i32>::empty());
    while f < counts.len()
        invariant
            f <= counts.len(),
            fi_len == fi@.len(),
            corner_total(counts@) <= fi@.len(),
            first == corner_total(counts@.take(f as int)),
            keys@ == triangulated_keys(counts@.take(f as int), fi@, *pv),
        decreases counts.len() - f,
    {
        let count = counts[f];
        let ghost pre = counts@.take(f as int);
        proof {
            assert(counts@.take(f + 1).drop_last() =~= pre);
            assert(counts@.take(f + 1).last() == count);
            lemma_corner_total_prefix(counts@, f + 1);
            assert(first + clamp0(count) <= fi_len);
        }
        let ghost base = keys@;
        let ghost face = face_keys(fi@, *pv, first as nat, count);
        if count >= 3 {
            let tris: usize = (count - 2) as usize;
            let mut t: usize = 0;
            while t < tris
                invariant
                    t <= tris, tris == count - 2, count >= 3,
                    first + count <= fi_len, fi_len == fi@.len(),
                    face == face_keys(fi@, *pv, first as nat, count),
                    keys@ == base + face.take(3 * t as int),
                decreases tris - t,
            {
                let c0 = first;
                let c1 = first + t + 1;
                let c2 = first + t + 2;
                keys.push(corner_key_exec(fi, pv, c0));
                keys.push(corner_key_exec(fi, pv, c1));
                keys.push(corner_key_exec(fi, pv, c2));
                proof {
                    assert(fan_corner(first as nat, (3 * t) as nat) == c0);
                    assert(fan_corner(first as nat, (3 * t + 1) as nat) == c1);
                    assert(fan_corner(first as nat, (3 * t + 2) as nat) == c2);
                    assert(face.take(3 * (t + 1) as int) =~= face.take(3 * t as int)
                        .push(face[3 * t as int]).push(face[3 * t + 1]).push(face[3 * t + 2]));
                }
                t = t + 1;
            }
            assert(face.take(3 * tris as int) =~= face);
        } else {
            assert(face =~= Seq::<CornerKey>::empty());
        }
        assert(keys@ =~= triangulated_keys(counts@.take(f + 1), fi@, *pv));
        first = first + if count < 0 { 0 } else { count as usize };
        f = f + 1;
    }
    assert(counts@.take(counts.len() as int) =~= counts@);
    keys
}


/// Numeric value of an optional index inside a packed key.
pub open spec fn opt_bits(o: Option<u32>) -> u32 {
    match o {
        Some(v) => v,
        None => 0,
    }
}

/// A corner key packed into 127 bits: point (31 bits), then the three
/// primvar slots (32 bits each). Injective over keys that agree on which
/// primvars are present.
pub open spec fn packed_key(k: CornerKey) -> u128 {
    (k.0 as u128) | ((opt_bits(k.1) as u128) << 31u128) | ((opt_bits(k.2) as u128) << 63u128)
        | ((opt_bits(k.3) as u128) << 95u128)
}

proof fn lemma_pack_injective(a0: u32, a1: u32, a2: u32, a3: u32, b0: u32, b1: u32, b2: u32, b3: u32)
    by (bit_vector)
    requires
        a0 < 0x8000_0000u32,
        b0 < 0x8000_0000u32,
        ((a0 as u128) | ((a1 as u128) << 31u128) | ((a2 as u128) << 63u128) | ((a3 as u128) << 95u128))
            == ((b0 as u128) | ((b1 as u128) << 31u128) | ((b2 as u128) << 63u128) | ((b3 as u128) << 95u128)),
    ensures
        a0 == b0 && a1 == b1 && a2 == b2 && a3 == b3,
{
}

/// Keys of one mesh: points below 2^31 and primvar slots present exactly
/// for the authored primvars.
pub open spec fn key_shaped(k: CornerKey, pv: MeshPrimvars) -> bool {
    &&& k.0 < 0x8000_0000u32
    &&& (k.1 is Some <==> pv.normals is Some)
    &&& (k.2 is Some <==> pv.uvs is Some)
    &&& (k.3 is Some <==> pv.colors is Some)
}

proof fn lemma_packed_key_injective(a: CornerKey, b: CornerKey, pv: MeshPrimvars)
    requires
        key_shaped(a, pv),
        key_shaped(b, pv),
        packed_key(a) == packed_key(b),
    ensures
        a == b,
{
    lemma_pack_injective(a.0, opt_bits(a.1), opt_bits(a.2), opt_bits(a.3), b.0, opt_bits(b.1), opt_bits(b.2), opt_bits(b.3));
}

fn pack_key(k: CornerKey) -> (r: u128)
    ensures
        r == packed_key(k),
{
    let n: u32 = match k.1 { Some(v) => v, None => 0 };
    let u: u32 = match k.2 { Some(v) => v, None => 0 };
    let c: u32 = match k.3 { Some(v) => v, None => 0 };
    (k.0 as u128) | ((n as u128) << 31u128) | ((u as u128) << 63u128) | ((c as u128) << 95u128)
}

proof fn lemma_triangulated_keys_shaped(counts: Seq<i32>, fi: Seq<i32>, pv: MeshPrimvars)
    requires
        corner_total(counts) <= fi.len(),
    ensures
        forall|j: int| 0 <= j < triangulated_keys(counts, fi, pv).len()
            ==> key_shaped(#[trigger] triangulated_keys(counts, fi, pv)[j], pv),
    decreases counts.len(),
{
    if counts.len() > 0 {
        let init = counts.drop_last();
        lemma_corner_total_prefix(counts, counts.len() - 1);
        assert(counts.take(counts.len() - 1) =~= init);
        lemma_triangulated_keys_shaped(init, fi, pv);
        let a = triangulated_keys(init, fi, pv);
        let b = face_keys(fi, pv, corner_total(init), counts.last());
        assert forall|j: int| 0 <= j < b.len() implies key_shaped(#[trigger] b[j], pv) by {
            let c = fan_corner(corner_total(init), j as nat);
            assert(b[j] == corner_key(fi, pv, c));
            assert(clamp0(fi[c as int]) < 0x8000_0000);
        }
        assert forall|j: int| 0 <= j < triangulated_keys(counts, fi, pv).len()
            implies key_shaped(#[trigger] triangulated_keys(counts, fi, pv)[j], pv) by {
            if j < a.len() {
                assert(triangulated_keys(counts, fi, pv)[j] == a[j]);
            } else {
                assert(triangulated_keys(counts, fi, pv)[j] == b[j - a.len()]);
            }
        }
    }
}

proof fn lemma_first_occurrences(s: Seq<CornerKey>)
    ensures
        forall|i: int| 0 <= i < s.len() ==> first_occurrences(s).contains(#[trigger] s[i]),
        forall|i: int| 0 <= i < first_occurrences(s).len() ==> s.contains(#[trigger] first_occurrences(s)[i]),
        forall|i: int, j: int| 0 <= i < j < first_occurrences(s).len()
            ==> first_occurrences(s)[i] != first_occurrences(s)[j],
    decreases s.len(),
{
    if s.len() > 0 {
        let t = s.drop_last();
        lemma_first_occurrences(t);
        let d = first_occurrences(t);
        assert forall|i: int| 0 <= i < s.len() implies first_occurrences(s).contains(#[trigger] s[i]) by {
            if i < t.len() {
                assert(t[i] == s[i]);
                assert(d.contains(t[i]));
                let k = choose|k: int| 0 <= k < d.len() && d[k] == t[i];
                if !d.contains(s.last()) {
                    assert(d.push(s.last())[k] == d[k]);
                }
            } else {
                if !d.contains(s.last()) {
                    assert(d.push(s.last())[d.len() as int] == s.last());
                }
            }
        }
        assert forall|i: int| 0 <= i < first_occurrences(s).len() implies s.contains(#[trigger] first_occurrences(s)[i]) by {
            if i < d.len() {
                let x = d[i];
                assert(t.contains(x));
                let k = choose|k: int| 0 <= k < t.len() && t[k] == x;
                assert(s[k] == x);
            } else {
                assert(s[s.len() - 1] == s.last());
            }
        }
    }
}

/// De-duplicating the triangulated corner stream loses nothing: the
/// corners are pairwise distinct, and each triangle index of the stream
/// addresses a corner equal to the stream's own key there.
pub proof fn lemma_dedup_round_trip(keys: Seq<CornerKey>)
    ensures
        forall|i: int, j: int| 0 <= i < j < first_occurrences(keys).len()
            ==> first_occurrences(keys)[i] != first_occurrences(keys)[j],
        forall|j: int| 0 <= j < keys.len() ==> {
            let p = #[trigger] position_of(first_occurrences(keys), keys[j]);
            0 <= p < first_occurrences(keys).len() && first_occurrences(keys)[p] == keys[j]
        },
{
    lemma_first_occurrences(keys);
    let d = first_occurrences(keys);
    assert forall|j: int| 0 <= j < keys.len() implies {
        let p = #[trigger] position_of(d, keys[j]);
        0 <= p < d.len() && d[p] == keys[j]
    } by {
        assert(d.contains(keys[j]));
    }
}

proof fn lemma_dedup_step(s: Seq<CornerKey>, j: int)
    requires
        0 <= j < s.len(),
    ensures
        first_occurrences(s.take(j + 1)) == (if first_occurrences(s.take(j)).contains(s[j]) {
            first_occurrences(s.take(j))
        } else {
            first_occurrences(s.take(j)).push(s[j])
        }),
{
    assert(s.take(j + 1).drop_last() =~= s.take(j));
    assert(s.take(j + 1).last() == s[j]);
}

fn dedup_keys(keys: &Vec<CornerKey>, points_len: usize, Ghost(pv): Ghost<MeshPrimvars>) -> (r: Result<MeshTopology, TopologyError>)
    requires
        forall|j: int| 0 <= j < keys@.len() ==> key_shaped(#[trigger] keys@[j], pv),
    ensures
        (exists|j: int| 0 <= j < keys@.len() && keys@[j].0 >= points_len) ==> (r matches Err(TopologyError::PointOutOfRange { point, count })
            && count == points_len
            && exists|j: int| 0 <= j < keys@.len() && keys@[j].0 == point && point >= points_len
                && forall|i: int| 0 <= i < j ==> keys@[i].0 < points_len),
        (forall|j: int| 0 <= j < keys@.len() ==> keys@[j].0 < points_len) ==> r is Ok,
        r matches Ok(t) ==> t.corners@ == first_occurrences(keys@) && t.indices@.len() == keys@.len(),
        r matches Ok(t) ==> forall|j: int| 0 <= j < keys@.len()
            ==> #[trigger] t.indices@[j] == position_of(t.corners@, keys@[j]) as u32,
{
    broadcast use vstd::std_specs::hash::group_hash_axioms;
    let mut map: HashMap<u128, u32> = HashMap::new();
    let mut corners: Vec<CornerKey> = Vec::new();
    let mut indices: Vec<u32> = Vec::new();
    let ghost mut pos: Seq<int> = Seq::empty();
    let mut j: usize = 0;
    assert(keys@.take(0) =~= Seq::<CornerKey>::empty());
    while j < keys.len()
        invariant
            j <= keys@.len(),
            forall|i: int| 0 <= i < keys@.len() ==> key_shaped(#[trigger] keys@[i], pv),
            forall|i: int| 0 <= i < j ==> keys@[i].0 < points_len,
            corners@ == first_occurrences(keys@.take(j as int)),
            indices@.len() == j,
            pos.len() == j,
            forall|i: int| 0 <= i < j ==> 0 <= #[trigger] pos[i] < corners@.len()
                && corners@[pos[i]] == keys@[i] && indices@[i] == pos[i] as u32,
            forall|v: int| 0 <= v < corners@.len() ==> key_shaped(#[trigger] corners@[v], pv),
            forall|v: int| 0 <= v < corners@.len() ==> #[trigger] map@.contains_key(packed_key(corners@[v]))
                && map@[packed_key(corners@[v])] == v as u32,
            forall|p: u128| #[trigger] map@.contains_key(p) ==> exists|v: int| 0 <= v < corners@.len() && packed_key(corners@[v]) == p,
        decreases keys@.len() - j,
    {
        let key = keys[j];
        let p = pack_key(key);
        proof {
            lemma_dedup_step(keys@, j as int);
            lemma_first_occurrences(keys@.take(j as int));
        }
        match map.get(&p) {
            Some(vid) => {
                let vid = *vid;
                let ghost v = choose|v: int| 0 <= v < corners@.len() && packed_key(corners@[v]) == p;
                proof {
                    lemma_packed_key_injective(corners@[v], key, pv);
                    assert(corners@.contains(key));
                }
                indices.push(vid);
                proof {
                    pos = pos.push(v);
                }
            },
            None => {
                if key.0 as usize >= points_len {
                    proof {
                        assert(keys@[j as int].0 >= points_len);
                    }
                    return Err(TopologyError::PointOutOfRange { point: key.0 as usize, count: points_len });
                }
                proof {
                    if corners@.contains(key) {
                        let v = choose|v: int| 0 <= v < corners@.len() && corners@[v] == key;
                        assert(map@.contains_key(packed_key(corners@[v])));
                    }
                }
                let vid = corners.len() as u32;
                map.insert(p, vid);
                let ghost old_corners = corners@;
                corners.push(key);
                indices.push(vid);
                proof {
                    pos = pos.push(old_corners.len() as int);
                    assert forall|v: int| 0 <= v < corners@.len() implies #[trigger] map@.contains_key(packed_key(corners@[v]))
                        && map@[packed_key(corners@[v])] == v as u32 by {
                        if v < old_corners.len() {
                            if packed_key(corners@[v]) == p {
                                lemma_packed_key_injective(corners@[v], key, pv);
                                assert(old_corners.contains(key));
                            }
                        }
                    }
                    assert forall|q: u128| #[trigger] map@.contains_key(q) implies exists|v: int| 0 <= v < corners@.len() && packed_key(corners@[v]) == q by {
                        if q != p {
                            let v = choose|v: int| 0 <= v < old_corners.len() && packed_key(old_corners[v]) == q;
                            assert(corners@[v] == old_corners[v]);
                        } else {
                            assert(corners@[old_corners.len() as int] == key);
                        }
                    }
                }
            },
        }
        j = j + 1;
    }
    assert(keys@.take(keys@.len() as int) =~= keys@);
    let t = MeshTopology { corners, indices };
    proof {
        lemma_first_occurrences(keys@);
    }
    assert forall|i: int| 0 <= i < keys@.len() implies #[trigger] t.indices@[i] == position_of(t.corners@, keys@[i]) as u32 by {
        assert(t.corners@[pos[i]] == keys@[i] && t.indices@[i] == pos[i] as u32);
        let v = position_of(t.corners@, keys@[i]);
        assert(0 <= v < t.corners@.len() && t.corners@[v] == keys@[i]);
        if v != pos[i] {
            if v < pos[i] {
                assert(first_occurrences(keys@)[v] != first_occurrences(keys@)[pos[i]]);
            } else {
                assert(first_occurrences(keys@)[pos[i]] != first_occurrences(keys@)[v]);
            }
        }
    }
    assert(t.corners@ == first_occurrences(keys@));
    assert(t.indices@.len() == keys@.len());
    Ok(t)
}


/// The topology half of `usd_mesh_extract`: fan triangulation of
/// `faceVertexCounts` / `faceVertexIndices` over `points_len` points, with
/// `normals`, `primvars:st` and `primvars:displayColor` resolved per corner
/// and identical corners de-duplicated into one output vertex. Faces with
/// fewer than three corners emit nothing but still consume their entries.
pub fn usd_mesh_topology(
    counts: &[i32],
    face_indices: &[i32],
    points_len: usize,
    primvars: &MeshPrimvars,
) -> (r: Result<MeshTopology, TopologyError>)
    requires
        corner_total(counts@) <= usize::MAX,
    ensures
        corner_total(counts@) > face_indices@.len() ==> r == Err::<MeshTopology, TopologyError>(
            TopologyError::CornerCount { total: corner_total(counts@) as usize, available: face_indices@.len() as usize }),
        corner_total(counts@) <= face_indices@.len() ==> {
            let keys = triangulated_keys(counts@, face_indices@, *primvars);
            &&& (exists|j: int| 0 <= j < keys.len() && keys[j].0 >= points_len) ==> (r matches Err(TopologyError::PointOutOfRange { point, count })
                && count == points_len
                && exists|j: int| 0 <= j < keys.len() && keys[j].0 == point && point >= points_len
                    && forall|i: int| 0 <= i < j ==> keys[i].0 < points_len)
            &&& ((forall|j: int| 0 <= j < keys.len() ==> keys[j].0 < points_len) && keys.len() == 0)
                ==> r == Err::<MeshTopology, TopologyError>(TopologyError::Empty)
            &&& ((forall|j: int| 0 <= j < keys.len() ==> keys[j].0 < points_len) && keys.len() > 0) ==> r is Ok
            &&& r matches Ok(t) ==> t.corners@ == first_occurrences(keys) && t.indices@.len() == keys.len()
                && forall|j: int| 0 <= j < keys.len() ==> #[trigger] t.indices@[j] == position_of(t.corners@, keys[j]) as u32
        },
{
    let total = corner_total_exec(counts);
    if total > face_indices.len() {
        return Err(TopologyError::CornerCount { total, available: face_indices.len() });
    }
    let keys = triangulate_keys(counts, face_indices, primvars);
    proof {
        lemma_triangulated_keys_shaped(counts@, face_indices@, *primvars);
    }
    let t = dedup_keys(&keys, points_len, Ghost(*primvars))?;
    if t.corners.len() == 0 {
        proof {
            if keys@.len() > 0 {
                lemma_first_occurrences(keys@);
                assert(first_occurrences(keys@).contains(keys@[0]));
            }
        }
        return Err(TopologyError::Empty);
    }
    proof {
        if keys@.len() == 0 {
            assert(first_occurrences(keys@).len() == 0);
        }
    }
    Ok(t)
}

/// Which value of a corner a vertex stream is gathered by.
#[derive(Clone, Copy, PartialEq, Eq, Structural, Debug)]
pub enum CornerField {
    Point,
    Normal,
    Uv,
    Color,
}

/// The value index a corner key holds for `field`.
pub open spec fn field_slot(k: CornerKey, field: CornerField) -> Option<u32> {
    match field {
        CornerField::Point => Some(k.0),
        CornerField::Normal => k.1,
        CornerField::Uv => k.2,
        CornerField::Color => k.3,
    }
}

/// The value at `slot`, or `fallback` when there is none.
pub open spec fn corner_value<T>(values: Seq<T>, slot: Option<u32>, fallback: T) -> T {
    match slot {
        Some(i) => if i < values.len() { values[i as int] } else { fallback },
        None => fallback,
    }
}

/// One output vertex stream of a triangulated mesh: for each corner, the
/// value its key selects for `field`, or `fallback` where the primvar has no
/// value at that index (the loader uses zero normals and UVs and a white
/// color).
pub fn corner_values<T: Copy>(corners: &[CornerKey], field: CornerField, values: &[T], fallback: T) -> (r: Vec<T>)
    ensures
        r@.len() == corners@.len(),
        forall|j: int| 0 <= j < corners@.len() ==> #[trigger] r@[j] == corner_value(values@, field_slot(corners@[j], field), fallback),
{
    let mut out: Vec<T> = Vec::new();
    let mut j: usize = 0;
    while j < corners.len()
        invariant
            j <= corners@.len(),
            out@.len() == j,
            forall|k: int| 0 <= k < j ==> #[trigger] out@[k] == corner_value(values@, field_slot(corners@[k], field), fallback),
        decreases corners.len() - j,
    {
        let key = corners[j];
        let slot = match field {
            CornerField::Point => Some(key.0),
            CornerField::Normal => key.1,
            CornerField::Uv => key.2,
            CornerField::Color => key.3,
        };
        let v = match slot {
            Some(i) => if (i as usize) < values.len() { values[i as usize] } else { fallback },
            None => fallback,
        };
        out.push(v);
        j = j + 1;
    }
    out
}

} // verus!
