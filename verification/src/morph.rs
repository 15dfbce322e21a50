//! Layout of a skinned mesh's morph-target displacements.
//!
//! For each primitive, every morph target supplies one displacement per
//! vertex (a target without the attribute displaces nothing). The GPU reads
//! them vertex-major: all targets' displacements of vertex 0, then of vertex
//! 1, and so on. The primitives' blocks follow one another.

use vstd::prelude::*;

verus! {

/// Element `j` of the vertex-major interleaving of `targets`: vertex
/// `j / m` of target `j % m`, for `m` targets.
pub open spec fn pack_spec<T>(targets: Seq<Seq<T>>) -> Seq<T> {
    if targets.len() == 0 {
        Seq::empty()
    } else {
        let m = targets.len();
        Seq::new(targets[0].len() * m, |j: int| targets[j % (m as int)][j / (m as int)])
    }
}

/// Whether every target has at least as many displacements as the first.
pub open spec fn pack_ready<T>(targets: Seq<Seq<T>>) -> bool {
    forall|k: int| 0 <= k < targets.len() ==> (#[trigger] targets[k]).len() >= targets[0].len()
}

/// The views of a list of targets.
pub open spec fn views<T>(targets: Seq<Vec<T>>) -> Seq<Seq<T>> {
    targets.map_values(|v: Vec<T>| v@)
}

proof fn lemma_pack_index(i: int, k: int, m: int)
    requires
        0 <= i,
        0 <= k < m,
    ensures
        (i * m + k) % m == k,
        (i * m + k) / m == i,
{
    vstd::arithmetic::div_mod::lemma_fundamental_div_mod_converse(i * m + k, m, i, k);
}

/// Interleaves the targets vertex-major: the first target's length sets the
/// vertex count, and position `i * m + k` holds vertex `i` of target `k`.
pub fn targets_pack<T: Copy>(targets: &Vec<Vec<T>>) -> (r: Vec<T>)
    requires
        pack_ready(views(targets@)),
        targets@.len() > 0 ==> targets@[0].len() * targets@.len() <= usize::MAX,
    ensures
        r@ == pack_spec(views(targets@)),
{
    if targets.len() == 0 {
        return Vec::new();
    }
    let m = targets.len();
    let n = targets[0].len();
    let ghost ts = views(targets@);
    let mut out: Vec<T> = Vec::new();
    let mut i: usize = 0;
    while i < n
        invariant
            m == targets@.len(), m > 0,
            n == targets@[0].len(),
            n * m <= usize::MAX,
            ts == views(targets@),
            pack_ready(ts),
            i <= n,
            out@.len() == i * m,
            forall|j: int| 0 <= j < i * m ==> #[trigger] out@[j] == ts[j % (m as int)][j / (m as int)],
        decreases n - i,
    {
        let mut k: usize = 0;
        while k < m
            invariant
                m == targets@.len(), m > 0,
                n == targets@[0].len(),
                ts == views(targets@),
                pack_ready(ts),
                i < n,
                k <= m,
                out@.len() == i * m + k,
                forall|j: int| 0 <= j < i * m + k ==> #[trigger] out@[j] == ts[j % (m as int)][j / (m as int)],
            decreases m - k,
        {
            assert(ts[k as int].len() >= n);
            assert(ts[k as int] == targets@[k as int]@);
            let v = targets[k][i];
            proof {
                lemma_pack_index(i as int, k as int, m as int);
            }
            out.push(v);
            k = k + 1;
        }
        proof {
            assert((i + 1) * m == i * m + m) by (nonlinear_arith);
        }
        i = i + 1;
    }
    assert(ts[0].len() == n);
    assert(out@ =~= pack_spec(ts));
    out
}

/// The targets of one primitive with absent attributes filled in: `count`
/// copies of `zero` in place of each `None`.
pub open spec fn filled<T>(targets: Seq<Option<Vec<T>>>, count: nat, zero: T) -> Seq<Seq<T>> {
    targets.map_values(|o: Option<Vec<T>>| match o {
        Some(v) => v@,
        None => Seq::new(count, |_j: int| zero),
    })
}

fn copied<T: Copy>(v: &Vec<T>) -> (r: Vec<T>)
    ensures
        r@ == v@,
{
    let mut out: Vec<T> = Vec::new();
    let mut i: usize = 0;
    while i < v.len()
        invariant
            i <= v@.len(),
            out@ == v@.take(i as int),
        decreases v.len() - i,
    {
        out.push(v[i]);
        i = i + 1;
        assert(out@ =~= v@.take(i as int));
    }
    assert(v@.take(v@.len() as int) =~= v@);
    out
}

fn zeros<T: Copy>(count: usize, zero: T) -> (r: Vec<T>)
    ensures
        r@ == Seq::new(count as nat, |_j: int| zero),
{
    let mut out: Vec<T> = Vec::new();
    let mut i: usize = 0;
    while i < count
        invariant
            i <= count,
            out@ == Seq::new(i as nat, |_j: int| zero),
        decreases count - i,
    {
        out.push(zero);
        i = i + 1;
        assert(out@ =~= Seq::new(i as nat, |_j: int| zero));
    }
    out
}

/// One primitive's displacement block for one attribute: its targets, with
/// `vertex_count` copies of `zero` for a target that lacks the attribute,
/// interleaved vertex-major.
pub fn primitive_displacements<T: Copy>(targets: &Vec<Option<Vec<T>>>, vertex_count: usize, zero: T) -> (r: Vec<T>)
    requires
        pack_ready(filled(targets@, vertex_count as nat, zero)),
        targets@.len() > 0 ==> filled(targets@, vertex_count as nat, zero)[0].len() * targets@.len() <= usize::MAX,
    ensures
        r@ == pack_spec(filled(targets@, vertex_count as nat, zero)),
{
    let mut full: Vec<Vec<T>> = Vec::new();
    let mut k: usize = 0;
    while k < targets.len()
        invariant
            k <= targets@.len(),
            views(full@) == filled(targets@.take(k as int), vertex_count as nat, zero),
        decreases targets.len() - k,
    {
        let v = match &targets[k] {
            Some(v) => copied(v),
            None => zeros(vertex_count, zero),
        };
        proof {
            if let Some(src) = targets@[k as int] {
                assert(v@ =~= src@);
            }
        }
        let ghost before = full@;
        full.push(v);
        assert(targets@.take(k + 1) =~= targets@.take(k as int).push(targets@[k as int]));
        assert(views(full@) =~= views(before).push(v@));
        assert(filled(targets@.take(k + 1), vertex_count as nat, zero)
            =~= filled(targets@.take(k as int), vertex_count as nat, zero).push(v@));
        k = k + 1;
        assert(views(full@) =~= filled(targets@.take(k as int), vertex_count as nat, zero));
    }
    assert(targets@.take(targets@.len() as int) =~= targets@);
    targets_pack(&full)
}

/// The displacement blocks of the first `prims.len()` primitives, one after
/// another.
pub open spec fn skin_spec<T>(prims: Seq<Seq<Option<Vec<T>>>>, counts: Seq<usize>, zero: T) -> Seq<T>
    decreases prims.len(),
{
    if prims.len() == 0 {
        Seq::empty()
    } else {
        let i = prims.len() - 1;
        skin_spec(prims.drop_last(), counts, zero) + pack_spec(filled(prims[i], counts[i] as nat, zero))
    }
}

/// Whether every primitive's targets can be interleaved: each has at least
/// as many displacements as the primitive's first target, and the blocks fit
/// in memory.
pub open spec fn skin_ready<T>(prims: Seq<Seq<Option<Vec<T>>>>, counts: Seq<usize>, zero: T) -> bool {
    &&& counts.len() >= prims.len()
    &&& forall|i: int| 0 <= i < prims.len() ==> pack_ready(#[trigger] filled(prims[i], counts[i] as nat, zero))
    &&& forall|i: int| 0 <= i < prims.len() && prims[i].len() > 0 ==>
            filled(#[trigger] prims[i], counts[i] as nat, zero)[0].len() * prims[i].len() <= usize::MAX
    &&& skin_spec(prims, counts, zero).len() <= usize::MAX
}

proof fn lemma_skin_prefix<T>(prims: Seq<Seq<Option<Vec<T>>>>, counts: Seq<usize>, zero: T, k: int)
    requires
        0 <= k <= prims.len(),
    ensures
        skin_spec(prims.take(k), counts, zero).len() <= skin_spec(prims, counts, zero).len(),
    decreases prims.len() - k,
{
    if k < prims.len() {
        lemma_skin_prefix(prims, counts, zero, k + 1);
        assert(prims.take(k + 1).drop_last() =~= prims.take(k));
    } else {
        assert(prims.take(k) =~= prims);
    }
}

/// One attribute's displacements over a whole skin: the primitives' blocks
/// in order, or `None` when there are none at all.
pub fn skin_displacements<T: Copy>(primitives: &Vec<Vec<Option<Vec<T>>>>, vertex_counts: &[usize], zero: T) -> (r: Option<Vec<T>>)
    requires
        skin_ready(primitives@.map_values(|p: Vec<Option<Vec<T>>>| p@), vertex_counts@, zero),
    ensures
        ({
            let all = skin_spec(primitives@.map_values(|p: Vec<Option<Vec<T>>>| p@), vertex_counts@, zero);
            match r {
                Some(v) => all.len() > 0 && v@ == all,
                None => all.len() == 0,
            }
        }),
{
    let ghost prims = primitives@.map_values(|p: Vec<Option<Vec<T>>>| p@);
    let mut out: Vec<T> = Vec::new();
    let mut i: usize = 0;
    while i < primitives.len()
        invariant
            prims == primitives@.map_values(|p: Vec<Option<Vec<T>>>| p@),
            skin_ready(prims, vertex_counts@, zero),
            i <= primitives@.len(),
            out@ == skin_spec(prims.take(i as int), vertex_counts@, zero),
        decreases primitives.len() - i,
    {
        assert(prims[i as int] == primitives@[i as int]@);
        let block = primitive_displacements(&primitives[i], vertex_counts[i], zero);
        proof {
            assert(prims.take(i + 1).drop_last() =~= prims.take(i as int));
            lemma_skin_prefix(prims, vertex_counts@, zero, i + 1);
        }
        let mut j: usize = 0;
        let ghost before = out@;
        while j < block.len()
            invariant
                j <= block@.len(),
                out@ == before + block@.take(j as int),
                before.len() + block@.len() <= usize::MAX,
            decreases block.len() - j,
        {
            out.push(block[j]);
            j = j + 1;
            assert(out@ =~= before + block@.take(j as int));
        }
        assert(block@.take(block@.len() as int) =~= block@);
        i = i + 1;
    }
    assert(prims.take(prims.len() as int) =~= prims);
    if out.len() == 0 {
        None
    } else {
        Some(out)
    }
}

} // verus!
