//! A text scanner over `.usda` documents that finds `Material` prims
//! referencing external MaterialX (`.mtlx`) assets, as in the OpenPBR
//! content pattern:
//!
//! ```text
//! def Material "iceCube" (
//!     prepend references = @./iceCube.mtlx@</MaterialX/Materials/iceCube>
//! )
//! ```
//!
//! Pure text work: no USD composition, no file IO.

use vstd::prelude::*;
use crate::text::{
    chars_of, count_char, count_char_exec, find_char, find_char_exec, find_seq, find_seq_exec,
    lemma_find_char_from, lemma_lines_total, lines_of, lines_spec, slice_chars, string_of,
    total_len, trim_chars, trim_spec, trim_start_chars, trim_start_spec,
};

verus! {

/// One `Material` prim's reference to an external MaterialX asset.
#[derive(Clone, PartialEq, Eq, Debug)]
pub struct UsdaMtlxReference {
    /// Name of the USD `Material` prim carrying the reference.
    pub material: String,
    /// Referenced `.mtlx` (or other layer) file path from the `@...@` token.
    pub mtlx_asset: String,
    /// Optional `</...>` target prim path inside the referenced asset.
    pub mtlx_target: Option<String>,
}

/// A reference as character sequences: (material, asset, target).
pub type ReferenceChars = (Seq<char>, Seq<char>, Option<Seq<char>>);

/// The characters of a reference.
pub open spec fn reference_chars(r: UsdaMtlxReference) -> ReferenceChars {
    (r.material@, r.mtlx_asset@, match r.mtlx_target { Some(t) => Some(t@), None => None })
}

/// Name of a `Material` prim from a `def Material "Name" ( ... )` /
/// `over Material "Name" ( ... )` line: the first quoted text after the
/// first `Material `.
pub open spec fn material_name_spec(line: Seq<char>) -> Option<Seq<char>> {
    match find_seq(line, "Material "@) {
        None => None,
        Some(k) => {
            let rest = line.skip(k + 9);
            match find_char(rest, '"') {
                None => None,
                Some(o) => {
                    let after = rest.skip(o + 1);
                    match find_char(after, '"') {
                        None => None,
                        Some(c) => Some(after.take(c)),
                    }
                },
            }
        },
    }
}

/// The `</target>` written right after an asset token: when `after_close`
/// (what follows the token's closing `@`, leading white space skipped)
/// starts with `<`, the text up to the next `>`.
pub open spec fn target_spec(after_close: Seq<char>) -> Option<Seq<char>> {
    if after_close.len() > 0 && after_close[0] == '<' {
        let inner = after_close.skip(1);
        match find_char(inner, '>') {
            Some(gt) => Some(inner.take(gt)),
            None => None,
        }
    } else {
        None
    }
}

/// Every `@asset@` token of `rest` (trimmed, empty ones skipped) with its
/// optional target, in order.
pub open spec fn asset_tokens_spec(rest: Seq<char>) -> Seq<(Seq<char>, Option<Seq<char>>)>
    decreases rest.len(),
{
    match find_char(rest, '@') {
        None => Seq::empty(),
        Some(o) => {
            proof { lemma_find_char_from(rest, '@', 0); }
            let a = rest.skip(o + 1);
            match find_char(a, '@') {
                None => Seq::empty(),
                Some(c) => {
                    proof { lemma_find_char_from(a, '@', 0); }
                    let asset = trim_spec(a.take(c));
                    let tail = a.skip(c + 1);
                    let here = if asset.len() == 0 {
                        Seq::<(Seq<char>, Option<Seq<char>>)>::empty()
                    } else {
                        seq![(asset, target_spec(trim_start_spec(tail)))]
                    };
                    here + asset_tokens_spec(tail)
                },
            }
        },
    }
}

fn skip_chars(s: &Vec<char>, k: usize) -> (r: Vec<char>)
    requires
        k <= s@.len(),
    ensures
        r@ == s@.skip(k as int),
{
    let r = slice_chars(s.as_slice(), k, s.len());
    assert(r@ =~= s@.skip(k as int));
    r
}

fn material_name_chars(line: &Vec<char>) -> (r: Option<Vec<char>>)
    ensures
        match r {
            Some(v) => material_name_spec(line@) == Some(v@),
            None => material_name_spec(line@) is None,
        },
{
    let pat = chars_of("Material ");
    proof {
        reveal_strlit("Material ");
    }
    let n = line.len();
    let k = match find_seq_exec(line.as_slice(), pat.as_slice()) {
        Some(k) => k,
        None => return None,
    };
    proof {
        assert(pat@.len() == 9);
        lemma_find_seq_bound(line@, pat@);
    }
    let rest = skip_chars(line, k + 9);
    let o = match find_char_exec(rest.as_slice(), '"') {
        Some(o) => o,
        None => return None,
    };
    proof { lemma_find_char_from(rest@, '"', 0); }
    let after = skip_chars(&rest, o + 1);
    let c = match find_char_exec(after.as_slice(), '"') {
        Some(c) => c,
        None => return None,
    };
    proof { lemma_find_char_from(after@, '"', 0); }
    let name = slice_chars(after.as_slice(), 0, c);
    assert(name@ =~= after@.take(c as int));
    Some(name)
}

proof fn lemma_find_seq_bound(s: Seq<char>, pat: Seq<char>)
    ensures
        find_seq(s, pat) matches Some(k) ==> 0 <= k && k + pat.len() <= s.len(),
{
    lemma_find_seq_from_bound(s, pat, 0);
}

proof fn lemma_find_seq_from_bound(s: Seq<char>, pat: Seq<char>, start: int)
    ensures
        crate::text::find_seq_from(s, pat, start) matches Some(k) ==> start <= k && 0 <= k && k + pat.len() <= s.len(),
    decreases s.len() + 1 - start,
{
    if !(start < 0 || start + pat.len() > s.len()) && !crate::text::occurs_at(s, pat, start) {
        lemma_find_seq_from_bound(s, pat, start + 1);
    }
}

/// Name of a `Material` prim from a `def Material "Name" ( ... )` line.
pub fn material_name(line: &str) -> (r: Option<String>)
    ensures
        match r {
            Some(v) => material_name_spec(line@) == Some(v@),
            None => material_name_spec(line@) is None,
        },
{
    let cs = chars_of(line);
    match material_name_chars(&cs) {
        Some(v) => Some(string_of(v.as_slice())),
        None => None,
    }
}

fn target_chars(after_close: &Vec<char>) -> (r: Option<Vec<char>>)
    ensures
        match r {
            Some(v) => target_spec(after_close@) == Some(v@),
            None => target_spec(after_close@) is None,
        },
{
    if after_close.len() == 0 || after_close[0] != '<' {
        return None;
    }
    let inner = skip_chars(after_close, 1);
    match find_char_exec(inner.as_slice(), '>') {
        Some(gt) => {
            proof { lemma_find_char_from(inner@, '>', 0); }
            let t = slice_chars(inner.as_slice(), 0, gt);
            assert(t@ =~= inner@.take(gt as int));
            Some(t)
        },
        None => None,
    }
}

/// A token as character sequences.
pub open spec fn token_chars(t: (String, Option<String>)) -> (Seq<char>, Option<Seq<char>>) {
    (t.0@, match t.1 { Some(x) => Some(x@), None => None })
}

/// Extracts every `@<asset>@</target>` pair from an accumulated material
/// block (references can span parenthesised metadata lines).
pub fn collect_asset_tokens(block: &str) -> (r: Vec<(String, Option<String>)>)
    ensures
        r@.len() == asset_tokens_spec(block@).len(),
        forall|i: int| 0 <= i < r@.len() ==> token_chars(#[trigger] r@[i]) == asset_tokens_spec(block@)[i],
{
    let cs = chars_of(block);
    collect_asset_tokens_chars(&cs)
}

fn collect_asset_tokens_chars(block: &Vec<char>) -> (r: Vec<(String, Option<String>)>)
    ensures
        r@.len() == asset_tokens_spec(block@).len(),
        forall|i: int| 0 <= i < r@.len() ==> token_chars(#[trigger] r@[i]) == asset_tokens_spec(block@)[i],
{
    let mut tokens: Vec<(String, Option<String>)> = Vec::new();
    let mut rest: Vec<char> = skip_chars(block, 0);
    assert(block@.skip(0) =~= block@);
    loop
        invariant
            tokens@.len() + asset_tokens_spec(rest@).len() == asset_tokens_spec(block@).len(),
            forall|i: int| 0 <= i < tokens@.len() ==> token_chars(#[trigger] tokens@[i]) == asset_tokens_spec(block@)[i],
            forall|i: int| 0 <= i < asset_tokens_spec(rest@).len()
                ==> #[trigger] asset_tokens_spec(rest@)[i] == asset_tokens_spec(block@)[tokens@.len() + i],
        ensures
            tokens@.len() == asset_tokens_spec(block@).len(),
            forall|i: int| 0 <= i < tokens@.len() ==> token_chars(#[trigger] tokens@[i]) == asset_tokens_spec(block@)[i],
        decreases rest@.len(),
    {
        let n = rest.len();
        let o = match find_char_exec(rest.as_slice(), '@') {
            Some(o) => o,
            None => {
                assert(asset_tokens_spec(rest@).len() == 0);
                break;
            },
        };
        proof { lemma_find_char_from(rest@, '@', 0); }
        let after_open = skip_chars(&rest, o + 1);
        let c = match find_char_exec(after_open.as_slice(), '@') {
            Some(c) => c,
            None => {
                assert(asset_tokens_spec(rest@).len() == 0);
                break;
            },
        };
        proof { lemma_find_char_from(after_open@, '@', 0); }
        let raw = slice_chars(after_open.as_slice(), 0, c);
        assert(raw@ =~= after_open@.take(c as int));
        let asset = trim_chars(raw.as_slice());
        let tail = skip_chars(&after_open, c + 1);
        let ghost here = if asset@.len() == 0 {
            Seq::<(Seq<char>, Option<Seq<char>>)>::empty()
        } else {
            seq![(asset@, target_spec(trim_start_spec(tail@)))]
        };
        assert(asset_tokens_spec(rest@) == here + asset_tokens_spec(tail@));
        let ghost old_tokens = tokens@;
        if asset.len() > 0 {
            let after_close = trim_start_chars(tail.as_slice());
            let target = match target_chars(&after_close) {
                Some(t) => Some(string_of(t.as_slice())),
                None => None,
            };
            tokens.push((string_of(asset.as_slice()), target));
            proof {
                assert(token_chars(tokens@[old_tokens.len() as int]) == here[0]);
                assert(here[0] == asset_tokens_spec(rest@)[0]);
            }
        }
        proof {
            assert forall|i: int| 0 <= i < asset_tokens_spec(tail@).len()
                implies #[trigger] asset_tokens_spec(tail@)[i] == asset_tokens_spec(block@)[tokens@.len() + i] by {
                assert(asset_tokens_spec(tail@)[i] == asset_tokens_spec(rest@)[here.len() + i]);
            }
            assert forall|i: int| 0 <= i < tokens@.len() implies token_chars(#[trigger] tokens@[i]) == asset_tokens_spec(block@)[i] by {
                if i < old_tokens.len() {
                    assert(tokens@[i] == old_tokens[i]);
                }
            }
        }
        rest = tail;
    }
    tokens
}


/// State of the line scanner: the `Material` being read (if any), its
/// accumulated block, whether its `{` has been seen, the brace depth, and
/// the references found so far.
pub struct ScanState {
    /// Name of the open `Material` prim.
    pub material: Option<Seq<char>>,
    /// Lines of the open material, each followed by `\n`.
    pub block: Seq<char>,
    /// Whether a `{` has appeared since the material started.
    pub opened: bool,
    /// `{` minus `}` since the material started.
    pub depth: int,
    /// References found so far, in document order.
    pub out: Seq<ReferenceChars>,
}

/// The references of one closed material block.
pub open spec fn block_references(name: Seq<char>, tokens: Seq<(Seq<char>, Option<Seq<char>>)>) -> Seq<ReferenceChars> {
    Seq::new(tokens.len(), |i: int| (name, tokens[i].0, tokens[i].1))
}

/// One line of an open material `name`: braces are counted; the line on
/// which the scope (once opened) closes flushes the block's asset tokens,
/// otherwise the line joins the block.
pub open spec fn material_line(st: ScanState, name: Seq<char>, line: Seq<char>) -> ScanState {
    let opens = count_char(line, '{');
    let closes = count_char(line, '}');
    let opened = st.opened || opens > 0;
    let depth = st.depth + opens - closes;
    if opened && depth <= 0 {
        ScanState {
            material: None,
            block: st.block,
            opened,
            depth,
            out: st.out + block_references(name, asset_tokens_spec(st.block)),
        }
    } else {
        ScanState { material: Some(name), block: st.block + line + seq!['\n'], opened, depth, out: st.out }
    }
}

/// One line of the scanner. Outside a material, a line naming a `Material`
/// opens one, with an empty block, and is then read as the material's
/// first line (so a reference written on the `def Material` line belongs
/// to it). Inside a material, the line is read as one of its lines.
pub open spec fn scan_step(st: ScanState, line: Seq<char>) -> ScanState {
    match st.material {
        None => match material_name_spec(line) {
            Some(name) => material_line(
                ScanState { material: Some(name), block: Seq::empty(), opened: false, depth: 0, out: st.out },
                name,
                line,
            ),
            None => st,
        },
        Some(name) => material_line(st, name, line),
    }
}

/// The scanner's state after `lines`.
pub open spec fn scan_lines(lines: Seq<Seq<char>>) -> ScanState
    decreases lines.len(),
{
    if lines.len() == 0 {
        ScanState { material: None, block: Seq::empty(), opened: false, depth: 0, out: Seq::empty() }
    } else {
        scan_step(scan_lines(lines.drop_last()), lines.last())
    }
}

/// The references [`usda_mtlx_references`] finds in `usda`.
pub open spec fn usda_references_spec(usda: Seq<char>) -> Seq<ReferenceChars> {
    scan_lines(lines_spec(usda)).out
}

proof fn lemma_count_char_le(s: Seq<char>, c: char)
    ensures
        count_char(s, c) <= s.len(),
    decreases s.len(),
{
    if s.len() > 0 {
        lemma_count_char_le(s.drop_last(), c);
    }
}

proof fn lemma_scan_depth(lines: Seq<Seq<char>>)
    ensures
        -(total_len(lines) as int) <= scan_lines(lines).depth <= total_len(lines),
    decreases lines.len(),
{
    if lines.len() > 0 {
        lemma_scan_depth(lines.drop_last());
        lemma_count_char_le(lines.last(), '{');
        lemma_count_char_le(lines.last(), '}');
    }
}

/// Scans a `.usda` document for `Material` prims that reference external
/// MaterialX assets: every `@...@` asset token inside each `Material`
/// definition, in document order.
pub fn usda_mtlx_references(usda: &str) -> (r: Vec<UsdaMtlxReference>)
    ensures
        r@.len() == usda_references_spec(usda@).len(),
        forall|i: int| 0 <= i < r@.len() ==> reference_chars(#[trigger] r@[i]) == usda_references_spec(usda@)[i],
{
    let cs = chars_of(usda);
    let lines = lines_of(cs.as_slice());
    let ghost ls = lines_spec(usda@);
    proof {
        lemma_lines_total(usda@);
        assert(usda@.len() == cs.len());
    }
    let mut out: Vec<UsdaMtlxReference> = Vec::new();
    let mut material: Option<Vec<char>> = None;
    let mut block: Vec<char> = Vec::new();
    let mut opened = false;
    let mut depth: i128 = 0;
    let mut li: usize = 0;
    assert(ls.take(0) =~= Seq::<Seq<char>>::empty());
    while li < lines.len()
        invariant
            lines@.len() == ls.len(),
            forall|i: int| 0 <= i < lines@.len() ==> #[trigger] lines@[i]@ == ls[i],
            total_len(ls) <= usize::MAX,
            li <= lines@.len(),
            ({
                let st = scan_lines(ls.take(li as int));
                &&& (match material { Some(m) => st.material == Some(m@), None => st.material is None })
                &&& st.block == block@
                &&& st.opened == opened
                &&& st.depth == depth
                &&& st.out.len() == out@.len()
                &&& forall|i: int| 0 <= i < out@.len() ==> reference_chars(#[trigger] out@[i]) == st.out[i]
            }),
        decreases lines.len() - li,
    {
        let line = &lines[li];
        let ghost pre = ls.take(li as int);
        let ghost st = scan_lines(pre);
        proof {
            assert(ls.take(li + 1).drop_last() =~= pre);
            assert(ls.take(li + 1).last() == line@);
            lemma_scan_depth(pre);
            lemma_total_prefix(ls, li as int);
            lemma_count_char_le(line@, '{');
            lemma_count_char_le(line@, '}');
        }
        let current = match material {
            None => match material_name_chars(line) {
                Some(name) => {
                    block = Vec::new();
                    opened = false;
                    depth = 0;
                    Some(name)
                },
                None => None,
            },
            Some(name) => Some(name),
        };
        let ghost st = match st.material {
            None => match material_name_spec(line@) {
                Some(name) => ScanState { material: Some(name), block: Seq::empty(), opened: false, depth: 0, out: st.out },
                None => st,
            },
            Some(_) => st,
        };
        match current {
            None => {
                material = None;
            },
            Some(name) => {
                let opens = count_char_exec(line.as_slice(), '{');
                let closes = count_char_exec(line.as_slice(), '}');
                if opens > 0 {
                    opened = true;
                }
                depth = depth + opens as i128 - closes as i128;
                if opened && depth <= 0 {
                    let tokens = collect_asset_tokens_chars(&block);
                    let name_str = string_of(name.as_slice());
                    let ghost old_out = out@;
                    let ghost added = block_references(name@, asset_tokens_spec(block@));
                    let mut t: usize = 0;
                    while t < tokens.len()
                        invariant
                            t <= tokens@.len(),
                            tokens@.len() == asset_tokens_spec(block@).len(),
                            forall|i: int| 0 <= i < tokens@.len() ==> token_chars(#[trigger] tokens@[i]) == asset_tokens_spec(block@)[i],
                            name_str@ == name@,
                            added == block_references(name@, asset_tokens_spec(block@)),
                            out@.len() == old_out.len() + t,
                            forall|i: int| 0 <= i < old_out.len() ==> out@[i] == old_out[i],
                            forall|i: int| 0 <= i < t ==> reference_chars(#[trigger] out@[old_out.len() + i]) == added[i],
                        decreases tokens.len() - t,
                    {
                        let (asset, target) = &tokens[t];
                        let target_copy = match target {
                            Some(x) => Some(x.clone()),
                            None => None,
                        };
                        out.push(UsdaMtlxReference { material: name_str.clone(), mtlx_asset: asset.clone(), mtlx_target: target_copy });
                        proof {
                            assert(token_chars(tokens@[t as int]) == asset_tokens_spec(block@)[t as int]);
                        }
                        t = t + 1;
                    }
                    material = None;
                    proof {
                        let nst = scan_lines(ls.take(li + 1));
                        assert(nst.out =~= st.out + added);
                        assert forall|i: int| 0 <= i < out@.len() implies reference_chars(#[trigger] out@[i]) == nst.out[i] by {
                            if i < old_out.len() {
                                assert(out@[i] == old_out[i]);
                            } else {
                                assert(reference_chars(out@[old_out.len() + (i - old_out.len())]) == added[i - old_out.len()]);
                            }
                        }
                    }
                } else {
                    let ghost old_block = block@;
                    let mut k: usize = 0;
                    while k < line.len()
                        invariant
                            k <= line@.len(),
                            block@ == old_block + line@.take(k as int),
                        decreases line.len() - k,
                    {
                        block.push(line[k]);
                        k = k + 1;
                        assert(block@ =~= old_block + line@.take(k as int));
                    }
                    block.push('\n');
                    assert(line@.take(line@.len() as int) =~= line@);
                    assert(block@ =~= old_block + line@ + seq!['\n']);
                    material = Some(name);
                }
            },
        }
        li = li + 1;
    }
    assert(ls.take(ls.len() as int) =~= ls);
    out
}

proof fn lemma_total_prefix(ls: Seq<Seq<char>>, k: int)
    requires
        0 <= k < ls.len(),
    ensures
        total_len(ls.take(k + 1)) == total_len(ls.take(k)) + ls[k].len(),
        total_len(ls.take(k + 1)) <= total_len(ls),
    decreases ls.len() - k,
{
    assert(ls.take(k + 1).drop_last() =~= ls.take(k));
    if k + 1 < ls.len() {
        lemma_total_prefix(ls, k + 1);
    } else {
        assert(ls.take(k + 1) =~= ls);
    }
}

/// No asset token is empty: every `@...@` token [`collect_asset_tokens`]
/// reports names an asset (blank ones are skipped).
pub proof fn lemma_asset_tokens_named(rest: Seq<char>)
    ensures
        forall|i: int| 0 <= i < asset_tokens_spec(rest).len() ==> (#[trigger] asset_tokens_spec(rest)[i]).0.len() > 0,
    decreases rest.len(),
{
    match find_char(rest, '@') {
        None => {},
        Some(o) => {
            lemma_find_char_from(rest, '@', 0);
            let a = rest.skip(o + 1);
            match find_char(a, '@') {
                None => {},
                Some(c) => {
                    lemma_find_char_from(a, '@', 0);
                    let asset = trim_spec(a.take(c));
                    let tail = a.skip(c + 1);
                    lemma_asset_tokens_named(tail);
                    let here = if asset.len() == 0 {
                        Seq::<(Seq<char>, Option<Seq<char>>)>::empty()
                    } else {
                        seq![(asset, target_spec(trim_start_spec(tail)))]
                    };
                    let all = here + asset_tokens_spec(tail);
                    assert(asset_tokens_spec(rest) == all);
                    assert forall|i: int| 0 <= i < all.len() implies (#[trigger] all[i]).0.len() > 0 by {
                        if i >= here.len() {
                            assert(all[i] == asset_tokens_spec(tail)[i - here.len()]);
                        }
                    }
                },
            }
        },
    }
}

} // verus!
