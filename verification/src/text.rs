//! Character-level helpers shared by the text scanners: conversions between
//! `str`/`String` and character vectors, decimal rendering of integers, and
//! the searches the loaders perform on asset text.

use vstd::prelude::*;

verus! {

/// Appends one character to a `String`.
/// Trusted: `String::push` appends exactly `c` to the string's characters.
#[verifier::external_body]
pub(crate) fn push_char(s: &mut String, c: char)
    ensures
        final(s)@ == old(s)@.push(c),
{
    s.push(c);
}

/// The characters of `s`, in order.
pub fn chars_of(s: &str) -> (r: Vec<char>)
    ensures
        r@ == s@,
{
    let mut out: Vec<char> = Vec::new();
    for c in it: s.chars()
        invariant
            it.seq() == s@,
            out@ == it.seq().take(it.index()),
    {
        out.push(c);
    }
    out
}

/// A `String` holding exactly the characters of `cs`.
pub fn string_of(cs: &[char]) -> (r: String)
    ensures
        r@ == cs@,
{
    let mut out = String::new();
    let mut i: usize = 0;
    while i < cs.len()
        invariant
            i <= cs.len(),
            out@ == cs@.take(i as int),
        decreases cs.len() - i,
    {
        push_char(&mut out, cs[i]);
        i = i + 1;
        assert(out@ == cs@.take(i as int));
    }
    assert(cs@.take(cs.len() as int) == cs@);
    out
}


/// The character of decimal digit `d` (`d < 10`).
pub open spec fn digit_char(d: nat) -> char {
    ((48 + d) as u32) as char
}

/// Decimal rendering of `n`, most significant digit first, without leading
/// zeros (`"0"` for zero) -- what `{}` formatting prints for an unsigned integer.
pub open spec fn decimal(n: nat) -> Seq<char>
    decreases n,
{
    if n < 10 {
        seq![digit_char(n)]
    } else {
        decimal(n / 10).push(digit_char(n % 10))
    }
}

/// The decimal rendering of `n` as a `String`.
pub fn decimal_string(n: u64) -> (r: String)
    ensures
        r@ == decimal(n as nat),
    decreases n,
{
    let d: u8 = (n % 10) as u8;
    let c: char = (48u8 + d) as char;
    if n < 10 {
        let mut s = String::new();
        push_char(&mut s, c);
        s
    } else {
        let mut s = decimal_string(n / 10);
        push_char(&mut s, c);
        s
    }
}

/// Appends the characters of `t` to `s`.
pub fn push_str(s: &mut String, t: &str)
    ensures
        final(s)@ == old(s)@ + t@,
{
    let ghost start = s@;
    for c in it: t.chars()
        invariant
            it.seq() == t@,
            s@ == start + it.seq().take(it.index()),
    {
        push_char(s, c);
        assert(s@ == start + it.seq().take(it.index() + 1));
    }
    assert(t@.take(t@.len() as int) == t@);
}


/// Appends the decimal rendering of `n` to `s`.
pub fn push_num(s: &mut String, n: u64)
    ensures
        final(s)@ == old(s)@ + decimal(n as nat),
{
    let d = decimal_string(n);
    push_str(s, d.as_str());
}

/// Whether two character sequences are equal.
pub fn str_eq(a: &str, b: &str) -> (r: bool)
    ensures
        r == (a@ == b@),
{
    let x = chars_of(a);
    let y = chars_of(b);
    if x.len() != y.len() {
        return false;
    }
    let mut i: usize = 0;
    while i < x.len()
        invariant
            x@ == a@, y@ == b@, x.len() == y.len(),
            i <= x.len(),
            forall|j: int| 0 <= j < i ==> x@[j] == y@[j],
        decreases x.len() - i,
    {
        if x[i] != y[i] {
            return false;
        }
        i = i + 1;
    }
    assert(x@ =~= y@);
    true
}


/// Whether `c` has the Unicode `White_Space` property (what `char::is_whitespace` tests).
pub open spec fn is_white_space(c: char) -> bool {
    let u = c as u32;
    (0x09 <= u && u <= 0x0d) || u == 0x20 || u == 0x85 || u == 0xa0 || u == 0x1680
        || (0x2000 <= u && u <= 0x200a) || u == 0x2028 || u == 0x2029 || u == 0x202f
        || u == 0x205f || u == 0x3000
}

/// `char::is_whitespace`.
pub fn white_space(c: char) -> (r: bool)
    ensures
        r == is_white_space(c),
{
    let u = c as u32;
    (0x09 <= u && u <= 0x0d) || u == 0x20 || u == 0x85 || u == 0xa0 || u == 0x1680
        || (0x2000 <= u && u <= 0x200a) || u == 0x2028 || u == 0x2029 || u == 0x202f
        || u == 0x205f || u == 0x3000
}

/// `s` without its leading white space (`str::trim_start`).
pub open spec fn trim_start_spec(s: Seq<char>) -> Seq<char>
    decreases s.len(),
{
    if s.len() > 0 && is_white_space(s[0]) { trim_start_spec(s.drop_first()) } else { s }
}

/// `s` without its trailing white space (`str::trim_end`).
pub open spec fn trim_end_spec(s: Seq<char>) -> Seq<char>
    decreases s.len(),
{
    if s.len() > 0 && is_white_space(s.last()) { trim_end_spec(s.drop_last()) } else { s }
}

/// `s` without leading and trailing white space (`str::trim`).
pub open spec fn trim_spec(s: Seq<char>) -> Seq<char> {
    trim_end_spec(trim_start_spec(s))
}

/// Index of the first `c` in `s` at or after `start`.
pub open spec fn find_char_from(s: Seq<char>, c: char, start: int) -> Option<int>
    decreases s.len() - start,
{
    if start < 0 || start >= s.len() {
        None
    } else if s[start] == c {
        Some(start)
    } else {
        find_char_from(s, c, start + 1)
    }
}

/// Index of the first `c` in `s` (`str::find` with a `char` pattern, in characters).
pub open spec fn find_char(s: Seq<char>, c: char) -> Option<int> {
    find_char_from(s, c, 0)
}

/// Whether `pat` occurs in `s` at `i`.
pub open spec fn occurs_at(s: Seq<char>, pat: Seq<char>, i: int) -> bool {
    0 <= i && i + pat.len() <= s.len() && s.subrange(i, i + pat.len()) == pat
}

/// Index of the first occurrence of `pat` in `s` at or after `start`.
pub open spec fn find_seq_from(s: Seq<char>, pat: Seq<char>, start: int) -> Option<int>
    decreases s.len() + 1 - start,
{
    if start < 0 || start + pat.len() > s.len() {
        None
    } else if occurs_at(s, pat, start) {
        Some(start)
    } else {
        find_seq_from(s, pat, start + 1)
    }
}

/// Index of the first occurrence of `pat` in `s` (`str::find` with a `&str` pattern, in characters).
pub open spec fn find_seq(s: Seq<char>, pat: Seq<char>) -> Option<int> {
    find_seq_from(s, pat, 0)
}

/// Number of `c` in `s` (`str::matches(c).count()`).
pub open spec fn count_char(s: Seq<char>, c: char) -> nat
    decreases s.len(),
{
    if s.len() == 0 { 0 } else { count_char(s.drop_last(), c) + if s.last() == c { 1nat } else { 0nat } }
}

/// First index of `c` in `s`.
pub fn find_char_exec(s: &[char], c: char) -> (r: Option<usize>)
    ensures
        match r {
            Some(i) => find_char(s@, c) == Some(i as int),
            None => find_char(s@, c) is None,
        },
{
    let mut i: usize = 0;
    while i < s.len()
        invariant
            i <= s@.len(),
            find_char(s@, c) == find_char_from(s@, c, i as int),
        decreases s.len() - i,
    {
        if s[i] == c {
            return Some(i);
        }
        i = i + 1;
    }
    None
}

/// First index of `pat` in `s`.
pub fn find_seq_exec(s: &[char], pat: &[char]) -> (r: Option<usize>)
    ensures
        match r {
            Some(i) => find_seq(s@, pat@) == Some(i as int),
            None => find_seq(s@, pat@) is None,
        },
{
    if pat.len() > s.len() {
        return None;
    }
    let last = s.len() - pat.len();
    let slen = s.len();
    let mut i: usize = 0;
    while i <= last
        invariant
            slen == s@.len(),
            last + pat@.len() == s@.len(),
            i <= last + 1,
            find_seq(s@, pat@) == find_seq_from(s@, pat@, i as int),
        decreases last + 1 - i,
    {
        let mut k: usize = 0;
        let mut same = true;
        while k < pat.len()
            invariant
                slen == s@.len(),
                i + pat@.len() <= s@.len(),
                k <= pat@.len(),
                same == forall|m: int| 0 <= m < k ==> s@[i + m] == pat@[m],
            decreases pat.len() - k,
        {
            if s[i + k] != pat[k] {
                same = false;
            }
            k = k + 1;
        }
        proof {
            if same {
                assert(s@.subrange(i as int, i + pat@.len()) =~= pat@);
            } else {
                let m = choose|m: int| 0 <= m < pat@.len() && !(s@[i + m] == pat@[m]);
                assert(s@.subrange(i as int, i + pat@.len())[m] != pat@[m]);
            }
        }
        if same {
            return Some(i);
        }
        if i == last {
            assert(find_seq_from(s@, pat@, i + 1) is None);
            return None;
        }
        i = i + 1;
    }
    None
}

/// `s[start..end]` as a vector.
pub fn slice_chars(s: &[char], start: usize, end: usize) -> (r: Vec<char>)
    requires
        start <= end <= s@.len(),
    ensures
        r@ == s@.subrange(start as int, end as int),
{
    let mut out: Vec<char> = Vec::new();
    let mut i: usize = start;
    while i < end
        invariant
            start <= i <= end, end <= s@.len(),
            out@ == s@.subrange(start as int, i as int),
        decreases end - i,
    {
        out.push(s[i]);
        i = i + 1;
        assert(out@ =~= s@.subrange(start as int, i as int));
    }
    out
}

/// `s` without leading white space.
pub fn trim_start_chars(s: &[char]) -> (r: Vec<char>)
    ensures
        r@ == trim_start_spec(s@),
{
    let mut i: usize = 0;
    assert(s@.subrange(0, s@.len() as int) =~= s@);
    while i < s.len() && white_space(s[i])
        invariant
            i <= s@.len(),
            trim_start_spec(s@) == trim_start_spec(s@.subrange(i as int, s@.len() as int)),
        decreases s.len() - i,
    {
        assert(s@.subrange(i as int, s@.len() as int).drop_first() =~= s@.subrange(i + 1, s@.len() as int));
        i = i + 1;
    }
    assert(s@.subrange(0, s@.len() as int) =~= s@);
    slice_chars(s, i, s.len())
}

/// `s` without leading and trailing white space.
pub fn trim_chars(s: &[char]) -> (r: Vec<char>)
    ensures
        r@ == trim_spec(s@),
{
    let t = trim_start_chars(s);
    let mut j: usize = t.len();
    assert(t@.subrange(0, j as int) =~= t@);
    while j > 0 && white_space(t[j - 1])
        invariant
            j <= t@.len(),
            trim_end_spec(t@) == trim_end_spec(t@.subrange(0, j as int)),
        decreases j,
    {
        assert(t@.subrange(0, j as int).drop_last() =~= t@.subrange(0, j - 1));
        j = j - 1;
    }
    slice_chars(t.as_slice(), 0, j)
}

/// Number of `c` in `s`.
pub fn count_char_exec(s: &[char], c: char) -> (r: usize)
    ensures
        r == count_char(s@, c),
{
    let mut n: usize = 0;
    let mut i: usize = 0;
    while i < s.len()
        invariant
            i <= s@.len(),
            n == count_char(s@.take(i as int), c),
            n <= i,
        decreases s.len() - i,
    {
        assert(s@.take(i + 1).drop_last() =~= s@.take(i as int));
        if s[i] == c {
            n = n + 1;
        }
        i = i + 1;
    }
    assert(s@.take(s@.len() as int) =~= s@);
    n
}


/// `find_char_from` finds a `c` at or after `start`, and none before it.
pub proof fn lemma_find_char_from(s: Seq<char>, c: char, start: int)
    requires
        0 <= start,
    ensures
        find_char_from(s, c, start) matches Some(i) ==> start <= i < s.len() && s[i] == c
            && forall|j: int| start <= j < i ==> s[j] != c,
        find_char_from(s, c, start) is None ==> forall|j: int| start <= j < s.len() ==> s[j] != c,
    decreases s.len() - start,
{
    if start < s.len() && s[start] != c {
        lemma_find_char_from(s, c, start + 1);
    }
}

/// Searching a suffix is searching the whole from the suffix's start.
pub proof fn lemma_find_char_skip(s: Seq<char>, c: char, pos: int)
    requires
        0 <= pos <= s.len(),
    ensures
        find_char(s.skip(pos), c) == (match find_char_from(s, c, pos) {
            Some(i) => Some(i - pos),
            None => None::<int>,
        }),
{
    lemma_find_char_from(s, c, pos);
    lemma_find_char_from(s.skip(pos), c, 0);
    let t = s.skip(pos);
    match find_char_from(s, c, pos) {
        Some(i) => {
            assert(t[i - pos] == c);
            match find_char_from(t, c, 0) {
                Some(k) => {
                    assert(s[k + pos] == c);
                    if k < i - pos {
                    } else if k > i - pos {
                        assert(t[i - pos] == s[i]);
                    }
                },
                None => {},
            }
        },
        None => {
            match find_char_from(t, c, 0) {
                Some(k) => {
                    assert(s[k + pos] == t[k]);
                },
                None => {},
            }
        },
    }
}

/// A raw line (without its `\n`) as `str::lines` yields it: one trailing
/// `\r` removed.
pub open spec fn line_of(raw: Seq<char>) -> Seq<char> {
    if raw.len() > 0 && raw.last() == '\r' { raw.drop_last() } else { raw }
}

/// The lines of `s` as `str::lines` yields them: split after each `\n`, the
/// `\n` (and a `\r` just before it) removed; a final line without `\n` is
/// kept as is; no empty line after a final `\n`.
pub open spec fn lines_spec(s: Seq<char>) -> Seq<Seq<char>>
    decreases s.len(),
{
    if s.len() == 0 {
        Seq::<Seq<char>>::empty()
    } else {
        match find_char(s, '\n') {
            None => seq![s],
            Some(i) => {
                proof {
                    lemma_find_char_from(s, '\n', 0);
                }
                seq![line_of(s.take(i))] + lines_spec(s.skip(i + 1))
            },
        }
    }
}

/// Total number of characters in `ls`.
pub open spec fn total_len(ls: Seq<Seq<char>>) -> nat
    decreases ls.len(),
{
    if ls.len() == 0 { 0 } else { total_len(ls.drop_last()) + ls.last().len() }
}

proof fn lemma_total_len_concat(a: Seq<Seq<char>>, b: Seq<Seq<char>>)
    ensures
        total_len(a + b) == total_len(a) + total_len(b),
    decreases b.len(),
{
    if b.len() > 0 {
        lemma_total_len_concat(a, b.drop_last());
        assert((a + b).drop_last() =~= a + b.drop_last());
    } else {
        assert(a + b =~= a);
    }
}

/// The lines of `s` hold no more characters than `s`.
pub proof fn lemma_lines_total(s: Seq<char>)
    ensures
        total_len(lines_spec(s)) <= s.len(),
    decreases s.len(),
{
    if s.len() > 0 {
        lemma_find_char_from(s, '\n', 0);
        match find_char(s, '\n') {
            None => {
                assert(seq![s].drop_last() =~= Seq::<Seq<char>>::empty());
                assert(total_len(seq![s].drop_last()) == 0);
                assert(total_len(seq![s]) == total_len(seq![s].drop_last()) + s.len());
            },
            Some(i) => {
                lemma_lines_total(s.skip(i + 1));
                let first = seq![line_of(s.take(i))];
                lemma_total_len_concat(first, lines_spec(s.skip(i + 1)));
                assert(first.drop_last() =~= Seq::<Seq<char>>::empty());
                assert(total_len(first.drop_last()) == 0);
                assert(first.last() == line_of(s.take(i)));
                assert(total_len(first) == line_of(s.take(i)).len());
                assert(line_of(s.take(i)).len() <= i);
                assert(lines_spec(s) == first + lines_spec(s.skip(i + 1)));
            },
        }
    }
}

/// The lines of `s`, one character vector each.
pub fn lines_of(s: &[char]) -> (r: Vec<Vec<char>>)
    ensures
        r@.len() == lines_spec(s@).len(),
        forall|i: int| 0 <= i < r@.len() ==> #[trigger] r@[i]@ == lines_spec(s@)[i],
{
    let mut out: Vec<Vec<char>> = Vec::new();
    let mut pos: usize = 0;
    let n = s.len();
    assert(s@.skip(0) =~= s@);
    while pos < n
        invariant
            n == s@.len(),
            pos <= n,
            out@.len() + lines_spec(s@.skip(pos as int)).len() == lines_spec(s@).len(),
            forall|i: int| 0 <= i < out@.len() ==> #[trigger] out@[i]@ == lines_spec(s@)[i],
            forall|i: int| 0 <= i < lines_spec(s@.skip(pos as int)).len()
                ==> #[trigger] lines_spec(s@.skip(pos as int))[i] == lines_spec(s@)[out@.len() + i],
        decreases n - pos,
    {
        let ghost rest = s@.skip(pos as int);
        proof {
            lemma_find_char_skip(s@, '\n', pos as int);
            lemma_find_char_from(s@, '\n', pos as int);
        }
        let mut e: usize = pos;
        while e < n && s[e] != '\n'
            invariant
                n == s@.len(),
                pos <= e <= n,
                forall|j: int| pos <= j < e ==> s@[j] != '\n',
            decreases n - e,
        {
            e = e + 1;
        }
        let mut line = slice_chars(s, pos, e);
        if e > pos && s[e - 1] == '\r' && e < n {
            line.pop();
        }
        proof {
            if e < n {
                assert(find_char_from(s@, '\n', pos as int) == Some(e as int));
                assert(rest.take(e - pos) =~= s@.subrange(pos as int, e as int));
                assert(line@ == line_of(rest.take(e - pos)));
                assert(rest.skip(e - pos + 1) =~= s@.skip(e + 1));
                assert(lines_spec(rest) == seq![line_of(rest.take(e - pos))] + lines_spec(s@.skip(e + 1)));
            } else {
                assert(find_char_from(s@, '\n', pos as int) is None);
                assert(rest =~= s@.subrange(pos as int, e as int));
                assert(lines_spec(rest) == seq![rest]);
                assert(s@.skip(n as int) =~= Seq::<char>::empty());
            }
        }
        let ghost old_out = out@;
        out.push(line);
        proof {
            assert(lines_spec(rest)[0] == line@);
        }
        pos = if e < n { e + 1 } else { n };
        proof {
            let next = lines_spec(s@.skip(pos as int));
            assert(lines_spec(rest) == seq![line@] + next);
            assert forall|i: int| 0 <= i < next.len() implies #[trigger] next[i] == lines_spec(s@)[out@.len() + i] by {
                assert(next[i] == lines_spec(rest)[i + 1]);
            }
            assert forall|i: int| 0 <= i < out@.len() implies #[trigger] out@[i]@ == lines_spec(s@)[i] by {
                if i < old_out.len() {
                    assert(out@[i] == old_out[i]);
                } else {
                    assert(lines_spec(rest)[0] == lines_spec(s@)[old_out.len() as int]);
                }
            }
        }
    }
    proof {
        assert(s@.skip(n as int) =~= Seq::<char>::empty());
    }
    out
}

} // verus!
