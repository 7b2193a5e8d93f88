//! Byte-level text utilities shared by the tool-output parsers.
//!
//! All parsers in this crate work on raw bytes: tool output arrives as
//! captured stdout and is examined byte by byte, so the specifications
//! can be stated over `Seq<u8>` directly.

use vstd::prelude::*;

verus! {

/// ASCII whitespace, as the tokenizers below understand it.
pub open spec fn is_ws(b: u8) -> bool {
    b == 32 || (9 <= b && b <= 13)
}

/// Copy of `s[i..j]` as an owned vector.
pub fn sub_vec(s: &[u8], i: usize, j: usize) -> (r: Vec<u8>)
    requires
        i <= j <= s@.len(),
    ensures
        r@ == s@.subrange(i as int, j as int),
{
    let mut r: Vec<u8> = Vec::new();
    let mut k: usize = i;
    while k < j
        invariant
            i <= k <= j <= s@.len(),
            r@ == s@.subrange(i as int, k as int),
        decreases j - k,
    {
        r.push(s[k]);
        proof {
            assert(r@ =~= s@.subrange(i as int, k + 1 as int));
        }
        k = k + 1;
    }
    r
}

/// An owned copy of a byte vector.
pub fn clone_bytes(v: &Vec<u8>) -> (r: Vec<u8>)
    ensures
        r@ == v@,
{
    let r = sub_vec(v.as_slice(), 0, v.len());
    proof {
        assert(v@.subrange(0, v@.len() as int) =~= v@);
    }
    r
}

/// Byte-for-byte equality of two slices.
pub fn eq_bytes(a: &[u8], b: &[u8]) -> (r: bool)
    ensures
        r == (a@ == b@),
{
    if a.len() != b.len() {
        return false;
    }
    let mut k: usize = 0;
    while k < a.len()
        invariant
            k <= a@.len() == b@.len(),
            forall|i: int| 0 <= i < k ==> a@[i] == b@[i],
        decreases a@.len() - k,
    {
        if a[k] != b[k] {
            return false;
        }
        k = k + 1;
    }
    proof {
        assert(a@ =~= b@);
    }
    true
}

/// Whether `pat` occurs in `s` starting exactly at position `i`.
pub fn match_at(s: &[u8], pat: &[u8], i: usize) -> (r: bool)
    requires
        i + pat@.len() <= s@.len(),
    ensures
        r == (s@.subrange(i as int, i + pat@.len()) == pat@),
{
    let n = s.len();
    let pn = pat.len();
    let mut k: usize = 0;
    while k < pn
        invariant
            k <= pn,
            n == s@.len(),
            pn == pat@.len(),
            i + pn <= n,
            forall|m: int| 0 <= m < k ==> s@[i + m] == pat@[m],
        decreases pn - k,
    {
        if s[i + k] != pat[k] {
            proof {
                assert(s@.subrange(i as int, i + pat@.len())[k as int] != pat@[k as int]);
            }
            return false;
        }
        k = k + 1;
    }
    proof {
        assert(s@.subrange(i as int, i + pat@.len()) =~= pat@);
    }
    true
}

/// First position of byte `b` in `s` at or after `from`.
pub open spec fn spec_find_byte(s: Seq<u8>, b: u8, from: int) -> Option<int>
    decreases s.len() - from,
{
    if from < 0 || from >= s.len() {
        None
    } else if s[from] == b {
        Some(from)
    } else {
        spec_find_byte(s, b, from + 1)
    }
}

pub fn find_byte(s: &[u8], b: u8, from: usize) -> (r: Option<usize>)
    ensures
        match r {
            Some(i) => from <= i < s@.len() && spec_find_byte(s@, b, from as int) == Some(i as int),
            None => spec_find_byte(s@, b, from as int) is None,
        },
{
    let mut k: usize = from;
    if k >= s.len() {
        return None;
    }
    while k < s.len()
        invariant
            from <= k <= s@.len(),
            spec_find_byte(s@, b, from as int) == spec_find_byte(s@, b, k as int),
        decreases s@.len() - k,
    {
        if s[k] == b {
            return Some(k);
        }
        k = k + 1;
    }
    None
}

/// Last position of byte `b` in `s`.
pub open spec fn spec_rfind_byte(s: Seq<u8>, b: u8) -> Option<int>
    decreases s.len(),
{
    if s.len() == 0 {
        None
    } else if s[s.len() - 1] == b {
        Some(s.len() - 1)
    } else {
        spec_rfind_byte(s.drop_last(), b)
    }
}

pub fn rfind_byte(s: &[u8], b: u8) -> (r: Option<usize>)
    ensures
        match r {
            Some(i) => i < s@.len() && spec_rfind_byte(s@, b) == Some(i as int),
            None => spec_rfind_byte(s@, b) is None,
        },
{
    let mut k: usize = s.len();
    proof {
        assert(s@.take(s@.len() as int) =~= s@);
    }
    while k > 0
        invariant
            k <= s@.len(),
            spec_rfind_byte(s@, b) == spec_rfind_byte(s@.take(k as int), b),
        decreases k,
    {
        proof {
            assert(s@.take(k as int).drop_last() =~= s@.take(k - 1));
        }
        if s[k - 1] == b {
            return Some(k - 1);
        }
        k = k - 1;
    }
    None
}

/// First position of the subsequence `pat` in `s` at or after `from`,
/// for a non-empty `pat`.
pub open spec fn spec_find_sub(s: Seq<u8>, pat: Seq<u8>, from: int) -> Option<int>
    decreases s.len() - from,
{
    if pat.len() == 0 || from < 0 || from + pat.len() > s.len() {
        None
    } else if s.subrange(from, from + pat.len() as int) == pat {
        Some(from)
    } else {
        spec_find_sub(s, pat, from + 1)
    }
}

pub fn find_sub(s: &[u8], pat: &[u8], from: usize) -> (r: Option<usize>)
    requires
        pat@.len() >= 1,
    ensures
        match r {
            Some(i) => {
                &&& from <= i
                &&& i + pat@.len() <= s@.len()
                &&& spec_find_sub(s@, pat@, from as int) == Some(i as int)
            },
            None => spec_find_sub(s@, pat@, from as int) is None,
        },
{
    let mut k: usize = from;
    if k > s.len() || pat.len() > s.len() - k {
        return None;
    }
    while k <= s.len() - pat.len()
        invariant
            from <= k,
            k <= s@.len(),
            1 <= pat@.len() <= s@.len(),
            spec_find_sub(s@, pat@, from as int) == spec_find_sub(s@, pat@, k as int),
        decreases s@.len() - k,
    {
        if match_at(s, pat, k) {
            return Some(k);
        }
        k = k + 1;
    }
    None
}

/// Whether `pat` occurs anywhere in `s`.
pub open spec fn spec_contains(s: Seq<u8>, pat: Seq<u8>) -> bool {
    spec_find_sub(s, pat, 0) is Some
}

pub fn contains_sub(s: &[u8], pat: &[u8]) -> (r: bool)
    requires
        pat@.len() >= 1,
    ensures
        r == spec_contains(s@, pat@),
{
    find_sub(s, pat, 0).is_some()
}

/// `s` ends with `suf`.
pub open spec fn spec_ends_with(s: Seq<u8>, suf: Seq<u8>) -> bool {
    s.len() >= suf.len() && s.subrange(s.len() - suf.len(), s.len() as int) == suf
}

pub fn ends_with(s: &[u8], suf: &[u8]) -> (r: bool)
    ensures
        r == spec_ends_with(s@, suf@),
{
    if suf.len() > s.len() {
        return false;
    }
    match_at(s, suf, s.len() - suf.len())
}

/// `s` starts with `pre`.
pub open spec fn spec_starts_with(s: Seq<u8>, pre: Seq<u8>) -> bool {
    s.len() >= pre.len() && s.subrange(0, pre.len() as int) == pre
}

pub fn starts_with(s: &[u8], pre: &[u8]) -> (r: bool)
    ensures
        r == spec_starts_with(s@, pre@),
{
    if pre.len() > s.len() {
        return false;
    }
    match_at(s, pre, 0)
}

/// Splitting on a non-empty separator, accumulating the piece begun at
/// `start` while the cursor `from` scans for the next separator.
pub open spec fn spec_split_acc(s: Seq<u8>, sep: Seq<u8>, from: int, start: int) -> Seq<Seq<u8>>
    decreases s.len() - from,
{
    if sep.len() == 0 || !(0 <= start <= from <= s.len()) {
        seq![]
    } else if from + sep.len() > s.len() {
        seq![s.subrange(start, s.len() as int)]
    } else if s.subrange(from, from + sep.len() as int) == sep {
        seq![s.subrange(start, from)] + spec_split_acc(s, sep, from + sep.len() as int, from + sep.len() as int)
    } else {
        spec_split_acc(s, sep, from + 1, start)
    }
}

/// The pieces of `s` between occurrences of `sep`, leftmost-first;
/// matches `str::split` on a non-empty separator.
pub open spec fn spec_split(s: Seq<u8>, sep: Seq<u8>) -> Seq<Seq<u8>> {
    spec_split_acc(s, sep, 0, 0)
}

pub fn split_by(s: &[u8], sep: &[u8]) -> (r: Vec<Vec<u8>>)
    requires
        sep@.len() >= 1,
    ensures
        r@.map_values(|p: Vec<u8>| p@) == spec_split(s@, sep@),
{
    let ghost full = spec_split(s@, sep@);
    let mut r: Vec<Vec<u8>> = Vec::new();
    let mut from: usize = 0;
    let mut start: usize = 0;
    if sep.len() > s.len() {
        let piece = sub_vec(s, 0, s.len());
        proof {
            assert(s@.subrange(0, s@.len() as int) =~= s@);
        }
        r.push(piece);
        proof {
            assert(r@.map_values(|p: Vec<u8>| p@) =~= seq![s@]);
        }
        return r;
    }
    while from <= s.len() - sep.len()
        invariant
            1 <= sep@.len() <= s@.len(),
            start <= from <= s@.len(),
            full == r@.map_values(|p: Vec<u8>| p@) + spec_split_acc(s@, sep@, from as int, start as int),
        decreases s@.len() - from,
    {
        if match_at(s, sep, from) {
            let piece = sub_vec(s, start, from);
            r.push(piece);
            from = from + sep.len();
            start = from;
            proof {
                assert(r@.map_values(|p: Vec<u8>| p@) =~= r@.drop_last().map_values(|p: Vec<u8>| p@)
                    + seq![r@.last()@]);
            }
        } else {
            from = from + 1;
        }
    }
    let piece = sub_vec(s, start, s.len());
    r.push(piece);
    proof {
        assert(r@.map_values(|p: Vec<u8>| p@) =~= r@.drop_last().map_values(|p: Vec<u8>| p@)
            + seq![r@.last()@]);
        assert(r@.map_values(|p: Vec<u8>| p@) =~= full);
    }
    r
}

/// Whitespace-separated tokens; the piece begun at `start` is pending.
pub open spec fn spec_tokens_acc(s: Seq<u8>, from: int, start: int) -> Seq<Seq<u8>>
    decreases s.len() - from,
{
    if !(0 <= start <= from <= s.len()) {
        seq![]
    } else if from == s.len() {
        if start < from {
            seq![s.subrange(start, from)]
        } else {
            seq![]
        }
    } else if is_ws(s[from]) {
        if start < from {
            seq![s.subrange(start, from)] + spec_tokens_acc(s, from + 1, from + 1)
        } else {
            spec_tokens_acc(s, from + 1, from + 1)
        }
    } else {
        spec_tokens_acc(s, from + 1, start)
    }
}

/// The maximal whitespace-free runs of `s`, in order; matches
/// `str::split_whitespace` on ASCII input.
pub open spec fn spec_tokens(s: Seq<u8>) -> Seq<Seq<u8>> {
    spec_tokens_acc(s, 0, 0)
}

pub fn tokens(s: &[u8]) -> (r: Vec<Vec<u8>>)
    ensures
        r@.map_values(|p: Vec<u8>| p@) == spec_tokens(s@),
{
    let ghost full = spec_tokens(s@);
    let mut r: Vec<Vec<u8>> = Vec::new();
    let mut from: usize = 0;
    let mut start: usize = 0;
    while from < s.len()
        invariant
            start <= from <= s@.len(),
            full == r@.map_values(|p: Vec<u8>| p@) + spec_tokens_acc(s@, from as int, start as int),
        decreases s@.len() - from,
    {
        if is_ws_exec(s[from]) {
            if start < from {
                let piece = sub_vec(s, start, from);
                r.push(piece);
                proof {
                    assert(r@.map_values(|p: Vec<u8>| p@) =~= r@.drop_last().map_values(
                        |p: Vec<u8>| p@,
                    ) + seq![r@.last()@]);
                }
            }
            from = from + 1;
            start = from;
        } else {
            from = from + 1;
        }
    }
    if start < s.len() {
        let piece = sub_vec(s, start, s.len());
        r.push(piece);
        proof {
            assert(r@.map_values(|p: Vec<u8>| p@) =~= r@.drop_last().map_values(|p: Vec<u8>| p@)
                + seq![r@.last()@]);
        }
    }
    proof {
        assert(r@.map_values(|p: Vec<u8>| p@) =~= full);
    }
    r
}

fn is_ws_exec(b: u8) -> (r: bool)
    ensures
        r == is_ws(b),
{
    b == 32 || (9 <= b && b <= 13)
}

/// Leading whitespace removed.
pub open spec fn spec_trim_start(s: Seq<u8>) -> Seq<u8>
    decreases s.len(),
{
    if s.len() > 0 && is_ws(s[0]) {
        spec_trim_start(s.skip(1))
    } else {
        s
    }
}

/// Trailing whitespace removed.
pub open spec fn spec_trim_end(s: Seq<u8>) -> Seq<u8>
    decreases s.len(),
{
    if s.len() > 0 && is_ws(s.last()) {
        spec_trim_end(s.drop_last())
    } else {
        s
    }
}

/// Whitespace removed from both ends.
pub open spec fn spec_trim(s: Seq<u8>) -> Seq<u8> {
    spec_trim_end(spec_trim_start(s))
}

pub fn trim(s: &[u8]) -> (r: Vec<u8>)
    ensures
        r@ == spec_trim(s@),
{
    let mut i: usize = 0;
    proof {
        assert(s@.skip(0) =~= s@);
    }
    while i < s.len() && is_ws_exec(s[i])
        invariant
            i <= s@.len(),
            spec_trim_start(s@) == spec_trim_start(s@.skip(i as int)),
        decreases s@.len() - i,
    {
        proof {
            assert(s@.skip(i as int).skip(1) =~= s@.skip(i + 1));
        }
        i = i + 1;
    }
    proof {
        assert(spec_trim_start(s@) =~= s@.subrange(i as int, s@.len() as int));
    }
    let mut j: usize = s.len();
    while j > i && is_ws_exec(s[j - 1])
        invariant
            i <= j <= s@.len(),
            spec_trim_end(s@.subrange(i as int, s@.len() as int)) == spec_trim_end(
                s@.subrange(i as int, j as int),
            ),
        decreases j,
    {
        proof {
            assert(s@.subrange(i as int, j as int).drop_last() =~= s@.subrange(i as int, j - 1));
        }
        j = j - 1;
    }
    proof {
        assert(spec_trim_end(s@.subrange(i as int, j as int)) == s@.subrange(i as int, j as int));
    }
    sub_vec(s, i, j)
}

/// Every occurrence of `suf` removed from the end, repeatedly; matches
/// `str::trim_end_matches` for a non-empty suffix.
pub open spec fn spec_strip_suffix_all(s: Seq<u8>, suf: Seq<u8>) -> Seq<u8>
    decreases s.len(),
{
    if suf.len() >= 1 && spec_ends_with(s, suf) {
        spec_strip_suffix_all(s.subrange(0, s.len() - suf.len()), suf)
    } else {
        s
    }
}

pub fn strip_suffix_all(s: &[u8], suf: &[u8]) -> (r: Vec<u8>)
    requires
        suf@.len() >= 1,
    ensures
        r@ == spec_strip_suffix_all(s@, suf@),
{
    let mut j: usize = s.len();
    proof {
        assert(s@.take(s@.len() as int) =~= s@);
    }
    while j >= suf.len() && match_at(s, suf, j - suf.len())
        invariant
            j <= s@.len(),
            suf@.len() >= 1,
            spec_strip_suffix_all(s@, suf@) == spec_strip_suffix_all(s@.take(j as int), suf@),
        decreases j,
    {
        proof {
            let t = s@.take(j as int);
            assert(t.subrange(j - suf@.len(), j as int) =~= s@.subrange(j - suf@.len(), j as int));
            assert(spec_ends_with(t, suf@));
            assert(t.subrange(0, j - suf@.len()) =~= s@.take(j - suf@.len()));
        }
        j = j - suf.len();
    }
    proof {
        let t = s@.take(j as int);
        if j >= suf@.len() {
            assert(t.subrange(j - suf@.len(), j as int) =~= s@.subrange(j - suf@.len(), j as int));
        }
        assert(!spec_ends_with(t, suf@));
    }
    sub_vec(s, 0, j)
}

/// ASCII lower-case letters mapped to upper case.
pub open spec fn spec_upper_byte(b: u8) -> u8 {
    if 97 <= b && b <= 122 {
        (b - 32) as u8
    } else {
        b
    }
}

pub fn to_ascii_upper(s: &[u8]) -> (r: Vec<u8>)
    ensures
        r@ == s@.map_values(|b: u8| spec_upper_byte(b)),
{
    let mut r: Vec<u8> = Vec::new();
    let mut k: usize = 0;
    while k < s.len()
        invariant
            k <= s@.len(),
            r@ =~= s@.take(k as int).map_values(|b: u8| spec_upper_byte(b)),
        decreases s@.len() - k,
    {
        let b = s[k];
        if 97 <= b && b <= 122 {
            r.push(b - 32);
        } else {
            r.push(b);
        }
        proof {
            assert(r@ =~= s@.take(k + 1).map_values(|b: u8| spec_upper_byte(b)));
        }
        k = k + 1;
    }
    proof {
        assert(s@.take(s@.len() as int) =~= s@);
    }
    r
}

/// Pieces joined with a single space, leftmost-associated.
pub open spec fn spec_join_space(ps: Seq<Seq<u8>>) -> Seq<u8>
    decreases ps.len(),
{
    if ps.len() == 0 {
        seq![]
    } else if ps.len() == 1 {
        ps[0]
    } else {
        spec_join_space(ps.drop_last()) + seq![32u8] + ps.last()
    }
}

/// The elements of `parts` from index `from` on, joined with spaces;
/// matches `[&str]::join(" ")` on the corresponding suffix.
pub fn join_space_from(parts: &Vec<Vec<u8>>, from: usize) -> (r: Vec<u8>)
    requires
        from <= parts@.len(),
    ensures
        r@ == spec_join_space(parts@.map_values(|p: Vec<u8>| p@).skip(from as int)),
{
    let ghost ps = parts@.map_values(|p: Vec<u8>| p@).skip(from as int);
    let mut r: Vec<u8> = Vec::new();
    let mut k: usize = from;
    while k < parts.len()
        invariant
            from <= k <= parts@.len(),
            r@ == spec_join_space(parts@.map_values(|p: Vec<u8>| p@).subrange(from as int, k as int)),
        decreases parts@.len() - k,
    {
        let ghost pre = parts@.map_values(|p: Vec<u8>| p@).subrange(from as int, k as int);
        let ghost post = parts@.map_values(|p: Vec<u8>| p@).subrange(from as int, k + 1);
        if k > from {
            r.push(32u8);
        }
        let mut m: usize = 0;
        let part = &parts[k];
        while m < part.len()
            invariant
                m <= part@.len(),
                part@ == parts@.map_values(|p: Vec<u8>| p@)[k as int],
                from <= k < parts@.len(),
                r@ == (if k > from {
                    spec_join_space(parts@.map_values(|p: Vec<u8>| p@).subrange(from as int, k as int))
                        + seq![32u8] + part@.take(m as int)
                } else {
                    part@.take(m as int)
                }),
            decreases part@.len() - m,
        {
            r.push(part[m]);
            proof {
                assert(part@.take(m + 1) =~= part@.take(m as int) + seq![part@[m as int]]);
            }
            m = m + 1;
        }
        proof {
            assert(part@.take(part@.len() as int) =~= part@);
            assert(post.drop_last() =~= pre);
            assert(post.last() == part@);
            if k == from {
                assert(spec_join_space(post) == part@);
            }
        }
        k = k + 1;
    }
    proof {
        assert(parts@.map_values(|p: Vec<u8>| p@).subrange(from as int, parts@.len() as int) =~= ps);
    }
    r
}

/// One trailing carriage return removed, as `str::lines` does.
pub open spec fn spec_strip_cr(l: Seq<u8>) -> Seq<u8> {
    if l.len() > 0 && l.last() == 13 {
        l.drop_last()
    } else {
        l
    }
}

/// The lines of `s`: pieces between newline bytes, without a final empty
/// piece, each with one trailing carriage return removed; matches
/// `str::lines`.
pub open spec fn spec_lines(s: Seq<u8>) -> Seq<Seq<u8>> {
    let raw = spec_split(s, seq![10u8]);
    let trimmed = if raw.len() > 0 && raw.last().len() == 0 {
        raw.drop_last()
    } else {
        raw
    };
    trimmed.map_values(|l: Seq<u8>| spec_strip_cr(l))
}

pub fn lines(s: &[u8]) -> (r: Vec<Vec<u8>>)
    ensures
        r@.map_values(|p: Vec<u8>| p@) == spec_lines(s@),
{
    let nl: [u8; 1] = [10u8];
    let mut raw = split_by(s, &nl);
    proof {
        assert(nl@ =~= seq![10u8]);
        assert(raw@.len() > 0) by {
            let m = raw@.map_values(|p: Vec<u8>| p@);
            assert(m.len() == spec_split(s@, seq![10u8]).len());
            assert(spec_split(s@, seq![10u8]).len() > 0) by {
                lemma_split_nonempty(s@, seq![10u8], 0, 0);
            }
        }
    }
    let last_idx = raw.len() - 1;
    if raw[last_idx].len() == 0 {
        let _ = raw.pop();
    }
    let mut r: Vec<Vec<u8>> = Vec::new();
    let ghost trimmed = {
        let rawv = spec_split(s@, seq![10u8]);
        if rawv.len() > 0 && rawv.last().len() == 0 {
            rawv.drop_last()
        } else {
            rawv
        }
    };
    proof {
        assert(raw@.map_values(|p: Vec<u8>| p@) =~= trimmed);
    }
    let mut k: usize = 0;
    while k < raw.len()
        invariant
            k <= raw@.len(),
            raw@.map_values(|p: Vec<u8>| p@) == trimmed,
            r@.map_values(|p: Vec<u8>| p@) =~= trimmed.take(k as int).map_values(
                |l: Seq<u8>| spec_strip_cr(l),
            ),
        decreases raw@.len() - k,
    {
        let line = &raw[k];
        let stripped = if line.len() > 0 && line[line.len() - 1] == 13 {
            sub_vec(line.as_slice(), 0, line.len() - 1)
        } else {
            sub_vec(line.as_slice(), 0, line.len())
        };
        proof {
            assert(line@.subrange(0, line@.len() as int) =~= line@);
            if line@.len() > 0 && line@.last() == 13 {
                assert(line@.subrange(0, line@.len() - 1) =~= line@.drop_last());
            }
        }
        r.push(stripped);
        proof {
            assert(r@.map_values(|p: Vec<u8>| p@) =~= r@.drop_last().map_values(|p: Vec<u8>| p@)
                + seq![r@.last()@]);
            assert(trimmed.take(k + 1).map_values(|l: Seq<u8>| spec_strip_cr(l)) =~= trimmed.take(
                k as int,
            ).map_values(|l: Seq<u8>| spec_strip_cr(l)) + seq![spec_strip_cr(trimmed[k as int])]);
        }
        k = k + 1;
    }
    proof {
        assert(trimmed.take(trimmed.len() as int) =~= trimmed);
    }
    r
}

/// A split of any sequence yields at least one piece.
proof fn lemma_split_nonempty(s: Seq<u8>, sep: Seq<u8>, from: int, start: int)
    requires
        sep.len() >= 1,
        0 <= start <= from <= s.len(),
    ensures
        spec_split_acc(s, sep, from, start).len() > 0,
    decreases s.len() - from,
{
    if from + sep.len() > s.len() {
    } else if s.subrange(from, from + sep.len() as int) == sep {
        lemma_split_nonempty(s, sep, from + sep.len() as int, from + sep.len() as int);
    } else {
        lemma_split_nonempty(s, sep, from + 1, start);
    }
}

} // verus!
