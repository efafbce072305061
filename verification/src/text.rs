//! Character-sequence utilities shared by the transform engine and the
//! script backend: case folding, substring search, trimming, splitting and
//! literal replacement, each with an exact specification.

use vstd::prelude::*;

verus! {

/// Code point of a character with ASCII upper-case letters folded to lower
/// case; two characters match case-insensitively when these agree.
pub open spec fn lower(c: char) -> int {
    if 65 <= c as u32 && c as u32 <= 90 {
        c as u32 + 32
    } else {
        c as u32 as int
    }
}

pub fn lower_code(c: char) -> (r: u32)
    ensures
        r == lower(c),
{
    let u = c as u32;
    if 65 <= u && u <= 90 {
        u + 32
    } else {
        u
    }
}

/// The Unicode white-space characters, as `str::trim` understands them.
pub open spec fn is_wspace(c: char) -> bool {
    let u = c as u32;
    (9 <= u && u <= 13) || u == 32 || u == 0x85 || u == 0xa0 || u == 0x1680 || (0x2000 <= u && u
        <= 0x200a) || u == 0x2028 || u == 0x2029 || u == 0x202f || u == 0x205f || u == 0x3000
}

pub fn is_wspace_char(c: char) -> (r: bool)
    ensures
        r == is_wspace(c),
{
    let u = c as u32;
    (9 <= u && u <= 13) || u == 32 || u == 0x85 || u == 0xa0 || u == 0x1680 || (0x2000 <= u && u
        <= 0x200a) || u == 0x2028 || u == 0x2029 || u == 0x202f || u == 0x205f || u == 0x3000
}

/// Character equality, case-insensitive in ASCII when `ci` is set.
pub open spec fn char_eq(a: char, b: char, ci: bool) -> bool {
    if ci {
        lower(a) == lower(b)
    } else {
        a == b
    }
}

pub fn char_eq_exec(a: char, b: char, ci: bool) -> (r: bool)
    ensures
        r == char_eq(a, b, ci),
{
    if ci {
        lower_code(a) == lower_code(b)
    } else {
        a == b
    }
}

/// `pat` occurs in `s` starting exactly at position `i`.
pub open spec fn match_at(s: Seq<char>, pat: Seq<char>, i: int, ci: bool) -> bool {
    &&& 0 <= i
    &&& i + pat.len() <= s.len()
    &&& forall|k: int| 0 <= k < pat.len() ==> char_eq(s[i + k], #[trigger] pat[k], ci)
}

pub fn match_at_exec(s: &Vec<char>, pat: &Vec<char>, i: usize, ci: bool) -> (r: bool)
    ensures
        r == match_at(s@, pat@, i as int, ci),
{
    if i > s.len() || s.len() - i < pat.len() {
        return false;
    }
    let mut k: usize = 0;
    while k < pat.len()
        invariant
            0 <= k <= pat.len(),
            i + pat.len() <= s.len(),
            forall|q: int| 0 <= q < k ==> char_eq(s@[i + q], #[trigger] pat@[q], ci),
        decreases pat.len() - k,
    {
        if !char_eq_exec(s[i + k], pat[k], ci) {
            return false;
        }
        k += 1;
    }
    true
}

/// `pat` occurs somewhere in `s`.
pub open spec fn occurs(s: Seq<char>, pat: Seq<char>, ci: bool) -> bool {
    exists|i: int| match_at(s, pat, i, ci)
}

/// `pat` occurs entirely within the window `[lo, hi)` of `s`.
pub open spec fn occurs_in(s: Seq<char>, pat: Seq<char>, lo: int, hi: int, ci: bool) -> bool {
    exists|p: int| lo <= p && p + pat.len() <= hi && match_at(s, pat, p, ci)
}

pub fn occurs_in_exec(s: &Vec<char>, pat: &Vec<char>, lo: usize, hi: usize, ci: bool) -> (r: bool)
    requires
        lo <= hi <= s@.len(),
    ensures
        r == occurs_in(s@, pat@, lo as int, hi as int, ci),
{
    let mut p: usize = lo;
    while p <= hi && hi - p >= pat.len()
        invariant
            lo <= p <= hi + 1,
            lo <= hi <= s@.len(),
            forall|q: int|
                lo <= q < p ==> !(q + pat@.len() <= hi && match_at(s@, pat@, q, ci)),
        decreases hi - p,
    {
        if match_at_exec(s, pat, p, ci) {
            proof {
                assert(lo <= p as int && p as int + pat@.len() <= hi as int && match_at(
                    s@,
                    pat@,
                    p as int,
                    ci,
                ));
            }
            return true;
        }
        p += 1;
    }
    proof {
        assert forall|q: int| lo <= q implies !(q + pat@.len() <= hi && match_at(
            s@,
            pat@,
            q,
            ci,
        )) by {
            if q >= p {
                assert(q + pat@.len() > hi);
            }
        }
    }
    false
}

/// Position of the first occurrence of `pat` in `s` at or after `from`.
pub open spec fn find_from(s: Seq<char>, pat: Seq<char>, from: int, ci: bool) -> Option<int>
    decreases s.len() - from,
    when 0 <= from <= s.len()
{
    if from + pat.len() > s.len() {
        None
    } else if match_at(s, pat, from, ci) {
        Some(from)
    } else {
        find_from(s, pat, from + 1, ci)
    }
}

/// Any position `find_from` reports carries a match there, no earlier one,
/// and lies within bounds.
pub proof fn lemma_find_from(s: Seq<char>, pat: Seq<char>, from: int, ci: bool)
    requires
        0 <= from <= s.len(),
    ensures
        find_from(s, pat, from, ci) matches Some(j) ==> from <= j && j + pat.len() <= s.len()
            && match_at(s, pat, j, ci),
        find_from(s, pat, from, ci) is None ==> forall|q: int|
            from <= q ==> !match_at(s, pat, q, ci),
    decreases s.len() - from,
{
    if from + pat.len() > s.len() {
        assert forall|q: int| from <= q implies !match_at(s, pat, q, ci) by {}
    } else if match_at(s, pat, from, ci) {
    } else {
        lemma_find_from(s, pat, from + 1, ci);
    }
}

pub fn find_exec(s: &Vec<char>, pat: &Vec<char>, from: usize, ci: bool) -> (r: Option<usize>)
    requires
        from <= s@.len(),
    ensures
        r matches Some(j) ==> find_from(s@, pat@, from as int, ci) == Some(j as int),
        r is None ==> find_from(s@, pat@, from as int, ci) is None,
{
    let mut p: usize = from;
    while p <= s.len() && s.len() - p >= pat.len()
        invariant
            from <= p <= s@.len(),
            find_from(s@, pat@, from as int, ci) == find_from(s@, pat@, p as int, ci),
        decreases s@.len() - p,
    {
        if match_at_exec(s, pat, p, ci) {
            return Some(p);
        }
        proof {
            assert(p as int + pat@.len() <= s@.len());
        }
        p += 1;
    }
    proof {
        assert(find_from(s@, pat@, p as int, ci) is None);
    }
    None
}

/// Position of the first occurrence of the character `c` at or after `from`.
pub open spec fn find_ch(s: Seq<char>, c: char, from: int) -> Option<int>
    decreases s.len() - from,
    when 0 <= from <= s.len()
{
    if from >= s.len() {
        None
    } else if s[from] == c {
        Some(from)
    } else {
        find_ch(s, c, from + 1)
    }
}

pub proof fn lemma_find_ch(s: Seq<char>, c: char, from: int)
    requires
        0 <= from <= s.len(),
    ensures
        find_ch(s, c, from) matches Some(j) ==> from <= j < s.len() && s[j] == c && forall|q: int|
            from <= q < j ==> s[q] != c,
        find_ch(s, c, from) is None ==> forall|q: int| from <= q < s.len() ==> s[q] != c,
    decreases s.len() - from,
{
    if from >= s.len() {
    } else if s[from] == c {
    } else {
        lemma_find_ch(s, c, from + 1);
    }
}

/// `find_ch` reports exactly the given position when it matches and nothing
/// earlier does.
pub proof fn lemma_find_ch_exact(s: Seq<char>, c: char, from: int, j: int)
    requires
        0 <= from <= j < s.len(),
        s[j] == c,
        forall|q: int| from <= q < j ==> s[q] != c,
    ensures
        find_ch(s, c, from) == Some(j),
    decreases j - from,
{
    if from < j {
        lemma_find_ch_exact(s, c, from + 1, j);
    }
}

/// `find_from` reports exactly the given position when it matches and
/// nothing earlier does.
pub proof fn lemma_find_from_exact(s: Seq<char>, pat: Seq<char>, from: int, j: int, ci: bool)
    requires
        0 <= from <= j,
        j + pat.len() <= s.len(),
        match_at(s, pat, j, ci),
        forall|q: int| from <= q < j ==> !match_at(s, pat, q, ci),
    ensures
        find_from(s, pat, from, ci) == Some(j),
    decreases j - from,
{
    if from < j {
        lemma_find_from_exact(s, pat, from + 1, j, ci);
    }
}

pub fn find_ch_exec(s: &Vec<char>, c: char, from: usize) -> (r: Option<usize>)
    requires
        from <= s@.len(),
    ensures
        r matches Some(j) ==> find_ch(s@, c, from as int) == Some(j as int),
        r is None ==> find_ch(s@, c, from as int) is None,
{
    let mut p: usize = from;
    while p < s.len()
        invariant
            from <= p <= s@.len(),
            find_ch(s@, c, from as int) == find_ch(s@, c, p as int),
        decreases s@.len() - p,
    {
        if s[p] == c {
            return Some(p);
        }
        p += 1;
    }
    None
}

/// Appends every character of `xs` to `out`.
pub fn push_all(out: &mut Vec<char>, xs: &Vec<char>)
    ensures
        final(out)@ == old(out)@ + xs@,
{
    let mut k: usize = 0;
    while k < xs.len()
        invariant
            0 <= k <= xs@.len(),
            out@ == old(out)@ + xs@.take(k as int),
        decreases xs@.len() - k,
    {
        out.push(xs[k]);
        proof {
            assert(out@ =~= old(out)@ + xs@.take(k + 1));
        }
        k += 1;
    }
    proof {
        assert(out@ =~= old(out)@ + xs@);
    }
}

/// Result of replacing, left to right and without overlap, every occurrence
/// of `pat` in `s` at or after position `i` by `to`.
pub open spec fn replace_from(s: Seq<char>, pat: Seq<char>, to: Seq<char>, i: int) -> Seq<char>
    decreases s.len() - i,
    when 0 <= i <= s.len() && pat.len() >= 1
{
    if i >= s.len() {
        Seq::empty()
    } else if match_at(s, pat, i, false) {
        to + replace_from(s, pat, to, i + pat.len())
    } else {
        seq![s[i]] + replace_from(s, pat, to, i + 1)
    }
}

pub open spec fn replace_seq(s: Seq<char>, pat: Seq<char>, to: Seq<char>) -> Seq<char> {
    replace_from(s, pat, to, 0)
}

pub fn replace_all(s: &Vec<char>, pat: &Vec<char>, to: &Vec<char>) -> (r: Vec<char>)
    requires
        pat@.len() >= 1,
    ensures
        r@ == replace_seq(s@, pat@, to@),
{
    let mut out: Vec<char> = Vec::new();
    let mut i: usize = 0;
    while i < s.len()
        invariant
            0 <= i <= s@.len(),
            pat@.len() >= 1,
            replace_seq(s@, pat@, to@) == out@ + replace_from(s@, pat@, to@, i as int),
        decreases s@.len() - i,
    {
        if match_at_exec(s, pat, i, false) {
            let ghost prev = out@;
            let ghost rest = replace_from(s@, pat@, to@, i as int + pat@.len());
            push_all(&mut out, to);
            proof {
                assert((prev + to@) + rest =~= prev + (to@ + rest));
            }
            i += pat.len();
        } else {
            let ghost prev = out@;
            let ghost rest = replace_from(s@, pat@, to@, i as int + 1);
            out.push(s[i]);
            proof {
                assert(out@ =~= prev + seq![s@[i as int]]);
                assert((prev + seq![s@[i as int]]) + rest =~= prev + (seq![s@[i as int]] + rest));
            }
            i += 1;
        }
    }
    proof {
        assert(replace_from(s@, pat@, to@, i as int) == Seq::<char>::empty());
        assert(out@ + Seq::<char>::empty() =~= out@);
    }
    out
}

/// `s` with leading white space removed.
pub open spec fn ltrim(s: Seq<char>) -> Seq<char>
    decreases s.len(),
{
    if s.len() > 0 && is_wspace(s[0]) {
        ltrim(s.skip(1))
    } else {
        s
    }
}

/// `s` with trailing white space removed.
pub open spec fn rtrim(s: Seq<char>) -> Seq<char>
    decreases s.len(),
{
    if s.len() > 0 && is_wspace(s[s.len() - 1]) {
        rtrim(s.take(s.len() - 1))
    } else {
        s
    }
}

/// `s` with surrounding white space removed, as `str::trim` leaves it.
pub open spec fn trimmed(s: Seq<char>) -> Seq<char> {
    rtrim(ltrim(s))
}

pub fn trim_vec(s: &Vec<char>) -> (r: Vec<char>)
    ensures
        r@ == trimmed(s@),
{
    let mut a: usize = 0;
    proof {
        assert(s@.skip(0) =~= s@);
    }
    while a < s.len() && is_wspace_char(s[a])
        invariant
            0 <= a <= s@.len(),
            ltrim(s@) == ltrim(s@.skip(a as int)),
        decreases s@.len() - a,
    {
        proof {
            assert(s@.skip(a as int)[0] == s@[a as int]);
            assert(s@.skip(a as int).skip(1) =~= s@.skip(a as int + 1));
        }
        a += 1;
    }
    proof {
        if a < s@.len() {
            assert(ltrim(s@.skip(a as int)) == s@.skip(a as int));
        } else {
            assert(s@.skip(a as int) =~= Seq::<char>::empty());
            assert(ltrim(s@.skip(a as int)) == s@.skip(a as int));
        }
        assert(s@.skip(a as int) =~= s@.subrange(a as int, s@.len() as int));
    }
    let mut b: usize = s.len();
    while b > a && is_wspace_char(s[b - 1])
        invariant
            a <= b <= s@.len(),
            rtrim(s@.skip(a as int)) == rtrim(s@.subrange(a as int, b as int)),
        decreases b,
    {
        proof {
            let t = s@.subrange(a as int, b as int);
            assert(t[t.len() - 1] == s@[b as int - 1]);
            assert(t.take(t.len() - 1) =~= s@.subrange(a as int, b as int - 1));
        }
        b -= 1;
    }
    proof {
        let t = s@.subrange(a as int, b as int);
        if b == a {
            assert(t =~= Seq::<char>::empty());
        }
        assert(rtrim(t) == t);
    }
    let mut out: Vec<char> = Vec::new();
    let mut k: usize = a;
    while k < b
        invariant
            a <= k <= b <= s@.len(),
            out@ == s@.subrange(a as int, k as int),
        decreases b - k,
    {
        out.push(s[k]);
        proof {
            assert(out@ =~= s@.subrange(a as int, k as int + 1));
        }
        k += 1;
    }
    out
}

/// After `ltrim` nothing white leads the sequence.
pub proof fn lemma_ltrim_head(s: Seq<char>)
    ensures
        ltrim(s).len() > 0 ==> !is_wspace(ltrim(s)[0]),
    decreases s.len(),
{
    if s.len() > 0 && is_wspace(s[0]) {
        lemma_ltrim_head(s.skip(1));
    }
}

/// After `rtrim` nothing white trails the sequence, and its head is the
/// input's head.
pub proof fn lemma_rtrim_props(s: Seq<char>)
    ensures
        rtrim(s).len() > 0 ==> !is_wspace(rtrim(s)[rtrim(s).len() - 1]),
        rtrim(s).len() > 0 ==> s.len() > 0 && rtrim(s)[0] == s[0],
    decreases s.len(),
{
    if s.len() > 0 && is_wspace(s[s.len() - 1]) {
        lemma_rtrim_props(s.take(s.len() - 1));
    }
}

/// Leading-trim removes a prefix: what remains are the input's characters,
/// shifted left by the number removed.
pub proof fn lemma_ltrim_shift(s: Seq<char>)
    ensures
        ltrim(s).len() <= s.len(),
        forall|k: int|
            0 <= k < ltrim(s).len() ==> ltrim(s)[k] == s[k + s.len() - ltrim(s).len()],
    decreases s.len(),
{
    if s.len() > 0 && is_wspace(s[0]) {
        lemma_ltrim_shift(s.skip(1));
        assert forall|k: int| 0 <= k < ltrim(s).len() implies ltrim(s)[k] == s[k + s.len()
            - ltrim(s).len()] by {
            assert(ltrim(s)[k] == s.skip(1)[k + (s.len() - 1) - ltrim(s).len()]);
        }
    }
}

/// Trailing-trim keeps a prefix of the input.
pub proof fn lemma_rtrim_prefix(s: Seq<char>)
    ensures
        rtrim(s).len() <= s.len(),
        forall|k: int| 0 <= k < rtrim(s).len() ==> rtrim(s)[k] == s[k],
    decreases s.len(),
{
    if s.len() > 0 && is_wspace(s[s.len() - 1]) {
        lemma_rtrim_prefix(s.take(s.len() - 1));
        assert forall|k: int| 0 <= k < rtrim(s).len() implies rtrim(s)[k] == s[k] by {
            assert(rtrim(s)[k] == s.take(s.len() - 1)[k]);
        }
    }
}

/// Trimming is idempotent.
pub proof fn lemma_trimmed_idem(s: Seq<char>)
    ensures
        trimmed(trimmed(s)) == trimmed(s),
{
    let x = trimmed(s);
    lemma_ltrim_head(s);
    lemma_rtrim_props(ltrim(s));
    if x.len() > 0 {
        assert(!is_wspace(x[0]));
        assert(ltrim(x) == x);
        assert(!is_wspace(x[x.len() - 1]));
        assert(rtrim(x) == x);
    } else {
        assert(ltrim(x) == x);
        assert(rtrim(x) == x);
    }
}

/// Replacement is the identity on any part of `s` where the pattern never
/// occurs.
pub proof fn lemma_replace_id(s: Seq<char>, pat: Seq<char>, to: Seq<char>, i: int)
    requires
        0 <= i <= s.len(),
        pat.len() >= 1,
        !occurs(s, pat, false),
    ensures
        replace_from(s, pat, to, i) == s.subrange(i, s.len() as int),
    decreases s.len() - i,
{
    if i >= s.len() {
        assert(s.subrange(i, s.len() as int) =~= Seq::<char>::empty());
    } else {
        assert(!match_at(s, pat, i, false));
        lemma_replace_id(s, pat, to, i + 1);
        assert(seq![s[i]] + s.subrange(i + 1, s.len() as int) =~= s.subrange(i, s.len() as int));
    }
}

/// `s` with every leading occurrence of the character `c` removed.
pub open spec fn ltrim_ch(s: Seq<char>, c: char) -> Seq<char>
    decreases s.len(),
{
    if s.len() > 0 && s[0] == c {
        ltrim_ch(s.skip(1), c)
    } else {
        s
    }
}

/// `s` with every trailing occurrence of the character `c` removed.
pub open spec fn rtrim_ch(s: Seq<char>, c: char) -> Seq<char>
    decreases s.len(),
{
    if s.len() > 0 && s[s.len() - 1] == c {
        rtrim_ch(s.take(s.len() - 1), c)
    } else {
        s
    }
}

/// Copy of `s` with every leading `lead` and every trailing `trail` removed,
/// in that order.
pub fn trim_ch_vec(s: &Vec<char>, lead: char, trail: char) -> (r: Vec<char>)
    ensures
        r@ == rtrim_ch(ltrim_ch(s@, lead), trail),
{
    let mut a: usize = 0;
    proof {
        assert(s@.skip(0) =~= s@);
    }
    while a < s.len() && s[a] == lead
        invariant
            0 <= a <= s@.len(),
            ltrim_ch(s@, lead) == ltrim_ch(s@.skip(a as int), lead),
        decreases s@.len() - a,
    {
        proof {
            assert(s@.skip(a as int)[0] == s@[a as int]);
            assert(s@.skip(a as int).skip(1) =~= s@.skip(a as int + 1));
        }
        a += 1;
    }
    proof {
        if a < s@.len() {
            assert(ltrim_ch(s@.skip(a as int), lead) == s@.skip(a as int));
        } else {
            assert(s@.skip(a as int) =~= Seq::<char>::empty());
            assert(ltrim_ch(s@.skip(a as int), lead) == s@.skip(a as int));
        }
        assert(s@.skip(a as int) =~= s@.subrange(a as int, s@.len() as int));
    }
    let mut b: usize = s.len();
    while b > a && s[b - 1] == trail
        invariant
            a <= b <= s@.len(),
            rtrim_ch(s@.skip(a as int), trail) == rtrim_ch(s@.subrange(a as int, b as int), trail),
        decreases b,
    {
        proof {
            let t = s@.subrange(a as int, b as int);
            assert(t[t.len() - 1] == s@[b as int - 1]);
            assert(t.take(t.len() - 1) =~= s@.subrange(a as int, b as int - 1));
        }
        b -= 1;
    }
    proof {
        let t = s@.subrange(a as int, b as int);
        if b == a {
            assert(t =~= Seq::<char>::empty());
        }
        assert(rtrim_ch(t, trail) == t);
    }
    let mut out: Vec<char> = Vec::new();
    let mut k: usize = a;
    while k < b
        invariant
            a <= k <= b <= s@.len(),
            out@ == s@.subrange(a as int, k as int),
        decreases b - k,
    {
        out.push(s[k]);
        proof {
            assert(out@ =~= s@.subrange(a as int, k as int + 1));
        }
        k += 1;
    }
    out
}

/// Copy of the range `[a, b)` of `s`.
pub fn subrange_vec(s: &Vec<char>, a: usize, b: usize) -> (r: Vec<char>)
    requires
        a <= b <= s@.len(),
    ensures
        r@ == s@.subrange(a as int, b as int),
{
    let mut out: Vec<char> = Vec::new();
    let mut k: usize = a;
    while k < b
        invariant
            a <= k <= b <= s@.len(),
            out@ == s@.subrange(a as int, k as int),
        decreases b - k,
    {
        out.push(s[k]);
        proof {
            assert(out@ =~= s@.subrange(a as int, k as int + 1));
        }
        k += 1;
    }
    out
}

pub open spec fn digit_char(d: int) -> char {
    if d == 0 {
        '0'
    } else if d == 1 {
        '1'
    } else if d == 2 {
        '2'
    } else if d == 3 {
        '3'
    } else if d == 4 {
        '4'
    } else if d == 5 {
        '5'
    } else if d == 6 {
        '6'
    } else if d == 7 {
        '7'
    } else if d == 8 {
        '8'
    } else {
        '9'
    }
}

fn digit_char_exec(d: usize) -> (c: char)
    requires
        d < 10,
    ensures
        c == digit_char(d as int),
{
    match d {
        0 => '0',
        1 => '1',
        2 => '2',
        3 => '3',
        4 => '4',
        5 => '5',
        6 => '6',
        7 => '7',
        8 => '8',
        _ => '9',
    }
}

/// Decimal rendering of a non-negative number, most significant digit first.
pub open spec fn dec_digits(n: int) -> Seq<char>
    decreases n,
    when n >= 0
{
    if 0 <= n < 10 {
        seq![digit_char(n)]
    } else {
        dec_digits(n / 10) + seq![digit_char(n % 10)]
    }
}

/// Appends the decimal rendering of `n` to `out`.
pub fn push_decimal(out: &mut Vec<char>, n: usize)
    ensures
        final(out)@ == old(out)@ + dec_digits(n as int),
    decreases n,
{
    if n < 10 {
        let d = digit_char_exec(n);
        out.push(d);
        proof {
            assert(out@ =~= old(out)@ + dec_digits(n as int));
        }
    } else {
        push_decimal(out, n / 10);
        let d = digit_char_exec(n % 10);
        out.push(d);
        proof {
            assert(out@ =~= old(out)@ + dec_digits(n as int));
        }
    }
}

/// Relies on `str::chars`: iterating a string slice yields exactly the
/// characters of its view, in order.
#[verifier::external_body]
pub(crate) fn chars_vec(s: &str) -> (r: Vec<char>)
    ensures
        r@ == s@,
{
    s.chars().collect()
}

/// Relies on `String`'s `FromIterator<char>` implementation: collecting
/// characters builds the string holding exactly those characters, in order.
#[verifier::external_body]
pub(crate) fn string_from_chars(v: &Vec<char>) -> (r: String)
    ensures
        r@ == v@,
{
    v.iter().collect()
}

/// Whether `pat` occurs anywhere in `s`.
pub fn contains_exec(s: &Vec<char>, pat: &Vec<char>, ci: bool) -> (r: bool)
    ensures
        r == occurs(s@, pat@, ci),
{
    let r = occurs_in_exec(s, pat, 0, s.len(), ci);
    proof {
        if occurs(s@, pat@, ci) {
            let i = choose|i: int| match_at(s@, pat@, i, ci);
            assert(0 <= i && i + pat@.len() <= s@.len() && match_at(s@, pat@, i, ci));
        }
    }
    r
}

/// Copy of `s` with surrounding white space removed.
pub fn trim_str(s: &str) -> (r: String)
    ensures
        r@ == trimmed(s@),
{
    let v = chars_vec(s);
    let t = trim_vec(&v);
    string_from_chars(&t)
}

/// Whether `s` holds nothing but white space.
pub fn trimmed_is_empty(s: &str) -> (r: bool)
    ensures
        r == (trimmed(s@).len() == 0),
{
    let v = chars_vec(s);
    let t = trim_vec(&v);
    t.len() == 0
}

/// Appends the characters of the string slice `s` to `out`.
pub fn push_str_chars(out: &mut Vec<char>, s: &str)
    ensures
        final(out)@ == old(out)@ + s@,
{
    let cs = chars_vec(s);
    push_all(out, &cs);
}

} // verus!

verus! {

/// A character and its code point determine one another; spelled out for the
/// characters the markup proofs reason about.
pub proof fn lemma_char_codes(c: char)
    ensures
        (c == '<') == (c as u32 == 60),
        (c == '>') == (c as u32 == 62),
        (c == '/') == (c as u32 == 47),
        (c == 'l') == (c as u32 == 108),
        (c == 'u') == (c as u32 == 117),
        (c == 'i') == (c as u32 == 105),
{
}

} // verus!
