//! Character-sequence utilities: the string operations that the dashboard
//! uses to format numbers and to walk script paths, over `Seq<char>` models.
use vstd::prelude::*;

verus! {

// ---------------------------------------------------------------------------
// Specifications
// ---------------------------------------------------------------------------

/// The ASCII digit for a value below ten.
pub open spec fn digit_char(d: nat) -> char {
    if d == 0 { '0' } else if d == 1 { '1' } else if d == 2 { '2' } else if d == 3 { '3' }
    else if d == 4 { '4' } else if d == 5 { '5' } else if d == 6 { '6' } else if d == 7 { '7' }
    else if d == 8 { '8' } else { '9' }
}

/// The decimal representation of a natural number, without leading zeros.
pub open spec fn decimal(n: nat) -> Seq<char>
    decreases n,
{
    if n < 10 {
        seq![digit_char(n)]
    } else {
        decimal(n / 10).push(digit_char(n % 10))
    }
}

/// `pat` occurs in `s` starting at position `i`.
pub open spec fn occurs_at(s: Seq<char>, pat: Seq<char>, i: int) -> bool {
    0 <= i && i + pat.len() <= s.len() && s.subrange(i, i + pat.len()) == pat
}

/// `pat` occurs somewhere in `s`.
pub open spec fn contains_seq(s: Seq<char>, pat: Seq<char>) -> bool {
    exists|i: int| occurs_at(s, pat, i)
}

/// `p` is a prefix of `s`.
pub open spec fn has_prefix(s: Seq<char>, p: Seq<char>) -> bool {
    p.len() <= s.len() && s.take(p.len() as int) == p
}

/// The first index at or after `i` where `c` stands in `s`, or -1.
pub open spec fn first_index_from(s: Seq<char>, c: char, i: int) -> int
    decreases s.len() - i,
{
    if i < 0 || i >= s.len() {
        -1
    } else if s[i] == c {
        i
    } else {
        first_index_from(s, c, i + 1)
    }
}

/// The first index where `c` stands in `s`, or -1.
pub open spec fn first_index_of(s: Seq<char>, c: char) -> int {
    first_index_from(s, c, 0)
}

/// The last index below `i` where `c` stands in `s`, or -1.
pub open spec fn last_index_before(s: Seq<char>, c: char, i: int) -> int
    decreases i,
{
    if i <= 0 || i > s.len() {
        -1
    } else if s[i - 1] == c {
        i - 1
    } else {
        last_index_before(s, c, i - 1)
    }
}

/// The last index where `c` stands in `s`, or -1.
pub open spec fn last_index_of(s: Seq<char>, c: char) -> int {
    last_index_before(s, c, s.len() as int)
}

/// Every occurrence of the non-empty pattern `pat` in `s`, taken from left to
/// right without overlap, replaced by `rep`.
pub open spec fn replace_all(s: Seq<char>, pat: Seq<char>, rep: Seq<char>) -> Seq<char>
    decreases s.len(),
{
    if pat.len() == 0 || s.len() < pat.len() {
        s
    } else if s.take(pat.len() as int) == pat {
        rep + replace_all(s.skip(pat.len() as int), pat, rep)
    } else {
        seq![s[0]] + replace_all(s.skip(1), pat, rep)
    }
}

/// `s` with every run of equal adjacent elements reduced to its first element.
pub open spec fn dedup<A>(s: Seq<A>) -> Seq<A>
    decreases s.len(),
{
    if s.len() <= 1 {
        s
    } else {
        let d = dedup(s.drop_last());
        if s.last() == s[s.len() - 2] {
            d
        } else {
            d.push(s.last())
        }
    }
}

/// No two neighbouring elements of `s` are equal.
pub open spec fn no_adjacent_duplicates<A>(s: Seq<A>) -> bool {
    forall|i: int, j: int| 0 <= i && j == i + 1 && j < s.len() ==> #[trigger] s[i] != #[trigger] s[j]
}

// ---------------------------------------------------------------------------
// Lemmas
// ---------------------------------------------------------------------------

/// The first and the last element survive deduplication, and the result is
/// never longer than its input.
pub proof fn lemma_dedup_ends<A>(s: Seq<A>)
    ensures
        dedup(s).len() <= s.len(),
        s.len() > 0 ==> dedup(s).len() > 0 && dedup(s).last() == s.last() && dedup(s)[0] == s[0],
    decreases s.len(),
{
    if s.len() > 1 {
        lemma_dedup_ends(s.drop_last());
    }
}

/// No two adjacent elements of a deduplicated sequence are equal, and each of
/// its elements comes from the input.
pub proof fn lemma_dedup_no_adjacent_duplicates<A>(s: Seq<A>)
    ensures
        no_adjacent_duplicates(dedup(s)),
        forall|k: int| 0 <= k < dedup(s).len() ==> s.contains(#[trigger] dedup(s)[k]),
    decreases s.len(),
{
    if s.len() > 1 {
        let t = s.drop_last();
        lemma_dedup_no_adjacent_duplicates(t);
        lemma_dedup_ends(t);
        let d = dedup(t);
        assert forall|k: int| 0 <= k < dedup(s).len() implies s.contains(#[trigger] dedup(s)[k]) by {
            if k < d.len() {
                assert(t.contains(d[k]));
                let j = choose|j: int| 0 <= j < t.len() && t[j] == d[k];
                assert(s[j] == d[k]);
            } else {
                assert(s[s.len() - 1] == dedup(s)[k]);
            }
        }
    } else if s.len() == 1 {
        assert(s[0] == dedup(s)[0]);
    }
}

/// Deduplication drops no value: every element of the input is still in the
/// result.
pub proof fn lemma_dedup_keeps_every_value<A>(s: Seq<A>)
    ensures
        forall|k: int| 0 <= k < s.len() ==> dedup(s).contains(#[trigger] s[k]),
    decreases s.len(),
{
    if s.len() > 1 {
        let t = s.drop_last();
        lemma_dedup_keeps_every_value(t);
        let d = dedup(t);
        assert forall|k: int| 0 <= k < s.len() implies dedup(s).contains(#[trigger] s[k]) by {
            if k < t.len() {
                assert(d.contains(t[k]));
                let j = choose|j: int| 0 <= j < d.len() && d[j] == t[k];
                assert(dedup(s)[j] == s[k]);
            } else if s.last() == s[s.len() - 2] {
                assert(d.contains(t[t.len() - 1]));
            } else {
                assert(dedup(s)[d.len() as int] == s[k]);
            }
        }
    } else if s.len() == 1 {
        assert(dedup(s)[0] == s[0]);
    }
}

proof fn lemma_first_index_bounds(s: Seq<char>, c: char, i: int)
    requires
        0 <= i,
    ensures
        first_index_from(s, c, i) == -1 || (i <= first_index_from(s, c, i) < s.len() && s[first_index_from(s, c, i)] == c),
        first_index_from(s, c, i) == -1 ==> forall|j: int| i <= j < s.len() && 0 <= j ==> s[j] != c,
        first_index_from(s, c, i) >= 0 ==> forall|j: int| i <= j < first_index_from(s, c, i) ==> s[j] != c,
    decreases s.len() - i,
{
    if 0 <= i < s.len() && s[i] != c {
        lemma_first_index_bounds(s, c, i + 1);
    }
}

/// The first index of `c` in `s`, when there is one, holds `c` and no earlier
/// position does; when there is none, `c` does not occur in `s`.
pub proof fn lemma_first_index_of(s: Seq<char>, c: char)
    ensures
        first_index_of(s, c) == -1 || (0 <= first_index_of(s, c) < s.len() && s[first_index_of(s, c)] == c),
        first_index_of(s, c) == -1 ==> forall|j: int| 0 <= j < s.len() ==> s[j] != c,
        forall|j: int| 0 <= j < first_index_of(s, c) ==> s[j] != c,
{
    lemma_first_index_bounds(s, c, 0);
}

proof fn lemma_last_index_bounds(s: Seq<char>, c: char, i: int)
    requires
        0 <= i <= s.len(),
    ensures
        last_index_before(s, c, i) == -1 || (0 <= last_index_before(s, c, i) < i && s[last_index_before(s, c, i)] == c),
        last_index_before(s, c, i) == -1 ==> forall|j: int| 0 <= j < i ==> s[j] != c,
        forall|j: int| last_index_before(s, c, i) < j < i ==> s[j] != c,
    decreases i,
{
    if i > 0 && s[i - 1] != c {
        lemma_last_index_bounds(s, c, i - 1);
    }
}

/// The last index of `c` in `s`, when there is one, holds `c` and no later
/// position does; when there is none, `c` does not occur in `s`.
pub proof fn lemma_last_index_of(s: Seq<char>, c: char)
    ensures
        last_index_of(s, c) == -1 || (0 <= last_index_of(s, c) < s.len() && s[last_index_of(s, c)] == c),
        last_index_of(s, c) == -1 ==> forall|j: int| 0 <= j < s.len() ==> s[j] != c,
        forall|j: int| last_index_of(s, c) < j < s.len() ==> s[j] != c,
{
    lemma_last_index_bounds(s, c, s.len() as int);
}

/// Removing a pattern that contains `c` cannot introduce `c`: when neither
/// `s` nor `rep` holds `c`, the replacement holds no `c` either.
pub proof fn lemma_replace_all_char_free(s: Seq<char>, pat: Seq<char>, rep: Seq<char>, c: char)
    requires
        forall|j: int| 0 <= j < s.len() ==> s[j] != c,
        forall|j: int| 0 <= j < rep.len() ==> rep[j] != c,
    ensures
        forall|j: int| 0 <= j < replace_all(s, pat, rep).len() ==> replace_all(s, pat, rep)[j] != c,
    decreases s.len(),
{
    if pat.len() == 0 || s.len() < pat.len() {
    } else if s.take(pat.len() as int) == pat {
        let t = s.skip(pat.len() as int);
        assert forall|j: int| 0 <= j < t.len() implies t[j] != c by {
            assert(t[j] == s[j + pat.len()]);
        }
        lemma_replace_all_char_free(t, pat, rep, c);
        let r = replace_all(t, pat, rep);
        assert forall|j: int| 0 <= j < (rep + r).len() implies (rep + r)[j] != c by {
            if j >= rep.len() {
                assert((rep + r)[j] == r[j - rep.len()]);
            }
        }
    } else {
        let t = s.skip(1);
        assert forall|j: int| 0 <= j < t.len() implies t[j] != c by {
            assert(t[j] == s[j + 1]);
        }
        lemma_replace_all_char_free(t, pat, rep, c);
        let r = replace_all(t, pat, rep);
        assert forall|j: int| 0 <= j < (seq![s[0]] + r).len() implies (seq![s[0]] + r)[j] != c by {
            if j >= 1 {
                assert((seq![s[0]] + r)[j] == r[j - 1]);
            }
        }
    }
}

// ---------------------------------------------------------------------------
// Executable operations
// ---------------------------------------------------------------------------

/// Appends a character to a `String` (std's `String::push`).
#[verifier::external_body]
fn string_push(s: &mut String, c: char)
    ensures
        final(s)@ == old(s)@.push(c),
{
    s.push(c);
}

/// The characters of a string slice.
pub fn chars_of(s: &str) -> (r: Vec<char>)
    ensures
        r@ == s@,
{
    let n = s.unicode_len();
    let mut r: Vec<char> = Vec::new();
    let mut i: usize = 0;
    while i < n
        invariant
            n == s@.len(),
            i <= n,
            r@ == s@.take(i as int),
        decreases n - i,
    {
        let c = s.get_char(i);
        r.push(c);
        assert(s@.take(i as int + 1) =~= s@.take(i as int).push(c));
        i = i + 1;
    }
    assert(s@.take(n as int) =~= s@);
    r
}

/// A `String` holding the given characters.
pub fn string_of(v: &Vec<char>) -> (r: String)
    ensures
        r@ == v@,
{
    let mut r = String::new();
    let mut i: usize = 0;
    while i < v.len()
        invariant
            i <= v.len(),
            r@ == v@.take(i as int),
        decreases v.len() - i,
    {
        string_push(&mut r, v[i]);
        assert(v@.take(i as int + 1) =~= v@.take(i as int).push(v@[i as int]));
        i = i + 1;
    }
    assert(v@.take(v.len() as int) =~= v@);
    r
}

/// Appends all of `src` to `dst`.
pub fn extend_chars(dst: &mut Vec<char>, src: &Vec<char>)
    ensures
        final(dst)@ == old(dst)@ + src@,
{
    let mut i: usize = 0;
    while i < src.len()
        invariant
            i <= src.len(),
            dst@ == old(dst)@ + src@.take(i as int),
        decreases src.len() - i,
    {
        dst.push(src[i]);
        assert(src@.take(i as int + 1) =~= src@.take(i as int).push(src@[i as int]));
        i = i + 1;
    }
    assert(src@.take(src.len() as int) =~= src@);
}

fn digit(d: u64) -> (c: char)
    requires
        d < 10,
    ensures
        c == digit_char(d as nat),
{
    if d == 0 { '0' } else if d == 1 { '1' } else if d == 2 { '2' } else if d == 3 { '3' }
    else if d == 4 { '4' } else if d == 5 { '5' } else if d == 6 { '6' } else if d == 7 { '7' }
    else if d == 8 { '8' } else { '9' }
}

/// Appends the decimal representation of `n` to `out`.
pub fn push_decimal(out: &mut Vec<char>, n: u64)
    ensures
        final(out)@ == old(out)@ + decimal(n as nat),
    decreases n,
{
    if n >= 10 {
        push_decimal(out, n / 10);
    }
    out.push(digit(n % 10));
}

/// Whether `pat` occurs in `s` at position `i`.
pub fn occurs_at_exec(s: &Vec<char>, pat: &Vec<char>, i: usize) -> (r: bool)
    ensures
        r == occurs_at(s@, pat@, i as int),
{
    if i > s.len() || pat.len() > s.len() - i {
        return false;
    }
    let mut k: usize = 0;
    while k < pat.len()
        invariant
            i + pat.len() <= s.len(),
            k <= pat.len(),
            forall|j: int| 0 <= j < k ==> s@[i + j] == pat@[j],
        decreases pat.len() - k,
    {
        if s[i + k] != pat[k] {
            assert(s@.subrange(i as int, i + pat.len())[k as int] != pat@[k as int]);
            return false;
        }
        k = k + 1;
    }
    assert(s@.subrange(i as int, i + pat.len()) =~= pat@);
    true
}

/// Whether `pat` occurs anywhere in `s`.
pub fn contains_exec(s: &Vec<char>, pat: &Vec<char>) -> (r: bool)
    ensures
        r == contains_seq(s@, pat@),
{
    if pat.len() == 0 {
        assert(s@.subrange(0, 0) =~= pat@);
        assert(occurs_at(s@, pat@, 0));
        return true;
    }
    if pat.len() > s.len() {
        return false;
    }
    let last = s.len() - pat.len();
    let mut i: usize = 0;
    while i <= last
        invariant
            pat.len() > 0,
            last == s.len() - pat.len(),
            i <= last + 1,
            forall|j: int| 0 <= j < i ==> !occurs_at(s@, pat@, j),
        decreases last + 1 - i,
    {
        if occurs_at_exec(s, pat, i) {
            return true;
        }
        i = i + 1;
    }
    assert forall|j: int| !occurs_at(s@, pat@, j) by {
        if 0 <= j && j + pat.len() <= s.len() {
            assert(j <= last);
        }
    }
    false
}

/// Whether `p` is a prefix of `s`.
pub fn has_prefix_exec(s: &Vec<char>, p: &Vec<char>) -> (r: bool)
    ensures
        r == has_prefix(s@, p@),
{
    let r = occurs_at_exec(s, p, 0);
    assert(s@.subrange(0, p@.len() as int) =~= s@.take(p@.len() as int));
    r
}

/// The first position of `c` in `s`.
pub fn find_char(s: &Vec<char>, c: char) -> (r: Option<usize>)
    ensures
        match r {
            Some(k) => k as int == first_index_of(s@, c) && k < s@.len(),
            None => first_index_of(s@, c) == -1,
        },
{
    proof {
        lemma_first_index_of(s@, c);
    }
    let mut i: usize = 0;
    while i < s.len()
        invariant
            i <= s.len(),
            first_index_from(s@, c, i as int) == first_index_of(s@, c),
        decreases s.len() - i,
    {
        if s[i] == c {
            return Some(i);
        }
        i = i + 1;
    }
    None
}

/// The last position of `c` in `s`.
pub fn rfind_char(s: &Vec<char>, c: char) -> (r: Option<usize>)
    ensures
        match r {
            Some(k) => k as int == last_index_of(s@, c) && k < s@.len(),
            None => last_index_of(s@, c) == -1,
        },
{
    proof {
        lemma_last_index_of(s@, c);
    }
    let mut i: usize = s.len();
    while i > 0
        invariant
            i <= s.len(),
            last_index_before(s@, c, i as int) == last_index_of(s@, c),
        decreases i,
    {
        if s[i - 1] == c {
            return Some(i - 1);
        }
        i = i - 1;
    }
    None
}

/// The elements of `s` from `start` up to (not including) `end`.
pub fn slice_chars(s: &Vec<char>, start: usize, end: usize) -> (r: Vec<char>)
    requires
        start <= end <= s.len(),
    ensures
        r@ == s@.subrange(start as int, end as int),
{
    let mut r: Vec<char> = Vec::new();
    let mut i: usize = start;
    while i < end
        invariant
            start <= i <= end <= s.len(),
            r@ == s@.subrange(start as int, i as int),
        decreases end - i,
    {
        r.push(s[i]);
        assert(s@.subrange(start as int, i as int + 1) =~= s@.subrange(start as int, i as int).push(s@[i as int]));
        i = i + 1;
    }
    r
}

/// `s` with every non-overlapping occurrence of the non-empty `pat`, from
/// left to right, replaced by `rep`.
pub fn replace_all_exec(s: &Vec<char>, pat: &Vec<char>, rep: &Vec<char>) -> (r: Vec<char>)
    requires
        pat@.len() > 0,
    ensures
        r@ == replace_all(s@, pat@, rep@),
{
    let mut out: Vec<char> = Vec::new();
    let mut i: usize = 0;
    assert(s@.skip(0) =~= s@);
    assert(out@ + replace_all(s@, pat@, rep@) =~= replace_all(s@, pat@, rep@));
    while i < s.len()
        invariant
            pat@.len() > 0,
            i <= s.len(),
            out@ + replace_all(s@.skip(i as int), pat@, rep@) == replace_all(s@, pat@, rep@),
        decreases s.len() - i,
    {
        let ghost rest = s@.skip(i as int);
        if occurs_at_exec(s, pat, i) {
            assert(rest.take(pat@.len() as int) =~= s@.subrange(i as int, i + pat@.len()));
            assert(rest.skip(pat@.len() as int) =~= s@.skip(i + pat@.len()));
            assert(out@ + rep@ + replace_all(s@.skip(i + pat@.len()), pat@, rep@)
                =~= out@ + (rep@ + replace_all(rest.skip(pat@.len() as int), pat@, rep@)));
            extend_chars(&mut out, rep);
            i = i + pat.len();
        } else {
            proof {
                assert(rest.skip(1) =~= s@.skip(i + 1));
                if rest.len() >= pat@.len() {
                    assert(rest.take(pat@.len() as int) != pat@) by {
                        assert(rest.take(pat@.len() as int) =~= s@.subrange(i as int, i + pat@.len()));
                    }
                } else {
                    assert(rest.skip(1).len() < pat@.len());
                    assert(rest =~= seq![rest[0]] + rest.skip(1));
                }
            }
            assert(out@.push(s@[i as int]) + replace_all(s@.skip(i + 1), pat@, rep@)
                =~= out@ + (seq![rest[0]] + replace_all(rest.skip(1), pat@, rep@)));
            out.push(s[i]);
            i = i + 1;
        }
    }
    assert(s@.skip(s.len() as int) =~= Seq::<char>::empty());
    assert(out@ + Seq::<char>::empty() =~= out@);
    out
}

/// `v` with every run of equal adjacent strings reduced to its first string.
pub fn dedup_strings(v: Vec<String>) -> (r: Vec<String>)
    ensures
        r@.map_values(|s: String| s@) == dedup(v@.map_values(|s: String| s@)),
{
    let ghost views = v@.map_values(|s: String| s@);
    let mut out: Vec<String> = Vec::new();
    let mut i: usize = 0;
    while i < v.len()
        invariant
            i <= v.len(),
            views == v@.map_values(|s: String| s@),
            out@.map_values(|s: String| s@) == dedup(views.take(i as int)),
        decreases v.len() - i,
    {
        let ghost t = views.take(i as int + 1);
        assert(t.drop_last() =~= views.take(i as int));
        proof {
            lemma_dedup_ends(views.take(i as int));
        }
        if i == 0 {
            assert(t.len() == 1);
            out.push(v[i].clone());
            assert(out@.map_values(|s: String| s@) =~= t);
        } else {
            let n = out.len();
            let same = out[n - 1] == v[i];
            assert(t[t.len() - 2] == views.take(i as int).last());
            if !same {
                let ghost before = out@.map_values(|s: String| s@);
                out.push(v[i].clone());
                assert(out@.map_values(|s: String| s@) =~= before.push(views[i as int]));
            }
        }
        i = i + 1;
    }
    assert(views.take(v.len() as int) =~= views);
    out
}

} // verus!
