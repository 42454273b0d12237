//! Character-sequence primitives shared by the normalizer: substring
//! search, string equality, lexicographic order, and decimal rendering.

use vstd::prelude::*;
use vstd::string::StrSliceExecFns;
use vstd::string::StringExecFns;

verus! {

/// The pattern `p` occurs in `s` starting at position `i`.
pub open spec fn sub_at(s: Seq<char>, p: Seq<char>, i: int) -> bool {
    &&& 0 <= i
    &&& i + p.len() <= s.len()
    &&& forall|j: int| 0 <= j < p.len() ==> s[i + j] == p[j]
}

/// The pattern `p` occurs somewhere in `s`.
#[verifier::opaque]
pub open spec fn has_sub(s: Seq<char>, p: Seq<char>) -> bool {
    exists|i: int| sub_at(s, p, i)
}

/// Every character of `s` belongs to the set `cs`.
pub open spec fn chars_within(s: Seq<char>, cs: Set<char>) -> bool {
    forall|k: int| 0 <= k < s.len() ==> cs.contains(s[k])
}

/// A pattern holding a character outside the alphabet of `s` cannot
/// occur in `s`.
pub proof fn lemma_no_sub_outside(s: Seq<char>, p: Seq<char>, cs: Set<char>, pj: int)
    requires
        chars_within(s, cs),
        0 <= pj < p.len(),
        !cs.contains(p[pj]),
    ensures
        !has_sub(s, p),
{
    reveal(has_sub);
    if has_sub(s, p) {
        let i = choose|i: int| sub_at(s, p, i);
        assert(s[i + pj] == p[pj]);
    }
}

/// A pattern longer than the text cannot occur in it.
pub proof fn lemma_no_sub_longer(s: Seq<char>, p: Seq<char>)
    requires
        p.len() > s.len(),
    ensures
        !has_sub(s, p),
{
    reveal(has_sub);
    if has_sub(s, p) {
        let i = choose|i: int| sub_at(s, p, i);
    }
}

fn match_at(s: &str, p: &str, i: usize, n: usize, m: usize) -> (r: bool)
    requires
        n == s@.len(),
        m == p@.len(),
        i + m <= n,
    ensures
        r == sub_at(s@, p@, i as int),
{
    let mut j: usize = 0;
    while j < m
        invariant
            j <= m,
            n == s@.len(),
            m == p@.len(),
            i + m <= n,
            forall|jj: int| 0 <= jj < j ==> s@[i + jj] == p@[jj],
        decreases m - j,
    {
        if s.get_char(i + j) != p.get_char(j) {
            assert(!sub_at(s@, p@, i as int));
            return false;
        }
        j = j + 1;
    }
    assert(sub_at(s@, p@, i as int));
    true
}

/// Whether the pattern `p` occurs in `s`, by characters.
pub fn find_sub(s: &str, p: &str) -> (r: bool)
    ensures
        r == has_sub(s@, p@),
{
    let n = s.unicode_len();
    let m = p.unicode_len();
    if m > n {
        proof {
            lemma_no_sub_longer(s@, p@);
        }
        return false;
    }
    let mut i: usize = 0;
    while i <= n - m
        invariant
            m <= n,
            n == s@.len(),
            m == p@.len(),
            i <= n - m + 1,
            forall|k: int| 0 <= k < i ==> !sub_at(s@, p@, k),
        decreases n - m - i + 1,
    {
        if match_at(s, p, i, n, m) {
            assert(has_sub(s@, p@)) by {
                reveal(has_sub);
            }
            return true;
        }
        i = i + 1;
    }
    assert forall|k: int| !sub_at(s@, p@, k) by {
        if 0 <= k < i {
        } else if k > n - m {
            assert(!sub_at(s@, p@, k));
        }
    }
    assert(!has_sub(s@, p@)) by {
        reveal(has_sub);
    }
    false
}

/// Lexicographic order on character sequences, by Unicode scalar
/// value; for valid UTF-8 this agrees with the byte order of the
/// encoded strings.
pub open spec fn lex_le(a: Seq<char>, b: Seq<char>) -> bool
    decreases a.len(),
{
    if a.len() == 0 {
        true
    } else if b.len() == 0 {
        false
    } else if (a[0] as u32) < (b[0] as u32) {
        true
    } else if (b[0] as u32) < (a[0] as u32) {
        false
    } else {
        lex_le(a.subrange(1, a.len() as int), b.subrange(1, b.len() as int))
    }
}

/// Strict lexicographic order.
pub open spec fn lex_lt(a: Seq<char>, b: Seq<char>) -> bool {
    lex_le(a, b) && a != b
}

/// The order is total.
pub proof fn lemma_lex_le_total(a: Seq<char>, b: Seq<char>)
    ensures
        lex_le(a, b) || lex_le(b, a),
    decreases a.len(),
{
    if a.len() > 0 && b.len() > 0 && !((a[0] as u32) < (b[0] as u32)) && !((b[0] as u32) < (
    a[0] as u32)) {
        lemma_lex_le_total(a.subrange(1, a.len() as int), b.subrange(1, b.len() as int));
    }
}

/// The order is antisymmetric.
pub proof fn lemma_lex_le_antisym(a: Seq<char>, b: Seq<char>)
    requires
        lex_le(a, b),
        lex_le(b, a),
    ensures
        a == b,
    decreases a.len(),
{
    if a.len() == 0 {
        assert(b.len() == 0);
        assert(a =~= b);
    } else {
        assert(b.len() > 0);
        assert(!((a[0] as u32) < (b[0] as u32)));
        assert(!((b[0] as u32) < (a[0] as u32)));
        assert(a[0] as u32 == b[0] as u32);
        vstd::utf8::char_u32_cast(a[0], a[0] as u32);
        vstd::utf8::char_u32_cast(b[0], b[0] as u32);
        assert(a[0] == b[0]);
        let at = a.subrange(1, a.len() as int);
        let bt = b.subrange(1, b.len() as int);
        lemma_lex_le_antisym(at, bt);
        assert(a.len() == b.len());
        assert forall|i: int| 0 <= i < a.len() implies a[i] == b[i] by {
            if i > 0 {
                assert(a[i] == at[i - 1]);
                assert(b[i] == bt[i - 1]);
            }
        }
        assert(a =~= b);
    }
}

/// The order is transitive.
pub proof fn lemma_lex_le_trans(a: Seq<char>, b: Seq<char>, c: Seq<char>)
    requires
        lex_le(a, b),
        lex_le(b, c),
    ensures
        lex_le(a, c),
    decreases a.len(),
{
    if a.len() == 0 {
    } else if b.len() == 0 {
        assert(false);
    } else if c.len() == 0 {
        assert(false);
    } else if (a[0] as u32) < (b[0] as u32) {
        assert((a[0] as u32) < (c[0] as u32) || a[0] as u32 == c[0] as u32 || (c[0] as u32) < (
        a[0] as u32));
    } else if (b[0] as u32) < (c[0] as u32) {
        assert(a[0] as u32 == b[0] as u32);
    } else {
        assert(a[0] as u32 == b[0] as u32 && b[0] as u32 == c[0] as u32);
        vstd::utf8::char_u32_cast(a[0], a[0] as u32);
        vstd::utf8::char_u32_cast(b[0], b[0] as u32);
        vstd::utf8::char_u32_cast(c[0], c[0] as u32);
        assert(a[0] == b[0] && b[0] == c[0]);
        lemma_lex_le_trans(
            a.subrange(1, a.len() as int),
            b.subrange(1, b.len() as int),
            c.subrange(1, c.len() as int),
        );
    }
}

/// Strict order is transitive.
pub proof fn lemma_lex_lt_trans(a: Seq<char>, b: Seq<char>, c: Seq<char>)
    requires
        lex_lt(a, b),
        lex_lt(b, c),
    ensures
        lex_lt(a, c),
{
    lemma_lex_le_trans(a, b, c);
    if a == c {
        lemma_lex_le_antisym(a, b);
    }
}

/// Dropping a shared prefix does not change the order.
proof fn lemma_lex_le_skip(a: Seq<char>, b: Seq<char>, i: int)
    requires
        0 <= i <= a.len(),
        i <= b.len(),
        forall|j: int| 0 <= j < i ==> a[j] == b[j],
    ensures
        lex_le(a, b) == lex_le(a.subrange(i, a.len() as int), b.subrange(i, b.len() as int)),
    decreases i,
{
    if i == 0 {
        assert(a.subrange(0, a.len() as int) =~= a);
        assert(b.subrange(0, b.len() as int) =~= b);
    } else {
        assert(a.len() > 0 && b.len() > 0 && a[0] == b[0]);
        let at = a.subrange(1, a.len() as int);
        let bt = b.subrange(1, b.len() as int);
        lemma_lex_le_skip(at, bt, i - 1);
        assert(at.subrange(i - 1, at.len() as int) =~= a.subrange(i, a.len() as int));
        assert(bt.subrange(i - 1, bt.len() as int) =~= b.subrange(i, b.len() as int));
    }
}

/// Compare two string slices in lexicographic order.
pub fn lex_le_impl(a: &str, b: &str) -> (r: bool)
    ensures
        r == lex_le(a@, b@),
{
    let na = a.unicode_len();
    let nb = b.unicode_len();
    let n = if na < nb {
        na
    } else {
        nb
    };
    let mut i: usize = 0;
    while i < n
        invariant
            na == a@.len(),
            nb == b@.len(),
            n == if na < nb {
                na
            } else {
                nb
            },
            i <= n,
            forall|j: int| 0 <= j < i ==> a@[j] == b@[j],
        decreases n - i,
    {
        let ca = a.get_char(i);
        let cb = b.get_char(i);
        if (ca as u32) < (cb as u32) {
            proof {
                lemma_lex_le_skip(a@, b@, i as int);
            }
            return true;
        }
        if (cb as u32) < (ca as u32) {
            proof {
                lemma_lex_le_skip(a@, b@, i as int);
            }
            return false;
        }
        proof {
            if ca as u32 == cb as u32 {
                assert(ca == cb);
            }
        }
        i = i + 1;
    }
    proof {
        lemma_lex_le_skip(a@, b@, n as int);
    }
    na <= nb
}

/// Position of the first space in `s`, or `s.len()` if there is none.
pub open spec fn space_pos(s: Seq<char>) -> int
    decreases s.len(),
{
    if s.len() == 0 {
        0
    } else if s[0] == ' ' {
        0
    } else {
        1 + space_pos(s.subrange(1, s.len() as int))
    }
}

proof fn lemma_space_pos(s: Seq<char>)
    ensures
        0 <= space_pos(s) <= s.len(),
        space_pos(s) < s.len() ==> s[space_pos(s)] == ' ',
        forall|k: int| 0 <= k < space_pos(s) ==> s[k] != ' ',
    decreases s.len(),
{
    if s.len() > 0 && s[0] != ' ' {
        let t = s.subrange(1, s.len() as int);
        lemma_space_pos(t);
        assert forall|k: int| 0 <= k < space_pos(s) implies s[k] != ' ' by {
            if k > 0 {
                assert(s[k] == t[k - 1]);
            }
        }
    }
}

/// The fields of `s` split on single spaces, empty fields kept.
pub open spec fn split_spaces(s: Seq<char>) -> Seq<Seq<char>>
    decreases s.len(),
{
    let p = space_pos(s);
    if 0 <= p < s.len() {
        seq![s.subrange(0, p)] + split_spaces(s.subrange(p + 1, s.len() as int))
    } else {
        seq![s]
    }
}

/// Split a string slice on single spaces, empty fields kept.
pub fn split_ws(s: &str) -> (r: Vec<String>)
    ensures
        r@.len() == split_spaces(s@).len(),
        forall|i: int| 0 <= i < r@.len() ==> r@[i]@ == split_spaces(s@)[i],
    decreases s@.len(),
{
    proof {
        lemma_space_pos(s@);
    }
    let n = s.unicode_len();
    let mut p: usize = 0;
    while p < n && s.get_char(p) != ' '
        invariant
            n == s@.len(),
            p <= n,
            forall|k: int| 0 <= k < p ==> s@[k] != ' ',
        decreases n - p,
    {
        p = p + 1;
    }
    proof {
        // both p and space_pos find the first space, so they agree
        let q = space_pos(s@);
        if p < q {
            assert(s@[p as int] == ' ');
        } else if q < p {
            assert(s@[q] != ' ');
        }
    }
    let mut out: Vec<String> = Vec::new();
    if p == n {
        out.push(s.to_owned());
        proof {
            assert(split_spaces(s@) =~= seq![s@]);
        }
        return out;
    }
    let first = s.substring_char(0, p).to_owned();
    let rest = s.substring_char(p + 1, n);
    let mut tail = split_ws(rest);
    out.push(first);
    out.append(&mut tail);
    proof {
        let sp = split_spaces(s@);
        assert(sp =~= seq![s@.subrange(0, p as int)] + split_spaces(rest@));
        assert(out@[0]@ == s@.subrange(0, p as int));
        assert forall|i: int| 0 <= i < out@.len() implies out@[i]@ == sp[i] by {
            if i > 0 {
                assert(out@[i]@ == split_spaces(rest@)[i - 1]);
            }
        }
    }
    out
}

/// Some entry of `v` views to the character sequence `x`.
pub open spec fn seq_has_view(v: Seq<String>, x: Seq<char>) -> bool {
    exists|i: int| 0 <= i < v.len() && v[i]@ == x
}

/// The entries of `v` are in strictly increasing lexicographic order,
/// so they are also pairwise distinct.
pub open spec fn strictly_sorted_views(v: Seq<String>) -> bool {
    forall|i: int, j: int| 0 <= i < j < v.len() ==> lex_lt(v[i]@, v[j]@)
}

/// Two strictly sorted vectors holding the same values hold them in
/// the same order: their view sequences are equal.
pub proof fn lemma_sorted_views_unique(a: Seq<String>, b: Seq<String>)
    requires
        strictly_sorted_views(a),
        strictly_sorted_views(b),
        forall|x: Seq<char>| seq_has_view(a, x) <==> seq_has_view(b, x),
    ensures
        a.map_values(|s: String| s@) == b.map_values(|s: String| s@),
    decreases a.len(),
{
    if a.len() == 0 {
        if b.len() > 0 {
            assert(seq_has_view(b, b[0]@));
            assert(seq_has_view(a, b[0]@));
            assert(false);
        }
        assert(a.map_values(|s: String| s@) =~= b.map_values(|s: String| s@));
    } else {
        assert(seq_has_view(a, a[0]@));
        assert(seq_has_view(b, a[0]@));
        let j = choose|j: int| 0 <= j < b.len() && b[j]@ == a[0]@;
        assert(seq_has_view(b, b[0]@));
        assert(seq_has_view(a, b[0]@));
        let i = choose|i: int| 0 <= i < a.len() && a[i]@ == b[0]@;
        // the two heads are each other's least values, so they agree
        if j > 0 {
            assert(lex_lt(b[0]@, b[j]@));
            if i > 0 {
                assert(lex_lt(a[0]@, a[i]@));
                lemma_lex_lt_trans(a[0]@, a[i]@, b[j]@);
                assert(false);
            }
        }
        assert(a[0]@ == b[0]@);
        let at = a.subrange(1, a.len() as int);
        let bt = b.subrange(1, b.len() as int);
        assert forall|x: Seq<char>| seq_has_view(at, x) <==> seq_has_view(bt, x) by {
            if seq_has_view(at, x) {
                let k = choose|k: int| 0 <= k < at.len() && at[k]@ == x;
                assert(a[k + 1]@ == x);
                assert(seq_has_view(a, x));
                assert(lex_lt(a[0]@, x));
                let m = choose|m: int| 0 <= m < b.len() && b[m]@ == x;
                if m == 0 {
                    assert(x == a[0]@);
                    assert(false);
                }
                assert(bt[m - 1]@ == x);
                assert(seq_has_view(bt, x));
            }
            if seq_has_view(bt, x) {
                let k = choose|k: int| 0 <= k < bt.len() && bt[k]@ == x;
                assert(b[k + 1]@ == x);
                assert(seq_has_view(b, x));
                assert(lex_lt(b[0]@, x));
                let m = choose|m: int| 0 <= m < a.len() && a[m]@ == x;
                if m == 0 {
                    assert(x == b[0]@);
                    assert(false);
                }
                assert(at[m - 1]@ == x);
                assert(seq_has_view(at, x));
            }
        }
        assert(strictly_sorted_views(at)) by {
            assert forall|p: int, q: int| 0 <= p < q < at.len() implies lex_lt(at[p]@, at[q]@) by {
                assert(at[p] == a[p + 1] && at[q] == a[q + 1]);
            }
        }
        assert(strictly_sorted_views(bt)) by {
            assert forall|p: int, q: int| 0 <= p < q < bt.len() implies lex_lt(bt[p]@, bt[q]@) by {
                assert(bt[p] == b[p + 1] && bt[q] == b[q + 1]);
            }
        }
        lemma_sorted_views_unique(at, bt);
        assert(at.map_values(|s: String| s@).len() == bt.map_values(|s: String| s@).len());
        assert(at.len() == bt.len());
        assert(a.len() == b.len());
        assert forall|k: int|
            0 <= k < a.len() implies (#[trigger] a[k])@ == b[k]@ by {
            if k > 0 {
                assert(at.map_values(|s: String| s@)[k - 1] == bt.map_values(|s: String| s@)[k
                    - 1]);
                assert(at.map_values(|s: String| s@)[k - 1] == at[k - 1]@);
                assert(bt.map_values(|s: String| s@)[k - 1] == bt[k - 1]@);
                assert(at[k - 1] == a[k] && bt[k - 1] == b[k]);
            }
        }
        assert(a.map_values(|s: String| s@) =~= b.map_values(|s: String| s@));
    }
}

/// Insert `s` into a strictly sorted vector, keeping it strictly
/// sorted; a value already present is not inserted again.
pub fn insert_sorted_unique(v: &mut Vec<String>, s: String)
    requires
        strictly_sorted_views(old(v)@),
    ensures
        strictly_sorted_views(final(v)@),
        forall|x: Seq<char>|
            #[trigger] seq_has_view(final(v)@, x) <==> (seq_has_view(old(v)@, x) || x == s@),
{
    let mut i: usize = 0;
    while i < v.len() && lex_le_impl(v[i].as_str(), s.as_str()) && !str_eq(v[i].as_str(), s.as_str())
        invariant
            strictly_sorted_views(v@),
            v == old(v),
            i <= v@.len(),
            forall|k: int| 0 <= k < i ==> lex_lt(v@[k]@, s@),
        decreases v@.len() - i,
    {
        i = i + 1;
    }
    if i < v.len() && str_eq(v[i].as_str(), s.as_str()) {
        proof {
            assert(v@[i as int]@ == s@);
            assert(seq_has_view(v@, s@));
        }
        return;
    }
    proof {
        if i < v@.len() {
            // the scan stopped because s orders strictly before v[i]
            let c = v@[i as int]@;
            assert(!(lex_le(c, s@) && c != s@));
            if !lex_le(c, s@) {
                lemma_lex_le_total(c, s@);
            }
            assert(lex_lt(s@, c));
        }
    }
    let ghost oldv = v@;
    let ghost gi = i as int;
    let ghost sv = s@;
    v.insert(i, s);
    proof {
        oldv.insert_ensures(gi, s);
        assert(v@[gi] == s);
        assert forall|a: int, b: int| 0 <= a < b < v@.len() implies lex_lt(v@[a]@, v@[b]@) by {
            if b < gi {
                assert(v@[a] == oldv[a] && v@[b] == oldv[b]);
            } else if a < gi && b == gi {
                assert(v@[a] == oldv[a]);
            } else if a < gi && b > gi {
                assert(v@[a] == oldv[a] && v@[b] == oldv[b - 1]);
                if a == b - 1 {
                    lemma_lex_lt_trans(oldv[a]@, sv, oldv[b - 1]@);
                }
            } else if a == gi {
                // s orders strictly before the old entry at gi, which
                // orders before every later old entry
                assert(v@[b] == oldv[b - 1]);
                if b > gi + 1 {
                    lemma_lex_lt_trans(sv, oldv[gi]@, oldv[b - 1]@);
                }
            } else {
                assert(v@[a] == oldv[a - 1] && v@[b] == oldv[b - 1]);
            }
        }
        assert forall|x: Seq<char>|
            seq_has_view(v@, x) implies (seq_has_view(oldv, x) || x == sv) by {
            let k = choose|k: int| 0 <= k < v@.len() && v@[k]@ == x;
            if k < gi {
                assert(v@[k] == oldv[k]);
                assert(seq_has_view(oldv, x));
            } else if k == gi {
                assert(x == sv);
            } else {
                assert(v@[k] == oldv[k - 1]);
                assert(seq_has_view(oldv, x));
            }
        }
        assert forall|x: Seq<char>|
            seq_has_view(oldv, x) || x == sv implies seq_has_view(v@, x) by {
            if seq_has_view(oldv, x) {
                let k = choose|k: int| 0 <= k < oldv.len() && oldv[k]@ == x;
                if k < gi {
                    assert(v@[k] == oldv[k]);
                    assert(v@[k]@ == x);
                } else {
                    assert(v@[k + 1] == oldv[k]);
                    assert(v@[k + 1]@ == x);
                }
            } else {
                assert(v@[gi]@ == x);
            }
        }
    }
}

/// The character of one decimal digit.
pub open spec fn digit_char(d: nat) -> char
    recommends
        d < 10,
{
    seq!['0', '1', '2', '3', '4', '5', '6', '7', '8', '9'][d as int]
}

/// The decimal digits of `n`, most significant first.
pub open spec fn dec_str(n: nat) -> Seq<char>
    decreases n,
{
    if n < 10 {
        seq![digit_char(n)]
    } else {
        dec_str(n / 10).push(digit_char(n % 10))
    }
}

fn digit_str(d: u64) -> (r: String)
    requires
        d < 10,
    ensures
        r@ =~= seq![digit_char(d as nat)],
{
    proof {
        reveal_strlit("0");
        reveal_strlit("1");
        reveal_strlit("2");
        reveal_strlit("3");
        reveal_strlit("4");
        reveal_strlit("5");
        reveal_strlit("6");
        reveal_strlit("7");
        reveal_strlit("8");
        reveal_strlit("9");
    }
    match d {
        0 => "0".to_owned(),
        1 => "1".to_owned(),
        2 => "2".to_owned(),
        3 => "3".to_owned(),
        4 => "4".to_owned(),
        5 => "5".to_owned(),
        6 => "6".to_owned(),
        7 => "7".to_owned(),
        8 => "8".to_owned(),
        _ => "9".to_owned(),
    }
}

/// Render an integer in decimal.
pub fn u64_to_string(n: u64) -> (r: String)
    ensures
        r@ == dec_str(n as nat),
    decreases n,
{
    if n < 10 {
        digit_str(n)
    } else {
        let mut s = u64_to_string(n / 10);
        let d = digit_str(n % 10);
        s.append(d.as_str());
        proof {
            assert(dec_str((n / 10) as nat) + d@ =~= dec_str((n / 10) as nat).push(
                digit_char((n % 10) as nat),
            ));
        }
        s
    }
}

/// What `str::to_lowercase` returns for a given character sequence.
pub uninterp spec fn lower_of(s: Seq<char>) -> Seq<char>;

/// Relies on `str::to_lowercase`: the result depends on the input
/// characters alone.
#[verifier::external_body]
pub(crate) fn lowercase(s: &str) -> (r: String)
    ensures
        r@ == lower_of(s@),
{
    s.to_lowercase()
}

/// Character-for-character equality of two string slices.
pub fn str_eq(a: &str, b: &str) -> (r: bool)
    ensures
        r == (a@ == b@),
{
    let n = a.unicode_len();
    if n != b.unicode_len() {
        return false;
    }
    let mut i: usize = 0;
    while i < n
        invariant
            n == a@.len(),
            n == b@.len(),
            i <= n,
            forall|k: int| 0 <= k < i ==> a@[k] == b@[k],
        decreases n - i,
    {
        if a.get_char(i) != b.get_char(i) {
            return false;
        }
        i = i + 1;
    }
    proof {
        assert(a@ =~= b@);
    }
    true
}

} // verus!
