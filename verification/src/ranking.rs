//! Picking the best entries of a list by a sort key, best first: the order
//! in which the store answers "strongest", "most recent" and "best ranked"
//! requests.

use vstd::prelude::*;

verus! {

/// `a` comes strictly before `b` in dictionary order of characters.
pub open spec fn text_lt(a: Seq<char>, b: Seq<char>) -> bool
    decreases a.len(),
{
    if a.len() == 0 {
        b.len() > 0
    } else if b.len() == 0 {
        false
    } else if a[0] != b[0] {
        a[0] < b[0]
    } else {
        text_lt(a.skip(1), b.skip(1))
    }
}

/// Dictionary order is transitive.
pub proof fn lemma_text_lt_transitive(a: Seq<char>, b: Seq<char>, c: Seq<char>)
    requires
        text_lt(a, b),
        text_lt(b, c),
    ensures
        text_lt(a, c),
    decreases a.len(),
{
    if a.len() > 0 && b.len() > 0 && c.len() > 0 {
        if a[0] == b[0] && b[0] == c[0] {
            lemma_text_lt_transitive(a.skip(1), b.skip(1), c.skip(1));
        }
    }
}

/// No text comes before itself.
pub proof fn lemma_text_lt_irreflexive(a: Seq<char>)
    ensures
        !text_lt(a, a),
    decreases a.len(),
{
    if a.len() > 0 {
        lemma_text_lt_irreflexive(a.skip(1));
    }
}

/// A sort key: a number, then a text, then a number, compared in that
/// order, larger first.
pub type SortKey = (i64, Seq<char>, i64);

/// The key `a` ranks strictly before the key `b`: a larger first part, or
/// an equal first part and a later text, or both equal and a larger last
/// part.
pub open spec fn key_before(a: SortKey, b: SortKey) -> bool {
    a.0 > b.0 || (a.0 == b.0 && (text_lt(b.1, a.1) || (a.1 == b.1 && a.2 > b.2)))
}

/// Ranking before is transitive.
pub proof fn lemma_key_before_transitive(a: SortKey, b: SortKey, c: SortKey)
    requires
        key_before(a, b),
        key_before(b, c),
    ensures
        key_before(a, c),
{
    if a.0 == b.0 && b.0 == c.0 {
        if text_lt(b.1, a.1) && text_lt(c.1, b.1) {
            lemma_text_lt_transitive(c.1, b.1, a.1);
        }
    }
}

/// The view of an executable key.
pub open spec fn key_view(k: (i64, Vec<char>, i64)) -> SortKey {
    (k.0, k.1@, k.2)
}

/// Whether `a` comes strictly before `b` in dictionary order.
pub fn text_less(a: &Vec<char>, b: &Vec<char>) -> (r: bool)
    ensures
        r == text_lt(a@, b@),
{
    let mut i: usize = 0;
    proof {
        assert(a@.skip(0) =~= a@);
        assert(b@.skip(0) =~= b@);
    }
    while i < a.len() && i < b.len() && a[i] == b[i]
        invariant
            i <= a@.len(),
            i <= b@.len(),
            text_lt(a@, b@) == text_lt(a@.skip(i as int), b@.skip(i as int)),
        decreases a.len() - i,
    {
        proof {
            assert(a@.skip(i as int).skip(1) =~= a@.skip(i as int + 1));
            assert(b@.skip(i as int).skip(1) =~= b@.skip(i as int + 1));
        }
        i += 1;
    }
    proof {
        if i < a.len() && i < b.len() {
            assert(a@.skip(i as int)[0] == a@[i as int]);
            assert(b@.skip(i as int)[0] == b@[i as int]);
        }
    }
    if i == a.len() {
        i < b.len()
    } else if i == b.len() {
        false
    } else {
        a[i] < b[i]
    }
}

/// Whether key `a` ranks strictly before key `b`.
pub fn ranks_before(a: &(i64, Vec<char>, i64), b: &(i64, Vec<char>, i64)) -> (r: bool)
    ensures
        r == key_before(key_view(*a), key_view(*b)),
{
    if a.0 != b.0 {
        return a.0 > b.0;
    }
    if text_less(&b.1, &a.1) {
        return true;
    }
    if text_less(&a.1, &b.1) {
        return false;
    }
    proof {
        lemma_text_total(a.1@, b.1@);
    }
    a.2 > b.2
}

/// Two texts neither of which comes before the other are equal.
pub proof fn lemma_text_total(a: Seq<char>, b: Seq<char>)
    requires
        !text_lt(a, b),
        !text_lt(b, a),
    ensures
        a == b,
    decreases a.len(),
{
    if a.len() > 0 && b.len() > 0 {
        if a[0] != b[0] {
            assert(a[0] < b[0] || b[0] < a[0]);
        }
        lemma_text_total(a.skip(1), b.skip(1));
        assert(a =~= seq![a[0]] + a.skip(1));
        assert(b =~= seq![b[0]] + b.skip(1));
    } else {
        assert(a.len() == 0 && b.len() == 0);
        assert(a =~= b);
    }
}

/// How many entries a request for `limit` of `n` gets: all of them for a
/// negative limit, else at most `limit`.
pub open spec fn taken(n: nat, limit: i64) -> nat {
    if limit < 0 || limit >= n { n } else { limit as nat }
}

/// `idx` picks the best `taken(keys.len(), limit)` entries of `keys`, best
/// first: distinct positions, none ranking before the one picked ahead of
/// it, and no entry left out ranking before any entry picked.
pub open spec fn picks_best(idx: Seq<usize>, keys: Seq<SortKey>, limit: i64) -> bool {
    &&& idx.len() == taken(keys.len(), limit)
    &&& forall|k: int| 0 <= k < idx.len() ==> (#[trigger] idx[k]) < keys.len()
    &&& forall|k: int, m: int| 0 <= k < m < idx.len() ==> idx[k] != idx[m]
    &&& forall|k: int, m: int| 0 <= k < m < idx.len() ==> !#[trigger] key_before(keys[idx[m] as int], keys[idx[k] as int])
    &&& forall|j: int, k: int|
        0 <= j < keys.len() && 0 <= k < idx.len() && !idx.contains(j as usize) ==> !#[trigger] key_before(keys[j], keys[idx[k] as int])
}

/// The views of a list of executable keys.
pub open spec fn keys_view(keys: Seq<(i64, Vec<char>, i64)>) -> Seq<SortKey> {
    keys.map_values(|k: (i64, Vec<char>, i64)| key_view(k))
}

/// Picks the positions of the best `limit` keys (all of them for a
/// negative limit), best first; among equal keys the earlier comes first.
pub fn best_positions(keys: &Vec<(i64, Vec<char>, i64)>, limit: i64) -> (r: Vec<usize>)
    ensures
        picks_best(r@, keys_view(keys@), limit),
{
    let ghost ks = keys_view(keys@);
    let n = keys.len();
    let want: usize = if limit < 0 || (limit as u64) >= (n as u64) { n } else { limit as usize };
    let mut rest: Vec<usize> = Vec::new();
    let mut j: usize = 0;
    while j < n
        invariant
            j <= n,
            n == keys@.len(),
            rest@.len() == j,
            forall|m: int| 0 <= m < j ==> rest@[m] == m as usize,
        decreases n - j,
    {
        rest.push(j);
        j += 1;
    }
    let mut out: Vec<usize> = Vec::new();
    proof {
        assert forall|m: int| 0 <= m < n implies #[trigger] rest@.contains(m as usize) by {
            assert(rest@[m] == m as usize);
        }
        assert forall|k: int, m: int| 0 <= k < m < rest@.len() implies rest@[k] != rest@[m] by {
            assert(rest@[k] == k as usize);
            assert(rest@[m] == m as usize);
        }
    }
    while out.len() < want
        invariant
            n == keys@.len(),
            ks == keys_view(keys@),
            ks.len() == n,
            want <= n,
            want == taken(n as nat, limit),
            out@.len() + rest@.len() == n,
            out@.len() <= want,
            forall|k: int| 0 <= k < out@.len() ==> (#[trigger] out@[k]) < n,
            forall|k: int| 0 <= k < rest@.len() ==> (#[trigger] rest@[k]) < n,
            forall|k: int, m: int| 0 <= k < m < rest@.len() ==> rest@[k] != rest@[m],
            forall|m: int| 0 <= m < n ==> (#[trigger] rest@.contains(m as usize) <==> !out@.contains(m as usize)),
            forall|k: int, m: int| 0 <= k < m < out@.len() ==> out@[k] != out@[m],
            forall|k: int, m: int| 0 <= k < m < out@.len() ==> !#[trigger] key_before(ks[out@[m] as int], ks[out@[k] as int]),
            forall|p: int, k: int|
                0 <= p < rest@.len() && 0 <= k < out@.len() ==> !#[trigger] key_before(ks[rest@[p] as int], ks[out@[k] as int]),
        decreases want - out.len(),
    {
        proof {
            assert(rest@.len() > 0);
            lemma_text_lt_irreflexive(ks[rest@[0] as int].1);
        }
        let mut best: usize = 0;
        let mut m: usize = 1;
        while m < rest.len()
            invariant
                n == keys@.len(),
                ks == keys_view(keys@),
                ks.len() == n,
                0 < rest@.len(),
                forall|k: int| 0 <= k < rest@.len() ==> (#[trigger] rest@[k]) < n,
                1 <= m <= rest@.len(),
                best < m,
                forall|p: int| 0 <= p < m ==> !key_before(ks[rest@[p] as int], ks[rest@[best as int] as int]),
            decreases rest.len() - m,
        {
            let cand = rest[m];
            let cur = rest[best];
            if ranks_before(&keys[cand], &keys[cur]) {
                proof {
                    assert(ks[cand as int] == key_view(keys@[cand as int]));
                    assert(ks[cur as int] == key_view(keys@[cur as int]));
                    assert forall|p: int| 0 <= p < m + 1 implies !key_before(ks[rest@[p] as int], ks[rest@[m as int] as int]) by {
                        if p < m as int && key_before(ks[rest@[p] as int], ks[cand as int]) {
                            lemma_key_before_transitive(ks[rest@[p] as int], ks[cand as int], ks[cur as int]);
                        }
                        if p == m as int {
                            lemma_text_lt_irreflexive(ks[cand as int].1);
                        }
                    }
                }
                best = m;
            } else {
                proof {
                    assert(ks[cand as int] == key_view(keys@[cand as int]));
                    assert(ks[cur as int] == key_view(keys@[cur as int]));
                }
            }
            m += 1;
        }
        proof {
            lemma_text_lt_irreflexive(ks[rest@[best as int] as int].1);
        }
        let ghost before = out@;
        let ghost rest_before = rest@;
        let pick = rest.remove(best);
        out.push(pick);
        proof {
            assert(rest@ =~= rest_before.remove(best as int));
            assert(out@.last() == pick);
            assert forall|k: int, m2: int| 0 <= k < m2 < rest@.len() implies rest@[k] != rest@[m2] by {
                let k0 = if k < best as int { k } else { k + 1 };
                let m0 = if m2 < best as int { m2 } else { m2 + 1 };
                assert(rest@[k] == rest_before[k0]);
                assert(rest@[m2] == rest_before[m0]);
            }
            assert forall|k: int| 0 <= k < rest@.len() implies (#[trigger] rest@[k]) < n by {
                if k < best as int {
                    assert(rest@[k] == rest_before[k]);
                } else {
                    assert(rest@[k] == rest_before[k + 1]);
                }
            }
            assert(!before.contains(pick)) by {
                assert(rest_before[best as int] == pick);
                assert(rest_before.contains((pick as int) as usize));
            }
            assert forall|q: int| 0 <= q < n implies (#[trigger] rest@.contains(q as usize) <==> !out@.contains(q as usize)) by {
                if q == pick as int {
                    assert(out@[before.len() as int] == pick);
                    if rest@.contains(q as usize) {
                        let i2 = choose|i2: int| 0 <= i2 < rest@.len() && rest@[i2] == q as usize;
                        if i2 < best as int {
                            assert(rest_before[i2] == pick);
                        } else {
                            assert(rest_before[i2 + 1] == pick);
                        }
                    }
                } else {
                    if before.contains(q as usize) {
                        let i2 = choose|i2: int| 0 <= i2 < before.len() && before[i2] == q as usize;
                        assert(out@[i2] == q as usize);
                    }
                    if out@.contains(q as usize) {
                        let i2 = choose|i2: int| 0 <= i2 < out@.len() && out@[i2] == q as usize;
                        assert(before[i2] == q as usize);
                    }
                    if rest_before.contains(q as usize) {
                        let i2 = choose|i2: int| 0 <= i2 < rest_before.len() && rest_before[i2] == q as usize;
                        if i2 < best as int {
                            assert(rest@[i2] == q as usize);
                        } else {
                            assert(rest@[i2 - 1] == q as usize);
                        }
                    }
                    if rest@.contains(q as usize) {
                        let i2 = choose|i2: int| 0 <= i2 < rest@.len() && rest@[i2] == q as usize;
                        if i2 < best as int {
                            assert(rest_before[i2] == q as usize);
                        } else {
                            assert(rest_before[i2 + 1] == q as usize);
                        }
                    }
                }
            }
            assert forall|k: int, m2: int| 0 <= k < m2 < out@.len() implies out@[k] != out@[m2] by {
                if m2 == before.len() as int {
                    assert(before.contains(out@[k]));
                }
            }
            assert forall|k: int, m2: int| 0 <= k < m2 < out@.len() implies !#[trigger] key_before(ks[out@[m2] as int], ks[out@[k] as int]) by {
                if m2 == before.len() as int {
                    assert(rest_before[best as int] == pick);
                    assert(out@[m2] == pick);
                    assert(out@[k] == before[k]);
                }
            }
            assert forall|p: int, k: int|
                0 <= p < rest@.len() && 0 <= k < out@.len() implies !#[trigger] key_before(ks[rest@[p] as int], ks[out@[k] as int]) by {
                let p0 = if p < best as int { p } else { p + 1 };
                assert(rest@[p] == rest_before[p0]);
                if k == before.len() as int {
                    assert(out@[k] == pick);
                }
            }
        }
    }
    proof {
        assert forall|j2: int, k: int|
            0 <= j2 < ks.len() && 0 <= k < out@.len() && !out@.contains(j2 as usize) implies !#[trigger] key_before(ks[j2], ks[out@[k] as int]) by {
            assert(rest@.contains(j2 as usize));
            let p = choose|p: int| 0 <= p < rest@.len() && rest@[p] == j2 as usize;
        }
    }
    out
}

/// Where the first `.` of `m` stands (its length when there is none).
pub open spec fn dot_pos(m: Seq<char>) -> nat
    decreases m.len(),
{
    if m.len() == 0 {
        0
    } else if m[0] == '.' {
        0
    } else {
        1 + dot_pos(m.skip(1))
    }
}

/// The text is negative: it starts with `-`.
pub open spec fn dec_neg(t: Seq<char>) -> bool {
    t.len() > 0 && t[0] == '-'
}

/// The digits of a decimal text, sign left out.
pub open spec fn dec_mag(t: Seq<char>) -> Seq<char> {
    if dec_neg(t) { t.skip(1) } else { t }
}

/// The integer digits of a decimal text.
pub open spec fn dec_int(t: Seq<char>) -> Seq<char> {
    dec_mag(t).take(dot_pos(dec_mag(t)) as int)
}

/// The fraction digits of a decimal text (none without a point).
pub open spec fn dec_frac(t: Seq<char>) -> Seq<char> {
    let m = dec_mag(t);
    if dot_pos(m) < m.len() { m.skip(dot_pos(m) + 1int) } else { Seq::empty() }
}

/// `c` is a decimal digit.
pub open spec fn is_digit(c: char) -> bool {
    '0' <= c && c <= '9'
}

/// Every character of `s` is a decimal digit.
pub open spec fn all_digits(s: Seq<char>) -> bool {
    forall|i: int| 0 <= i < s.len() ==> is_digit(#[trigger] s[i])
}

/// `t` is a decimal number as Rust writes a finite float: an optional
/// minus sign, integer digits without leading zeros (a lone `0` aside),
/// and optionally a point and fraction digits not ending in `0`.
pub open spec fn is_decimal_text(t: Seq<char>) -> bool {
    let i = dec_int(t);
    let f = dec_frac(t);
    let m = dec_mag(t);
    &&& i.len() > 0
    &&& all_digits(i)
    &&& all_digits(f)
    &&& (i.len() > 1 ==> i[0] != '0')
    &&& (dot_pos(m) < m.len() ==> f.len() > 0 && f.last() != '0')
}

/// The magnitude `(i1, f1)` is smaller than `(i2, f2)`: fewer integer
/// digits, or as many and smaller integer digits, or equal integer digits
/// and smaller fraction digits.
pub open spec fn mag_lt(i1: Seq<char>, f1: Seq<char>, i2: Seq<char>, f2: Seq<char>) -> bool {
    i1.len() < i2.len() || (i1.len() == i2.len() && (text_lt(i1, i2) || (i1 == i2 && text_lt(f1, f2))))
}

/// The decimal number `a` is smaller than the decimal number `b`.
pub open spec fn dec_lt(a: Seq<char>, b: Seq<char>) -> bool {
    ||| dec_neg(a) && !dec_neg(b)
    ||| !dec_neg(a) && !dec_neg(b) && mag_lt(dec_int(a), dec_frac(a), dec_int(b), dec_frac(b))
    ||| dec_neg(a) && dec_neg(b) && mag_lt(dec_int(b), dec_frac(b), dec_int(a), dec_frac(a))
}

/// The digit that mirrors `c` (`0` and `9`, `1` and `8`, ...).
pub open spec fn mirror_digit(c: char) -> char {
    if c == '0' {
        '9'
    } else if c == '1' {
        '8'
    } else if c == '2' {
        '7'
    } else if c == '3' {
        '6'
    } else if c == '4' {
        '5'
    } else if c == '5' {
        '4'
    } else if c == '6' {
        '3'
    } else if c == '7' {
        '2'
    } else if c == '8' {
        '1'
    } else if c == '9' {
        '0'
    } else {
        c
    }
}

/// The digits of `s`, each mirrored, then `:` (which sorts after every
/// digit).
pub open spec fn mirrored(s: Seq<char>) -> Seq<char> {
    s.map_values(|c: char| mirror_digit(c)).push(':')
}

/// The largest integer-digit count the ranking tells apart.
pub open spec fn len_cap(n: nat) -> i64 {
    if n > 0x40000000 { 0x40000000 } else { n as i64 }
}

/// The sort key that puts smaller decimal numbers first (ties by the
/// larger `id`): negative numbers before the others, more integer digits
/// first among negatives and last among the others; then the digits,
/// larger first among negatives and, mirrored, smaller first among the
/// others.
pub open spec fn ascending_key(t: Seq<char>, id: i64) -> SortKey {
    let i = dec_int(t);
    let f = dec_frac(t);
    if dec_neg(t) {
        ((1 + len_cap(i.len())) as i64, i + f, id)
    } else {
        ((-1 - len_cap(i.len())) as i64, mirrored(i + f), id)
    }
}

/// Joining equal-length heads keeps the order they give, and equal heads
/// leave it to the tails.
proof fn lemma_text_lt_concat(x1: Seq<char>, x2: Seq<char>, y1: Seq<char>, y2: Seq<char>)
    requires
        x1.len() == y1.len(),
        text_lt(x1, y1) || (x1 == y1 && text_lt(x2, y2)),
    ensures
        text_lt(x1 + x2, y1 + y2),
    decreases x1.len(),
{
    if x1.len() == 0 {
        assert(x1 + x2 =~= x2);
        assert(y1 + y2 =~= y2);
        assert(y1 =~= x1);
    } else {
        assert((x1 + x2)[0] == x1[0]);
        assert((y1 + y2)[0] == y1[0]);
        assert((x1 + x2).skip(1) =~= x1.skip(1) + x2);
        assert((y1 + y2).skip(1) =~= y1.skip(1) + y2);
        if x1[0] == y1[0] {
            if x1 == y1 {
                assert(x1.skip(1) == y1.skip(1));
            }
            lemma_text_lt_concat(x1.skip(1), x2, y1.skip(1), y2);
        }
    }
}

/// Mirroring digits reverses their order.
proof fn lemma_mirrored_reverses(x: Seq<char>, y: Seq<char>)
    requires
        all_digits(x),
        all_digits(y),
        text_lt(x, y),
    ensures
        text_lt(mirrored(y), mirrored(x)),
    decreases x.len(),
{
    let mx = mirrored(x);
    let my = mirrored(y);
    if x.len() == 0 {
        assert(mx[0] == ':');
        assert(is_digit(y[0]));
        assert(my[0] == mirror_digit(y[0]));
    } else {
        assert(is_digit(x[0]));
        assert(is_digit(y[0]));
        assert(mx[0] == mirror_digit(x[0]));
        assert(my[0] == mirror_digit(y[0]));
        if x[0] == y[0] {
            assert(mx.skip(1) =~= mirrored(x.skip(1)));
            assert(my.skip(1) =~= mirrored(y.skip(1)));
            lemma_mirrored_reverses(x.skip(1), y.skip(1));
        }
    }
}

/// Ranking by `ascending_key` puts every smaller decimal number before a
/// larger one.
pub proof fn lemma_ascending_key_orders(a: Seq<char>, ida: i64, b: Seq<char>, idb: i64)
    requires
        is_decimal_text(a),
        is_decimal_text(b),
        dec_int(a).len() <= 0x40000000,
        dec_int(b).len() <= 0x40000000,
        dec_lt(b, a),
    ensures
        key_before(ascending_key(b, idb), ascending_key(a, ida)),
{
    let ia = dec_int(a);
    let fa = dec_frac(a);
    let ib = dec_int(b);
    let fb = dec_frac(b);
    if dec_neg(a) && dec_neg(b) {
        if ia.len() == ib.len() {
            lemma_text_lt_concat(ia, fa, ib, fb);
        }
    } else if !dec_neg(a) && !dec_neg(b) {
        if ia.len() == ib.len() {
            lemma_text_lt_concat(ib, fb, ia, fa);
            assert(all_digits(ia + fa));
            assert(all_digits(ib + fb));
            lemma_mirrored_reverses(ib + fb, ia + fa);
        }
    }
}

/// The first point stands at `k` when none comes before `k` and `k` is a
/// point or the end.
proof fn lemma_dot_pos(m: Seq<char>, k: int)
    requires
        0 <= k <= m.len(),
        forall|i: int| 0 <= i < k ==> m[i] != '.',
        k == m.len() || m[k] == '.',
    ensures
        dot_pos(m) == k,
    decreases k,
{
    if k > 0 {
        assert forall|i: int| 0 <= i < k - 1 implies m.skip(1)[i] != '.' by {
            assert(m.skip(1)[i] == m[i + 1]);
        }
        if k - 1 < m.skip(1).len() {
            assert(m.skip(1)[k - 1] == m[k]);
        }
        lemma_dot_pos(m.skip(1), k - 1);
    }
}

/// Computes `ascending_key` of a decimal text and an id.
pub fn ascending_key_of(t: &str, id: i64) -> (r: (i64, Vec<char>, i64))
    ensures
        key_view(r) == ascending_key(t@, id),
{
    let v = crate::text::chars_of(t);
    let neg = v.len() > 0 && v[0] == '-';
    let start: usize = if neg { 1 } else { 0 };
    let ghost m = dec_mag(t@);
    proof {
        if neg {
            assert(m =~= v@.skip(1));
        } else {
            assert(m =~= v@);
        }
    }
    let mut digits: Vec<char> = Vec::new();
    let mut i: usize = start;
    while i < v.len() && v[i] != '.'
        invariant
            start <= i <= v@.len(),
            m == v@.skip(start as int),
            digits@ == m.take(i - start),
            forall|j: int| 0 <= j < i - start ==> m[j] != '.',
        decreases v.len() - i,
    {
        digits.push(v[i]);
        proof {
            assert(m.take(i - start + 1) =~= m.take(i - start).push(m[i - start]));
        }
        i += 1;
    }
    proof {
        if i < v.len() {
            assert(m[i - start] == '.');
        }
        lemma_dot_pos(m, i - start);
    }
    let int_len = digits.len();
    let ghost int_part = digits@;
    if i < v.len() {
        let mut j: usize = i + 1;
        while j < v.len()
            invariant
                i < j <= v@.len(),
                start <= i,
                m == v@.skip(start as int),
                dot_pos(m) == i - start,
                digits@ == int_part + m.subrange(i - start + 1, j - start),
            decreases v.len() - j,
        {
            digits.push(v[j]);
            proof {
                assert(m.subrange(i - start + 1, j - start + 1) =~= m.subrange(i - start + 1, j - start).push(m[j - start]));
            }
            j += 1;
        }
        proof {
            assert(m.subrange(i - start + 1, v@.len() - start) =~= m.skip(dot_pos(m) + 1int));
        }
    } else {
        proof {
            assert(digits@ =~= int_part + Seq::<char>::empty());
        }
    }
    let cap: i64 = if (int_len as u64) > 0x40000000 { 0x40000000 } else { int_len as i64 };
    proof {
        assert(int_part == dec_int(t@));
        assert(digits@ == dec_int(t@) + dec_frac(t@));
    }
    if neg {
        (1 + cap, digits, id)
    } else {
        let mut mirror: Vec<char> = Vec::new();
        let mut k: usize = 0;
        while k < digits.len()
            invariant
                k <= digits@.len(),
                mirror@ == digits@.take(k as int).map_values(|c: char| mirror_digit(c)),
            decreases digits.len() - k,
        {
            let c = digits[k];
            let d = if c == '0' {
                '9'
            } else if c == '1' {
                '8'
            } else if c == '2' {
                '7'
            } else if c == '3' {
                '6'
            } else if c == '4' {
                '5'
            } else if c == '5' {
                '4'
            } else if c == '6' {
                '3'
            } else if c == '7' {
                '2'
            } else if c == '8' {
                '1'
            } else if c == '9' {
                '0'
            } else {
                c
            };
            mirror.push(d);
            proof {
                assert(digits@.take(k as int + 1).map_values(|c: char| mirror_digit(c)) =~= digits@.take(k as int).map_values(
                    |c: char| mirror_digit(c),
                ).push(mirror_digit(digits@[k as int])));
            }
            k += 1;
        }
        mirror.push(':');
        proof {
            assert(digits@.take(digits@.len() as int) =~= digits@);
            assert(mirror@ =~= mirrored(digits@));
        }
        (-1 - cap, mirror, id)
    }
}

} // verus!
