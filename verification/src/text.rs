use vstd::prelude::*;
use vstd::string::*;

verus! {

/// `String::push` appends one character.
pub assume_specification[ String::push ](s: &mut String, ch: char)
    ensures
        final(s)@ == old(s)@.push(ch),
;

/// The characters of a string slice, in order.
pub fn chars_of(s: &str) -> (v: Vec<char>)
    ensures
        v@ == s@,
{
    let mut v: Vec<char> = Vec::new();
    for c in iter: s.chars()
        invariant
            v@ == iter.seq().take(iter.index() as int),
    {
        v.push(c);
    }
    v
}

/// Whether two character sequences are equal.
pub fn chars_eq(a: &Vec<char>, b: &Vec<char>) -> (r: bool)
    ensures
        r == (a@ == b@),
{
    if a.len() != b.len() {
        return false;
    }
    let mut i: usize = 0;
    while i < a.len()
        invariant
            a.len() == b.len(),
            i <= a.len(),
            forall|j: int| 0 <= j < i ==> a@[j] == b@[j],
        decreases a.len() - i,
    {
        if a[i] != b[i] {
            return false;
        }
        i += 1;
    }
    assert(a@ =~= b@);
    true
}

/// Whether two string slices hold the same characters.
pub fn str_eq(a: &str, b: &str) -> (r: bool)
    ensures
        r == (a@ == b@),
{
    let va = chars_of(a);
    let vb = chars_of(b);
    chars_eq(&va, &vb)
}


/// `a` followed by `b`.
pub fn concat_str(a: &str, b: &str) -> (r: String)
    ensures
        r@ == a@ + b@,
{
    let mut r = String::new();
    r.append(a);
    r.append(b);
    assert(r@ =~= a@ + b@);
    r
}

/// Whether every character of `s` is whitespace (so `s` says nothing).
pub open spec fn is_blank(s: Seq<char>) -> bool {
    forall|i: int| 0 <= i < s.len() ==> spec_is_whitespace(#[trigger] s[i])
}

/// Whether a string is empty or whitespace only.
pub fn blank(s: &str) -> (r: bool)
    ensures
        r == is_blank(s@),
{
    let v = chars_of(s);
    let mut i: usize = 0;
    while i < v.len()
        invariant
            i <= v.len(),
            v@ == s@,
            forall|j: int| 0 <= j < i ==> spec_is_whitespace(#[trigger] v@[j]),
        decreases v.len() - i,
    {
        if !v[i].is_whitespace() {
            return false;
        }
        i += 1;
    }
    true
}

// ─── Character classes (std) ─────────────────────────────────────

/// Whether a character has the Unicode White_Space property.
pub uninterp spec fn spec_is_whitespace(c: char) -> bool;

/// Whether a character is Unicode Alphabetic or Numeric.
pub uninterp spec fn spec_is_alphanumeric(c: char) -> bool;

/// The Unicode lowercase mapping of a string.
pub uninterp spec fn spec_to_lowercase(s: Seq<char>) -> Seq<char>;

/// The ASCII whitespace characters (all of them have White_Space).
pub open spec fn is_ascii_whitespace_char(c: char) -> bool {
    c == ' ' || c == '\t' || c == '\n' || c == '\x0B' || c == '\x0C' || c == '\r'
}

/// ASCII letters and digits.
pub open spec fn is_ascii_alnum_char(c: char) -> bool {
    ('a' <= c && c <= 'z') || ('A' <= c && c <= 'Z') || ('0' <= c && c <= '9')
}

/// The ASCII lowercase of a character (other characters are unchanged).
pub open spec fn ascii_lower(c: char) -> char {
    if 'A' <= c && c <= 'Z' {
        ((c as u32) + 32) as char
    } else {
        c
    }
}

/// `char::is_whitespace`: true exactly for White_Space characters; among
/// ASCII characters those are tab, line feed, vertical tab, form feed,
/// carriage return and space.
pub assume_specification[ char::is_whitespace ](c: char) -> (b: bool)
    ensures
        b == spec_is_whitespace(c),
        (c as u32) < 128 ==> (b <==> is_ascii_whitespace_char(c)),
;

/// `char::is_alphanumeric`: Alphabetic or Numeric; among ASCII characters
/// exactly the letters and digits.
pub assume_specification[ char::is_alphanumeric ](c: char) -> (b: bool)
    ensures
        b == spec_is_alphanumeric(c),
        (c as u32) < 128 ==> (b <==> is_ascii_alnum_char(c)),
;

/// `str::to_lowercase`: the Unicode lowercase mapping; on an all-ASCII
/// string it lowercases the ASCII letters one for one and keeps every
/// other character.
#[verifier::external_body]
pub(crate) fn to_lowercase(s: &str) -> (r: String)
    ensures
        r@ == spec_to_lowercase(s@),
        vstd::utf8::is_ascii_chars(s@) ==> r@ == Seq::new(s@.len(), |i: int| ascii_lower(s@[i])),
{
    s.to_lowercase()
}

/// A string holding exactly the given characters.
pub(crate) fn string_from_chars(v: &Vec<char>) -> (s: String)
    ensures
        s@ == v@,
{
    let mut s = String::new();
    let mut i: usize = 0;
    while i < v.len()
        invariant
            i <= v.len(),
            s@ == v@.take(i as int),
        decreases v.len() - i,
    {
        s.push(v[i]);
        proof {
            assert(v@.take(i as int + 1) =~= v@.take(i as int).push(v@[i as int]));
        }
        i += 1;
    }
    proof {
        assert(v@.take(v@.len() as int) =~= v@);
    }
    s
}

// ─── Substring search ────────────────────────────────────────────

/// `pat` occurs in `s` at position `i`.
pub open spec fn occurs_at(s: Seq<char>, pat: Seq<char>, i: int) -> bool {
    0 <= i && i + pat.len() <= s.len() && s.subrange(i, i + pat.len()) == pat
}

/// The first position at or after `from` where `pat` occurs in `s`.
pub open spec fn find_spec(s: Seq<char>, pat: Seq<char>, from: int) -> Option<int>
    decreases s.len() - from,
{
    if from < 0 || from + pat.len() > s.len() {
        None
    } else if occurs_at(s, pat, from) {
        Some(from)
    } else if from >= s.len() {
        None
    } else {
        find_spec(s, pat, from + 1)
    }
}

proof fn lemma_find_spec_bounds(s: Seq<char>, pat: Seq<char>, from: int)
    ensures
        find_spec(s, pat, from) matches Some(j) ==> from <= j && occurs_at(s, pat, j),
    decreases s.len() - from,
{
    if from < 0 || from + pat.len() > s.len() {
    } else if occurs_at(s, pat, from) {
    } else if from >= s.len() {
    } else {
        lemma_find_spec_bounds(s, pat, from + 1);
    }
}

/// Whether `pat` occurs in `v` at position `i` (exec).
pub fn matches_at(v: &Vec<char>, pat: &Vec<char>, i: usize) -> (r: bool)
    ensures
        r == occurs_at(v@, pat@, i as int),
{
    if i > v.len() || pat.len() > v.len() - i {
        return false;
    }
    let mut k: usize = 0;
    while k < pat.len()
        invariant
            i + pat.len() <= v.len(),
            k <= pat.len(),
            forall|j: int| 0 <= j < k ==> v@[i + j] == pat@[j],
        decreases pat.len() - k,
    {
        if v[i + k] != pat[k] {
            assert(v@.subrange(i as int, i + pat.len())[k as int] != pat@[k as int]);
            return false;
        }
        k += 1;
    }
    assert(v@.subrange(i as int, i + pat.len()) =~= pat@);
    true
}

/// The first position at or after `from` where `pat` occurs in `v`.
pub fn find_from(v: &Vec<char>, pat: &Vec<char>, from: usize) -> (r: Option<usize>)
    ensures
        r matches Some(i) ==> find_spec(v@, pat@, from as int) == Some(i as int),
        r is None ==> find_spec(v@, pat@, from as int) is None,
{
    if pat.len() > v.len() || from > v.len() - pat.len() {
        return None;
    }
    let limit: usize = v.len() - pat.len();
    let mut i = from;
    loop
        invariant
            pat.len() <= v.len(),
            limit == v.len() - pat.len(),
            from <= i <= limit,
            find_spec(v@, pat@, from as int) == find_spec(v@, pat@, i as int),
        decreases limit - i,
    {
        if matches_at(v, pat, i) {
            return Some(i);
        }
        if i == limit {
            assert(find_spec(v@, pat@, i + 1) is None);
            return None;
        }
        i += 1;
    }
}

// ─── Privacy redaction ───────────────────────────────────────────

/// The opening privacy tag.
pub open spec fn private_open() -> Seq<char> {
    seq!['<', 'p', 'r', 'i', 'v', 'a', 't', 'e', '>']
}

/// The closing privacy tag.
pub open spec fn private_close() -> Seq<char> {
    seq!['<', '/', 'p', 'r', 'i', 'v', 'a', 't', 'e', '>']
}

/// What a redacted block is replaced with.
pub open spec fn redacted_marker() -> Seq<char> {
    seq!['[', 'R', 'E', 'D', 'A', 'C', 'T', 'E', 'D', ']']
}

/// The redaction of `s` from position `i` on: every `<private>…</private>`
/// block (the shortest one starting at each opening tag, scanning left to
/// right) becomes `[REDACTED]`; an opening tag with no closing tag after it
/// is kept as written.
pub open spec fn redact_from(s: Seq<char>, i: int) -> Seq<char>
    decreases s.len() - i,
{
    if i < 0 || i >= s.len() {
        seq![]
    } else if occurs_at(s, private_open(), i) && find_spec(s, private_close(), i + 9) is Some
        && find_spec(s, private_close(), i + 9)->0 >= i + 9
        && find_spec(s, private_close(), i + 9)->0 + 10 <= s.len() {
        redacted_marker() + redact_from(s, find_spec(s, private_close(), i + 9)->0 + 10)
    } else {
        seq![s[i]] + redact_from(s, i + 1)
    }
}

/// `s` with every private block replaced by `[REDACTED]`.
pub open spec fn redact(s: Seq<char>) -> Seq<char> {
    redact_from(s, 0)
}

/// Replaces every `<private>…</private>` block with `[REDACTED]` so that
/// secrets never reach storage.
pub fn strip_private_tags(s: &str) -> (r: String)
    ensures
        r@ == redact(s@),
{
    let v = chars_of(s);
    let open: Vec<char> = vec!['<', 'p', 'r', 'i', 'v', 'a', 't', 'e', '>'];
    let close: Vec<char> = vec!['<', '/', 'p', 'r', 'i', 'v', 'a', 't', 'e', '>'];
    assert(open@ =~= private_open());
    assert(close@ =~= private_close());
    let mut out: Vec<char> = Vec::new();
    let mut i: usize = 0;
    while i < v.len()
        invariant
            i <= v.len(),
            v@ == s@,
            open@ == private_open(),
            close@ == private_close(),
            out@ + redact_from(v@, i as int) == redact_from(v@, 0),
        decreases v.len() - i,
    {
        let ghost old_out = out@;
        let mut advanced = false;
        if matches_at(&v, &open, i) {
            if i <= v.len() - 9 {
                if let Some(j) = find_from(&v, &close, i + 9) {
                    proof {
                        lemma_find_spec_bounds(v@, private_close(), i + 9);
                    }
                    out.push('[');
                    out.push('R');
                    out.push('E');
                    out.push('D');
                    out.push('A');
                    out.push('C');
                    out.push('T');
                    out.push('E');
                    out.push('D');
                    out.push(']');
                    proof {
                        assert(out@ =~= old_out + redacted_marker());
                        assert(old_out + redact_from(v@, i as int) == redact_from(v@, 0));
                        assert(redact_from(v@, i as int) == redacted_marker() + redact_from(v@, j + 10));
                        assert(out@ + redact_from(v@, j + 10) =~= old_out + (redacted_marker() + redact_from(v@, j + 10)));
                    }
                    i = j + 10;
                    advanced = true;
                }
            }
        }
        if !advanced {
            proof {
                assert(redact_from(v@, i as int) == seq![v@[i as int]] + redact_from(v@, i + 1));
                assert(out@.push(v@[i as int]) + redact_from(v@, i + 1) =~= out@ + (seq![v@[i as int]] + redact_from(v@, i + 1)));
            }
            out.push(v[i]);
            i += 1;
        }
    }
    proof {
        assert(out@ + redact_from(v@, i as int) =~= out@);
    }
    string_from_chars(&out)
}

proof fn lemma_redact_from_untagged(s: Seq<char>, i: int)
    requires
        0 <= i <= s.len(),
        forall|j: int| 0 <= j < s.len() ==> !occurs_at(s, private_open(), j),
    ensures
        redact_from(s, i) == s.subrange(i, s.len() as int),
    decreases s.len() - i,
{
    if i < s.len() {
        lemma_redact_from_untagged(s, i + 1);
        assert(seq![s[i]] + s.subrange(i + 1, s.len() as int) =~= s.subrange(i, s.len() as int));
    } else {
        assert(s.subrange(i, s.len() as int) =~= Seq::<char>::empty());
    }
}

/// Text without an opening `<private>` tag is stored exactly as written.
pub proof fn lemma_redact_untagged_is_identity(s: Seq<char>)
    requires
        forall|j: int| 0 <= j < s.len() ==> !occurs_at(s, private_open(), j),
    ensures
        redact(s) == s,
{
    lemma_redact_from_untagged(s, 0);
    assert(s.subrange(0, s.len() as int) =~= s);
}

proof fn lemma_find_spec_first(s: Seq<char>, pat: Seq<char>, from: int, k: int)
    requires
        0 <= from <= k,
        occurs_at(s, pat, k),
        forall|j: int| from <= j < k ==> !occurs_at(s, pat, j),
    ensures
        find_spec(s, pat, from) == Some(k),
    decreases k - from,
{
    if from < k {
        lemma_find_spec_first(s, pat, from + 1, k);
    }
}

/// A whole private block (whose secret holds no `<`) is stored as just
/// `[REDACTED]`: none of the secret survives.
pub proof fn lemma_redact_whole_block(secret: Seq<char>)
    requires
        forall|j: int| 0 <= j < secret.len() ==> secret[j] != '<',
    ensures
        redact(private_open() + secret + private_close()) == redacted_marker(),
{
    let s = private_open() + secret + private_close();
    let k: int = 9 + secret.len() as int;
    assert(s.subrange(0, 9) =~= private_open());
    assert(s.subrange(k, k + 10) =~= private_close());
    assert forall|j: int| 9 <= j < k implies !occurs_at(s, private_close(), j) by {
        assert(s[j] == secret[j - 9]);
        if occurs_at(s, private_close(), j) {
            assert(s.subrange(j, j + 10)[0] == private_close()[0]);
        }
    }
    lemma_find_spec_first(s, private_close(), 9, k);
    assert(redact_from(s, k + 10) =~= Seq::<char>::empty());
    assert(redacted_marker() + Seq::<char>::empty() =~= redacted_marker());
}


// ─── Alias normalization ─────────────────────────────────────────

/// One step of collapsing whitespace: the text built so far and whether a
/// separating space is pending.
pub open spec fn collapse_step(st: (Seq<char>, bool), c: char) -> (Seq<char>, bool) {
    if spec_is_whitespace(c) {
        (st.0, st.0.len() > 0)
    } else {
        ((if st.1 { st.0.push(' ') } else { st.0 }).push(c), false)
    }
}

/// Whitespace collapsing of a prefix-closed fold over the characters.
pub open spec fn collapse_fold(s: Seq<char>) -> (Seq<char>, bool)
    decreases s.len(),
{
    if s.len() == 0 {
        (seq![], false)
    } else {
        collapse_step(collapse_fold(s.drop_last()), s.last())
    }
}

/// The words of `s` (maximal runs of non-whitespace) joined by one space.
pub open spec fn collapse_whitespace(s: Seq<char>) -> Seq<char> {
    collapse_fold(s).0
}

/// The normalized form of an alias: words joined by single spaces, then
/// lowercased.
pub open spec fn spec_normalize_alias(s: Seq<char>) -> Seq<char> {
    spec_to_lowercase(collapse_whitespace(s))
}

/// Collapses runs of whitespace into one space and trims both ends.
pub fn collapse_ws(s: &str) -> (r: String)
    ensures
        r@ == collapse_whitespace(s@),
{
    let v = chars_of(s);
    let mut out: Vec<char> = Vec::new();
    let mut pending = false;
    let mut i: usize = 0;
    while i < v.len()
        invariant
            i <= v.len(),
            v@ == s@,
            (out@, pending) == collapse_fold(v@.take(i as int)),
        decreases v.len() - i,
    {
        let c = v[i];
        proof {
            assert(v@.take(i + 1).drop_last() =~= v@.take(i as int));
        }
        if c.is_whitespace() {
            pending = out.len() > 0;
        } else {
            if pending {
                out.push(' ');
            }
            out.push(c);
            pending = false;
        }
        i += 1;
    }
    proof {
        assert(v@.take(i as int) =~= v@);
    }
    string_from_chars(&out)
}

/// Lowercases an alias and collapses its whitespace, so that spelling
/// variants like "  Jane   DOE " and "jane doe" compare equal.
pub fn normalize_alias(s: &str) -> (r: String)
    ensures
        r@ == spec_normalize_alias(s@),
{
    let collapsed = collapse_ws(s);
    to_lowercase(collapsed.as_str())
}

// ─── Slugs ───────────────────────────────────────────────────────

/// A character kept in slugs: a letter or digit (which `-` never is).
pub open spec fn is_slug_char(c: char) -> bool {
    spec_is_alphanumeric(c) && c != '-'
}

/// One step of slug building: the slug so far and whether a separator is
/// pending.
pub open spec fn slug_step(st: (Seq<char>, bool), c: char) -> (Seq<char>, bool) {
    if is_slug_char(c) {
        ((if st.1 && st.0.len() > 0 { st.0.push('-') } else { st.0 }).push(c), false)
    } else {
        (st.0, true)
    }
}

/// The slug fold over a character sequence.
pub open spec fn slug_fold(s: Seq<char>) -> (Seq<char>, bool)
    decreases s.len(),
{
    if s.len() == 0 {
        (seq![], false)
    } else {
        slug_step(slug_fold(s.drop_last()), s.last())
    }
}

/// The kebab-case slug of a name: lowercased, each run of characters that
/// are not letters or digits becomes one `-`, with none at either end.
pub open spec fn spec_entity_slug(s: Seq<char>) -> Seq<char> {
    slug_fold(spec_to_lowercase(s)).0
}

/// Kebab-case of the alphanumeric runs of `v` (already lowercased).
fn slug_of_chars(v: &Vec<char>) -> (r: Vec<char>)
    ensures
        r@ == slug_fold(v@).0,
{
    let mut out: Vec<char> = Vec::new();
    let mut pending = false;
    let mut i: usize = 0;
    while i < v.len()
        invariant
            i <= v.len(),
            (out@, pending) == slug_fold(v@.take(i as int)),
        decreases v.len() - i,
    {
        let c = v[i];
        proof {
            assert(v@.take(i + 1).drop_last() =~= v@.take(i as int));
        }
        if c.is_alphanumeric() {
            assert(c != '-');
            if pending && out.len() > 0 {
                out.push('-');
            }
            out.push(c);
            pending = false;
        } else {
            pending = true;
        }
        i += 1;
    }
    proof {
        assert(v@.take(i as int) =~= v@);
    }
    out
}

/// The stable identity of an entity name, e.g. "Acme Corp, Inc." becomes
/// "acme-corp-inc".
pub fn entity_slug(name: &str) -> (r: String)
    ensures
        r@ == spec_entity_slug(name@),
{
    let lower = to_lowercase(name);
    let v = chars_of(lower.as_str());
    let out = slug_of_chars(&v);
    string_from_chars(&out)
}

/// A slug has no separator at either end and never two in a row.
pub open spec fn well_formed_slug(s: Seq<char>) -> bool {
    &&& (s.len() > 0 ==> s[0] != '-' && s.last() != '-')
    &&& forall|i: int| 0 <= i < s.len() - 1 ==> !(#[trigger] s[i] == '-' && s[i + 1] == '-')
}

proof fn lemma_slug_fold_well_formed(s: Seq<char>)
    ensures
        well_formed_slug(slug_fold(s).0),
        forall|i: int| 0 <= i < slug_fold(s).0.len() ==> slug_fold(s).0[i] == '-'
            || is_slug_char(slug_fold(s).0[i]),
    decreases s.len(),
{
    if s.len() > 0 {
        lemma_slug_fold_well_formed(s.drop_last());
        let prev = slug_fold(s.drop_last());
        let c = s.last();
        if is_slug_char(c) {
            let base = if prev.1 && prev.0.len() > 0 { prev.0.push('-') } else { prev.0 };
            let out = base.push(c);
            assert(out.last() == c);
            assert(out[out.len() - 1] != '-');
            if prev.1 && prev.0.len() > 0 {
                assert(prev.0.last() != '-');
                assert forall|i: int| 0 <= i < out.len() - 1 implies !(#[trigger] out[i] == '-' && out[i + 1] == '-') by {
                    if i < prev.0.len() - 1 {
                        assert(out[i] == prev.0[i] && out[i + 1] == prev.0[i + 1]);
                    } else if i == prev.0.len() - 1 {
                        assert(out[i] == prev.0.last());
                    }
                }
                if out.len() > 0 {
                    assert(out[0] == prev.0[0]);
                }
            } else {
                assert forall|i: int| 0 <= i < out.len() - 1 implies !(#[trigger] out[i] == '-' && out[i + 1] == '-') by {
                    if i < prev.0.len() - 1 {
                        assert(out[i] == prev.0[i] && out[i + 1] == prev.0[i + 1]);
                    }
                }
                if prev.0.len() > 0 {
                    assert(out[0] == prev.0[0]);
                }
            }
            assert forall|i: int| 0 <= i < out.len() implies out[i] == '-' || is_slug_char(out[i]) by {
                if i < prev.0.len() {
                    assert(out[i] == prev.0[i]);
                }
            }
        }
    }
}

/// Every slug consists of letters, digits and single `-` separators, and
/// never starts or ends with a separator.
pub proof fn lemma_entity_slug_well_formed(name: Seq<char>)
    ensures
        well_formed_slug(spec_entity_slug(name)),
        forall|i: int| 0 <= i < spec_entity_slug(name).len() ==> spec_entity_slug(name)[i] == '-'
            || is_slug_char(spec_entity_slug(name)[i]),
{
    lemma_slug_fold_well_formed(spec_to_lowercase(name));
}


// ─── Decimal numbers ─────────────────────────────────────────────

/// The decimal digits of `n`, most significant first (no leading zeros;
/// zero is "0").
pub open spec fn decimal_digits(n: nat) -> Seq<char>
    decreases n,
{
    if n < 10 {
        seq![(('0' as u32) + n) as char]
    } else {
        decimal_digits(n / 10).push((('0' as u32) + (n % 10)) as char)
    }
}

fn push_decimal(out: &mut Vec<char>, n: u64)
    ensures
        final(out)@ == old(out)@ + decimal_digits(n as nat),
    decreases n,
{
    let ds: [char; 10] = ['0', '1', '2', '3', '4', '5', '6', '7', '8', '9'];
    if n < 10 {
        let c = ds[n as usize];
        assert(c == (('0' as u32) + n) as char) by {
            assert(ds@[n as int] == c);
        }
        out.push(c);
        assert(old(out)@ + decimal_digits(n as nat) =~= old(out)@.push(c));
    } else {
        push_decimal(out, n / 10);
        let c = ds[(n % 10) as usize];
        assert(c == (('0' as u32) + (n % 10)) as char) by {
            assert(ds@[(n % 10) as int] == c);
        }
        out.push(c);
        assert(old(out)@ + decimal_digits(n as nat) =~= old(out)@ + decimal_digits((n / 10) as nat) + seq![c]);
    }
}

/// The decimal form of a non-negative number.
pub fn decimal(n: u64) -> (r: String)
    ensures
        r@ == decimal_digits(n as nat),
{
    let mut out: Vec<char> = Vec::new();
    push_decimal(&mut out, n);
    assert(out@ =~= decimal_digits(n as nat));
    string_from_chars(&out)
}

// ─── Content hashing ─────────────────────────────────────────────

/// The FNV-1a 64-bit offset basis.
pub const FNV_OFFSET: u64 = 14695981039346656037u64;

/// The FNV-1a 64-bit prime.
pub const FNV_PRIME: u64 = 1099511628211u64;

/// The FNV-1a 64-bit hash of a byte sequence.
pub open spec fn fnv1a(bytes: Seq<u8>) -> u64
    decreases bytes.len(),
{
    if bytes.len() == 0 {
        FNV_OFFSET
    } else {
        vstd::wrapping::u64_specs::wrapping_mul(fnv1a(bytes.drop_last()) ^ (bytes.last() as u64), FNV_PRIME)
    }
}

/// The lowercase hexadecimal digit of a value below 16.
pub open spec fn hex_digit(d: u64) -> char {
    if d < 10 {
        (('0' as u32) + d) as char
    } else {
        (('a' as u32) + d - 10) as char
    }
}

/// The `n` least significant hexadecimal digits of `x`, most significant first.
pub open spec fn hex_fixed(x: u64, n: nat) -> Seq<char>
    decreases n,
{
    if n == 0 {
        seq![]
    } else {
        hex_fixed(x / 16, (n - 1) as nat).push(hex_digit(x % 16))
    }
}

/// The content hash of a text: FNV-1a over its UTF-8 bytes, as 16 hex digits.
pub open spec fn spec_hash_content(s: Seq<char>) -> Seq<char> {
    hex_fixed(fnv1a(vstd::utf8::encode_utf8(s)), 16)
}

fn hex_char(d: u64) -> (c: char)
    requires
        d < 16,
    ensures
        c == hex_digit(d),
{
    let ds: [char; 16] = ['0', '1', '2', '3', '4', '5', '6', '7', '8', '9', 'a', 'b', 'c', 'd', 'e', 'f'];
    let c = ds[d as usize];
    assert(c == hex_digit(d)) by {
        assert(ds@[d as int] == c);
        reveal_with_fuel(hex_digit, 1);
    }
    c
}

fn push_hex(out: &mut Vec<char>, x: u64, n: u32)
    ensures
        final(out)@ == old(out)@ + hex_fixed(x, n as nat),
    decreases n,
{
    if n > 0 {
        push_hex(out, x / 16, n - 1);
        out.push(hex_char(x % 16));
        proof {
            assert(hex_fixed(x, n as nat) == hex_fixed(x / 16, (n - 1) as nat).push(hex_digit(x % 16)));
        }
    } else {
        assert(old(out)@ + hex_fixed(x, 0) =~= old(out)@);
    }
}

/// Hash used to detect duplicate content.
pub fn hash_content(s: &str) -> (r: String)
    ensures
        r@ == spec_hash_content(s@),
{
    let bytes = s.as_bytes();
    let mut h: u64 = FNV_OFFSET;
    let mut i: usize = 0;
    while i < bytes.len()
        invariant
            i <= bytes.len(),
            bytes@ == vstd::utf8::encode_utf8(s@),
            h == fnv1a(bytes@.take(i as int)),
        decreases bytes.len() - i,
    {
        proof {
            assert(bytes@.take(i + 1).drop_last() =~= bytes@.take(i as int));
        }
        h = (h ^ (bytes[i] as u64)).wrapping_mul(FNV_PRIME);
        i += 1;
    }
    proof {
        assert(bytes@.take(i as int) =~= bytes@);
    }
    let mut out: Vec<char> = Vec::new();
    push_hex(&mut out, h, 16);
    assert(out@ =~= hex_fixed(h, 16));
    string_from_chars(&out)
}

} // verus!