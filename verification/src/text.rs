//! Character-level helpers on strings, stated over `Seq<char>` views.

use vstd::prelude::*;

verus! {

/// The characters of `s`, in order.
pub fn chars_of(s: &str) -> (v: Vec<char>)
    ensures
        v@ == s@,
{
    let mut v: Vec<char> = Vec::new();
    for c in it: s.chars()
        invariant
            it.seq() == s@,
            v@ == it.seq().take(it.index()),
    {
        v.push(c);
    }
    v
}

/// Appends one character to a string (std's `String::push`).
#[verifier::external_body]
pub(crate) fn push_char(s: &mut String, c: char)
    ensures
        final(s)@ == old(s)@.push(c),
{
    s.push(c);
}

/// A copy of `cs[from..to]`.
pub fn copy_range(cs: &Vec<char>, from: usize, to: usize) -> (v: Vec<char>)
    requires
        from <= to <= cs.len(),
    ensures
        v@ == cs@.subrange(from as int, to as int),
{
    let mut v: Vec<char> = Vec::new();
    let mut i = from;
    while i < to
        invariant
            from <= i <= to <= cs.len(),
            v@ == cs@.subrange(from as int, i as int),
        decreases to - i,
    {
        v.push(cs[i]);
        assert(cs@.subrange(from as int, i + 1) == cs@.subrange(from as int, i as int).push(
            cs@[i as int],
        ));
        i = i + 1;
    }
    v
}

/// Builds a string holding exactly the characters of `cs[from..to]`.
pub fn string_from_range(cs: &Vec<char>, from: usize, to: usize) -> (s: String)
    requires
        from <= to <= cs.len(),
    ensures
        s@ == cs@.subrange(from as int, to as int),
{
    let mut s = String::new();
    let mut i = from;
    while i < to
        invariant
            from <= i <= to <= cs.len(),
            s@ == cs@.subrange(from as int, i as int),
        decreases to - i,
    {
        push_char(&mut s, cs[i]);
        assert(cs@.subrange(from as int, i + 1) == cs@.subrange(from as int, i as int).push(
            cs@[i as int],
        ));
        i = i + 1;
    }
    s
}

/// Builds a string holding exactly the characters of `cs`.
pub fn string_from_chars(cs: &Vec<char>) -> (s: String)
    ensures
        s@ == cs@,
{
    let s = string_from_range(cs, 0, cs.len());
    assert(cs@.subrange(0, cs@.len() as int) == cs@);
    s
}

/// `lit` occurs in `s` starting at position `pos`.
pub open spec fn occurs_at(s: Seq<char>, pos: int, lit: Seq<char>) -> bool {
    0 <= pos && pos + lit.len() <= s.len() && s.subrange(pos, pos + lit.len()) == lit
}

/// Whether `lit` occurs in `s` at position `pos`.
pub fn occurs_at_exec(s: &Vec<char>, pos: usize, lit: &Vec<char>) -> (b: bool)
    ensures
        b == occurs_at(s@, pos as int, lit@),
{
    if pos > s.len() || lit.len() > s.len() - pos {
        return false;
    }
    let mut k: usize = 0;
    while k < lit.len()
        invariant
            pos + lit.len() <= s.len(),
            k <= lit.len(),
            forall|j: int| 0 <= j < k ==> s@[pos + j] == lit@[j],
        decreases lit.len() - k,
    {
        if s[pos + k] != lit[k] {
            assert(s@.subrange(pos as int, pos + lit.len())[k as int] != lit@[k as int]);
            return false;
        }
        k = k + 1;
    }
    assert(s@.subrange(pos as int, pos + lit.len()) =~= lit@);
    true
}

/// `lit` occurs somewhere in `s`.
pub open spec fn contains_seq(s: Seq<char>, lit: Seq<char>) -> bool {
    exists|p: int| occurs_at(s, p, lit)
}

/// Whether `lit` occurs somewhere in `s`.
pub fn contains_exec(s: &Vec<char>, lit: &Vec<char>) -> (b: bool)
    ensures
        b == contains_seq(s@, lit@),
{
    let mut p: usize = 0;
    while p < s.len()
        invariant
            p <= s.len(),
            forall|q: int| 0 <= q < p ==> !occurs_at(s@, q, lit@),
        decreases s.len() - p,
    {
        if occurs_at_exec(s, p, lit) {
            return true;
        }
        p = p + 1;
    }
    if occurs_at_exec(s, p, lit) {
        return true;
    }
    assert forall|q: int| !occurs_at(s@, q, lit@) by {
        if 0 <= q <= p {
        } else if q > p {
        }
    }
    false
}

/// Whether `c` is one of the characters of `s`.
pub fn has_char(s: &Vec<char>, c: char) -> (b: bool)
    ensures
        b == s@.contains(c),
{
    let mut i: usize = 0;
    while i < s.len()
        invariant
            i <= s.len(),
            forall|j: int| 0 <= j < i ==> s@[j] != c,
        decreases s.len() - i,
    {
        if s[i] == c {
            return true;
        }
        i = i + 1;
    }
    false
}

/// Whether two character sequences are equal.
pub fn chars_eq(a: &Vec<char>, b: &Vec<char>) -> (r: bool)
    ensures
        r == (a@ == b@),
{
    if a.len() != b.len() {
        return false;
    }
    let mut i: usize = 0;
    while i < a.len()
        invariant
            a.len() == b.len(),
            i <= a.len(),
            forall|j: int| 0 <= j < i ==> a@[j] == b@[j],
        decreases a.len() - i,
    {
        if a[i] != b[i] {
            return false;
        }
        i = i + 1;
    }
    assert(a@ =~= b@);
    true
}

/// Whether two strings hold the same characters.
pub fn str_eq(a: &str, b: &str) -> (r: bool)
    ensures
        r == (a@ == b@),
{
    let va = chars_of(a);
    let vb = chars_of(b);
    chars_eq(&va, &vb)
}

/// The last position at which `lit` occurs in `s`.
pub open spec fn last_occurrence(s: Seq<char>, lit: Seq<char>) -> Option<int> {
    if exists|p: int| occurs_at(s, p, lit) {
        Some(choose|p: int| occurs_at(s, p, lit) && forall|q: int| occurs_at(s, q, lit) ==> q <= p)
    } else {
        None
    }
}

/// Position of the last occurrence of a non-empty `lit` in `s`.
pub fn find_last(s: &Vec<char>, lit: &Vec<char>) -> (r: Option<usize>)
    requires
        lit.len() > 0,
    ensures
        match r {
            Some(p) => last_occurrence(s@, lit@) == Some(p as int) && occurs_at(s@, p as int, lit@),
            None => last_occurrence(s@, lit@) is None,
        },
{
    if lit.len() > s.len() {
        assert forall|q: int| !occurs_at(s@, q, lit@) by {}
        return None;
    }
    let mut p: usize = s.len() - lit.len() + 1;
    while p > 0
        invariant
            lit.len() <= s.len(),
            p <= s.len() - lit.len() + 1,
            forall|q: int| p <= q ==> !occurs_at(s@, q, lit@),
        decreases p,
    {
        if occurs_at_exec(s, p - 1, lit) {
            let found = p - 1;
            let ghost w = choose|k: int| occurs_at(s@, k, lit@) && forall|q: int| occurs_at(s@, q, lit@) ==> q <= k;
            assert(occurs_at(s@, found as int, lit@) && forall|q: int| occurs_at(s@, q, lit@) ==> q <= found);
            assert(w == found);
            return Some(found);
        }
        p = p - 1;
    }
    assert forall|q: int| !occurs_at(s@, q, lit@) by {
        if q < 0 {
        }
    }
    None
}

/// `s` begins with `lit`.
pub open spec fn has_prefix(s: Seq<char>, lit: Seq<char>) -> bool {
    occurs_at(s, 0, lit)
}

/// Whether `s` begins with `lit`.
pub fn starts_with(s: &str, lit: &str) -> (b: bool)
    ensures
        b == has_prefix(s@, lit@),
{
    let sv = chars_of(s);
    let lv = chars_of(lit);
    occurs_at_exec(&sv, 0, &lv)
}

/// The spec view of an optional string.
pub open spec fn opt_view(o: Option<String>) -> Option<Seq<char>> {
    match o {
        Some(s) => Some(s@),
        None => None,
    }
}

/// A copy of an optional string.
pub fn clone_opt(o: &Option<String>) -> (r: Option<String>)
    ensures
        opt_view(r) == opt_view(*o),
{
    match o {
        Some(s) => Some(s.clone()),
        None => None,
    }
}

/// The lowercase form of `s`, as `str::to_lowercase` computes it (the
/// Unicode `Lowercase` mapping).
pub uninterp spec fn lowercase(s: Seq<char>) -> Seq<char>;

/// `c` with an ASCII capital made small.
pub open spec fn ascii_lower(c: char) -> char {
    if 'A' <= c && c <= 'Z' {
        ((c as u32) + 32) as char
    } else {
        c
    }
}

/// Whether every character of `s` is ASCII.
pub open spec fn is_ascii_text(s: Seq<char>) -> bool {
    forall|i: int| 0 <= i < s.len() ==> (#[trigger] s[i] as u32) < 128
}

/// `s` with each ASCII capital made small.
pub open spec fn ascii_lowered(s: Seq<char>) -> Seq<char> {
    s.map_values(|c: char| ascii_lower(c))
}

/// The lowercase form of `s`: on ASCII text each capital made small, on
/// other text the Unicode mapping.
pub open spec fn lowered(s: Seq<char>) -> Seq<char> {
    if is_ascii_text(s) {
        ascii_lowered(s)
    } else {
        lowercase(s)
    }
}

/// Text made of small ASCII letters, digits and other ASCII characters
/// that are not capitals is its own lowercase form.
pub proof fn lemma_lowered_of_small_ascii(s: Seq<char>)
    requires
        forall|i: int| 0 <= i < s.len() ==> (#[trigger] s[i] as u32) < 128 && !('A' <= s[i] && s[i] <= 'Z'),
    ensures
        is_ascii_text(s),
        lowered(s) == s,
{
    assert(ascii_lowered(s) =~= s);
}

/// `s` in lowercase (std's `str::to_lowercase`). std documents the
/// Unicode `Lowercase` mapping, under which an ASCII capital becomes its
/// small letter and every other ASCII character stays as it is.
#[verifier::external_body]
fn to_lowercase(s: &str) -> (r: String)
    ensures
        r@ == lowercase(s@),
        is_ascii_text(s@) ==> r@ == ascii_lowered(s@),
{
    s.to_lowercase()
}

/// `s` in lowercase.
pub fn lower_text(s: &str) -> (r: String)
    ensures
        r@ == lowered(s@),
{
    to_lowercase(s)
}

/// The views of a sequence of strings.
pub open spec fn views_of(v: Seq<String>) -> Seq<Seq<char>> {
    v.map_values(|p: String| p@)
}

/// The parts joined, with `sep` between each two.
pub open spec fn join(parts: Seq<Seq<char>>, sep: Seq<char>) -> Seq<char>
    decreases parts.len(),
{
    if parts.len() == 0 {
        Seq::empty()
    } else if parts.len() == 1 {
        parts[0]
    } else {
        join(parts.drop_last(), sep) + sep + parts.last()
    }
}

/// The strings joined, with `sep` between each two (std's `join`).
pub fn join_strings(parts: &Vec<String>, sep: &str) -> (s: String)
    ensures
        s@ == join(views_of(parts@), sep@),
{
    let mut s = String::new();
    let mut i: usize = 0;
    while i < parts.len()
        invariant
            i <= parts.len(),
            s@ == join(views_of(parts@).take(i as int), sep@),
        decreases parts.len() - i,
    {
        let ghost before = views_of(parts@).take(i as int);
        if i > 0 {
            s.append(sep);
        }
        s.append(parts[i].as_str());
        proof {
            let now = views_of(parts@).take(i + 1);
            assert(now.drop_last() =~= before);
            if i == 0 {
                assert(before =~= Seq::<Seq<char>>::empty());
                assert(s@ =~= now[0]);
            }
        }
        i = i + 1;
    }
    assert(views_of(parts@).take(parts.len() as int) =~= views_of(parts@));
    s
}

/// `s` ends with `lit`.
pub open spec fn has_suffix(s: Seq<char>, lit: Seq<char>) -> bool {
    lit.len() <= s.len() && occurs_at(s, s.len() - lit.len(), lit)
}

/// Whether `s` ends with `lit`.
pub fn ends_with(s: &str, lit: &str) -> (b: bool)
    ensures
        b == has_suffix(s@, lit@),
{
    let sv = chars_of(s);
    let lv = chars_of(lit);
    if lv.len() > sv.len() {
        return false;
    }
    occurs_at_exec(&sv, sv.len() - lv.len(), &lv)
}

/// The number of occurrences of `c` in `s`.
pub open spec fn count_char(s: Seq<char>, c: char) -> nat
    decreases s.len(),
{
    if s.len() == 0 {
        0
    } else {
        count_char(s.drop_last(), c) + if s.last() == c {
            1nat
        } else {
            0nat
        }
    }
}

/// How many times `c` occurs in `s`.
pub fn count_occurrences(s: &str, c: char) -> (n: usize)
    ensures
        n == count_char(s@, c),
{
    let v = chars_of(s);
    let mut n: usize = 0;
    let mut i: usize = 0;
    while i < v.len()
        invariant
            v@ == s@,
            i <= v.len(),
            n == count_char(v@.take(i as int), c),
            n <= i,
        decreases v.len() - i,
    {
        assert(v@.take(i + 1).drop_last() =~= v@.take(i as int));
        if v[i] == c {
            n = n + 1;
        }
        i = i + 1;
    }
    assert(v@.take(v.len() as int) =~= v@);
    n
}

} // verus!
