//! Character-level text operations on `String` and `&str`, each stated over
//! the character sequence that the text views as.
use vstd::prelude::*;

verus! {

// ─── Specifications ─────────────────────────────────────────────────────────

/// `pat` occurs in `s` starting at position `i`.
pub open spec fn occurs_at(s: Seq<char>, pat: Seq<char>, i: int) -> bool {
    &&& 0 <= i
    &&& i + pat.len() <= s.len()
    &&& s.subrange(i, i + pat.len()) == pat
}

/// `pat` occurs somewhere in `s` (the empty pattern occurs in every text).
pub open spec fn has_substring(s: Seq<char>, pat: Seq<char>) -> bool {
    exists|i: int| occurs_at(s, pat, i)
}

/// `s` begins with `pat`.
pub open spec fn has_prefix(s: Seq<char>, pat: Seq<char>) -> bool {
    pat.len() <= s.len() && s.take(pat.len() as int) == pat
}

/// Every non-overlapping occurrence of the non-empty `pat` in `s`, found left
/// to right, replaced by `rep`.
pub open spec fn replace_all(s: Seq<char>, pat: Seq<char>, rep: Seq<char>) -> Seq<char>
    decreases s.len(),
{
    if pat.len() == 0 || s.len() < pat.len() {
        s
    } else if s.take(pat.len() as int) == pat {
        rep + replace_all(s.skip(pat.len() as int), pat, rep)
    } else {
        seq![s[0]] + replace_all(s.skip(1), pat, rep)
    }
}

/// `(before, after)` is `s` cut at the first occurrence of `c`.
pub open spec fn is_split_at_first(s: Seq<char>, c: char, before: Seq<char>, after: Seq<char>) -> bool {
    &&& s == before + seq![c] + after
    &&& !before.contains(c)
}


/// The pieces of `s` between occurrences of `c`, in order (as `str::split`
/// with a character pattern gives them; there is always at least one piece).
pub open spec fn split_pieces(s: Seq<char>, c: char) -> Seq<Seq<char>>
    decreases s.len(),
{
    if s.len() == 0 {
        seq![Seq::<char>::empty()]
    } else {
        let rest = split_pieces(s.skip(1), c);
        if s[0] == c {
            seq![Seq::<char>::empty()] + rest
        } else {
            rest.update(0, seq![s[0]] + rest[0])
        }
    }
}

pub proof fn lemma_split_pieces_nonempty(s: Seq<char>, c: char)
    ensures
        split_pieces(s, c).len() >= 1,
    decreases s.len(),
{
    if s.len() > 0 {
        lemma_split_pieces_nonempty(s.skip(1), c);
    }
}

/// The two sides of the first occurrence of `c` in `s` (when it occurs).
pub open spec fn split_at_first(s: Seq<char>, c: char) -> (Seq<char>, Seq<char>) {
    choose|p: (Seq<char>, Seq<char>)| is_split_at_first(s, c, p.0, p.1)
}

/// A text is cut at the first occurrence of a character in one way only.
pub proof fn lemma_split_at_first_unique(s: Seq<char>, c: char, a1: Seq<char>, b1: Seq<char>, a2: Seq<char>, b2: Seq<char>)
    requires
        is_split_at_first(s, c, a1, b1),
        is_split_at_first(s, c, a2, b2),
    ensures
        a1 == a2,
        b1 == b2,
{
    if a1.len() < a2.len() {
        assert(s[a1.len() as int] == c);
        assert(a2[a1.len() as int] == s[a1.len() as int]);
        assert(a2.contains(c));
    } else if a2.len() < a1.len() {
        assert(s[a2.len() as int] == c);
        assert(a1[a2.len() as int] == s[a2.len() as int]);
        assert(a1.contains(c));
    }
    assert(a1 =~= s.take(a1.len() as int));
    assert(a2 =~= s.take(a2.len() as int));
    assert(b1 =~= s.skip(a1.len() + 1int));
    assert(b2 =~= s.skip(a2.len() + 1int));
}

/// A split found by `split_once` is the one `split_at_first` names.
pub proof fn lemma_split_at_first(s: Seq<char>, c: char, a: Seq<char>, b: Seq<char>)
    requires
        is_split_at_first(s, c, a, b),
    ensures
        split_at_first(s, c) == (a, b),
{
    let p = split_at_first(s, c);
    assert(is_split_at_first(s, c, (a, b).0, (a, b).1));
    lemma_split_at_first_unique(s, c, a, b, p.0, p.1);
}

/// The lowercase form that `str::to_lowercase` gives of a text.
pub uninterp spec fn lowercase_of(s: Seq<char>) -> Seq<char>;

/// The uppercase form that `str::to_uppercase` gives of a text.
pub uninterp spec fn uppercase_of(s: Seq<char>) -> Seq<char>;

// ─── Trusted calls into std ─────────────────────────────────────────────────

/// Calls `str::to_lowercase`. Claimed: the result is the function `lowercase_of`
/// of the input's characters, and the empty text stays empty (each character is
/// mapped in turn, so nothing comes of nothing).
#[verifier::external_body]
fn std_to_lowercase(s: &str) -> (r: String)
    ensures
        r@ == lowercase_of(s@),
        s@.len() == 0 ==> r@.len() == 0,
{
    s.to_lowercase()
}

/// Calls `str::to_uppercase`. Claimed: the result is the function `uppercase_of`
/// of the input's characters.
#[verifier::external_body]
fn std_to_uppercase(s: &str) -> (r: String)
    ensures
        r@ == uppercase_of(s@),
{
    s.to_uppercase()
}

/// `s` without its last character (the empty text stays empty).
pub open spec fn without_last(s: Seq<char>) -> Seq<char> {
    if s.len() > 0 {
        s.drop_last()
    } else {
        s
    }
}

/// Calls `String::pop`, dropping the character it returns. Claimed: the last
/// character is removed, and the empty text is left as it is.
#[verifier::external_body]
pub(crate) fn pop_char(s: &mut String)
    ensures
        final(s)@ == without_last(old(s)@),
{
    s.pop();
}

/// Calls `String::push`. Claimed: the character is appended at the end.
#[verifier::external_body]
pub(crate) fn push_char(s: &mut String, c: char)
    ensures
        final(s)@ == old(s)@.push(c),
{
    s.push(c)
}

// ─── Executable operations ──────────────────────────────────────────────────

/// The characters of a text, in order.
pub fn chars_of(s: &str) -> (v: Vec<char>)
    ensures
        v@ == s@,
{
    let mut v: Vec<char> = Vec::new();
    for c in it: s.chars()
        invariant
            v@ == it.seq().take(it.index() as int),
    {
        v.push(c);
    }
    v
}

/// The text made of the given characters.
pub fn string_of(v: &Vec<char>) -> (s: String)
    ensures
        s@ == v@,
{
    let mut s = String::new();
    let mut i: usize = 0;
    while i < v.len()
        invariant
            i <= v.len(),
            s@ == v@.take(i as int),
        decreases v.len() - i,
    {
        push_char(&mut s, v[i]);
        assert(v@.take(i + 1) == v@.take(i as int).push(v@[i as int]));
        i = i + 1;
    }
    assert(v@.take(v.len() as int) == v@);
    s
}

/// A new text with the same characters as `s`.
pub fn owned(s: &str) -> (r: String)
    ensures
        r@ == s@,
{
    let v = chars_of(s);
    string_of(&v)
}

/// `a` followed by `b`, as a new text.
pub fn concat_str(a: &str, b: &str) -> (r: String)
    ensures
        r@ == a@ + b@,
{
    let mut r = owned(a);
    r.append(b);
    r
}

/// Whether two character sequences are equal.
pub fn chars_eq(a: &Vec<char>, b: &Vec<char>) -> (r: bool)
    ensures
        r == (a@ == b@),
{
    if a.len() != b.len() {
        return false;
    }
    let mut i: usize = 0;
    while i < a.len()
        invariant
            i <= a.len(),
            a.len() == b.len(),
            forall|j: int| 0 <= j < i ==> a@[j] == b@[j],
        decreases a.len() - i,
    {
        if a[i] != b[i] {
            return false;
        }
        i = i + 1;
    }
    assert(a@ =~= b@);
    true
}

/// Whether two texts are equal, character by character.
pub fn str_eq(a: &str, b: &str) -> (r: bool)
    ensures
        r == (a@ == b@),
{
    let va = chars_of(a);
    let vb = chars_of(b);
    chars_eq(&va, &vb)
}

/// Whether `pat` occurs in `h` at position `i`.
fn matches_at(h: &Vec<char>, pat: &Vec<char>, i: usize) -> (r: bool)
    ensures
        r == occurs_at(h@, pat@, i as int),
{
    if i > h.len() || pat.len() > h.len() - i {
        return false;
    }
    let mut j: usize = 0;
    while j < pat.len()
        invariant
            j <= pat.len(),
            i + pat.len() <= h.len(),
            forall|k: int| 0 <= k < j ==> h@[i + k] == pat@[k],
        decreases pat.len() - j,
    {
        if h[i + j] != pat[j] {
            assert(h@.subrange(i as int, i + pat.len())[j as int] != pat@[j as int]);
            return false;
        }
        j = j + 1;
    }
    assert(h@.subrange(i as int, i + pat.len()) =~= pat@);
    true
}

/// Whether `pat` occurs somewhere in `h`.
pub fn contains_chars(h: &Vec<char>, pat: &Vec<char>) -> (r: bool)
    ensures
        r == has_substring(h@, pat@),
{
    if pat.len() > h.len() {
        assert forall|i: int| !occurs_at(h@, pat@, i) by {}
        return false;
    }
    let mut i: usize = 0;
    while i <= h.len() - pat.len()
        invariant
            pat.len() <= h.len(),
            i <= h.len() - pat.len() + 1,
            forall|k: int| 0 <= k < i ==> !occurs_at(h@, pat@, k),
        decreases h.len() - pat.len() + 1 - i,
    {
        if matches_at(h, pat, i) {
            return true;
        }
        if i == h.len() - pat.len() {
            assert forall|k: int| !occurs_at(h@, pat@, k) by {}
            return false;
        }
        i = i + 1;
    }
    assert forall|k: int| !occurs_at(h@, pat@, k) by {}
    false
}

/// Whether `pat` occurs somewhere in the text `h`.
pub fn str_contains(h: &str, pat: &str) -> (r: bool)
    ensures
        r == has_substring(h@, pat@),
{
    let vh = chars_of(h);
    let vp = chars_of(pat);
    contains_chars(&vh, &vp)
}

/// Whether the text `s` begins with `pat`.
pub fn str_starts_with(s: &str, pat: &str) -> (r: bool)
    ensures
        r == has_prefix(s@, pat@),
{
    let vs = chars_of(s);
    let vp = chars_of(pat);
    let r = matches_at(&vs, &vp, 0);
    proof {
        if has_prefix(s@, pat@) {
            assert(s@.subrange(0, pat@.len() as int) == s@.take(pat@.len() as int));
        }
    }
    r
}

/// `s` without its leading `pat`, when it begins with `pat`.
pub fn strip_prefix(s: &str, pat: &str) -> (r: Option<String>)
    ensures
        r is Some <==> has_prefix(s@, pat@),
        r matches Some(rest) ==> rest@ == s@.skip(pat@.len() as int),
{
    let vs = chars_of(s);
    let vp = chars_of(pat);
    if matches_at(&vs, &vp, 0) {
        assert(s@.subrange(0, pat@.len() as int) == s@.take(pat@.len() as int));
        let mut rest: Vec<char> = Vec::new();
        let mut i: usize = vp.len();
        while i < vs.len()
            invariant
                vp.len() <= i <= vs.len(),
                vs@ == s@,
                rest@ == s@.subrange(vp.len() as int, i as int),
            decreases vs.len() - i,
        {
            rest.push(vs[i]);
            assert(s@.subrange(vp.len() as int, i + 1) == s@.subrange(vp.len() as int, i as int).push(s@[i as int]));
            i = i + 1;
        }
        assert(rest@ == s@.skip(pat@.len() as int));
        Some(string_of(&rest))
    } else {
        proof {
            if has_prefix(s@, pat@) {
                assert(s@.subrange(0, pat@.len() as int) == s@.take(pat@.len() as int));
            }
        }
        None
    }
}

/// The lowercase form of a text, as `str::to_lowercase` makes it.
pub fn to_lowercase(s: &str) -> (r: String)
    ensures
        r@ == lowercase_of(s@),
        s@.len() == 0 ==> r@.len() == 0,
{
    std_to_lowercase(s)
}

/// The uppercase form of a text, as `str::to_uppercase` makes it.
pub fn to_uppercase(s: &str) -> (r: String)
    ensures
        r@ == uppercase_of(s@),
{
    std_to_uppercase(s)
}

proof fn lemma_replace_step_match(s: Seq<char>, pat: Seq<char>, rep: Seq<char>, i: int)
    requires
        pat.len() > 0,
        0 <= i,
        i + pat.len() <= s.len(),
        s.subrange(i, i + pat.len()) == pat,
    ensures
        replace_all(s.skip(i), pat, rep) == rep + replace_all(s.skip(i + pat.len()), pat, rep),
{
    assert(s.skip(i).take(pat.len() as int) =~= s.subrange(i, i + pat.len()));
    assert(s.skip(i).skip(pat.len() as int) =~= s.skip(i + pat.len()));
}

proof fn lemma_replace_step_skip(s: Seq<char>, pat: Seq<char>, rep: Seq<char>, i: int)
    requires
        pat.len() > 0,
        0 <= i,
        i + pat.len() <= s.len(),
        s.subrange(i, i + pat.len()) != pat,
    ensures
        replace_all(s.skip(i), pat, rep) == seq![s[i]] + replace_all(s.skip(i + 1), pat, rep),
{
    assert(s.skip(i).take(pat.len() as int) =~= s.subrange(i, i + pat.len()));
    assert(s.skip(i).skip(1) =~= s.skip(i + 1));
}

/// `s` with every non-overlapping occurrence of the non-empty `pat`, found
/// left to right, replaced by `rep` (as `str::replace` does).
pub fn replace(s: &str, pat: &str, rep: &str) -> (r: String)
    requires
        pat@.len() > 0,
    ensures
        r@ == replace_all(s@, pat@, rep@),
{
    let vs = chars_of(s);
    let vp = chars_of(pat);
    let vr = chars_of(rep);
    let mut out: Vec<char> = Vec::new();
    let mut i: usize = 0;
    assert(s@.skip(0) == s@);
    while i < vs.len()
        invariant
            i <= vs.len(),
            vs@ == s@,
            vp@ == pat@,
            vr@ == rep@,
            pat@.len() > 0,
            out@ + replace_all(s@.skip(i as int), pat@, rep@) == replace_all(s@, pat@, rep@),
        decreases vs.len() - i,
    {
        if vp.len() <= vs.len() - i && matches_at(&vs, &vp, i) {
            proof { lemma_replace_step_match(s@, pat@, rep@, i as int); }
            let mut k: usize = 0;
            let ghost out0 = out@;
            while k < vr.len()
                invariant
                    k <= vr.len(),
                    out@ == out0 + vr@.take(k as int),
                decreases vr.len() - k,
            {
                out.push(vr[k]);
                assert(vr@.take(k + 1) == vr@.take(k as int).push(vr@[k as int]));
                k = k + 1;
            }
            assert(vr@.take(vr.len() as int) == vr@);
            assert(out0 + rep@ + replace_all(s@.skip(i + pat@.len()), pat@, rep@)
                == out0 + (rep@ + replace_all(s@.skip(i + pat@.len()), pat@, rep@)));
            i = i + vp.len();
        } else {
            proof {
                if vp.len() <= vs.len() - i {
                    lemma_replace_step_skip(s@, pat@, rep@, i as int);
                } else {
                    assert(s@.skip(i as int).len() < pat@.len());
                    assert(s@.skip(i as int) =~= seq![s@[i as int]] + s@.skip(i + 1));
                    assert(replace_all(s@.skip(i + 1), pat@, rep@) == s@.skip(i + 1));
                }
            }
            let ghost out0 = out@;
            out.push(vs[i]);
            assert(out0.push(s@[i as int]) + replace_all(s@.skip(i + 1), pat@, rep@)
                == out0 + (seq![s@[i as int]] + replace_all(s@.skip(i + 1), pat@, rep@)));
            i = i + 1;
        }
    }
    assert(s@.skip(i as int).len() == 0);
    assert(out@ == replace_all(s@, pat@, rep@));
    string_of(&out)
}

/// `s` cut at the first occurrence of `c`, when `c` occurs (as `str::split_once`
/// does with a character pattern).
pub fn split_once(s: &str, c: char) -> (r: Option<(String, String)>)
    ensures
        r is Some <==> s@.contains(c),
        r matches Some(parts) ==> is_split_at_first(s@, c, parts.0@, parts.1@),
{
    let vs = chars_of(s);
    let mut i: usize = 0;
    while i < vs.len()
        invariant
            i <= vs.len(),
            vs@ == s@,
            forall|k: int| 0 <= k < i ==> s@[k] != c,
        decreases vs.len() - i,
    {
        if vs[i] == c {
            let mut before: Vec<char> = Vec::new();
            let mut after: Vec<char> = Vec::new();
            let mut j: usize = 0;
            while j < i
                invariant
                    j <= i < vs.len(),
                    vs@ == s@,
                    before@ == s@.take(j as int),
                decreases i - j,
            {
                before.push(vs[j]);
                assert(s@.take(j + 1) == s@.take(j as int).push(s@[j as int]));
                j = j + 1;
            }
            let mut k: usize = i + 1;
            while k < vs.len()
                invariant
                    i + 1 <= k <= vs.len(),
                    vs@ == s@,
                    after@ == s@.subrange(i + 1, k as int),
                decreases vs.len() - k,
            {
                after.push(vs[k]);
                assert(s@.subrange(i + 1, k + 1) == s@.subrange(i + 1, k as int).push(s@[k as int]));
                k = k + 1;
            }
            assert(s@ =~= before@ + seq![c] + after@);
            assert(!before@.contains(c));
            return Some((string_of(&before), string_of(&after)));
        }
        i = i + 1;
    }
    assert(!s@.contains(c));
    None
}

/// The pieces of `s` between occurrences of `c`, in order (as `str::split`
/// with a character pattern gives them).
pub fn split_char(s: &str, c: char) -> (r: Vec<String>)
    ensures
        r@.map_values(|x: String| x@) == split_pieces(s@, c),
{
    let vs = chars_of(s);
    let mut pieces: Vec<String> = Vec::new();
    let mut cur: Vec<char> = Vec::new();
    let mut i: usize = 0;
    proof { lemma_split_pieces_nonempty(s@, c); }
    assert(s@.skip(0) == s@);
    while i < vs.len()
        invariant
            i <= vs.len(),
            vs@ == s@,
            split_pieces(s@.skip(i as int), c).len() >= 1,
            pieces@.map_values(|x: String| x@) + seq![cur@ + split_pieces(s@.skip(i as int), c)[0]]
                + split_pieces(s@.skip(i as int), c).skip(1) == split_pieces(s@, c),
        decreases vs.len() - i,
    {
        let ghost rest = split_pieces(s@.skip(i + 1), c);
        proof { lemma_split_pieces_nonempty(s@.skip(i + 1), c); }
        assert(s@.skip(i as int).skip(1) == s@.skip(i + 1));
        let ghost old_pieces = pieces@.map_values(|x: String| x@);
        let ghost old_cur = cur@;
        if vs[i] == c {
            let piece = string_of(&cur);
            pieces.push(piece);
            cur = Vec::new();
            assert(split_pieces(s@.skip(i as int), c) == seq![Seq::<char>::empty()] + rest);
            assert(pieces@.map_values(|x: String| x@) == old_pieces.push(old_cur));
            assert(old_pieces + seq![old_cur + Seq::<char>::empty()] + rest
                =~= old_pieces.push(old_cur) + seq![cur@ + rest[0]] + rest.skip(1));
        } else {
            cur.push(vs[i]);
            assert(split_pieces(s@.skip(i as int), c) == rest.update(0, seq![s@[i as int]] + rest[0]));
            assert(old_cur + (seq![s@[i as int]] + rest[0]) == cur@ + rest[0]);
            assert(rest.update(0, seq![s@[i as int]] + rest[0]).skip(1) =~= rest.skip(1));
        }
        i = i + 1;
    }
    assert(s@.skip(i as int).len() == 0);
    let last = string_of(&cur);
    let ghost old_pieces = pieces@.map_values(|x: String| x@);
    pieces.push(last);
    assert(split_pieces(s@.skip(i as int), c) == seq![Seq::<char>::empty()]);
    assert(pieces@.map_values(|x: String| x@) =~= old_pieces.push(cur@));
    assert(old_pieces + seq![cur@ + Seq::<char>::empty()] + seq![Seq::<char>::empty()].skip(1)
        =~= old_pieces.push(cur@));
    pieces
}

} // verus!
