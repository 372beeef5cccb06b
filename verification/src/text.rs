use vstd::prelude::*;

verus! {

/// The result of replacing, from left to right, every non-overlapping
/// occurrence of `pat` in `s` by `rep` (as `str::replace` does for a
/// non-empty pattern).
pub open spec fn replaced(s: Seq<char>, pat: Seq<char>, rep: Seq<char>) -> Seq<char>
    decreases s.len(),
{
    if pat.len() == 0 || s.len() < pat.len() {
        s
    } else if s.take(pat.len() as int) == pat {
        rep + replaced(s.skip(pat.len() as int), pat, rep)
    } else {
        seq![s[0]] + replaced(s.skip(1), pat, rep)
    }
}

/// Whether `pat` occurs in `s` at position `i`.
pub open spec fn occurs_at(s: Seq<char>, pat: Seq<char>, i: int) -> bool {
    0 <= i && i + pat.len() <= s.len() && s.subrange(i, i + pat.len()) == pat
}

/// Appends one character to a string.
#[verifier::external_body]
fn push_char(s: &mut String, c: char)
    ensures
        final(s)@ == old(s)@.push(c),
{
    s.push(c);
}

/// The characters of a string, in order.
fn chars_of(s: &str) -> (r: Vec<char>)
    ensures
        r@ == s@,
{
    let n = s.unicode_len();
    let mut r: Vec<char> = Vec::new();
    let mut i: usize = 0;
    while i < n
        invariant
            n == s@.len(),
            i <= n,
            r@ == s@.take(i as int),
        decreases n - i,
    {
        let c = s.get_char(i);
        r.push(c);
        i = i + 1;
        assert(r@ =~= s@.take(i as int));
    }
    assert(r@ =~= s@);
    r
}

/// Whether `pat` occurs in `s` at position `i`.
fn matches_at(s: &Vec<char>, pat: &Vec<char>, i: usize) -> (r: bool)
    ensures
        r == occurs_at(s@, pat@, i as int),
{
    if i > s.len() || pat.len() > s.len() - i {
        return false;
    }
    let mut j: usize = 0;
    while j < pat.len()
        invariant
            i + pat.len() <= s.len(),
            j <= pat.len(),
            forall|k: int| 0 <= k < j ==> s@[i + k] == pat@[k],
        decreases pat.len() - j,
    {
        if s[i + j] != pat[j] {
            assert(s@.subrange(i as int, i + pat.len())[j as int] != pat@[j as int]);
            return false;
        }
        j = j + 1;
    }
    assert(s@.subrange(i as int, i + pat.len()) =~= pat@);
    true
}

proof fn lemma_replaced_short(s: Seq<char>, pat: Seq<char>, rep: Seq<char>)
    requires
        pat.len() > 0,
        s.len() < pat.len(),
    ensures
        replaced(s, pat, rep) == s,
{
}

/// A text in which the pattern occurs nowhere comes back unchanged.
pub proof fn replacing_absent_pattern_is_identity(s: Seq<char>, pat: Seq<char>, rep: Seq<char>)
    requires
        forall|i: int| !occurs_at(s, pat, i),
    ensures
        replaced(s, pat, rep) == s,
    decreases s.len(),
{
    if pat.len() == 0 || s.len() < pat.len() {
    } else {
        assert(s.take(pat.len() as int) =~= s.subrange(0, pat.len() as int));
        assert(!occurs_at(s, pat, 0));
        let t = s.skip(1);
        assert forall|i: int| !occurs_at(t, pat, i) by {
            if occurs_at(t, pat, i) {
                assert(t.subrange(i, i + pat.len()) =~= s.subrange(i + 1, i + 1 + pat.len()));
                assert(occurs_at(s, pat, i + 1));
            }
        }
        replacing_absent_pattern_is_identity(t, pat, rep);
        assert(seq![s[0]] + t =~= s);
    }
}

/// An occurrence of the pattern at the front of the text is replaced,
/// whatever the length of the text, and the rest is treated on its own.
pub proof fn front_occurrence_is_replaced(t: Seq<char>, pat: Seq<char>, rep: Seq<char>)
    requires
        pat.len() > 0,
    ensures
        replaced(pat + t, pat, rep) == rep + replaced(t, pat, rep),
{
    assert((pat + t).take(pat.len() as int) =~= pat);
    assert((pat + t).skip(pat.len() as int) =~= t);
}

/// A text that does not begin with the pattern keeps its first character,
/// whatever its length, and the rest is treated on its own.
pub proof fn front_character_kept_without_occurrence(
    c: char,
    t: Seq<char>,
    pat: Seq<char>,
    rep: Seq<char>,
)
    requires
        pat.len() > 0,
        !occurs_at(seq![c] + t, pat, 0),
    ensures
        replaced(seq![c] + t, pat, rep) == seq![c] + replaced(t, pat, rep),
{
    let s = seq![c] + t;
    assert(s.skip(1) =~= t);
    if s.len() >= pat.len() {
        assert(s.take(pat.len() as int) =~= s.subrange(0, pat.len() as int));
    } else {
        lemma_replaced_short(t, pat, rep);
    }
}

/// Replacing a pattern by itself changes nothing.
pub proof fn replacing_by_itself_is_identity(s: Seq<char>, pat: Seq<char>)
    ensures
        replaced(s, pat, pat) == s,
    decreases s.len(),
{
    if pat.len() == 0 || s.len() < pat.len() {
    } else if s.take(pat.len() as int) == pat {
        replacing_by_itself_is_identity(s.skip(pat.len() as int), pat);
        assert(pat + s.skip(pat.len() as int) =~= s);
    } else {
        replacing_by_itself_is_identity(s.skip(1), pat);
        assert(seq![s[0]] + s.skip(1) =~= s);
    }
}

/// Replaces, from left to right, every non-overlapping occurrence of the
/// non-empty `pat` in `s` by `rep`.
pub fn replace_all(s: &str, pat: &str, rep: &str) -> (r: String)
    requires
        pat@.len() > 0,
    ensures
        r@ == replaced(s@, pat@, rep@),
{
    let cs = chars_of(s);
    let ps = chars_of(pat);
    let n = cs.len();
    let mut out = String::new();
    let mut i: usize = 0;
    assert(s@.skip(0) =~= s@);
    while i < n
        invariant
            n == cs@.len(),
            cs@ == s@,
            ps@ == pat@,
            pat@.len() > 0,
            i <= n,
            replaced(s@, pat@, rep@) == out@ + replaced(s@.skip(i as int), pat@, rep@),
        decreases n - i,
    {
        let ghost rest = s@.skip(i as int);
        if matches_at(&cs, &ps, i) {
            assert(rest.take(pat@.len() as int) =~= s@.subrange(i as int, i + pat@.len()));
            assert(rest.skip(pat@.len() as int) =~= s@.skip(i + pat@.len()));
            out.append(rep);
            i = i + ps.len();
        } else {
            proof {
                if rest.len() >= pat@.len() {
                    assert(rest.take(pat@.len() as int) =~= s@.subrange(i as int, i + pat@.len()));
                } else {
                    lemma_replaced_short(rest, pat@, rep@);
                    lemma_replaced_short(rest.skip(1), pat@, rep@);
                }
            }
            assert(rest.skip(1) =~= s@.skip(i + 1));
            push_char(&mut out, cs[i]);
            i = i + 1;
        }
    }
    assert(s@.skip(n as int) =~= Seq::<char>::empty());
    out
}

/// Two strings joined end to end.
pub fn joined(a: &str, b: &str) -> (r: String)
    ensures
        r@ == a@ + b@,
{
    let mut r = String::from_str(a);
    r.append(b);
    r
}


/// The text that the bytes `b` encode in UTF-8; `None` where `b` is not
/// UTF-8.
pub open spec fn utf8_decoding(b: Seq<u8>) -> Option<Seq<char>> {
    if vstd::utf8::valid_utf8(b) {
        Some(vstd::utf8::decode_utf8(b))
    } else {
        None
    }
}

/// `String::from_utf8` of std.
#[verifier::external_body]
pub(crate) fn from_utf8(bytes: Vec<u8>) -> (r: Option<String>)
    ensures
        r is Some == utf8_decoding(bytes@) is Some,
        r matches Some(s) ==> utf8_decoding(bytes@) == Some(s@),
        r matches Some(s) ==> vstd::utf8::encode_utf8(s@) == bytes@,
{
    String::from_utf8(bytes).ok()
}

} // verus!
