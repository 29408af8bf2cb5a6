//! Verified helpers on strings, as sequences of characters.

use vstd::prelude::*;

verus! {

/// `String::push` of std: appends the character to the string.
#[verifier::external_body]
pub(crate) fn push_char(s: &mut String, c: char)
    ensures
        final(s)@ == old(s)@.push(c),
{
    s.push(c);
}

/// Collects the characters of a string.
pub fn chars_of(s: &str) -> (v: Vec<char>)
    ensures
        v@ == s@,
{
    broadcast use vstd::string::group_string_axioms;

    let mut v: Vec<char> = Vec::new();
    for c in it: s.chars()
        invariant
            v@ == it.seq().take(it.index() as int),
    {
        v.push(c);
    }
    v
}

/// A string of the characters `v[from..]`.
pub fn string_from(v: &Vec<char>, from: usize) -> (s: String)
    requires
        from <= v@.len(),
    ensures
        s@ == v@.subrange(from as int, v@.len() as int),
{
    let mut s = String::new();
    let mut i: usize = from;
    while i < v.len()
        invariant
            from <= i <= v@.len(),
            s@ == v@.subrange(from as int, i as int),
        decreases v@.len() - i,
    {
        push_char(&mut s, v[i]);
        i = i + 1;
        assert(s@ =~= v@.subrange(from as int, i as int));
    }
    s
}

/// `s` with every match of `pat` replaced by `with`, scanning left to right
/// without overlaps, as `str::replace` does; an empty pattern matches
/// before every character and at the end.
pub open spec fn replace_all(s: Seq<char>, pat: Seq<char>, with: Seq<char>) -> Seq<char>
    decreases s.len(),
{
    if pat.len() == 0 {
        if s.len() == 0 {
            with
        } else {
            with + seq![s[0]] + replace_all(s.subrange(1, s.len() as int), pat, with)
        }
    } else if s.len() < pat.len() {
        s
    } else if s.subrange(0, pat.len() as int) == pat {
        with + replace_all(s.subrange(pat.len() as int, s.len() as int), pat, with)
    } else {
        seq![s[0]] + replace_all(s.subrange(1, s.len() as int), pat, with)
    }
}

/// Whether `text[i..]` starts with `pat`.
fn matches_at(text: &Vec<char>, i: usize, pat: &Vec<char>) -> (r: bool)
    requires
        i <= text@.len(),
        pat@.len() <= text@.len() - i,
    ensures
        r == (text@.subrange(i as int, i + pat@.len()) == pat@),
{
    let m = pat.len();
    let tn = text.len();
    let mut k: usize = 0;
    while k < m
        invariant
            k <= m,
            tn == text@.len(),
            m == pat@.len(),
            i + m <= text@.len(),
            forall|j: int| 0 <= j < k ==> text@[i + j] == pat@[j],
        decreases m - k,
    {
        if text[i + k] != pat[k] {
            assert(text@.subrange(i as int, i + m)[k as int] != pat@[k as int]);
            return false;
        }
        k = k + 1;
    }
    assert(text@.subrange(i as int, i + m) =~= pat@);
    true
}

/// Appends the characters `v[from..]` to `out`.
fn push_rest(out: &mut String, v: &Vec<char>, from: usize)
    requires
        from <= v@.len(),
    ensures
        final(out)@ == old(out)@ + v@.subrange(from as int, v@.len() as int),
{
    let mut i: usize = from;
    while i < v.len()
        invariant
            from <= i <= v@.len(),
            out@ == old(out)@ + v@.subrange(from as int, i as int),
        decreases v@.len() - i,
    {
        push_char(out, v[i]);
        i = i + 1;
        assert(out@ =~= old(out)@ + v@.subrange(from as int, i as int));
    }
}

/// Replaces every match of `pat` in `s` by `with`.
pub fn replace_str(s: &str, pat: &str, with: &str) -> (r: String)
    ensures
        r@ == replace_all(s@, pat@, with@),
{
    let text = chars_of(s);
    let p = chars_of(pat);
    let n = text.len();
    let m = p.len();
    let mut out = String::new();
    let mut i: usize = 0;
    assert(text@.subrange(0, n as int) =~= text@);
    loop
        invariant_except_break
            replace_all(s@, pat@, with@) == out@ + replace_all(
                text@.subrange(i as int, n as int),
                pat@,
                with@,
            ),
        invariant
            i <= n,
            n == text@.len(),
            m == p@.len(),
            text@ == s@,
            p@ == pat@,
        ensures
            replace_all(s@, pat@, with@) == out@,
        decreases n - i,
    {
        let ghost rest = text@.subrange(i as int, n as int);
        if n - i < m {
            let ghost before = out@;
            push_rest(&mut out, &text, i);
            assert(out@ =~= before + rest);
            break;
        }
        if matches_at(&text, i, &p) {
            assert(rest.subrange(0, m as int) =~= text@.subrange(i as int, i + m));
            let ghost before = out@;
            out.append(with);
            if m == 0 {
                if i == n {
                    assert(out@ =~= before + replace_all(rest, pat@, with@));
                    break;
                }
                push_char(&mut out, text[i]);
                assert(rest[0] == text@[i as int]);
                assert(rest.subrange(1, rest.len() as int) =~= text@.subrange(i + 1, n as int));
                assert(out@ + replace_all(text@.subrange(i + 1, n as int), pat@, with@) =~= before
                    + replace_all(rest, pat@, with@));
                i = i + 1;
            } else {
                assert(rest.subrange(m as int, rest.len() as int) =~= text@.subrange(
                    i + m,
                    n as int,
                ));
                assert(out@ + replace_all(text@.subrange(i + m, n as int), pat@, with@) =~= before
                    + replace_all(rest, pat@, with@));
                i = i + m;
            }
        } else {
            assert(rest.subrange(0, m as int) =~= text@.subrange(i as int, i + m));
            if m == 0 {
                assert(text@.subrange(i as int, i as int) =~= p@);
            }
            assert(rest[0] == text@[i as int]);
            let ghost before = out@;
            push_char(&mut out, text[i]);
            assert(rest.subrange(1, rest.len() as int) =~= text@.subrange(i + 1, n as int));
            assert(out@ + replace_all(text@.subrange(i + 1, n as int), pat@, with@) =~= before
                + replace_all(rest, pat@, with@));
            i = i + 1;
        }
    }
    out
}

} // verus!
