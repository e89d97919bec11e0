//! Character-level string helpers shared by the sanitizers.

use vstd::prelude::*;

verus! {

/// `s` with every occurrence of `pat` replaced by `rep`, matches taken left to
/// right without overlap. An empty `pat` matches before each character and at
/// the end.
pub open spec fn replace_all(s: Seq<char>, pat: Seq<char>, rep: Seq<char>) -> Seq<char>
    decreases s.len(),
{
    if pat.len() == 0 {
        if s.len() == 0 {
            rep
        } else {
            rep + seq![s[0]] + replace_all(s.drop_first(), pat, rep)
        }
    } else if s.len() < pat.len() {
        s
    } else if s.take(pat.len() as int) == pat {
        rep + replace_all(s.skip(pat.len() as int), pat, rep)
    } else {
        seq![s[0]] + replace_all(s.drop_first(), pat, rep)
    }
}

/// Relies on `String::push`: appends one character.
#[verifier::external_body]
pub(crate) fn push_char(s: &mut String, c: char)
    ensures
        final(s)@ == old(s)@.push(c),
{
    s.push(c);
}

/// The characters of `s`, in order.
pub fn chars_of(s: &str) -> (r: Vec<char>)
    ensures
        r@ == s@,
{
    let mut v: Vec<char> = Vec::new();
    for c in it: s.chars()
        invariant
            v@ == it.seq().take(it.index() as int),
            it.seq() == s@,
    {
        v.push(c);
    }
    v
}

/// Whether `pat` occurs in `hay` starting at position `at`.
fn occurs_at(hay: &Vec<char>, at: usize, pat: &Vec<char>) -> (r: bool)
    requires
        at + pat.len() <= hay.len(),
    ensures
        r == (hay@.subrange(at as int, at + pat.len()) == pat@),
{
    let mut k: usize = 0;
    while k < pat.len()
        invariant
            k <= pat.len(),
            at + pat.len() <= hay.len(),
            hay@.subrange(at as int, at + k) == pat@.take(k as int),
        decreases pat.len() - k,
    {
        if hay[at + k] != pat[k] {
            assert(hay@.subrange(at as int, at + pat.len())[k as int] != pat@[k as int]);
            return false;
        }
        assert(hay@.subrange(at as int, at + k + 1) == pat@.take(k + 1));
        k += 1;
    }
    assert(pat@.take(pat.len() as int) == pat@);
    true
}

/// Replaces every occurrence of `pat` in `s` by `rep`, as `str::replace` does.
pub fn replace_text(s: &str, pat: &str, rep: &str) -> (r: String)
    ensures
        r@ == replace_all(s@, pat@, rep@),
{
    let hay = chars_of(s);
    let needle = chars_of(pat);
    let n = hay.len();
    let m = needle.len();
    let mut out = String::new();
    let mut i: usize = 0;
    assert(hay@.skip(0) =~= hay@);
    assert(out@ + replace_all(hay@.skip(0), pat@, rep@) =~= replace_all(s@, pat@, rep@));
    if m == 0 {
        while i < n
            invariant
                i <= n == hay@.len(),
                hay@ == s@,
                pat@.len() == 0,
                out@ + replace_all(hay@.skip(i as int), pat@, rep@) == replace_all(s@, pat@, rep@),
            decreases n - i,
        {
            let rest = Ghost(hay@.skip(i as int));
            assert(rest@.drop_first() =~= hay@.skip(i + 1));
            assert(rest@[0] == hay@[i as int]);
            let ghost before = out@;
            out.append(rep);
            push_char(&mut out, hay[i]);
            i += 1;
            assert(out@ =~= before + rep@ + seq![rest@[0]]);
        }
        assert(hay@.skip(n as int) =~= Seq::<char>::empty());
        out.append(rep);
        return out;
    }
    while i < n
        invariant
            i <= n == hay@.len(),
            m == needle@.len() > 0,
            hay@ == s@,
            needle@ == pat@,
            out@ + replace_all(hay@.skip(i as int), pat@, rep@) == replace_all(s@, pat@, rep@),
        decreases n - i,
    {
        let rest = Ghost(hay@.skip(i as int));
        if m <= n - i && occurs_at(&hay, i, &needle) {
            assert(rest@.take(m as int) =~= hay@.subrange(i as int, i + m));
            assert(rest@.skip(m as int) =~= hay@.skip(i + m));
            out.append(rep);
            i += m;
        } else {
            assert(rest@.drop_first() =~= hay@.skip(i + 1));
            proof {
                if rest@.len() < m {
                    assert(rest@ =~= seq![hay@[i as int]] + hay@.skip(i + 1));
                } else {
                    assert(rest@.take(m as int) =~= hay@.subrange(i as int, i + m));
                }
            }
            push_char(&mut out, hay[i]);
            i += 1;
        }
    }
    assert(hay@.skip(n as int) =~= Seq::<char>::empty());
    out
}

} // verus!
