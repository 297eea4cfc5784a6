//! Whitespace normalisation of text taken out of markup.

use vstd::prelude::*;
use vstd::string::StrSliceExecFns;

verus! {

/// Unicode `White_Space`: the characters on which `str::split_whitespace` splits.
pub open spec fn is_ws(c: char) -> bool {
    let u = c as u32;
    (0x09 <= u && u <= 0x0d) || u == 0x20 || u == 0x85 || u == 0xa0 || u == 0x1680
        || (0x2000 <= u && u <= 0x200a) || u == 0x2028 || u == 0x2029 || u == 0x202f
        || u == 0x205f || u == 0x3000
}

/// The normal form of `s`: its whitespace-free runs, in order, joined by single spaces.
/// Defined by reading `s` from the left: whitespace is dropped, and a non-whitespace
/// character that follows whitespace after some earlier word starts a new word.
pub open spec fn clean(s: Seq<char>) -> Seq<char>
    decreases s.len(),
{
    if s.len() == 0 {
        Seq::empty()
    } else {
        let p = s.drop_last();
        let c = s.last();
        if is_ws(c) {
            clean(p)
        } else if p.len() > 0 && is_ws(p.last()) && clean(p).len() > 0 {
            clean(p).push(' ').push(c)
        } else {
            clean(p).push(c)
        }
    }
}

/// No whitespace but single inner spaces: nothing at either end, no two spaces in a row.
pub open spec fn is_clean(t: Seq<char>) -> bool {
    &&& forall|i: int| 0 <= i < t.len() && is_ws(#[trigger] t[i]) ==> t[i] == ' '
    &&& t.len() > 0 ==> t[0] != ' ' && t.last() != ' '
    &&& forall|i: int| 0 <= i < t.len() - 1 && #[trigger] t[i] == ' ' ==> t[i + 1] != ' '
}

/// The normal form holds no leading, trailing or doubled whitespace.
pub proof fn lemma_clean_is_clean(s: Seq<char>)
    ensures
        is_clean(clean(s)),
    decreases s.len(),
{
    if s.len() > 0 {
        let p = s.drop_last();
        lemma_clean_is_clean(p);
        let q = clean(p);
        let c = s.last();
        if !is_ws(c) {
            if p.len() > 0 && is_ws(p.last()) && q.len() > 0 {
                let r = q.push(' ').push(c);
                assert forall|i: int| 0 <= i < r.len() - 1 && #[trigger] r[i] == ' ' implies r[i
                    + 1] != ' ' by {
                    if i < q.len() - 1 {
                        assert(r[i] == q[i] && r[i + 1] == q[i + 1]);
                    }
                }
                assert forall|i: int| 0 <= i < r.len() && is_ws(#[trigger] r[i]) implies r[i]
                    == ' ' by {
                    if i < q.len() {
                        assert(r[i] == q[i]);
                    }
                }
            } else {
                let r = q.push(c);
                assert forall|i: int| 0 <= i < r.len() - 1 && #[trigger] r[i] == ' ' implies r[i
                    + 1] != ' ' by {
                    if i < q.len() - 1 {
                        assert(r[i] == q[i] && r[i + 1] == q[i + 1]);
                    }
                }
                assert forall|i: int| 0 <= i < r.len() && is_ws(#[trigger] r[i]) implies r[i]
                    == ' ' by {
                    if i < q.len() {
                        assert(r[i] == q[i]);
                    }
                }
            }
        }
    }
}

/// A text whose only whitespace is single spaces, none leading, normalises to itself
/// with at most one trailing space removed.
proof fn lemma_clean_of_spaced(t: Seq<char>)
    requires
        forall|i: int| 0 <= i < t.len() && is_ws(#[trigger] t[i]) ==> t[i] == ' ',
        t.len() > 0 ==> t[0] != ' ',
        forall|i: int| 0 <= i < t.len() - 1 && #[trigger] t[i] == ' ' ==> t[i + 1] != ' ',
    ensures
        clean(t) == (if t.len() > 0 && t.last() == ' ' {
            t.drop_last()
        } else {
            t
        }),
    decreases t.len(),
{
    if t.len() > 0 {
        let p = t.drop_last();
        assert forall|i: int| 0 <= i < p.len() && is_ws(#[trigger] p[i]) implies p[i] == ' ' by {
            assert(p[i] == t[i]);
        }
        assert forall|i: int| 0 <= i < p.len() - 1 && #[trigger] p[i] == ' ' implies p[i + 1]
            != ' ' by {
            assert(p[i] == t[i] && p[i + 1] == t[i + 1]);
        }
        lemma_clean_of_spaced(p);
        if p.len() > 0 {
            assert(p.last() == t[t.len() - 2]);
        }
        if t.last() == ' ' {
            assert(clean(t) == clean(p));
        } else if p.len() > 0 && is_ws(p.last()) {
            assert(p.last() == ' ');
            assert(p.len() >= 2);
            assert(p.drop_last()[0] == t[0]);
            assert(clean(p) == p.drop_last());
            assert(clean(t) =~= t);
        } else {
            assert(clean(t) =~= t);
        }
    }
}

/// A text already in normal form is its own normal form.
pub proof fn lemma_clean_fixes_clean(t: Seq<char>)
    requires
        is_clean(t),
    ensures
        clean(t) == t,
{
    lemma_clean_of_spaced(t);
}

/// Normalising twice gives what normalising once gives.
pub proof fn lemma_clean_idempotent(s: Seq<char>)
    ensures
        clean(clean(s)) == clean(s),
{
    lemma_clean_is_clean(s);
    lemma_clean_fixes_clean(clean(s));
}

/// Whether `c` is whitespace in the sense of [`is_ws`].
pub fn is_whitespace(c: char) -> (r: bool)
    ensures
        r == is_ws(c),
{
    let u = c as u32;
    (0x09 <= u && u <= 0x0d) || u == 0x20 || u == 0x85 || u == 0xa0 || u == 0x1680 || (0x2000
        <= u && u <= 0x200a) || u == 0x2028 || u == 0x2029 || u == 0x202f || u == 0x205f || u
        == 0x3000
}

/// The characters of `s`, in order.
fn chars_of(s: &str) -> (r: Vec<char>)
    ensures
        r@ == s@,
{
    let n = s.unicode_len();
    let mut r: Vec<char> = Vec::new();
    let mut i: usize = 0;
    while i < n
        invariant
            n == s@.len(),
            i <= n,
            r@ == s@.subrange(0, i as int),
        decreases n - i,
    {
        r.push(s.get_char(i));
        i += 1;
        proof {
            assert(r@ =~= s@.subrange(0, i as int));
        }
    }
    proof {
        assert(r@ =~= s@);
    }
    r
}

/// Relies on `String::push`: appends one character.
#[verifier::external_body]
pub(crate) fn push_char(s: &mut String, c: char)
    ensures
        final(s)@ == old(s)@.push(c),
{
    s.push(c)
}

/// Collapses every whitespace run of `s` to a single space and trims both ends.
pub fn clean_text(s: &str) -> (r: String)
    ensures
        r@ == clean(s@),
        is_clean(r@),
{
    let v = chars_of(s);
    let mut out = String::new();
    let mut has_word = false;
    let mut i: usize = 0;
    while i < v.len()
        invariant
            v@ == s@,
            has_word == (out@.len() > 0),
            i <= v.len(),
            out@ == clean(v@.subrange(0, i as int)),
        decreases v.len() - i,
    {
        let c = v[i];
        proof {
            let t = v@.subrange(0, i as int + 1);
            assert(t.drop_last() =~= v@.subrange(0, i as int));
            assert(t.last() == c);
        }
        if !is_whitespace(c) {
            if i > 0 && is_whitespace(v[i - 1]) && has_word {
                push_char(&mut out, ' ');
            }
            push_char(&mut out, c);
            has_word = true;
        }
        i += 1;
    }
    proof {
        assert(v@.subrange(0, v.len() as int) =~= s@);
        lemma_clean_is_clean(s@);
    }
    out
}

} // verus!
