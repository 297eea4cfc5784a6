//! Choosing a card's fields from what its selectors found.

use vstd::prelude::*;
use vstd::string::{StrSliceExecFns, StringExecFns};
use crate::text::{clean, clean_text, is_clean, lemma_clean_is_clean};

verus! {

/// Placeholder for a field that no selector found.
pub const NOT_AVAILABLE: &'static str = "N/A";

/// The site's origin, put in front of a relative link.
pub const ORIGIN: &'static str = "https://www.amazon.com";

pub open spec fn opt_view(o: Option<String>) -> Option<Seq<char>> {
    match o {
        Some(s) => Some(s@),
        None => None,
    }
}

/// The normal form of a found text, or nothing where there is no text or it is blank.
pub open spec fn usable(o: Option<Seq<char>>) -> Option<Seq<char>> {
    match o {
        Some(s) => if clean(s).len() > 0 {
            Some(clean(s))
        } else {
            None
        },
        None => None,
    }
}

/// The first usable text of `found`, in order.
pub open spec fn first_usable(found: Seq<Option<Seq<char>>>) -> Option<Seq<char>>
    decreases found.len(),
{
    if found.len() == 0 {
        None
    } else {
        match usable(found[0]) {
            Some(t) => Some(t),
            None => first_usable(found.drop_first()),
        }
    }
}

/// A card's title: the first usable text of the selector chain, and only where
/// there is none, the usable image alternative text.
pub open spec fn title_choice(found: Seq<Option<Seq<char>>>, alt: Option<Seq<char>>) -> Option<Seq<char>> {
    match first_usable(found) {
        Some(t) => Some(t),
        None => usable(alt),
    }
}

proof fn lemma_first_usable_clean(found: Seq<Option<Seq<char>>>)
    ensures
        first_usable(found) matches Some(t) ==> t.len() > 0 && is_clean(t),
    decreases found.len(),
{
    if found.len() > 0 {
        if let Some(s) = found[0] {
            lemma_clean_is_clean(s);
        }
        lemma_first_usable_clean(found.drop_first());
    }
}

/// A chosen title is never blank and always in normal form.
pub proof fn lemma_title_choice_clean(found: Seq<Option<Seq<char>>>, alt: Option<Seq<char>>)
    ensures
        title_choice(found, alt) matches Some(t) ==> t.len() > 0 && is_clean(t),
{
    lemma_first_usable_clean(found);
    if let Some(s) = alt {
        lemma_clean_is_clean(s);
    }
}

/// The title chain wins over the image alternative text: where some selector of the
/// chain found a usable text, the first such one is the title whatever the image holds;
/// where neither the chain nor the image gives one, there is no title.
pub proof fn lemma_chain_before_alt(found: Seq<Option<Seq<char>>>, alt: Option<Seq<char>>, k: int)
    requires
        0 <= k < found.len(),
        usable(found[k]) is Some,
        forall|j: int| 0 <= j < k ==> usable(#[trigger] found[j]) is None,
    ensures
        first_usable(found) == usable(found[k]),
        title_choice(found, alt) == usable(found[k]),
        forall|other: Option<Seq<char>>| #[trigger] title_choice(found, other) == usable(found[k]),
    decreases k,
{
    if k > 0 {
        let rest = found.drop_first();
        assert forall|j: int| 0 <= j < k - 1 implies usable(#[trigger] rest[j]) is None by {
            assert(rest[j] == found[j + 1]);
        }
        assert(usable(found[0]) is None);
        lemma_chain_before_alt(rest, alt, k - 1);
        assert(rest[k - 1] == found[k]);
    }
}

/// Where no text of the chain is usable, the title is the usable image text; so where
/// that is not usable either, there is no title.
pub proof fn lemma_no_title(found: Seq<Option<Seq<char>>>, alt: Option<Seq<char>>)
    requires
        forall|j: int| 0 <= j < found.len() ==> usable(#[trigger] found[j]) is None,
    ensures
        first_usable(found) is None,
        title_choice(found, alt) == usable(alt),
    decreases found.len(),
{
    if found.len() > 0 {
        let rest = found.drop_first();
        assert forall|j: int| 0 <= j < rest.len() implies usable(#[trigger] rest[j]) is None by {
            assert(rest[j] == found[j + 1]);
        }
        assert(usable(found[0]) is None);
        lemma_no_title(rest, alt);
    }
}

/// The usable form of one found text.
pub fn usable_text(o: &Option<String>) -> (r: Option<String>)
    ensures
        opt_view(r) == usable(opt_view(*o)),
{
    match o {
        Some(s) => {
            let t = clean_text(s.as_str());
            if t.as_str().unicode_len() > 0 {
                Some(t)
            } else {
                None
            }
        },
        None => None,
    }
}

/// ASCII letter.
pub open spec fn is_alpha(c: char) -> bool {
    ('a' <= c && c <= 'z') || ('A' <= c && c <= 'Z')
}

/// A character allowed after the first one of a URL scheme.
pub open spec fn is_scheme_char(c: char) -> bool {
    is_alpha(c) || ('0' <= c && c <= '9') || c == '+' || c == '-' || c == '.'
}

/// `h` starts with a URL scheme: a letter, then letters, digits, `+`, `-` or `.`, then `:`.
pub open spec fn has_scheme(h: Seq<char>) -> bool {
    exists|k: int| #[trigger] scheme_ends_at(h, k)
}

/// `h[k]` is the `:` that closes a URL scheme at the start of `h`.
pub open spec fn scheme_ends_at(h: Seq<char>, k: int) -> bool {
    &&& 1 <= k < h.len()
    &&& h[k] == ':'
    &&& is_alpha(h[0])
    &&& forall|j: int| 1 <= j < k ==> is_scheme_char(#[trigger] h[j])
}

/// An absolute link as it is; a relative one behind the site's origin.
pub open spec fn resolved(h: Seq<char>) -> Seq<char> {
    if has_scheme(h) {
        h
    } else {
        ORIGIN@ + h
    }
}

/// A resolved link always starts with a URL scheme.
pub proof fn lemma_resolved_absolute(h: Seq<char>)
    ensures
        has_scheme(resolved(h)),
{
    if !has_scheme(h) {
        reveal_strlit("https://www.amazon.com");
        let r = ORIGIN@ + h;
        assert(r[0] == 'h' && r[1] == 't' && r[2] == 't' && r[3] == 'p' && r[4] == 's');
        assert(r[5] == ':');
        assert(scheme_ends_at(r, 5));
    }
}

/// A chosen link always starts with a URL scheme.
pub proof fn lemma_link_choice_absolute(found: Seq<Option<Seq<char>>>)
    ensures
        link_choice(found) matches Some(l) ==> has_scheme(l),
    decreases found.len(),
{
    if found.len() > 0 {
        if let Some(h) = found[0] {
            lemma_resolved_absolute(h);
        } else {
            lemma_link_choice_absolute(found.drop_first());
        }
    }
}

/// Whether `h` starts with a URL scheme.
pub fn starts_with_scheme(h: &str) -> (r: bool)
    ensures
        r == has_scheme(h@),
{
    let n = h.unicode_len();
    if n == 0 || !{
        let c = h.get_char(0);
        ('a' <= c && c <= 'z') || ('A' <= c && c <= 'Z')
    } {
        return false;
    }
    let mut k: usize = 1;
    while k < n
        invariant
            n == h@.len(),
            1 <= k <= n,
            is_alpha(h@[0]),
            forall|j: int| 1 <= j < k ==> is_scheme_char(#[trigger] h@[j]),
        decreases n - k,
    {
        let c = h.get_char(k);
        if c == ':' {
            proof {
                assert(scheme_ends_at(h@, k as int));
            }
            return true;
        }
        if !(('a' <= c && c <= 'z') || ('A' <= c && c <= 'Z') || ('0' <= c && c <= '9') || c
            == '+' || c == '-' || c == '.') {
            proof {
                assert forall|m: int| !(#[trigger] scheme_ends_at(h@, m)) by {
                    if !(1 <= m < h@.len() && h@[m] == ':') {
                    } else if m > k {
                        assert(!is_scheme_char(h@[k as int]));
                    } else {
                        assert(h@[m] == ':');
                        assert(is_scheme_char(h@[m]));
                    }
                }
            }
            return false;
        }
        k += 1;
    }
    proof {
        assert forall|m: int| !(#[trigger] scheme_ends_at(h@, m)) by {
            if 1 <= m < h@.len() && h@[m] == ':' {
                assert(is_scheme_char(h@[m]));
            }
        }
    }
    false
}

/// Resolves a link target: an absolute one passes unchanged, a relative one gets the
/// site's origin in front.
pub fn resolve_link(href: &str) -> (r: String)
    ensures
        r@ == resolved(href@),
{
    if starts_with_scheme(href) {
        String::from_str(href)
    } else {
        String::from_str(ORIGIN).concat(href)
    }
}

/// The first link target found, in order, resolved.
pub open spec fn link_choice(found: Seq<Option<Seq<char>>>) -> Option<Seq<char>>
    decreases found.len(),
{
    if found.len() == 0 {
        None
    } else {
        match found[0] {
            Some(h) => Some(resolved(h)),
            None => link_choice(found.drop_first()),
        }
    }
}

/// The first found link target wins: where the `k`-th is the first found, the chosen
/// link is that target resolved; where none is found, there is no link.
pub proof fn lemma_first_link(found: Seq<Option<Seq<char>>>, k: int)
    requires
        0 <= k <= found.len(),
        forall|j: int| 0 <= j < k ==> (#[trigger] found[j]) is None,
    ensures
        k < found.len() && found[k] is Some ==> link_choice(found) == Some(resolved(found[k]->0)),
        k == found.len() ==> link_choice(found) is None,
    decreases k,
{
    if k > 0 {
        let rest = found.drop_first();
        assert forall|j: int| 0 <= j < k - 1 implies (#[trigger] rest[j]) is None by {
            assert(rest[j] == found[j + 1]);
        }
        assert(found[0] is None);
        lemma_first_link(rest, k - 1);
        if k < found.len() {
            assert(rest[k - 1] == found[k]);
        }
    }
}

/// A link, or the placeholder where none was found.
pub open spec fn link_or_na(o: Option<Seq<char>>) -> Seq<char> {
    match o {
        Some(l) => l,
        None => NOT_AVAILABLE@,
    }
}

/// A field's normal form, or the placeholder where nothing was found.
pub open spec fn text_or_placeholder(o: Option<Seq<char>>) -> Seq<char> {
    match o {
        Some(s) => clean(s),
        None => NOT_AVAILABLE@,
    }
}

/// The normal form of a found field text, or the placeholder.
pub fn field_text(o: &Option<String>) -> (r: String)
    ensures
        r@ == text_or_placeholder(opt_view(*o)),
{
    match o {
        Some(s) => clean_text(s.as_str()),
        None => String::from_str(NOT_AVAILABLE),
    }
}

/// A link, or the placeholder where no selector found one.
pub fn link_or_placeholder(o: Option<String>) -> (r: String)
    ensures
        r@ == link_or_na(opt_view(o)),
{
    match o {
        Some(s) => s,
        None => String::from_str(NOT_AVAILABLE),
    }
}

} // verus!
