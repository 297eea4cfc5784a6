//! The numbered, capped report over a listing page's cards.

use vstd::prelude::*;
use crate::fields::{link_or_na, link_or_placeholder};
use scraper::Html;
use crate::page::{
    card_at, card_count, doc_of, extract_link, extract_price, extract_title, link_of, parse_document,
    price_of, select_all, title_of, ListingSelectors,
};
use crate::text::{is_clean, push_char};

verus! {

/// The most cards that a report shows.
pub const SHOW_CAP: usize = 10;

/// One shown card.
pub struct Entry {
    /// 1-based position among the shown cards.
    pub rank: usize,
    pub title: String,
    pub price: String,
    pub link: String,
    /// Whether the card's detail page is to be fetched: every shown card but the one
    /// that reaches the cap.
    pub fetch_detail: bool,
}

/// Ranks run 1, 2, ... in order, at most `SHOW_CAP` entries, and only the entry at the
/// cap goes without a detail fetch.
pub open spec fn well_ranked(entries: Seq<Entry>) -> bool {
    &&& entries.len() <= SHOW_CAP
    &&& forall|i: int|
        0 <= i < entries.len() ==> (#[trigger] entries[i]).rank == i + 1 && entries[i].fetch_detail
            == (i + 1 < SHOW_CAP)
}

/// However many cards a page holds, a report shows at most `SHOW_CAP` of them; where it
/// reaches the cap, the last entry alone is shown without a detail fetch.
pub proof fn lemma_cap_entry_not_fetched(entries: Seq<Entry>)
    requires
        well_ranked(entries),
    ensures
        entries.len() <= SHOW_CAP,
        entries.len() == SHOW_CAP ==> !entries[SHOW_CAP - 1].fetch_detail,
        forall|i: int| 0 <= i < entries.len() && i + 1 < SHOW_CAP ==> (#[trigger] entries[i]).fetch_detail,
{
    if entries.len() == SHOW_CAP {
        assert(entries[SHOW_CAP - 1].rank == SHOW_CAP);
    }
}

/// The entry that a titled card gets when `shown` cards were shown before it.
pub open spec fn next_entry(shown: nat, title: String, price: String, link: String) -> Entry {
    Entry { rank: (shown + 1) as usize, title, price, link, fetch_detail: shown + 1 < SHOW_CAP }
}

/// Shows one more titled card. Returns whether the report is now full, in which case
/// no further card is read and the new entry's detail page is not fetched.
pub fn show_card(entries: &mut Vec<Entry>, title: String, price: String, link: String) -> (full:
    bool)
    requires
        well_ranked(old(entries)@),
        old(entries).len() < SHOW_CAP,
    ensures
        final(entries)@ == old(entries)@.push(next_entry(old(entries).len() as nat, title, price, link)),
        full == (final(entries).len() == SHOW_CAP),
        well_ranked(final(entries)@),
{
    let rank = entries.len() + 1;
    let e = Entry { rank, title, price, link, fetch_detail: rank < SHOW_CAP };
    entries.push(e);
    proof {
        let s = final(entries)@;
        assert forall|i: int| 0 <= i < s.len() implies (#[trigger] s[i]).rank == i + 1
            && s[i].fetch_detail == (i + 1 < SHOW_CAP) by {
            if i < s.len() - 1 {
                assert(s[i] == old(entries)@[i]);
            }
        }
    }
    rank == SHOW_CAP
}

/// The positions, among the first `n` cards of `doc`, of the cards that have a title,
/// in document order.
pub open spec fn titled_cards(doc: Html, sels: ListingSelectors, n: nat) -> Seq<int>
    decreases n,
{
    if n == 0 {
        Seq::empty()
    } else {
        let p = titled_cards(doc, sels, (n - 1) as nat);
        if title_of(card_at(doc, sels.card, n - 1), sels.titles@, sels.image) is Some {
            p.push(n - 1)
        } else {
            p
        }
    }
}

/// Reading more cards only adds titled cards after those already found.
pub proof fn lemma_titled_prefix(doc: Html, sels: ListingSelectors, n: nat, m: nat)
    requires
        n <= m,
    ensures
        titled_cards(doc, sels, n).len() <= titled_cards(doc, sels, m).len(),
        forall|k: int|
            0 <= k < titled_cards(doc, sels, n).len() ==> #[trigger] titled_cards(doc, sels, m)[k]
                == titled_cards(doc, sels, n)[k],
    decreases m,
{
    if n < m {
        lemma_titled_prefix(doc, sels, n, (m - 1) as nat);
    }
}

/// Where none of the first `n` cards has a title, none of them is shown: a page without
/// a titled card gives an empty report.
pub proof fn lemma_no_titled_cards(doc: Html, sels: ListingSelectors, n: nat)
    requires
        forall|j: int|
            0 <= j < n ==> title_of(#[trigger] card_at(doc, sels.card, j), sels.titles@, sels.image)
                is None,
    ensures
        titled_cards(doc, sels, n).len() == 0,
    decreases n,
{
    if n > 0 {
        lemma_no_titled_cards(doc, sels, (n - 1) as nat);
    }
}

/// `e` is the `k`-th entry of a report, shown for the `c`-th card of `doc`.
pub open spec fn entry_for(e: Entry, doc: Html, sels: ListingSelectors, c: int, k: int) -> bool {
    let card = card_at(doc, sels.card, c);
    &&& e.rank == k + 1
    &&& title_of(card, sels.titles@, sels.image) == Some(e.title@)
    &&& e.price@ == price_of(card, sels.price)
    &&& e.link@ == link_or_na(link_of(card, sels.links@))
    &&& e.fetch_detail == (k + 1 < SHOW_CAP)
}

pub open spec fn capped(n: nat) -> nat {
    if n < SHOW_CAP {
        n
    } else {
        SHOW_CAP as nat
    }
}

/// The report over a listing page: its cards in document order, those without a title
/// skipped, each titled one numbered from 1 with its title, its price (or the
/// placeholder) and its resolved link (or the placeholder); reading stops at the
/// `SHOW_CAP`-th shown card, the one entry without a detail fetch.
pub fn listing_report(body: &str, sels: &ListingSelectors) -> (r: Vec<Entry>)
    ensures
        ({
            let doc = doc_of(body@);
            let titled = titled_cards(doc, *sels, card_count(doc, sels.card));
            &&& r.len() == capped(titled.len())
            &&& forall|k: int| 0 <= k < r.len() ==> entry_for(#[trigger] r[k], doc, *sels, titled[k], k)
        }),
        well_ranked(r@),
        forall|i: int| 0 <= i < r.len() ==> (#[trigger] r[i]).title@.len() > 0 && is_clean(r[i].title@),
{
    let doc = parse_document(body);
    let all = select_all(&doc, &sels.card);
    let ghost d = doc_of(body@);
    let mut entries: Vec<Entry> = Vec::new();
    let mut i: usize = 0;
    let mut full = false;
    while i < all.len() && !full
        invariant
            doc == d,
            all@.len() == card_count(d, sels.card),
            forall|j: int| 0 <= j < all@.len() ==> all@[j] == card_at(d, sels.card, j),
            i <= all.len(),
            well_ranked(entries@),
            entries.len() == titled_cards(d, *sels, i as nat).len(),
            full == (entries.len() == SHOW_CAP),
            forall|k: int| 0 <= k < entries.len() ==> entry_for(#[trigger] entries[k], d, *sels, titled_cards(d, *sels, i as nat)[k], k),
            forall|j: int| 0 <= j < entries.len() ==> (#[trigger] entries[j]).title@.len() > 0 && is_clean(entries[j].title@),
        decreases all.len() - i,
    {
        let item = &all[i];
        let ghost before = entries@;
        let ghost t_before = titled_cards(d, *sels, i as nat);
        proof {
            assert(*item == card_at(d, sels.card, i as int));
        }
        if let Some(title) = extract_title(item, &sels.titles, &sels.image) {
            let price = extract_price(item, &sels.price);
            let link = link_or_placeholder(extract_link(item, &sels.links));
            full = show_card(&mut entries, title, price, link);
            proof {
                let t_after = titled_cards(d, *sels, (i + 1) as nat);
                assert(t_after == t_before.push(i as int));
                assert forall|j: int| 0 <= j < entries.len() implies (#[trigger] entries[j]).title@.len() > 0 && is_clean(entries[j].title@) by {
                    if j < before.len() {
                        assert(entries@[j] == before[j]);
                    }
                }
                assert forall|k: int| 0 <= k < entries.len() implies entry_for(#[trigger] entries[k], d, *sels, t_after[k], k) by {
                    if k < before.len() {
                        assert(entries@[k] == before[k]);
                        assert(t_after[k] == t_before[k]);
                    }
                }
            }
        } else {
            proof {
                assert(titled_cards(d, *sels, (i + 1) as nat) == t_before);
            }
        }
        i += 1;
    }
    proof {
        lemma_titled_prefix(d, *sels, i as nat, card_count(d, sels.card));
    }
    entries
}

/// The decimal numeral of `n`.
pub open spec fn decimal(n: nat) -> Seq<char>
    decreases n,
{
    if n < 10 {
        seq![digit_char(n)]
    } else {
        decimal(n / 10).push(digit_char(n % 10))
    }
}

/// The decimal numeral of `n`, padded with a leading zero to at least two digits.
pub open spec fn two_digits(n: nat) -> Seq<char> {
    if n < 10 {
        seq!['0', digit_char(n)]
    } else {
        decimal(n)
    }
}

pub open spec fn digit_char(d: nat) -> char {
    ((d + 48) as u32) as char
}

/// The heading line of an entry: its rank in two digits, a dot, the title, a dash and
/// the price.
pub open spec fn heading_of(e: Entry) -> Seq<char> {
    two_digits(e.rank as nat) + ". "@ + e.title@ + " \u{2014} "@ + e.price@
}

/// The decimal digit `d`.
fn digit(d: usize) -> (c: char)
    requires
        d < 10,
    ensures
        c == digit_char(d as nat),
{
    if d == 0 { '0' } else if d == 1 { '1' } else if d == 2 { '2' } else if d == 3 { '3' }
    else if d == 4 { '4' } else if d == 5 { '5' } else if d == 6 { '6' } else if d == 7 { '7' }
    else if d == 8 { '8' } else { '9' }
}

/// Appends the decimal numeral of `n`.
fn push_decimal(s: &mut String, n: usize)
    ensures
        final(s)@ == old(s)@ + decimal(n as nat),
    decreases n,
{
    if n >= 10 {
        push_decimal(s, n / 10);
    }
    push_char(s, digit(n % 10));
    proof {
        assert(final(s)@ =~= old(s)@ + decimal(n as nat));
    }
}

/// The heading line of a shown entry.
pub fn heading(e: &Entry) -> (r: String)
    ensures
        r@ == heading_of(*e),
{
    let mut s = String::new();
    if e.rank < 10 {
        push_char(&mut s, '0');
    }
    push_decimal(&mut s, e.rank);
    proof {
        assert(s@ =~= two_digits(e.rank as nat));
    }
    let s = s.concat(". ").concat(e.title.as_str()).concat(" \u{2014} ").concat(e.price.as_str());
    s
}

} // verus!
