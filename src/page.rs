//! Reading a card's fields and a detail page's fields out of parsed HTML.

use vstd::prelude::*;
use scraper::{ElementRef, Html, Selector};
use crate::fields::{
    field_text, has_scheme, lemma_chain_before_alt, lemma_first_link, lemma_link_choice_absolute,
    lemma_no_title, lemma_title_choice_clean, link_choice, opt_view, resolve_link, text_or_placeholder,
    title_choice, usable, usable_text,
};
use crate::text::is_clean;

verus! {

#[verifier::external_type_specification]
#[verifier::external_body]
pub struct ExHtml(scraper::Html);

#[verifier::external_type_specification]
#[verifier::external_body]
pub struct ExSelector(scraper::Selector);

#[verifier::external_type_specification]
#[verifier::external_body]
pub struct ExElementRef<'a>(scraper::ElementRef<'a>);

/// The document tree that `scraper::Html::parse_document` builds from a text.
pub uninterp spec fn doc_of(body: Seq<char>) -> Html;

/// How many elements of `doc` match `sel`.
pub uninterp spec fn card_count(doc: Html, sel: Selector) -> nat;

/// The `i`-th element of `doc`, in document order, that matches `sel`.
pub uninterp spec fn card_at(doc: Html, sel: Selector, i: int) -> ElementRef<'static>;

/// The text content of the first element of `doc` that matches `sel`, if any.
pub uninterp spec fn doc_first_text_of(doc: Html, sel: Selector) -> Option<Seq<char>>;

/// The text content of the first descendant of `el` that matches `sel`, if any.
pub uninterp spec fn first_text_of(el: ElementRef<'_>, sel: Selector) -> Option<Seq<char>>;

/// The attribute `name` of the first descendant of `el` that matches `sel`, where that
/// descendant exists and has the attribute.
pub uninterp spec fn first_attr_of(el: ElementRef<'_>, sel: Selector, name: Seq<char>) -> Option<
    Seq<char>,
>;

/// Relies on `scraper::Html::parse_document`: builds the document tree of `body`, which
/// depends on the text alone.
#[verifier::external_body]
pub(crate) fn parse_document(body: &str) -> (r: Html)
    ensures
        r == doc_of(body@),
{
    Html::parse_document(body)
}

/// Relies on `scraper::Selector::parse`: the selector group written in `text`, or
/// nothing where it does not parse.
#[verifier::external_body]
fn parse_selector(text: &str) -> (r: Option<Selector>) {
    Selector::parse(text).ok()
}

/// Relies on `scraper::Html::select`: the elements of `doc` that match `sel`, in
/// document order.
#[verifier::external_body]
pub(crate) fn select_all<'a>(doc: &'a Html, sel: &Selector) -> (r: Vec<ElementRef<'a>>)
    ensures
        r@.len() == card_count(*doc, *sel),
        forall|i: int| 0 <= i < r@.len() ==> r@[i] == card_at(*doc, *sel, i),
{
    doc.select(sel).collect()
}

/// Relies on `scraper::Html::select` and `scraper::ElementRef::text`: the text content
/// of the first element of `doc` that matches `sel`, if any.
#[verifier::external_body]
fn doc_first_text(doc: &Html, sel: &Selector) -> (r: Option<String>)
    ensures
        opt_view(r) == doc_first_text_of(*doc, *sel),
{
    doc.select(sel).next().map(|e| e.text().collect::<String>())
}

/// Relies on `scraper::ElementRef::select` and `scraper::ElementRef::text`: the text
/// content of the first descendant of `el` that matches `sel`, if any.
#[verifier::external_body]
fn first_text_in(el: &ElementRef, sel: &Selector) -> (r: Option<String>)
    ensures
        opt_view(r) == first_text_of(*el, *sel),
{
    el.select(sel).next().map(|e| e.text().collect::<String>())
}

/// Relies on `scraper::ElementRef::select` and `scraper::node::Element::attr`: the
/// attribute `name` of the first descendant of `el` that matches `sel`, if that
/// descendant exists and has the attribute.
#[verifier::external_body]
fn first_attr_in(el: &ElementRef, sel: &Selector, name: &str) -> (r: Option<String>)
    ensures
        opt_view(r) == first_attr_of(*el, *sel, name@),
{
    el.select(sel).next().and_then(|e| e.value().attr(name)).map(|a| a.to_string())
}

/// The selectors that pick cards and their fields out of a listing page.
pub struct ListingSelectors {
    pub card: Selector,
    pub titles: Vec<Selector>,
    pub image: Selector,
    pub links: Vec<Selector>,
    pub price: Selector,
}

/// The selectors of a product detail page.
pub struct DetailSelectors {
    pub rating: Selector,
    pub review_count: Selector,
}

/// The fixed listing selectors: the search-result card marker, the title chain, the
/// product image, the link chain and the price.
pub fn listing_selectors() -> (r: Option<ListingSelectors>)
    ensures
        r matches Some(s) ==> s.titles.len() == 4 && s.links.len() == 3,
{
    let card = parse_selector("div[data-component-type=\"s-search-result\"]")?;
    let mut titles: Vec<Selector> = Vec::new();
    titles.push(parse_selector("h2 a span")?);
    titles.push(parse_selector("a.a-link-normal.s-line-clamp-2 span")?);
    titles.push(parse_selector("span.a-size-base-plus.a-color-base.a-text-normal")?);
    titles.push(parse_selector("span.a-size-medium.a-color-base.a-text-normal")?);
    let image = parse_selector("img.s-image")?;
    let mut links: Vec<Selector> = Vec::new();
    links.push(parse_selector("h2 a")?);
    links.push(parse_selector("a.a-link-normal.s-no-outline")?);
    links.push(parse_selector("a.a-link-normal[href*=\"/dp/\"]")?);
    let price = parse_selector("span.a-price span.a-offscreen")?;
    Some(ListingSelectors { card, titles, image, links, price })
}

/// The fixed detail selectors: the star rating text and the review count.
pub fn detail_selectors() -> Option<DetailSelectors> {
    let rating = parse_selector("span.a-icon-alt")?;
    let review_count = parse_selector("#acrCustomerReviewText")?;
    Some(DetailSelectors { rating, review_count })
}

/// What each selector of `titles` finds as text in `item`, in order.
pub open spec fn title_texts(item: ElementRef<'_>, titles: Seq<Selector>) -> Seq<Option<Seq<char>>> {
    Seq::new(titles.len(), |i: int| first_text_of(item, titles[i]))
}

/// A card's title: from the title selectors' texts, and the image's `alt` text.
pub open spec fn title_of(item: ElementRef<'_>, titles: Seq<Selector>, image: Selector) -> Option<
    Seq<char>,
> {
    title_choice(title_texts(item, titles), first_attr_of(item, image, "alt"@))
}

/// What each selector of `links` finds as `href` in `item`, in order.
pub open spec fn link_targets(item: ElementRef<'_>, links: Seq<Selector>) -> Seq<Option<Seq<char>>> {
    Seq::new(links.len(), |i: int| first_attr_of(item, links[i], "href"@))
}

/// A card's link, resolved.
pub open spec fn link_of(item: ElementRef<'_>, links: Seq<Selector>) -> Option<Seq<char>> {
    link_choice(link_targets(item, links))
}

/// A card's price text.
pub open spec fn price_of(item: ElementRef<'_>, price: Selector) -> Seq<char> {
    text_or_placeholder(first_text_of(item, price))
}

/// A card's title: the first selector of `titles` whose first match has non-blank text
/// wins, and later selectors are not tried; only where none does is the `alt` text of
/// the first `image` match used. The title is in normal form and never blank.
pub fn extract_title(item: &ElementRef, titles: &Vec<Selector>, image: &Selector) -> (r: Option<
    String,
>)
    ensures
        opt_view(r) == title_of(*item, titles@, *image),
        r matches Some(t) ==> t@.len() > 0 && is_clean(t@),
{
    let ghost found = title_texts(*item, titles@);
    proof {
        lemma_title_choice_clean(found, first_attr_of(*item, *image, "alt"@));
    }
    let mut i: usize = 0;
    while i < titles.len()
        invariant
            i <= titles.len(),
            found == title_texts(*item, titles@),
            forall|j: int| 0 <= j < i ==> usable(#[trigger] found[j]) is None,
        decreases titles.len() - i,
    {
        let t = first_text_in(item, &titles[i]);
        let u = usable_text(&t);
        if u.is_some() {
            proof {
                lemma_chain_before_alt(found, first_attr_of(*item, *image, "alt"@), i as int);
                lemma_title_choice_clean(found, first_attr_of(*item, *image, "alt"@));
            }
            return u;
        }
        i += 1;
    }
    proof {
        lemma_no_title(found, first_attr_of(*item, *image, "alt"@));
    }
    usable_text(&first_attr_in(item, image, "alt"))
}

/// A card's link: the `href` of the first match of the first selector of `links` whose
/// first match has one, resolved against the site's origin; later selectors are not
/// tried.
pub fn extract_link(item: &ElementRef, links: &Vec<Selector>) -> (r: Option<String>)
    ensures
        opt_view(r) == link_of(*item, links@),
        r matches Some(l) ==> has_scheme(l@),
{
    let ghost found = link_targets(*item, links@);
    proof {
        lemma_link_choice_absolute(found);
    }
    let mut i: usize = 0;
    while i < links.len()
        invariant
            i <= links.len(),
            found == link_targets(*item, links@),
            forall|j: int| 0 <= j < i ==> (#[trigger] found[j]) is None,
        decreases links.len() - i,
    {
        let h = first_attr_in(item, &links[i], "href");
        if let Some(h) = h {
            proof {
                lemma_first_link(found, i as int);
                lemma_link_choice_absolute(found);
            }
            return Some(resolve_link(h.as_str()));
        }
        i += 1;
    }
    proof {
        lemma_first_link(found, i as int);
    }
    None
}

/// A card's price text in normal form, or the placeholder.
pub fn extract_price(item: &ElementRef, price: &Selector) -> (r: String)
    ensures
        r@ == price_of(*item, *price),
{
    field_text(&first_text_in(item, price))
}

/// What a product detail page tells of the product.
pub struct Detail {
    pub rating_text: String,
    pub review_count: String,
}

/// A detail record from the texts that the two detail selectors found: each in normal
/// form, or the placeholder where its selector found nothing.
pub fn detail_from(rating: &Option<String>, reviews: &Option<String>) -> (r: Detail)
    ensures
        r.rating_text@ == text_or_placeholder(opt_view(*rating)),
        r.review_count@ == text_or_placeholder(opt_view(*reviews)),
{
    Detail { rating_text: field_text(rating), review_count: field_text(reviews) }
}

/// Reads the rating and review count out of a product detail page.
pub fn parse_detail(body: &str, sels: &DetailSelectors) -> (r: Detail)
    ensures
        r.rating_text@ == text_or_placeholder(doc_first_text_of(doc_of(body@), sels.rating)),
        r.review_count@ == text_or_placeholder(doc_first_text_of(doc_of(body@), sels.review_count)),
{
    let doc = parse_document(body);
    let rating = doc_first_text(&doc, &sels.rating);
    let reviews = doc_first_text(&doc, &sels.review_count);
    detail_from(&rating, &reviews)
}

} // verus!
