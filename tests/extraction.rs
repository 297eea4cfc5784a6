use listing_scraper::fields::{resolve_link, starts_with_scheme};
use listing_scraper::listing::{heading, listing_report, Entry, SHOW_CAP};
use listing_scraper::page::{
    detail_from, detail_selectors, extract_link, extract_title, listing_selectors, parse_detail,
};
use scraper::{Html, Selector};
use listing_scraper::text::clean_text;

fn some(s: &str) -> Option<String> {
    Some(s.to_string())
}

fn card(inner: &str) -> String {
    format!("<div data-component-type=\"s-search-result\">{}</div>", inner)
}

fn page(cards: &[String]) -> String {
    format!("<html><body>{}</body></html>", cards.concat())
}

fn report(body: &str) -> Vec<Entry> {
    let sels = listing_selectors().expect("fixed selectors parse");
    listing_report(body, &sels)
}

#[test]
fn clean_text_collapses_runs_and_trims() {
    assert_eq!(clean_text("  Acme \t Laptop\n\n 15\"  "), "Acme Laptop 15\"");
    assert_eq!(clean_text("one"), "one");
    assert_eq!(clean_text("a  b"), "a b");
}

#[test]
fn clean_text_of_blank_is_empty() {
    assert_eq!(clean_text(""), "");
    assert_eq!(clean_text(" \t\r\n "), "");
}

#[test]
fn clean_text_splits_on_unicode_whitespace() {
    assert_eq!(clean_text("\u{a0}x\u{3000}y\u{2009}z\u{85}"), "x y z");
}

#[test]
fn clean_text_is_idempotent() {
    for s in ["  a  b ", "x\ny", "", "  ", "already clean"] {
        let once = clean_text(s);
        assert_eq!(clean_text(&once), once);
        assert!(!once.contains("  "));
        assert_eq!(once.trim(), once);
    }
}

fn first_card(body: &str) -> (Html, Selector) {
    let doc = Html::parse_document(body);
    let sel = Selector::parse("div[data-component-type=\"s-search-result\"]").unwrap();
    (doc, sel)
}

fn title_in(inner: &str) -> Option<String> {
    let sels = listing_selectors().expect("fixed selectors parse");
    let (doc, sel) = first_card(&page(&[card(inner)]));
    let item = doc.select(&sel).next().expect("one card");
    extract_title(&item, &sels.titles, &sels.image)
}

fn link_in(inner: &str) -> Option<String> {
    let sels = listing_selectors().expect("fixed selectors parse");
    let (doc, sel) = first_card(&page(&[card(inner)]));
    let item = doc.select(&sel).next().expect("one card");
    extract_link(&item, &sels.links)
}

#[test]
fn extract_title_takes_first_non_blank_of_chain() {
    let inner = "<img class=\"s-image\" alt=\"Alt\"><h2><a><span>   </span></a></h2>\
                 <span class=\"a-size-base-plus a-color-base a-text-normal\"> Second  Title </span>\
                 <span class=\"a-size-medium a-color-base a-text-normal\">Third</span>";
    assert_eq!(title_in(inner), some("Second Title"));
}

#[test]
fn extract_title_falls_back_to_alt() {
    let inner = "<h2><a><span> \n </span></a></h2><img class=\"s-image\" alt=\"  Image  Alt \">";
    assert_eq!(title_in(inner), some("Image Alt"));
}

#[test]
fn extract_title_absent_when_nothing_usable() {
    assert_eq!(title_in("<h2><a><span>  </span></a></h2><img class=\"s-image\" alt=\" \">"), None);
    assert_eq!(title_in("<img class=\"s-image\">"), None);
    assert_eq!(title_in(""), None);
}

#[test]
fn extract_link_takes_first_found_href() {
    let inner = "<h2><a>no href</a></h2><a class=\"a-link-normal s-no-outline\" href=\"/dp/A\">x</a>\
                 <a class=\"a-link-normal\" href=\"https://other/dp/B\">y</a>";
    assert_eq!(link_in(inner), some("https://www.amazon.com/dp/A"));
    assert_eq!(link_in("<h2><a href=\"http://abs.example/p\">t</a></h2>"), some("http://abs.example/p"));
    assert_eq!(link_in("<a class=\"other\" href=\"/dp/C\">z</a>"), None);
}

#[test]
fn resolve_link_keeps_absolute() {
    assert_eq!(resolve_link("https://example.com/x"), "https://example.com/x");
    assert_eq!(resolve_link("http://example.com/y"), "http://example.com/y");
}

#[test]
fn resolve_link_prefixes_relative() {
    assert_eq!(resolve_link("/dp/B000123"), "https://www.amazon.com/dp/B000123");
    assert_eq!(resolve_link(""), "https://www.amazon.com");
}

#[test]
fn scheme_detection() {
    assert!(starts_with_scheme("ftp://host"));
    assert!(starts_with_scheme("a+b-c.d:rest"));
    assert!(!starts_with_scheme("/dp/B0:1"));
    assert!(!starts_with_scheme("1http://x"));
    assert!(!starts_with_scheme("http"));
    assert!(!starts_with_scheme(":x"));
}

#[test]
fn heading_pads_rank() {
    let e = Entry {
        rank: 1,
        title: "Laptop".to_string(),
        price: "$563.68".to_string(),
        link: "N/A".to_string(),
        fetch_detail: true,
    };
    assert_eq!(heading(&e), "01. Laptop \u{2014} $563.68");
    let e10 = Entry { rank: 10, ..e };
    assert_eq!(heading(&e10), "10. Laptop \u{2014} $563.68");
    let e123 = Entry { rank: 123, ..e10 };
    assert_eq!(heading(&e123), "123. Laptop \u{2014} $563.68");
}

#[test]
fn fixture_with_three_cards() {
    let body = page(&[
        card("<span class=\"a-price\"><span class=\"a-offscreen\">$1.00</span></span>"),
        card("<img class=\"s-image\" alt=\"  Alt   Only Laptop \"><a class=\"a-link-normal s-no-outline\" href=\"/dp/B1\">x</a>"),
        card("<h2><a href=\"/dp/B2\"><span> Full  Laptop </span></a></h2><span class=\"a-price\"><span class=\"a-offscreen\">$563.68</span></span>"),
    ]);
    let r = report(&body);
    assert_eq!(r.len(), 2);
    assert_eq!(r[0].rank, 1);
    assert_eq!(r[0].title, "Alt Only Laptop");
    assert_eq!(r[0].price, "N/A");
    assert_eq!(r[0].link, "https://www.amazon.com/dp/B1");
    assert_eq!(heading(&r[0]), "01. Alt Only Laptop \u{2014} N/A");
    assert_eq!(r[1].rank, 2);
    assert_eq!(r[1].title, "Full Laptop");
    assert_eq!(r[1].price, "$563.68");
    assert_eq!(r[1].link, "https://www.amazon.com/dp/B2");
    assert_eq!(heading(&r[1]), "02. Full Laptop \u{2014} $563.68");
    assert!(r[0].fetch_detail && r[1].fetch_detail);
}

#[test]
fn title_chain_wins_over_alt() {
    let body = page(&[card(
        "<img class=\"s-image\" alt=\"Alt\"><span class=\"a-size-medium a-color-base a-text-normal\">Chain</span>",
    )]);
    let r = report(&body);
    assert_eq!(r.len(), 1);
    assert_eq!(r[0].title, "Chain");
    assert_eq!(r[0].link, "N/A");
}

#[test]
fn report_caps_at_ten() {
    let cards: Vec<String> = (0..14)
        .map(|i| card(&format!("<h2><a href=\"https://shop.example/{i}\"><span>Item {i}</span></a></h2>")))
        .collect();
    let r = report(&page(&cards));
    assert_eq!(r.len(), SHOW_CAP);
    for (i, e) in r.iter().enumerate() {
        assert_eq!(e.rank, i + 1);
        assert_eq!(e.title, format!("Item {i}"));
        assert_eq!(e.link, format!("https://shop.example/{i}"));
    }
    assert!(r[..9].iter().all(|e| e.fetch_detail));
    assert!(!r[9].fetch_detail);
}

#[test]
fn untitled_cards_do_not_count_toward_cap() {
    let mut cards = Vec::new();
    for i in 0..10 {
        cards.push(card("<span>no title</span>"));
        cards.push(card(&format!("<h2><a href=\"/dp/{i}\"><span>T{i}</span></a></h2>")));
    }
    let r = report(&page(&cards));
    assert_eq!(r.len(), 10);
    assert_eq!(r[9].title, "T9");
    assert!(!r[9].fetch_detail);
}

#[test]
fn no_titled_cards_gives_empty_report() {
    let body = page(&[card("<span>x</span>"), card("<img class=\"s-image\" alt=\"  \">")]);
    assert!(report(&body).is_empty());
    assert!(report("<html></html>").is_empty());
}

#[test]
fn detail_fields_from_page() {
    let sels = detail_selectors().expect("fixed selectors parse");
    let body = "<html><body><span class=\"a-icon-alt\"> 4.6 out of\n 5 stars</span><span id=\"acrCustomerReviewText\">12,345 ratings</span></body></html>";
    let d = parse_detail(body, &sels);
    assert_eq!(d.rating_text, "4.6 out of 5 stars");
    assert_eq!(d.review_count, "12,345 ratings");
}

#[test]
fn detail_fields_default_to_placeholder() {
    let sels = detail_selectors().expect("fixed selectors parse");
    let d = parse_detail("<html><body><p>nothing</p></body></html>", &sels);
    assert_eq!(d.rating_text, "N/A");
    assert_eq!(d.review_count, "N/A");
    let d2 = detail_from(&Some("  3 ratings ".to_string()), &None);
    assert_eq!(d2.rating_text, "3 ratings");
    assert_eq!(d2.review_count, "N/A");
}
