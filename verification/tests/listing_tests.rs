use chainsawman_api::listing::{devil_from, listing_url, scrape_devils, split_link_text, wiki_url};
use chainsawman_api::models::Devil;

fn stub(name: &str, alias: Option<&str>, href: &str, category: &str) -> Devil {
    Devil {
        devil_name: name.to_string(),
        alias_name: alias.map(|a| a.to_string()),
        wiki_url: format!("https://chainsaw-man.fandom.com{}", href),
        category: category.to_string(),
    }
}

fn item(href: Option<&str>, text: &str) -> String {
    let link = match href {
        Some(h) => format!("<a href=\"{}\">{}</a>", h, text),
        None => format!("<a>{}</a>", text),
    };
    format!(
        "<div class=\"wikia-gallery-item\"><div class=\"lightbox-caption\">{}</div></div>",
        link
    )
}

#[test]
fn link_text_with_one_slash_is_alias_and_name() {
    assert_eq!(
        split_link_text("Chainsaw Devil/Pochita"),
        (Some("Chainsaw Devil".to_string()), "Pochita".to_string())
    );
    assert_eq!(split_link_text("A/B"), (Some("A".to_string()), "B".to_string()));
    assert_eq!(split_link_text("/"), (Some("".to_string()), "".to_string()));
}

#[test]
fn link_text_without_slash_is_the_name() {
    assert_eq!(split_link_text("Bat Devil"), (None, "Bat Devil".to_string()));
    assert_eq!(split_link_text(""), (None, "".to_string()));
}

#[test]
fn link_text_with_more_slashes_is_the_name() {
    assert_eq!(split_link_text("A/B/C"), (None, "A/B/C".to_string()));
    assert_eq!(split_link_text("//"), (None, "//".to_string()));
}

#[test]
fn address_is_base_and_link() {
    assert_eq!(wiki_url("/wiki/Pochita"), "https://chainsaw-man.fandom.com/wiki/Pochita");
    assert_eq!(wiki_url(""), "https://chainsaw-man.fandom.com");
    assert_eq!(listing_url(), "https://chainsaw-man.fandom.com/wiki/devil");
}

#[test]
fn listing_gives_one_stub_per_entry_by_category() {
    let page = format!(
        "<html><body>\
         <div id=\"gallery-1\">{}</div>\
         <div id=\"gallery-0\">{}{}</div>\
         <div id=\"gallery-2\"></div>\
         <div id=\"gallery-3\">{}</div>\
         <div id=\"gallery-4\">{}</div>\
         <div id=\"gallery-5\">{}</div>\
         </body></html>",
        item(Some("/wiki/Darkness_Devil"), "Darkness Devil"),
        item(Some("/wiki/Bat_Devil"), "Bat Devil"),
        item(Some("/wiki/Pochita"), "Chainsaw Devil/Pochita"),
        item(Some("/wiki/Ignored"), "Ignored"),
        item(Some("/wiki/Power"), "Blood Fiend/<b>Power</b>"),
        item(Some("/wiki/Denji"), "Denji"),
    );
    let expected = vec![
        stub("Bat Devil", None, "/wiki/Bat_Devil", "Normal Devils"),
        stub("Pochita", Some("Chainsaw Devil"), "/wiki/Pochita", "Normal Devils"),
        stub("Darkness Devil", None, "/wiki/Darkness_Devil", "Primal Devils"),
        stub("Power", Some("Blood Fiend"), "/wiki/Power", "Fiends"),
        stub("Denji", None, "/wiki/Denji", "Hybrids"),
    ];
    assert_eq!(scrape_devils(&page), expected);
}

#[test]
fn entries_without_link_or_href_are_skipped() {
    let page = format!(
        "<div id=\"gallery-0\">{}{}{}</div>",
        "<div class=\"wikia-gallery-item\"><div class=\"lightbox-caption\">no link</div></div>",
        item(None, "No Href"),
        item(Some("/wiki/Bat_Devil"), "Bat Devil"),
    );
    assert_eq!(
        scrape_devils(&page),
        vec![stub("Bat Devil", None, "/wiki/Bat_Devil", "Normal Devils")]
    );
}

#[test]
fn only_the_first_container_of_a_category_counts() {
    let page = format!(
        "<div id=\"gallery-0\">{}</div><div id=\"gallery-0\">{}</div>",
        item(Some("/wiki/Bat_Devil"), "Bat Devil"),
        item(Some("/wiki/Leech_Devil"), "Leech Devil"),
    );
    assert_eq!(
        scrape_devils(&page),
        vec![stub("Bat Devil", None, "/wiki/Bat_Devil", "Normal Devils")]
    );
}

#[test]
fn empty_listing_page_gives_no_stub() {
    assert_eq!(scrape_devils(""), Vec::new());
    assert_eq!(scrape_devils("<html><body><p>nothing here</p></body></html>"), Vec::new());
}

#[test]
fn every_stub_address_starts_at_the_base() {
    let page = format!(
        "<div id=\"gallery-5\">{}{}</div>",
        item(Some("/wiki/Denji"), "Denji"),
        item(Some("/wiki/Reze"), "Bomb/Reze"),
    );
    let stubs = scrape_devils(&page);
    assert_eq!(stubs.len(), 2);
    assert_eq!(stubs[0].wiki_url, wiki_url("/wiki/Denji"));
    assert_eq!(stubs[1].wiki_url, wiki_url("/wiki/Reze"));
    assert_ne!(stubs[0].wiki_url, stubs[1].wiki_url);
}

#[test]
fn listing_the_same_page_twice_gives_the_same_stubs() {
    let page = format!("<div id=\"gallery-4\">{}</div>", item(Some("/wiki/Power"), "Power"));
    assert_eq!(scrape_devils(&page), scrape_devils(&page));
}

#[test]
fn a_stub_is_made_of_link_text_and_category() {
    assert_eq!(
        devil_from("/wiki/Pochita", "Chainsaw Devil/Pochita", "Normal Devils"),
        stub("Pochita", Some("Chainsaw Devil"), "/wiki/Pochita", "Normal Devils")
    );
    assert_eq!(
        devil_from("/wiki/Makima", "Makima", "Primal Devils"),
        stub("Makima", None, "/wiki/Makima", "Primal Devils")
    );
}
