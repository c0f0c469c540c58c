use chainsawman_api::abilities::{build_ability, scrape_abilities, split_label, strip_markers};
use chainsawman_api::models::Ability;
use chainsawman_api::report::{ability_rows, AbilityRow};

const ANCHOR: &str = "span[id=\"Devil_Powers\"]";

fn ability(name: &str, description: &str, abilities: Vec<Ability>) -> Ability {
    Ability { name: name.to_string(), description: description.to_string(), abilities }
}

fn page(after_heading: &str) -> String {
    format!(
        "<html><body><p>intro</p><h3><span id=\"Devil_Powers\">Devil Powers</span></h3>{}</body></html>",
        after_heading
    )
}

#[test]
fn markers_are_stripped() {
    assert_eq!(strip_markers("burns the target[12]"), "burns the target");
    assert_eq!(strip_markers("a[1]b[22][333]c"), "abc");
    assert_eq!(strip_markers("keeps [x] and []"), "keeps [x] and []");
    assert_eq!(strip_markers(""), "");
}

#[test]
fn label_and_body_split_at_the_first_colon() {
    assert_eq!(
        split_label(" Fire Claw : burns: the target "),
        Some(("Fire Claw".to_string(), "burns: the target".to_string()))
    );
    assert_eq!(split_label("no colon here"), None);
    assert_eq!(split_label(":"), Some(("".to_string(), "".to_string())));
}

#[test]
fn an_ability_needs_a_name_and_a_description() {
    assert_eq!(
        build_ability("Flight".to_string(), "flies".to_string(), Vec::new()),
        Some(ability("Flight", "flies", Vec::new()))
    );
    assert_eq!(build_ability("".to_string(), "flies".to_string(), Vec::new()), None);
    assert_eq!(build_ability("Flight".to_string(), "".to_string(), Vec::new()), None);
}

#[test]
fn item_with_colon_gives_a_node_without_markers() {
    let markup = page("<ul><li>Fire Claw: burns the target[12]</li></ul>");
    assert_eq!(
        scrape_abilities(&markup, ANCHOR),
        vec![ability("Fire Claw", "burns the target", Vec::new())]
    );
}

#[test]
fn item_without_colon_is_dropped_with_what_is_below_it() {
    let markup = page("<ul><li>Claws<ul><li>Fire Claw: burns the target[12]</li></ul></li></ul>");
    assert_eq!(scrape_abilities(&markup, ANCHOR), Vec::new());
}

#[test]
fn nested_items_become_the_abilities_below() {
    let markup = page(
        "<ul><li><b>Blood</b>: controls blood[3]\
         <ul><li>Hammer: a hammer of blood<ul><li>Swing: hits hard</li></ul></li>\
         <li>no label</li></ul></li>\
         <li>Flight: flies</li></ul>",
    );
    let expected = vec![
        ability(
            "Blood",
            "controls blood",
            vec![
                ability("Hammer", "a hammer of blood", vec![ability("Swing", "hits hard", Vec::new())]),
                ability("Swing", "hits hard", Vec::new()),
            ],
        ),
        ability("Flight", "flies", Vec::new()),
    ];
    assert_eq!(scrape_abilities(&markup, ANCHOR), expected);
}

#[test]
fn the_run_of_lists_ends_at_the_first_other_element() {
    let markup = page(
        "\n<ul><li>One: first</li></ul>\n<figure><img src=\"x.png\"></figure>\n\
         <ul><li>Two: second</li></ul><p>text</p><ul><li>Three: third</li></ul>",
    );
    assert_eq!(
        scrape_abilities(&markup, ANCHOR),
        vec![ability("One", "first", Vec::new()), ability("Two", "second", Vec::new())]
    );
}

#[test]
fn no_anchor_gives_no_ability() {
    let markup = "<html><body><ul><li>One: first</li></ul></body></html>";
    assert_eq!(scrape_abilities(markup, ANCHOR), Vec::new());
    assert_eq!(scrape_abilities("", ANCHOR), Vec::new());
}

#[test]
fn a_text_that_is_no_selector_gives_no_ability() {
    let markup = page("<ul><li>One: first</li></ul>");
    assert_eq!(scrape_abilities(&markup, "span[[["), Vec::new());
}

#[test]
fn markers_inside_links_are_stripped_too() {
    let markup = page(
        "\n<ul>\n<li><b>Contract</b>: grants power for a price<sup class=\"reference\">\
         <a href=\"#cite_note-7\">[7]</a></sup> and more<sup><a href=\"#cite_note-12\">[12]</a></sup>\n</li>\n</ul>\n",
    );
    assert_eq!(
        scrape_abilities(&markup, ANCHOR),
        vec![ability("Contract", "grants power for a price and more", Vec::new())]
    );
}

#[test]
fn an_item_with_an_empty_side_is_dropped() {
    let markup = page("<ul><li>Unknown:</li><li>: nameless</li><li>Known: yes</li></ul>");
    assert_eq!(scrape_abilities(&markup, ANCHOR), vec![ability("Known", "yes", Vec::new())]);
}

fn row(level: i32, name: &str, description: &str) -> AbilityRow {
    AbilityRow { level, name: name.to_string(), description: description.to_string() }
}

#[test]
fn rows_come_root_first_and_one_level_deeper_below() {
    let tree = ability(
        "Blood",
        "controls blood",
        vec![
            ability("Hammer", "a hammer", vec![ability("Swing", "hits hard", Vec::new())]),
            ability("Spear", "a spear", Vec::new()),
        ],
    );
    assert_eq!(
        ability_rows(0, &tree),
        vec![
            row(0, "Blood", "controls blood"),
            row(1, "Hammer", "a hammer"),
            row(2, "Swing", "hits hard"),
            row(1, "Spear", "a spear"),
        ]
    );
    assert_eq!(
        ability_rows(-3, &ability("Flight", "flies", Vec::new())),
        vec![row(-3, "Flight", "flies")]
    );
}

#[test]
fn the_deepest_level_is_kept() {
    let tree = ability("Outer", "o", vec![ability("Inner", "i", Vec::new())]);
    assert_eq!(
        ability_rows(i32::MAX, &tree),
        vec![row(i32::MAX, "Outer", "o"), row(i32::MAX, "Inner", "i")]
    );
}

#[test]
fn a_copy_of_a_tree_is_the_same_tree() {
    let tree = ability(
        "Blood",
        "controls blood",
        vec![ability("Hammer", "a hammer", vec![ability("Swing", "hits hard", Vec::new())])],
    );
    let copy = tree.clone();
    assert_eq!(copy, tree);
    assert_eq!(copy.abilities[0].abilities[0].name, "Swing");
}
