use chainsawman_api::detail::{
    affiliation_from, kanji_from, relative_from, relatives_from, scrape_devil_detail, trim_each,
};
use chainsawman_api::models::{Ability, DevilDetail, DevilName};

fn section(heading: &str, body: &str) -> String {
    format!(
        "<section class=\"pi-item pi-group pi-border-color\"><h2>{}</h2>{}</section>",
        heading, body
    )
}

fn field(source: &str, body: &str) -> String {
    format!("<div data-source=\"{}\"><h3>label</h3><div>{}</div></div>", source, body)
}

fn texts(items: &[&str]) -> Vec<String> {
    items.iter().map(|s| s.to_string()).collect()
}

#[test]
fn a_page_without_sections_gives_a_blank_record() {
    assert_eq!(scrape_devil_detail(""), DevilDetail::blank());
    assert_eq!(scrape_devil_detail("<html><body><p>stub</p></body></html>"), DevilDetail::blank());
}

#[test]
fn name_section_gives_kanji_and_romaji() {
    let markup = section(
        "Name",
        &format!(
            "{}{}",
            field("kanji", "ポチタ<br>チェンソーの悪魔"),
            field("romaji", "<div><i>Pochita</i><br><i>Chensō no Akuma</i></div>"),
        ),
    );
    let detail = scrape_devil_detail(&markup);
    assert_eq!(
        detail.kanji,
        Some(DevilName { devil_name: "ポチタ".to_string(), alias_name: None })
    );
    assert_eq!(
        detail.romaji,
        Some(DevilName {
            devil_name: "Pochita".to_string(),
            alias_name: Some("Chensō no Akuma".to_string()),
        })
    );
}

#[test]
fn romaji_with_one_fragment_has_no_alias() {
    let markup = section("Name", &field("romaji", "<div><i>Makima</i></div>"));
    let detail = scrape_devil_detail(&markup);
    assert_eq!(detail.kanji, None);
    assert_eq!(
        detail.romaji,
        Some(DevilName { devil_name: "Makima".to_string(), alias_name: None })
    );
}

#[test]
fn biological_section_gives_gender_birthplace_and_status() {
    let markup = section(
        "Biological Information",
        &format!(
            "{}{}{}",
            field("gender", " Male "),
            field("birthplace", "\nHell\n"),
            field("status", "<div> <b>Alive</b> <i>(reborn)</i> </div>"),
        ),
    );
    let detail = scrape_devil_detail(&markup);
    assert_eq!(detail.gender, Some("Male".to_string()));
    assert_eq!(detail.birthplace, Some("Hell".to_string()));
    assert_eq!(detail.status, Some("<b>Alive</b> <i>(reborn)</i>".to_string()));
    assert_eq!(detail.image_src, None);
}

#[test]
fn professional_section_gives_the_four_lists() {
    let markup = section(
        "Professional Information",
        &format!(
            "{}{}{}{}",
            field("occupation", "Devil Hunter<br> Pet "),
            field(
                "affiliation",
                "<ul><li>Public Safety Devil Hunters<ul><li>Tokyo Special Division 4</li>\
                 <li>Division 4</li></ul></li><li> Yakuza </li></ul>",
            ),
            field("contracted humans", "Denji"),
            field(
                "relatives",
                "<a href=\"/wiki/Denji\">Denji</a> (owner)<br> Unknown sibling <br>",
            ),
        ),
    );
    let detail = scrape_devil_detail(&markup);
    assert_eq!(detail.occupations, texts(&["Devil Hunter", "Pet"]));
    assert_eq!(
        detail.affiliations,
        texts(&["Tokyo Special Division 4", "Division 4", " Yakuza "])
    );
    assert_eq!(detail.contracts, texts(&["Denji"]));
    assert_eq!(detail.relatives, texts(&["Denji", "Unknown sibling"]));
}

#[test]
fn a_group_of_affiliations_gives_its_nested_items_only() {
    let markup = section(
        "Professional Information",
        &field(
            "affiliation",
            "<ul><li>Public Safety Devil Hunters<ul><li>Tokyo Special Division 4</li>\
             <li>Division 4</li></ul></li></ul>",
        ),
    );
    assert_eq!(
        scrape_devil_detail(&markup).affiliations,
        texts(&["Tokyo Special Division 4", "Division 4"])
    );
}

#[test]
fn sections_with_other_headings_add_nothing() {
    let markup = format!(
        "{}{}",
        section("Trivia", &field("gender", "Male")),
        "<section class=\"pi-item pi-group pi-border-color\"><div data-source=\"gender\"><div>Female</div></div></section>",
    );
    assert_eq!(scrape_devil_detail(&markup), DevilDetail::blank());
}

#[test]
fn abilities_are_held_by_category() {
    let markup = format!(
        "<html><body>{}\
         <h3><span id=\"Physical_Abilities\">Physical Abilities</span></h3>\
         <ul><li>Strength: lifts cars[4]</li></ul>\
         <h3><span id=\"Devil_Powers\">Devil Powers</span></h3>\
         <ul><li>Chainsaws: grows chainsaws<ul><li>Chains: throws chains[10]</li></ul></li></ul>\
         <h3><span id=\"Supernatural_Abilities\">Supernatural Abilities</span></h3>\
         <p>none known</p>\
         </body></html>",
        section("Biological Information", &field("gender", "Male")),
    );
    let detail = scrape_devil_detail(&markup);
    assert_eq!(detail.gender, Some("Male".to_string()));
    assert_eq!(
        detail.physical,
        vec![Ability {
            name: "Strength".to_string(),
            description: "lifts cars".to_string(),
            abilities: Vec::new(),
        }]
    );
    assert_eq!(
        detail.devil,
        vec![Ability {
            name: "Chainsaws".to_string(),
            description: "grows chainsaws".to_string(),
            abilities: vec![Ability {
                name: "Chains".to_string(),
                description: "throws chains".to_string(),
                abilities: Vec::new(),
            }],
        }]
    );
    assert_eq!(detail.physical_prowess, Vec::new());
    assert_eq!(detail.supernatural, Vec::new());
    assert!(detail.abilities_of("physical").is_some());
    assert!(detail.abilities_of("devil").is_some());
    assert!(detail.abilities_of("physical_prowess").is_none());
    assert!(detail.abilities_of("supernatural").is_none());
    assert!(detail.abilities_of("other").is_none());
}

#[test]
fn reading_the_same_page_twice_gives_the_same_record() {
    let markup = section("Name", &field("kanji", "マキマ"));
    assert_eq!(scrape_devil_detail(&markup), scrape_devil_detail(&markup));
}

#[test]
fn a_relative_is_the_link_text_or_the_trimmed_fragment() {
    assert_eq!(
        relative_from("<a href=\"x\">Nayuta</a> (sister)", Some("Nayuta".to_string())),
        Some("Nayuta".to_string())
    );
    assert_eq!(relative_from("  Father ", None), Some("Father".to_string()));
    assert_eq!(relative_from("   ", None), None);
    assert_eq!(relative_from("<a></a>", Some("".to_string())), None);
}

#[test]
fn relatives_come_in_order_without_the_empty_ones() {
    let parts = texts(&["<a href=\"/wiki/Nayuta\" title=\"Nayuta\">Nayuta</a>", " ", "Father"]);
    assert_eq!(relatives_from(&parts), texts(&["Nayuta", "Father"]));
}

#[test]
fn each_fragment_is_trimmed() {
    assert_eq!(trim_each(&texts(&[" a ", "b", "  "])), texts(&["a", "b", ""]));
}

#[test]
fn names_are_found_by_language_code() {
    let markup = section("Name", &field("kanji", "マキマ"));
    let detail = scrape_devil_detail(&markup);
    assert_eq!(
        detail.name_in("kanji"),
        Some(&DevilName { devil_name: "マキマ".to_string(), alias_name: None })
    );
    assert_eq!(detail.name_in("romaji"), None);
    assert_eq!(detail.name_in("latin"), None);
}

#[test]
fn a_leaf_gives_its_own_text_and_a_group_its_nested_items() {
    assert_eq!(affiliation_from(" Yakuza ", &Vec::new()), texts(&[" Yakuza "]));
    assert_eq!(
        affiliation_from(
            "Public Safety Devil Hunters",
            &texts(&["Tokyo Special Division 4", " Division 4 "])
        ),
        texts(&["Tokyo Special Division 4", "Division 4"])
    );
}

#[test]
fn a_nested_group_gives_its_own_label_without_what_is_below_it() {
    let markup = section(
        "Professional Information",
        &field(
            "affiliation",
            "<ul><li>Public Safety<ul><li>Special Divisions<ul><li>Division 4</li></ul></li></ul></li></ul>",
        ),
    );
    assert_eq!(
        scrape_devil_detail(&markup).affiliations,
        texts(&["Special Divisions", "Division 4"])
    );
}

#[test]
fn the_kanji_name_is_the_first_fragment() {
    assert_eq!(
        kanji_from(&texts(&["ポチタ", "チェンソーの悪魔"])),
        Some(DevilName { devil_name: "ポチタ".to_string(), alias_name: None })
    );
    assert_eq!(kanji_from(&Vec::new()), None);
}

#[test]
fn later_sections_add_to_the_lists_and_replace_the_single_fields() {
    let markup = format!(
        "{}{}{}{}",
        section("Biological Information", &field("gender", "Male")),
        section("Professional Information", &field("occupation", "Devil Hunter")),
        section("Biological Information", &field("gender", "Unknown")),
        section("Professional Information", &field("occupation", "Pet")),
    );
    let detail = scrape_devil_detail(&markup);
    assert_eq!(detail.gender, Some("Unknown".to_string()));
    assert_eq!(detail.occupations, texts(&["Devil Hunter", "Pet"]));
}

#[test]
fn a_copy_of_a_record_is_the_same_record() {
    let markup = format!(
        "{}<h3><span id=\"Devil_Powers\">Devil Powers</span></h3><ul><li>Chains: throws chains</li></ul>",
        section("Name", &field("kanji", "マキマ")),
    );
    let detail = scrape_devil_detail(&markup);
    let copy = detail.clone();
    assert_eq!(copy, detail);
    assert_eq!(copy.devil.len(), 1);
}
