//! The detail extractor: from the markup of a devil's own page to its
//! record. The information sections are read in the order in which the
//! parser made them, which on a well-formed page is document order; each is
//! told by its heading, and a section with any other heading adds nothing.

use crate::abilities::{
    abilities_after, abilities_in, all_well_named, gather, lemma_abilities_after_well_named,
    own_text,
};
use crate::dom::{
    count_of, inner_html, inner_html_of, markup_of, matches_of, matches_under, node_count,
    parse_document, select_all, select_under, text_fragments, texts_of,
};
use crate::models::{
    opt_name_view, opt_view, DevilDetail, DevilDetailView, DevilName,
    DevilNameView,
};
use crate::pattern::{capture, capture_of};
use crate::text::{join, joined, split, split_on, trim, trimmed, views};
use scraper::Html;
use vstd::prelude::*;
use vstd::string::*;

verus! {

/// The regular expression of an embedded link; its first group is the
/// link's visible text.
pub open spec fn link_pattern() -> Seq<char> {
    "<a[^>]*>(.*?)</a>"@
}

/// The selector of the information sections of a page.
pub open spec fn section_selector() -> Seq<char> {
    "section[class=\"pi-item pi-group pi-border-color\"]"@
}

/// The first element below `scope` that matches `selector`.
pub open spec fn first_match(markup: Seq<char>, scope: usize, selector: Seq<char>) -> Option<
    usize,
> {
    let found = matches_under(markup, scope, selector);
    if found.len() == 0 {
        None
    } else {
        Some(found[0])
    }
}

/// The trimmed text of the first element below `scope` that matches `selector`.
pub open spec fn labeled_text(markup: Seq<char>, scope: usize, selector: Seq<char>) -> Option<
    Seq<char>,
> {
    match first_match(markup, scope, selector) {
        None => None,
        Some(n) => Some(trimmed(joined(texts_of(markup, n)))),
    }
}

/// The trimmed inner markup of the first element below `scope` that matches `selector`.
pub open spec fn labeled_markup(markup: Seq<char>, scope: usize, selector: Seq<char>) -> Option<
    Seq<char>,
> {
    match first_match(markup, scope, selector) {
        None => None,
        Some(n) => Some(trimmed(inner_html_of(markup, n))),
    }
}

/// Each of `parts`, trimmed.
pub open spec fn each_trimmed(parts: Seq<Seq<char>>) -> Seq<Seq<char>> {
    parts.map_values(|t: Seq<char>| trimmed(t))
}

/// The text fragments, each trimmed, of the first element below `scope`
/// that matches `selector`.
pub open spec fn labeled_fragments(markup: Seq<char>, scope: usize, selector: Seq<char>) -> Seq<
    Seq<char>,
> {
    match first_match(markup, scope, selector) {
        None => Seq::empty(),
        Some(n) => each_trimmed(texts_of(markup, n)),
    }
}

/// The name that the text fragments of a kanji field give: the first of
/// them, without an alias.
pub open spec fn first_fragment_name(fragments: Seq<Seq<char>>) -> Option<DevilNameView> {
    if fragments.len() == 0 {
        None
    } else {
        Some(DevilNameView { devil_name: fragments[0], alias_name: None })
    }
}

/// The kanji name of a name section.
pub open spec fn kanji_name(markup: Seq<char>, section: usize) -> Option<DevilNameView> {
    match first_match(markup, section, "div[data-source=\"kanji\"] > div"@) {
        None => None,
        Some(n) => first_fragment_name(texts_of(markup, n)),
    }
}

/// The romaji name of a name section: the first fragment of its romaji
/// field is the name, the second, if there is one, the alias.
pub open spec fn romaji_name(markup: Seq<char>, section: usize) -> Option<DevilNameView> {
    let found = matches_under(markup, section, "div[data-source=\"romaji\"] > div > div > i"@);
    if found.len() == 0 {
        None
    } else {
        Some(
            DevilNameView {
                devil_name: joined(texts_of(markup, found[0])),
                alias_name: if found.len() > 1 {
                    Some(joined(texts_of(markup, found[1])))
                } else {
                    None
                },
            },
        )
    }
}

/// The own texts of the first `n` of `nodes`.
pub open spec fn own_texts_upto(markup: Seq<char>, nodes: Seq<usize>, n: int, fuel: nat) -> Seq<
    Seq<char>,
>
    decreases n,
{
    if n <= 0 || n > nodes.len() {
        Seq::empty()
    } else {
        own_texts_upto(markup, nodes, n - 1, fuel).push(own_text(markup, nodes[n - 1], fuel))
    }
}

/// The affiliations that an item with the own text `own` and the nested
/// items `nested` gives: a group gives its nested items, each trimmed, and
/// not its own label; a leaf gives its own text as it stands.
pub open spec fn entries_of(own: Seq<char>, nested: Seq<Seq<char>>) -> Seq<Seq<char>> {
    if nested.len() == 0 {
        seq![own]
    } else {
        each_trimmed(nested)
    }
}

/// The affiliations that one top-level item gives.
pub open spec fn affiliation_entries(markup: Seq<char>, item: usize, fuel: nat) -> Seq<Seq<char>> {
    let nested = matches_under(markup, item, "ul > li"@);
    entries_of(
        own_text(markup, item, fuel),
        own_texts_upto(markup, nested, nested.len() as int, fuel),
    )
}

/// The affiliations that the first `n` of `items` give.
pub open spec fn affiliations_upto(markup: Seq<char>, items: Seq<usize>, n: int, fuel: nat) -> Seq<
    Seq<char>,
>
    decreases n,
{
    if n <= 0 || n > items.len() {
        Seq::empty()
    } else {
        affiliations_upto(markup, items, n - 1, fuel) + affiliation_entries(
            markup,
            items[n - 1],
            fuel,
        )
    }
}

/// The affiliations of a professional section.
pub open spec fn affiliations_of(markup: Seq<char>, section: usize, fuel: nat) -> Seq<Seq<char>> {
    let items = matches_under(markup, section, "div[data-source=\"affiliation\"] > div > ul > li"@);
    affiliations_upto(markup, items, items.len() as int, fuel)
}

/// The relative that one fragment names: the visible text of the link in
/// it, or without a link the fragment trimmed; none where that is empty.
pub open spec fn relative_of(fragment: Seq<char>, link_text: Option<Seq<char>>) -> Option<
    Seq<char>,
> {
    let t = match link_text {
        Some(t) => t,
        None => trimmed(fragment),
    };
    if t.len() == 0 {
        None
    } else {
        Some(t)
    }
}

/// The relatives that the first `n` of `parts` name.
pub open spec fn relatives_upto(parts: Seq<Seq<char>>, n: int) -> Seq<Seq<char>>
    decreases n,
{
    if n <= 0 || n > parts.len() {
        Seq::empty()
    } else {
        let rest = relatives_upto(parts, n - 1);
        match relative_of(parts[n - 1], capture_of(link_pattern(), parts[n - 1], 1)) {
            Some(t) => rest.push(t),
            None => rest,
        }
    }
}

/// The relatives of a professional section: its relatives field, taken
/// apart at the line breaks.
pub open spec fn relatives_of(markup: Seq<char>, section: usize) -> Seq<Seq<char>> {
    match first_match(markup, section, "div[data-source=\"relatives\"] > div"@) {
        None => Seq::empty(),
        Some(n) => {
            let parts = split_on(inner_html_of(markup, n), "<br>"@);
            relatives_upto(parts, parts.len() as int)
        },
    }
}

/// `new` where it holds something, else `old`.
pub open spec fn or_else<T>(new: Option<T>, old: Option<T>) -> Option<T> {
    match new {
        Some(_) => new,
        None => old,
    }
}

/// The heading of a section: the text of its first `h2`.
pub open spec fn heading_of(markup: Seq<char>, section: usize) -> Option<Seq<char>> {
    match first_match(markup, section, "h2"@) {
        None => None,
        Some(h) => Some(joined(texts_of(markup, h))),
    }
}

/// The record `d` once section `section` has been read.
pub open spec fn after_section(
    markup: Seq<char>,
    section: usize,
    d: DevilDetailView,
    fuel: nat,
) -> DevilDetailView {
    let heading = heading_of(markup, section);
    if heading == Some("Name"@) {
        DevilDetailView {
            kanji: or_else(kanji_name(markup, section), d.kanji),
            romaji: or_else(romaji_name(markup, section), d.romaji),
            ..d
        }
    } else if heading == Some("Biological Information"@) {
        DevilDetailView {
            gender: or_else(
                labeled_text(markup, section, "div[data-source=\"gender\"] > div"@),
                d.gender,
            ),
            birthplace: or_else(
                labeled_text(markup, section, "div[data-source=\"birthplace\"] > div"@),
                d.birthplace,
            ),
            status: or_else(
                labeled_markup(markup, section, "div[data-source=\"status\"] > div > div"@),
                d.status,
            ),
            ..d
        }
    } else if heading == Some("Professional Information"@) {
        DevilDetailView {
            occupations: d.occupations + labeled_fragments(
                markup,
                section,
                "div[data-source=\"occupation\"] > div"@,
            ),
            affiliations: d.affiliations + affiliations_of(markup, section, fuel),
            contracts: d.contracts + labeled_fragments(
                markup,
                section,
                "div[data-source=\"contracted humans\"] > div"@,
            ),
            relatives: d.relatives + relatives_of(markup, section),
            ..d
        }
    } else {
        d
    }
}

/// The record before any section is read: the abilities that follow the
/// four anchors, and nothing else.
pub open spec fn abilities_only(markup: Seq<char>, fuel: nat) -> DevilDetailView {
    DevilDetailView {
        physical: abilities_after(markup, "span[id=\"Physical_Abilities\"]"@, fuel),
        physical_prowess: abilities_after(markup, "span[id=\"Physical_Prowess\"]"@, fuel),
        devil: abilities_after(markup, "span[id=\"Devil_Powers\"]"@, fuel),
        supernatural: abilities_after(markup, "span[id=\"Supernatural_Abilities\"]"@, fuel),
        ..DevilDetailView::blank()
    }
}

/// The record once the first `n` of `sections` have been read.
pub open spec fn detail_upto(markup: Seq<char>, sections: Seq<usize>, n: int, fuel: nat) -> DevilDetailView
    decreases n,
{
    if n <= 0 || n > sections.len() {
        abilities_only(markup, fuel)
    } else {
        after_section(markup, sections[n - 1], detail_upto(markup, sections, n - 1, fuel), fuel)
    }
}

/// The record that the page `markup` gives.
pub open spec fn detail_of(markup: Seq<char>) -> DevilDetailView {
    let sections = matches_of(markup, section_selector());
    detail_upto(markup, sections, sections.len() as int, count_of(markup) as nat)
}

/// Reading sections leaves the abilities as the four anchors gave them.
pub proof fn lemma_sections_keep_abilities(
    markup: Seq<char>,
    sections: Seq<usize>,
    n: int,
    fuel: nat,
)
    ensures
        detail_upto(markup, sections, n, fuel).physical == abilities_only(markup, fuel).physical,
        detail_upto(markup, sections, n, fuel).physical_prowess == abilities_only(
            markup,
            fuel,
        ).physical_prowess,
        detail_upto(markup, sections, n, fuel).devil == abilities_only(markup, fuel).devil,
        detail_upto(markup, sections, n, fuel).supernatural == abilities_only(
            markup,
            fuel,
        ).supernatural,
        detail_upto(markup, sections, n, fuel).image_src.is_none(),
    decreases n,
{
    if 0 < n <= sections.len() {
        lemma_sections_keep_abilities(markup, sections, n - 1, fuel);
    }
}

/// The abilities of a record are well named, category by category.
pub proof fn lemma_detail_abilities_well_named(markup: Seq<char>)
    ensures
        all_well_named(detail_of(markup).physical),
        all_well_named(detail_of(markup).physical_prowess),
        all_well_named(detail_of(markup).devil),
        all_well_named(detail_of(markup).supernatural),
{
    let sections = matches_of(markup, section_selector());
    let fuel = count_of(markup) as nat;
    lemma_sections_keep_abilities(markup, sections, sections.len() as int, fuel);
    lemma_abilities_after_well_named(markup, "span[id=\"Physical_Abilities\"]"@, fuel);
    lemma_abilities_after_well_named(markup, "span[id=\"Physical_Prowess\"]"@, fuel);
    lemma_abilities_after_well_named(markup, "span[id=\"Devil_Powers\"]"@, fuel);
    lemma_abilities_after_well_named(markup, "span[id=\"Supernatural_Abilities\"]"@, fuel);
}

fn first_under(doc: &Html, scope: usize, selector: &str) -> (r: Option<usize>)
    ensures
        r == first_match(markup_of(*doc), scope, selector@),
{
    let found = select_under(doc, scope, selector);
    if found.len() == 0 {
        None
    } else {
        Some(found[0])
    }
}

fn text_under(doc: &Html, scope: usize, selector: &str) -> (r: Option<String>)
    ensures
        opt_view(r) == labeled_text(markup_of(*doc), scope, selector@),
{
    match first_under(doc, scope, selector) {
        None => None,
        Some(n) => {
            let fragments = text_fragments(doc, n);
            let whole = join(&fragments);
            Some(trim(whole.as_str()))
        },
    }
}

fn markup_under(doc: &Html, scope: usize, selector: &str) -> (r: Option<String>)
    ensures
        opt_view(r) == labeled_markup(markup_of(*doc), scope, selector@),
{
    match first_under(doc, scope, selector) {
        None => None,
        Some(n) => {
            let inner = inner_html(doc, n);
            Some(trim(inner.as_str()))
        },
    }
}

/// Each of `parts`, trimmed.
pub fn trim_each(parts: &Vec<String>) -> (out: Vec<String>)
    ensures
        views(out@) == each_trimmed(views(parts@)),
        out@.len() == parts@.len(),
        forall|j: int| 0 <= j < parts@.len() ==> (#[trigger] out@[j])@ == trimmed(parts@[j]@),
{
    let mut out: Vec<String> = Vec::new();
    let mut i: usize = 0;
    while i < parts.len()
        invariant
            0 <= i <= parts.len(),
            out@.len() == i,
            forall|j: int| 0 <= j < i ==> (#[trigger] out@[j])@ == trimmed(parts@[j]@),
        decreases parts.len() - i,
    {
        out.push(trim(parts[i].as_str()));
        i = i + 1;
    }
    proof {
        assert(views(out@) =~= each_trimmed(views(parts@)));
    }
    out
}

fn fragments_under(doc: &Html, scope: usize, selector: &str) -> (r: Vec<String>)
    ensures
        views(r@) == labeled_fragments(markup_of(*doc), scope, selector@),
{
    match first_under(doc, scope, selector) {
        None => {
            let none: Vec<String> = Vec::new();
            proof {
                assert(views(none@) =~= Seq::<Seq<char>>::empty());
            }
            none
        },
        Some(n) => {
            let fragments = text_fragments(doc, n);
            trim_each(&fragments)
        },
    }
}

/// The name that the text fragments of a kanji field give.
pub fn kanji_from(fragments: &Vec<String>) -> (r: Option<DevilName>)
    ensures
        opt_name_view(r) == first_fragment_name(views(fragments@)),
{
    if fragments.len() == 0 {
        None
    } else {
        Some(DevilName { devil_name: fragments[0].clone(), alias_name: None })
    }
}

fn kanji_under(doc: &Html, section: usize) -> (r: Option<DevilName>)
    ensures
        opt_name_view(r) == kanji_name(markup_of(*doc), section),
{
    match first_under(doc, section, "div[data-source=\"kanji\"] > div") {
        None => None,
        Some(n) => {
            let fragments = text_fragments(doc, n);
            kanji_from(&fragments)
        },
    }
}

fn romaji_under(doc: &Html, section: usize) -> (r: Option<DevilName>)
    ensures
        opt_name_view(r) == romaji_name(markup_of(*doc), section),
{
    let found = select_under(doc, section, "div[data-source=\"romaji\"] > div > div > i");
    if found.len() == 0 {
        None
    } else {
        let first = text_fragments(doc, found[0]);
        let devil_name = join(&first);
        let alias_name = if found.len() > 1 {
            let second = text_fragments(doc, found[1]);
            Some(join(&second))
        } else {
            None
        };
        Some(DevilName { devil_name, alias_name })
    }
}

fn own_texts(doc: &Html, nodes: &Vec<usize>, depth: usize) -> (out: Vec<String>)
    ensures
        views(out@) == own_texts_upto(
            markup_of(*doc),
            nodes@,
            nodes@.len() as int,
            depth as nat,
        ),
{
    let mut out: Vec<String> = Vec::new();
    let mut k: usize = 0;
    proof {
        assert(views(out@) =~= Seq::<Seq<char>>::empty());
    }
    while k < nodes.len()
        invariant
            0 <= k <= nodes.len(),
            views(out@) == own_texts_upto(markup_of(*doc), nodes@, k as int, depth as nat),
        decreases nodes.len() - k,
    {
        let ghost so_far = views(out@);
        let own = gather(doc, nodes[k], depth);
        out.push(own);
        proof {
            assert(views(out@) =~= so_far.push(own@));
        }
        k = k + 1;
    }
    out
}

/// The affiliations that an item gives, given its own text and the own
/// texts of the items nested in it.
pub fn affiliation_from(own: &str, nested: &Vec<String>) -> (entries: Vec<String>)
    ensures
        views(entries@) == entries_of(own@, views(nested@)),
        nested@.len() == 0 ==> entries@.len() == 1 && entries@[0]@ == own@,
        nested@.len() > 0 ==> entries@.len() == nested@.len() && forall|j: int|
            0 <= j < nested@.len() ==> (#[trigger] entries@[j])@ == trimmed(nested@[j]@),
{
    if nested.len() == 0 {
        let mut entries: Vec<String> = Vec::new();
        entries.push(String::from_str(own));
        proof {
            assert(views(entries@) =~= seq![own@]);
        }
        entries
    } else {
        trim_each(nested)
    }
}

fn affiliations_under(doc: &Html, section: usize, depth: usize) -> (r: Vec<String>)
    ensures
        views(r@) == affiliations_of(markup_of(*doc), section, depth as nat),
{
    let items = select_under(doc, section, "div[data-source=\"affiliation\"] > div > ul > li");
    let ghost markup = markup_of(*doc);
    let ghost fuel = depth as nat;
    let mut out: Vec<String> = Vec::new();
    let mut i: usize = 0;
    proof {
        assert(views(out@) =~= Seq::<Seq<char>>::empty());
    }
    while i < items.len()
        invariant
            0 <= i <= items.len(),
            markup == markup_of(*doc),
            fuel == depth as nat,
            views(out@) == affiliations_upto(markup, items@, i as int, fuel),
        decreases items.len() - i,
    {
        let item: usize = items[i];
        let nested = select_under(doc, item, "ul > li");
        let nested_texts = own_texts(doc, &nested, depth);
        let own = gather(doc, item, depth);
        let entries = affiliation_from(own.as_str(), &nested_texts);
        out = append_texts(out, entries);
        i = i + 1;
    }
    out
}

/// An item without nested items gives its own text, with the white space
/// that it holds.
pub proof fn lemma_leaf_own_text(own: Seq<char>)
    ensures
        entries_of(own, Seq::empty()) == seq![own],
{
}

/// A group of affiliations gives its nested items and not its own label.
pub proof fn lemma_group_label_discarded(own: Seq<char>, nested: Seq<Seq<char>>)
    requires
        nested.len() > 0,
    ensures
        entries_of(own, nested) == each_trimmed(nested),
        entries_of(own, nested).len() == nested.len(),
        forall|i: int|
            0 <= i < nested.len() ==> #[trigger] entries_of(own, nested)[i] == trimmed(nested[i]),
{
}

/// The relative that one fragment names, given the visible text of the
/// link in it where it holds one.
pub fn relative_from(fragment: &str, link_text: Option<String>) -> (r: Option<String>)
    ensures
        opt_view(r) == relative_of(fragment@, opt_view(link_text)),
{
    let t = match link_text {
        Some(t) => t,
        None => trim(fragment),
    };
    if t.as_str().unicode_len() == 0 {
        None
    } else {
        Some(t)
    }
}

/// The relatives that the pieces of a relatives field name, in order.
pub fn relatives_from(parts: &Vec<String>) -> (out: Vec<String>)
    ensures
        views(out@) == relatives_upto(views(parts@), parts@.len() as int),
{
    let mut out: Vec<String> = Vec::new();
    let mut i: usize = 0;
    proof {
        assert(views(out@) =~= Seq::<Seq<char>>::empty());
    }
    while i < parts.len()
        invariant
            0 <= i <= parts.len(),
            views(out@) == relatives_upto(views(parts@), i as int),
        decreases parts.len() - i,
    {
        let ghost so_far = views(out@);
        let fragment = parts[i].as_str();
        let link_text = capture("<a[^>]*>(.*?)</a>", fragment, 1);
        match relative_from(fragment, link_text) {
            Some(t) => {
                out.push(t);
                proof {
                    assert(views(out@) =~= so_far.push(t@));
                }
            },
            None => {},
        }
        i = i + 1;
    }
    out
}

fn relatives_under(doc: &Html, section: usize) -> (r: Vec<String>)
    ensures
        views(r@) == relatives_of(markup_of(*doc), section),
{
    match first_under(doc, section, "div[data-source=\"relatives\"] > div") {
        None => {
            let none: Vec<String> = Vec::new();
            proof {
                assert(views(none@) =~= Seq::<Seq<char>>::empty());
            }
            none
        },
        Some(n) => {
            let inner = inner_html(doc, n);
            proof {
                reveal_strlit("<br>");
            }
            let parts = split(inner.as_str(), "<br>");
            relatives_from(&parts)
        },
    }
}

fn heading_under(doc: &Html, section: usize) -> (r: Option<String>)
    ensures
        opt_view(r) == heading_of(markup_of(*doc), section),
{
    match first_under(doc, section, "h2") {
        None => None,
        Some(h) => {
            let fragments = text_fragments(doc, h);
            Some(join(&fragments))
        },
    }
}

fn append_texts(list: Vec<String>, more: Vec<String>) -> (r: Vec<String>)
    ensures
        views(r@) == views(list@) + views(more@),
{
    let mut list = list;
    let mut more = more;
    let ghost a = list@;
    let ghost b = more@;
    list.append(&mut more);
    proof {
        assert(views(list@) =~= views(a) + views(b));
    }
    list
}

fn read_section(doc: &Html, section: usize, d: DevilDetail, depth: usize) -> (r: DevilDetail)
    ensures
        r@ == after_section(markup_of(*doc), section, d@, depth as nat),
{
    let mut d = d;
    let heading = match heading_under(doc, section) {
        None => { return d; },
        Some(h) => h,
    };
    if heading == String::from_str("Name") {
        match kanji_under(doc, section) {
            Some(n) => { d.kanji = Some(n); },
            None => {},
        }
        match romaji_under(doc, section) {
            Some(n) => { d.romaji = Some(n); },
            None => {},
        }
        d
    } else if heading == String::from_str("Biological Information") {
        match text_under(doc, section, "div[data-source=\"gender\"] > div") {
            Some(t) => { d.gender = Some(t); },
            None => {},
        }
        match text_under(doc, section, "div[data-source=\"birthplace\"] > div") {
            Some(t) => { d.birthplace = Some(t); },
            None => {},
        }
        match markup_under(doc, section, "div[data-source=\"status\"] > div > div") {
            Some(t) => { d.status = Some(t); },
            None => {},
        }
        d
    } else if heading == String::from_str("Professional Information") {
        let occupations = fragments_under(doc, section, "div[data-source=\"occupation\"] > div");
        let affiliations = affiliations_under(doc, section, depth);
        let contracts = fragments_under(
            doc,
            section,
            "div[data-source=\"contracted humans\"] > div",
        );
        let relatives = relatives_under(doc, section);
        DevilDetail {
            kanji: d.kanji,
            romaji: d.romaji,
            image_src: d.image_src,
            gender: d.gender,
            birthplace: d.birthplace,
            status: d.status,
            occupations: append_texts(d.occupations, occupations),
            affiliations: append_texts(d.affiliations, affiliations),
            contracts: append_texts(d.contracts, contracts),
            relatives: append_texts(d.relatives, relatives),
            physical: d.physical,
            physical_prowess: d.physical_prowess,
            devil: d.devil,
            supernatural: d.supernatural,
        }
    } else {
        d
    }
}

/// The record that a devil's own page gives: its names, what its
/// information sections tell, and the abilities that follow the four
/// ability anchors.
pub fn scrape_devil_detail(markup: &str) -> (detail: DevilDetail)
    ensures
        detail@ == detail_of(markup@),
{
    let doc = parse_document(markup);
    let depth: usize = node_count(&doc);
    let mut detail = DevilDetail::blank();
    detail.physical = abilities_in(&doc, "span[id=\"Physical_Abilities\"]", depth);
    detail.physical_prowess = abilities_in(&doc, "span[id=\"Physical_Prowess\"]", depth);
    detail.devil = abilities_in(&doc, "span[id=\"Devil_Powers\"]", depth);
    detail.supernatural = abilities_in(&doc, "span[id=\"Supernatural_Abilities\"]", depth);
    let sections = select_all(
        &doc,
        "section[class=\"pi-item pi-group pi-border-color\"]",
    );
    let mut i: usize = 0;
    while i < sections.len()
        invariant
            0 <= i <= sections.len(),
            markup_of(doc) == markup@,
            depth == count_of(markup@),
            detail@ == detail_upto(markup@, sections@, i as int, depth as nat),
        decreases sections.len() - i,
    {
        detail = read_section(&doc, sections[i], detail, depth);
        i = i + 1;
    }
    detail
}

} // verus!
