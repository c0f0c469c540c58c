//! The ability extractor: from the list items that follow a named anchor to
//! a tree of abilities. Recursion into the document is bounded by a depth
//! that the caller gives; the number of nodes of the document is enough.

use crate::dom::{
    child_nodes, children_of, count_of, element_name, following_of, markup_of, matches_of,
    matches_under, name_of, next_siblings, node_count, node_text, parent, parent_of,
    parse_document, select_all, select_under, text_of,
};
use crate::models::{ability_views, lemma_ability_view, Ability, AbilityView};
use crate::pattern::{replace_all, replaced_of};
use crate::text::{
    find_char, find_from, is_space, lemma_find_absent, lemma_trimmed_ends, trim, trimmed,
};
use scraper::Html;
use vstd::prelude::*;
use vstd::string::*;

verus! {

/// The regular expression of a reference marker: digits in square brackets.
pub open spec fn marker_pattern() -> Seq<char> {
    "\\[\\d+\\]"@
}

/// The selector of the list items nested below an item.
pub open spec fn nested_selector() -> Seq<char> {
    "ul > li"@
}

/// The selector of the items of a list itself.
pub open spec fn direct_selector() -> Seq<char> {
    ":scope > li"@
}

/// `text` without its reference markers.
pub open spec fn without_markers(text: Seq<char>) -> Seq<char> {
    match replaced_of(marker_pattern(), text, ""@) {
        Some(t) => t,
        None => text,
    }
}

/// Label and body of an item's text: what stands left and right of the
/// first colon, each trimmed; nothing where the text holds no colon.
pub open spec fn label_and_body(text: Seq<char>) -> Option<(Seq<char>, Seq<char>)> {
    let i = find_from(text, ':', 0);
    if i >= text.len() {
        None
    } else {
        Some((trimmed(text.subrange(0, i)), trimmed(text.subrange(i + 1, text.len() as int))))
    }
}

/// The ability made of a name, a description and the abilities below it:
/// kept only where neither text is empty.
pub open spec fn kept(name: Seq<char>, description: Seq<char>, below: Seq<AbilityView>) -> Option<
    AbilityView,
> {
    if name.len() == 0 || description.len() == 0 {
        None
    } else {
        Some(AbilityView { name: name, description: description, abilities: below })
    }
}

/// The text that node `node` adds to the own text of the item it stands
/// in: a text node its text, a nested list nothing, any other node what its
/// children add.
pub open spec fn piece(markup: Seq<char>, node: usize, fuel: nat) -> Seq<char>
    decreases fuel, 0int,
{
    match text_of(markup, node) {
        Some(t) => t,
        None => if name_of(markup, node) == Some("ul"@) || fuel == 0 {
            Seq::empty()
        } else {
            let c = children_of(markup, node);
            gathered(markup, c, c.len() as int, (fuel - 1) as nat)
        },
    }
}

/// What the first `n` of `nodes` add to an own text.
pub open spec fn gathered(markup: Seq<char>, nodes: Seq<usize>, n: int, fuel: nat) -> Seq<char>
    decreases fuel, n,
{
    if n <= 0 || n > nodes.len() {
        Seq::empty()
    } else {
        gathered(markup, nodes, n - 1, fuel) + piece(markup, nodes[n - 1], fuel)
    }
}

/// The own text of `node`: the text below it that stands in no nested list.
pub open spec fn own_text(markup: Seq<char>, node: usize, fuel: nat) -> Seq<char> {
    let c = children_of(markup, node);
    gathered(markup, c, c.len() as int, fuel)
}

/// The ability that list item `item` gives. The items nested below it give
/// the abilities below it, whether it is kept or not.
pub open spec fn ability_at(markup: Seq<char>, item: usize, fuel: nat) -> Option<AbilityView>
    decreases fuel, 0int,
{
    let nested = matches_under(markup, item, nested_selector());
    let below = if fuel == 0 {
        Seq::empty()
    } else {
        abilities_upto(markup, nested, nested.len() as int, (fuel - 1) as nat)
    };
    match label_and_body(own_text(markup, item, fuel)) {
        None => None,
        Some(parts) => kept(parts.0, without_markers(parts.1), below),
    }
}

/// The abilities that the first `n` of `items` give.
pub open spec fn abilities_upto(markup: Seq<char>, items: Seq<usize>, n: int, fuel: nat) -> Seq<
    AbilityView,
>
    decreases fuel, n,
{
    if n <= 0 || n > items.len() {
        Seq::empty()
    } else {
        let rest = abilities_upto(markup, items, n - 1, fuel);
        match ability_at(markup, items[n - 1], fuel) {
            Some(a) => rest.push(a),
            None => rest,
        }
    }
}

/// The abilities of the run of lists and figures in `siblings` from index
/// `i` on: the run ends at the first element that is neither.
pub open spec fn run_from(markup: Seq<char>, siblings: Seq<usize>, i: int, fuel: nat) -> Seq<
    AbilityView,
>
    decreases siblings.len() - i,
{
    if i < 0 || i >= siblings.len() {
        Seq::empty()
    } else {
        match name_of(markup, siblings[i]) {
            None => run_from(markup, siblings, i + 1, fuel),
            Some(name) => if name != "ul"@ && name != "figure"@ {
                Seq::empty()
            } else {
                let items = matches_under(markup, siblings[i], direct_selector());
                abilities_upto(markup, items, items.len() as int, fuel) + run_from(
                    markup,
                    siblings,
                    i + 1,
                    fuel,
                )
            },
        }
    }
}

/// The abilities that follow the first match of `anchor`: those of the run
/// of lists and figures right after the element that holds the anchor.
pub open spec fn abilities_after(markup: Seq<char>, anchor: Seq<char>, fuel: nat) -> Seq<
    AbilityView,
> {
    let anchors = matches_of(markup, anchor);
    if anchors.len() == 0 {
        Seq::empty()
    } else {
        match parent_of(markup, anchors[0]) {
            None => Seq::empty(),
            Some(heading) => run_from(markup, following_of(markup, heading), 0, fuel),
        }
    }
}

/// A text without a colon gives no label and body.
pub proof fn lemma_no_colon_no_label(text: Seq<char>)
    requires
        !text.contains(':'),
    ensures
        label_and_body(text).is_none(),
{
    lemma_find_absent(text, ':', 0, text.len() as int);
}

/// A list item whose own text holds no colon gives no ability, whatever
/// the items nested below it give.
pub proof fn lemma_item_without_colon_dropped(markup: Seq<char>, item: usize, fuel: nat)
    requires
        !own_text(markup, item, fuel).contains(':'),
    ensures
        ability_at(markup, item, fuel).is_none(),
{
    lemma_no_colon_no_label(own_text(markup, item, fuel));
}

/// The name of an ability that a list item gives has no white space at
/// its ends.
pub proof fn lemma_ability_name_trimmed(markup: Seq<char>, item: usize, fuel: nat)
    ensures
        match ability_at(markup, item, fuel) {
            Some(a) => !is_space(a.name[0]) && !is_space(a.name.last()),
            None => true,
        },
{
    let text = own_text(markup, item, fuel);
    let i = find_from(text, ':', 0);
    lemma_trimmed_ends(text.subrange(0, i));
}

/// Whether an ability and every ability below it has a name and a description.
pub open spec fn well_named(a: AbilityView) -> bool
    decreases a,
{
    &&& a.name.len() > 0
    &&& a.description.len() > 0
    &&& forall|i: int| 0 <= i < a.abilities.len() ==> well_named(#[trigger] a.abilities[i])
}

/// Whether every ability of a list is well named.
pub open spec fn all_well_named(list: Seq<AbilityView>) -> bool {
    forall|i: int| 0 <= i < list.len() ==> well_named(#[trigger] list[i])
}

/// The ability that a list item gives is well named.
pub proof fn lemma_ability_well_named(markup: Seq<char>, item: usize, fuel: nat)
    ensures
        match ability_at(markup, item, fuel) {
            Some(a) => well_named(a),
            None => true,
        },
    decreases fuel, 0int,
{
    let nested = matches_under(markup, item, nested_selector());
    if fuel > 0 {
        lemma_abilities_well_named(markup, nested, nested.len() as int, (fuel - 1) as nat);
    }
}

/// The abilities that a run of list items gives are well named.
pub proof fn lemma_abilities_well_named(markup: Seq<char>, items: Seq<usize>, n: int, fuel: nat)
    ensures
        all_well_named(abilities_upto(markup, items, n, fuel)),
    decreases fuel, n,
{
    if 0 < n <= items.len() {
        lemma_abilities_well_named(markup, items, n - 1, fuel);
        lemma_ability_well_named(markup, items[n - 1], fuel);
    }
}

/// The abilities of a run of lists are well named.
pub proof fn lemma_run_well_named(markup: Seq<char>, siblings: Seq<usize>, i: int, fuel: nat)
    ensures
        all_well_named(run_from(markup, siblings, i, fuel)),
    decreases siblings.len() - i,
{
    if 0 <= i < siblings.len() {
        lemma_run_well_named(markup, siblings, i + 1, fuel);
        let items = matches_under(markup, siblings[i], direct_selector());
        lemma_abilities_well_named(markup, items, items.len() as int, fuel);
    }
}

/// Every ability that follows an anchor has a name and a description, and
/// so has every ability below it.
pub proof fn lemma_abilities_after_well_named(markup: Seq<char>, anchor: Seq<char>, fuel: nat)
    ensures
        all_well_named(abilities_after(markup, anchor, fuel)),
{
    let anchors = matches_of(markup, anchor);
    if anchors.len() > 0 {
        match parent_of(markup, anchors[0]) {
            None => {},
            Some(heading) => {
                lemma_run_well_named(markup, following_of(markup, heading), 0, fuel);
            },
        }
    }
}

/// `text` without its reference markers.
pub fn strip_markers(text: &str) -> (r: String)
    ensures
        r@ == without_markers(text@),
{
    match replace_all("\\[\\d+\\]", text, "") {
        Some(t) => t,
        None => String::from_str(text),
    }
}

/// Label and body of an item's text.
pub fn split_label(text: &str) -> (r: Option<(String, String)>)
    ensures
        match r {
            Some(parts) => label_and_body(text@) == Some((parts.0@, parts.1@)),
            None => label_and_body(text@).is_none(),
        },
{
    let n: usize = text.unicode_len();
    let i: usize = find_char(text, ':', 0);
    if i >= n {
        None
    } else {
        let label = trim(text.substring_char(0, i));
        let body = trim(text.substring_char(i + 1, n));
        Some((label, body))
    }
}

/// The ability made of a name, a description and the abilities below it,
/// kept only where neither text is empty.
pub fn build_ability(name: String, description: String, abilities: Vec<Ability>) -> (r: Option<
    Ability,
>)
    ensures
        match r {
            Some(a) => kept(name@, description@, ability_views(abilities@)) == Some(a@),
            None => kept(name@, description@, ability_views(abilities@)).is_none(),
        },
{
    if name.as_str().unicode_len() == 0 || description.as_str().unicode_len() == 0 {
        None
    } else {
        let a = Ability { name, description, abilities };
        proof {
            lemma_ability_view(a);
        }
        Some(a)
    }
}

fn text_piece(doc: &Html, node: usize, depth: usize) -> (r: String)
    ensures
        r@ == piece(markup_of(*doc), node, depth as nat),
    decreases depth, 0int,
{
    match node_text(doc, node) {
        Some(t) => t,
        None => {
            let is_list = match element_name(doc, node) {
                Some(name) => name == String::from_str("ul"),
                None => false,
            };
            if is_list || depth == 0 {
                String::new()
            } else {
                gather(doc, node, depth - 1)
            }
        },
    }
}

pub(crate) fn gather(doc: &Html, node: usize, depth: usize) -> (r: String)
    ensures
        r@ == own_text(markup_of(*doc), node, depth as nat),
    decreases depth, 1int,
{
    let kids = child_nodes(doc, node);
    let mut out: String = String::new();
    let mut i: usize = 0;
    while i < kids.len()
        invariant
            0 <= i <= kids.len(),
            kids@ == children_of(markup_of(*doc), node),
            out@ == gathered(markup_of(*doc), kids@, i as int, depth as nat),
        decreases kids.len() - i,
    {
        let t = text_piece(doc, kids[i], depth);
        out.append(t.as_str());
        i = i + 1;
    }
    out
}

fn ability_for(doc: &Html, item: usize, depth: usize) -> (r: Option<Ability>)
    ensures
        match r {
            Some(a) => ability_at(markup_of(*doc), item, depth as nat) == Some(a@),
            None => ability_at(markup_of(*doc), item, depth as nat).is_none(),
        },
    decreases depth, 0int,
{
    let nested = select_under(doc, item, "ul > li");
    let below = if depth == 0 {
        let none: Vec<Ability> = Vec::new();
        proof {
            assert(ability_views(none@) =~= Seq::<AbilityView>::empty());
        }
        none
    } else {
        abilities_for(doc, &nested, depth - 1)
    };
    let text = gather(doc, item, depth);
    match split_label(text.as_str()) {
        None => None,
        Some(parts) => {
            let description = strip_markers(parts.1.as_str());
            build_ability(parts.0, description, below)
        },
    }
}

fn abilities_for(doc: &Html, items: &Vec<usize>, depth: usize) -> (r: Vec<Ability>)
    ensures
        ability_views(r@) == abilities_upto(
            markup_of(*doc),
            items@,
            items@.len() as int,
            depth as nat,
        ),
    decreases depth, 1int,
{
    let mut out: Vec<Ability> = Vec::new();
    let mut i: usize = 0;
    proof {
        assert(ability_views(out@) =~= Seq::<AbilityView>::empty());
    }
    while i < items.len()
        invariant
            0 <= i <= items.len(),
            ability_views(out@) == abilities_upto(
                markup_of(*doc),
                items@,
                i as int,
                depth as nat,
            ),
        decreases items.len() - i,
    {
        let ghost so_far = ability_views(out@);
        match ability_for(doc, items[i], depth) {
            Some(a) => {
                out.push(a);
                proof {
                    assert(ability_views(out@) =~= so_far.push(a@));
                }
            },
            None => {},
        }
        i = i + 1;
    }
    out
}

/// The abilities that follow the first match of `anchor` in a parsed document.
pub(crate) fn abilities_in(doc: &Html, anchor: &str, depth: usize) -> (r: Vec<Ability>)
    ensures
        ability_views(r@) == abilities_after(markup_of(*doc), anchor@, depth as nat),
{
    let mut out: Vec<Ability> = Vec::new();
    proof {
        assert(ability_views(out@) =~= Seq::<AbilityView>::empty());
    }
    let anchors = select_all(doc, anchor);
    if anchors.len() == 0 {
        return out;
    }
    let heading: usize = match parent(doc, anchors[0]) {
        None => { return out; },
        Some(p) => p,
    };
    let siblings = next_siblings(doc, heading);
    let ghost markup = markup_of(*doc);
    let ghost fuel = depth as nat;
    let mut i: usize = 0;
    proof {
        assert(Seq::<AbilityView>::empty() + run_from(markup, siblings@, 0, fuel) =~= run_from(
            markup,
            siblings@,
            0,
            fuel,
        ));
    }
    while i < siblings.len()
        invariant
            0 <= i <= siblings.len(),
            markup == markup_of(*doc),
            fuel == depth as nat,
            abilities_after(markup, anchor@, fuel) == run_from(markup, siblings@, 0, fuel),
            run_from(markup, siblings@, 0, fuel) == ability_views(out@) + run_from(
                markup,
                siblings@,
                i as int,
                fuel,
            ),
        decreases siblings.len() - i,
    {
        match element_name(doc, siblings[i]) {
            None => {},
            Some(name) => {
                let is_list: bool = name == String::from_str("ul");
                let is_figure: bool = name == String::from_str("figure");
                if !is_list && !is_figure {
                    proof {
                        assert(name_of(markup, siblings@[i as int]) == Some(name@));
                        assert(run_from(markup, siblings@, i as int, fuel) =~= Seq::<
                            AbilityView,
                        >::empty());
                        assert(ability_views(out@) + Seq::<AbilityView>::empty() =~= ability_views(
                            out@,
                        ));
                    }
                    return out;
                }
                let items = select_under(doc, siblings[i], ":scope > li");
                let mut found = abilities_for(doc, &items, depth);
                let ghost so_far = ability_views(out@);
                let ghost added = ability_views(found@);
                out.append(&mut found);
                proof {
                    assert(ability_views(out@) =~= so_far + added);
                    assert(so_far + (added + run_from(markup, siblings@, i + 1, fuel)) =~= (so_far
                        + added) + run_from(markup, siblings@, i + 1, fuel));
                }
            },
        }
        i = i + 1;
    }
    proof {
        assert(ability_views(out@) + Seq::<AbilityView>::empty() =~= ability_views(out@));
    }
    out
}

/// The abilities that follow the first match of `anchor` in the page
/// `markup`, in document order, each with the abilities nested below it.
pub fn scrape_abilities(markup: &str, anchor: &str) -> (r: Vec<Ability>)
    ensures
        ability_views(r@) == abilities_after(markup@, anchor@, count_of(markup@) as nat),
        r@.len() == abilities_after(markup@, anchor@, count_of(markup@) as nat).len(),
        all_well_named(ability_views(r@)),
{
    let doc = parse_document(markup);
    let depth: usize = node_count(&doc);
    proof {
        lemma_abilities_after_well_named(markup@, anchor@, depth as nat);
    }
    let r = abilities_in(&doc, anchor, depth);
    proof {
        assert(ability_views(r@).len() == r@.len());
    }
    r
}

} // verus!
