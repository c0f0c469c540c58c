//! The listing walk: from the markup of the listing page to one stub per
//! devil, category by category and, within a category, in document order.

use crate::dom::{attr, attr_of, markup_of, matches_of, matches_under, parse_document, select_all, select_under, text_fragments, texts_of};
use crate::models::{devil_views, opt_view, Devil, DevilView};
use crate::text::{join, find_char, find_from, joined, lemma_find_absent};
use scraper::Html;
use vstd::prelude::*;
use vstd::string::*;

verus! {

/// Where every relative link of the wiki starts from.
pub open spec fn base_url() -> Seq<char> {
    "https://chainsaw-man.fandom.com"@
}

/// The path of the listing page below the base.
pub open spec fn listing_path() -> Seq<char> {
    "/wiki/devil"@
}

/// The number of categories on the listing page.
pub open spec fn category_count() -> int {
    5
}

/// The label of category `k`.
pub open spec fn label_of(k: int) -> Seq<char> {
    if k == 0 {
        "Normal Devils"@
    } else if k == 1 {
        "Primal Devils"@
    } else if k == 2 {
        "Reincarnated Devils"@
    } else if k == 3 {
        "Fiends"@
    } else {
        "Hybrids"@
    }
}

/// The selector of the container that holds category `k`.
pub open spec fn container_of(k: int) -> Seq<char> {
    if k == 0 {
        "div[id=\"gallery-0\"]"@
    } else if k == 1 {
        "div[id=\"gallery-1\"]"@
    } else if k == 2 {
        "div[id=\"gallery-2\"]"@
    } else if k == 3 {
        "div[id=\"gallery-4\"]"@
    } else {
        "div[id=\"gallery-5\"]"@
    }
}

/// The selector of an entry within a container.
pub open spec fn item_selector() -> Seq<char> {
    "div[class=\"wikia-gallery-item\"]"@
}

/// The selector of an entry's caption link.
pub open spec fn link_selector() -> Seq<char> {
    "div[class=\"lightbox-caption\"] > a"@
}

/// Alias and name that a link text gives: a text with exactly one `/` is
/// the alias, the `/`, and the name; any other text is the name.
pub open spec fn split_name(s: Seq<char>) -> (Option<Seq<char>>, Seq<char>) {
    let i = find_from(s, '/', 0);
    if i < s.len() && find_from(s, '/', i + 1) >= s.len() {
        (Some(s.subrange(0, i)), s.subrange(i + 1, s.len() as int))
    } else {
        (None, s)
    }
}

/// The stub of an entry with the relative link `href` and the link text
/// `text` in the category `category`.
pub open spec fn stub_from(href: Seq<char>, text: Seq<char>, category: Seq<char>) -> DevilView {
    DevilView {
        devil_name: split_name(text).1,
        alias_name: split_name(text).0,
        wiki_url: base_url() + href,
        category: category,
    }
}

/// The stub that entry `item` gives, if it has a caption link with an `href`.
pub open spec fn stub_of(markup: Seq<char>, item: usize, category: Seq<char>) -> Option<DevilView> {
    let links = matches_under(markup, item, link_selector());
    if links.len() == 0 {
        None
    } else {
        match attr_of(markup, links[0], "href"@) {
            None => None,
            Some(href) => Some(stub_from(href, joined(texts_of(markup, links[0])), category)),
        }
    }
}

/// The stubs of the first `n` entries of `items`.
pub open spec fn stubs_upto(markup: Seq<char>, items: Seq<usize>, category: Seq<char>, n: int) -> Seq<
    DevilView,
>
    decreases n,
{
    if n <= 0 || n > items.len() {
        Seq::empty()
    } else {
        let rest = stubs_upto(markup, items, category, n - 1);
        match stub_of(markup, items[n - 1], category) {
            Some(d) => rest.push(d),
            None => rest,
        }
    }
}

/// The stubs of category `k`: those of the entries of its first container,
/// none where the page has no such container.
pub open spec fn category_stubs(markup: Seq<char>, k: int) -> Seq<DevilView> {
    let roots = matches_of(markup, container_of(k));
    if roots.len() == 0 {
        Seq::empty()
    } else {
        let items = matches_under(markup, roots[0], item_selector());
        stubs_upto(markup, items, label_of(k), items.len() as int)
    }
}

/// The stubs of the first `k` categories.
pub open spec fn listing_upto(markup: Seq<char>, k: int) -> Seq<DevilView>
    decreases k,
{
    if k <= 0 {
        Seq::empty()
    } else {
        listing_upto(markup, k - 1) + category_stubs(markup, k - 1)
    }
}

/// The stubs that the listing page `markup` gives.
pub open spec fn listing(markup: Seq<char>) -> Seq<DevilView> {
    listing_upto(markup, category_count())
}

/// The address of the listing page.
pub fn listing_url() -> (url: String)
    ensures
        url@ == base_url() + listing_path(),
{
    String::from_str("https://chainsaw-man.fandom.com").concat("/wiki/devil")
}

/// The address that a relative link stands for.
pub fn wiki_url(href: &str) -> (url: String)
    ensures
        url@ == base_url() + href@,
{
    String::from_str("https://chainsaw-man.fandom.com").concat(href)
}

/// Alias and name that a link text gives.
pub fn split_link_text(text: &str) -> (r: (Option<String>, String))
    ensures
        opt_view(r.0) == split_name(text@).0,
        r.1@ == split_name(text@).1,
{
    let n: usize = text.unicode_len();
    let i: usize = find_char(text, '/', 0);
    if i < n {
        let j: usize = find_char(text, '/', i + 1);
        if j >= n {
            let alias = String::from_str(text.substring_char(0, i));
            let name = String::from_str(text.substring_char(i + 1, n));
            return (Some(alias), name);
        }
    }
    (None, String::from_str(text))
}

/// The stub of an entry, given its relative link, its link text and its category.
pub fn devil_from(href: &str, text: &str, category: &str) -> (d: Devil)
    ensures
        d@ == stub_from(href@, text@, category@),
{
    let (alias_name, devil_name) = split_link_text(text);
    Devil {
        devil_name,
        alias_name,
        wiki_url: wiki_url(href),
        category: String::from_str(category),
    }
}

fn category_label(k: usize) -> (r: &'static str)
    requires
        k < category_count(),
    ensures
        r@ == label_of(k as int),
{
    if k == 0 {
        "Normal Devils"
    } else if k == 1 {
        "Primal Devils"
    } else if k == 2 {
        "Reincarnated Devils"
    } else if k == 3 {
        "Fiends"
    } else {
        "Hybrids"
    }
}

fn category_container(k: usize) -> (r: &'static str)
    requires
        k < category_count(),
    ensures
        r@ == container_of(k as int),
{
    if k == 0 {
        "div[id=\"gallery-0\"]"
    } else if k == 1 {
        "div[id=\"gallery-1\"]"
    } else if k == 2 {
        "div[id=\"gallery-2\"]"
    } else if k == 3 {
        "div[id=\"gallery-4\"]"
    } else {
        "div[id=\"gallery-5\"]"
    }
}

fn stub_for(doc: &Html, item: usize, category: &str) -> (r: Option<Devil>)
    ensures
        match r {
            Some(d) => stub_of(markup_of(*doc), item, category@) == Some(d@),
            None => stub_of(markup_of(*doc), item, category@).is_none(),
        },
{
    let links = select_under(doc, item, "div[class=\"lightbox-caption\"] > a");
    if links.len() == 0 {
        return None;
    }
    let link: usize = links[0];
    match attr(doc, link, "href") {
        None => None,
        Some(href) => {
            let fragments = text_fragments(doc, link);
            let raw_name = join(&fragments);
            Some(devil_from(href.as_str(), raw_name.as_str(), category))
        },
    }
}

fn category_devils(doc: &Html, k: usize, devils: &mut Vec<Devil>)
    requires
        k < category_count(),
    ensures
        devil_views(final(devils)@) == devil_views(old(devils)@) + category_stubs(
            markup_of(*doc),
            k as int,
        ),
{
    let roots = select_all(doc, category_container(k));
    if roots.len() == 0 {
        proof {
            assert(devil_views(devils@) + Seq::<DevilView>::empty() =~= devil_views(devils@));
        }
        return ;
    }
    let items = select_under(doc, roots[0], "div[class=\"wikia-gallery-item\"]");
    let label = category_label(k);
    let ghost before = devil_views(devils@);
    let ghost markup = markup_of(*doc);
    let mut i: usize = 0;
    proof {
        assert(before + Seq::<DevilView>::empty() =~= before);
    }
    while i < items.len()
        invariant
            0 <= i <= items.len(),
            markup == markup_of(*doc),
            label@ == label_of(k as int),
            devil_views(devils@) == before + stubs_upto(markup, items@, label@, i as int),
        decreases items.len() - i,
    {
        let ghost so_far = devil_views(devils@);
        match stub_for(doc, items[i], label) {
            Some(d) => {
                devils.push(d);
                proof {
                    assert(devil_views(devils@) =~= so_far.push(d@));
                    assert(before + stubs_upto(markup, items@, label@, i as int).push(d@)
                        =~= so_far.push(d@));
                }
            },
            None => {},
        }
        i = i + 1;
    }
}

/// The stubs that the listing page gives: for each category in turn, one for
/// each entry of its container that has a caption link with an `href`. A
/// category whose container is missing gives none.
pub fn scrape_devils(markup: &str) -> (devils: Vec<Devil>)
    ensures
        devil_views(devils@) == listing(markup@),
        devils@.len() == listing(markup@).len(),
        forall|i: int| 0 <= i < devils@.len() ==> from_base(#[trigger] devils@[i].wiki_url@),
{
    let doc = parse_document(markup);
    let mut devils: Vec<Devil> = Vec::new();
    let mut k: usize = 0;
    proof {
        assert(devil_views(devils@) =~= Seq::<DevilView>::empty());
    }
    while k < 5
        invariant
            0 <= k <= 5,
            markup_of(doc) == markup@,
            devil_views(devils@) == listing_upto(markup@, k as int),
        decreases 5 - k,
    {
        category_devils(&doc, k, &mut devils);
        k = k + 1;
    }
    proof {
        assert(devil_views(devils@).len() == devils@.len());
        lemma_listing_addresses(markup@, category_count());
        assert forall|i: int| 0 <= i < devils@.len() implies from_base(
            #[trigger] devils@[i].wiki_url@,
        ) by {
            assert(devil_views(devils@)[i].wiki_url == devils@[i].wiki_url@);
            assert(from_base(listing_upto(markup@, category_count())[i].wiki_url));
        }
    }
    devils
}

/// A link text made of an alias, one `/` and a name gives that alias and
/// that name, where neither holds a `/` itself.
pub proof fn lemma_split_name_two_parts(a: Seq<char>, b: Seq<char>)
    requires
        !a.contains('/'),
        !b.contains('/'),
    ensures
        split_name(a + seq!['/'] + b) == (Some(a), b),
{
    let s = a + seq!['/'] + b;
    lemma_find_absent(s, '/', 0, a.len() as int);
    lemma_find_absent(s, '/', a.len() as int + 1, s.len() as int);
    assert(s.subrange(0, a.len() as int) =~= a);
    assert(s.subrange(a.len() as int + 1, s.len() as int) =~= b);
}

/// The stub of an entry whose link text is an alias, one `/` and a name:
/// it has that alias and that name, and its address is the base followed by
/// the entry's relative link.
pub proof fn lemma_stub_from_two_parts(
    href: Seq<char>,
    a: Seq<char>,
    b: Seq<char>,
    category: Seq<char>,
)
    requires
        !a.contains('/'),
        !b.contains('/'),
    ensures
        stub_from(href, a + seq!['/'] + b, category) == (DevilView {
            devil_name: b,
            alias_name: Some(a),
            wiki_url: base_url() + href,
            category: category,
        }),
{
    lemma_split_name_two_parts(a, b);
}

/// A link text without `/` is the name as it stands, and gives no alias.
pub proof fn lemma_split_name_plain(s: Seq<char>)
    requires
        !s.contains('/'),
    ensures
        split_name(s) == (None::<Seq<char>>, s),
{
    lemma_find_absent(s, '/', 0, s.len() as int);
}

/// A page that holds none of the category containers gives no stub.
pub proof fn lemma_listing_without_containers(markup: Seq<char>, k: int)
    requires
        forall|c: int| 0 <= c < k ==> matches_of(markup, #[trigger] container_of(c)).len() == 0,
    ensures
        listing_upto(markup, k) == Seq::<DevilView>::empty(),
    decreases k,
{
    if k > 0 {
        lemma_listing_without_containers(markup, k - 1);
        assert(matches_of(markup, container_of(k - 1)).len() == 0);
        assert(listing_upto(markup, k) =~= Seq::<DevilView>::empty());
    }
}

/// Whether an address is the base followed by a relative link.
pub open spec fn from_base(url: Seq<char>) -> bool {
    exists|href: Seq<char>| url == base_url() + href
}

/// Every stub of a run of entries has an address made of the base and a
/// relative link.
pub proof fn lemma_stub_addresses(markup: Seq<char>, items: Seq<usize>, category: Seq<char>, n: int)
    ensures
        forall|i: int|
            0 <= i < stubs_upto(markup, items, category, n).len() ==> from_base(
                #[trigger] stubs_upto(markup, items, category, n)[i].wiki_url,
            ),
    decreases n,
{
    if 0 < n <= items.len() {
        lemma_stub_addresses(markup, items, category, n - 1);
        match stub_of(markup, items[n - 1], category) {
            Some(d) => {
                let links = matches_under(markup, items[n - 1], link_selector());
                let href = attr_of(markup, links[0], "href"@).unwrap();
                assert(d.wiki_url == base_url() + href);
            },
            None => {},
        }
    }
}

/// Every stub of a listing page has an address made of the base and a
/// relative link.
pub proof fn lemma_listing_addresses(markup: Seq<char>, k: int)
    ensures
        forall|i: int|
            0 <= i < listing_upto(markup, k).len() ==> from_base(
                #[trigger] listing_upto(markup, k)[i].wiki_url,
            ),
    decreases k,
{
    if k > 0 {
        lemma_listing_addresses(markup, k - 1);
        let roots = matches_of(markup, container_of(k - 1));
        if roots.len() > 0 {
            let items = matches_under(markup, roots[0], item_selector());
            lemma_stub_addresses(markup, items, label_of(k - 1), items.len() as int);
        }
    }
}

/// Two relative links with one address are one link.
pub proof fn lemma_wiki_url_injective(h1: Seq<char>, h2: Seq<char>)
    requires
        base_url() + h1 == base_url() + h2,
    ensures
        h1 == h2,
{
    let n = base_url().len() as int;
    assert((base_url() + h1).subrange(n, n + h1.len()) =~= h1);
    assert((base_url() + h2).subrange(n, n + h2.len()) =~= h2);
    assert((base_url() + h1).len() == n + h1.len());
    assert((base_url() + h2).len() == n + h2.len());
}

} // verus!
