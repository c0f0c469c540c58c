//! The records that a harvest produces, each with the mathematical value
//! that the contracts speak of.

use crate::text::{same_text, views};
use vstd::prelude::*;

verus! {

/// The characters of an optional string.
pub open spec fn opt_view(o: Option<String>) -> Option<Seq<char>> {
    match o {
        Some(s) => Some(s@),
        None => None,
    }
}

/// A devil as the listing page names it.
#[derive(Debug, Clone, PartialEq, Eq)]
pub struct Devil {
    pub devil_name: String,
    pub alias_name: Option<String>,
    pub wiki_url: String,
    pub category: String,
}

/// The value of a stub.
pub struct DevilView {
    pub devil_name: Seq<char>,
    pub alias_name: Option<Seq<char>>,
    pub wiki_url: Seq<char>,
    pub category: Seq<char>,
}

impl View for Devil {
    type V = DevilView;

    open spec fn view(&self) -> DevilView {
        DevilView {
            devil_name: self.devil_name@,
            alias_name: opt_view(self.alias_name),
            wiki_url: self.wiki_url@,
            category: self.category@,
        }
    }
}

/// The devils of `v`, each as its value.
pub open spec fn devil_views(v: Seq<Devil>) -> Seq<DevilView> {
    v.map_values(|d: Devil| d@)
}

/// A name in one script, with the alias that goes with it.
#[derive(Debug, Clone, PartialEq, Eq)]
pub struct DevilName {
    pub devil_name: String,
    pub alias_name: Option<String>,
}

/// The value of a name.
pub struct DevilNameView {
    pub devil_name: Seq<char>,
    pub alias_name: Option<Seq<char>>,
}

impl View for DevilName {
    type V = DevilNameView;

    open spec fn view(&self) -> DevilNameView {
        DevilNameView { devil_name: self.devil_name@, alias_name: opt_view(self.alias_name) }
    }
}

/// A named ability, what it does, and the abilities that refine it.
#[derive(Debug, PartialEq, Eq)]
pub struct Ability {
    pub name: String,
    pub description: String,
    pub abilities: Vec<Ability>,
}

/// The value of an ability.
pub struct AbilityView {
    pub name: Seq<char>,
    pub description: Seq<char>,
    pub abilities: Seq<AbilityView>,
}

/// The value of an ability: its two texts and the values of the abilities under it.
pub open spec fn ability_value(a: Ability) -> AbilityView
    decreases a,
{
    AbilityView {
        name: a.name@,
        description: a.description@,
        abilities: Seq::new(
            a.abilities@.len(),
            |i: int|
                if 0 <= i < a.abilities@.len() {
                    ability_value(a.abilities@[i])
                } else {
                    arbitrary()
                },
        ),
    }
}

impl View for Ability {
    type V = AbilityView;

    open spec fn view(&self) -> AbilityView {
        ability_value(*self)
    }
}

impl Clone for Ability {
    /// A copy of the whole tree.
    fn clone(&self) -> (copy: Ability)
        ensures
            copy@ == self@,
        decreases self,
    {
        let mut abilities: Vec<Ability> = Vec::new();
        let mut i: usize = 0;
        while i < self.abilities.len()
            invariant
                0 <= i <= self.abilities.len(),
                abilities@.len() == i,
                forall|j: int| 0 <= j < i ==> (#[trigger] abilities@[j])@ == self.abilities@[j]@,
            decreases self.abilities.len() - i,
        {
            abilities.push(self.abilities[i].clone());
            i = i + 1;
        }
        let copy = Ability {
            name: self.name.clone(),
            description: self.description.clone(),
            abilities,
        };
        proof {
            assert(copy@.abilities =~= self@.abilities);
        }
        copy
    }
}

/// The abilities of `v`, each as its value.
pub open spec fn ability_views(v: Seq<Ability>) -> Seq<AbilityView> {
    v.map_values(|a: Ability| a@)
}

/// The name that an optional name stands for.
pub open spec fn opt_name_view(o: Option<DevilName>) -> Option<DevilNameView> {
    match o {
        Some(n) => Some(n@),
        None => None,
    }
}

/// What a devil's own page tells of it. The names are held by script, the
/// abilities by category; a script without a name and a category without
/// abilities are no part of the two mappings.
#[derive(Debug, Clone, PartialEq, Eq)]
pub struct DevilDetail {
    pub kanji: Option<DevilName>,
    pub romaji: Option<DevilName>,
    pub image_src: Option<String>,
    pub gender: Option<String>,
    pub birthplace: Option<String>,
    pub status: Option<String>,
    pub occupations: Vec<String>,
    pub affiliations: Vec<String>,
    pub contracts: Vec<String>,
    pub relatives: Vec<String>,
    pub physical: Vec<Ability>,
    pub physical_prowess: Vec<Ability>,
    pub devil: Vec<Ability>,
    pub supernatural: Vec<Ability>,
}

/// The value of a record.
pub struct DevilDetailView {
    pub kanji: Option<DevilNameView>,
    pub romaji: Option<DevilNameView>,
    pub image_src: Option<Seq<char>>,
    pub gender: Option<Seq<char>>,
    pub birthplace: Option<Seq<char>>,
    pub status: Option<Seq<char>>,
    pub occupations: Seq<Seq<char>>,
    pub affiliations: Seq<Seq<char>>,
    pub contracts: Seq<Seq<char>>,
    pub relatives: Seq<Seq<char>>,
    pub physical: Seq<AbilityView>,
    pub physical_prowess: Seq<AbilityView>,
    pub devil: Seq<AbilityView>,
    pub supernatural: Seq<AbilityView>,
}

impl DevilDetailView {
    /// A record that tells nothing.
    pub open spec fn blank() -> DevilDetailView {
        DevilDetailView {
            kanji: None,
            romaji: None,
            image_src: None,
            gender: None,
            birthplace: None,
            status: None,
            occupations: Seq::empty(),
            affiliations: Seq::empty(),
            contracts: Seq::empty(),
            relatives: Seq::empty(),
            physical: Seq::empty(),
            physical_prowess: Seq::empty(),
            devil: Seq::empty(),
            supernatural: Seq::empty(),
        }
    }

    /// The names by language code.
    pub open spec fn names(self) -> Map<Seq<char>, DevilNameView> {
        let none = Map::<Seq<char>, DevilNameView>::empty();
        let first = match self.kanji {
            Some(n) => none.insert("kanji"@, n),
            None => none,
        };
        match self.romaji {
            Some(n) => first.insert("romaji"@, n),
            None => first,
        }
    }

    /// The abilities by category key; a category without abilities has no key.
    pub open spec fn abilities(self) -> Map<Seq<char>, Seq<AbilityView>> {
        let m0 = Map::<Seq<char>, Seq<AbilityView>>::empty();
        let m1 = if self.physical.len() > 0 {
            m0.insert("physical"@, self.physical)
        } else {
            m0
        };
        let m2 = if self.physical_prowess.len() > 0 {
            m1.insert("physical_prowess"@, self.physical_prowess)
        } else {
            m1
        };
        let m3 = if self.devil.len() > 0 {
            m2.insert("devil"@, self.devil)
        } else {
            m2
        };
        if self.supernatural.len() > 0 {
            m3.insert("supernatural"@, self.supernatural)
        } else {
            m3
        }
    }
}

impl View for DevilDetail {
    type V = DevilDetailView;

    open spec fn view(&self) -> DevilDetailView {
        DevilDetailView {
            kanji: opt_name_view(self.kanji),
            romaji: opt_name_view(self.romaji),
            image_src: opt_view(self.image_src),
            gender: opt_view(self.gender),
            birthplace: opt_view(self.birthplace),
            status: opt_view(self.status),
            occupations: views(self.occupations@),
            affiliations: views(self.affiliations@),
            contracts: views(self.contracts@),
            relatives: views(self.relatives@),
            physical: ability_views(self.physical@),
            physical_prowess: ability_views(self.physical_prowess@),
            devil: ability_views(self.devil@),
            supernatural: ability_views(self.supernatural@),
        }
    }
}

impl DevilDetail {
    /// The name under a language code.
    pub fn name_in(&self, language: &str) -> (r: Option<&DevilName>)
        ensures
            match r {
                Some(n) => self@.names().contains_key(language@) && self@.names()[language@]
                    == n@,
                None => !self@.names().contains_key(language@),
            },
    {
        proof {
            reveal_strlit("kanji");
            reveal_strlit("romaji");
            assert("kanji"@[0] != "romaji"@[0]);
        }
        if same_text(language, "romaji") {
            self.romaji.as_ref()
        } else if same_text(language, "kanji") {
            self.kanji.as_ref()
        } else {
            None
        }
    }

    /// The abilities under a category key.
    pub fn abilities_of(&self, key: &str) -> (r: Option<&Vec<Ability>>)
        ensures
            match r {
                Some(list) => self@.abilities().contains_key(key@) && self@.abilities()[key@]
                    == ability_views(list@),
                None => !self@.abilities().contains_key(key@),
            },
    {
        proof {
            reveal_strlit("physical");
            reveal_strlit("physical_prowess");
            reveal_strlit("devil");
            reveal_strlit("supernatural");
            assert("physical"@[0] != "devil"@[0]);
            assert("physical"@[0] != "supernatural"@[0]);
            assert("devil"@[0] != "supernatural"@[0]);
            assert("physical"@.len() != "physical_prowess"@.len());
        }
        let list = if same_text(key, "physical") {
            &self.physical
        } else if same_text(key, "physical_prowess") {
            &self.physical_prowess
        } else if same_text(key, "devil") {
            &self.devil
        } else if same_text(key, "supernatural") {
            &self.supernatural
        } else {
            return None;
        };
        if list.len() == 0 {
            None
        } else {
            Some(list)
        }
    }

    /// A record that tells nothing.
    pub fn blank() -> (d: DevilDetail)
        ensures
            d@ == DevilDetailView::blank(),
    {
        let d = DevilDetail {
            kanji: None,
            romaji: None,
            image_src: None,
            gender: None,
            birthplace: None,
            status: None,
            occupations: Vec::new(),
            affiliations: Vec::new(),
            contracts: Vec::new(),
            relatives: Vec::new(),
            physical: Vec::new(),
            physical_prowess: Vec::new(),
            devil: Vec::new(),
            supernatural: Vec::new(),
        };
        proof {
            assert(d@.occupations =~= Seq::<Seq<char>>::empty());
            assert(d@.affiliations =~= Seq::<Seq<char>>::empty());
            assert(d@.contracts =~= Seq::<Seq<char>>::empty());
            assert(d@.relatives =~= Seq::<Seq<char>>::empty());
            assert(d@.physical =~= Seq::<AbilityView>::empty());
            assert(d@.physical_prowess =~= Seq::<AbilityView>::empty());
            assert(d@.devil =~= Seq::<AbilityView>::empty());
            assert(d@.supernatural =~= Seq::<AbilityView>::empty());
        }
        d
    }
}

/// The records of `v`, each as its value.
pub open spec fn detail_views(v: Seq<DevilDetail>) -> Seq<DevilDetailView> {
    v.map_values(|d: DevilDetail| d@)
}

pub proof fn lemma_ability_view(a: Ability)
    ensures
        a@.name == a.name@,
        a@.description == a.description@,
        a@.abilities == ability_views(a.abilities@),
{
    assert(a@.abilities.len() == a.abilities@.len());
    assert forall|i: int| 0 <= i < a.abilities@.len() implies a@.abilities[i] == ability_views(
        a.abilities@,
    )[i] by {}
    assert(a@.abilities =~= ability_views(a.abilities@));
}

} // verus!
