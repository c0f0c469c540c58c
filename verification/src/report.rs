//! An ability tree laid out for printing: one row for each ability, an
//! ability before the abilities below it, each with its depth in the tree.

use crate::models::{ability_views, lemma_ability_view, Ability, AbilityView};
use vstd::prelude::*;

verus! {

/// One ability of a tree, with the level at which it stands.
#[derive(Debug, Clone, PartialEq, Eq)]
pub struct AbilityRow {
    pub level: i32,
    pub name: String,
    pub description: String,
}

/// The value of a row.
pub struct AbilityRowView {
    pub level: i32,
    pub name: Seq<char>,
    pub description: Seq<char>,
}

impl View for AbilityRow {
    type V = AbilityRowView;

    open spec fn view(&self) -> AbilityRowView {
        AbilityRowView { level: self.level, name: self.name@, description: self.description@ }
    }
}

/// The rows of `v`, each as its value.
pub open spec fn row_views(v: Seq<AbilityRow>) -> Seq<AbilityRowView> {
    v.map_values(|r: AbilityRow| r@)
}

/// The level below `level`; the last level that a number can hold is its own.
pub open spec fn deeper(level: i32) -> i32 {
    if level < i32::MAX {
        (level + 1) as i32
    } else {
        level
    }
}

/// The rows of an ability that stands at `level`: its own row, then the
/// rows of the abilities below it, which stand one level deeper.
pub open spec fn rows_of(level: i32, a: AbilityView) -> Seq<AbilityRowView>
    decreases a, 0int,
{
    seq![AbilityRowView { level: level, name: a.name, description: a.description }] + rows_upto(
        deeper(level),
        a.abilities,
        a.abilities.len() as int,
    )
}

/// The rows of the first `n` abilities of `list`, all at `level`.
pub open spec fn rows_upto(level: i32, list: Seq<AbilityView>, n: int) -> Seq<AbilityRowView>
    decreases list, n,
{
    if n <= 0 || n > list.len() {
        Seq::empty()
    } else {
        rows_upto(level, list, n - 1) + rows_of(level, list[n - 1])
    }
}

/// The rows of an ability tree whose root stands at `level`.
pub fn ability_rows(level: i32, ability: &Ability) -> (rows: Vec<AbilityRow>)
    ensures
        row_views(rows@) == rows_of(level, ability@),
    decreases ability,
{
    let mut rows: Vec<AbilityRow> = Vec::new();
    rows.push(
        AbilityRow {
            level,
            name: ability.name.clone(),
            description: ability.description.clone(),
        },
    );
    let below: i32 = if level < i32::MAX {
        level + 1
    } else {
        level
    };
    let ghost own = row_views(rows@);
    let ghost list = ability_views(ability.abilities@);
    proof {
        lemma_ability_view(*ability);
        assert(own =~= seq![
            AbilityRowView { level: level, name: ability@.name, description: ability@.description },
        ]);
        assert(own + Seq::<AbilityRowView>::empty() =~= own);
    }
    let mut i: usize = 0;
    while i < ability.abilities.len()
        invariant
            0 <= i <= ability.abilities.len(),
            below == deeper(level),
            list == ability_views(ability.abilities@),
            row_views(rows@) == own + rows_upto(below, list, i as int),
        decreases ability.abilities.len() - i,
    {
        let mut more = ability_rows(below, &ability.abilities[i]);
        let ghost so_far = row_views(rows@);
        let ghost added = row_views(more@);
        rows.append(&mut more);
        proof {
            assert(row_views(rows@) =~= so_far + added);
            assert(own + (rows_upto(below, list, i as int) + added) =~= so_far + added);
        }
        i = i + 1;
    }
    rows
}

} // verus!
