use vstd::prelude::*;

verus! {

use Slot::{Any, Off, On};

/// Index returned when no rule of the table matches a neighborhood.
pub const FALLBACK_TILE: usize = 7;

/// Index of the "fully surrounded" tile.
pub const INTERIOR_TILE: usize = 7;

/// Index of the empty/background tile, chosen for every cell that is not filled.
pub const BACKGROUND_TILE: usize = 11;

/// Number of tiles an atlas must hold so that every index of the standard table resolves.
pub const ATLAS_TILES_NEEDED: usize = 28;

/// One position of a 3x3 pattern: a wildcard, or a required state.
#[derive(Clone, Copy, Debug, PartialEq, Eq, Structural)]
pub enum Slot {
    Any,
    Off,
    On,
}

/// A pattern over the 9 positions of a neighborhood (row-major, center at 4),
/// and the atlas index it selects.
#[derive(Clone, Copy, Debug)]
pub struct Rule {
    pub pattern: [Slot; 9],
    pub tile: usize,
}

impl View for Rule {
    type V = (Seq<Slot>, usize);

    open spec fn view(&self) -> (Seq<Slot>, usize) {
        (self.pattern@, self.tile)
    }
}

pub open spec fn slot_admits(s: Slot, b: bool) -> bool {
    match s {
        Slot::Any => true,
        Slot::Off => !b,
        Slot::On => b,
    }
}

/// Every non-wildcard slot of `p` agrees with the neighborhood `n`.
pub open spec fn pattern_matches(p: Seq<Slot>, n: Seq<bool>) -> bool {
    &&& p.len() == 9
    &&& n.len() == 9
    &&& forall|k: int| 0 <= k < 9 ==> #[trigger] slot_admits(p[k], n[k])
}

/// The tile of the first rule at or after position `i` that matches `n`,
/// or the fallback index when none does.
pub open spec fn first_match_from(rules: Seq<(Seq<Slot>, usize)>, n: Seq<bool>, i: int) -> usize
    decreases rules.len() - i,
{
    if i < 0 || i >= rules.len() {
        FALLBACK_TILE
    } else if pattern_matches(rules[i].0, n) {
        rules[i].1
    } else {
        first_match_from(rules, n, i + 1)
    }
}

/// The tile that a rule table selects for the neighborhood `n`.
pub open spec fn select_spec(rules: Seq<(Seq<Slot>, usize)>, n: Seq<bool>) -> usize {
    first_match_from(rules, n, 0)
}

/// The table of edge-aware patterns, in evaluation order.
pub open spec fn standard_rules() -> Seq<(Seq<Slot>, usize)> {
    seq![
        (seq![Any, Off, Any, Off, On, On, Any, On, On], 0usize),
        (seq![Any, Off, Any, On, On, On, On, On, On], 1usize),
        (seq![Any, Off, Any, On, On, Off, On, On, Any], 2usize),
        (seq![Any, Off, Any, Off, On, On, Any, Off, Any], 3usize),
        (seq![Any, Off, Any, On, On, On, Any, Off, Any], 4usize),
        (seq![Any, Off, Any, On, On, Off, Any, Off, Any], 5usize),
        (seq![Any, On, On, Off, On, On, Any, On, On], 6usize),
        (seq![On, On, On, On, On, On, On, On, On], 7usize),
        (seq![On, On, Any, On, On, Off, On, On, Any], 8usize),
        (seq![Any, Off, Any, Off, On, Off, Any, Off, Any], 9usize),
        (seq![Any, Off, Any, Off, On, Off, Any, On, Any], 10usize),
        (seq![Any, Any, Any, Any, Off, Any, Any, Any, Any], 11usize),
        (seq![Any, On, On, Off, On, On, Any, Off, Any], 12usize),
        (seq![On, On, On, On, On, On, Any, Off, Any], 13usize),
        (seq![On, On, Any, On, On, Off, Any, Off, Any], 14usize),
        (seq![Off, On, Off, On, On, On, Off, On, Off], 15usize),
        (seq![Any, On, Any, Off, On, Off, Any, On, Any], 16usize),
        (seq![Off, On, On, On, On, On, Any, On, Any], 18usize),
        (seq![On, On, Off, On, On, On, Any, On, Any], 19usize),
        (seq![Any, Off, Any, Off, On, On, Any, On, Off], 20usize),
        (seq![Any, Off, Any, On, On, Off, Off, On, Any], 21usize),
        (seq![Any, On, Any, Off, On, Off, Any, Off, Any], 22usize),
        (seq![Any, On, Any, On, On, On, Off, On, On], 24usize),
        (seq![Any, On, Any, On, On, On, On, On, Off], 25usize),
        (seq![Any, On, Off, Off, On, On, Any, Off, Any], 26usize),
        (seq![Off, On, Any, On, On, Off, Any, Off, Any], 27usize),
    ]
}

/// Does `rule` match the neighborhood `n`?
pub fn rule_matches(rule: &Rule, n: &[bool; 9]) -> (r: bool)
    ensures
        r == pattern_matches(rule.pattern@, n@),
{
    let mut k: usize = 0;
    while k < 9
        invariant
            k <= 9,
            forall|j: int| 0 <= j < k ==> #[trigger] slot_admits(rule.pattern@[j], n@[j]),
        decreases 9 - k,
    {
        let ok = match rule.pattern[k] {
            Slot::Any => true,
            Slot::Off => !n[k],
            Slot::On => n[k],
        };
        assert(ok == slot_admits(rule.pattern@[k as int], n@[k as int]));
        if !ok {
            return false;
        }
        k = k + 1;
    }
    true
}

/// An ordered table of rules mapping neighborhoods to atlas indices.
pub struct TileSelector {
    rules: Vec<Rule>,
}

impl View for TileSelector {
    type V = Seq<(Seq<Slot>, usize)>;

    closed spec fn view(&self) -> Seq<(Seq<Slot>, usize)> {
        self.rules@.map_values(|r: Rule| r@)
    }
}

impl TileSelector {
    /// A selector over the given rules, evaluated in the order given.
    pub fn from_rules(rules: Vec<Rule>) -> (s: TileSelector)
        ensures
            s@ == rules@.map_values(|r: Rule| r@),
    {
        TileSelector { rules }
    }

    /// The selector over the standard edge-aware table.
    pub fn standard() -> (s: TileSelector)
        ensures
            s@ == standard_rules(),
    {
        let rules = vec![
            Rule { pattern: [Any, Off, Any, Off, On, On, Any, On, On], tile: 0 },
            Rule { pattern: [Any, Off, Any, On, On, On, On, On, On], tile: 1 },
            Rule { pattern: [Any, Off, Any, On, On, Off, On, On, Any], tile: 2 },
            Rule { pattern: [Any, Off, Any, Off, On, On, Any, Off, Any], tile: 3 },
            Rule { pattern: [Any, Off, Any, On, On, On, Any, Off, Any], tile: 4 },
            Rule { pattern: [Any, Off, Any, On, On, Off, Any, Off, Any], tile: 5 },
            Rule { pattern: [Any, On, On, Off, On, On, Any, On, On], tile: 6 },
            Rule { pattern: [On, On, On, On, On, On, On, On, On], tile: 7 },
            Rule { pattern: [On, On, Any, On, On, Off, On, On, Any], tile: 8 },
            Rule { pattern: [Any, Off, Any, Off, On, Off, Any, Off, Any], tile: 9 },
            Rule { pattern: [Any, Off, Any, Off, On, Off, Any, On, Any], tile: 10 },
            Rule { pattern: [Any, Any, Any, Any, Off, Any, Any, Any, Any], tile: 11 },
            Rule { pattern: [Any, On, On, Off, On, On, Any, Off, Any], tile: 12 },
            Rule { pattern: [On, On, On, On, On, On, Any, Off, Any], tile: 13 },
            Rule { pattern: [On, On, Any, On, On, Off, Any, Off, Any], tile: 14 },
            Rule { pattern: [Off, On, Off, On, On, On, Off, On, Off], tile: 15 },
            Rule { pattern: [Any, On, Any, Off, On, Off, Any, On, Any], tile: 16 },
            Rule { pattern: [Off, On, On, On, On, On, Any, On, Any], tile: 18 },
            Rule { pattern: [On, On, Off, On, On, On, Any, On, Any], tile: 19 },
            Rule { pattern: [Any, Off, Any, Off, On, On, Any, On, Off], tile: 20 },
            Rule { pattern: [Any, Off, Any, On, On, Off, Off, On, Any], tile: 21 },
            Rule { pattern: [Any, On, Any, Off, On, Off, Any, Off, Any], tile: 22 },
            Rule { pattern: [Any, On, Any, On, On, On, Off, On, On], tile: 24 },
            Rule { pattern: [Any, On, Any, On, On, On, On, On, Off], tile: 25 },
            Rule { pattern: [Any, On, Off, Off, On, On, Any, Off, Any], tile: 26 },
            Rule { pattern: [Off, On, Any, On, On, Off, Any, Off, Any], tile: 27 },
        ];
        let s = TileSelector { rules };
        assert(s@ =~= standard_rules());
        s
    }

    /// The tile of the first rule that matches `n`, or the fallback index.
    pub fn select(&self, n: &[bool; 9]) -> (r: usize)
        ensures
            r == select_spec(self@, n@),
    {
        let mut i: usize = 0;
        while i < self.rules.len()
            invariant
                i <= self.rules@.len(),
                first_match_from(self@, n@, 0) == first_match_from(self@, n@, i as int),
            decreases self.rules@.len() - i,
        {
            assert(self@[i as int] == self.rules@[i as int]@);
            if rule_matches(&self.rules[i], n) {
                return self.rules[i].tile;
            }
            i = i + 1;
        }
        FALLBACK_TILE
    }
}

proof fn lemma_match_from(rules: Seq<(Seq<Slot>, usize)>, n: Seq<bool>, j: int, i: int)
    requires
        0 <= j <= i < rules.len(),
        pattern_matches(rules[i].0, n),
        forall|k: int| 0 <= k < i ==> !#[trigger] pattern_matches(rules[k].0, n),
    ensures
        first_match_from(rules, n, j) == rules[i].1,
    decreases i - j,
{
    if j < i {
        lemma_match_from(rules, n, j + 1, i);
    }
}

/// Selection is deterministic and decided by declaration order: when rule `i`
/// matches `n` and no earlier rule does, the table selects the tile of rule `i`,
/// whichever later rules also match.
pub proof fn lemma_earliest_match_wins(rules: Seq<(Seq<Slot>, usize)>, n: Seq<bool>, i: int)
    requires
        0 <= i < rules.len(),
        pattern_matches(rules[i].0, n),
        forall|k: int| 0 <= k < i ==> !#[trigger] pattern_matches(rules[k].0, n),
    ensures
        select_spec(rules, n) == rules[i].1,
{
    lemma_match_from(rules, n, 0, i);
}

proof fn lemma_bounded_from(rules: Seq<(Seq<Slot>, usize)>, n: Seq<bool>, i: int, bound: usize)
    requires
        0 <= i,
        FALLBACK_TILE < bound,
        forall|k: int| 0 <= k < rules.len() ==> #[trigger] rules[k].1 < bound,
    ensures
        first_match_from(rules, n, i) < bound,
    decreases rules.len() - i,
{
    if i < rules.len() {
        lemma_bounded_from(rules, n, i + 1, bound);
    }
}

/// The standard table is total: every 9-position neighborhood selects an index
/// that lies within an atlas of `ATLAS_TILES_NEEDED` tiles.
pub proof fn lemma_selection_in_atlas(n: Seq<bool>)
    requires
        n.len() == 9,
    ensures
        select_spec(standard_rules(), n) < ATLAS_TILES_NEEDED,
{
    let rules = standard_rules();
    assert forall|k: int| 0 <= k < rules.len() implies #[trigger] rules[k].1 < ATLAS_TILES_NEEDED by {
        assert(rules.len() == 26);
    }
    lemma_bounded_from(rules, n, 0, ATLAS_TILES_NEEDED);
}

/// A neighborhood whose center is not filled selects the background tile,
/// whatever its eight other positions hold.
pub proof fn lemma_empty_center_is_background(n: Seq<bool>)
    requires
        n.len() == 9,
        !n[4],
    ensures
        select_spec(standard_rules(), n) == BACKGROUND_TILE,
{
    let rules = standard_rules();
    assert forall|k: int| 0 <= k < 11 implies !#[trigger] pattern_matches(rules[k].0, n) by {
        assert(rules[k].0[4] == On);
        assert(!slot_admits(rules[k].0[4], n[4]));
    }
    assert(rules[11].0 =~= seq![Any, Any, Any, Any, Off, Any, Any, Any, Any]);
    assert(pattern_matches(rules[11].0, n));
    lemma_earliest_match_wins(rules, n, 11);
}

/// A filled cell whose eight neighbors are all filled selects the interior tile.
pub proof fn lemma_full_neighborhood_is_interior(n: Seq<bool>)
    requires
        n.len() == 9,
        forall|k: int| 0 <= k < 9 ==> #[trigger] n[k],
    ensures
        select_spec(standard_rules(), n) == INTERIOR_TILE,
{
    let rules = standard_rules();
    assert(!slot_admits(rules[0].0[1], n[1]));
    assert(!slot_admits(rules[1].0[1], n[1]));
    assert(!slot_admits(rules[2].0[1], n[1]));
    assert(!slot_admits(rules[3].0[1], n[1]));
    assert(!slot_admits(rules[4].0[1], n[1]));
    assert(!slot_admits(rules[5].0[1], n[1]));
    assert(!slot_admits(rules[6].0[3], n[3]));
    assert forall|k: int| 0 <= k < 9 implies #[trigger] slot_admits(rules[7].0[k], n[k]) by {
        assert(rules[7].0 =~= seq![On, On, On, On, On, On, On, On, On]);
    }
    lemma_earliest_match_wins(rules, n, 7);
}

} // verus!
