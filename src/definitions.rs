use vstd::prelude::*;

use crate::types::Color;

verus! {

/// The kinds of monster.
#[derive(Debug, Clone, Copy, PartialEq, Eq, Hash, Structural)]
pub enum MonsterKind {
    /// Standard speed and behaviour.
    Kappa,
    /// Fast.
    Yurei,
    /// Large and slow.
    Bakeneko,
}

/// Innate behaviour of a monster kind.
#[derive(Debug, Clone, Copy, PartialEq, Eq, Structural)]
pub enum SpecialBehavior {
    /// No special behaviour.
    Plain,
    /// Passes by other monsters: a pair in which either one passes through never blocks.
    PassThrough,
    /// Stops now and then: after every `stop_interval` ms of walking it stands still
    /// for `stop_duration` ms.
    MyPace { stop_interval: u32, stop_duration: u32 },
}

/// Parameters of one monster kind.
#[derive(Debug, Clone, Copy, PartialEq, Eq, Structural)]
pub struct MonsterDefinition {
    pub kind: MonsterKind,
    /// Walking speed, in milli-pixels per second.
    pub speed: u32,
    /// Side of the collision box, in thousandths of a grid cell.
    pub size: u32,
    pub color: Color,
    /// How long the monster may stand blocked before it vanishes, in ms.
    pub wait_threshold: u32,
    pub special_behavior: SpecialBehavior,
}

/// The table that a sequence of definitions describes: a later definition of a kind
/// replaces an earlier one.
pub open spec fn definitions_map(s: Seq<MonsterDefinition>) -> Map<MonsterKind, MonsterDefinition>
    decreases s.len(),
{
    if s.len() == 0 {
        Map::empty()
    } else {
        definitions_map(s.drop_last()).insert(s.last().kind, s.last())
    }
}

/// A definition of `kind` stands in `s` at `i` and at no later index.
pub open spec fn last_definition_at(s: Seq<MonsterDefinition>, kind: MonsterKind, i: int) -> bool {
    0 <= i < s.len() && s[i].kind == kind && forall|j: int| i < j < s.len() ==> s[j].kind != kind
}

proof fn lemma_map_ignores_tail(s: Seq<MonsterDefinition>, kind: MonsterKind, i: int)
    requires
        0 <= i <= s.len(),
        forall|j: int| i <= j < s.len() ==> s[j].kind != kind,
    ensures
        definitions_map(s).contains_key(kind) == definitions_map(s.subrange(0, i)).contains_key(kind),
        definitions_map(s).contains_key(kind) ==> definitions_map(s)[kind] == definitions_map(
            s.subrange(0, i),
        )[kind],
    decreases s.len() - i,
{
    if i < s.len() {
        assert(s.drop_last() =~= s.subrange(0, s.len() - 1));
        lemma_map_ignores_tail(s.drop_last(), kind, i);
        assert(s.drop_last().subrange(0, i) =~= s.subrange(0, i));
    } else {
        assert(s.subrange(0, i) =~= s);
    }
}

proof fn lemma_map_at_last(s: Seq<MonsterDefinition>, kind: MonsterKind, i: int)
    requires
        last_definition_at(s, kind, i),
    ensures
        definitions_map(s).contains_key(kind),
        definitions_map(s)[kind] == s[i],
{
    lemma_map_ignores_tail(s, kind, i + 1);
    let p = s.subrange(0, i + 1);
    assert(p.drop_last() =~= s.subrange(0, i));
}

proof fn lemma_map_absent(s: Seq<MonsterDefinition>, kind: MonsterKind)
    requires
        forall|j: int| 0 <= j < s.len() ==> s[j].kind != kind,
    ensures
        !definitions_map(s).contains_key(kind),
{
    lemma_map_ignores_tail(s, kind, 0);
    assert(s.subrange(0, 0) =~= Seq::<MonsterDefinition>::empty());
}

/// The table of monster definitions, one per kind.
pub struct MonsterDefinitions {
    definitions: Vec<MonsterDefinition>,
}

impl View for MonsterDefinitions {
    type V = Map<MonsterKind, MonsterDefinition>;

    closed spec fn view(&self) -> Map<MonsterKind, MonsterDefinition> {
        definitions_map(self.definitions@)
    }
}

impl MonsterDefinitions {
    /// An empty table.
    pub fn new() -> (r: Self)
        ensures
            r@ == Map::<MonsterKind, MonsterDefinition>::empty(),
    {
        MonsterDefinitions { definitions: Vec::new() }
    }

    /// The table that `definitions` describe; a later definition of a kind wins.
    pub fn from_definitions(definitions: &Vec<MonsterDefinition>) -> (r: Self)
        ensures
            r@ == definitions_map(definitions@),
    {
        let mut table = MonsterDefinitions { definitions: Vec::new() };
        assert(table.definitions@ =~= definitions@.subrange(0, 0));
        let mut i: usize = 0;
        while i < definitions.len()
            invariant
                i <= definitions.len(),
                table.definitions@ == definitions@.subrange(0, i as int),
            decreases definitions.len() - i,
        {
            table.definitions.push(definitions[i]);
            assert(table.definitions@ =~= definitions@.subrange(0, i + 1));
            i += 1;
        }
        assert(definitions@.subrange(0, i as int) =~= definitions@);
        table
    }

    /// Whether `kind` has a definition.
    pub fn contains(&self, kind: MonsterKind) -> (r: bool)
        ensures
            r == self@.contains_key(kind),
    {
        self.position_of(kind).is_some()
    }

    fn position_of(&self, kind: MonsterKind) -> (r: Option<usize>)
        ensures
            r.is_some() ==> last_definition_at(self.definitions@, kind, r.unwrap() as int),
            r.is_some() ==> self@.contains_key(kind) && self@[kind] == self.definitions@[r.unwrap() as int],
            r.is_none() ==> !self@.contains_key(kind),
    {
        let n = self.definitions.len();
        let mut i: usize = n;
        while i > 0
            invariant
                i <= n == self.definitions.len(),
                forall|j: int| i <= j < n ==> self.definitions@[j].kind != kind,
            decreases i,
        {
            if self.definitions[i - 1].kind == kind {
                proof {
                    lemma_map_at_last(self.definitions@, kind, i - 1);
                }
                return Some(i - 1);
            }
            i -= 1;
        }
        proof {
            lemma_map_absent(self.definitions@, kind);
        }
        None
    }

    /// The definition of `kind`, which must be in the table.
    pub fn get(&self, kind: MonsterKind) -> (r: &MonsterDefinition)
        requires
            self@.contains_key(kind),
        ensures
            *r == self@[kind],
    {
        let i = self.position_of(kind).unwrap();
        &self.definitions[i]
    }

    /// Adds `def`, replacing any definition of the same kind.
    pub fn insert(&mut self, def: MonsterDefinition)
        ensures
            final(self)@ == old(self)@.insert(def.kind, def),
    {
        self.definitions.push(def);
        proof {
            assert(self.definitions@.drop_last() =~= old(self).definitions@);
        }
    }
}

/// The definitions as they are read from a definitions file.
pub struct MonsterDefinitionsAsset {
    pub definitions: Vec<MonsterDefinition>,
}

impl MonsterDefinitionsAsset {
    /// The lookup table of these definitions; a later definition of a kind wins.
    pub fn to_hashmap(&self) -> (r: MonsterDefinitions)
        ensures
            r@ == definitions_map(self.definitions@),
    {
        MonsterDefinitions::from_definitions(&self.definitions)
    }
}

} // verus!
