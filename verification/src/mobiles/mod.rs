//! Mobiles: things which can move around the world. Citizens, animals,
//! visitors, and monsters all fall into this class.

pub mod ai;
pub mod gen;

use crate::constants::{HEIGHT, WIDTH};
use crate::dijkstra_map::MapTag;
use crate::grid::Point;
use crate::mobiles::ai::Task;
use crate::mobiles::gen::{Childhood, TrainingPackage};
use std::collections::BTreeMap;
use vstd::prelude::*;

verus! {

/// Things a mob cares about, and the relative weightings it assigns to
/// each, in thousandths: a weight of `1000` stands for 1.0. A tag without a
/// weight is a thing that the mob does not care about at all.
#[derive(Clone, Copy, Debug, PartialEq, Eq, Structural)]
pub struct Desires {
    /// The weight of adventure.
    pub adventure: Option<i32>,
    /// The weight of the general store.
    pub general_store: Option<i32>,
    /// The weight of rest.
    pub rest: Option<i32>,
    /// The weight of sustenance.
    pub sustenance: Option<i32>,
}

impl Desires {
    /// The weight assigned to a tag, if any.
    pub open spec fn weight_of(self, tag: MapTag) -> Option<i32> {
        match tag {
            MapTag::Adventure => self.adventure,
            MapTag::GeneralStore => self.general_store,
            MapTag::Rest => self.rest,
            MapTag::Sustenance => self.sustenance,
        }
    }

    /// These desires with the weight of one tag replaced.
    pub open spec fn with_weight(self, tag: MapTag, weight: i32) -> Desires {
        match tag {
            MapTag::Adventure => Desires { adventure: Some(weight), ..self },
            MapTag::GeneralStore => Desires { general_store: Some(weight), ..self },
            MapTag::Rest => Desires { rest: Some(weight), ..self },
            MapTag::Sustenance => Desires { sustenance: Some(weight), ..self },
        }
    }

    /// No desires at all.
    pub fn new() -> (d: Desires)
        ensures
            d == (Desires { adventure: None, general_store: None, rest: None, sustenance: None }),
    {
        Desires { adventure: None, general_store: None, rest: None, sustenance: None }
    }

    /// The weight assigned to a tag, if any.
    pub fn get(&self, tag: MapTag) -> (w: Option<i32>)
        ensures
            w == self.weight_of(tag),
    {
        match tag {
            MapTag::Adventure => self.adventure,
            MapTag::GeneralStore => self.general_store,
            MapTag::Rest => self.rest,
            MapTag::Sustenance => self.sustenance,
        }
    }

    /// Assign a weight to a tag, and return the weight it had.
    pub fn insert(&mut self, tag: MapTag, weight: i32) -> (before: Option<i32>)
        ensures
            before == old(self).weight_of(tag),
            *final(self) == old(self).with_weight(tag, weight),
    {
        let before = self.get(tag);
        match tag {
            MapTag::Adventure => {
                self.adventure = Some(weight);
            },
            MapTag::GeneralStore => {
                self.general_store = Some(weight);
            },
            MapTag::Rest => {
                self.rest = Some(weight);
            },
            MapTag::Sustenance => {
                self.sustenance = Some(weight);
            },
        }
        before
    }
}

/// Things which roam around in the world, like people and monsters.
///
/// Mobs have an age, desires, personality traits, and attributes.
///
/// - The age and onset age affect character generation, but not how the
///   character then behaves once generated.
///
/// - Desires are what the mob wants to do *right now*. The relative weight
///   of the desires determines in part what it will do next.
///
/// - Personality traits effect what the mob does. These can change over
///   time after significant personal events.
///
/// - Attributes affect the ability at tasks. These are in four classes:
///     - Physical: these are mostly important for adventurers going into
///       the dungeon.
///     - Mental: these are important for all mobs, and are derived from the
///       sort of things a non-adventurer might get up to.
///     - Competences: competence at using specific types of equipment. Only
///       used by adventurers currently.
///     - Profession: general competence in a specific job. They modify the
///       relevant attributes when performing a task as a part of the mob's
///       job.
#[derive(Clone, Copy, Debug, PartialEq, Eq, Structural)]
pub struct Mobile {
    // Biography
    /// How old the mob is.
    pub age: usize,
    /// Age at which the mob became an adventurer, if they are one.
    pub onset_age: Option<usize>,

    // Desires
    /// A task being actively worked towards.
    pub priority_task: Option<Task>,
    /// Things this mob cares about, and the relative weightings it assigns
    /// to each.
    pub desires: Desires,
    /// The location of the mob's home. This is where it returns when there
    /// is nothing else to do.
    pub home_pos: Point,

    // Personality traits
    /// Increases the value the mob ascribes to items it is trying to sell.
    pub is_avaricious: bool,
    /// Leads to greater risk-taking when fleeing something.
    pub is_brave: bool,
    /// Increases the value the mob ascribes to items it is trying to buy.
    pub is_envious: bool,
    /// Increases the minimum food desire weighting.
    pub is_gluttonous: bool,
    /// Increases the minimum rest desire weighting.
    pub is_slothful: bool,

    // Attributes
    /// Ability to dodge attacks and avoid traps.
    pub agility: usize,
    /// Ability to recover from poison and disease.
    pub constitution: usize,
    /// Ability to do more work without needing rest.
    pub endurance: usize,
    /// Ability to recover while resting.
    pub recuperation: usize,
    /// Ability to wield weapons and armour.
    pub strength: usize,
    /// Ability to absorb damage.
    pub toughness: usize,
    /// Productivity and longevity of animals under the mob's care.
    pub animal: usize,
    /// Ability to strike a favourable deal.
    pub bargain: usize,
    /// Ability to leave favourable impressions and make friends.
    pub charm: usize,
    /// Ability to heal wounds.
    pub chirurgy: usize,
    /// Ability to repair items.
    pub craft: usize,
    /// Ability understand others feelings.
    pub empathy: usize,
    /// Ability to find useful items in the wilderness.
    pub forage: usize,
    /// Ability to deceive others.
    pub guile: usize,
    /// Ability to identify healing ingredients and treat disease/poison.
    pub heal: usize,
    /// Ability to track and trap animals.
    pub hunt: usize,
    /// Ability to predict events.
    pub intuition: usize,
    /// Ability to accurately identify and value dungeon spoils.
    pub lore: usize,
    /// Bonus when using bows.
    pub competence_bow: usize,
    /// Bonus when using great weapons.
    pub competence_great: usize,
    /// Bonus when using shields.
    pub competence_shield: usize,
    /// Competence when using single weapons.
    pub competence_single: usize,
    /// Bonus when spears.
    pub competence_spear: usize,
    /// Bonus when using staves
    pub competence_staff: usize,
    /// Bonus when using swords.
    pub competence_sword: usize,
    /// Bonus when using warhammers.
    pub competence_warhammer: usize,
    /// Bonus when acting as a professional adventurer.
    pub profession_adventurer: usize,
    /// Bonus when acting as a professional animal handler.
    pub profession_animalhandler: usize,
    /// Bonus when acting as a professional apothecarist.
    pub profession_apothecarist: usize,
    /// Bonus when acting as a professional appraiser.
    pub profession_appraiser: usize,
    /// Bonus when acting as a professional cutter.
    pub profession_cutter: usize,
    /// Bonus when acting as a professional farmer.
    pub profession_farmer: usize,
    /// Bonus when acting as a professional innkeeper.
    pub profession_innkeeper: usize,
    /// Bonus when acting as a professional laborer.
    pub profession_laborer: usize,
    /// Bonus when acting as a professional tinker.
    pub profession_tinker: usize,
    /// Bonus when acting as a professional trader.
    pub profession_trader: usize,
    /// Bonus when acting as a professional woodsman.
    pub profession_woodsman: usize,
}

/// Life events.
#[derive(Clone, Copy, Debug, PartialEq, Eq, PartialOrd, Ord, Structural)]
pub enum LifeEvent {
    /// The mob was born.
    Born,
    /// The mob was raised with a childhood.
    Raised {
        /// The childhood.
        childhood: Childhood,
    },
    /// The mob gained experience from a training package.
    Learned {
        /// The package.
        package: TrainingPackage,
    },
    /// The mob became an adventurer.
    Onset,
}

impl Mobile {
    /// A blank slate: a newborn with no desires, no traits and nothing
    /// learned, at home at the given place.
    pub fn blank(home_pos: Point) -> (mob: Mobile)
        ensures
            mob.age == 0,
            mob.onset_age is None,
            mob.priority_task is None,
            mob.desires == (Desires {
                adventure: None,
                general_store: None,
                rest: None,
                sustenance: None,
            }),
            mob.home_pos == home_pos,
            !mob.is_avaricious && !mob.is_brave && !mob.is_envious && !mob.is_gluttonous
                && !mob.is_slothful,
            mob.attributes_below(0),
    {
        Mobile {
            age: 0,
            onset_age: None,
            priority_task: None,
            desires: Desires::new(),
            home_pos: home_pos,
            is_avaricious: false,
            is_brave: false,
            is_envious: false,
            is_gluttonous: false,
            is_slothful: false,
            agility: 0,
            constitution: 0,
            endurance: 0,
            recuperation: 0,
            strength: 0,
            toughness: 0,
            animal: 0,
            bargain: 0,
            charm: 0,
            chirurgy: 0,
            craft: 0,
            empathy: 0,
            forage: 0,
            guile: 0,
            heal: 0,
            hunt: 0,
            intuition: 0,
            lore: 0,
            competence_bow: 0,
            competence_great: 0,
            competence_shield: 0,
            competence_single: 0,
            competence_spear: 0,
            competence_staff: 0,
            competence_sword: 0,
            competence_warhammer: 0,
            profession_adventurer: 0,
            profession_animalhandler: 0,
            profession_apothecarist: 0,
            profession_appraiser: 0,
            profession_cutter: 0,
            profession_farmer: 0,
            profession_innkeeper: 0,
            profession_laborer: 0,
            profession_tinker: 0,
            profession_trader: 0,
            profession_woodsman: 0,
        }
    }

    /// Whether the places that the mob knows of lie on the map: its home,
    /// and the target of its task if it has one.
    pub open spec fn wf(&self) -> bool {
        &&& self.home_pos.in_bounds()
        &&& match self.priority_task {
            Some(Task::MoveTo(target)) => target.in_bounds(),
            None => true,
        }
    }
}

/// The mobiles of the world, each at its position: no two at one position.
pub struct Mobs {
    by_cell: BTreeMap<usize, Mobile>,
}

/// The key under which the mobile at a point is kept: points are ordered
/// by their columns first.
pub open spec fn cell_key(p: Point) -> usize {
    (p.x * HEIGHT + p.y) as usize
}

impl Mobs {
    /// The mobiles by their positions.
    pub closed spec fn view(&self) -> Map<Point, Mobile> {
        Map::new(
            |p: Point| p.in_bounds() && self.by_cell@.contains_key(cell_key(p)),
            |p: Point| self.by_cell@[cell_key(p)],
        )
    }

    /// Only points of the map hold a mobile.
    pub proof fn lemma_on_the_map(&self, p: Point)
        requires
            self@.contains_key(p),
        ensures
            p.in_bounds(),
    {
    }

    /// No mobiles at all.
    pub fn new() -> (mobs: Mobs)
        ensures
            mobs@ == Map::<Point, Mobile>::empty(),
    {
        let mobs = Mobs { by_cell: BTreeMap::new() };
        assert(mobs@ =~= Map::<Point, Mobile>::empty());
        mobs
    }

    /// Whether a mobile stands at a position.
    pub fn contains(&self, pos: Point) -> (r: bool)
        requires
            pos.in_bounds(),
        ensures
            r == self@.contains_key(pos),
    {
        let key: usize = pos.x * HEIGHT + pos.y;
        broadcast use vstd::std_specs::btree::group_btree_axioms;
        self.by_cell.contains_key(&key)
    }

    /// The mobile that stands at a position, if any.
    pub fn get(&self, pos: Point) -> (r: Option<Mobile>)
        requires
            pos.in_bounds(),
        ensures
            r == (if self@.contains_key(pos) {
                Some(self@[pos])
            } else {
                None
            }),
    {
        let key: usize = pos.x * HEIGHT + pos.y;
        broadcast use vstd::std_specs::btree::group_btree_axioms;
        match self.by_cell.get(&key) {
            Some(mob) => Some(*mob),
            None => None,
        }
    }

    /// Put a mobile at a position, and return the mobile that stood there.
    pub fn insert(&mut self, pos: Point, mob: Mobile) -> (before: Option<Mobile>)
        requires
            pos.in_bounds(),
        ensures
            final(self)@ == old(self)@.insert(pos, mob),
            before == (if old(self)@.contains_key(pos) {
                Some(old(self)@[pos])
            } else {
                None
            }),
    {
        let key: usize = pos.x * HEIGHT + pos.y;
        broadcast use vstd::std_specs::btree::group_btree_axioms;
        let before = self.by_cell.insert(key, mob);
        proof {
            assert forall|p: Point| p.in_bounds() && p != pos implies cell_key(p) != key by {
                lemma_cell_key_injective(p, pos);
            }
            assert(self@ =~= old(self)@.insert(pos, mob));
        }
        before
    }

    /// Take the mobile off a position, and return it.
    pub fn remove(&mut self, pos: Point) -> (before: Option<Mobile>)
        requires
            pos.in_bounds(),
        ensures
            final(self)@ == old(self)@.remove(pos),
            before == (if old(self)@.contains_key(pos) {
                Some(old(self)@[pos])
            } else {
                None
            }),
    {
        let key: usize = pos.x * HEIGHT + pos.y;
        broadcast use vstd::std_specs::btree::group_btree_axioms;
        let before = self.by_cell.remove(&key);
        proof {
            assert forall|p: Point| p.in_bounds() && p != pos implies cell_key(p) != key by {
                lemma_cell_key_injective(p, pos);
            }
            assert(self@ =~= old(self)@.remove(pos));
        }
        before
    }

    /// The positions at which a mobile stands, column by column.
    pub fn positions(&self) -> (ps: Vec<Point>)
        ensures
            forall|p: Point| ps@.contains(p) <==> self@.contains_key(p),
            forall|i: int, j: int|
                0 <= i < j < ps@.len() ==> cell_key(#[trigger] ps@[i]) < cell_key(#[trigger] ps@[j]),
    {
        let mut ps: Vec<Point> = Vec::new();
        let mut x: usize = 0;
        while x < WIDTH
            invariant
                x <= WIDTH,
                forall|p: Point| ps@.contains(p) <==> self@.contains_key(p) && p.x < x,
                forall|i: int| 0 <= i < ps@.len() ==> (#[trigger] ps@[i]).in_bounds(),
                forall|i: int, j: int|
                    0 <= i < j < ps@.len() ==> cell_key(#[trigger] ps@[i]) < cell_key(
                        #[trigger] ps@[j],
                    ),
            decreases WIDTH - x,
        {
            let mut y: usize = 0;
            while y < HEIGHT
                invariant
                    x < WIDTH,
                    y <= HEIGHT,
                    forall|p: Point|
                        ps@.contains(p) <==> self@.contains_key(p) && (p.x < x || (p.x == x && p.y
                            < y)),
                    forall|i: int| 0 <= i < ps@.len() ==> (#[trigger] ps@[i]).in_bounds(),
                    forall|i: int, j: int|
                        0 <= i < j < ps@.len() ==> cell_key(#[trigger] ps@[i]) < cell_key(
                            #[trigger] ps@[j],
                        ),
                decreases HEIGHT - y,
            {
                let p = Point { x: x, y: y };
                if self.contains(p) {
                    let ghost before = ps@;
                    ps.push(p);
                    proof {
                        assert(ps@[before.len() as int] == p);
                        assert forall|q: Point| ps@.contains(q) <==> self@.contains_key(q) && (q.x
                            < x || (q.x == x && q.y < y + 1)) by {
                            if ps@.contains(q) {
                                let i = choose|i: int| 0 <= i < ps@.len() && ps@[i] == q;
                                if i < before.len() {
                                    assert(before[i] == q);
                                    assert(before.contains(q));
                                }
                            }
                            if before.contains(q) {
                                let i = choose|i: int| 0 <= i < before.len() && before[i] == q;
                                assert(ps@[i] == q);
                            }
                        }
                        assert forall|i: int, j: int| 0 <= i < j < ps@.len() implies cell_key(
                            #[trigger] ps@[i],
                        ) < cell_key(#[trigger] ps@[j]) by {
                            if j == before.len() {
                                assert(before[i] == ps@[i]);
                                assert(before.contains(ps@[i]));
                                lemma_cell_key_order(ps@[i], p);
                            } else {
                                assert(before[i] == ps@[i] && before[j] == ps@[j]);
                            }
                        }
                    }
                }
                y = y + 1;
            }
            x = x + 1;
        }
        proof {
            assert forall|p: Point| ps@.contains(p) <==> self@.contains_key(p) by {
                if self@.contains_key(p) {
                    self.lemma_on_the_map(p);
                }
            }
        }
        ps
    }
}

/// Distinct points of the map have distinct keys.
pub proof fn lemma_cell_key_injective(p: Point, q: Point)
    requires
        p.in_bounds(),
        q.in_bounds(),
        p != q,
    ensures
        cell_key(p) != cell_key(q),
{
}

/// The keys order the points of the map by column, then by row.
pub proof fn lemma_cell_key_order(p: Point, q: Point)
    requires
        p.in_bounds(),
        q.in_bounds(),
        p.x < q.x || (p.x == q.x && p.y < q.y),
    ensures
        cell_key(p) < cell_key(q),
{
}

} // verus!
