//! Training: what a mob learns in its childhood and from the training
//! packages that make up its life so far.
//!
//! Life simulation is done by applying "training packages": each gives
//! the result of some years in some role, such as a scout, or a farmer.
//! Packages have relations and pre-requisites, which helps to ensure that
//! someone's life is a bit more realistic.

use crate::grid::Point;
use crate::mobiles::{LifeEvent, Mobile};
use rand::Rng;
use vstd::prelude::*;

verus! {

/// The minimum age, and the length of the early childhood training packages.
pub const MIN_AGE: usize = 5;

/// The age at which a child becomes an adult.
pub const ADULT_AGE: usize = 13;

/// The minimum age of an adventurer.
pub const MIN_ONSET: usize = 20;

/// The most that one training package adds to one attribute.
pub const MAX_GAIN: usize = 30;

/// Types of childhoods.
#[derive(Clone, Copy, Debug, PartialEq, Eq, PartialOrd, Ord, Structural)]
pub enum Childhood {
    /// Running, jumping, climbing.
    Athletic,
    /// Pranks and tall tales.
    Mischievous,
    /// Fields and woods.
    Outdoor,
}

/// A training package. These fall into five types:
///
/// 1. Adventurer (1 and 3 year): only available to adventurers.
///
/// 2. Profession (3 year): only the animal handler, apothecarist, appraiser,
///    tinker, trader, and woodsman are available to post-onset adventurers.
///
/// 3. Personality (1 year): only available to those adults with the
///    appropriate personality trait.
///
/// 4. Miscellaneous Adult (1 year): available to all adults.
///
/// 5. Youth (1 and 2 year): more generic of the profession packages,
///    available to all younger than adults.
#[derive(Clone, Copy, Debug, PartialEq, Eq, PartialOrd, Ord, Structural)]
pub enum TrainingPackage {
    /// A package of the kind "adventurer".
    Adventurer,
    /// A package of the kind "adventurer".
    Mercernary,
    /// A package of the kind "adventurer".
    BowCompetency,
    /// A package of the kind "adventurer".
    GreatCompetency,
    /// A package of the kind "adventurer".
    ShieldCompetency,
    /// A package of the kind "adventurer".
    SingleCompetency,
    /// A package of the kind "adventurer".
    SpearCompetency,
    /// A package of the kind "adventurer".
    StaffCompetency,
    /// A package of the kind "adventurer".
    SwordCompetency,
    /// A package of the kind "adventurer".
    WarhammerCompetency,
    /// A package of the kind "profession".
    AnimalHandler,
    /// A package of the kind "profession".
    Apothecarist,
    /// A package of the kind "profession".
    Appraiser,
    /// A package of the kind "profession".
    Cutter,
    /// A package of the kind "profession".
    Farmer,
    /// A package of the kind "profession".
    Innkeeper,
    /// A package of the kind "profession".
    Laborer,
    /// A package of the kind "profession".
    Tinker,
    /// A package of the kind "profession".
    Trader,
    /// A package of the kind "profession".
    Woodsman,
    /// A package of the kind "personality".
    Negotiation,
    /// A package of the kind "miscellaneous adult".
    Athlete,
    /// A package of the kind "miscellaneous adult".
    Brawler,
    /// A package of the kind "miscellaneous adult".
    Charmer,
    /// A package of the kind "miscellaneous adult".
    Conman,
    /// A package of the kind "miscellaneous adult".
    Footpad,
    /// A package of the kind "miscellaneous adult".
    Forager,
    /// A package of the kind "youth".
    Assistant,
    /// A package of the kind "youth".
    Farmhand,
    /// A package of the kind "youth".
    Gatherer,
    /// A package of the kind "youth".
    RecklessAbandon,
}

impl TrainingPackage {
    /// The number of years a package takes.
    pub open spec fn duration(self) -> usize {
        match self {
            TrainingPackage::BowCompetency
            | TrainingPackage::GreatCompetency
            | TrainingPackage::ShieldCompetency
            | TrainingPackage::SingleCompetency
            | TrainingPackage::SpearCompetency
            | TrainingPackage::StaffCompetency
            | TrainingPackage::SwordCompetency
            | TrainingPackage::WarhammerCompetency
            | TrainingPackage::Negotiation
            | TrainingPackage::Athlete
            | TrainingPackage::Brawler
            | TrainingPackage::Charmer
            | TrainingPackage::Conman
            | TrainingPackage::Footpad
            | TrainingPackage::Forager
            | TrainingPackage::RecklessAbandon => 1,
            TrainingPackage::Assistant
            | TrainingPackage::Farmhand
            | TrainingPackage::Gatherer => 2,
            TrainingPackage::Adventurer
            | TrainingPackage::Mercernary
            | TrainingPackage::AnimalHandler
            | TrainingPackage::Apothecarist
            | TrainingPackage::Appraiser
            | TrainingPackage::Cutter
            | TrainingPackage::Farmer
            | TrainingPackage::Innkeeper
            | TrainingPackage::Laborer
            | TrainingPackage::Tinker
            | TrainingPackage::Trader
            | TrainingPackage::Woodsman => 3,
        }
    }

    /// The number of years a package takes.
    pub fn years(&self) -> (y: usize)
        ensures
            y == self.duration(),
            1 <= y <= 3,
    {
        match *self {
            TrainingPackage::Adventurer
            | TrainingPackage::Mercernary
            | TrainingPackage::AnimalHandler
            | TrainingPackage::Apothecarist
            | TrainingPackage::Appraiser
            | TrainingPackage::Cutter
            | TrainingPackage::Farmer
            | TrainingPackage::Innkeeper
            | TrainingPackage::Laborer
            | TrainingPackage::Tinker
            | TrainingPackage::Trader
            | TrainingPackage::Woodsman => 3,
            TrainingPackage::BowCompetency
            | TrainingPackage::GreatCompetency
            | TrainingPackage::ShieldCompetency
            | TrainingPackage::SingleCompetency
            | TrainingPackage::SpearCompetency
            | TrainingPackage::StaffCompetency
            | TrainingPackage::SwordCompetency
            | TrainingPackage::WarhammerCompetency
            | TrainingPackage::Negotiation
            | TrainingPackage::Athlete
            | TrainingPackage::Brawler
            | TrainingPackage::Charmer
            | TrainingPackage::Conman
            | TrainingPackage::Footpad
            | TrainingPackage::Forager
            | TrainingPackage::RecklessAbandon => 1,
            TrainingPackage::Assistant
            | TrainingPackage::Farmhand
            | TrainingPackage::Gatherer => 2,
        }
    }

    /// Whether two packages are somewhat related: they are the same, or
    /// one of them is kin of the other.
    pub open spec fn akin(self, other: TrainingPackage) -> bool {
        self == other || kin(self, other) || kin(other, self)
    }

    /// Whether the given package is somewhat related to this one. This is
    /// a reflexive and symmetric relation, but not necessarily transitive.
    pub fn related(&self, other: &TrainingPackage) -> (r: bool)
        ensures
            r == self.akin(*other),
    {
        same_package(self, other) || related_non_refsym(self, other) || related_non_refsym(
            other,
            self,
        )
    }

    /// Whether a mob can take the package: only the personality packages
    /// ask for a trait.
    pub open spec fn suits(self, mob: Mobile) -> bool {
        match self {
            TrainingPackage::Negotiation => mob.is_avaricious || mob.is_envious,
            _ => true,
        }
    }

    /// Whether the given mob is capable of using this training package.
    pub fn applicable(&self, mob: &Mobile) -> (r: bool)
        ensures
            r == self.suits(*mob),
    {
        // Only the personality training packages are conditional. The life
        // stage conditions are imposed by the different sets of package.
        match *self {
            TrainingPackage::Negotiation => mob.is_avaricious || mob.is_envious,
            _ => true,
        }
    }
}

/// Whether two packages are the same.
fn same_package(a: &TrainingPackage, b: &TrainingPackage) -> (r: bool)
    ensures
        r == (*a == *b),
{
    *a == *b
}

/// Whether `b` is kin of `a`: the two packages are conceptually related,
/// and `a` is the one under which the pair is listed.
pub open spec fn kin(a: TrainingPackage, b: TrainingPackage) -> bool {
    match (a, b) {
        (TrainingPackage::Adventurer, TrainingPackage::Apothecarist) => true,
        (TrainingPackage::Adventurer, TrainingPackage::Appraiser) => true,
        (TrainingPackage::Adventurer, TrainingPackage::ShieldCompetency) => true,
        (TrainingPackage::Adventurer, TrainingPackage::SingleCompetency) => true,
        (TrainingPackage::Adventurer, TrainingPackage::SwordCompetency) => true,
        (TrainingPackage::Mercernary, TrainingPackage::Apothecarist) => true,
        (TrainingPackage::Mercernary, TrainingPackage::BowCompetency) => true,
        (TrainingPackage::Mercernary, TrainingPackage::GreatCompetency) => true,
        (TrainingPackage::Mercernary, TrainingPackage::SpearCompetency) => true,
        (TrainingPackage::Mercernary, TrainingPackage::Woodsman) => true,
        (TrainingPackage::GreatCompetency, TrainingPackage::SpearCompetency) => true,
        (TrainingPackage::GreatCompetency, TrainingPackage::SwordCompetency) => true,
        (TrainingPackage::GreatCompetency, TrainingPackage::WarhammerCompetency) => true,
        (TrainingPackage::SingleCompetency, TrainingPackage::SwordCompetency) => true,
        (TrainingPackage::SingleCompetency, TrainingPackage::StaffCompetency) => true,
        (TrainingPackage::AnimalHandler, TrainingPackage::Farmer) => true,
        (TrainingPackage::AnimalHandler, TrainingPackage::Farmhand) => true,
        (TrainingPackage::Apothecarist, TrainingPackage::Cutter) => true,
        (TrainingPackage::Appraiser, TrainingPackage::Assistant) => true,
        (TrainingPackage::Appraiser, TrainingPackage::Tinker) => true,
        (TrainingPackage::Appraiser, TrainingPackage::Trader) => true,
        (TrainingPackage::Farmer, TrainingPackage::Farmhand) => true,
        (TrainingPackage::Innkeeper, TrainingPackage::Assistant) => true,
        (TrainingPackage::Tinker, TrainingPackage::Assistant) => true,
        (TrainingPackage::Tinker, TrainingPackage::Trader) => true,
        (TrainingPackage::Trader, TrainingPackage::Assistant) => true,
        (TrainingPackage::Trader, TrainingPackage::Charmer) => true,
        (TrainingPackage::Trader, TrainingPackage::Conman) => true,
        (TrainingPackage::Woodsman, TrainingPackage::Forager) => true,
        (TrainingPackage::Woodsman, TrainingPackage::Gatherer) => true,
        (TrainingPackage::Athlete, TrainingPackage::Brawler) => true,
        (TrainingPackage::Charmer, TrainingPackage::Conman) => true,
        (TrainingPackage::Conman, TrainingPackage::Footpad) => true,
        (TrainingPackage::Forager, TrainingPackage::Gatherer) => true,
        (_, _) => false,
    }
}

/// Non-reflexive&symmetric "related" predicate on training packages.
pub fn related_non_refsym(a: &TrainingPackage, b: &TrainingPackage) -> (r: bool)
    ensures
        r == kin(*a, *b),
{
    // `aRb` iff the two packages are conceptually related, and `a` precedes
    // `b` in a left-hand component in this list. This keeps the list of
    // cases about half the size it would otherwise be.
    match (*a, *b) {
        (TrainingPackage::Adventurer, TrainingPackage::Apothecarist) => true,
        (TrainingPackage::Adventurer, TrainingPackage::Appraiser) => true,
        (TrainingPackage::Adventurer, TrainingPackage::ShieldCompetency) => true,
        (TrainingPackage::Adventurer, TrainingPackage::SingleCompetency) => true,
        (TrainingPackage::Adventurer, TrainingPackage::SwordCompetency) => true,
        (TrainingPackage::Mercernary, TrainingPackage::Apothecarist) => true,
        (TrainingPackage::Mercernary, TrainingPackage::BowCompetency) => true,
        (TrainingPackage::Mercernary, TrainingPackage::GreatCompetency) => true,
        (TrainingPackage::Mercernary, TrainingPackage::SpearCompetency) => true,
        (TrainingPackage::Mercernary, TrainingPackage::Woodsman) => true,
        (TrainingPackage::GreatCompetency, TrainingPackage::SpearCompetency) => true,
        (TrainingPackage::GreatCompetency, TrainingPackage::SwordCompetency) => true,
        (TrainingPackage::GreatCompetency, TrainingPackage::WarhammerCompetency) => true,
        (TrainingPackage::SingleCompetency, TrainingPackage::SwordCompetency) => true,
        (TrainingPackage::SingleCompetency, TrainingPackage::StaffCompetency) => true,
        (TrainingPackage::AnimalHandler, TrainingPackage::Farmer) => true,
        (TrainingPackage::AnimalHandler, TrainingPackage::Farmhand) => true,
        (TrainingPackage::Apothecarist, TrainingPackage::Cutter) => true,
        (TrainingPackage::Appraiser, TrainingPackage::Assistant) => true,
        (TrainingPackage::Appraiser, TrainingPackage::Tinker) => true,
        (TrainingPackage::Appraiser, TrainingPackage::Trader) => true,
        (TrainingPackage::Farmer, TrainingPackage::Farmhand) => true,
        (TrainingPackage::Innkeeper, TrainingPackage::Assistant) => true,
        (TrainingPackage::Tinker, TrainingPackage::Assistant) => true,
        (TrainingPackage::Tinker, TrainingPackage::Trader) => true,
        (TrainingPackage::Trader, TrainingPackage::Assistant) => true,
        (TrainingPackage::Trader, TrainingPackage::Charmer) => true,
        (TrainingPackage::Trader, TrainingPackage::Conman) => true,
        (TrainingPackage::Woodsman, TrainingPackage::Forager) => true,
        (TrainingPackage::Woodsman, TrainingPackage::Gatherer) => true,
        (TrainingPackage::Athlete, TrainingPackage::Brawler) => true,
        (TrainingPackage::Charmer, TrainingPackage::Conman) => true,
        (TrainingPackage::Conman, TrainingPackage::Footpad) => true,
        (TrainingPackage::Forager, TrainingPackage::Gatherer) => true,
        (_, _) => false,
    }
}

/// "Related" is reflexive and symmetric.
pub proof fn lemma_related_reflexive_symmetric(a: TrainingPackage, b: TrainingPackage)
    ensures
        a.akin(a),
        a.akin(b) == b.akin(a),
{
}

impl Mobile {
    /// Whether no attribute of the mob is above a bound.
    pub open spec fn attributes_below(self, bound: int) -> bool {
        &&& self.agility <= bound
        &&& self.constitution <= bound
        &&& self.endurance <= bound
        &&& self.recuperation <= bound
        &&& self.strength <= bound
        &&& self.toughness <= bound
        &&& self.animal <= bound
        &&& self.bargain <= bound
        &&& self.charm <= bound
        &&& self.chirurgy <= bound
        &&& self.craft <= bound
        &&& self.empathy <= bound
        &&& self.forage <= bound
        &&& self.guile <= bound
        &&& self.heal <= bound
        &&& self.hunt <= bound
        &&& self.intuition <= bound
        &&& self.lore <= bound
        &&& self.competence_bow <= bound
        &&& self.competence_great <= bound
        &&& self.competence_shield <= bound
        &&& self.competence_single <= bound
        &&& self.competence_spear <= bound
        &&& self.competence_staff <= bound
        &&& self.competence_sword <= bound
        &&& self.competence_warhammer <= bound
        &&& self.profession_adventurer <= bound
        &&& self.profession_animalhandler <= bound
        &&& self.profession_apothecarist <= bound
        &&& self.profession_appraiser <= bound
        &&& self.profession_cutter <= bound
        &&& self.profession_farmer <= bound
        &&& self.profession_innkeeper <= bound
        &&& self.profession_laborer <= bound
        &&& self.profession_tinker <= bound
        &&& self.profession_trader <= bound
        &&& self.profession_woodsman <= bound
    }

    /// Whether the mob can take one more package without any of its
    /// numbers leaving `usize`.
    pub open spec fn has_room(self) -> bool {
        self.age + 3 <= usize::MAX && self.attributes_below(usize::MAX - MAX_GAIN)
    }

    /// Whether two mobs differ in nothing but age and attributes.
    pub open spec fn same_person(self, other: Mobile) -> bool {
        &&& self.onset_age == other.onset_age
        &&& self.priority_task == other.priority_task
        &&& self.desires == other.desires
        &&& self.home_pos == other.home_pos
        &&& self.is_avaricious == other.is_avaricious
        &&& self.is_brave == other.is_brave
        &&& self.is_envious == other.is_envious
        &&& self.is_gluttonous == other.is_gluttonous
        &&& self.is_slothful == other.is_slothful
    }

    /// The mob after a childhood: five years old, with 5 in the physical
    /// attributes and 2 in the mental ones but craft, and 25 more assigned
    /// to 4 attributes as the childhood dictates.
    pub open spec fn raised(self, childhood: Childhood) -> Mobile {
        let base = Mobile {
            age: 5,
            agility: 5,
            constitution: 5,
            endurance: 5,
            recuperation: 5,
            strength: 5,
            toughness: 5,
            animal: 2,
            bargain: 2,
            charm: 2,
            chirurgy: 2,
            craft: 0,
            empathy: 2,
            forage: 2,
            guile: 2,
            heal: 2,
            hunt: 2,
            intuition: 2,
            lore: 2,
            ..self
        };
        match childhood {
            Childhood::Athletic => Mobile {
                agility: 15,
                endurance: 12,
                recuperation: 8,
                strength: 10,
                ..base
            },
            Childhood::Mischievous => Mobile {
                agility: 10,
                charm: 9,
                empathy: 9,
                guile: 12,
                ..base
            },
            Childhood::Outdoor => Mobile {
                animal: 5,
                constitution: 12,
                endurance: 15,
                hunt: 7,
                ..base
            },
        }
    }

    /// The mob after a training package: older by the years of the package,
    /// with the points of the package added to the attributes it trains.
    pub open spec fn trained(self, package: TrainingPackage) -> Mobile {
        let older = Mobile { age: (self.age + package.duration()) as usize, ..self };
        match package {
            TrainingPackage::Adventurer => Mobile {
                chirurgy: (self.chirurgy + 5) as usize,
                heal: (self.heal + 5) as usize,
                lore: (self.lore + 5) as usize,
                competence_shield: (self.competence_shield + 10) as usize,
                competence_single: (self.competence_single + 5) as usize,
                competence_sword: (self.competence_sword + 10) as usize,
                profession_adventurer: (self.profession_adventurer + 5) as usize,
                ..older
            },
            TrainingPackage::Mercernary => Mobile {
                chirurgy: (self.chirurgy + 5) as usize,
                heal: (self.heal + 5) as usize,
                hunt: (self.hunt + 5) as usize,
                competence_bow: (self.competence_bow + 10) as usize,
                competence_great: (self.competence_great + 5) as usize,
                competence_spear: (self.competence_spear + 10) as usize,
                profession_adventurer: (self.profession_adventurer + 5) as usize,
                ..older
            },
            TrainingPackage::BowCompetency => Mobile {
                strength: (self.strength + 5) as usize,
                competence_bow: (self.competence_bow + 10) as usize,
                ..older
            },
            TrainingPackage::GreatCompetency => Mobile {
                strength: (self.strength + 5) as usize,
                competence_great: (self.competence_great + 10) as usize,
                ..older
            },
            TrainingPackage::ShieldCompetency => Mobile {
                strength: (self.strength + 3) as usize,
                toughness: (self.toughness + 2) as usize,
                competence_shield: (self.competence_shield + 10) as usize,
                ..older
            },
            TrainingPackage::SingleCompetency => Mobile {
                agility: (self.agility + 5) as usize,
                competence_single: (self.competence_single + 10) as usize,
                ..older
            },
            TrainingPackage::SpearCompetency => Mobile {
                endurance: (self.endurance + 2) as usize,
                strength: (self.strength + 3) as usize,
                competence_spear: (self.competence_spear + 10) as usize,
                ..older
            },
            TrainingPackage::StaffCompetency => Mobile {
                agility: (self.agility + 3) as usize,
                endurance: (self.endurance + 2) as usize,
                competence_staff: (self.competence_staff + 10) as usize,
                ..older
            },
            TrainingPackage::SwordCompetency => Mobile {
                agility: (self.agility + 2) as usize,
                endurance: (self.endurance + 2) as usize,
                strength: (self.strength + 1) as usize,
                competence_sword: (self.competence_sword + 10) as usize,
                ..older
            },
            TrainingPackage::WarhammerCompetency => Mobile {
                strength: (self.strength + 5) as usize,
                competence_warhammer: (self.competence_warhammer + 10) as usize,
                ..older
            },
            TrainingPackage::AnimalHandler => Mobile {
                endurance: (self.endurance + 5) as usize,
                strength: (self.strength + 5) as usize,
                animal: (self.animal + 30) as usize,
                profession_animalhandler: (self.profession_animalhandler + 5) as usize,
                ..older
            },
            TrainingPackage::Apothecarist => Mobile {
                chirurgy: (self.chirurgy + 15) as usize,
                forage: (self.forage + 5) as usize,
                heal: (self.heal + 20) as usize,
                profession_apothecarist: (self.profession_apothecarist + 5) as usize,
                ..older
            },
            TrainingPackage::Appraiser => Mobile {
                bargain: (self.bargain + 10) as usize,
                lore: (self.lore + 30) as usize,
                profession_appraiser: (self.profession_appraiser + 5) as usize,
                ..older
            },
            TrainingPackage::Cutter => Mobile {
                chirurgy: (self.chirurgy + 25) as usize,
                empathy: (self.empathy + 10) as usize,
                strength: (self.strength + 5) as usize,
                profession_cutter: (self.profession_cutter + 5) as usize,
                ..older
            },
            TrainingPackage::Farmer => Mobile {
                endurance: (self.endurance + 10) as usize,
                strength: (self.strength + 10) as usize,
                animal: (self.animal + 20) as usize,
                profession_farmer: (self.profession_farmer + 5) as usize,
                ..older
            },
            TrainingPackage::Innkeeper => Mobile {
                bargain: (self.bargain + 20) as usize,
                charm: (self.charm + 10) as usize,
                empathy: (self.empathy + 10) as usize,
                profession_innkeeper: (self.profession_innkeeper + 5) as usize,
                ..older
            },
            TrainingPackage::Laborer => Mobile {
                endurance: (self.endurance + 15) as usize,
                recuperation: (self.recuperation + 5) as usize,
                strength: (self.strength + 15) as usize,
                toughness: (self.toughness + 5) as usize,
                profession_laborer: (self.profession_laborer + 5) as usize,
                ..older
            },
            TrainingPackage::Tinker => Mobile {
                bargain: (self.bargain + 10) as usize,
                craft: (self.craft + 30) as usize,
                profession_tinker: (self.profession_tinker + 5) as usize,
                ..older
            },
            TrainingPackage::Trader => Mobile {
                bargain: (self.bargain + 30) as usize,
                guile: (self.guile + 5) as usize,
                lore: (self.lore + 5) as usize,
                profession_trader: (self.profession_trader + 5) as usize,
                ..older
            },
            TrainingPackage::Woodsman => Mobile {
                constitution: (self.constitution + 5) as usize,
                endurance: (self.endurance + 5) as usize,
                forage: (self.forage + 10) as usize,
                hunt: (self.hunt + 20) as usize,
                profession_woodsman: (self.profession_woodsman + 5) as usize,
                ..older
            },
            TrainingPackage::Negotiation => Mobile {
                bargain: (self.bargain + 5) as usize,
                guile: (self.guile + 5) as usize,
                charm: (self.charm + 5) as usize,
                ..older
            },
            TrainingPackage::Athlete => Mobile {
                agility: (self.agility + 5) as usize,
                endurance: (self.endurance + 5) as usize,
                recuperation: (self.recuperation + 5) as usize,
                ..older
            },
            TrainingPackage::Brawler => Mobile {
                strength: (self.strength + 5) as usize,
                toughness: (self.toughness + 10) as usize,
                ..older
            },
            TrainingPackage::Charmer => Mobile {
                charm: (self.charm + 10) as usize,
                guile: (self.guile + 5) as usize,
                ..older
            },
            TrainingPackage::Conman => Mobile {
                charm: (self.charm + 5) as usize,
                guile: (self.guile + 10) as usize,
                ..older
            },
            TrainingPackage::Footpad => Mobile {
                agility: (self.agility + 5) as usize,
                charm: (self.charm + 5) as usize,
                guile: (self.guile + 5) as usize,
                ..older
            },
            TrainingPackage::Forager => Mobile {
                hunt: (self.hunt + 5) as usize,
                forage: (self.forage + 10) as usize,
                ..older
            },
            TrainingPackage::Assistant => Mobile {
                bargain: (self.bargain + 5) as usize,
                charm: (self.charm + 5) as usize,
                craft: (self.craft + 5) as usize,
                empathy: (self.empathy + 5) as usize,
                guile: (self.guile + 5) as usize,
                lore: (self.lore + 5) as usize,
                ..older
            },
            TrainingPackage::Farmhand => Mobile {
                endurance: (self.endurance + 5) as usize,
                strength: (self.strength + 5) as usize,
                animal: (self.animal + 20) as usize,
                ..older
            },
            TrainingPackage::Gatherer => Mobile {
                constitution: (self.constitution + 5) as usize,
                endurance: (self.endurance + 5) as usize,
                heal: (self.heal + 5) as usize,
                hunt: (self.hunt + 5) as usize,
                forage: (self.forage + 10) as usize,
                ..older
            },
            TrainingPackage::RecklessAbandon => Mobile {
                agility: (self.agility + 2) as usize,
                constitution: (self.constitution + 1) as usize,
                endurance: (self.endurance + 1) as usize,
                toughness: (self.toughness + 1) as usize,
                charm: (self.charm + 3) as usize,
                craft: (self.craft + 1) as usize,
                empathy: (self.empathy + 3) as usize,
                forage: (self.forage + 1) as usize,
                guile: (self.guile + 2) as usize,
                ..older
            },
        }
    }

    /// What training leaves as it is and how far it can raise the
    /// attributes: a trained mob is the same person, older by the years of
    /// the package, and no attribute has gained more than `MAX_GAIN`.
    pub proof fn lemma_trained(self, package: TrainingPackage, bound: int)
        requires
            self.has_room(),
            self.attributes_below(bound),
        ensures
            self.trained(package).age == self.age + package.duration(),
            self.trained(package).same_person(self),
            self.trained(package).attributes_below(bound + MAX_GAIN),
            self.trained(package).profession_adventurer >= self.profession_adventurer,
    {
    }

    /// Apply a childhood to the mob, and return the life event with its
    /// year.
    pub fn train_childhood(&mut self, childhood: &Childhood) -> (event: (usize, LifeEvent))
        ensures
            *final(self) == old(self).raised(*childhood),
            event == (5usize, LifeEvent::Raised { childhood: *childhood }),
            final(self).age == 5,
            final(self).same_person(*old(self)),
            forall|bound: int|
                bound >= 15 && old(self).attributes_below(bound)
                    ==> #[trigger] final(self).attributes_below(bound),
    {
        // Childhood lasts for 5 years.
        self.age = 5;

        // Every childhood gives 5 in the physicals, 2 in the mentals.
        self.agility = 5;
        self.constitution = 5;
        self.endurance = 5;
        self.recuperation = 5;
        self.strength = 5;
        self.toughness = 5;
        self.animal = 2;
        self.bargain = 2;
        self.charm = 2;
        self.chirurgy = 2;
        self.craft = 0;
        self.empathy = 2;
        self.forage = 2;
        self.guile = 2;
        self.heal = 2;
        self.hunt = 2;
        self.intuition = 2;
        self.lore = 2;

        // Then 25 are assigned as dictated by the type of childhood to 4
        // attributes.
        match *childhood {
            Childhood::Athletic => {
                self.agility += 10;
                self.endurance += 7;
                self.recuperation += 3;
                self.strength += 5;
            },
            Childhood::Mischievous => {
                self.agility += 5;
                self.charm += 7;
                self.empathy += 7;
                self.guile += 10;
            },
            Childhood::Outdoor => {
                self.animal += 3;
                self.constitution += 7;
                self.endurance += 10;
                self.hunt += 5;
            },
        }

        (self.age, LifeEvent::Raised { childhood: *childhood })
    }

    /// Apply a training package to the mob, and return the life event with
    /// its year. A training package grants 15 points per year to the
    /// related attributes.
    #[verifier::rlimit(50)]
    pub fn train(&mut self, package: &TrainingPackage) -> (event: (usize, LifeEvent))
        requires
            old(self).has_room(),
        ensures
            *final(self) == old(self).trained(*package),
            event == (final(self).age, LifeEvent::Learned { package: *package }),
    {
        self.age += package.years();

        match *package {
            TrainingPackage::Adventurer => {
                self.chirurgy += 5;
                self.heal += 5;
                self.lore += 5;
                self.competence_shield += 10;
                self.competence_single += 5;
                self.competence_sword += 10;
                self.profession_adventurer += 5;
            },
            TrainingPackage::Mercernary => {
                self.chirurgy += 5;
                self.heal += 5;
                self.hunt += 5;
                self.competence_bow += 10;
                self.competence_great += 5;
                self.competence_spear += 10;
                self.profession_adventurer += 5;
            },
            TrainingPackage::BowCompetency => {
                self.strength += 5;
                self.competence_bow += 10;
            },
            TrainingPackage::GreatCompetency => {
                self.strength += 5;
                self.competence_great += 10;
            },
            TrainingPackage::ShieldCompetency => {
                self.strength += 3;
                self.toughness += 2;
                self.competence_shield += 10;
            },
            TrainingPackage::SingleCompetency => {
                self.agility += 5;
                self.competence_single += 10;
            },
            TrainingPackage::SpearCompetency => {
                self.endurance += 2;
                self.strength += 3;
                self.competence_spear += 10;
            },
            TrainingPackage::StaffCompetency => {
                self.agility += 3;
                self.endurance += 2;
                self.competence_staff += 10;
            },
            TrainingPackage::SwordCompetency => {
                self.agility += 2;
                self.endurance += 2;
                self.strength += 1;
                self.competence_sword += 10;
            },
            TrainingPackage::WarhammerCompetency => {
                self.strength += 5;
                self.competence_warhammer += 10;
            },
            TrainingPackage::AnimalHandler => {
                self.endurance += 5;
                self.strength += 5;
                self.animal += 30;
                self.profession_animalhandler += 5;
            },
            TrainingPackage::Apothecarist => {
                self.chirurgy += 15;
                self.forage += 5;
                self.heal += 20;
                self.profession_apothecarist += 5;
            },
            TrainingPackage::Appraiser => {
                self.bargain += 10;
                self.lore += 30;
                self.profession_appraiser += 5;
            },
            TrainingPackage::Cutter => {
                self.chirurgy += 25;
                self.empathy += 10;
                self.strength += 5;
                self.profession_cutter += 5;
            },
            TrainingPackage::Farmer => {
                self.endurance += 10;
                self.strength += 10;
                self.animal += 20;
                self.profession_farmer += 5;
            },
            TrainingPackage::Innkeeper => {
                self.bargain += 20;
                self.charm += 10;
                self.empathy += 10;
                self.profession_innkeeper += 5;
            },
            TrainingPackage::Laborer => {
                self.endurance += 15;
                self.recuperation += 5;
                self.strength += 15;
                self.toughness += 5;
                self.profession_laborer += 5;
            },
            TrainingPackage::Tinker => {
                self.bargain += 10;
                self.craft += 30;
                self.profession_tinker += 5;
            },
            TrainingPackage::Trader => {
                self.bargain += 30;
                self.guile += 5;
                self.lore += 5;
                self.profession_trader += 5;
            },
            TrainingPackage::Woodsman => {
                self.constitution += 5;
                self.endurance += 5;
                self.forage += 10;
                self.hunt += 20;
                self.profession_woodsman += 5;
            },
            TrainingPackage::Negotiation => {
                self.bargain += 5;
                self.guile += 5;
                self.charm += 5;
            },
            TrainingPackage::Athlete => {
                self.agility += 5;
                self.endurance += 5;
                self.recuperation += 5;
            },
            TrainingPackage::Brawler => {
                self.strength += 5;
                self.toughness += 10;
            },
            TrainingPackage::Charmer => {
                self.charm += 10;
                self.guile += 5;
            },
            TrainingPackage::Conman => {
                self.charm += 5;
                self.guile += 10;
            },
            TrainingPackage::Footpad => {
                self.agility += 5;
                self.charm += 5;
                self.guile += 5;
            },
            TrainingPackage::Forager => {
                self.hunt += 5;
                self.forage += 10;
            },
            TrainingPackage::Assistant => {
                self.bargain += 5;
                self.charm += 5;
                self.craft += 5;
                self.empathy += 5;
                self.guile += 5;
                self.lore += 5;
            },
            TrainingPackage::Farmhand => {
                self.endurance += 5;
                self.strength += 5;
                self.animal += 20;
            },
            TrainingPackage::Gatherer => {
                self.constitution += 5;
                self.endurance += 5;
                self.heal += 5;
                self.hunt += 5;
                self.forage += 10;
            },
            TrainingPackage::RecklessAbandon => {
                self.agility += 2;
                self.constitution += 1;
                self.endurance += 1;
                self.toughness += 1;
                self.charm += 3;
                self.craft += 1;
                self.empathy += 3;
                self.forage += 1;
                self.guile += 2;
            },
        }

        (self.age, LifeEvent::Learned { package: *package })
    }
}

/// The oldest mob that can be generated: an attribute gains up to
/// `MAX_GAIN` in a year, and has to fit in 32 bits at any age.
pub const MAX_AGE: usize = 100_000_000;

/// Childhood training packages.
pub open spec fn all_childhoods() -> Seq<Childhood> {
    seq![Childhood::Athletic, Childhood::Mischievous, Childhood::Outdoor]
}

/// Childhood training packages.
pub fn childhoods() -> (v: Vec<Childhood>)
    ensures
        v@ == all_childhoods(),
{
    vec![Childhood::Athletic, Childhood::Mischievous, Childhood::Outdoor]
}

/// Youth training packages.
pub open spec fn youth_packages() -> Seq<TrainingPackage> {
    seq![TrainingPackage::Assistant, TrainingPackage::Farmhand, TrainingPackage::Gatherer, TrainingPackage::RecklessAbandon]
}

/// Youth training packages.
pub fn youth() -> (v: Vec<TrainingPackage>)
    ensures
        v@ == youth_packages(),
{
    vec![TrainingPackage::Assistant, TrainingPackage::Farmhand, TrainingPackage::Gatherer, TrainingPackage::RecklessAbandon]
}

/// Pre-onset training packages.
pub open spec fn pre_onset_packages() -> Seq<TrainingPackage> {
    seq![TrainingPackage::AnimalHandler, TrainingPackage::Apothecarist, TrainingPackage::Appraiser, TrainingPackage::Cutter, TrainingPackage::Farmer, TrainingPackage::Innkeeper, TrainingPackage::Laborer, TrainingPackage::Tinker, TrainingPackage::Trader, TrainingPackage::Woodsman, TrainingPackage::Negotiation, TrainingPackage::Athlete, TrainingPackage::Brawler, TrainingPackage::Charmer, TrainingPackage::Conman, TrainingPackage::Footpad, TrainingPackage::Forager]
}

/// Pre-onset training packages.
pub fn pre_onset() -> (v: Vec<TrainingPackage>)
    ensures
        v@ == pre_onset_packages(),
{
    vec![TrainingPackage::AnimalHandler, TrainingPackage::Apothecarist, TrainingPackage::Appraiser, TrainingPackage::Cutter, TrainingPackage::Farmer, TrainingPackage::Innkeeper, TrainingPackage::Laborer, TrainingPackage::Tinker, TrainingPackage::Trader, TrainingPackage::Woodsman, TrainingPackage::Negotiation, TrainingPackage::Athlete, TrainingPackage::Brawler, TrainingPackage::Charmer, TrainingPackage::Conman, TrainingPackage::Footpad, TrainingPackage::Forager]
}

/// Post-onset training packages.
pub open spec fn post_onset_packages() -> Seq<TrainingPackage> {
    seq![TrainingPackage::Adventurer, TrainingPackage::Mercernary, TrainingPackage::BowCompetency, TrainingPackage::GreatCompetency, TrainingPackage::ShieldCompetency, TrainingPackage::SingleCompetency, TrainingPackage::SpearCompetency, TrainingPackage::StaffCompetency, TrainingPackage::SwordCompetency, TrainingPackage::WarhammerCompetency, TrainingPackage::AnimalHandler, TrainingPackage::Apothecarist, TrainingPackage::Appraiser, TrainingPackage::Tinker, TrainingPackage::Trader, TrainingPackage::Woodsman, TrainingPackage::Athlete, TrainingPackage::Brawler, TrainingPackage::Charmer, TrainingPackage::Conman, TrainingPackage::Footpad, TrainingPackage::Forager, TrainingPackage::Negotiation]
}

/// Post-onset training packages.
pub fn post_onset() -> (v: Vec<TrainingPackage>)
    ensures
        v@ == post_onset_packages(),
{
    vec![TrainingPackage::Adventurer, TrainingPackage::Mercernary, TrainingPackage::BowCompetency, TrainingPackage::GreatCompetency, TrainingPackage::ShieldCompetency, TrainingPackage::SingleCompetency, TrainingPackage::SpearCompetency, TrainingPackage::StaffCompetency, TrainingPackage::SwordCompetency, TrainingPackage::WarhammerCompetency, TrainingPackage::AnimalHandler, TrainingPackage::Apothecarist, TrainingPackage::Appraiser, TrainingPackage::Tinker, TrainingPackage::Trader, TrainingPackage::Woodsman, TrainingPackage::Athlete, TrainingPackage::Brawler, TrainingPackage::Charmer, TrainingPackage::Conman, TrainingPackage::Footpad, TrainingPackage::Forager, TrainingPackage::Negotiation]
}

/// The generator of random numbers that mobs are generated with: the type
/// `StdRng` of the crate `rand`, of whose state nothing is said.
#[verifier::external_type_specification]
#[verifier::external_body]
pub struct ExStdRng(rand::StdRng);

/// A random number from `low` up to, but not including, `high`.
///
/// This is `Rng::gen_range` of the crate `rand`, which fails where `low`
/// is not below `high` and else gives a number of the range.
#[verifier::external_body]
fn roll(rng: &mut rand::StdRng, low: usize, high: usize) -> (r: usize)
    requires
        low < high,
    ensures
        low <= r < high,
{
    rng.gen_range(low, high)
}

/// A random childhood of a table.
///
/// This is `Rng::choose` of the crate `rand`, which gives nothing for an
/// empty table and else one of the table's entries.
#[verifier::external_body]
fn choose_childhood(rng: &mut rand::StdRng, table: &Vec<Childhood>) -> (r: Option<Childhood>)
    ensures
        table@.len() == 0 ==> r is None,
        table@.len() > 0 ==> r is Some && table@.contains(r->0),
{
    rng.choose(table).cloned()
}

/// Whether a mob can take a package in the years that are left.
pub open spec fn eligible(package: TrainingPackage, mob: Mobile, max_years: usize) -> bool {
    package.suits(mob) && package.duration() <= max_years
}

/// Whether a package counts in a class of packages: in class 0 every
/// eligible package counts, in any other class those that are related to
/// the prior package.
pub open spec fn counts(
    package: TrainingPackage,
    mob: Mobile,
    max_years: usize,
    prior: Option<TrainingPackage>,
    class: usize,
) -> bool {
    eligible(package, mob, max_years) && (class == 0 || match prior {
        Some(tp) => tp.akin(package),
        None => false,
    })
}

/// How many packages of a table, from a position on, count in a class.
pub open spec fn tally(
    packages: Seq<TrainingPackage>,
    mob: Mobile,
    max_years: usize,
    prior: Option<TrainingPackage>,
    class: usize,
    from: int,
) -> nat
    decreases packages.len() - from,
{
    if from < 0 || from >= packages.len() {
        0
    } else if counts(packages[from], mob, max_years, prior, class) {
        1 + tally(packages, mob, max_years, prior, class, from + 1)
    } else {
        tally(packages, mob, max_years, prior, class, from + 1)
    }
}

/// A countdown one lower, but not below zero.
pub open spec fn counted_down(idx: usize) -> usize {
    if idx == 0 {
        0
    } else {
        (idx - 1) as usize
    }
}

/// The package picked from a table, from a position on: the table is
/// walked, every package that counts in the class lowers the countdown,
/// and the first eligible package at which the countdown stands at zero is
/// picked.
pub open spec fn picked(
    packages: Seq<TrainingPackage>,
    mob: Mobile,
    max_years: usize,
    prior: Option<TrainingPackage>,
    class: usize,
    idx: usize,
    from: int,
) -> Option<TrainingPackage>
    decreases packages.len() - from,
{
    if from < 0 || from >= packages.len() {
        None
    } else if eligible(packages[from], mob, max_years) {
        let next = if counts(packages[from], mob, max_years, prior, class) {
            counted_down(idx)
        } else {
            idx
        };
        if next == 0 {
            Some(packages[from])
        } else {
            picked(packages, mob, max_years, prior, class, next, from + 1)
        }
    } else {
        picked(packages, mob, max_years, prior, class, idx, from + 1)
    }
}

/// No class counts more packages than class 0.
pub proof fn lemma_tally_classes(
    packages: Seq<TrainingPackage>,
    mob: Mobile,
    max_years: usize,
    prior: Option<TrainingPackage>,
    class: usize,
    from: int,
)
    ensures
        tally(packages, mob, max_years, prior, class, from) <= tally(
            packages,
            mob,
            max_years,
            prior,
            0,
            from,
        ),
    decreases packages.len() - from,
{
    if 0 <= from < packages.len() {
        lemma_tally_classes(packages, mob, max_years, prior, class, from + 1);
    }
}

/// Where an eligible package is left and the countdown is not above the
/// number of packages that count, a package is picked, and it is an
/// eligible package of the table.
pub proof fn lemma_picked(
    packages: Seq<TrainingPackage>,
    mob: Mobile,
    max_years: usize,
    prior: Option<TrainingPackage>,
    class: usize,
    idx: usize,
    from: int,
)
    requires
        0 <= from <= packages.len(),
        idx <= tally(packages, mob, max_years, prior, class, from),
        tally(packages, mob, max_years, prior, 0, from) >= 1,
    ensures
        picked(packages, mob, max_years, prior, class, idx, from) is Some,
        eligible(picked(packages, mob, max_years, prior, class, idx, from)->0, mob, max_years),
        packages.contains(picked(packages, mob, max_years, prior, class, idx, from)->0),
    decreases packages.len() - from,
{
    let p = packages[from];
    if eligible(p, mob, max_years) {
        let next = if counts(p, mob, max_years, prior, class) {
            counted_down(idx)
        } else {
            idx
        };
        if next != 0 {
            lemma_tally_classes(packages, mob, max_years, prior, class, from + 1);
            lemma_picked(packages, mob, max_years, prior, class, next, from + 1);
        }
    } else {
        lemma_picked(packages, mob, max_years, prior, class, idx, from + 1);
    }
}

/// How many packages of a table count in a class.
pub fn count_packages(
    mob: &Mobile,
    max_years: usize,
    packages: &Vec<TrainingPackage>,
    prior: Option<TrainingPackage>,
    class: usize,
) -> (n: usize)
    ensures
        n == tally(packages@, *mob, max_years, prior, class, 0),
        n <= packages@.len(),
{
    let mut n: usize = 0;
    let mut i: usize = 0;
    while i < packages.len()
        invariant
            i <= packages.len(),
            n <= i,
            n + tally(packages@, *mob, max_years, prior, class, i as int) == tally(
                packages@,
                *mob,
                max_years,
                prior,
                class,
                0,
            ),
        decreases packages.len() - i,
    {
        let package = packages[i];
        if package.applicable(mob) && package.years() <= max_years {
            let in_class = class == 0 || match prior {
                Some(tp) => tp.related(&package),
                None => false,
            };
            if in_class {
                n += 1;
            }
        }
        i = i + 1;
    }
    n
}

/// Pick a package from a table by a class and a countdown: every package
/// that counts in the class lowers the countdown, and the first eligible
/// package at which the countdown stands at zero is picked.
pub fn pick_package(
    mob: &Mobile,
    max_years: usize,
    packages: &Vec<TrainingPackage>,
    prior: Option<TrainingPackage>,
    class: usize,
    idx: usize,
) -> (r: Option<TrainingPackage>)
    ensures
        r == picked(packages@, *mob, max_years, prior, class, idx, 0),
{
    let mut countdown = idx;
    let mut i: usize = 0;
    while i < packages.len()
        invariant
            i <= packages.len(),
            picked(packages@, *mob, max_years, prior, class, countdown, i as int) == picked(
                packages@,
                *mob,
                max_years,
                prior,
                class,
                idx,
                0,
            ),
        decreases packages.len() - i,
    {
        let package = packages[i];
        let ghost before = countdown;
        assert(picked(packages@, *mob, max_years, prior, class, before, i as int) == (if eligible(
            package,
            *mob,
            max_years,
        ) {
            let next = if counts(package, *mob, max_years, prior, class) {
                counted_down(before)
            } else {
                before
            };
            if next == 0 {
                Some(package)
            } else {
                picked(packages@, *mob, max_years, prior, class, next, i + 1)
            }
        } else {
            picked(packages@, *mob, max_years, prior, class, before, i + 1)
        }));
        if package.applicable(mob) && package.years() <= max_years {
            if class == 0 {
                countdown = countdown.saturating_sub(1);
            } else if let Some(tp) = prior {
                if tp.related(&package) {
                    countdown = countdown.saturating_sub(1);
                }
            }
            if countdown == 0 {
                return Some(package);
            }
        }
        i = i + 1;
    }
    None
}

/// Pick a training package applicable to a mob. This is biassed towards
/// one related to the prior, as people tend not to *completely* change
/// career, even if they theoretically could.
///
/// There must be an applicable training package. Whatever the generator
/// gives, the package is one of the table that the mob can take in the
/// years that are left.
pub fn choose_package(
    rng: &mut rand::StdRng,
    mob: &Mobile,
    max_years: usize,
    packages: &Vec<TrainingPackage>,
    prior: Option<TrainingPackage>,
) -> (package: TrainingPackage)
    requires
        tally(packages@, *mob, max_years, prior, 0, 0) >= 1,
    ensures
        packages@.contains(package),
        eligible(package, *mob, max_years),
{
    // Determine how many packages are applicable and how many are related
    // to the prior package.
    let applicable = count_packages(mob, max_years, packages, prior, 0);
    let related = count_packages(mob, max_years, packages, prior, 1);

    // Determine what sort of package to pick: any applicable one (class
    // 0); or any related one (class 1). These classes are chosen between
    // with equal probability. Then a package in the selected class is
    // picked uniformly. As each package is only related to a couple of
    // others, this has the effect of biassing towards related packages.
    let class = if related == 0 {
        0
    } else {
        roll(rng, 0, 2)
    };

    // Pick a package in the chosen set.
    let num_options = if class == 0 {
        applicable
    } else {
        related
    };
    let idx = roll(rng, 0, num_options);

    // Return the chosen package.
    proof {
        lemma_picked(packages@, *mob, max_years, prior, class, idx, 0);
    }
    match pick_package(mob, max_years, packages, prior, class, idx) {
        Some(package) => package,
        None => vstd::pervasive::unreached(),
    }
}

/// Whether a table always has a package for a mob: one that takes a single
/// year and that the mob can take.
pub open spec fn always_serves(packages: Seq<TrainingPackage>, mob: Mobile) -> bool {
    exists|i: int|
        0 <= i < packages.len() && (#[trigger] packages[i]).duration() == 1 && packages[i].suits(
            mob,
        )
}

/// A table that always has a package for a mob has an eligible package
/// whenever a year is left.
pub proof fn lemma_serves(packages: Seq<TrainingPackage>, mob: Mobile, years: usize, from: int)
    requires
        years >= 1,
        0 <= from,
        exists|i: int|
            from <= i < packages.len() && (#[trigger] packages[i]).duration() == 1
                && packages[i].suits(mob),
    ensures
        tally(packages, mob, years, None, 0, from) >= 1,
        forall|prior: Option<TrainingPackage>|
            #[trigger] tally(packages, mob, years, prior, 0, from) >= 1,
    decreases packages.len() - from,
{
    let i = choose|i: int|
        from <= i < packages.len() && (#[trigger] packages[i]).duration() == 1 && packages[i].suits(
            mob,
        );
    if i > from {
        lemma_serves(packages, mob, years, from + 1);
    }
    assert(tally(packages, mob, years, None, 0, from) >= 1);
    assert forall|prior: Option<TrainingPackage>|
        #[trigger] tally(packages, mob, years, prior, 0, from) >= 1 by {
        lemma_tally_prior(packages, mob, years, prior, from);
    }
}

/// Class 0 does not depend on the prior package.
pub proof fn lemma_tally_prior(
    packages: Seq<TrainingPackage>,
    mob: Mobile,
    years: usize,
    prior: Option<TrainingPackage>,
    from: int,
)
    ensures
        tally(packages, mob, years, prior, 0, from) == tally(packages, mob, years, None, 0, from),
    decreases packages.len() - from,
{
    if 0 <= from < packages.len() {
        lemma_tally_prior(packages, mob, years, prior, from + 1);
    }
}

/// Whether a history is in order: no event is dated before an earlier one.
pub open spec fn in_order(history: Seq<(usize, LifeEvent)>) -> bool {
    forall|i: int, j: int| 0 <= i <= j < history.len() ==> history[i].0 <= history[j].0
}

/// Randomly train a mob for a number of years, and add what it learns to
/// its history.
///
/// Returns the final training package applied. If the result is `None`,
/// then this was called with `years=0`. Whatever the generator gives, the
/// mob ends older by exactly the years given and is otherwise the same
/// person, and the history grows in order.
pub fn random_train(
    rng: &mut rand::StdRng,
    mob: &mut Mobile,
    history: &mut Vec<(usize, LifeEvent)>,
    years: usize,
    packages: &Vec<TrainingPackage>,
    prior: Option<TrainingPackage>,
) -> (last: Option<TrainingPackage>)
    requires
        always_serves(packages@, *old(mob)),
        old(mob).age + years <= MAX_AGE,
        old(mob).attributes_below(MAX_GAIN * old(mob).age + MAX_GAIN),
        in_order(old(history)@),
        old(history)@.len() > 0 ==> old(history)@.last().0 <= old(mob).age,
    ensures
        final(mob).age == old(mob).age + years,
        final(mob).same_person(*old(mob)),
        final(mob).attributes_below(MAX_GAIN * final(mob).age + MAX_GAIN),
        final(mob).profession_adventurer >= old(mob).profession_adventurer,
        years == 0 ==> last is None && *final(mob) == *old(mob) && final(history)@ == old(
            history,
        )@,
        years > 0 ==> last is Some && packages@.contains(last->0) && final(history)@.last() == (
            final(mob).age,
            LifeEvent::Learned { package: last->0 },
        ),
        final(history)@.len() >= old(history)@.len(),
        final(history)@.subrange(0, old(history)@.len() as int) == old(history)@,
        forall|i: int|
            old(history)@.len() <= i < final(history)@.len() ==> (
            #[trigger] final(history)@[i]).1 is Learned && old(mob).age < final(history)@[i].0
                <= final(mob).age,
        in_order(final(history)@),
{
    let mut prior = prior;
    let mut remaining = years;

    while remaining > 0
        invariant
            remaining <= years,
            always_serves(packages@, *mob),
            mob.age + remaining == old(mob).age + years,
            old(mob).age + years <= MAX_AGE,
            mob.same_person(*old(mob)),
            mob.attributes_below(MAX_GAIN * mob.age + MAX_GAIN),
            mob.profession_adventurer >= old(mob).profession_adventurer,
            remaining == years ==> *mob == *old(mob) && history@ == old(history)@,
            remaining < years ==> prior is Some && packages@.contains(prior->0) && history@.last()
                == (mob.age, LifeEvent::Learned { package: prior->0 }) && history@.len() > old(
                history,
            )@.len(),
            history@.len() >= old(history)@.len(),
            history@.subrange(0, old(history)@.len() as int) == old(history)@,
            forall|i: int|
                old(history)@.len() <= i < history@.len() ==> (#[trigger] history@[i]).1 is Learned
                    && old(mob).age < history@[i].0 <= mob.age,
            in_order(history@),
            history@.len() > 0 ==> history@.last().0 <= mob.age,
        decreases remaining,
    {
        proof {
            lemma_serves(packages@, *mob, remaining, 0);
        }
        let package = choose_package(rng, mob, remaining, packages, prior);
        let ghost before = *mob;
        let ghost past = history@;
        proof {
            before.lemma_trained(package, MAX_GAIN * before.age + MAX_GAIN);
        }
        let event = mob.train(&package);
        history.push(event);
        remaining -= package.years();
        prior = Some(package);
        proof {
            assert(history@.subrange(0, old(history)@.len() as int) == past.subrange(
                0,
                old(history)@.len() as int,
            ));
            assert forall|i: int, j: int| 0 <= i <= j < history@.len() implies history@[i].0
                <= history@[j].0 by {
                if j < past.len() {
                    assert(past[i].0 <= past[j].0);
                } else if i < past.len() {
                    assert(past[i].0 <= past.last().0);
                }
            }
            assert(always_serves(packages@, *mob)) by {
                let i = choose|i: int|
                    0 <= i < packages@.len() && (#[trigger] packages@[i]).duration() == 1
                        && packages@[i].suits(before);
                assert(packages@[i].suits(*mob));
            }
        }
    }

    if years == 0 {
        None
    } else {
        prior
    }
}

/// Generate a mobile of the given age, with its history.
///
/// Everyone gets a childhood and some youth packages. Adults then get
/// pre-onset packages. Adventurers then get post-onset packages. Whatever
/// the generator gives, the mob has the age asked for; an adventurer is
/// brave and has at least 5 in the adventurer profession; only an
/// adventurer above the minimum onset age has an onset age, between that
/// age and its own; and the history starts with the birth, then the
/// childhood, and is in order.
pub fn gen(rng: &mut rand::StdRng, age: usize, is_adventurer: bool) -> (r: (
    Mobile,
    Vec<(usize, LifeEvent)>,
))
    requires
        MIN_AGE <= age <= MAX_AGE,
    ensures
        r.0.age == age,
        r.0.priority_task is None,
        r.0.desires.adventure is None && r.0.desires.general_store is None && r.0.desires.rest
            is None && r.0.desires.sustenance is None,
        is_adventurer ==> r.0.is_brave && r.0.profession_adventurer >= 5,
        match r.0.onset_age {
            Some(onset) => is_adventurer && MIN_ONSET <= onset < age,
            None => !(is_adventurer && age > MIN_ONSET),
        },
        r.1@.len() >= 2,
        r.1@[0] == (0usize, LifeEvent::Born),
        r.1@[1].0 == 5 && r.1@[1].1 is Raised,
        in_order(r.1@),
        r.1@.last().0 <= age,
{
    // We start off with a blank slate. This is an entirely nurture-based
    // model of personality.
    let mut mob = Mobile::blank(Point { x: 0, y: 0 });
    let mut history: Vec<(usize, LifeEvent)> = Vec::new();
    history.push((0, LifeEvent::Born));

    // Assign personality traits randomly. Let's say that 75% of the
    // population are not particularly avaricious/brave/whatnot, and the
    // remaining 25% are. The exception is that all adventurers are brave.
    mob.is_avaricious = roll(rng, 0, 5) == 0;
    let brave = roll(rng, 0, 5) == 0;
    mob.is_brave = is_adventurer || brave;
    mob.is_envious = roll(rng, 0, 5) == 0;
    mob.is_gluttonous = roll(rng, 0, 5) == 0;
    mob.is_slothful = roll(rng, 0, 5) == 0;

    // Then, determine the age at which the mob became an adventurer. Let's
    // say that any point after MIN_ONSET is fair game.
    let mut youth_years: usize = age - MIN_AGE;
    let mut pre_years: usize = 0;
    let mut post_years: usize = 0;
    if is_adventurer && age > MIN_ONSET {
        let onset = roll(rng, MIN_ONSET, age);
        mob.onset_age = Some(onset);
        youth_years = ADULT_AGE - MIN_AGE;
        pre_years = onset - ADULT_AGE;
        post_years = age - onset;
    } else if age > ADULT_AGE {
        // Of course, if they're not an adventurer, or are a freshly-minted
        // adventurer (this is their first quest!), they get no years of
        // adventurer experience.
        youth_years = ADULT_AGE - MIN_AGE;
        pre_years = age - ADULT_AGE;
    }

    // Now pick and apply training packages.
    let table = childhoods();
    let childhood = match choose_childhood(rng, &table) {
        Some(childhood) => childhood,
        None => vstd::pervasive::unreached(),
    };
    let raised = mob.train_childhood(&childhood);
    history.push(raised);
    let young = youth();
    proof {
        assert(young@[3] == TrainingPackage::RecklessAbandon);
        assert(mob.attributes_below(15));
    }
    let ghost early = history@;
    let finalp = random_train(rng, &mut mob, &mut history, youth_years, &young, None);
    proof {
        assert(history@.subrange(0, 2) == early);
        assert(history@[0] == history@.subrange(0, 2)[0]);
        assert(history@[1] == history@.subrange(0, 2)[1]);
    }

    if age > ADULT_AGE {
        // The final youth training package is used to influence the
        // selection of the initial adult training package, as the youth
        // packages are broader and more generic versions of the adult
        // packages.
        let grown = pre_onset();
        proof {
            assert(grown@[11] == TrainingPackage::Athlete);
        }
        let ghost past = history@;
        let _ = random_train(rng, &mut mob, &mut history, pre_years, &grown, finalp);
        proof {
            assert(history@[0] == history@.subrange(0, past.len() as int)[0]);
            assert(history@[1] == history@.subrange(0, past.len() as int)[1]);
        }
    }
    // All adventurers start with 5 experience in the adventurer profession.
    // The final pre-onset training package is *not* passed in here, as
    // becoming an adventurer is a complete change of lifestyle, so there's
    // no reason for the prior job to influence what happens next.

    if is_adventurer {
        mob.profession_adventurer = 5;
        history.push((mob.age, LifeEvent::Onset));
        let seasoned = post_onset();
        proof {
            assert(seasoned@[16] == TrainingPackage::Athlete);
        }
        let ghost past = history@;
        proof {
            assert forall|i: int, j: int| 0 <= i <= j < past.len() implies past[i].0
                <= past[j].0 by {
                if j == past.len() - 1 && i < j {
                    assert(past[i].0 <= past[past.len() - 2].0);
                }
            }
        }
        let _ = random_train(rng, &mut mob, &mut history, post_years, &seasoned, None);
        proof {
            assert(history@[0] == history@.subrange(0, past.len() as int)[0]);
            assert(history@[1] == history@.subrange(0, past.len() as int)[1]);
        }
    }
    (mob, history)
}

impl Mobile {
    /// Generate an adventurer.
    ///
    /// Adventurers *tend* to be young, as they need to be physically fit
    /// and tend to die: so the age is `MIN_ONSET` plus a number of years
    /// that the caller draws from a distribution which favours small
    /// numbers.
    pub fn gen_adventurer(rng: &mut rand::StdRng, years: usize) -> (r: (
        Mobile,
        Vec<(usize, LifeEvent)>,
    ))
        requires
            MIN_ONSET + years <= MAX_AGE,
        ensures
            r.0.age == MIN_ONSET + years,
            r.0.is_brave,
            r.0.profession_adventurer >= 5,
            match r.0.onset_age {
                Some(onset) => MIN_ONSET <= onset < r.0.age,
                None => years == 0,
            },
            r.1@.len() >= 2,
            r.1@[0] == (0usize, LifeEvent::Born),
            in_order(r.1@),
    {
        gen(rng, MIN_ONSET + years, true)
    }

    /// Generate a child.
    ///
    /// Children are by necessity young, but far younger than an
    /// adventurer: a uniform selection between the minimum age and the age
    /// at which childhood ends.
    pub fn gen_child(rng: &mut rand::StdRng) -> (r: (Mobile, Vec<(usize, LifeEvent)>))
        ensures
            MIN_AGE <= r.0.age < ADULT_AGE,
            r.0.onset_age is None,
            r.1@.len() >= 2,
            r.1@[0] == (0usize, LifeEvent::Born),
            in_order(r.1@),
    {
        let age = roll(rng, MIN_AGE, ADULT_AGE);
        gen(rng, age, false)
    }

    /// Generate an adult.
    ///
    /// Being a non-adventurer is safer than being an adventurer, so some
    /// adults are old, some are young, some are middle-aged: the caller
    /// draws the age, and an age below `ADULT_AGE` counts as that age.
    pub fn gen_adult(rng: &mut rand::StdRng, age: usize) -> (r: (Mobile, Vec<(usize, LifeEvent)>))
        requires
            age <= MAX_AGE,
        ensures
            r.0.age == if age < ADULT_AGE {
                ADULT_AGE
            } else {
                age
            },
            r.0.onset_age is None,
            r.1@.len() >= 2,
            r.1@[0] == (0usize, LifeEvent::Born),
            in_order(r.1@),
    {
        let age: usize = if age < ADULT_AGE {
            ADULT_AGE
        } else {
            age
        };
        gen(rng, age, false)
    }
}

} // verus!
