use rand::{SeedableRng, StdRng};
use rogue_mayor::grid::Point;
use rogue_mayor::mobiles::gen::{
    childhoods, choose_package, count_packages, gen, pick_package, post_onset,
    pre_onset, random_train, related_non_refsym, youth, Childhood, TrainingPackage, ADULT_AGE,
    MIN_AGE, MIN_ONSET,
};
use rogue_mayor::mobiles::{LifeEvent, Mobile};

fn seeded(seed: usize) -> StdRng {
    let seed = [seed, 17, 4711];
    StdRng::from_seed(&seed[..])
}

fn sorted(history: &Vec<(usize, LifeEvent)>) -> bool {
    let mut i = 1;
    while i < history.len() {
        if history[i - 1].0 > history[i].0 {
            return false;
        }
        i += 1;
    }
    true
}

#[test]
fn packages_take_one_two_or_three_years() {
    assert_eq!(TrainingPackage::Adventurer.years(), 3);
    assert_eq!(TrainingPackage::Mercernary.years(), 3);
    assert_eq!(TrainingPackage::BowCompetency.years(), 1);
    assert_eq!(TrainingPackage::WarhammerCompetency.years(), 1);
    assert_eq!(TrainingPackage::Woodsman.years(), 3);
    assert_eq!(TrainingPackage::Negotiation.years(), 1);
    assert_eq!(TrainingPackage::Forager.years(), 1);
    assert_eq!(TrainingPackage::Assistant.years(), 2);
    assert_eq!(TrainingPackage::Farmhand.years(), 2);
    assert_eq!(TrainingPackage::Gatherer.years(), 2);
    assert_eq!(TrainingPackage::RecklessAbandon.years(), 1);
}

#[test]
fn related_is_reflexive_and_symmetric() {
    let all = [post_onset(), pre_onset(), youth()].concat();
    for a in &all {
        assert!(a.related(a));
        for b in &all {
            assert_eq!(a.related(b), b.related(a));
        }
    }
    assert!(related_non_refsym(&TrainingPackage::Trader, &TrainingPackage::Conman));
    assert!(!related_non_refsym(&TrainingPackage::Conman, &TrainingPackage::Trader));
    assert!(TrainingPackage::Conman.related(&TrainingPackage::Trader));
    assert!(!TrainingPackage::Conman.related(&TrainingPackage::Farmer));
    assert!(!related_non_refsym(&TrainingPackage::Farmer, &TrainingPackage::Farmer));
}

#[test]
fn only_negotiation_asks_for_a_trait() {
    let mut mob = Mobile::blank(Point { x: 0, y: 0 });
    assert!(!TrainingPackage::Negotiation.applicable(&mob));
    assert!(TrainingPackage::Farmer.applicable(&mob));
    mob.is_envious = true;
    assert!(TrainingPackage::Negotiation.applicable(&mob));
    mob.is_envious = false;
    mob.is_avaricious = true;
    assert!(TrainingPackage::Negotiation.applicable(&mob));
}

#[test]
fn a_childhood_sets_the_attributes() {
    let mut mob = Mobile::blank(Point { x: 0, y: 0 });
    mob.craft = 9;
    mob.competence_bow = 3;
    let event = mob.train_childhood(&Childhood::Outdoor);
    assert_eq!(event, (5, LifeEvent::Raised { childhood: Childhood::Outdoor }));
    assert_eq!(mob.age, 5);
    assert_eq!(mob.animal, 5);
    assert_eq!(mob.constitution, 12);
    assert_eq!(mob.endurance, 15);
    assert_eq!(mob.hunt, 7);
    assert_eq!(mob.agility, 5);
    assert_eq!(mob.lore, 2);
    assert_eq!(mob.craft, 0);
    assert_eq!(mob.competence_bow, 3);
    let mut other = Mobile::blank(Point { x: 0, y: 0 });
    let _ = other.train_childhood(&Childhood::Mischievous);
    assert_eq!((other.agility, other.charm, other.empathy, other.guile), (10, 9, 9, 12));
    let _ = other.train_childhood(&Childhood::Athletic);
    assert_eq!((other.agility, other.endurance, other.recuperation, other.strength), (15, 12, 8, 10));
    assert_eq!(other.charm, 2);
}

#[test]
fn a_package_adds_its_years_and_points() {
    let mut mob = Mobile::blank(Point { x: 3, y: 4 });
    let _ = mob.train_childhood(&Childhood::Athletic);
    let event = mob.train(&TrainingPackage::Laborer);
    assert_eq!(event, (8, LifeEvent::Learned { package: TrainingPackage::Laborer }));
    assert_eq!(mob.age, 8);
    assert_eq!(mob.endurance, 12 + 15);
    assert_eq!(mob.recuperation, 8 + 5);
    assert_eq!(mob.strength, 10 + 15);
    assert_eq!(mob.toughness, 5 + 5);
    assert_eq!(mob.profession_laborer, 5);
    assert_eq!(mob.agility, 15);
    assert_eq!(mob.home_pos, Point { x: 3, y: 4 });
    let event = mob.train(&TrainingPackage::RecklessAbandon);
    assert_eq!(event.0, 9);
    assert_eq!(mob.charm, 5);
    assert_eq!(mob.craft, 1);
    let _ = mob.train(&TrainingPackage::Appraiser);
    assert_eq!((mob.age, mob.bargain, mob.lore, mob.profession_appraiser), (12, 12, 32, 5));
}

#[test]
fn picking_walks_the_table_with_a_countdown() {
    let mob = Mobile::blank(Point { x: 0, y: 0 });
    let table = youth();
    // Class 0: every package that fits counts the countdown down.
    assert_eq!(pick_package(&mob, 2, &table, None, 0, 0), Some(TrainingPackage::Assistant));
    assert_eq!(pick_package(&mob, 2, &table, None, 0, 1), Some(TrainingPackage::Assistant));
    assert_eq!(pick_package(&mob, 2, &table, None, 0, 2), Some(TrainingPackage::Farmhand));
    assert_eq!(pick_package(&mob, 2, &table, None, 0, 4), Some(TrainingPackage::RecklessAbandon));
    assert_eq!(pick_package(&mob, 2, &table, None, 0, 5), None);
    // With one year left only one package fits.
    assert_eq!(pick_package(&mob, 1, &table, None, 0, 0), Some(TrainingPackage::RecklessAbandon));
    assert_eq!(pick_package(&mob, 0, &table, None, 0, 0), None);
    // Class 1: only packages related to the prior count.
    let prior = Some(TrainingPackage::Gatherer);
    assert_eq!(pick_package(&mob, 2, &table, prior, 1, 1), Some(TrainingPackage::Gatherer));
    assert_eq!(pick_package(&mob, 2, &table, prior, 1, 0), Some(TrainingPackage::Assistant));
    assert_eq!(count_packages(&mob, 2, &table, prior, 0), 4);
    assert_eq!(count_packages(&mob, 2, &table, prior, 1), 1);
    assert_eq!(count_packages(&mob, 1, &table, prior, 0), 1);
    assert_eq!(count_packages(&mob, 3, &pre_onset(), None, 0), 16);
    assert_eq!(count_packages(&mob, 3, &pre_onset(), Some(TrainingPackage::Trader), 1), 5);
}

#[test]
fn a_chosen_package_fits_the_years_left() {
    let mob = Mobile::blank(Point { x: 0, y: 0 });
    for seed in 0..40 {
        let mut rng = seeded(seed);
        let p = choose_package(&mut rng, &mob, 1, &pre_onset(), Some(TrainingPackage::Farmer));
        assert_eq!(p.years(), 1);
        assert!(p != TrainingPackage::Negotiation);
        let q = choose_package(&mut rng, &mob, 3, &post_onset(), None);
        assert!(post_onset().contains(&q));
    }
}

#[test]
fn random_training_fills_the_years_exactly() {
    for seed in 0..30 {
        let mut rng = seeded(seed);
        let mut mob = Mobile::blank(Point { x: 0, y: 0 });
        let mut history = vec![mob.train_childhood(&Childhood::Athletic)];
        let last = random_train(&mut rng, &mut mob, &mut history, 8, &youth(), None);
        assert_eq!(mob.age, 13);
        assert!(last.is_some());
        assert_eq!(history.last(), Some(&(13, LifeEvent::Learned { package: last.unwrap() })));
        assert!(sorted(&history));
        let none = random_train(&mut rng, &mut mob, &mut history, 0, &youth(), last);
        assert_eq!(none, None);
        assert_eq!(mob.age, 13);
    }
}

#[test]
fn generated_mobs_have_the_age_asked_for() {
    for seed in 0..30 {
        let mut rng = seeded(seed);
        for age in [5, 6, 12, 13, 14, 20, 21, 47] {
            let (mob, history) = gen(&mut rng, age, false);
            assert_eq!(mob.age, age);
            assert_eq!(mob.onset_age, None);
            assert_eq!(history[0], (0, LifeEvent::Born));
            assert_eq!(history[1].0, 5);
            assert!(sorted(&history));
            assert_eq!(history.last().unwrap().0, age);
            let (hero, saga) = gen(&mut rng, age, true);
            assert_eq!(hero.age, age);
            assert!(hero.is_brave);
            assert!(hero.profession_adventurer >= 5);
            assert!(saga.contains(&(hero.onset_age.unwrap_or(age), LifeEvent::Onset)));
            match hero.onset_age {
                Some(onset) => assert!(MIN_ONSET <= onset && onset < age),
                None => assert!(age <= MIN_ONSET),
            }
            assert!(sorted(&saga));
        }
    }
}

#[test]
fn generated_children_are_children() {
    for seed in 0..30 {
        let mut rng = seeded(seed);
        let (child, history) = Mobile::gen_child(&mut rng);
        assert!(MIN_AGE <= child.age && child.age < ADULT_AGE);
        assert_eq!(child.onset_age, None);
        assert_eq!(history[0], (0, LifeEvent::Born));
        assert_eq!(child.competence_sword, 0);
        assert_eq!(child.profession_farmer, 0);
    }
    assert_eq!(childhoods(), vec![Childhood::Athletic, Childhood::Mischievous, Childhood::Outdoor]);
}

#[test]
fn adventurers_are_at_least_twenty() {
    for seed in 0..20 {
        let mut rng = seeded(seed);
        let (fresh, _) = Mobile::gen_adventurer(&mut rng, 0);
        assert_eq!(fresh.age, 20);
        assert_eq!(fresh.onset_age, None);
        assert_eq!(fresh.profession_adventurer, 5);
        let (hero, saga) = Mobile::gen_adventurer(&mut rng, 7);
        assert_eq!(hero.age, 27);
        assert!(hero.is_brave);
        let onset = hero.onset_age.unwrap();
        assert!(20 <= onset && onset < 27);
        assert!(saga.contains(&(onset, LifeEvent::Onset)));
        assert!(sorted(&saga));
    }
}

#[test]
fn adults_are_at_least_thirteen() {
    for seed in 0..20 {
        let mut rng = seeded(seed);
        assert_eq!(Mobile::gen_adult(&mut rng, 0).0.age, 13);
        assert_eq!(Mobile::gen_adult(&mut rng, 12).0.age, 13);
        assert_eq!(Mobile::gen_adult(&mut rng, 13).0.age, 13);
        let (adult, history) = Mobile::gen_adult(&mut rng, 31);
        assert_eq!(adult.age, 31);
        assert_eq!(adult.onset_age, None);
        assert_eq!(adult.profession_adventurer, 0);
        assert!(sorted(&history));
        assert_eq!(history.last().unwrap().0, 31);
    }
}

#[test]
fn the_generator_decides_the_life() {
    let (a, life_a) = gen(&mut seeded(1), 40, true);
    let (b, life_b) = gen(&mut seeded(1), 40, true);
    assert_eq!(a, b);
    assert_eq!(life_a, life_b);
    // Other seeds give other lives.
    let mut lives = Vec::new();
    for seed in 0..20 {
        let (_, life) = gen(&mut seeded(seed), 40, true);
        if !lives.contains(&life) {
            lives.push(life);
        }
    }
    assert!(lives.len() > 1);
    // One mob in five is avaricious: neither all of them nor none.
    let mut avaricious = 0;
    for seed in 0..60 {
        if gen(&mut seeded(seed), 5, false).0.is_avaricious {
            avaricious += 1;
        }
    }
    assert!(0 < avaricious && avaricious < 60);
}
