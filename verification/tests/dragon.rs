use dragon_battle::Error;
use dragon_battle::battle::Battle;
use dragon_battle::dragon::{
    Constitution, Dragon, Element, Ratio, Skill, SkillKind, random_cooldown, random_powerup,
};

fn s(x: &str) -> String {
    String::from(x)
}

fn attack_skill(element: Element, num: u32, denom: u32) -> Skill {
    Skill { element, kind: SkillKind::Attack, powerup_ratio: Ratio::new(num, denom), cooldown: 0 }
}

fn buff_skill(element: Element, num: u32, denom: u32) -> Skill {
    Skill { element, kind: SkillKind::Buff, powerup_ratio: Ratio::new(num, denom), cooldown: 0 }
}

fn dragon_with(owner: &str, skills: Vec<Skill>, constitution: Constitution) -> Dragon {
    Dragon {
        owner_id: s(owner),
        generation: 0,
        level: 0,
        exp: 0,
        element: Element::Physical,
        skills,
        constitution,
    }
}

#[test]
fn powerup_ratio_boundaries() {
    assert_eq!(random_powerup(0), Ratio::new(1, 1));
    assert_eq!(random_powerup(99), Ratio::new(1, 1));
    assert_eq!(random_powerup(100), Ratio::new(5, 4));
    assert_eq!(random_powerup(174), Ratio::new(5, 4));
    assert_eq!(random_powerup(175), Ratio::new(3, 2));
    assert_eq!(random_powerup(224), Ratio::new(3, 2));
    assert_eq!(random_powerup(225), Ratio::new(2, 1));
    assert_eq!(random_powerup(250), Ratio::new(2, 1));
    assert_eq!(random_powerup(251), Ratio::new(5, 1));
    assert_eq!(random_powerup(255), Ratio::new(5, 1));
}

#[test]
fn cooldown_boundaries() {
    assert_eq!(random_cooldown(0), 3);
    assert_eq!(random_cooldown(99), 3);
    assert_eq!(random_cooldown(100), 2);
    assert_eq!(random_cooldown(200), 2);
    assert_eq!(random_cooldown(201), 1);
    assert_eq!(random_cooldown(255), 1);
}

#[test]
fn skill_roll_uses_one_byte_for_everything() {
    // even byte: attack; the same byte picks ratio and cooldown
    let sk = Skill::random(120);
    assert_eq!(sk.kind, SkillKind::Attack);
    assert_eq!(sk.powerup_ratio, Ratio::new(5, 4));
    assert_eq!(sk.cooldown, 2);
    assert_eq!(sk.element, Element::Physical);
    // odd byte: buff
    let sk = Skill::random(251);
    assert_eq!(sk.kind, SkillKind::Buff);
    assert_eq!(sk.powerup_ratio, Ratio::new(5, 1));
    assert_eq!(sk.cooldown, 1);
}

#[test]
fn starter_skill_is_neutral() {
    let sk = Skill::physical();
    assert_eq!(sk.element, Element::Physical);
    assert_eq!(sk.kind, SkillKind::Attack);
    assert_eq!(sk.powerup_ratio, Ratio::new(1, 1));
    assert_eq!(sk.cooldown, 0);
}

#[test]
fn uplevel_needs_level_times_thousand() {
    // at level 1 the threshold is 1000
    let mut d = Dragon::random(&s("alice"), 0);
    d.level = 1;
    d.exp = 999;
    assert_eq!(d.uplevel(42).unwrap_err(), Error::InsufficientProgress);
    assert_eq!(d.level, 1);
    assert_eq!(d.exp, 999);
    assert_eq!(d.skills.len(), 1);
    d.exp = 1000;
    d.uplevel(42).unwrap();
    assert_eq!(d.level, 2);
    assert_eq!(d.exp, 0);
    assert_eq!(d.skills.len(), 2);
    assert_eq!(d.skills[1], Skill::random(42));
}

#[test]
fn uplevel_at_level_zero_is_free() {
    // the threshold formula is level * 1000, so a level-0 creature levels
    // up at any experience, spending nothing
    let mut d = Dragon::random(&s("alice"), 0);
    d.exp = 999;
    d.uplevel(0).unwrap();
    assert_eq!(d.level, 1);
    assert_eq!(d.exp, 999);
    assert_eq!(d.skills.len(), 2);
}

#[test]
fn attack_skill_damage_formula() {
    // effective attack = floor(10 * 3 / 2) = 15; damage = 15 - 4 = 11
    let d = dragon_with(
        "alice",
        vec![attack_skill(Element::Fire, 3, 2)],
        Constitution { max_hp: 30, attack: [0, 10, 0, 0, 0], defense: [0, 0, 0, 0, 0] },
    );
    let mut mine = d.constitution;
    let mut theirs = Constitution { max_hp: 20, attack: [1; 5], defense: [0, 4, 0, 0, 0] };
    d.apply_skill(&mut mine, &mut theirs, 0).unwrap();
    assert_eq!(theirs.max_hp, 9);
    assert_eq!(mine, d.constitution);
    // damage is floored at 1 when defense dominates
    let mut theirs = Constitution { max_hp: 20, attack: [1; 5], defense: [0, 400, 0, 0, 0] };
    d.apply_skill(&mut mine, &mut theirs, 0).unwrap();
    assert_eq!(theirs.max_hp, 19);
    // and never exceeds the remaining hit points
    let mut theirs = Constitution { max_hp: 3, attack: [1; 5], defense: [0, 4, 0, 0, 0] };
    d.apply_skill(&mut mine, &mut theirs, 0).unwrap();
    assert_eq!(theirs.max_hp, 0);
}

#[test]
fn buff_skill_rescales_own_defense() {
    let d = dragon_with(
        "alice",
        vec![buff_skill(Element::Water, 5, 4)],
        Constitution { max_hp: 30, attack: [1; 5], defense: [0, 0, 7, 0, 0] },
    );
    let mut mine = d.constitution;
    let mut theirs = Constitution { max_hp: 20, attack: [1; 5], defense: [1; 5] };
    d.apply_skill(&mut mine, &mut theirs, 0).unwrap();
    // floor(7 * 5 / 4) = 8, in place on the water channel
    assert_eq!(mine.defense, [0, 0, 8, 0, 0]);
    assert_eq!(theirs.max_hp, 20);
}

#[test]
fn apply_skill_rejects_unknown_index() {
    let d = Dragon::random(&s("alice"), 0);
    let mut mine = d.constitution;
    let mut theirs = d.constitution;
    assert_eq!(d.apply_skill(&mut mine, &mut theirs, 1).unwrap_err(), Error::NotFound);
    assert_eq!(mine, d.constitution);
    assert_eq!(theirs, d.constitution);
}

fn fixed_battle() -> (Battle, Dragon, Dragon) {
    let da = dragon_with(
        "alice",
        vec![attack_skill(Element::Physical, 2, 1), buff_skill(Element::Physical, 3, 2)],
        Constitution { max_hp: 40, attack: [6, 1, 1, 1, 1], defense: [3, 1, 1, 1, 1] },
    );
    let db = dragon_with(
        "bob",
        vec![attack_skill(Element::Physical, 5, 4)],
        Constitution { max_hp: 35, attack: [9, 1, 1, 1, 1], defense: [2, 1, 1, 1, 1] },
    );
    let b = Battle {
        start_timestamp: 0,
        dragon_a: 0,
        dragon_b: 1,
        hash_actions_a: None,
        hash_actions_b: None,
        actions_a: Some(vec![0, 1, 0]),
        actions_b: Some(vec![0, 0]),
    };
    (b, da, db)
}

#[test]
fn resolver_is_deterministic() {
    // the same stats, skill lists, and revealed actions give bit-identical
    // results, run after run
    let (b, da, db) = fixed_battle();
    let (ca1, cb1) = b.run(&da, &db).unwrap();
    let (ca2, cb2) = b.run(&da, &db).unwrap();
    assert_eq!(ca1, ca2);
    assert_eq!(cb1, cb2);
}

#[test]
fn resolver_round_by_round() {
    // rounds = max(3, 2); A reads [0, 1, 0] cyclically, B reads [0, 0]
    // round 1: A attacks: 6*2 - 2 = 10, B hp 35 -> 25; B attacks: floor(9*5/4)=11, 11-3=8, A hp 40 -> 32
    // round 2: A buffs defense 3 -> 4; B attacks: 11-4=7, A hp 32 -> 25
    // round 3: A attacks: B hp 25 -> 15; B attacks: A hp 25 -> 18
    let (b, da, db) = fixed_battle();
    let (ca, cb) = b.run(&da, &db).unwrap();
    assert_eq!(cb.max_hp, 15);
    assert_eq!(ca.max_hp, 18);
    assert_eq!(ca.defense, [4, 1, 1, 1, 1]);
    assert_eq!(cb.defense, [2, 1, 1, 1, 1]);
    assert_eq!(ca.attack, da.constitution.attack);
    assert_eq!(cb.attack, db.constitution.attack);
}

#[test]
fn resolver_defaults_unrevealed_sides() {
    let (mut b, da, db) = fixed_battle();
    b.actions_a = None;
    b.actions_b = Some(vec![]);
    // both sides fall back to the single neutral action [0]: one round
    let (ca, cb) = b.run(&da, &db).unwrap();
    assert_eq!(cb.max_hp, 25);
    assert_eq!(ca.max_hp, 32);
}

#[test]
fn resolver_rejects_bad_skill_index() {
    let (mut b, da, db) = fixed_battle();
    b.actions_b = Some(vec![0, 2]);
    assert_eq!(b.run(&da, &db).unwrap_err(), Error::NotFound);
}
