//! Creature records: elemental skills, randomized minting, leveling, and the
//! atomic combat-application primitive used by battle resolution.
//!
//! All combat scaling is exact integer arithmetic on unreduced ratios; there
//! is no floating point anywhere, so outcomes are bit-identical across hosts.

use vstd::prelude::*;

use crate::Error;

verus! {

/// One elemental channel. A creature carries one attack and one defense
/// value per channel.
#[derive(Clone, Copy, PartialEq, Eq, Debug)]
pub enum Element {
    Physical,
    Fire,
    Water,
    Air,
    Earth,
}

impl Element {
    /// Position of this channel inside the five-slot attack/defense arrays.
    pub open spec fn channel_id(self) -> int {
        match self {
            Element::Physical => 0,
            Element::Fire => 1,
            Element::Water => 2,
            Element::Air => 3,
            Element::Earth => 4,
        }
    }

    /// Index of this channel into the five-slot stat arrays.
    pub fn channel(&self) -> (r: usize)
        ensures
            r == self.channel_id(),
            r < 5,
    {
        match self {
            Element::Physical => 0,
            Element::Fire => 1,
            Element::Water => 2,
            Element::Air => 3,
            Element::Earth => 4,
        }
    }

    /// The affinity draw for a minted creature; currently every creature
    /// comes out physical.
    pub fn random() -> (r: Element)
        ensures
            r == Element::Physical,
    {
        Element::Physical
    }
}

/// An exact power multiplier, kept as an unreduced numerator/denominator
/// pair; scaling truncates toward zero.
#[derive(Clone, Copy, PartialEq, Eq, Debug)]
pub struct Ratio {
    pub num: u32,
    pub denom: u32,
}

impl Ratio {
    pub fn new(num: u32, denom: u32) -> (r: Ratio)
        ensures
            r == (Ratio { num, denom }),
    {
        Ratio { num, denom }
    }
}

#[derive(Clone, Copy, PartialEq, Eq, Debug)]
pub enum SkillKind {
    Attack,
    Buff,
}

/// A learned action: an elemental channel, a kind, a power ratio, and a
/// cooldown tier (stored but not consulted during resolution).
#[derive(Clone, Copy, PartialEq, Eq, Debug)]
pub struct Skill {
    pub element: Element,
    pub kind: SkillKind,
    pub powerup_ratio: Ratio,
    pub cooldown: u32,
}

/// A skill is usable only if its ratio has a nonzero denominator.
pub open spec fn skill_wf(s: Skill) -> bool {
    s.powerup_ratio.denom >= 1
}

pub open spec fn skills_wf(s: Seq<Skill>) -> bool {
    forall|i: int| 0 <= i < s.len() ==> skill_wf(#[trigger] s[i])
}

/// Power ratio drawn from one entropy byte.
pub open spec fn spec_powerup(entropy: u8) -> Ratio {
    if entropy <= 99 {
        Ratio { num: 1, denom: 1 }
    } else if entropy <= 174 {
        Ratio { num: 5, denom: 4 }
    } else if entropy <= 224 {
        Ratio { num: 3, denom: 2 }
    } else if entropy <= 250 {
        Ratio { num: 2, denom: 1 }
    } else {
        Ratio { num: 5, denom: 1 }
    }
}

pub fn random_powerup(entropy: u8) -> (r: Ratio)
    ensures
        r == spec_powerup(entropy),
{
    match entropy {
        0..=99 => Ratio::new(1, 1),
        100..=174 => Ratio::new(5, 4),
        175..=224 => Ratio::new(3, 2),
        225..=250 => Ratio::new(2, 1),
        _ => Ratio::new(5, 1),
    }
}

/// Cooldown tier drawn from one entropy byte.
pub open spec fn spec_cooldown(entropy: u8) -> u32 {
    if entropy <= 99 {
        3
    } else if entropy <= 200 {
        2
    } else {
        1
    }
}

pub fn random_cooldown(entropy: u8) -> (r: u32)
    ensures
        r == spec_cooldown(entropy),
{
    match entropy {
        0..=99 => 3,
        100..=200 => 2,
        _ => 1,
    }
}

/// The starter skill every minted creature begins with.
pub open spec fn spec_physical_skill() -> Skill {
    Skill {
        element: Element::Physical,
        kind: SkillKind::Attack,
        powerup_ratio: Ratio { num: 1, denom: 1 },
        cooldown: 0,
    }
}

/// The skill rolled from one entropy byte: the same byte drives kind
/// (parity), power ratio, and cooldown tier through overlapping ranges.
pub open spec fn spec_random_skill(entropy: u8) -> Skill {
    Skill {
        element: Element::Physical,
        kind: if entropy % 2 == 0 {
            SkillKind::Attack
        } else {
            SkillKind::Buff
        },
        powerup_ratio: spec_powerup(entropy),
        cooldown: spec_cooldown(entropy),
    }
}

impl Skill {
    pub fn physical() -> (r: Skill)
        ensures
            r == spec_physical_skill(),
            skill_wf(r),
    {
        Skill {
            element: Element::Physical,
            kind: SkillKind::Attack,
            powerup_ratio: Ratio::new(1, 1),
            cooldown: 0,
        }
    }

    pub fn random(entropy: u8) -> (r: Skill)
        ensures
            r == spec_random_skill(entropy),
            skill_wf(r),
    {
        Skill {
            element: Element::random(),
            kind: if entropy % 2 == 0 {
                SkillKind::Attack
            } else {
                SkillKind::Buff
            },
            powerup_ratio: random_powerup(entropy),
            cooldown: random_cooldown(entropy),
        }
    }
}

/// Combat stats: maximum hit points plus one attack and one defense value
/// per elemental channel.
#[derive(Clone, Copy, PartialEq, Eq, Debug)]
pub struct Constitution {
    pub max_hp: u32,
    pub attack: [u32; 5],
    pub defense: [u32; 5],
}

/// Mathematical model of a [`Constitution`]: the stat arrays as sequences.
#[verifier::ext_equal]
pub ghost struct ConsView {
    pub max_hp: u32,
    pub attack: Seq<u32>,
    pub defense: Seq<u32>,
}

impl View for Constitution {
    type V = ConsView;

    open spec fn view(&self) -> ConsView {
        ConsView { max_hp: self.max_hp, attack: self.attack@, defense: self.defense@ }
    }
}

/// Returns `a` with slot `i` replaced by `v`.
pub fn set5(a: [u32; 5], i: usize, v: u32) -> (r: [u32; 5])
    requires
        i < 5,
    ensures
        r@ == a@.update(i as int, v),
{
    let r = match i {
        0 => [v, a[1], a[2], a[3], a[4]],
        1 => [a[0], v, a[2], a[3], a[4]],
        2 => [a[0], a[1], v, a[3], a[4]],
        3 => [a[0], a[1], a[2], v, a[4]],
        _ => [a[0], a[1], a[2], a[3], v],
    };
    proof {
        assert(r@ =~= a@.update(i as int, v));
    }
    r
}

/// A persistent creature: owner identity, progression counters, learned
/// skills in acquisition order (the index is the in-battle skill id), and
/// combat stats.
#[derive(Debug)]
pub struct Dragon {
    pub owner_id: String,
    pub generation: u8,
    pub level: u8,
    pub exp: u32,
    pub element: Element,
    pub skills: Vec<Skill>,
    pub constitution: Constitution,
}

/// Every skill a creature carries has a usable (nonzero-denominator) ratio.
pub open spec fn dragon_wf(d: Dragon) -> bool {
    skills_wf(d.skills@)
}

/// The versioned on-store shape of a creature record; readers always unwrap
/// to the current in-memory shape.
#[derive(Debug)]
pub enum VDragon {
    V1(Dragon),
}

impl VDragon {
    pub open spec fn value(self) -> Dragon {
        match self {
            VDragon::V1(d) => d,
        }
    }
}

impl From<VDragon> for Dragon {
    fn from(c: VDragon) -> (r: Dragon)
        ensures
            r == c.value(),
    {
        match c {
            VDragon::V1(c) => c,
        }
    }
}

impl vstd::std_specs::convert::FromSpecImpl<VDragon> for Dragon {
    open spec fn obeys_from_spec() -> bool {
        true
    }

    open spec fn from_spec(c: VDragon) -> Dragon {
        c.value()
    }
}

/// What one application of the skill at `skill_id` does to the actor's and
/// the opponent's stats. An attack deals
/// `max(1, floor(attack[e] * num / denom) - defense[e])` damage, never more
/// than the opponent's remaining hit points; a buff rescales the actor's own
/// defense on the skill's channel, saturating at `u32::MAX`.
pub open spec fn spec_apply_skill(
    skills: Seq<Skill>,
    actor: ConsView,
    other: ConsView,
    skill_id: u8,
) -> (ConsView, ConsView)
    recommends
        skill_id < skills.len(),
{
    let skill = skills[skill_id as int];
    let e = skill.element.channel_id();
    match skill.kind {
        SkillKind::Attack => {
            let eff = (actor.attack[e] as int) * (skill.powerup_ratio.num as int) / (
            skill.powerup_ratio.denom as int);
            let def = other.defense[e] as int;
            let dmg = if eff > def {
                eff - def
            } else {
                1
            };
            let loss = if dmg > other.max_hp {
                other.max_hp as int
            } else {
                dmg
            };
            (actor, ConsView { max_hp: (other.max_hp - loss) as u32, ..other })
        },
        SkillKind::Buff => {
            let scaled = (actor.defense[e] as int) * (skill.powerup_ratio.num as int) / (
            skill.powerup_ratio.denom as int);
            let capped = if scaled > u32::MAX {
                u32::MAX as int
            } else {
                scaled
            };
            (ConsView { defense: actor.defense.update(e, capped as u32), ..actor }, other)
        },
    }
}

impl Dragon {
    /// Mint a fresh generation-0 creature for `account_id` from one entropy
    /// byte: one starter attack skill, base stats of 1 on every channel, and
    /// `10 + entropy % 10` maximum hit points.
    pub fn random(account_id: &String, entropy: u8) -> (d: Dragon)
        ensures
            dragon_wf(d),
            d.owner_id == *account_id,
            d.generation == 0,
            d.level == 0,
            d.exp == 0,
            d.element == Element::Physical,
            d.skills@ == seq![spec_physical_skill()],
            d.constitution@.max_hp == 10 + (entropy as int % 10),
            d.constitution@.attack == seq![1u32, 1u32, 1u32, 1u32, 1u32],
            d.constitution@.defense == seq![1u32, 1u32, 1u32, 1u32, 1u32],
    {
        let mut skills: Vec<Skill> = Vec::new();
        skills.push(Skill::physical());
        let d = Dragon {
            owner_id: account_id.clone(),
            generation: 0,
            level: 0,
            exp: 0,
            element: Element::random(),
            skills,
            constitution: Constitution {
                max_hp: (entropy % 10) as u32 + 10,
                attack: [1, 1, 1, 1, 1],
                defense: [1, 1, 1, 1, 1],
            },
        };
        proof {
            assert(d.skills@ =~= seq![spec_physical_skill()]);
            assert(d.constitution@.attack =~= seq![1u32, 1u32, 1u32, 1u32, 1u32]);
            assert(d.constitution@.defense =~= seq![1u32, 1u32, 1u32, 1u32, 1u32]);
        }
        d
    }

    /// Spend `level * 1000` experience to gain a level and roll one new
    /// skill from the entropy byte; fails `InsufficientProgress` (changing
    /// nothing) when the accumulated experience is short.
    pub fn uplevel(&mut self, entropy: u8) -> (r: Result<(), Error>)
        requires
            old(self).exp >= old(self).level as int * 1000 ==> old(self).level < 255,
        ensures
            r is Ok <==> old(self).exp >= old(self).level as int * 1000,
            r is Ok ==> final(self).level == old(self).level + 1
                && final(self).exp == old(self).exp - old(self).level as int * 1000
                && final(self).skills@ == old(self).skills@.push(spec_random_skill(entropy))
                && final(self).owner_id == old(self).owner_id
                && final(self).generation == old(self).generation
                && final(self).element == old(self).element
                && final(self).constitution == old(self).constitution,
            r is Err ==> r == Err::<(), Error>(Error::InsufficientProgress)
                && *final(self) == *old(self),
            dragon_wf(*old(self)) ==> dragon_wf(*final(self)),
    {
        let cost: u32 = (self.level as u32) * 1000;
        if self.exp < cost {
            return Err(Error::InsufficientProgress);
        }
        self.exp = self.exp - cost;
        self.level = self.level + 1;
        self.skills.push(Skill::random(entropy));
        Ok(())
    }

    /// Apply the actor's skill at `skill_id` to the pair of mutable stat
    /// views, per [`spec_apply_skill`]; fails `NotFound` (changing nothing)
    /// when `skill_id` is outside the actor's skill list.
    pub fn apply_skill(
        &self,
        constitution: &mut Constitution,
        other_constitution: &mut Constitution,
        skill_id: u8,
    ) -> (r: Result<(), Error>)
        requires
            skills_wf(self.skills@),
        ensures
            r is Ok <==> skill_id < self.skills@.len(),
            r is Ok ==> ({
                let (a, o) = spec_apply_skill(
                    self.skills@,
                    old(constitution)@,
                    old(other_constitution)@,
                    skill_id,
                );
                final(constitution)@ == a && final(other_constitution)@ == o
            }),
            r is Err ==> r == Err::<(), Error>(Error::NotFound)
                && *final(constitution) == *old(constitution)
                && *final(other_constitution) == *old(other_constitution),
    {
        if (skill_id as usize) >= self.skills.len() {
            return Err(Error::NotFound);
        }
        let skill = self.skills[skill_id as usize];
        let e = skill.element.channel();
        let n = skill.powerup_ratio.num;
        let d = skill.powerup_ratio.denom;
        match skill.kind {
            SkillKind::Attack => {
                let a = constitution.attack[e];
                proof {
                    assert((a as int) * (n as int) < 0x10000000000000000int) by (nonlinear_arith)
                        requires
                            a as int <= 0xFFFFFFFFint,
                            n as int <= 0xFFFFFFFFint,
                    ;
                }
                let eff: u64 = (a as u64) * (n as u64) / (d as u64);
                let def: u64 = other_constitution.defense[e] as u64;
                let dmg: u64 = if eff > def {
                    eff - def
                } else {
                    1
                };
                let hp: u64 = other_constitution.max_hp as u64;
                let loss: u64 = if dmg > hp {
                    hp
                } else {
                    dmg
                };
                other_constitution.max_hp = (hp - loss) as u32;
                proof {
                    let (sa, so) = spec_apply_skill(
                        self.skills@,
                        old(constitution)@,
                        old(other_constitution)@,
                        skill_id,
                    );
                    assert(final(constitution)@ =~= sa);
                    assert(final(other_constitution)@ =~= so);
                }
            },
            SkillKind::Buff => {
                let cur = constitution.defense[e];
                proof {
                    assert((cur as int) * (n as int) < 0x10000000000000000int) by (nonlinear_arith)
                        requires
                            cur as int <= 0xFFFFFFFFint,
                            n as int <= 0xFFFFFFFFint,
                    ;
                }
                let scaled: u64 = (cur as u64) * (n as u64) / (d as u64);
                let capped: u32 = if scaled > (u32::MAX as u64) {
                    u32::MAX
                } else {
                    scaled as u32
                };
                constitution.defense = set5(constitution.defense, e, capped);
                proof {
                    let (sa, so) = spec_apply_skill(
                        self.skills@,
                        old(constitution)@,
                        old(other_constitution)@,
                        skill_id,
                    );
                    assert(final(constitution)@ =~= sa);
                    assert(final(other_constitution)@ =~= so);
                }
            },
        }
        Ok(())
    }
}

} // verus!
