use vstd::prelude::*;
use std::collections::HashMap;

verus! {

broadcast use vstd::std_specs::hash::group_hash_axioms;

/// A skill a character can train.
#[derive(Clone, Copy, PartialEq, Eq, Structural, Hash, Debug)]
pub enum Skill {
    Dodge,
    Melee,
    Ranged,
    MountainSurvival,
    ForestSurvival,
    FireMagic,
    IceMagic,
    Farming,
    Axe,
    Spear,
    Sword,
    Mining,
    Sentinel,
}

/// The position of a skill in the list of skills.
pub open spec fn skill_index(s: Skill) -> u32 {
    match s {
        Skill::Dodge => 0,
        Skill::Melee => 1,
        Skill::Ranged => 2,
        Skill::MountainSurvival => 3,
        Skill::ForestSurvival => 4,
        Skill::FireMagic => 5,
        Skill::IceMagic => 6,
        Skill::Farming => 7,
        Skill::Axe => 8,
        Skill::Spear => 9,
        Skill::Sword => 10,
        Skill::Mining => 11,
        Skill::Sentinel => 12,
    }
}

/// The display name of a skill.
pub open spec fn skill_name(s: Skill) -> Seq<char> {
    match s {
        Skill::Dodge => "Dodge"@,
        Skill::Melee => "Melee"@,
        Skill::Ranged => "Ranged"@,
        Skill::MountainSurvival => "Mountain Survival"@,
        Skill::ForestSurvival => "Forest Survival"@,
        Skill::FireMagic => "Fire Magic"@,
        Skill::IceMagic => "Ice Magic"@,
        Skill::Farming => "Farming"@,
        Skill::Axe => "Axe"@,
        Skill::Spear => "Spear"@,
        Skill::Sword => "Sword"@,
        Skill::Mining => "Mining"@,
        Skill::Sentinel => "Sentinel"@,
    }
}

impl Skill {
    /// The position of this skill in the list of skills.
    pub fn index(&self) -> (i: u32)
        ensures
            i == skill_index(*self),
    {
        match self {
            Skill::Dodge => 0,
            Skill::Melee => 1,
            Skill::Ranged => 2,
            Skill::MountainSurvival => 3,
            Skill::ForestSurvival => 4,
            Skill::FireMagic => 5,
            Skill::IceMagic => 6,
            Skill::Farming => 7,
            Skill::Axe => 8,
            Skill::Spear => 9,
            Skill::Sword => 10,
            Skill::Mining => 11,
            Skill::Sentinel => 12,
        }
    }

    /// The display name of this skill.
    pub fn name(&self) -> (r: &'static str)
        ensures
            r@ == skill_name(*self),
    {
        match self {
            Skill::Dodge => "Dodge",
            Skill::Melee => "Melee",
            Skill::Ranged => "Ranged",
            Skill::MountainSurvival => "Mountain Survival",
            Skill::ForestSurvival => "Forest Survival",
            Skill::FireMagic => "Fire Magic",
            Skill::IceMagic => "Ice Magic",
            Skill::Farming => "Farming",
            Skill::Axe => "Axe",
            Skill::Spear => "Spear",
            Skill::Sword => "Sword",
            Skill::Mining => "Mining",
            Skill::Sentinel => "Sentinel",
        }
    }

    /// The skill's name as an activity; the same as its display name.
    pub fn to_string_infinitive(&self) -> (r: &'static str)
        ensures
            r@ == skill_name(*self),
    {
        self.name()
    }
}

impl Default for Skill {
    /// The placeholder skill.
    fn default() -> (s: Skill)
        ensures
            s == Skill::Sentinel,
    {
        Skill::Sentinel
    }
}

/// Different skills have different positions.
pub proof fn lemma_skill_index_injective(a: Skill, b: Skill)
    ensures
        skill_index(a) == skill_index(b) ==> a == b,
{
}

/// A character's skill bonuses and experience, keyed by each skill's position.
#[derive(Debug)]
pub struct SkillData {
    pub skill_bonuses: HashMap<u32, i32>,
    pub skill_xp: HashMap<u32, i32>,
}

impl SkillData {
    /// No bonuses and no experience.
    pub fn new() -> (d: SkillData)
        ensures
            d.skill_bonuses@ == Map::<u32, i32>::empty(),
            d.skill_xp@ == Map::<u32, i32>::empty(),
    {
        SkillData { skill_bonuses: HashMap::new(), skill_xp: HashMap::new() }
    }

    /// The experience gathered in `skill`; none gathered counts as zero.
    pub fn cur_skill_xp(&self, skill: Skill) -> (x: i32)
        ensures
            self.skill_xp@.contains_key(skill_index(skill)) ==> x == self.skill_xp@[skill_index(skill)],
            !self.skill_xp@.contains_key(skill_index(skill)) ==> x == 0,
    {
        match self.skill_xp.get(&skill.index()) {
            Some(x) => *x,
            None => 0,
        }
    }
}

impl Default for SkillData {
    /// No bonuses and no experience.
    fn default() -> (d: SkillData)
        ensures
            d.skill_bonuses@ == Map::<u32, i32>::empty(),
            d.skill_xp@ == Map::<u32, i32>::empty(),
    {
        SkillData::new()
    }
}

} // verus!
