use samvival::attributes::{
    all_attributes, attribute_with_name, AttributeData, AttributeType, AttributeValue, Combination, ValueType,
};
use samvival::item::{Worth, WorthData, MAX_WORTH};
use samvival::skill::{Skill, SkillData};
use samvival::tactics::{ai_actors, can_strike, closest_enemy, Contender, FactionMember, harvestable_hexes, plan_engagement, plan_move_and_attack_click, ClickPlan, Engagement, HoveredHex, AxialCoord, choose_harvestable, turn_outcome, CharacterStatus, Combatant, HarvestOption, HarvestPreferences, Selection};
use samvival::taxonomy::Taxonomy;

#[test]
fn worth_levels() {
    assert_eq!(Worth::worthless(0), Worth(10));
    assert_eq!(Worth::low(3), Worth(23));
    assert_eq!(Worth::medium(-5), Worth(25));
    assert_eq!(Worth::high(0), Worth(40));
    assert_eq!(Worth::very_high(10), Worth(60));
    assert!(Worth::low(0) < Worth::medium(0));
    assert!(Worth::worthless(9) < Worth::low(0));
    assert_eq!(WorthData::default().base_worth, Worth(10));
    assert_eq!(WorthData::new(Worth::high(1)).base_worth, Worth(41));
    assert_eq!(MAX_WORTH, 100);
}

#[test]
fn skill_names() {
    assert_eq!(Skill::Dodge.name(), "Dodge");
    assert_eq!(Skill::MountainSurvival.name(), "Mountain Survival");
    assert_eq!(Skill::FireMagic.to_string_infinitive(), "Fire Magic");
    assert_eq!(Skill::default(), Skill::Sentinel);
    assert_eq!(Skill::Sentinel.index(), 12);
    assert_eq!(Skill::Melee.index(), 1);
}

#[test]
fn skill_experience() {
    let mut d = SkillData::new();
    assert_eq!(d.cur_skill_xp(Skill::Axe), 0);
    d.skill_xp.insert(Skill::Axe.index(), 35);
    assert_eq!(d.cur_skill_xp(Skill::Axe), 35);
    assert_eq!(d.cur_skill_xp(Skill::Spear), 0);
}

#[test]
fn attribute_kinds() {
    assert_eq!(all_attributes(), vec![AttributeType::Sentinel, AttributeType::TrainingWeapon]);
    assert_eq!(attribute_with_name("training weapons"), AttributeType::TrainingWeapon);
    assert_eq!(attribute_with_name("default"), AttributeType::Sentinel);
    assert_eq!(attribute_with_name("no such thing"), AttributeType::Sentinel);
    assert_eq!(AttributeType::TrainingWeapon.name(), "training weapons");
    assert_eq!(AttributeType::TrainingWeapon.value_type(), ValueType::BoundedNumeric(None, Some(3)));
    assert_eq!(AttributeType::TrainingWeapon.combination(), Combination::Additive);
    assert_eq!(AttributeType::Sentinel.value_type(), ValueType::Boolean);
    assert!(AttributeType::Sentinel.remove_on_zero());
}

#[test]
fn attribute_sums() {
    // additive, raised to the upper bound of 3
    let a = AttributeValue(AttributeType::TrainingWeapon, 1) + AttributeValue(AttributeType::TrainingWeapon, 1);
    assert_eq!(a, AttributeValue(AttributeType::TrainingWeapon, 3));
    let b = AttributeValue(AttributeType::TrainingWeapon, 4) + AttributeValue(AttributeType::TrainingWeapon, 1);
    assert_eq!(b, AttributeValue(AttributeType::TrainingWeapon, 5));
    let c = AttributeValue(AttributeType::TrainingWeapon, 4) - AttributeValue(AttributeType::TrainingWeapon, 3);
    assert_eq!(c, AttributeValue(AttributeType::TrainingWeapon, 3));
    // replacing, read as a flag
    let d = AttributeValue(AttributeType::Sentinel, 0) + AttributeValue(AttributeType::Sentinel, 7);
    assert_eq!(d, AttributeValue(AttributeType::Sentinel, 1));
    let e = AttributeValue(AttributeType::Sentinel, 1) - AttributeValue(AttributeType::Sentinel, -2);
    assert_eq!(e, AttributeValue(AttributeType::Sentinel, 0));
    // different kinds leave the first as it is
    let f = AttributeValue(AttributeType::Sentinel, 1) + AttributeValue(AttributeType::TrainingWeapon, 9);
    assert_eq!(f, AttributeValue(AttributeType::Sentinel, 1));
    assert_eq!(AttributeValue::default(), AttributeValue(AttributeType::Sentinel, 0));
}

#[test]
fn attribute_data_amounts() {
    let mut d = AttributeData::new();
    assert_eq!(d.value_for(AttributeType::TrainingWeapon), None);
    // a new attribute takes the amount as it is
    d.increase_attribute(AttributeType::TrainingWeapon, 1);
    assert_eq!(d.value_for(AttributeType::TrainingWeapon), Some(1));
    // an existing one combines with it
    d.increase_attribute(AttributeType::TrainingWeapon, 1);
    assert_eq!(d.value_for(AttributeType::TrainingWeapon), Some(3));
    d.decrease_attribute(AttributeType::TrainingWeapon, 1);
    assert_eq!(d.value_for(AttributeType::TrainingWeapon), Some(3));
    d.increase_attribute(AttributeType::TrainingWeapon, 5);
    assert_eq!(d.value_for(AttributeType::TrainingWeapon), Some(8));
    assert_eq!(d.value_for(AttributeType::Sentinel), None);
}

fn ch(entity: u64, ready: bool) -> CharacterStatus {
    CharacterStatus { entity, ready }
}

#[test]
fn selection_moves_on() {
    let chars = vec![ch(1, true), ch(2, true), ch(3, false), ch(4, true)];
    let mut s = Selection::new();
    s.select_next_character(&chars);
    assert_eq!(s.selected, Some(1));
    s.select_next_character(&chars);
    assert_eq!(s.selected, Some(2));
    // a character that cannot act is passed over
    s.select_next_character(&chars);
    assert_eq!(s.selected, Some(4));
    // and the selection wraps around
    s.select_next_character(&chars);
    assert_eq!(s.selected, Some(1));
}

#[test]
fn selection_skips() {
    let chars = vec![ch(1, true), ch(2, true)];
    let mut s = Selection::new();
    s.select_next_character(&chars);
    assert_eq!(s.selected, Some(1));
    s.toggle_skip_selected();
    assert_eq!(s.skipped, vec![1]);
    s.select_next_character(&chars);
    assert_eq!(s.selected, Some(2));
    s.toggle_skip_selected();
    assert_eq!(s.skipped, vec![1, 2]);
    // everyone has been skipped: nobody is selected
    s.select_next_character(&chars);
    assert_eq!(s.selected, None);
}

#[test]
fn selection_unskips() {
    let mut s = Selection { selected: Some(5), skipped: vec![3, 5, 7] };
    s.toggle_skip_selected();
    assert_eq!(s.skipped, vec![3, 7]);
    let mut none = Selection::new();
    none.toggle_skip_selected();
    assert!(none.skipped.is_empty());
}

#[test]
fn selection_when_nobody_can_act() {
    let chars = vec![ch(1, false)];
    let mut s = Selection { selected: Some(1), skipped: Vec::new() };
    s.select_next_character(&chars);
    assert_eq!(s.selected, None);
}

#[test]
fn selection_clicks() {
    let mut s = Selection::new();
    assert!(!s.click_character(3, 10, 10));
    assert_eq!(s.selected, Some(3));
    // another character of the same faction
    assert!(!s.click_character(4, 10, 10));
    assert_eq!(s.selected, Some(4));
    // a character of another faction
    assert!(!s.click_character(9, 20, 10));
    assert_eq!(s.selected, Some(4));
    // the selected one again
    assert!(s.click_character(4, 10, 10));
    assert_eq!(s.selected, None);
}

#[test]
fn battle_outcomes() {
    let ally = Combatant { alive: true, ally: true };
    let enemy = Combatant { alive: true, ally: false };
    let dead_enemy = Combatant { alive: false, ally: false };
    let dead_ally = Combatant { alive: false, ally: true };
    assert_eq!(turn_outcome(&vec![ally, enemy], None, None, 10), (None, None));
    assert_eq!(turn_outcome(&vec![ally, dead_enemy], None, None, 10), (Some(9), None));
    assert_eq!(turn_outcome(&vec![ally, dead_enemy], Some(4), None, 10), (Some(4), None));
    assert_eq!(turn_outcome(&vec![dead_ally, enemy], None, None, 10), (None, Some(9)));
    assert_eq!(turn_outcome(&vec![dead_ally, dead_enemy], None, None, 10), (Some(9), None));
}

#[test]
fn taxonomy_kinds() {
    let mut t = Taxonomy::new();
    let thing = t.create_new_taxon(String::from("thing"), vec![]);
    let weapon = t.create_new_taxon(String::from("weapon"), vec![thing]);
    let tool = t.create_new_taxon(String::from("tool"), vec![thing]);
    let axe = t.create_new_taxon(String::from("axe"), vec![weapon, tool]);
    assert_eq!((thing, weapon, tool, axe), (0, 1, 2, 3));
    assert!(t.is_a(axe, thing));
    assert!(t.is_a(axe, tool));
    assert!(t.is_a(axe, axe));
    assert!(!t.is_a(weapon, tool));
    assert!(!t.is_a(thing, axe));
    // an existing name gives the existing kind, with its own parents
    assert_eq!(t.create_new_taxon(String::from("weapon"), vec![tool]), weapon);
    assert_eq!(t.len(), 4);
    assert_eq!(t.parents(weapon), vec![thing]);
    assert_eq!(t.taxon_by_name(&String::from("tool")), Some(tool));
    assert_eq!(t.taxon_by_name(&String::from("shield")), None);
    assert_eq!(t.name(axe), "axe");
}

fn opt(entity: u64, resource: u64) -> HarvestOption {
    HarvestOption { entity, resource }
}

#[test]
fn harvest_choice() {
    let opts = vec![opt(10, 1), opt(11, 2), opt(12, 2)];
    // nothing preferred: the most desirable
    assert_eq!(choose_harvestable(&opts, None, None), Some(10));
    // the preferred thing is there
    assert_eq!(choose_harvestable(&opts, Some(12), Some(2)), Some(12));
    // the preferred thing is gone, but something yields its resource
    assert_eq!(choose_harvestable(&opts, Some(99), Some(2)), Some(11));
    // neither the thing nor its resource
    assert_eq!(choose_harvestable(&opts, Some(99), Some(7)), Some(10));
    assert_eq!(choose_harvestable(&vec![], Some(10), Some(1)), None);
}

#[test]
fn harvest_preferences_by_number() {
    let opts = vec![opt(10, 1), opt(11, 2)];
    let mut h = HarvestPreferences::new();
    assert_eq!(h.preferred(5), None);
    h.choose_by_number(5, &opts, 2);
    assert_eq!(h.preferred(5), Some(11));
    // numbers without an option change nothing
    h.choose_by_number(5, &opts, 0);
    h.choose_by_number(5, &opts, 3);
    assert_eq!(h.preferred(5), Some(11));
    h.choose_by_number(5, &opts, 1);
    assert_eq!(h.preferred(5), Some(10));
}

#[test]
fn escape_key() {
    let mut s = Selection { selected: Some(3), skipped: vec![] };
    // closing windows is all escape does when windows were open
    assert!(!s.escape_pressed(true));
    assert_eq!(s.selected, Some(3));
    // otherwise it deselects
    assert!(!s.escape_pressed(false));
    assert_eq!(s.selected, None);
    // and with nothing selected it toggles the menu
    assert!(s.escape_pressed(false));
}

#[test]
fn space_key() {
    let chars = vec![ch(1, true), ch(2, true)];
    let mut s = Selection { selected: Some(1), skipped: vec![] };
    assert!(!s.space_pressed(&chars));
    assert_eq!(s.skipped, vec![1]);
    assert_eq!(s.selected, Some(2));
    // skipping the last one leaves nobody: the turn ends
    assert!(s.space_pressed(&chars));
    assert_eq!(s.selected, None);
}

fn hex(q: i32, r: i32) -> AxialCoord {
    AxialCoord { q, r }
}

#[test]
fn hex_neighbors_surround_a_hex() {
    let n = hex(2, -1).neighbors();
    assert_eq!(n.len(), 6);
    for h in [hex(3, -1), hex(3, -2), hex(2, -2), hex(1, -1), hex(1, 0), hex(2, 0)] {
        assert!(n.contains(&h));
    }
    assert!(!n.contains(&hex(2, -1)));
}

#[test]
fn harvest_reach_adds_open_neighbours() {
    let reachable = vec![hex(0, 0), hex(1, 0)];
    let open = vec![hex(0, 1), hex(5, 5), hex(2, -1), hex(1, 0)];
    let r = harvestable_hexes(true, &reachable, &open);
    let mut sorted: Vec<(i32, i32)> = r.iter().map(|h| (h.q, h.r)).collect();
    sorted.sort();
    assert_eq!(sorted, vec![(0, 0), (0, 1), (1, 0), (2, -1)]);
    assert!(harvestable_hexes(false, &reachable, &open).is_empty());
    assert!(harvestable_hexes(true, &vec![], &open).is_empty());
}

#[test]
fn move_and_attack_clicks() {
    assert_eq!(plan_move_and_attack_click(false, HoveredHex::Empty), ClickPlan::Ignore);
    assert_eq!(plan_move_and_attack_click(true, HoveredHex::OffMap), ClickPlan::Ignore);
    assert_eq!(plan_move_and_attack_click(true, HoveredHex::Empty), ClickPlan::MoveToHex);
    assert_eq!(plan_move_and_attack_click(true, HoveredHex::Occupied { entity: 9, enemy: true }), ClickPlan::Engage(9));
    assert_eq!(plan_move_and_attack_click(true, HoveredHex::Occupied { entity: 9, enemy: false }), ClickPlan::Ignore);
    assert_eq!(plan_engagement(Some(0), false), Engagement::AttackInPlace);
    assert_eq!(plan_engagement(Some(3), false), Engagement::MoveThenAttack);
    assert_eq!(plan_engagement(None, true), Engagement::MoveAdjacent);
    assert_eq!(plan_engagement(None, false), Engagement::Stay);
}

fn contender(entity: u64, q: i32, r: i32, alive: bool, enemy: bool) -> Contender {
    Contender { entity, position: hex(q, r), alive, enemy }
}

#[test]
fn hex_distances() {
    assert_eq!(hex(0, 0).distance(&hex(0, 0)), 0);
    assert_eq!(hex(0, 0).distance(&hex(1, -1)), 1);
    assert_eq!(hex(0, 0).distance(&hex(2, 1)), 3);
    assert_eq!(hex(-2, 3).distance(&hex(1, -1)), 4);
    assert!(can_strike(&hex(0, 0), &hex(0, 1)));
    assert!(!can_strike(&hex(0, 0), &hex(1, 1)));
}

#[test]
fn computer_players_pick_the_first_closest_living_enemy() {
    let cs = vec![
        contender(1, 5, 0, true, true),
        contender(2, 1, 0, false, true),
        contender(3, 0, 1, true, false),
        contender(4, 2, 0, true, true),
        contender(5, 0, 2, true, true),
    ];
    assert_eq!(closest_enemy(hex(0, 0), &cs), Some(4));
    assert_eq!(closest_enemy(hex(0, 0), &vec![contender(3, 0, 1, true, false)]), None);
    assert_eq!(closest_enemy(hex(0, 0), &vec![]), None);
}

#[test]
fn living_members_act() {
    let ms = vec![
        FactionMember { entity: 1, faction: 7, alive: true },
        FactionMember { entity: 2, faction: 8, alive: true },
        FactionMember { entity: 3, faction: 7, alive: false },
        FactionMember { entity: 4, faction: 7, alive: true },
    ];
    assert_eq!(ai_actors(&ms, 7), vec![1, 4]);
    assert!(ai_actors(&ms, 9).is_empty());
}

#[test]
fn moving_on_with_nobody_selectable_selects_nobody() {
    let mut s = Selection::new();
    s.select_next_character(&vec![]);
    assert_eq!(s.selected, None);
    let tired = vec![CharacterStatus { entity: 1, ready: false }];
    s.select_next_character(&tired);
    assert_eq!(s.selected, None);
    assert!(s.space_pressed(&tired));
    assert_eq!(s.selected, None);
}
