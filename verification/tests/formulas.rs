use osrs_dps::player::{
    AttackPotion, AttackPrayer, AttackStyle, AttackType, Equipment, EquipmentSlot, Gear, Monster,
    Player, StrengthPotion, StrengthPrayer, Weapon, WeaponStance, _Equipment, _Weapon,
};
use osrs_dps::ratio::Ratio;

fn zero_stats(slot: EquipmentSlot) -> _Equipment {
    _Equipment {
        attack_stab: 0,
        attack_slash: 0,
        attack_crush: 0,
        attack_magic: 0,
        attack_ranged: 0,
        defence_stab: 0,
        defence_slash: 0,
        defence_crush: 0,
        defence_magic: 0,
        defence_ranged: 0,
        melee_strength: 0,
        ranged_strength: 0,
        magic_damage: 0,
        prayer: 0,
        slot,
    }
}

fn named_item(name: &str, slot: EquipmentSlot) -> Equipment {
    Equipment { name: name.to_string(), equipment: zero_stats(slot) }
}

fn test_dummy() -> Monster {
    Monster {
        name: "Test Dummy".to_string(),
        defence_level: 100,
        defence_stab: 0,
        defence_slash: 0,
        defence_crush: 0,
        defence_magic: 0,
        defence_ranged: 0,
        attributes: vec![],
    }
}

fn bare_fists() -> Weapon {
    Weapon {
        name: "Fists".to_string(),
        weapon: _Weapon {
            attack_speed: 4,
            stances: vec![WeaponStance {
                combat_style: "punch".to_string(),
                attack_type: Some(AttackType::CRUSH),
                attack_style: Some(AttackStyle::ACCURATE),
            }],
        },
        equipment: zero_stats(EquipmentSlot::TWOHAND),
    }
}

fn plain_player(attack: i64, strength: i64, gear: Gear) -> Player {
    Player::new(
        "tester",
        attack,
        strength,
        AttackPotion::NONE,
        AttackPrayer::NONE,
        StrengthPotion::NONE,
        StrengthPrayer::NONE,
        gear,
    )
}

#[test]
fn unboosted_effective_levels_are_base_plus_style_plus_eight() {
    let p = plain_player(80, 80, Gear::empty());
    // accurate: +3 to attack, +0 to strength
    assert_eq!(p.effective_attack_level(&AttackStyle::ACCURATE), 80 + 3 + 8);
    assert_eq!(p.effective_strength_level(&AttackStyle::ACCURATE), 80 + 8);
    // aggressive: +0 to attack, +3 to strength
    assert_eq!(p.effective_attack_level(&AttackStyle::AGGRESSIVE), 80 + 8);
    assert_eq!(p.effective_strength_level(&AttackStyle::AGGRESSIVE), 80 + 3 + 8);
    // controlled: +1 to both
    assert_eq!(p.effective_attack_level(&AttackStyle::CONTROLLED), 80 + 1 + 8);
    assert_eq!(p.effective_strength_level(&AttackStyle::CONTROLLED), 80 + 1 + 8);
}

#[test]
fn super_strength_and_piety_boost() {
    let p = Player::new(
        "boosted",
        99,
        99,
        AttackPotion::NONE,
        AttackPrayer::NONE,
        StrengthPotion::SUPERSTRENGTH,
        StrengthPrayer::PIETY,
        Gear::empty(),
    );
    // potion: floor(99 * 0.15 + 5) = 19; prayer: floor(118 * 1.23) = 145
    // aggressive: 145 + 3 + 8 = 156
    assert_eq!(p.effective_strength_level(&AttackStyle::AGGRESSIVE), 156);
}

#[test]
fn attack_potion_and_prayer_boost() {
    let p = Player::new(
        "boosted",
        99,
        99,
        AttackPotion::ATTACK,
        AttackPrayer::CLARITY,
        StrengthPotion::NONE,
        StrengthPrayer::NONE,
        Gear::empty(),
    );
    // potion: floor(99 * 0.1 + 3) = 12; prayer: floor(111 * 1.05) = 116
    // accurate: 116 + 3 + 8 = 127
    assert_eq!(p.effective_attack_level(&AttackStyle::ACCURATE), 127);
}

#[test]
fn test_dummy_regression_fixture() {
    // frozen scenario: level 99/99, bare fists, one accurate/crush stance
    let mut gear = Gear::empty();
    gear.add_weapon(Some(bare_fists()));
    let p = plain_player(99, 99, gear);
    let m = test_dummy();

    assert_eq!(p.effective_attack_level(&AttackStyle::ACCURATE), 110);
    assert_eq!(p.effective_strength_level(&AttackStyle::ACCURATE), 107);
    assert_eq!(m.effective_defence_level(), 109);
    assert_eq!(m.max_defence_roll(&AttackType::CRUSH), 109 * 64);
    assert_eq!(
        p.max_attack_roll(&m, false, &AttackStyle::ACCURATE, &AttackType::CRUSH),
        110 * 64
    );
    // max hit: floor(0.5 + 107 * 64 / 640) = floor(11.2) = 11
    assert_eq!(p.max_hit(&m, false, &AttackStyle::ACCURATE, &AttackType::CRUSH), 11);

    // attack roll 7040 > defence roll 6976:
    // chance = 1 - (6976 + 2) / (2 * 7041) = 7104 / 14082
    let style = (AttackStyle::ACCURATE, AttackType::CRUSH);
    let chance = p.hit_chance(&m, false, &style);
    assert_eq!(chance, Ratio { num: 7104, den: 14082 });
    let expected = 7104.0_f64 / 14082.0_f64;
    assert!((expected - 0.5044).abs() < 0.001);

    // dps = chance * (11 / 2) / 2.4 = (7104 * 11 * 5) / (14082 * 6 * 4)
    let d = p.dps(&m, false, &style);
    assert_eq!(d, Ratio { num: 390_720, den: 337_968 });
    let dps_value = 390_720.0_f64 / 337_968.0_f64;
    assert!((dps_value - 1.156).abs() < 0.001);
}

#[test]
fn documented_scenario_values_follow_the_formula_chain() {
    // the same fixture on the stance whose effective levels are both
    // 107: strength-style accurate, attack-style defensive
    let mut gear = Gear::empty();
    gear.add_weapon(Some(Weapon {
        name: "Fists".to_string(),
        weapon: _Weapon {
            attack_speed: 4,
            stances: vec![WeaponStance {
                combat_style: "block".to_string(),
                attack_type: Some(AttackType::CRUSH),
                attack_style: Some(AttackStyle::DEFENSIVE),
            }],
        },
        equipment: zero_stats(EquipmentSlot::TWOHAND),
    }));
    let p = plain_player(99, 99, gear);
    let m = test_dummy();

    assert_eq!(p.effective_attack_level(&AttackStyle::DEFENSIVE), 107);
    assert_eq!(
        p.max_attack_roll(&m, false, &AttackStyle::DEFENSIVE, &AttackType::CRUSH),
        6848
    );
    assert_eq!(m.max_defence_roll(&AttackType::CRUSH), 6976);
    // attack roll 6848 <= defence roll 6976: chance = 6848 / 13953
    let style = (AttackStyle::DEFENSIVE, AttackType::CRUSH);
    assert_eq!(p.hit_chance(&m, false, &style), Ratio { num: 6848, den: 13953 });
    let chance = 6848.0_f64 / 13953.0_f64;
    assert!((chance - 0.4908).abs() < 0.001);
    // dps = (6848 * 11 * 5) / (13953 * 6 * 4) close to 1.125
    let d = p.dps(&m, false, &style);
    assert_eq!(d, Ratio { num: 376_640, den: 334_872 });
    let dps_value = 376_640.0_f64 / 334_872.0_f64;
    assert!((dps_value - 1.1248).abs() < 0.001);
}

#[test]
fn hit_chance_is_a_probability_on_both_branches() {
    let mut gear = Gear::empty();
    gear.add_weapon(Some(bare_fists()));
    let p = plain_player(99, 99, gear.clone());
    let weak = Monster { defence_level: 1, ..test_dummy() };
    let strong = Monster { defence_level: 500, ..test_dummy() };
    let style = (AttackStyle::ACCURATE, AttackType::CRUSH);
    for m in [weak, strong] {
        let c = p.hit_chance(&m, false, &style);
        assert!(c.den > 0);
        assert!(0 <= c.num && c.num < c.den);
    }
}

#[test]
fn equipment_bonuses_sum_over_slots_and_weapon() {
    let mut sword_stats = zero_stats(EquipmentSlot::WEAPON);
    sword_stats.attack_slash = 60;
    sword_stats.melee_strength = 50;
    let sword = Weapon {
        name: "Sword".to_string(),
        weapon: _Weapon { attack_speed: 4, stances: vec![] },
        equipment: sword_stats,
    };
    let mut ring_stats = zero_stats(EquipmentSlot::RING);
    ring_stats.attack_slash = 10;
    ring_stats.melee_strength = 4;
    let ring = Equipment { name: "Ring".to_string(), equipment: ring_stats };

    let mut gear = Gear::empty();
    gear.add_weapon(Some(sword));
    gear.add_equipment(&EquipmentSlot::RING, Some(ring));
    assert_eq!(gear.attack_equipment_bonus(&AttackType::SLASH), 70);
    assert_eq!(gear.strength_equipment_bonus(&AttackType::SLASH), 54);
    // an empty axis contributes zero; other attack types see nothing
    assert_eq!(gear.attack_equipment_bonus(&AttackType::STAB), 0);
    // magic sub-variants share the magic column
    assert_eq!(gear.attack_equipment_bonus(&AttackType::SPELLCASTING), 0);
}

#[test]
fn void_set_multiplier_needs_all_four_pieces() {
    let mut gear = Gear::empty();
    gear.add_equipment(
        &EquipmentSlot::HEAD,
        Some(named_item("Void melee helm", EquipmentSlot::HEAD)),
    );
    gear.add_equipment(
        &EquipmentSlot::BODY,
        Some(named_item("Void knight top", EquipmentSlot::BODY)),
    );
    gear.add_equipment(
        &EquipmentSlot::LEGS,
        Some(named_item("Void knight robe", EquipmentSlot::LEGS)),
    );
    assert_eq!(gear.void_bonus(), Ratio { num: 1, den: 1 });
    gear.add_equipment(
        &EquipmentSlot::HANDS,
        Some(named_item("Void knight gloves", EquipmentSlot::HANDS)),
    );
    assert_eq!(gear.void_bonus(), Ratio { num: 11, den: 10 });
}

#[test]
fn slayer_helmet_multiplier_only_on_task() {
    let mut gear = Gear::empty();
    gear.add_equipment(
        &EquipmentSlot::HEAD,
        Some(named_item("Slayer helmet", EquipmentSlot::HEAD)),
    );
    assert_eq!(gear.regular_bonus(true), Ratio { num: 7, den: 6 });
    assert_eq!(gear.regular_bonus(false), Ratio { num: 1, den: 1 });
}

#[test]
fn salve_amulet_overrides_against_undead() {
    let mut gear = Gear::empty();
    gear.add_equipment(
        &EquipmentSlot::HEAD,
        Some(named_item("Slayer helmet", EquipmentSlot::HEAD)),
    );
    gear.add_equipment(
        &EquipmentSlot::NECK,
        Some(named_item("Salve amulet (e)", EquipmentSlot::NECK)),
    );
    assert_eq!(gear.undead_bonus(true), Ratio { num: 6, den: 5 });
    gear.add_equipment(
        &EquipmentSlot::NECK,
        Some(named_item("Salve amulet", EquipmentSlot::NECK)),
    );
    assert_eq!(gear.undead_bonus(true), Ratio { num: 7, den: 6 });
    // without a salve amulet the head bonus applies
    gear.add_equipment(&EquipmentSlot::NECK, None);
    assert_eq!(gear.undead_bonus(true), Ratio { num: 7, den: 6 });
}

#[test]
fn undead_flag_reads_the_attribute_tags() {
    let mut m = test_dummy();
    assert!(!m.is_undead());
    m.attributes = vec!["big".to_string(), "undead".to_string()];
    assert!(m.is_undead());
}

#[test]
fn max_hit_applies_salve_against_undead() {
    let mut gear = Gear::empty();
    gear.add_weapon(Some(bare_fists()));
    gear.add_equipment(
        &EquipmentSlot::NECK,
        Some(named_item("Salve amulet (e)", EquipmentSlot::NECK)),
    );
    let p = plain_player(99, 99, gear);
    let mut m = test_dummy();
    m.attributes = vec!["undead".to_string()];
    // base max hit 11, scaled by 6/5 and floored: 13
    assert_eq!(p.max_hit(&m, false, &AttackStyle::ACCURATE, &AttackType::CRUSH), 13);
}

#[test]
fn attack_interval_defaults_to_four_ticks() {
    let gear = Gear::empty();
    assert_eq!(gear.attack_interval_ticks(), 4);
    let mut armed = Gear::empty();
    let mut w = bare_fists();
    w.weapon.attack_speed = 6;
    armed.add_weapon(Some(w));
    assert_eq!(armed.attack_interval_ticks(), 6);
}

#[test]
fn weapon_styles_reports_unresolved_stances() {
    let mut gear = Gear::empty();
    let mut w = bare_fists();
    w.weapon.stances = vec![WeaponStance {
        combat_style: "flail".to_string(),
        attack_type: None,
        attack_style: Some(AttackStyle::ACCURATE),
    }];
    gear.add_weapon(Some(w));
    let p = plain_player(50, 50, gear);
    assert_eq!(p.weapon_styles(), Err(osrs_dps::OptimizationError::UnresolvedStance));
}

#[test]
fn weapon_styles_of_bare_hands() {
    let p = plain_player(50, 50, Gear::empty());
    let styles = p.weapon_styles().unwrap();
    assert_eq!(
        styles,
        vec![
            (AttackStyle::AGGRESSIVE, AttackType::CRUSH),
            (AttackStyle::ACCURATE, AttackType::CRUSH),
            (AttackStyle::DEFENSIVE, AttackType::CRUSH),
        ]
    );
}

#[test]
fn magic_subvariants_share_the_magic_columns() {
    let mut m = test_dummy();
    m.defence_magic = 40;
    assert_eq!(m.defence_equipment_bonus(&AttackType::MAGIC), 40);
    assert_eq!(m.defence_equipment_bonus(&AttackType::SPELLCASTING), 40);
    assert_eq!(m.defence_equipment_bonus(&AttackType::DEFENSIVECASTING), 40);

    let mut stats = zero_stats(EquipmentSlot::HEAD);
    stats.attack_magic = 12;
    stats.magic_damage = 7;
    assert_eq!(stats.attack_bonus(&AttackType::SPELLCASTING), 12);
    assert_eq!(stats.strength_bonus(&AttackType::DEFENSIVECASTING), 7);
}

#[test]
fn negative_strength_bonus_floors_downward() {
    // a strongly negative damage bonus floors below zero exactly as
    // the real-valued formula does: floor(0.5 + 107 * -16 / 640) = -3
    let mut cursed_stats = zero_stats(EquipmentSlot::NECK);
    cursed_stats.melee_strength = -80;
    let cursed = Equipment { name: "Cursed amulet".to_string(), equipment: cursed_stats };
    let mut gear = Gear::empty();
    gear.add_weapon(Some(bare_fists()));
    gear.add_equipment(&EquipmentSlot::NECK, Some(cursed));
    let p = plain_player(99, 99, gear);
    let m = test_dummy();
    assert_eq!(p.max_hit(&m, false, &AttackStyle::ACCURATE, &AttackType::CRUSH), -3);
}
