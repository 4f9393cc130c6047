use osrs_dps::player::{
    AttackPotion, AttackPrayer, AttackStyle, AttackType, Equipment, EquipmentSlot, Gear, Monster,
    Player, SpareGear, StrengthPotion, StrengthPrayer, Weapon, WeaponStance, _Equipment, _Weapon,
};
use osrs_dps::ratio::{ratio_lt, Ratio};
use osrs_dps::simulation::{run, run_attack_styles, GearSet, Simulation};
use osrs_dps::OptimizationError;

fn zero_stats(slot: EquipmentSlot) -> _Equipment {
    _Equipment {
        attack_stab: 0,
        attack_slash: 0,
        attack_crush: 0,
        attack_magic: 0,
        attack_ranged: 0,
        defence_stab: 0,
        defence_slash: 0,
        defence_crush: 0,
        defence_magic: 0,
        defence_ranged: 0,
        melee_strength: 0,
        ranged_strength: 0,
        magic_damage: 0,
        prayer: 0,
        slot,
    }
}

fn named_item(name: &str, slot: EquipmentSlot) -> Equipment {
    Equipment { name: name.to_string(), equipment: zero_stats(slot) }
}

fn crush_weapon(name: &str, slot: EquipmentSlot) -> Weapon {
    Weapon {
        name: name.to_string(),
        weapon: _Weapon {
            attack_speed: 4,
            stances: vec![WeaponStance {
                combat_style: "pound".to_string(),
                attack_type: Some(AttackType::CRUSH),
                attack_style: Some(AttackStyle::ACCURATE),
            }],
        },
        equipment: zero_stats(slot),
    }
}

fn test_dummy() -> Monster {
    Monster {
        name: "Test Dummy".to_string(),
        defence_level: 100,
        defence_stab: 0,
        defence_slash: 0,
        defence_crush: 0,
        defence_magic: 0,
        defence_ranged: 0,
        attributes: vec![],
    }
}

fn plain_player(attack: i64, strength: i64, gear: Gear) -> Player {
    Player::new(
        "tester",
        attack,
        strength,
        AttackPotion::NONE,
        AttackPrayer::NONE,
        StrengthPotion::NONE,
        StrengthPrayer::NONE,
        gear,
    )
}

#[test]
fn gearset_rejects_twohander_with_shield() {
    let two_hander = crush_weapon("Maul", EquipmentSlot::TWOHAND);
    let shield = named_item("Shield", EquipmentSlot::SHIELD);
    let blocked = GearSet::new(
        None,
        None,
        None,
        None,
        None,
        None,
        None,
        None,
        None,
        Some(shield.clone()),
        Some(two_hander.clone()),
    );
    assert!(blocked.is_none());
    // a two-hander without a shield is fine
    assert!(GearSet::new(
        None, None, None, None, None, None, None, None, None, None,
        Some(two_hander)
    )
    .is_some());
    // a one-hander beside a shield is fine
    let one_hander = crush_weapon("Sword", EquipmentSlot::WEAPON);
    assert!(GearSet::new(
        None,
        None,
        None,
        None,
        None,
        None,
        None,
        None,
        None,
        Some(shield),
        Some(one_hander)
    )
    .is_some());
}

#[test]
fn equipping_reads_back_exactly_what_was_placed() {
    let ring = named_item("Ring", EquipmentSlot::RING);
    let cape = named_item("Cape", EquipmentSlot::CAPE);
    let sword = crush_weapon("Sword", EquipmentSlot::WEAPON);
    let gs = GearSet::new(
        None,
        None,
        Some(cape),
        None,
        None,
        None,
        None,
        Some(ring),
        None,
        None,
        Some(sword),
    )
    .unwrap();
    let base = plain_player(50, 50, Gear::empty());
    let equipped = gs.equip_player(&base);
    assert_eq!(equipped.gear.ring.as_ref().unwrap().name, "Ring");
    assert_eq!(equipped.gear.cape.as_ref().unwrap().name, "Cape");
    assert_eq!(equipped.gear.weapon.as_ref().unwrap().name, "Sword");
    assert!(equipped.gear.ammo.is_none());
    assert!(equipped.gear.body.is_none());
    assert!(equipped.gear.feet.is_none());
    assert!(equipped.gear.head.is_none());
    assert!(equipped.gear.legs.is_none());
    assert!(equipped.gear.neck.is_none());
    assert!(equipped.gear.hands.is_none());
    assert!(equipped.gear.shield.is_none());
    // the base player is untouched
    assert!(base.gear.ring.is_none());
}

#[test]
fn enumeration_counts_two_choices_per_slot() {
    // one spare item for each of the ten equipment slots and no
    // weapons: every slot pool holds the empty choice plus one item,
    // so the enumeration must visit exactly 2^10 = 1024 gear sets
    let mut spares = SpareGear::new();
    let slots = [
        EquipmentSlot::AMMO,
        EquipmentSlot::BODY,
        EquipmentSlot::CAPE,
        EquipmentSlot::FEET,
        EquipmentSlot::HEAD,
        EquipmentSlot::LEGS,
        EquipmentSlot::NECK,
        EquipmentSlot::RING,
        EquipmentSlot::HANDS,
        EquipmentSlot::SHIELD,
    ];
    for (i, slot) in slots.iter().enumerate() {
        spares.add_equipment(Some(&named_item(&format!("item-{}", i), *slot)));
    }
    let gear = Gear::empty();
    let mut sim = Simulation::new(&gear, &spares);
    sim.init();
    let combos = sim.get_gear_combinations();
    assert_eq!(combos.len(), 1024);
}

#[test]
fn enumeration_dedups_equal_spares() {
    // the same ring twice in the spare pool counts once
    let mut spares = SpareGear::new();
    spares.add_equipment(Some(&named_item("Ring", EquipmentSlot::RING)));
    spares.add_equipment(Some(&named_item("Ring", EquipmentSlot::RING)));
    let gear = Gear::empty();
    let mut sim = Simulation::new(&gear, &spares);
    sim.init();
    assert_eq!(sim.get_gear_combinations().len(), 2);
}

#[test]
fn enumeration_branches_weapons_by_handedness() {
    // a two-hander and a shield: the two-hander never meets the
    // shield, so the branches are (maul, no shield), (bare, no
    // shield) and (bare, shield)
    let mut spares = SpareGear::new();
    spares.add_weapon(Some(&crush_weapon("Maul", EquipmentSlot::TWOHAND)));
    spares.add_equipment(Some(&named_item("Shield", EquipmentSlot::SHIELD)));
    let gear = Gear::empty();
    let mut sim = Simulation::new(&gear, &spares);
    sim.init();
    let combos = sim.get_gear_combinations();
    assert_eq!(combos.len(), 3);
    let base = plain_player(50, 50, Gear::empty());
    for gs in &combos {
        let p = gs.equip_player(&base);
        let two_handed = p
            .gear
            .weapon
            .as_ref()
            .map(|w| matches!(w.equipment.slot, EquipmentSlot::TWOHAND))
            .unwrap_or(false);
        assert!(!(two_handed && p.gear.shield.is_some()));
    }
}

#[test]
fn init_pools_include_worn_gear() {
    let mut gear = Gear::empty();
    gear.add_equipment(&EquipmentSlot::RING, Some(named_item("Worn ring", EquipmentSlot::RING)));
    let spares = SpareGear::new();
    let mut sim = Simulation::new(&gear, &spares);
    sim.init();
    // empty or the worn ring: two gear sets
    assert_eq!(sim.get_gear_combinations().len(), 2);
    assert_eq!(sim.get_gear().ring.as_ref().unwrap().name, "Worn ring");
}

#[test]
fn best_stance_of_bare_hands() {
    // accurate punching beats kicking and blocking a test dummy: the
    // max hit is 11 either way, and accuracy decides
    let p = plain_player(99, 99, Gear::empty());
    let m = test_dummy();
    let (d, stance, ab, sb) = run_attack_styles(&p, &m).unwrap();
    assert_eq!(stance, (AttackStyle::ACCURATE, AttackType::CRUSH));
    assert_eq!(d, Ratio { num: 390_720, den: 337_968 });
    assert_eq!(ab, 0);
    assert_eq!(sb, 0);
}

#[test]
fn stanceless_weapon_is_reported() {
    let mut gear = Gear::empty();
    let mut w = crush_weapon("Broken", EquipmentSlot::WEAPON);
    w.weapon.stances = vec![];
    gear.add_weapon(Some(w));
    let p = plain_player(50, 50, gear);
    let m = test_dummy();
    assert_eq!(run_attack_styles(&p, &m), Err(OptimizationError::WeaponWithoutStances));
}

#[test]
fn unresolved_stance_is_reported() {
    let mut gear = Gear::empty();
    let mut w = crush_weapon("Odd", EquipmentSlot::WEAPON);
    w.weapon.stances[0].attack_style = None;
    gear.add_weapon(Some(w));
    let p = plain_player(50, 50, gear);
    let m = test_dummy();
    assert_eq!(run_attack_styles(&p, &m), Err(OptimizationError::UnresolvedStance));
}

#[test]
fn non_positive_interval_is_not_comparable() {
    let mut gear = Gear::empty();
    let mut w = crush_weapon("Frozen", EquipmentSlot::WEAPON);
    w.weapon.attack_speed = 0;
    gear.add_weapon(Some(w));
    let p = plain_player(50, 50, gear);
    let m = test_dummy();
    assert_eq!(run_attack_styles(&p, &m), Err(OptimizationError::NonComparableScore));
}

#[test]
fn optimizer_picks_the_strength_item() {
    // a neck item with melee strength 10 beats wearing nothing; with
    // it, the aggressive kick's max hit of 13 wins over accuracy
    let mut amulet_stats = zero_stats(EquipmentSlot::NECK);
    amulet_stats.melee_strength = 10;
    let amulet = Equipment { name: "Power amulet".to_string(), equipment: amulet_stats };
    let mut player = plain_player(99, 99, Gear::empty());
    player.spare_equipment.add_equipment(Some(&amulet));
    let m = test_dummy();
    let ((d, stance, ab, sb), best) = run(player, &m).unwrap();
    assert_eq!(stance, (AttackStyle::AGGRESSIVE, AttackType::CRUSH));
    assert_eq!(d, Ratio { num: 445_120, den: 334_872 });
    assert_eq!(ab, 0);
    assert_eq!(sb, 10);
    let base = plain_player(99, 99, Gear::empty());
    let equipped = best.equip_player(&base);
    assert_eq!(equipped.gear.neck.as_ref().unwrap().name, "Power amulet");
}

#[test]
fn optimizer_aborts_on_a_broken_candidate() {
    // a spare weapon with an unresolved stance poisons the search
    let mut bad = crush_weapon("Odd", EquipmentSlot::WEAPON);
    bad.weapon.stances[0].attack_type = None;
    let mut player = plain_player(50, 50, Gear::empty());
    player.spare_equipment.add_weapon(Some(&bad));
    let m = test_dummy();
    assert!(matches!(run(player, &m), Err(OptimizationError::UnresolvedStance)));
}

#[test]
fn full_void_set_beats_a_missing_piece() {
    let mut with_void = Gear::empty();
    with_void.add_weapon(Some(crush_weapon("Fists", EquipmentSlot::TWOHAND)));
    with_void.add_equipment(
        &EquipmentSlot::HEAD,
        Some(named_item("Void melee helm", EquipmentSlot::HEAD)),
    );
    with_void.add_equipment(
        &EquipmentSlot::BODY,
        Some(named_item("Void knight top", EquipmentSlot::BODY)),
    );
    with_void.add_equipment(
        &EquipmentSlot::LEGS,
        Some(named_item("Void knight robe", EquipmentSlot::LEGS)),
    );
    with_void.add_equipment(
        &EquipmentSlot::HANDS,
        Some(named_item("Void knight gloves", EquipmentSlot::HANDS)),
    );
    let mut without_gloves = with_void.clone();
    without_gloves.add_equipment(&EquipmentSlot::HANDS, None);

    let m = test_dummy();
    let style = (AttackStyle::ACCURATE, AttackType::CRUSH);
    let d_with = plain_player(99, 99, with_void).dps(&m, false, &style);
    let d_without = plain_player(99, 99, without_gloves).dps(&m, false, &style);
    assert!(ratio_lt(&d_without, &d_with));
}

#[test]
fn dps_monotone_in_the_interval() {
    let m = test_dummy();
    let style = (AttackStyle::ACCURATE, AttackType::CRUSH);
    let mut fast_gear = Gear::empty();
    fast_gear.add_weapon(Some(crush_weapon("Fast", EquipmentSlot::WEAPON)));
    let mut slow_gear = Gear::empty();
    let mut slow = crush_weapon("Slow", EquipmentSlot::WEAPON);
    slow.weapon.attack_speed = 6;
    slow_gear.add_weapon(Some(slow));
    let d_fast = plain_player(99, 99, fast_gear).dps(&m, false, &style);
    let d_slow = plain_player(99, 99, slow_gear).dps(&m, false, &style);
    assert!(ratio_lt(&d_slow, &d_fast));
}
