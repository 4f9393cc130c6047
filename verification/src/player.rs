//! Entity model and combat formulas.
//!
//! All values that feed the formulas are bounded machine integers; the
//! bounds are generous for game data and make every product below fit in
//! an `i64`.  Multipliers and chances are exact fractions ([`Ratio`]), so
//! every derived quantity is computed without rounding surprises: each
//! floor in the formula chain is an explicit integer division.
use vstd::prelude::*;
use vstd::string::StringExecFns;

use crate::ratio::{div_floor, lemma_mult_floor_bounds, rat_le, rat_lt, rat_wf, Rat, Ratio};

verus! {

/// Largest base combat level the formulas accept.
pub const LEVEL_MAX: i64 = 1000;

/// Largest magnitude of a single item's bonus.
pub const BONUS_MAX: i64 = 10000;

/// Largest magnitude of a weapon's attack speed in game ticks.
pub const SPEED_MAX: i64 = 100;

/// Largest effective level the formulas can produce from bounded inputs.
pub const EFFECTIVE_LEVEL_MAX: i64 = 5000;

#[allow(non_camel_case_types)]
#[derive(Clone, Copy, Debug, PartialEq, Eq, Structural)]
pub enum StrengthPotion {
    NONE,
    STRENGTH,
    SUPERSTRENGTH,
}

#[allow(non_camel_case_types)]
#[derive(Clone, Copy, Debug, PartialEq, Eq, Structural)]
pub enum AttackPotion {
    NONE,
    ATTACK,
    SUPERATTACK,
}

#[allow(non_camel_case_types)]
#[derive(Clone, Copy, Debug, PartialEq, Eq, Structural)]
pub enum AttackPrayer {
    NONE,
    CLARITY,
    IMPROVED,
    INCREDIBLE,
    CHIVALRY,
    PIETY,
}

#[allow(non_camel_case_types)]
#[derive(Clone, Copy, Debug, PartialEq, Eq, Structural)]
pub enum StrengthPrayer {
    NONE,
    BURST,
    SUPERHUMAN,
    ULTIMATE,
    CHIVALRY,
    PIETY,
}

#[allow(non_camel_case_types)]
#[derive(Clone, Copy, Debug, PartialEq, Eq, Structural)]
pub enum AttackStyle {
    AGGRESSIVE,
    CONTROLLED,
    ACCURATE,
    DEFENSIVE,
    RANGED,
    MAGIC,
}

#[allow(non_camel_case_types)]
#[derive(Clone, Copy, Debug, PartialEq, Eq, Structural)]
pub enum AttackType {
    STAB,
    SLASH,
    CRUSH,
    RANGED,
    MAGIC,
    SPELLCASTING,
    DEFENSIVECASTING,
}

#[allow(non_camel_case_types)]
#[derive(Clone, Copy, Debug, PartialEq, Eq, Structural)]
pub enum EquipmentSlot {
    RING,
    FEET,
    HANDS,
    NECK,
    AMMO,
    CAPE,
    BODY,
    LEGS,
    HEAD,
    SHIELD,
    WEAPON,
    TWOHAND,
}

/// The stat block every wearable item and weapon carries.
#[allow(non_camel_case_types)]
#[derive(Clone, Copy, Debug, PartialEq, Eq, Structural)]
pub struct _Equipment {
    pub attack_stab: i64,
    pub attack_slash: i64,
    pub attack_crush: i64,
    pub attack_magic: i64,
    pub attack_ranged: i64,
    pub defence_stab: i64,
    pub defence_slash: i64,
    pub defence_crush: i64,
    pub defence_magic: i64,
    pub defence_ranged: i64,
    pub melee_strength: i64,
    pub ranged_strength: i64,
    pub magic_damage: i64,
    pub prayer: i64,
    pub slot: EquipmentSlot,
}

/// Offensive bonus of a stat block for one attack type.  The magic
/// sub-variants share the magic column.
pub open spec fn spec_attack_bonus(e: _Equipment, t: AttackType) -> int {
    match t {
        AttackType::STAB => e.attack_stab as int,
        AttackType::SLASH => e.attack_slash as int,
        AttackType::CRUSH => e.attack_crush as int,
        AttackType::RANGED => e.attack_ranged as int,
        AttackType::MAGIC => e.attack_magic as int,
        AttackType::SPELLCASTING => e.attack_magic as int,
        AttackType::DEFENSIVECASTING => e.attack_magic as int,
    }
}

/// Damage bonus of a stat block for one attack type: melee strength,
/// ranged strength, or magic damage.
pub open spec fn spec_strength_bonus(e: _Equipment, t: AttackType) -> int {
    match t {
        AttackType::STAB => e.melee_strength as int,
        AttackType::SLASH => e.melee_strength as int,
        AttackType::CRUSH => e.melee_strength as int,
        AttackType::RANGED => e.ranged_strength as int,
        AttackType::MAGIC => e.magic_damage as int,
        AttackType::SPELLCASTING => e.magic_damage as int,
        AttackType::DEFENSIVECASTING => e.magic_damage as int,
    }
}

impl _Equipment {
    /// Every bonus is small enough for the formula chain.
    pub open spec fn wf(self) -> bool {
        &&& -BONUS_MAX <= self.attack_stab <= BONUS_MAX
        &&& -BONUS_MAX <= self.attack_slash <= BONUS_MAX
        &&& -BONUS_MAX <= self.attack_crush <= BONUS_MAX
        &&& -BONUS_MAX <= self.attack_magic <= BONUS_MAX
        &&& -BONUS_MAX <= self.attack_ranged <= BONUS_MAX
        &&& -BONUS_MAX <= self.defence_stab <= BONUS_MAX
        &&& -BONUS_MAX <= self.defence_slash <= BONUS_MAX
        &&& -BONUS_MAX <= self.defence_crush <= BONUS_MAX
        &&& -BONUS_MAX <= self.defence_magic <= BONUS_MAX
        &&& -BONUS_MAX <= self.defence_ranged <= BONUS_MAX
        &&& -BONUS_MAX <= self.melee_strength <= BONUS_MAX
        &&& -BONUS_MAX <= self.ranged_strength <= BONUS_MAX
        &&& -BONUS_MAX <= self.magic_damage <= BONUS_MAX
        &&& -BONUS_MAX <= self.prayer <= BONUS_MAX
    }

    /// The all-zero stat block of bare hands.
    pub fn unarmed() -> (r: Self)
        ensures
            r == (_Equipment {
                attack_stab: 0,
                attack_slash: 0,
                attack_crush: 0,
                attack_magic: 0,
                attack_ranged: 0,
                defence_stab: 0,
                defence_slash: 0,
                defence_crush: 0,
                defence_magic: 0,
                defence_ranged: 0,
                melee_strength: 0,
                ranged_strength: 0,
                magic_damage: 0,
                prayer: 0,
                slot: EquipmentSlot::TWOHAND,
            }),
            r.wf(),
    {
        _Equipment {
            attack_stab: 0,
            attack_slash: 0,
            attack_crush: 0,
            attack_magic: 0,
            attack_ranged: 0,
            defence_stab: 0,
            defence_slash: 0,
            defence_crush: 0,
            defence_magic: 0,
            defence_ranged: 0,
            melee_strength: 0,
            ranged_strength: 0,
            magic_damage: 0,
            prayer: 0,
            slot: EquipmentSlot::TWOHAND,
        }
    }

    pub fn attack_bonus(&self, style: &AttackType) -> (r: i64)
        ensures
            r == spec_attack_bonus(*self, *style),
    {
        match style {
            AttackType::STAB => self.attack_stab,
            AttackType::SLASH => self.attack_slash,
            AttackType::CRUSH => self.attack_crush,
            AttackType::RANGED => self.attack_ranged,
            AttackType::MAGIC | AttackType::SPELLCASTING | AttackType::DEFENSIVECASTING => {
                self.attack_magic
            },
        }
    }

    pub fn strength_bonus(&self, style: &AttackType) -> (r: i64)
        ensures
            r == spec_strength_bonus(*self, *style),
    {
        match style {
            AttackType::STAB | AttackType::SLASH | AttackType::CRUSH => self.melee_strength,
            AttackType::RANGED => self.ranged_strength,
            AttackType::MAGIC | AttackType::SPELLCASTING | AttackType::DEFENSIVECASTING => {
                self.magic_damage
            },
        }
    }
}

/// Mathematical value of an [`Equipment`]: its name and stat block.
pub struct EquipmentV {
    pub name: Seq<char>,
    pub equipment: _Equipment,
}

impl EquipmentV {
    pub open spec fn wf(self) -> bool {
        self.equipment.wf()
    }
}

/// A named wearable item.
#[derive(Debug)]
pub struct Equipment {
    pub name: String,
    pub equipment: _Equipment,
}

impl View for Equipment {
    type V = EquipmentV;

    open spec fn view(&self) -> EquipmentV {
        EquipmentV { name: self.name@, equipment: self.equipment }
    }
}

impl DeepView for Equipment {
    type V = EquipmentV;

    open spec fn deep_view(&self) -> EquipmentV {
        self@
    }
}

impl Clone for Equipment {
    fn clone(&self) -> (r: Self)
        ensures
            r@ == self@,
    {
        Equipment { name: self.name.clone(), equipment: self.equipment }
    }
}

impl Default for Equipment {
    /// The nameless placeholder item with an empty stat block.
    fn default() -> (r: Self)
        ensures
            r@.name == Seq::<char>::empty(),
            r@.equipment == (_Equipment {
                attack_stab: 0,
                attack_slash: 0,
                attack_crush: 0,
                attack_magic: 0,
                attack_ranged: 0,
                defence_stab: 0,
                defence_slash: 0,
                defence_crush: 0,
                defence_magic: 0,
                defence_ranged: 0,
                melee_strength: 0,
                ranged_strength: 0,
                magic_damage: 0,
                prayer: 0,
                slot: EquipmentSlot::TWOHAND,
            }),
    {
        Equipment { name: String::new(), equipment: _Equipment::unarmed() }
    }
}

/// Does `s` spell exactly the literal `lit`?
pub fn name_is(s: &String, lit: &str) -> (r: bool)
    ensures
        r == (s@ == lit@),
{
    let l: String = String::from_str(lit);
    *s == l
}

/// Mathematical value of a [`WeaponStance`].
pub struct StanceV {
    pub combat_style: Seq<char>,
    pub attack_type: Option<AttackType>,
    pub attack_style: Option<AttackStyle>,
}

/// One way of wielding a weapon: a label plus the attack type and style
/// the stance fights with.  Either may be absent in raw data; such a
/// stance cannot be used and is reported, never defaulted.
#[derive(Debug)]
pub struct WeaponStance {
    pub combat_style: String,
    pub attack_type: Option<AttackType>,
    pub attack_style: Option<AttackStyle>,
}

impl View for WeaponStance {
    type V = StanceV;

    open spec fn view(&self) -> StanceV {
        StanceV {
            combat_style: self.combat_style@,
            attack_type: self.attack_type,
            attack_style: self.attack_style,
        }
    }
}

impl DeepView for WeaponStance {
    type V = StanceV;

    open spec fn deep_view(&self) -> StanceV {
        self@
    }
}

impl Clone for WeaponStance {
    fn clone(&self) -> (r: Self)
        ensures
            r@ == self@,
    {
        WeaponStance {
            combat_style: self.combat_style.clone(),
            attack_type: self.attack_type,
            attack_style: self.attack_style,
        }
    }
}

/// A stance is usable only when both its axes are present.
pub open spec fn stance_resolved(s: StanceV) -> bool {
    s.attack_style is Some && s.attack_type is Some
}

/// Mathematical value of a [`_Weapon`].
pub struct _WeaponV {
    pub attack_speed: int,
    pub stances: Seq<StanceV>,
}

/// The combat part of a weapon: its speed in game ticks and its stances.
#[allow(non_camel_case_types)]
#[derive(Debug)]
pub struct _Weapon {
    pub attack_speed: i64,
    pub stances: Vec<WeaponStance>,
}

impl View for _Weapon {
    type V = _WeaponV;

    open spec fn view(&self) -> _WeaponV {
        _WeaponV { attack_speed: self.attack_speed as int, stances: self.stances.deep_view() }
    }
}

impl DeepView for _Weapon {
    type V = _WeaponV;

    open spec fn deep_view(&self) -> _WeaponV {
        self@
    }
}

impl Clone for _Weapon {
    fn clone(&self) -> (r: Self)
        ensures
            r@ == self@,
    {
        let stances = self.stances.clone();
        proof {
            assert(stances.deep_view() =~= self.stances.deep_view());
        }
        _Weapon { attack_speed: self.attack_speed, stances }
    }
}

/// The stances of bare hands: kick, punch and block, all crush.
pub open spec fn spec_default_stances() -> Seq<StanceV> {
    seq![
        StanceV {
            combat_style: "kick"@,
            attack_type: Some(AttackType::CRUSH),
            attack_style: Some(AttackStyle::AGGRESSIVE),
        },
        StanceV {
            combat_style: "punch"@,
            attack_type: Some(AttackType::CRUSH),
            attack_style: Some(AttackStyle::ACCURATE),
        },
        StanceV {
            combat_style: "block"@,
            attack_type: Some(AttackType::CRUSH),
            attack_style: Some(AttackStyle::DEFENSIVE),
        },
    ]
}

impl Default for _Weapon {
    /// Bare hands: four ticks between punches.
    fn default() -> (r: Self)
        ensures
            r@.attack_speed == 4,
            r@.stances == spec_default_stances(),
    {
        let mut stances: Vec<WeaponStance> = Vec::new();
        stances.push(
            WeaponStance {
                combat_style: String::from_str("kick"),
                attack_type: Some(AttackType::CRUSH),
                attack_style: Some(AttackStyle::AGGRESSIVE),
            },
        );
        stances.push(
            WeaponStance {
                combat_style: String::from_str("punch"),
                attack_type: Some(AttackType::CRUSH),
                attack_style: Some(AttackStyle::ACCURATE),
            },
        );
        stances.push(
            WeaponStance {
                combat_style: String::from_str("block"),
                attack_type: Some(AttackType::CRUSH),
                attack_style: Some(AttackStyle::DEFENSIVE),
            },
        );
        proof {
            assert(stances.deep_view() =~= spec_default_stances());
        }
        _Weapon { attack_speed: 4, stances }
    }
}

/// Mathematical value of a [`Weapon`].
pub struct WeaponV {
    pub name: Seq<char>,
    pub weapon: _WeaponV,
    pub equipment: _Equipment,
}

impl WeaponV {
    /// Bounded stats and a bounded speed.  A non-positive speed is still
    /// well-formed: it is rejected as a score-time error, not here.
    pub open spec fn wf(self) -> bool {
        &&& self.equipment.wf()
        &&& -SPEED_MAX <= self.weapon.attack_speed <= SPEED_MAX
    }
}

/// A named weapon: stat block plus combat behaviour.
#[derive(Debug)]
pub struct Weapon {
    pub name: String,
    pub weapon: _Weapon,
    pub equipment: _Equipment,
}

impl View for Weapon {
    type V = WeaponV;

    open spec fn view(&self) -> WeaponV {
        WeaponV { name: self.name@, weapon: self.weapon@, equipment: self.equipment }
    }
}

impl DeepView for Weapon {
    type V = WeaponV;

    open spec fn deep_view(&self) -> WeaponV {
        self@
    }
}

impl Clone for Weapon {
    fn clone(&self) -> (r: Self)
        ensures
            r@ == self@,
    {
        Weapon {
            name: self.name.clone(),
            weapon: self.weapon.clone(),
            equipment: self.equipment,
        }
    }
}

impl Default for Weapon {
    /// Bare hands as a weapon value.
    fn default() -> (r: Self)
        ensures
            r@.name == "Unarmed"@,
            r@.weapon.attack_speed == 4,
            r@.weapon.stances == spec_default_stances(),
            r@.equipment == _Equipment::default_spec_unarmed(),
            r@.wf(),
    {
        Weapon {
            name: String::from_str("Unarmed"),
            weapon: _Weapon::default(),
            equipment: _Equipment::unarmed(),
        }
    }
}

/// Mathematical value of a [`Gear`].
pub struct GearV {
    pub weapon: Option<WeaponV>,
    pub ammo: Option<EquipmentV>,
    pub body: Option<EquipmentV>,
    pub cape: Option<EquipmentV>,
    pub feet: Option<EquipmentV>,
    pub head: Option<EquipmentV>,
    pub legs: Option<EquipmentV>,
    pub neck: Option<EquipmentV>,
    pub ring: Option<EquipmentV>,
    pub hands: Option<EquipmentV>,
    pub shield: Option<EquipmentV>,
}

pub open spec fn opt_equipment_wf(o: Option<EquipmentV>) -> bool {
    match o {
        Some(e) => e.wf(),
        None => true,
    }
}

impl GearV {
    pub open spec fn wf(self) -> bool {
        &&& match self.weapon {
            Some(w) => w.wf(),
            None => true,
        }
        &&& opt_equipment_wf(self.ammo)
        &&& opt_equipment_wf(self.body)
        &&& opt_equipment_wf(self.cape)
        &&& opt_equipment_wf(self.feet)
        &&& opt_equipment_wf(self.head)
        &&& opt_equipment_wf(self.legs)
        &&& opt_equipment_wf(self.neck)
        &&& opt_equipment_wf(self.ring)
        &&& opt_equipment_wf(self.hands)
        &&& opt_equipment_wf(self.shield)
    }
}

/// What a player wears: one optional item per slot plus an optional
/// weapon.
#[derive(Debug)]
pub struct Gear {
    pub weapon: Option<Weapon>,
    pub ammo: Option<Equipment>,
    pub body: Option<Equipment>,
    pub cape: Option<Equipment>,
    pub feet: Option<Equipment>,
    pub head: Option<Equipment>,
    pub legs: Option<Equipment>,
    pub neck: Option<Equipment>,
    pub ring: Option<Equipment>,
    pub hands: Option<Equipment>,
    pub shield: Option<Equipment>,
}

impl View for Gear {
    type V = GearV;

    open spec fn view(&self) -> GearV {
        GearV {
            weapon: self.weapon.deep_view(),
            ammo: self.ammo.deep_view(),
            body: self.body.deep_view(),
            cape: self.cape.deep_view(),
            feet: self.feet.deep_view(),
            head: self.head.deep_view(),
            legs: self.legs.deep_view(),
            neck: self.neck.deep_view(),
            ring: self.ring.deep_view(),
            hands: self.hands.deep_view(),
            shield: self.shield.deep_view(),
        }
    }
}

impl DeepView for Gear {
    type V = GearV;

    open spec fn deep_view(&self) -> GearV {
        self@
    }
}

/// Copy one optional item.
pub fn clone_opt_equipment(o: &Option<Equipment>) -> (r: Option<Equipment>)
    ensures
        r.deep_view() == o.deep_view(),
{
    match o {
        Some(e) => Some(e.clone()),
        None => None,
    }
}

/// Copy one optional weapon.
pub fn clone_opt_weapon(o: &Option<Weapon>) -> (r: Option<Weapon>)
    ensures
        r.deep_view() == o.deep_view(),
{
    match o {
        Some(w) => Some(w.clone()),
        None => None,
    }
}

impl Clone for Gear {
    fn clone(&self) -> (r: Self)
        ensures
            r@ == self@,
    {
        Gear {
            weapon: clone_opt_weapon(&self.weapon),
            ammo: clone_opt_equipment(&self.ammo),
            body: clone_opt_equipment(&self.body),
            cape: clone_opt_equipment(&self.cape),
            feet: clone_opt_equipment(&self.feet),
            head: clone_opt_equipment(&self.head),
            legs: clone_opt_equipment(&self.legs),
            neck: clone_opt_equipment(&self.neck),
            ring: clone_opt_equipment(&self.ring),
            hands: clone_opt_equipment(&self.hands),
            shield: clone_opt_equipment(&self.shield),
        }
    }
}

/// The gear after one slot is assigned.  The weapon axes are not
/// equipment slots and leave the gear unchanged.
pub open spec fn spec_gear_set_slot(g: GearV, slot: EquipmentSlot, e: Option<EquipmentV>) -> GearV {
    match slot {
        EquipmentSlot::RING => (GearV { ring: e, ..g }),
        EquipmentSlot::FEET => (GearV { feet: e, ..g }),
        EquipmentSlot::HANDS => (GearV { hands: e, ..g }),
        EquipmentSlot::NECK => (GearV { neck: e, ..g }),
        EquipmentSlot::AMMO => (GearV { ammo: e, ..g }),
        EquipmentSlot::CAPE => (GearV { cape: e, ..g }),
        EquipmentSlot::BODY => (GearV { body: e, ..g }),
        EquipmentSlot::LEGS => (GearV { legs: e, ..g }),
        EquipmentSlot::HEAD => (GearV { head: e, ..g }),
        EquipmentSlot::SHIELD => (GearV { shield: e, ..g }),
        EquipmentSlot::WEAPON => g,
        EquipmentSlot::TWOHAND => g,
    }
}

pub open spec fn spec_opt_attack_bonus(o: Option<EquipmentV>, t: AttackType) -> int {
    match o {
        Some(e) => spec_attack_bonus(e.equipment, t),
        None => 0,
    }
}

pub open spec fn spec_opt_strength_bonus(o: Option<EquipmentV>, t: AttackType) -> int {
    match o {
        Some(e) => spec_strength_bonus(e.equipment, t),
        None => 0,
    }
}

/// Total offensive bonus: the sum over every worn item plus the weapon;
/// an empty slot contributes zero.
pub open spec fn spec_gear_attack_bonus(g: GearV, t: AttackType) -> int {
    spec_opt_attack_bonus(g.ammo, t) + spec_opt_attack_bonus(g.body, t) + spec_opt_attack_bonus(
        g.cape,
        t,
    ) + spec_opt_attack_bonus(g.feet, t) + spec_opt_attack_bonus(g.head, t)
        + spec_opt_attack_bonus(g.legs, t) + spec_opt_attack_bonus(g.neck, t)
        + spec_opt_attack_bonus(g.ring, t) + spec_opt_attack_bonus(g.hands, t)
        + spec_opt_attack_bonus(g.shield, t) + (match g.weapon {
        Some(w) => spec_attack_bonus(w.equipment, t),
        None => 0,
    })
}

/// Total damage bonus, shaped like [`spec_gear_attack_bonus`].
pub open spec fn spec_gear_strength_bonus(g: GearV, t: AttackType) -> int {
    spec_opt_strength_bonus(g.ammo, t) + spec_opt_strength_bonus(g.body, t)
        + spec_opt_strength_bonus(g.cape, t) + spec_opt_strength_bonus(g.feet, t)
        + spec_opt_strength_bonus(g.head, t) + spec_opt_strength_bonus(g.legs, t)
        + spec_opt_strength_bonus(g.neck, t) + spec_opt_strength_bonus(g.ring, t)
        + spec_opt_strength_bonus(g.hands, t) + spec_opt_strength_bonus(g.shield, t) + (
    match g.weapon {
        Some(w) => spec_strength_bonus(w.equipment, t),
        None => 0,
    })
}

pub open spec fn spec_is_void_helm(name: Seq<char>) -> bool {
    ||| name == "Void melee helm"@
    ||| name == "Void ranger helm"@
    ||| name == "Void mage helm"@
}

/// A full four-piece void set: helm, top, robe and gloves together.
pub open spec fn spec_void_active(g: GearV) -> bool {
    match (g.head, g.body, g.legs, g.hands) {
        (Some(head), Some(body), Some(legs), Some(hands)) => {
            &&& spec_is_void_helm(head.name)
            &&& (body.name == "Void knight top"@ || body.name == "Elite void top"@)
            &&& (legs.name == "Void knight robe"@ || legs.name == "Elite void robe"@)
            &&& hands.name == "Void knight gloves"@
        },
        _ => false,
    }
}

/// The set-bonus multiplier: 11/10 with a full void set, else one.
pub open spec fn spec_void_mult(g: GearV) -> Rat {
    if spec_void_active(g) {
        Rat { num: 11, den: 10 }
    } else {
        Rat { num: 1, den: 1 }
    }
}

pub open spec fn spec_is_slayer_helm(name: Seq<char>) -> bool {
    name == "Slayer helmet"@ || name == "Slayer helmet (i)"@
}

/// Head-slot multiplier against an on-task target: 7/6 with a slayer
/// helmet, else one.
pub open spec fn spec_regular_mult(g: GearV, on_task: bool) -> Rat {
    match g.head {
        Some(head) if spec_is_slayer_helm(head.name) && on_task => Rat { num: 7, den: 6 },
        _ => Rat { num: 1, den: 1 },
    }
}

pub open spec fn spec_is_salve(name: Seq<char>) -> bool {
    name == "Salve amulet"@ || name == "Salve amulet(i)"@
}

pub open spec fn spec_is_salve_e(name: Seq<char>) -> bool {
    name == "Salve amulet (e)"@ || name == "Salve amulet(ei)"@
}

/// Neck-slot multiplier against an undead target: a salve amulet
/// overrides the head bonus with 7/6, its enchanted form with 6/5.
pub open spec fn spec_undead_mult(g: GearV, on_task: bool) -> Rat {
    match g.neck {
        Some(neck) if spec_is_salve(neck.name) => Rat { num: 7, den: 6 },
        Some(neck) if spec_is_salve_e(neck.name) => Rat { num: 6, den: 5 },
        _ => spec_regular_mult(g, on_task),
    }
}

/// The special multiplier that applies against this target.
pub open spec fn spec_target_mult(g: GearV, undead: bool, on_task: bool) -> Rat {
    if undead {
        spec_undead_mult(g, on_task)
    } else {
        spec_regular_mult(g, on_task)
    }
}

/// Every special multiplier is a fraction between one and two with a
/// one-digit denominator.
pub proof fn lemma_target_mult_facts(g: GearV, undead: bool, on_task: bool)
    ensures
        rat_wf(spec_target_mult(g, undead, on_task)),
        spec_target_mult(g, undead, on_task).den <= spec_target_mult(g, undead, on_task).num <= 2
            * spec_target_mult(g, undead, on_task).den,
        1 <= spec_target_mult(g, undead, on_task).den <= 10,
{
}

/// Attack interval in game ticks: the weapon's speed, or four ticks
/// bare-handed.
pub open spec fn spec_attack_ticks(g: GearV) -> int {
    match g.weapon {
        Some(w) => w.weapon.attack_speed,
        None => 4,
    }
}

impl Gear {
    /// Nothing worn, nothing wielded.
    pub fn empty() -> (r: Self)
        ensures
            r@ == (GearV {
                weapon: None::<WeaponV>,
                ammo: None::<EquipmentV>,
                body: None::<EquipmentV>,
                cape: None::<EquipmentV>,
                feet: None::<EquipmentV>,
                head: None::<EquipmentV>,
                legs: None::<EquipmentV>,
                neck: None::<EquipmentV>,
                ring: None::<EquipmentV>,
                hands: None::<EquipmentV>,
                shield: None::<EquipmentV>,
            }),
    {
        Gear {
            weapon: None,
            ammo: None,
            body: None,
            cape: None,
            feet: None,
            head: None,
            legs: None,
            neck: None,
            ring: None,
            hands: None,
            shield: None,
        }
    }

    /// Assign one equipment slot.  The weapon axes are not equipment
    /// slots; asking for them changes nothing.
    pub fn add_equipment(&mut self, slot: &EquipmentSlot, equipment: Option<Equipment>)
        ensures
            final(self)@ == spec_gear_set_slot(old(self)@, *slot, equipment.deep_view()),
    {
        match slot {
            EquipmentSlot::RING => self.ring = equipment,
            EquipmentSlot::FEET => self.feet = equipment,
            EquipmentSlot::HANDS => self.hands = equipment,
            EquipmentSlot::NECK => self.neck = equipment,
            EquipmentSlot::AMMO => self.ammo = equipment,
            EquipmentSlot::CAPE => self.cape = equipment,
            EquipmentSlot::BODY => self.body = equipment,
            EquipmentSlot::LEGS => self.legs = equipment,
            EquipmentSlot::HEAD => self.head = equipment,
            EquipmentSlot::SHIELD => self.shield = equipment,
            EquipmentSlot::WEAPON => (),
            EquipmentSlot::TWOHAND => (),
        }
    }

    /// Assign the weapon.
    pub fn add_weapon(&mut self, weapon: Option<Weapon>)
        ensures
            final(self)@ == (GearV { weapon: weapon.deep_view(), ..old(self)@ }),
    {
        self.weapon = weapon;
    }

    /// The set-bonus multiplier this gear earns.
    pub fn void_bonus(&self) -> (r: Ratio)
        ensures
            r@ == spec_void_mult(self@),
            r.wf(),
    {
        match (&self.head, &self.body, &self.legs, &self.hands) {
            (Some(head), Some(body), Some(legs), Some(hands)) => {
                let helm = name_is(&head.name, "Void melee helm") || name_is(
                    &head.name,
                    "Void ranger helm",
                ) || name_is(&head.name, "Void mage helm");
                let top = name_is(&body.name, "Void knight top") || name_is(
                    &body.name,
                    "Elite void top",
                );
                let robe = name_is(&legs.name, "Void knight robe") || name_is(
                    &legs.name,
                    "Elite void robe",
                );
                let gloves = name_is(&hands.name, "Void knight gloves");
                if helm && top && robe && gloves {
                    Ratio { num: 11, den: 10 }
                } else {
                    Ratio { num: 1, den: 1 }
                }
            },
            _ => Ratio { num: 1, den: 1 },
        }
    }

    /// The head-slot multiplier against a living target.
    pub fn regular_bonus(&self, on_task: bool) -> (r: Ratio)
        ensures
            r@ == spec_regular_mult(self@, on_task),
            r.wf(),
    {
        match &self.head {
            Some(head) => {
                let slayer = name_is(&head.name, "Slayer helmet") || name_is(
                    &head.name,
                    "Slayer helmet (i)",
                );
                if slayer && on_task {
                    Ratio { num: 7, den: 6 }
                } else {
                    Ratio { num: 1, den: 1 }
                }
            },
            None => Ratio { num: 1, den: 1 },
        }
    }

    /// The neck- or head-slot multiplier against an undead target.
    pub fn undead_bonus(&self, on_task: bool) -> (r: Ratio)
        ensures
            r@ == spec_undead_mult(self@, on_task),
            r.wf(),
    {
        match &self.neck {
            Some(neck) => {
                if name_is(&neck.name, "Salve amulet") || name_is(&neck.name, "Salve amulet(i)") {
                    Ratio { num: 7, den: 6 }
                } else if name_is(&neck.name, "Salve amulet (e)") || name_is(
                    &neck.name,
                    "Salve amulet(ei)",
                ) {
                    Ratio { num: 6, den: 5 }
                } else {
                    self.regular_bonus(on_task)
                }
            },
            None => self.regular_bonus(on_task),
        }
    }

    /// Total offensive equipment bonus for one attack type.
    #[verifier::rlimit(100)]
    #[verifier::spinoff_prover]
    pub fn attack_equipment_bonus(&self, style: &AttackType) -> (r: i64)
        requires
            self@.wf(),
        ensures
            r == spec_gear_attack_bonus(self@, *style),
            -11 * BONUS_MAX <= r <= 11 * BONUS_MAX,
    {
        let ammo = opt_attack_bonus(&self.ammo, style);
        let body = opt_attack_bonus(&self.body, style);
        let cape = opt_attack_bonus(&self.cape, style);
        let feet = opt_attack_bonus(&self.feet, style);
        let head = opt_attack_bonus(&self.head, style);
        let legs = opt_attack_bonus(&self.legs, style);
        let neck = opt_attack_bonus(&self.neck, style);
        let ring = opt_attack_bonus(&self.ring, style);
        let hands = opt_attack_bonus(&self.hands, style);
        let shield = opt_attack_bonus(&self.shield, style);
        let weapon: i64 = match &self.weapon {
            Some(w) => w.equipment.attack_bonus(style),
            None => 0,
        };
        proof {
            lemma_gear_attack_sum(self@, *style, ammo as int, body as int, cape as int,
                feet as int, head as int, legs as int, neck as int, ring as int, hands as int,
                shield as int, weapon as int);
        }
        ammo + body + cape + feet + head + legs + neck + ring + hands + shield + weapon
    }

    /// Total damage equipment bonus for one attack type.
    #[verifier::rlimit(100)]
    #[verifier::spinoff_prover]
    pub fn strength_equipment_bonus(&self, style: &AttackType) -> (r: i64)
        requires
            self@.wf(),
        ensures
            r == spec_gear_strength_bonus(self@, *style),
            -11 * BONUS_MAX <= r <= 11 * BONUS_MAX,
    {
        let ammo = opt_strength_bonus(&self.ammo, style);
        let body = opt_strength_bonus(&self.body, style);
        let cape = opt_strength_bonus(&self.cape, style);
        let feet = opt_strength_bonus(&self.feet, style);
        let head = opt_strength_bonus(&self.head, style);
        let legs = opt_strength_bonus(&self.legs, style);
        let neck = opt_strength_bonus(&self.neck, style);
        let ring = opt_strength_bonus(&self.ring, style);
        let hands = opt_strength_bonus(&self.hands, style);
        let shield = opt_strength_bonus(&self.shield, style);
        let weapon: i64 = match &self.weapon {
            Some(w) => w.equipment.strength_bonus(style),
            None => 0,
        };
        proof {
            lemma_gear_strength_sum(self@, *style, ammo as int, body as int, cape as int,
                feet as int, head as int, legs as int, neck as int, ring as int, hands as int,
                shield as int, weapon as int);
        }
        ammo + body + cape + feet + head + legs + neck + ring + hands + shield + weapon
    }

    /// Attack interval in game ticks; four ticks bare-handed.  One tick
    /// lasts six tenths of a second, which the DPS fraction accounts
    /// for exactly.
    pub fn attack_interval_ticks(&self) -> (r: i64)
        ensures
            r == spec_attack_ticks(self@),
    {
        match &self.weapon {
            Some(w) => w.weapon.attack_speed,
            None => 4,
        }
    }
}

/// The total offensive bonus is the sum of the per-slot bonuses.
proof fn lemma_gear_attack_sum(g: GearV, t: AttackType, ammo: int, body: int, cape: int,
    feet: int, head: int, legs: int, neck: int, ring: int, hands: int, shield: int, weapon: int)
    requires
        ammo == spec_opt_attack_bonus(g.ammo, t),
        body == spec_opt_attack_bonus(g.body, t),
        cape == spec_opt_attack_bonus(g.cape, t),
        feet == spec_opt_attack_bonus(g.feet, t),
        head == spec_opt_attack_bonus(g.head, t),
        legs == spec_opt_attack_bonus(g.legs, t),
        neck == spec_opt_attack_bonus(g.neck, t),
        ring == spec_opt_attack_bonus(g.ring, t),
        hands == spec_opt_attack_bonus(g.hands, t),
        shield == spec_opt_attack_bonus(g.shield, t),
        weapon == (match g.weapon {
            Some(w) => spec_attack_bonus(w.equipment, t),
            None => 0,
        }),
    ensures
        spec_gear_attack_bonus(g, t) == ammo + body + cape + feet + head + legs + neck + ring
            + hands + shield + weapon,
{
}

/// The total damage bonus is the sum of the per-slot bonuses.
proof fn lemma_gear_strength_sum(g: GearV, t: AttackType, ammo: int, body: int, cape: int,
    feet: int, head: int, legs: int, neck: int, ring: int, hands: int, shield: int, weapon: int)
    requires
        ammo == spec_opt_strength_bonus(g.ammo, t),
        body == spec_opt_strength_bonus(g.body, t),
        cape == spec_opt_strength_bonus(g.cape, t),
        feet == spec_opt_strength_bonus(g.feet, t),
        head == spec_opt_strength_bonus(g.head, t),
        legs == spec_opt_strength_bonus(g.legs, t),
        neck == spec_opt_strength_bonus(g.neck, t),
        ring == spec_opt_strength_bonus(g.ring, t),
        hands == spec_opt_strength_bonus(g.hands, t),
        shield == spec_opt_strength_bonus(g.shield, t),
        weapon == (match g.weapon {
            Some(w) => spec_strength_bonus(w.equipment, t),
            None => 0,
        }),
    ensures
        spec_gear_strength_bonus(g, t) == ammo + body + cape + feet + head + legs + neck + ring
            + hands + shield + weapon,
{
}

fn opt_attack_bonus(o: &Option<Equipment>, t: &AttackType) -> (r: i64)
    requires
        opt_equipment_wf(o.deep_view()),
    ensures
        r == spec_opt_attack_bonus(o.deep_view(), *t),
        -BONUS_MAX <= r <= BONUS_MAX,
{
    match o {
        Some(e) => e.equipment.attack_bonus(t),
        None => 0,
    }
}

fn opt_strength_bonus(o: &Option<Equipment>, t: &AttackType) -> (r: i64)
    requires
        opt_equipment_wf(o.deep_view()),
    ensures
        r == spec_opt_strength_bonus(o.deep_view(), *t),
        -BONUS_MAX <= r <= BONUS_MAX,
{
    match o {
        Some(e) => e.equipment.strength_bonus(t),
        None => 0,
    }
}

/// Mathematical value of a [`SpareGear`].
pub struct SpareGearV {
    pub spare_weapons: Seq<WeaponV>,
    pub spare_equipment: Seq<EquipmentV>,
}

impl SpareGearV {
    pub open spec fn wf(self) -> bool {
        &&& forall|i: int| 0 <= i < self.spare_weapons.len() ==> self.spare_weapons[i].wf()
        &&& forall|i: int| 0 <= i < self.spare_equipment.len() ==> self.spare_equipment[i].wf()
    }
}

/// The pool of items a player owns but does not wear.
#[derive(Debug)]
pub struct SpareGear {
    pub spare_weapons: Vec<Weapon>,
    pub spare_equipment: Vec<Equipment>,
}

impl View for SpareGear {
    type V = SpareGearV;

    open spec fn view(&self) -> SpareGearV {
        SpareGearV {
            spare_weapons: self.spare_weapons.deep_view(),
            spare_equipment: self.spare_equipment.deep_view(),
        }
    }
}

impl DeepView for SpareGear {
    type V = SpareGearV;

    open spec fn deep_view(&self) -> SpareGearV {
        self@
    }
}

impl Clone for SpareGear {
    fn clone(&self) -> (r: Self)
        ensures
            r@ == self@,
    {
        let spare_weapons = self.spare_weapons.clone();
        let spare_equipment = self.spare_equipment.clone();
        proof {
            assert(spare_weapons.deep_view() =~= self.spare_weapons.deep_view());
            assert(spare_equipment.deep_view() =~= self.spare_equipment.deep_view());
        }
        SpareGear { spare_weapons, spare_equipment }
    }
}

impl SpareGear {
    /// An empty pool.
    pub fn new() -> (r: Self)
        ensures
            r@.spare_weapons == Seq::<WeaponV>::empty(),
            r@.spare_equipment == Seq::<EquipmentV>::empty(),
    {
        let r = SpareGear { spare_weapons: Vec::new(), spare_equipment: Vec::new() };
        proof {
            assert(r@.spare_weapons =~= Seq::<WeaponV>::empty());
            assert(r@.spare_equipment =~= Seq::<EquipmentV>::empty());
        }
        r
    }

    /// Keep a copy of a weapon, if one was found.
    pub fn add_weapon(&mut self, weapon: Option<&Weapon>)
        ensures
            final(self)@.spare_equipment == old(self)@.spare_equipment,
            final(self)@.spare_weapons == (match weapon {
                Some(w) => old(self)@.spare_weapons.push(w@),
                None => old(self)@.spare_weapons,
            }),
    {
        if let Some(weapon) = weapon {
            self.spare_weapons.push(weapon.clone());
            proof {
                assert(self.spare_weapons.deep_view() =~= old(
                    self,
                )@.spare_weapons.push(weapon@));
            }
        }
    }

    /// Keep a copy of an item, if one was found.
    pub fn add_equipment(&mut self, equipment: Option<&Equipment>)
        ensures
            final(self)@.spare_weapons == old(self)@.spare_weapons,
            final(self)@.spare_equipment == (match equipment {
                Some(e) => old(self)@.spare_equipment.push(e@),
                None => old(self)@.spare_equipment,
            }),
    {
        if let Some(equipment) = equipment {
            self.spare_equipment.push(equipment.clone());
            proof {
                assert(self.spare_equipment.deep_view() =~= old(
                    self,
                )@.spare_equipment.push(equipment@));
            }
        }
    }
}

/// Mathematical value of a [`Monster`].
pub struct MonsterV {
    pub name: Seq<char>,
    pub defence_level: int,
    pub defence_stab: int,
    pub defence_slash: int,
    pub defence_crush: int,
    pub defence_magic: int,
    pub defence_ranged: int,
    pub attributes: Seq<Seq<char>>,
}

impl MonsterV {
    pub open spec fn wf(self) -> bool {
        &&& 0 <= self.defence_level <= LEVEL_MAX
        &&& -BONUS_MAX <= self.defence_stab <= BONUS_MAX
        &&& -BONUS_MAX <= self.defence_slash <= BONUS_MAX
        &&& -BONUS_MAX <= self.defence_crush <= BONUS_MAX
        &&& -BONUS_MAX <= self.defence_magic <= BONUS_MAX
        &&& -BONUS_MAX <= self.defence_ranged <= BONUS_MAX
    }
}

/// Defensive bonus of the monster against one attack type; the magic
/// sub-variants share the magic column.
pub open spec fn spec_defence_bonus(m: MonsterV, t: AttackType) -> int {
    match t {
        AttackType::STAB => m.defence_stab,
        AttackType::SLASH => m.defence_slash,
        AttackType::CRUSH => m.defence_crush,
        AttackType::RANGED => m.defence_ranged,
        AttackType::MAGIC => m.defence_magic,
        AttackType::SPELLCASTING => m.defence_magic,
        AttackType::DEFENSIVECASTING => m.defence_magic,
    }
}

/// The monster's maximum defence roll: effective defence level times the
/// shifted defensive bonus.
pub open spec fn spec_max_defence_roll(m: MonsterV, t: AttackType) -> int {
    (m.defence_level + 1 + 8) * (spec_defence_bonus(m, t) + 64)
}

/// A monster is undead when it carries the "undead" attribute tag.
pub open spec fn spec_is_undead(m: MonsterV) -> bool {
    m.attributes.contains("undead"@)
}

/// The target of an optimization run: a defensive stat line plus
/// attribute tags that gate special bonuses.
#[derive(Debug)]
pub struct Monster {
    pub name: String,
    pub defence_level: i64,
    pub defence_stab: i64,
    pub defence_slash: i64,
    pub defence_crush: i64,
    pub defence_magic: i64,
    pub defence_ranged: i64,
    pub attributes: Vec<String>,
}

impl View for Monster {
    type V = MonsterV;

    open spec fn view(&self) -> MonsterV {
        MonsterV {
            name: self.name@,
            defence_level: self.defence_level as int,
            defence_stab: self.defence_stab as int,
            defence_slash: self.defence_slash as int,
            defence_crush: self.defence_crush as int,
            defence_magic: self.defence_magic as int,
            defence_ranged: self.defence_ranged as int,
            attributes: self.attributes.deep_view(),
        }
    }
}

impl DeepView for Monster {
    type V = MonsterV;

    open spec fn deep_view(&self) -> MonsterV {
        self@
    }
}

impl Clone for Monster {
    fn clone(&self) -> (r: Self)
        ensures
            r@ == self@,
    {
        let attributes = self.attributes.clone();
        proof {
            assert(attributes.deep_view() =~= self.attributes.deep_view());
        }
        Monster {
            name: self.name.clone(),
            defence_level: self.defence_level,
            defence_stab: self.defence_stab,
            defence_slash: self.defence_slash,
            defence_crush: self.defence_crush,
            defence_magic: self.defence_magic,
            defence_ranged: self.defence_ranged,
            attributes,
        }
    }
}

impl Monster {
    /// The effective defence level: base plus a fixed stance term of one
    /// plus the universal eight.
    pub fn effective_defence_level(&self) -> (r: i64)
        requires
            self@.wf(),
        ensures
            r == self@.defence_level + 1 + 8,
    {
        self.defence_level + 1 + 8
    }

    /// Defensive bonus against one attack type.
    pub fn defence_equipment_bonus(&self, attack_type: &AttackType) -> (r: i64)
        ensures
            r == spec_defence_bonus(self@, *attack_type),
    {
        match attack_type {
            AttackType::STAB => self.defence_stab,
            AttackType::SLASH => self.defence_slash,
            AttackType::CRUSH => self.defence_crush,
            AttackType::RANGED => self.defence_ranged,
            AttackType::SPELLCASTING | AttackType::DEFENSIVECASTING | AttackType::MAGIC => {
                self.defence_magic
            },
        }
    }

    /// The maximum defence roll against one attack type.
    pub fn max_defence_roll(&self, attack_type: &AttackType) -> (r: i64)
        requires
            self@.wf(),
        ensures
            r == spec_max_defence_roll(self@, *attack_type),
            -(LEVEL_MAX + 9) * (BONUS_MAX + 64) <= r <= (LEVEL_MAX + 9) * (BONUS_MAX + 64),
    {
        let level = self.effective_defence_level();
        let bonus = self.defence_equipment_bonus(attack_type);
        proof {
            crate::ratio::lemma_abs_mul_bound(
                level as int,
                bonus + 64,
                LEVEL_MAX + 9,
                BONUS_MAX + 64,
            );
        }
        level * (bonus + 64)
    }

    /// Whether this monster counts as undead.
    pub fn is_undead(&self) -> (r: bool)
        ensures
            r == spec_is_undead(self@),
    {
        let mut i: usize = 0;
        while i < self.attributes.len()
            invariant
                0 <= i <= self.attributes.len(),
                forall|j: int| 0 <= j < i ==> self.attributes.deep_view()[j] != "undead"@,
            decreases self.attributes.len() - i,
        {
            if name_is(&self.attributes[i], "undead") {
                proof {
                    assert(self.attributes.deep_view()[i as int] == "undead"@);
                }
                return true;
            }
            i = i + 1;
        }
        false
    }
}

/// Style bonus added to the strength side of the formula.
pub open spec fn spec_strength_style_bonus(style: AttackStyle) -> int {
    match style {
        AttackStyle::ACCURATE => 0,
        AttackStyle::AGGRESSIVE => 3,
        AttackStyle::CONTROLLED => 1,
        AttackStyle::DEFENSIVE => 0,
        AttackStyle::RANGED => 0,
        AttackStyle::MAGIC => 0,
    }
}

/// Style bonus added to the attack side of the formula.
pub open spec fn spec_attack_style_bonus(style: AttackStyle) -> int {
    match style {
        AttackStyle::ACCURATE => 3,
        AttackStyle::AGGRESSIVE => 0,
        AttackStyle::CONTROLLED => 1,
        AttackStyle::DEFENSIVE => 0,
        AttackStyle::RANGED => 0,
        AttackStyle::MAGIC => 0,
    }
}

/// Flat level boost of a strength potion: the floor of a tier-specific
/// linear function of the base level.
pub open spec fn spec_strength_potion_boost(tier: StrengthPotion, base: int) -> int {
    match tier {
        StrengthPotion::NONE => 0,
        StrengthPotion::STRENGTH => (base + 30) / 10,
        StrengthPotion::SUPERSTRENGTH => (3 * base + 100) / 20,
    }
}

/// Flat level boost of an attack potion.
pub open spec fn spec_attack_potion_boost(tier: AttackPotion, base: int) -> int {
    match tier {
        AttackPotion::NONE => 0,
        AttackPotion::ATTACK => (base + 30) / 10,
        AttackPotion::SUPERATTACK => (3 * base + 100) / 20,
    }
}

/// The strength prayer multiplier of each tier.
pub open spec fn spec_strength_prayer_mult(tier: StrengthPrayer) -> Rat {
    match tier {
        StrengthPrayer::NONE => Rat { num: 1, den: 1 },
        StrengthPrayer::BURST => Rat { num: 21, den: 20 },
        StrengthPrayer::SUPERHUMAN => Rat { num: 11, den: 10 },
        StrengthPrayer::ULTIMATE => Rat { num: 23, den: 20 },
        StrengthPrayer::CHIVALRY => Rat { num: 59, den: 50 },
        StrengthPrayer::PIETY => Rat { num: 123, den: 100 },
    }
}

/// The attack prayer multiplier of each tier.
pub open spec fn spec_attack_prayer_mult(tier: AttackPrayer) -> Rat {
    match tier {
        AttackPrayer::NONE => Rat { num: 1, den: 1 },
        AttackPrayer::CLARITY => Rat { num: 21, den: 20 },
        AttackPrayer::IMPROVED => Rat { num: 11, den: 10 },
        AttackPrayer::INCREDIBLE => Rat { num: 23, den: 20 },
        AttackPrayer::CHIVALRY => Rat { num: 23, den: 20 },
        AttackPrayer::PIETY => Rat { num: 6, den: 5 },
    }
}

/// Every prayer multiplier is a fraction between one and two with a
/// denominator of at most one hundred.
pub proof fn lemma_prayer_mult_facts(st: StrengthPrayer, at: AttackPrayer)
    ensures
        rat_wf(spec_strength_prayer_mult(st)),
        spec_strength_prayer_mult(st).den <= spec_strength_prayer_mult(st).num <= 2
            * spec_strength_prayer_mult(st).den,
        1 <= spec_strength_prayer_mult(st).den <= 100,
        rat_wf(spec_attack_prayer_mult(at)),
        spec_attack_prayer_mult(at).den <= spec_attack_prayer_mult(at).num <= 2
            * spec_attack_prayer_mult(at).den,
        1 <= spec_attack_prayer_mult(at).den <= 100,
{
}

/// One effective level: the potion boost is added to the base, the sum
/// is scaled by the prayer multiplier and floored, the style bonus and a
/// fixed eight are added, and a full void set scales the result by 11/10
/// with a final floor.
pub open spec fn spec_effective_level(
    base: int,
    boost: int,
    prayer: Rat,
    style_bonus: int,
    void: bool,
) -> int {
    let prayed = ((base + boost) * prayer.num) / prayer.den;
    let styled = prayed + style_bonus + 8;
    if void {
        (styled * 11) / 10
    } else {
        styled
    }
}

/// Mathematical value of a [`Player`].
pub struct PlayerV {
    pub name: Seq<char>,
    pub attack: int,
    pub strength: int,
    pub attack_potion: AttackPotion,
    pub attack_prayer: AttackPrayer,
    pub strength_potion: StrengthPotion,
    pub strength_prayer: StrengthPrayer,
    pub gear: GearV,
    pub spare_equipment: SpareGearV,
}

impl PlayerV {
    /// Bounded levels and well-formed worn gear: what the formulas need.
    pub open spec fn wf(self) -> bool {
        &&& 0 <= self.attack <= LEVEL_MAX
        &&& 0 <= self.strength <= LEVEL_MAX
        &&& self.gear.wf()
    }

    /// Additionally, every spare item is well-formed: what the
    /// optimizer needs.
    pub open spec fn wf_full(self) -> bool {
        self.wf() && self.spare_equipment.wf()
    }
}

/// The effective strength level of a player fighting in one style.
pub open spec fn spec_effective_strength(p: PlayerV, style: AttackStyle) -> int {
    spec_effective_level(
        p.strength,
        spec_strength_potion_boost(p.strength_potion, p.strength),
        spec_strength_prayer_mult(p.strength_prayer),
        spec_strength_style_bonus(style),
        spec_void_active(p.gear),
    )
}

/// The effective attack level of a player fighting in one style.
pub open spec fn spec_effective_attack(p: PlayerV, style: AttackStyle) -> int {
    spec_effective_level(
        p.attack,
        spec_attack_potion_boost(p.attack_potion, p.attack),
        spec_attack_prayer_mult(p.attack_prayer),
        spec_attack_style_bonus(style),
        spec_void_active(p.gear),
    )
}

/// The player's max hit: the base roll
/// `floor((320 + eff * (bonus + 64)) / 640)` scaled by the special
/// target multiplier and floored.
pub open spec fn spec_max_hit(
    p: PlayerV,
    m: MonsterV,
    on_task: bool,
    style: AttackStyle,
    t: AttackType,
) -> int {
    let base = (320 + spec_effective_strength(p, style) * (spec_gear_strength_bonus(p.gear, t)
        + 64)) / 640;
    let mult = spec_target_mult(p.gear, spec_is_undead(m), on_task);
    (base * mult.num) / mult.den
}

/// The player's maximum attack roll: effective attack times the shifted
/// offensive bonus, scaled by the special target multiplier and floored.
pub open spec fn spec_max_attack_roll(
    p: PlayerV,
    m: MonsterV,
    on_task: bool,
    style: AttackStyle,
    t: AttackType,
) -> int {
    let roll = spec_effective_attack(p, style) * (spec_gear_attack_bonus(p.gear, t) + 64);
    let mult = spec_target_mult(p.gear, spec_is_undead(m), on_task);
    (roll * mult.num) / mult.den
}

/// The chance to land a hit, as an exact fraction.  With
/// `a = maxAttackRoll` and `d = maxDefenceRoll`:
/// `1 - (d + 2) / (2 * (a + 1))` when `a > d`, else `a / (2 * d + 1)`.
pub open spec fn spec_hit_chance(attack: int, defence: int) -> Rat {
    if attack > defence {
        Rat { num: 2 * attack - defence, den: 2 * (attack + 1) }
    } else {
        Rat { num: attack, den: 2 * defence + 1 }
    }
}

/// Damage per second: hit chance times the average hit
/// (half the max hit) divided by the attack interval in seconds
/// (ticks times 3/5).
pub open spec fn spec_dps(hit: Rat, max_hit: int, ticks: int) -> Rat {
    Rat { num: hit.num * max_hit * 5, den: hit.den * 6 * ticks }
}

/// The DPS a player deals to a monster with one resolved stance.
pub open spec fn spec_stance_dps(
    p: PlayerV,
    m: MonsterV,
    on_task: bool,
    style: AttackStyle,
    t: AttackType,
) -> Rat {
    spec_dps(
        spec_hit_chance(
            spec_max_attack_roll(p, m, on_task, style, t),
            spec_max_defence_roll(m, t),
        ),
        spec_max_hit(p, m, on_task, style, t),
        spec_attack_ticks(p.gear),
    )
}

/// A stance yields a comparable score when both accuracy rolls are
/// non-negative and the attack interval is positive.
pub open spec fn spec_score_valid(
    p: PlayerV,
    m: MonsterV,
    on_task: bool,
    style: AttackStyle,
    t: AttackType,
) -> bool {
    &&& spec_max_attack_roll(p, m, on_task, style, t) >= 0
    &&& spec_max_defence_roll(m, t) >= 0
    &&& 1 <= spec_attack_ticks(p.gear)
}

/// The stances the player can fight with: the wielded weapon's, or bare
/// hands' when no weapon is wielded.
pub open spec fn spec_player_stances(p: PlayerV) -> Seq<StanceV> {
    match p.gear.weapon {
        Some(w) => w.weapon.stances,
        None => spec_default_stances(),
    }
}

/// The (style, type) pairs of a stance list whose stances are all
/// resolved.
pub open spec fn spec_resolved_pairs(ss: Seq<StanceV>) -> Seq<(AttackStyle, AttackType)> {
    Seq::new(ss.len(), |i: int| (ss[i].attack_style.unwrap(), ss[i].attack_type.unwrap()))
}

/// A combatant: levels, chosen consumables and prayers, worn gear and
/// the spare pool.
#[derive(Debug)]
pub struct Player {
    pub name: String,
    pub attack: i64,
    pub strength: i64,
    pub attack_potion: AttackPotion,
    pub attack_prayer: AttackPrayer,
    pub strength_potion: StrengthPotion,
    pub strength_prayer: StrengthPrayer,
    pub gear: Gear,
    pub spare_equipment: SpareGear,
}

impl View for Player {
    type V = PlayerV;

    open spec fn view(&self) -> PlayerV {
        PlayerV {
            name: self.name@,
            attack: self.attack as int,
            strength: self.strength as int,
            attack_potion: self.attack_potion,
            attack_prayer: self.attack_prayer,
            strength_potion: self.strength_potion,
            strength_prayer: self.strength_prayer,
            gear: self.gear@,
            spare_equipment: self.spare_equipment@,
        }
    }
}

impl DeepView for Player {
    type V = PlayerV;

    open spec fn deep_view(&self) -> PlayerV {
        self@
    }
}

impl Clone for Player {
    fn clone(&self) -> (r: Self)
        ensures
            r@ == self@,
    {
        Player {
            name: self.name.clone(),
            attack: self.attack,
            strength: self.strength,
            attack_potion: self.attack_potion,
            attack_prayer: self.attack_prayer,
            strength_potion: self.strength_potion,
            strength_prayer: self.strength_prayer,
            gear: self.gear.clone(),
            spare_equipment: self.spare_equipment.clone(),
        }
    }
}

impl Player {
    /// A fresh combatant with an empty spare pool.
    pub fn new(
        name: &str,
        attack: i64,
        strength: i64,
        attack_potion: AttackPotion,
        attack_prayer: AttackPrayer,
        strength_potion: StrengthPotion,
        strength_prayer: StrengthPrayer,
        gear: Gear,
    ) -> (r: Self)
        requires
            0 <= attack <= LEVEL_MAX,
            0 <= strength <= LEVEL_MAX,
        ensures
            r@.name == name@,
            r@.attack == attack,
            r@.strength == strength,
            r@.attack_potion == attack_potion,
            r@.attack_prayer == attack_prayer,
            r@.strength_potion == strength_potion,
            r@.strength_prayer == strength_prayer,
            r@.gear == gear@,
            r@.spare_equipment.spare_weapons == Seq::<WeaponV>::empty(),
            r@.spare_equipment.spare_equipment == Seq::<EquipmentV>::empty(),
    {
        Player {
            name: String::from_str(name),
            attack,
            strength,
            attack_potion,
            attack_prayer,
            strength_potion,
            strength_prayer,
            gear,
            spare_equipment: SpareGear::new(),
        }
    }

    fn strength_style_bonus(&self, attack_style: &AttackStyle) -> (r: i64)
        ensures
            r == spec_strength_style_bonus(*attack_style),
    {
        match attack_style {
            AttackStyle::ACCURATE => 0,
            AttackStyle::AGGRESSIVE => 3,
            AttackStyle::CONTROLLED => 1,
            AttackStyle::DEFENSIVE => 0,
            _ => 0,
        }
    }

    fn attack_style_bonus(&self, attack_style: &AttackStyle) -> (r: i64)
        ensures
            r == spec_attack_style_bonus(*attack_style),
    {
        match attack_style {
            AttackStyle::ACCURATE => 3,
            AttackStyle::AGGRESSIVE => 0,
            AttackStyle::CONTROLLED => 1,
            AttackStyle::DEFENSIVE => 0,
            _ => 0,
        }
    }

    fn strength_prayer_bonus(&self) -> (r: Ratio)
        ensures
            r@ == spec_strength_prayer_mult(self@.strength_prayer),
            r.wf(),
    {
        match &self.strength_prayer {
            StrengthPrayer::NONE => Ratio { num: 1, den: 1 },
            StrengthPrayer::BURST => Ratio { num: 21, den: 20 },
            StrengthPrayer::SUPERHUMAN => Ratio { num: 11, den: 10 },
            StrengthPrayer::ULTIMATE => Ratio { num: 23, den: 20 },
            StrengthPrayer::CHIVALRY => Ratio { num: 59, den: 50 },
            StrengthPrayer::PIETY => Ratio { num: 123, den: 100 },
        }
    }

    fn attack_prayer_bonus(&self) -> (r: Ratio)
        ensures
            r@ == spec_attack_prayer_mult(self@.attack_prayer),
            r.wf(),
    {
        match &self.attack_prayer {
            AttackPrayer::NONE => Ratio { num: 1, den: 1 },
            AttackPrayer::CLARITY => Ratio { num: 21, den: 20 },
            AttackPrayer::IMPROVED => Ratio { num: 11, den: 10 },
            AttackPrayer::INCREDIBLE => Ratio { num: 23, den: 20 },
            AttackPrayer::CHIVALRY => Ratio { num: 23, den: 20 },
            AttackPrayer::PIETY => Ratio { num: 6, den: 5 },
        }
    }

    fn strength_potion_bonus(&self) -> (r: i64)
        requires
            0 <= self@.strength <= LEVEL_MAX,
        ensures
            r == spec_strength_potion_boost(self@.strength_potion, self@.strength),
            0 <= r <= 155,
    {
        match &self.strength_potion {
            StrengthPotion::NONE => 0,
            StrengthPotion::STRENGTH => {
                proof {
                    vstd::arithmetic::div_mod::lemma_div_is_ordered(
                        0,
                        self@.strength + 30,
                        10,
                    );
                    vstd::arithmetic::div_mod::lemma_div_is_ordered(
                        self@.strength + 30,
                        LEVEL_MAX + 30,
                        10,
                    );
                }
                div_floor(self.strength + 30, 10)
            },
            StrengthPotion::SUPERSTRENGTH => {
                proof {
                    vstd::arithmetic::div_mod::lemma_div_is_ordered(
                        0,
                        3 * self@.strength + 100,
                        20,
                    );
                    vstd::arithmetic::div_mod::lemma_div_is_ordered(
                        3 * self@.strength + 100,
                        3 * LEVEL_MAX + 100,
                        20,
                    );
                }
                div_floor(3 * self.strength + 100, 20)
            },
        }
    }

    fn attack_potion_bonus(&self) -> (r: i64)
        requires
            0 <= self@.attack <= LEVEL_MAX,
        ensures
            r == spec_attack_potion_boost(self@.attack_potion, self@.attack),
            0 <= r <= 155,
    {
        match &self.attack_potion {
            AttackPotion::NONE => 0,
            AttackPotion::ATTACK => {
                proof {
                    vstd::arithmetic::div_mod::lemma_div_is_ordered(0, self@.attack + 30, 10);
                    vstd::arithmetic::div_mod::lemma_div_is_ordered(
                        self@.attack + 30,
                        LEVEL_MAX + 30,
                        10,
                    );
                }
                div_floor(self.attack + 30, 10)
            },
            AttackPotion::SUPERATTACK => {
                proof {
                    vstd::arithmetic::div_mod::lemma_div_is_ordered(
                        0,
                        3 * self@.attack + 100,
                        20,
                    );
                    vstd::arithmetic::div_mod::lemma_div_is_ordered(
                        3 * self@.attack + 100,
                        3 * LEVEL_MAX + 100,
                        20,
                    );
                }
                div_floor(3 * self.attack + 100, 20)
            },
        }
    }

    /// The effective strength level for one attack style.
    pub fn effective_strength_level(&self, attack_style: &AttackStyle) -> (r: i64)
        requires
            self@.wf(),
        ensures
            r == spec_effective_strength(self@, *attack_style),
            8 <= r <= EFFECTIVE_LEVEL_MAX,
    {
        let boosted = self.strength + self.strength_potion_bonus();
        let m = self.strength_prayer_bonus();
        proof {
            lemma_prayer_mult_facts(self@.strength_prayer, self@.attack_prayer);
            crate::ratio::lemma_abs_mul_bound(boosted as int, m.num as int, 1200, 200);
            lemma_mult_floor_bounds(boosted as int, m@);
            if m@.num == m@.den {
                crate::ratio::lemma_mult_floor_identity(boosted as int, m@);
            }
        }
        let prayed = div_floor(boosted * m.num, m.den);
        let styled = prayed + self.strength_style_bonus(attack_style) + 8;
        let v = self.gear.void_bonus();
        proof {
            crate::ratio::lemma_abs_mul_bound(styled as int, v.num as int, 2500, 11);
            lemma_mult_floor_bounds(styled as int, v@);
            if v@.num == v@.den {
                crate::ratio::lemma_mult_floor_identity(styled as int, v@);
            }
        }
        div_floor(styled * v.num, v.den)
    }

    /// The effective attack level for one attack style.
    pub fn effective_attack_level(&self, attack_style: &AttackStyle) -> (r: i64)
        requires
            self@.wf(),
        ensures
            r == spec_effective_attack(self@, *attack_style),
            8 <= r <= EFFECTIVE_LEVEL_MAX,
    {
        let boosted = self.attack + self.attack_potion_bonus();
        let m = self.attack_prayer_bonus();
        proof {
            lemma_prayer_mult_facts(self@.strength_prayer, self@.attack_prayer);
            crate::ratio::lemma_abs_mul_bound(boosted as int, m.num as int, 1200, 200);
            lemma_mult_floor_bounds(boosted as int, m@);
            if m@.num == m@.den {
                crate::ratio::lemma_mult_floor_identity(boosted as int, m@);
            }
        }
        let prayed = div_floor(boosted * m.num, m.den);
        let styled = prayed + self.attack_style_bonus(attack_style) + 8;
        let v = self.gear.void_bonus();
        proof {
            crate::ratio::lemma_abs_mul_bound(styled as int, v.num as int, 2500, 11);
            lemma_mult_floor_bounds(styled as int, v@);
            if v@.num == v@.den {
                crate::ratio::lemma_mult_floor_identity(styled as int, v@);
            }
        }
        div_floor(styled * v.num, v.den)
    }

    /// The highest damage one hit can deal.
    pub fn max_hit(
        &self,
        monster: &Monster,
        on_task: bool,
        attack_style: &AttackStyle,
        attack_type: &AttackType,
    ) -> (r: i64)
        requires
            self@.wf(),
            monster@.wf(),
        ensures
            r == spec_max_hit(self@, monster@, on_task, *attack_style, *attack_type),
            -2_000_000 <= r <= 2_000_000,
    {
        let eff = self.effective_strength_level(attack_style);
        let sb = self.gear.strength_equipment_bonus(attack_type);
        proof {
            crate::ratio::lemma_abs_mul_bound(
                eff as int,
                sb + 64,
                EFFECTIVE_LEVEL_MAX as int,
                11 * BONUS_MAX + 64,
            );
        }
        let base = div_floor(320 + eff * (sb + 64), 640);
        proof {
            vstd::arithmetic::div_mod::lemma_div_is_ordered(
                320 + eff * (sb + 64),
                550_320_320,
                640,
            );
            vstd::arithmetic::div_mod::lemma_div_is_ordered(
                -550_320_320,
                320 + eff * (sb + 64),
                640,
            );
        }
        let undead = monster.is_undead();
        let m = if undead {
            self.gear.undead_bonus(on_task)
        } else {
            self.gear.regular_bonus(on_task)
        };
        proof {
            lemma_target_mult_facts(self@.gear, undead, on_task);
            crate::ratio::lemma_abs_mul_bound(base as int, m.num as int, 900_000, 20);
            lemma_mult_floor_bounds(base as int, m@);
        }
        div_floor(base * m.num, m.den)
    }

    /// The upper bound of the player's accuracy roll.
    pub fn max_attack_roll(
        &self,
        monster: &Monster,
        on_task: bool,
        attack_style: &AttackStyle,
        attack_type: &AttackType,
    ) -> (r: i64)
        requires
            self@.wf(),
            monster@.wf(),
        ensures
            r == spec_max_attack_roll(self@, monster@, on_task, *attack_style, *attack_type),
            -1_200_000_000 <= r <= 1_200_000_000,
    {
        let eff = self.effective_attack_level(attack_style);
        let ab = self.gear.attack_equipment_bonus(attack_type);
        proof {
            crate::ratio::lemma_abs_mul_bound(
                eff as int,
                ab + 64,
                EFFECTIVE_LEVEL_MAX as int,
                11 * BONUS_MAX + 64,
            );
        }
        let roll = eff * (ab + 64);
        let undead = monster.is_undead();
        let m = if undead {
            self.gear.undead_bonus(on_task)
        } else {
            self.gear.regular_bonus(on_task)
        };
        proof {
            lemma_target_mult_facts(self@.gear, undead, on_task);
            crate::ratio::lemma_abs_mul_bound(roll as int, m.num as int, 550_320_320, 20);
            lemma_mult_floor_bounds(roll as int, m@);
        }
        div_floor(roll * m.num, m.den)
    }

    /// The chance that a hit lands, as an exact fraction in `[0, 1)`.
    pub fn hit_chance(
        &self,
        monster: &Monster,
        on_task: bool,
        style: &(AttackStyle, AttackType),
    ) -> (r: Ratio)
        requires
            self@.wf(),
            monster@.wf(),
            spec_max_attack_roll(self@, monster@, on_task, style.0, style.1) >= 0,
            spec_max_defence_roll(monster@, style.1) >= 0,
        ensures
            r@ == spec_hit_chance(
                spec_max_attack_roll(self@, monster@, on_task, style.0, style.1),
                spec_max_defence_roll(monster@, style.1),
            ),
            r.wf(),
            0 <= r.num < r.den,
            r.den <= 3_000_000_000,
    {
        let attack = self.max_attack_roll(monster, on_task, &style.0, &style.1);
        let defence = monster.max_defence_roll(&style.1);
        if attack > defence {
            Ratio { num: 2 * attack - defence, den: 2 * (attack + 1) }
        } else {
            Ratio { num: attack, den: 2 * defence + 1 }
        }
    }

    /// The damage per second this player deals with one stance, as an
    /// exact fraction.
    pub fn dps(
        &self,
        monster: &Monster,
        on_task: bool,
        style: &(AttackStyle, AttackType),
    ) -> (r: Ratio)
        requires
            self@.wf(),
            monster@.wf(),
            spec_score_valid(self@, monster@, on_task, style.0, style.1),
        ensures
            r@ == spec_stance_dps(self@, monster@, on_task, style.0, style.1),
            r.wf(),
    {
        let hit = self.hit_chance(monster, on_task, style);
        let mh = self.max_hit(monster, on_task, &style.0, &style.1);
        let ticks = self.gear.attack_interval_ticks();
        proof {
            crate::ratio::lemma_abs_mul_bound(
                hit.num as int,
                mh as int,
                3_000_000_000,
                2_000_000,
            );
            crate::ratio::lemma_abs_mul_bound(
                hit.num * mh,
                5,
                6_000_000_000_000_000,
                5,
            );
            crate::ratio::lemma_abs_mul_bound(hit.den as int, 6, 3_000_000_000, 6);
            crate::ratio::lemma_abs_mul_bound(
                hit.den * 6,
                ticks as int,
                18_000_000_000,
                SPEED_MAX as int,
            );
            assert(hit.den * 6 * ticks > 0) by (nonlinear_arith)
                requires
                    hit.den > 0,
                    ticks >= 1,
            ;
        }
        Ratio { num: hit.num * mh * 5, den: hit.den * 6 * ticks }
    }

    /// The usable stances of the wielded weapon (bare hands when none),
    /// as (style, type) pairs; a stance with either axis missing is an
    /// error.
    pub fn weapon_styles(&self) -> (r: Result<
        Vec<(AttackStyle, AttackType)>,
        crate::OptimizationError,
    >)
        ensures
            (r is Ok) == (forall|i: int|
                0 <= i < spec_player_stances(self@).len() ==> stance_resolved(
                    #[trigger] spec_player_stances(self@)[i],
                )),
            r matches Ok(v) ==> v@ == spec_resolved_pairs(spec_player_stances(self@)),
            r matches Err(e) ==> e == crate::OptimizationError::UnresolvedStance,
    {
        let stances: Vec<WeaponStance> = match &self.gear.weapon {
            Some(w) => {
                let c = w.weapon.stances.clone();
                proof {
                    assert(c.deep_view() =~= spec_player_stances(self@));
                }
                c
            },
            None => {
                let d = _Weapon::default();
                d.stances
            },
        };
        let ghost sv = spec_player_stances(self@);
        let mut out: Vec<(AttackStyle, AttackType)> = Vec::new();
        let mut i: usize = 0;
        while i < stances.len()
            invariant
                sv == spec_player_stances(self@),
                stances.deep_view() == sv,
                0 <= i <= stances.len(),
                out@.len() == i,
                forall|j: int| 0 <= j < i ==> stance_resolved(#[trigger] sv[j]),
                forall|j: int|
                    0 <= j < i ==> out@[j] == (
                    #[trigger] sv[j].attack_style.unwrap(),
                    sv[j].attack_type.unwrap(),
                ),
            decreases stances.len() - i,
        {
            let st_opt = stances[i].attack_style;
            let ty_opt = stances[i].attack_type;
            proof {
                assert(sv[i as int] == stances[i as int]@);
            }
            if st_opt.is_some() && ty_opt.is_some() {
                out.push((st_opt.unwrap(), ty_opt.unwrap()));
            } else {
                proof {
                    assert(!stance_resolved(spec_player_stances(self@)[i as int]));
                }
                return Err(crate::OptimizationError::UnresolvedStance);
            }
            i = i + 1;
        }
        proof {
            assert(out@ =~= spec_resolved_pairs(sv));
        }
        Ok(out)
    }
}

/// With no potion, no prayer and no void set, an effective level is
/// exactly the base level plus the style bonus plus eight.
pub proof fn lemma_effective_level_unboosted(p: PlayerV, style: AttackStyle)
    requires
        p.strength_potion == StrengthPotion::NONE,
        p.strength_prayer == StrengthPrayer::NONE,
        p.attack_potion == AttackPotion::NONE,
        p.attack_prayer == AttackPrayer::NONE,
        !spec_void_active(p.gear),
    ensures
        spec_effective_strength(p, style) == p.strength + spec_strength_style_bonus(style) + 8,
        spec_effective_attack(p, style) == p.attack + spec_attack_style_bonus(style) + 8,
{
    vstd::arithmetic::div_mod::lemma_div_multiples_vanish(p.strength, 1);
    vstd::arithmetic::div_mod::lemma_div_multiples_vanish(p.attack, 1);
    assert(p.strength * 1 == 1 * p.strength) by (nonlinear_arith);
    assert(p.attack * 1 == 1 * p.attack) by (nonlinear_arith);
}

impl _Equipment {
    /// The all-zero stat block, as a spec value.
    pub open spec fn default_spec_unarmed() -> _Equipment {
        _Equipment {
            attack_stab: 0,
            attack_slash: 0,
            attack_crush: 0,
            attack_magic: 0,
            attack_ranged: 0,
            defence_stab: 0,
            defence_slash: 0,
            defence_crush: 0,
            defence_magic: 0,
            defence_ranged: 0,
            melee_strength: 0,
            ranged_strength: 0,
            magic_damage: 0,
            prayer: 0,
            slot: EquipmentSlot::TWOHAND,
        }
    }
}

/// DPS is monotone: it never falls when the hit chance or the max hit
/// grows, and never rises when the attack interval grows, the other
/// inputs held fixed.  Stated for a non-negative chance and max hit.
pub proof fn lemma_dps_monotone(h1: Rat, h2: Rat, m1: int, m2: int, t1: int, t2: int)
    requires
        rat_wf(h1),
        rat_wf(h2),
        h1.num >= 0,
        rat_le(h1, h2),
        0 <= m1 <= m2,
        1 <= t2 <= t1,
    ensures
        rat_le(spec_dps(h1, m1, t1), spec_dps(h2, m2, t2)),
{
    assert((h1.num * m1 * 5) * (h2.den * 6 * t2) <= (h2.num * m2 * 5) * (h1.den * 6 * t1))
        by (nonlinear_arith)
        requires
            h1.den > 0,
            h2.den > 0,
            h1.num >= 0,
            h1.num * h2.den <= h2.num * h1.den,
            0 <= m1 <= m2,
            1 <= t2 <= t1,
    ;
}

/// A wielded weapon groups its stances; this resolves the attack type
/// of one of them.
#[allow(non_camel_case_types)]
#[derive(Debug, Clone)]
pub enum WeaponSlot {
    TWOHAND(Weapon),
    ONEHAND(Weapon, Equipment),
}

impl Weapon {
    /// The attack type of the stance at `attack_style`.
    pub fn attack_type(&self, attack_style: usize) -> (r: &AttackType)
        requires
            attack_style < self@.weapon.stances.len(),
            self@.weapon.stances[attack_style as int].attack_type is Some,
        ensures
            Some(*r) == self@.weapon.stances[attack_style as int].attack_type,
    {
        self.weapon.stances[attack_style].attack_type.as_ref().unwrap()
    }
}

/// Scaling by a multiplier of at least one and flooring preserves
/// order.
pub proof fn lemma_mult_floor_monotone(x: int, y: int, m: Rat)
    requires
        x <= y,
        rat_wf(m),
        m.num >= m.den,
    ensures
        (x * m.num) / m.den <= (y * m.num) / m.den,
{
    vstd::arithmetic::mul::lemma_mul_inequality(x, y, m.num);
    vstd::arithmetic::div_mod::lemma_div_is_ordered(x * m.num, y * m.num, m.den);
}

/// Scaling by a bonus multiplier (between one and two) and flooring
/// preserves strict order.
pub proof fn lemma_mult_floor_strict(x: int, y: int, m: Rat)
    requires
        x < y,
        rat_wf(m),
        m.den <= m.num <= 2 * m.den,
    ensures
        (x * m.num) / m.den < (y * m.num) / m.den,
{
    assert(y * m.num >= x * m.num + m.num) by (nonlinear_arith)
        requires
            x < y,
            m.num > 0,
    ;
    vstd::arithmetic::div_mod::lemma_fundamental_div_mod(x * m.num, m.den);
    let q = (x * m.num) / m.den;
    let r = (x * m.num) % m.den;
    assert(m.den * (q + 1) == m.den * q + m.den) by (nonlinear_arith);
    vstd::arithmetic::div_mod::lemma_fundamental_div_mod_converse_div(
        x * m.num + m.den,
        m.den,
        q + 1,
        r,
    );
    vstd::arithmetic::div_mod::lemma_div_is_ordered(x * m.num + m.den, y * m.num, m.den);
}

/// The hit chance is a well-formed fraction in `[0, 1)` whenever both
/// rolls are non-negative, in either branch of its formula.
pub proof fn lemma_hit_chance_bounds(attack: int, defence: int)
    requires
        attack >= 0,
        defence >= 0,
    ensures
        rat_wf(spec_hit_chance(attack, defence)),
        0 <= spec_hit_chance(attack, defence).num < spec_hit_chance(attack, defence).den,
{
}

/// A strictly larger attack roll gives a strictly larger hit chance
/// against the same defence roll.
pub proof fn lemma_hit_chance_strict(a1: int, a2: int, d: int)
    requires
        0 <= a2 < a1,
        d >= 0,
    ensures
        rat_lt(spec_hit_chance(a2, d), spec_hit_chance(a1, d)),
{
    if a2 > d {
        // both on the high branch
        assert((2 * a2 - d) * (2 * (a1 + 1)) < (2 * a1 - d) * (2 * (a2 + 1)))
            by (nonlinear_arith)
            requires
                d >= 0,
                d < a2 < a1,
        ;
    } else if a1 > d {
        // the larger roll crosses the defence roll
        assert(a2 * (2 * (a1 + 1)) < (2 * a1 - d) * (2 * d + 1)) by (nonlinear_arith)
            requires
                0 <= a2 <= d,
                a1 >= d + 1,
        ;
    } else {
        // both on the low branch
        assert(a2 * (2 * d + 1) < a1 * (2 * d + 1)) by (nonlinear_arith)
            requires
                0 <= a2 < a1,
                d >= 0,
        ;
    }
}

/// A strictly larger hit chance and a no-smaller max hit give strictly
/// more DPS over the same attack interval.
pub proof fn lemma_dps_strict(h1: Rat, h2: Rat, m1: int, m2: int, t: int)
    requires
        rat_wf(h1),
        rat_wf(h2),
        h2.num >= 0,
        rat_lt(h2, h1),
        1 <= m2 <= m1,
        t >= 1,
    ensures
        rat_lt(spec_dps(h2, m2, t), spec_dps(h1, m1, t)),
{
    assert((h2.num * m2 * 5) * (h1.den * 6 * t) < (h1.num * m1 * 5) * (h2.den * 6 * t))
        by (nonlinear_arith)
        requires
            h1.den > 0,
            h2.den > 0,
            h2.num >= 0,
            h2.num * h1.den < h1.num * h2.den,
            1 <= m2 <= m1,
            t >= 1,
    ;
}

/// A full void set beats the same loadout without it: with the set
/// bonus active and everything else equal (same levels, consumables,
/// equipment bonuses, target multiplier and speed), the DPS is
/// strictly higher, provided the boosted level is large enough for the
/// floored bonus to move, the offensive bonus is not hopeless, and the
/// unboosted loadout already deals damage.
pub proof fn lemma_void_strictly_better(
    p1: PlayerV,
    p2: PlayerV,
    m: MonsterV,
    on_task: bool,
    style: AttackStyle,
    t: AttackType,
)
    requires
        p1.attack == p2.attack,
        p1.strength == p2.strength,
        p1.attack_potion == p2.attack_potion,
        p1.attack_prayer == p2.attack_prayer,
        p1.strength_potion == p2.strength_potion,
        p1.strength_prayer == p2.strength_prayer,
        spec_void_active(p1.gear),
        !spec_void_active(p2.gear),
        spec_gear_attack_bonus(p1.gear, t) == spec_gear_attack_bonus(p2.gear, t),
        spec_gear_strength_bonus(p1.gear, t) == spec_gear_strength_bonus(p2.gear, t),
        spec_target_mult(p1.gear, spec_is_undead(m), on_task) == spec_target_mult(
            p2.gear,
            spec_is_undead(m),
            on_task,
        ),
        spec_attack_ticks(p1.gear) == spec_attack_ticks(p2.gear),
        spec_attack_ticks(p2.gear) >= 1,
        spec_effective_attack(p2, style) >= 10,
        spec_effective_strength(p2, style) >= 0,
        spec_gear_attack_bonus(p2.gear, t) + 64 >= 1,
        spec_gear_strength_bonus(p2.gear, t) + 64 >= 0,
        spec_max_hit(p2, m, on_task, style, t) >= 1,
        spec_max_defence_roll(m, t) >= 0,
    ensures
        rat_lt(
            spec_stance_dps(p2, m, on_task, style, t),
            spec_stance_dps(p1, m, on_task, style, t),
        ),
{
    let mult = spec_target_mult(p1.gear, spec_is_undead(m), on_task);
    lemma_target_mult_facts(p1.gear, spec_is_undead(m), on_task);
    let styled_a = spec_effective_attack(p2, style);
    let styled_s = spec_effective_strength(p2, style);

    // the set bonus strictly raises the effective attack level
    assert(spec_effective_attack(p1, style) == (styled_a * 11) / 10);
    assert((styled_a * 11) / 10 >= styled_a + 1) by {
        vstd::arithmetic::div_mod::lemma_hoist_over_denominator(styled_a, styled_a, 10nat);
        assert(styled_a * 11 == styled_a + styled_a * 10) by (nonlinear_arith);
        vstd::arithmetic::div_mod::lemma_div_is_ordered(10, styled_a, 10);
    }
    let ea1 = spec_effective_attack(p1, style);
    let ea2 = styled_a;
    assert(ea2 < ea1);

    // and never lowers the effective strength level
    assert(spec_effective_strength(p1, style) == (styled_s * 11) / 10);
    lemma_mult_floor_bounds(styled_s, Rat { num: 11, den: 10 });
    let es1 = spec_effective_strength(p1, style);
    let es2 = styled_s;
    assert(es2 <= es1);

    // max hit does not fall
    let sb = spec_gear_strength_bonus(p2.gear, t);
    assert(es2 * (sb + 64) <= es1 * (sb + 64)) by (nonlinear_arith)
        requires
            0 <= es2 <= es1,
            sb + 64 >= 0,
    ;
    vstd::arithmetic::div_mod::lemma_div_is_ordered(
        320 + es2 * (sb + 64),
        320 + es1 * (sb + 64),
        640,
    );
    lemma_mult_floor_monotone(
        (320 + es2 * (sb + 64)) / 640,
        (320 + es1 * (sb + 64)) / 640,
        mult,
    );
    let mh1 = spec_max_hit(p1, m, on_task, style, t);
    let mh2 = spec_max_hit(p2, m, on_task, style, t);
    assert(mh2 <= mh1);

    // the attack roll strictly rises
    let ab = spec_gear_attack_bonus(p2.gear, t);
    assert(ea2 * (ab + 64) < ea1 * (ab + 64)) by (nonlinear_arith)
        requires
            0 <= ea2 < ea1,
            ab + 64 >= 1,
    ;
    lemma_mult_floor_strict(ea2 * (ab + 64), ea1 * (ab + 64), mult);
    let ar1 = spec_max_attack_roll(p1, m, on_task, style, t);
    let ar2 = spec_max_attack_roll(p2, m, on_task, style, t);
    assert(ar2 < ar1);
    assert(ar2 >= 0) by {
        assert(ea2 * (ab + 64) >= 0) by (nonlinear_arith)
            requires
                ea2 >= 0,
                ab + 64 >= 0,
        ;
        lemma_mult_floor_bounds(ea2 * (ab + 64), mult);
    }

    // so the hit chance strictly rises, and with it the DPS
    let dr = spec_max_defence_roll(m, t);
    lemma_hit_chance_strict(ar1, ar2, dr);
    lemma_hit_chance_bounds(ar2, dr);
    lemma_hit_chance_bounds(ar1, dr);
    lemma_dps_strict(
        spec_hit_chance(ar1, dr),
        spec_hit_chance(ar2, dr),
        mh1,
        mh2,
        spec_attack_ticks(p2.gear),
    );
}

/// Is every bonus of this stat block within the supported range?
pub fn stats_wf_check(e: &_Equipment) -> (r: bool)
    ensures
        r == e.wf(),
{
    -BONUS_MAX <= e.attack_stab && e.attack_stab <= BONUS_MAX && -BONUS_MAX <= e.attack_slash
        && e.attack_slash <= BONUS_MAX && -BONUS_MAX <= e.attack_crush && e.attack_crush
        <= BONUS_MAX && -BONUS_MAX <= e.attack_magic && e.attack_magic <= BONUS_MAX && -BONUS_MAX
        <= e.attack_ranged && e.attack_ranged <= BONUS_MAX && -BONUS_MAX <= e.defence_stab
        && e.defence_stab <= BONUS_MAX && -BONUS_MAX <= e.defence_slash && e.defence_slash
        <= BONUS_MAX && -BONUS_MAX <= e.defence_crush && e.defence_crush <= BONUS_MAX
        && -BONUS_MAX <= e.defence_magic && e.defence_magic <= BONUS_MAX && -BONUS_MAX
        <= e.defence_ranged && e.defence_ranged <= BONUS_MAX && -BONUS_MAX <= e.melee_strength
        && e.melee_strength <= BONUS_MAX && -BONUS_MAX <= e.ranged_strength && e.ranged_strength
        <= BONUS_MAX && -BONUS_MAX <= e.magic_damage && e.magic_damage <= BONUS_MAX && -BONUS_MAX
        <= e.prayer && e.prayer <= BONUS_MAX
}

fn opt_equipment_wf_check(o: &Option<Equipment>) -> (r: bool)
    ensures
        r == opt_equipment_wf(o.deep_view()),
{
    match o {
        Some(e) => stats_wf_check(&e.equipment),
        None => true,
    }
}

/// Is this weapon's stat block and speed within the supported range?
pub fn weapon_wf_check(w: &Weapon) -> (r: bool)
    ensures
        r == w@.wf(),
{
    stats_wf_check(&w.equipment) && -SPEED_MAX <= w.weapon.attack_speed && w.weapon.attack_speed
        <= SPEED_MAX
}

impl Gear {
    /// Is every worn item within the supported bonus range?
    pub fn wf_check(&self) -> (r: bool)
        ensures
            r == self@.wf(),
    {
        let weapon_ok = match &self.weapon {
            Some(w) => weapon_wf_check(w),
            None => true,
        };
        weapon_ok && opt_equipment_wf_check(&self.ammo) && opt_equipment_wf_check(&self.body)
            && opt_equipment_wf_check(&self.cape) && opt_equipment_wf_check(&self.feet)
            && opt_equipment_wf_check(&self.head) && opt_equipment_wf_check(&self.legs)
            && opt_equipment_wf_check(&self.neck) && opt_equipment_wf_check(&self.ring)
            && opt_equipment_wf_check(&self.hands) && opt_equipment_wf_check(&self.shield)
    }
}

impl Player {
    /// Are the levels, the worn gear and every spare item within the
    /// supported ranges?
    pub fn wf_check(&self) -> (r: bool)
        ensures
            r == self@.wf_full(),
    {
        if !(0 <= self.attack && self.attack <= LEVEL_MAX && 0 <= self.strength && self.strength
            <= LEVEL_MAX && self.gear.wf_check()) {
            return false;
        }
        let mut i: usize = 0;
        while i < self.spare_equipment.spare_weapons.len()
            invariant
                0 <= i <= self.spare_equipment.spare_weapons@.len(),
                forall|j: int|
                    0 <= j < i ==> (#[trigger] self@.spare_equipment.spare_weapons[j]).wf(),
            decreases self.spare_equipment.spare_weapons@.len() - i,
        {
            if !weapon_wf_check(&self.spare_equipment.spare_weapons[i]) {
                proof {
                    assert(!(#[trigger] self@.spare_equipment.spare_weapons[i as int]).wf());
                }
                return false;
            }
            i = i + 1;
        }
        let mut i: usize = 0;
        while i < self.spare_equipment.spare_equipment.len()
            invariant
                0 <= i <= self.spare_equipment.spare_equipment@.len(),
                forall|j: int|
                    0 <= j < self@.spare_equipment.spare_weapons.len() ==> (
                    #[trigger] self@.spare_equipment.spare_weapons[j]).wf(),
                forall|j: int|
                    0 <= j < i ==> (#[trigger] self@.spare_equipment.spare_equipment[j]).wf(),
            decreases self.spare_equipment.spare_equipment@.len() - i,
        {
            if !stats_wf_check(&self.spare_equipment.spare_equipment[i].equipment) {
                proof {
                    assert(!(#[trigger] self@.spare_equipment.spare_equipment[i as int]).wf());
                }
                return false;
            }
            i = i + 1;
        }
        true
    }
}

impl Monster {
    /// Are the defence level and every bonus within the supported
    /// ranges?
    pub fn wf_check(&self) -> (r: bool)
        ensures
            r == self@.wf(),
    {
        0 <= self.defence_level && self.defence_level <= LEVEL_MAX && -BONUS_MAX
            <= self.defence_stab && self.defence_stab <= BONUS_MAX && -BONUS_MAX
            <= self.defence_slash && self.defence_slash <= BONUS_MAX && -BONUS_MAX
            <= self.defence_crush && self.defence_crush <= BONUS_MAX && -BONUS_MAX
            <= self.defence_magic && self.defence_magic <= BONUS_MAX && -BONUS_MAX
            <= self.defence_ranged && self.defence_ranged <= BONUS_MAX
    }
}

} // verus!
