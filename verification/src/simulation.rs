//! Candidate pools and the gear optimizer.
//!
//! A [`Simulation`] partitions everything the player owns into one
//! candidate pool per equipment slot, plus one pool of one-handed and
//! one of two-handed weapons, each seeded with the empty choice and
//! holding no duplicates.  The enumeration walks the cross product of
//! the slot pools and, per slot assignment, one branch per two-handed
//! weapon (shield forced empty) and one per (one-handed weapon, shield)
//! pair, and scores every gear set with every stance of its weapon.
use vstd::prelude::*;

use crate::player::{
    clone_opt_equipment, clone_opt_weapon, opt_equipment_wf, spec_gear_attack_bonus,
    spec_gear_strength_bonus, spec_player_stances, spec_resolved_pairs, spec_score_valid,
    spec_stance_dps, stance_resolved, AttackStyle, AttackType, Equipment, EquipmentSlot,
    EquipmentV, Gear, GearV, Monster, MonsterV, Player, PlayerV, SpareGear, Weapon, WeaponV,
};
use crate::ratio::{rat_le, rat_lt, rat_wf, ratio_lt, Rat, Ratio};
use crate::OptimizationError;

verus! {

/// Mathematical value of a [`GearSet`].
pub struct GearSetV {
    pub ammo: Option<EquipmentV>,
    pub body: Option<EquipmentV>,
    pub cape: Option<EquipmentV>,
    pub feet: Option<EquipmentV>,
    pub head: Option<EquipmentV>,
    pub legs: Option<EquipmentV>,
    pub neck: Option<EquipmentV>,
    pub ring: Option<EquipmentV>,
    pub hands: Option<EquipmentV>,
    pub shield: Option<EquipmentV>,
    pub weapon: Option<WeaponV>,
}

/// A weapon that occupies both hands.
pub open spec fn spec_is_twohand(w: WeaponV) -> bool {
    w.equipment.slot == EquipmentSlot::TWOHAND
}

/// A gear set is valid when a two-handed weapon never stands beside a
/// shield.
pub open spec fn gearset_valid(gs: GearSetV) -> bool {
    match (gs.weapon, gs.shield) {
        (Some(w), Some(_)) => !spec_is_twohand(w),
        _ => true,
    }
}

/// The gear a set equips: every slot and the weapon, exactly as
/// assigned.
pub open spec fn spec_gear_of_set(gs: GearSetV) -> GearV {
    GearV {
        weapon: gs.weapon,
        ammo: gs.ammo,
        body: gs.body,
        cape: gs.cape,
        feet: gs.feet,
        head: gs.head,
        legs: gs.legs,
        neck: gs.neck,
        ring: gs.ring,
        hands: gs.hands,
        shield: gs.shield,
    }
}

/// One complete assignment of equipment to every slot plus a weapon.
/// Built only through [`GearSet::new`], which refuses a two-handed
/// weapon next to a shield.
#[derive(Debug)]
pub struct GearSet {
    ammo: Option<Equipment>,
    body: Option<Equipment>,
    cape: Option<Equipment>,
    feet: Option<Equipment>,
    head: Option<Equipment>,
    legs: Option<Equipment>,
    neck: Option<Equipment>,
    ring: Option<Equipment>,
    hands: Option<Equipment>,
    shield: Option<Equipment>,
    weapon: Option<Weapon>,
}

impl View for GearSet {
    type V = GearSetV;

    closed spec fn view(&self) -> GearSetV {
        GearSetV {
            ammo: self.ammo.deep_view(),
            body: self.body.deep_view(),
            cape: self.cape.deep_view(),
            feet: self.feet.deep_view(),
            head: self.head.deep_view(),
            legs: self.legs.deep_view(),
            neck: self.neck.deep_view(),
            ring: self.ring.deep_view(),
            hands: self.hands.deep_view(),
            shield: self.shield.deep_view(),
            weapon: self.weapon.deep_view(),
        }
    }
}

impl DeepView for GearSet {
    type V = GearSetV;

    closed spec fn deep_view(&self) -> GearSetV {
        self@
    }
}

impl Clone for GearSet {
    fn clone(&self) -> (r: Self)
        ensures
            r@ == self@,
    {
        GearSet {
            ammo: clone_opt_equipment(&self.ammo),
            body: clone_opt_equipment(&self.body),
            cape: clone_opt_equipment(&self.cape),
            feet: clone_opt_equipment(&self.feet),
            head: clone_opt_equipment(&self.head),
            legs: clone_opt_equipment(&self.legs),
            neck: clone_opt_equipment(&self.neck),
            ring: clone_opt_equipment(&self.ring),
            hands: clone_opt_equipment(&self.hands),
            shield: clone_opt_equipment(&self.shield),
            weapon: clone_opt_weapon(&self.weapon),
        }
    }
}

impl GearSet {
    /// Assemble a gear set.  A two-handed weapon beside a non-empty
    /// shield is rejected by construction.
    pub fn new(
        ammo: Option<Equipment>,
        body: Option<Equipment>,
        cape: Option<Equipment>,
        feet: Option<Equipment>,
        head: Option<Equipment>,
        legs: Option<Equipment>,
        neck: Option<Equipment>,
        ring: Option<Equipment>,
        hands: Option<Equipment>,
        shield: Option<Equipment>,
        weapon: Option<Weapon>,
    ) -> (r: Option<GearSet>)
        ensures
            (r is Some) == gearset_valid(
                GearSetV {
                    ammo: ammo.deep_view(),
                    body: body.deep_view(),
                    cape: cape.deep_view(),
                    feet: feet.deep_view(),
                    head: head.deep_view(),
                    legs: legs.deep_view(),
                    neck: neck.deep_view(),
                    ring: ring.deep_view(),
                    hands: hands.deep_view(),
                    shield: shield.deep_view(),
                    weapon: weapon.deep_view(),
                },
            ),
            r matches Some(g) ==> g@ == (GearSetV {
                ammo: ammo.deep_view(),
                body: body.deep_view(),
                cape: cape.deep_view(),
                feet: feet.deep_view(),
                head: head.deep_view(),
                legs: legs.deep_view(),
                neck: neck.deep_view(),
                ring: ring.deep_view(),
                hands: hands.deep_view(),
                shield: shield.deep_view(),
                weapon: weapon.deep_view(),
            }),
    {
        let blocked = match (&weapon, &shield) {
            (Some(w), Some(_)) => matches!(w.equipment.slot, EquipmentSlot::TWOHAND),
            _ => false,
        };
        if blocked {
            None
        } else {
            Some(
                GearSet {
                    ammo,
                    body,
                    cape,
                    feet,
                    head,
                    legs,
                    neck,
                    ring,
                    hands,
                    shield,
                    weapon,
                },
            )
        }
    }

    /// A copy of `base` wearing exactly this gear set: every slot and
    /// the weapon are overwritten; levels, consumables and the spare
    /// pool are kept.
    pub fn equip_player(&self, base: &Player) -> (r: Player)
        ensures
            r@.gear == spec_gear_of_set(self@),
            r@.name == base@.name,
            r@.attack == base@.attack,
            r@.strength == base@.strength,
            r@.attack_potion == base@.attack_potion,
            r@.attack_prayer == base@.attack_prayer,
            r@.strength_potion == base@.strength_potion,
            r@.strength_prayer == base@.strength_prayer,
            r@.spare_equipment == base@.spare_equipment,
    {
        let mut p = base.clone();
        p.gear.add_equipment(&EquipmentSlot::AMMO, clone_opt_equipment(&self.ammo));
        p.gear.add_equipment(&EquipmentSlot::BODY, clone_opt_equipment(&self.body));
        p.gear.add_equipment(&EquipmentSlot::CAPE, clone_opt_equipment(&self.cape));
        p.gear.add_equipment(&EquipmentSlot::FEET, clone_opt_equipment(&self.feet));
        p.gear.add_equipment(&EquipmentSlot::HEAD, clone_opt_equipment(&self.head));
        p.gear.add_equipment(&EquipmentSlot::LEGS, clone_opt_equipment(&self.legs));
        p.gear.add_equipment(&EquipmentSlot::NECK, clone_opt_equipment(&self.neck));
        p.gear.add_equipment(&EquipmentSlot::RING, clone_opt_equipment(&self.ring));
        p.gear.add_equipment(&EquipmentSlot::HANDS, clone_opt_equipment(&self.hands));
        p.gear.add_equipment(&EquipmentSlot::SHIELD, clone_opt_equipment(&self.shield));
        p.gear.add_weapon(clone_opt_weapon(&self.weapon));
        p
    }
}

/// The block of one head choice: that choice prepended to every partial
/// assignment.
pub open spec fn prefix_all(
    x: Option<EquipmentV>,
    rests: Seq<Seq<Option<EquipmentV>>>,
) -> Seq<Seq<Option<EquipmentV>>> {
    Seq::new(rests.len(), |k: int| seq![x] + rests[k])
}

/// One cross-product step: every head choice prepended to every partial
/// assignment, head choices in order.
pub open spec fn spec_cross_step(
    head: Seq<Option<EquipmentV>>,
    rests: Seq<Seq<Option<EquipmentV>>>,
) -> Seq<Seq<Option<EquipmentV>>>
    decreases head.len(),
{
    if head.len() == 0 {
        Seq::empty()
    } else {
        spec_cross_step(head.drop_last(), rests) + prefix_all(head.last(), rests)
    }
}

/// The cross product of a list of candidate pools, first pool outermost.
pub open spec fn spec_cross(pools: Seq<Seq<Option<EquipmentV>>>) -> Seq<Seq<Option<EquipmentV>>>
    decreases pools.len(),
{
    if pools.len() == 0 {
        seq![Seq::<Option<EquipmentV>>::empty()]
    } else {
        spec_cross_step(pools[0], spec_cross(pools.drop_first()))
    }
}

/// The product of the pool sizes.
pub open spec fn pools_prod(pools: Seq<Seq<Option<EquipmentV>>>) -> int
    decreases pools.len(),
{
    if pools.len() == 0 {
        1
    } else {
        pools[0].len() * pools_prod(pools.drop_first())
    }
}

/// A concatenation has no duplicates when both parts have none and no
/// element stands in both.
proof fn lemma_concat_nodup<T>(a: Seq<T>, b: Seq<T>)
    requires
        a.no_duplicates(),
        b.no_duplicates(),
        forall|x: T| !(#[trigger] a.contains(x) && b.contains(x)),
    ensures
        (a + b).no_duplicates(),
{
    assert forall|i: int, j: int|
        0 <= i < (a + b).len() && 0 <= j < (a + b).len() && i != j implies (a + b)[i] != (a
        + b)[j] by {
        if i < a.len() && j < a.len() {
        } else if i >= a.len() && j >= a.len() {
        } else if i < a.len() && j >= a.len() {
            if (a + b)[i] == (a + b)[j] {
                assert(a.contains((a + b)[i]));
                assert(b.contains((a + b)[j]));
            }
        } else {
            if (a + b)[i] == (a + b)[j] {
                assert(a.contains((a + b)[j]));
                assert(b.contains((a + b)[i]));
            }
        }
    }
}

/// Membership in one cross-product step: exactly the assignments whose
/// first choice is in the head pool and whose rest is a known partial
/// assignment.
proof fn lemma_cross_step_contains(
    head: Seq<Option<EquipmentV>>,
    rests: Seq<Seq<Option<EquipmentV>>>,
    c: Seq<Option<EquipmentV>>,
)
    ensures
        spec_cross_step(head, rests).contains(c) <==> (c.len() >= 1 && head.contains(c[0])
            && rests.contains(c.drop_first())),
    decreases head.len(),
{
    broadcast use vstd::seq_lib::lemma_seq_concat_contains_all_elements;

    if head.len() == 0 {
    } else {
        let a = spec_cross_step(head.drop_last(), rests);
        let b = prefix_all(head.last(), rests);
        lemma_cross_step_contains(head.drop_last(), rests, c);
        // b holds exactly the assignments headed by the last head choice
        if b.contains(c) {
            let k = choose|k: int| 0 <= k < b.len() && b[k] == c;
            assert(c == seq![head.last()] + rests[k]);
            assert(c.drop_first() =~= rests[k]);
        }
        if c.len() >= 1 && c[0] == head.last() && rests.contains(c.drop_first()) {
            let k = choose|k: int| 0 <= k < rests.len() && rests[k] == c.drop_first();
            assert(b[k] == seq![head.last()] + rests[k]);
            assert(c =~= seq![c[0]] + c.drop_first());
            assert(b.contains(c));
        }
        // the head pool is its front part plus its last element
        assert(head =~= head.drop_last() + seq![head.last()]);
        assert(head.contains(c.first()) <==> head.drop_last().contains(c.first()) || c.first()
            == head.last()) by {
            if head.drop_last().contains(c.first()) || c.first() == head.last() {
                assert((head.drop_last() + seq![head.last()]).contains(c.first()));
            }
        }
    }
}

/// One cross-product step of duplicate-free pools is duplicate-free.
proof fn lemma_cross_step_nodup(
    head: Seq<Option<EquipmentV>>,
    rests: Seq<Seq<Option<EquipmentV>>>,
)
    requires
        head.no_duplicates(),
        rests.no_duplicates(),
    ensures
        spec_cross_step(head, rests).no_duplicates(),
    decreases head.len(),
{
    if head.len() == 0 {
    } else {
        let a = spec_cross_step(head.drop_last(), rests);
        let b = prefix_all(head.last(), rests);
        assert(head.drop_last().no_duplicates());
        lemma_cross_step_nodup(head.drop_last(), rests);
        assert(b.no_duplicates()) by {
            assert forall|k1: int, k2: int|
                0 <= k1 < b.len() && 0 <= k2 < b.len() && k1 != k2 implies b[k1] != b[k2] by {
                if b[k1] == b[k2] {
                    assert((seq![head.last()] + rests[k1]).drop_first() =~= rests[k1]);
                    assert((seq![head.last()] + rests[k2]).drop_first() =~= rests[k2]);
                }
            }
        }
        assert forall|x: Seq<Option<EquipmentV>>| !(#[trigger] a.contains(x) && b.contains(
            x,
        )) by {
            if a.contains(x) && b.contains(x) {
                lemma_cross_step_contains(head.drop_last(), rests, x);
                let k = choose|k: int| 0 <= k < b.len() && b[k] == x;
                assert(x == seq![head.last()] + rests[k]);
                assert(x[0] == head.last());
                // the last head choice cannot be in the front part
                let i = choose|i: int|
                    0 <= i < head.drop_last().len() && head.drop_last()[i] == x[0];
                assert(head[i] == head[head.len() - 1]);
            }
        }
        lemma_concat_nodup(a, b);
    }
}

/// The size of one cross-product step.
proof fn lemma_cross_step_len(
    head: Seq<Option<EquipmentV>>,
    rests: Seq<Seq<Option<EquipmentV>>>,
)
    ensures
        spec_cross_step(head, rests).len() == head.len() * rests.len(),
    decreases head.len(),
{
    if head.len() == 0 {
        assert(head.len() * rests.len() == 0) by (nonlinear_arith)
            requires
                head.len() == 0,
        ;
    } else {
        lemma_cross_step_len(head.drop_last(), rests);
        assert((head.len() - 1) * rests.len() + rests.len() == head.len() * rests.len())
            by (nonlinear_arith);
    }
}

/// Membership in the cross product: exactly the assignments that pick
/// one candidate of each pool, in pool order.
pub proof fn lemma_cross_contains(
    pools: Seq<Seq<Option<EquipmentV>>>,
    c: Seq<Option<EquipmentV>>,
)
    ensures
        spec_cross(pools).contains(c) <==> (c.len() == pools.len() && forall|p: int|
            0 <= p < pools.len() ==> #[trigger] pools[p].contains(c[p])),
    decreases pools.len(),
{
    if pools.len() == 0 {
        if spec_cross(pools).contains(c) {
            assert(c =~= Seq::<Option<EquipmentV>>::empty());
        }
        if c.len() == 0 {
            assert(spec_cross(pools)[0] == c);
        }
    } else {
        lemma_cross_step_contains(pools[0], spec_cross(pools.drop_first()), c);
        lemma_cross_contains(pools.drop_first(), c.drop_first());
        if spec_cross(pools).contains(c) {
            assert forall|p: int| 0 <= p < pools.len() implies #[trigger] pools[p].contains(
                c[p],
            ) by {
                if p == 0 {
                } else {
                    assert(pools.drop_first()[p - 1].contains(c.drop_first()[p - 1]));
                }
            }
        }
        if c.len() == pools.len() && (forall|p: int|
            0 <= p < pools.len() ==> #[trigger] pools[p].contains(c[p])) {
            assert forall|p: int|
                0 <= p < pools.drop_first().len() implies #[trigger] pools.drop_first()[p]
                .contains(c.drop_first()[p]) by {
                assert(pools[p + 1].contains(c[p + 1]));
            }
        }
    }
}

/// The cross product of duplicate-free pools is duplicate-free.
pub proof fn lemma_cross_nodup(pools: Seq<Seq<Option<EquipmentV>>>)
    requires
        forall|p: int| 0 <= p < pools.len() ==> (#[trigger] pools[p]).no_duplicates(),
    ensures
        spec_cross(pools).no_duplicates(),
    decreases pools.len(),
{
    if pools.len() == 0 {
    } else {
        assert forall|p: int|
            0 <= p < pools.drop_first().len() implies (#[trigger] pools.drop_first()[p])
            .no_duplicates() by {
            assert(pools[p + 1].no_duplicates());
        }
        lemma_cross_nodup(pools.drop_first());
        assert(pools[0].no_duplicates());
        lemma_cross_step_nodup(pools[0], spec_cross(pools.drop_first()));
    }
}

/// The size of the cross product is the product of the pool sizes.
pub proof fn lemma_cross_len(pools: Seq<Seq<Option<EquipmentV>>>)
    ensures
        spec_cross(pools).len() == pools_prod(pools),
    decreases pools.len(),
{
    if pools.len() == 0 {
    } else {
        lemma_cross_len(pools.drop_first());
        lemma_cross_step_len(pools[0], spec_cross(pools.drop_first()));
    }
}

/// One candidate prepended to one partial assignment.
fn cons_combo(x: &Option<Equipment>, rest: &Vec<Option<Equipment>>) -> (r: Vec<Option<Equipment>>)
    ensures
        r.deep_view() == seq![x.deep_view()] + rest.deep_view(),
{
    let mut v: Vec<Option<Equipment>> = Vec::new();
    v.push(clone_opt_equipment(x));
    let mut k: usize = 0;
    while k < rest.len()
        invariant
            0 <= k <= rest.len(),
            v.deep_view() =~= (seq![x.deep_view()] + rest.deep_view().take(k as int)),
        decreases rest.len() - k,
    {
        let ghost pre = v.deep_view();
        v.push(clone_opt_equipment(&rest[k]));
        proof {
            assert(v.deep_view() =~= pre.push(rest.deep_view()[k as int]));
            assert(rest.deep_view().take(k + 1 as int) =~= rest.deep_view().take(k as int).push(
                rest.deep_view()[k as int],
            ));
            assert(v.deep_view() =~= (seq![x.deep_view()] + rest.deep_view().take(k + 1 as int)));
        }
        k = k + 1;
    }
    proof {
        assert(rest.deep_view().take(rest.deep_view().len() as int) =~= rest.deep_view());
        assert(v.deep_view() =~= seq![x.deep_view()] + rest.deep_view());
    }
    v
}

/// The cross product of the pools from index `i` on, in the exact
/// order of [`spec_cross`].
fn cross_from(pools: &Vec<Vec<Option<Equipment>>>, i: usize) -> (r: Vec<Vec<Option<Equipment>>>)
    requires
        i <= pools.len(),
    ensures
        r.deep_view() == spec_cross(pools.deep_view().skip(i as int)),
    decreases pools.len() - i,
{
    if i == pools.len() {
        let mut r: Vec<Vec<Option<Equipment>>> = Vec::new();
        r.push(Vec::new());
        proof {
            assert(r.deep_view()[0] =~= Seq::<Option<EquipmentV>>::empty());
            assert(pools.deep_view().skip(i as int) =~= Seq::<Seq<Option<EquipmentV>>>::empty());
            assert(r.deep_view() =~= spec_cross(pools.deep_view().skip(i as int)));
        }
        r
    } else {
        let rests = cross_from(pools, i + 1);
        let ghost hdv = pools.deep_view()[i as int];
        let ghost restsdv = rests.deep_view();
        let mut out: Vec<Vec<Option<Equipment>>> = Vec::new();
        let mut j: usize = 0;
        while j < pools[i].len()
            invariant
                i < pools.len(),
                0 <= j <= hdv.len(),
                hdv == pools.deep_view()[i as int],
                restsdv == rests.deep_view(),
                out.deep_view() == spec_cross_step(hdv.take(j as int), restsdv),
            decreases hdv.len() - j,
        {
            let mut k: usize = 0;
            while k < rests.len()
                invariant
                    i < pools.len(),
                    0 <= j < hdv.len(),
                    0 <= k <= rests.len(),
                    hdv == pools.deep_view()[i as int],
                    restsdv == rests.deep_view(),
                        out.deep_view() == spec_cross_step(hdv.take(j as int), restsdv)
                        + prefix_all(hdv[j as int], restsdv).take(k as int),
                decreases rests.len() - k,
            {
                let combo = cons_combo(&pools[i][j], &rests[k]);
                let ghost pre = out.deep_view();
                let ghost cdv = combo.deep_view();
                out.push(combo);
                proof {
                    assert(out.deep_view() =~= pre.push(cdv));
                    assert(prefix_all(hdv[j as int], restsdv)[k as int] == seq![hdv[j as int]]
                        + restsdv[k as int]);
                    assert(prefix_all(hdv[j as int], restsdv).take(k + 1 as int) =~= prefix_all(
                        hdv[j as int],
                        restsdv,
                    ).take(k as int).push(seq![hdv[j as int]] + restsdv[k as int]));
                    assert(out.deep_view() =~= spec_cross_step(hdv.take(j as int), restsdv)
                        + prefix_all(hdv[j as int], restsdv).take(k + 1 as int));
                }
                k = k + 1;
            }
            proof {
                assert(prefix_all(hdv[j as int], restsdv).take(restsdv.len() as int) =~= prefix_all(
                    hdv[j as int],
                    restsdv,
                ));
                let h1 = hdv.take(j + 1 as int);
                assert(h1.drop_last() =~= hdv.take(j as int));
                assert(h1.last() == hdv[j as int]);
                assert(spec_cross_step(h1, restsdv) == spec_cross_step(hdv.take(j as int), restsdv)
                    + prefix_all(hdv[j as int], restsdv));
            }
            j = j + 1;
        }
        proof {
            assert(hdv.take(hdv.len() as int) =~= hdv);
            let tail = pools.deep_view().skip(i as int);
            assert(tail[0] == hdv);
            assert(tail.drop_first() =~= pools.deep_view().skip(i + 1 as int));
            assert(spec_cross(tail) == spec_cross_step(hdv, spec_cross(tail.drop_first())));
        }
        out
    }
}

/// Do two optional items hold the same name and stats?
pub fn opt_equipment_eq(a: &Option<Equipment>, b: &Option<Equipment>) -> (r: bool)
    ensures
        r == (a.deep_view() == b.deep_view()),
{
    match (a, b) {
        (None, None) => true,
        (Some(x), Some(y)) => {
            let names = x.name == y.name;
            let stats = x.equipment == y.equipment;
            names && stats
        },
        _ => false,
    }
}

/// Do two stances agree on label, type and style?
fn stance_eq(a: &crate::player::WeaponStance, b: &crate::player::WeaponStance) -> (r: bool)
    ensures
        r == (a@ == b@),
{
    let labels = a.combat_style == b.combat_style;
    let types = match (&a.attack_type, &b.attack_type) {
        (None, None) => true,
        (Some(x), Some(y)) => *x == *y,
        _ => false,
    };
    let styles = match (&a.attack_style, &b.attack_style) {
        (None, None) => true,
        (Some(x), Some(y)) => *x == *y,
        _ => false,
    };
    labels && types && styles
}

/// Do two weapons hold the same name, stats, speed and stances?
pub fn weapon_eq(a: &Weapon, b: &Weapon) -> (r: bool)
    ensures
        r == (a@ == b@),
{
    let names = a.name == b.name;
    let stats = a.equipment == b.equipment;
    let speed = a.weapon.attack_speed == b.weapon.attack_speed;
    if !(names && stats && speed) {
        return false;
    }
    if a.weapon.stances.len() != b.weapon.stances.len() {
        proof {
            assert(a@.weapon.stances.len() != b@.weapon.stances.len());
        }
        return false;
    }
    let mut i: usize = 0;
    while i < a.weapon.stances.len()
        invariant
            0 <= i <= a.weapon.stances.len(),
            a.weapon.stances.len() == b.weapon.stances.len(),
            forall|j: int|
                0 <= j < i ==> a.weapon.stances.deep_view()[j] == b.weapon.stances.deep_view()[j],
        decreases a.weapon.stances.len() - i,
    {
        if !stance_eq(&a.weapon.stances[i], &b.weapon.stances[i]) {
            proof {
                assert(a@.weapon.stances[i as int] != b@.weapon.stances[i as int]);
            }
            return false;
        }
        i = i + 1;
    }
    proof {
        assert(a.weapon.stances.deep_view() =~= b.weapon.stances.deep_view());
        assert(a@.weapon =~= b@.weapon);
    }
    true
}

/// Do two optional weapons agree?
pub fn opt_weapon_eq(a: &Option<Weapon>, b: &Option<Weapon>) -> (r: bool)
    ensures
        r == (a.deep_view() == b.deep_view()),
{
    match (a, b) {
        (None, None) => true,
        (Some(x), Some(y)) => weapon_eq(x, y),
        _ => false,
    }
}

/// Mathematical value of a [`Simulation`].
pub struct SimulationV {
    pub gear: GearV,
    pub original_gear: GearV,
    pub equipment: crate::player::SpareGearV,
    pub ammo: Seq<Option<EquipmentV>>,
    pub body: Seq<Option<EquipmentV>>,
    pub cape: Seq<Option<EquipmentV>>,
    pub feet: Seq<Option<EquipmentV>>,
    pub head: Seq<Option<EquipmentV>>,
    pub legs: Seq<Option<EquipmentV>>,
    pub neck: Seq<Option<EquipmentV>>,
    pub ring: Seq<Option<EquipmentV>>,
    pub hands: Seq<Option<EquipmentV>>,
    pub shield: Seq<Option<EquipmentV>>,
    pub weapon: Seq<Option<WeaponV>>,
    pub twohand: Seq<Option<WeaponV>>,
}

/// One equipment pool in good shape: duplicate-free, offering the
/// empty choice, every item within bounds.
pub open spec fn equipment_pool_wf(pool: Seq<Option<EquipmentV>>) -> bool {
    &&& pool.no_duplicates()
    &&& pool.contains(None::<EquipmentV>)
    &&& forall|x: Option<EquipmentV>| #[trigger] pool.contains(x) ==> opt_equipment_wf(x)
}

/// One weapon pool in good shape: duplicate-free, offering the empty
/// choice, every weapon within bounds and of the stated handedness.
pub open spec fn weapon_pool_wf(pool: Seq<Option<WeaponV>>, slot: EquipmentSlot) -> bool {
    &&& pool.no_duplicates()
    &&& pool.contains(None::<WeaponV>)
    &&& forall|x: Option<WeaponV>| #[trigger] pool.contains(x) ==> (match x {
        Some(w) => w.wf() && w.equipment.slot == slot,
        None => true,
    })
}

impl SimulationV {
    pub open spec fn wf(self) -> bool {
        &&& equipment_pool_wf(self.ammo)
        &&& equipment_pool_wf(self.body)
        &&& equipment_pool_wf(self.cape)
        &&& equipment_pool_wf(self.feet)
        &&& equipment_pool_wf(self.head)
        &&& equipment_pool_wf(self.legs)
        &&& equipment_pool_wf(self.neck)
        &&& equipment_pool_wf(self.ring)
        &&& equipment_pool_wf(self.hands)
        &&& equipment_pool_wf(self.shield)
        &&& weapon_pool_wf(self.weapon, EquipmentSlot::WEAPON)
        &&& weapon_pool_wf(self.twohand, EquipmentSlot::TWOHAND)
    }
}

/// Is `x` a spare item of slot `slot` among the first `n` spares?
pub open spec fn in_spare_equipment(
    x: Option<EquipmentV>,
    spares: Seq<EquipmentV>,
    slot: EquipmentSlot,
    n: int,
) -> bool {
    exists|q: int|
        0 <= q < n && (#[trigger] spares[q]).equipment.slot == slot && x == Some(spares[q])
}

/// Is `x` a spare weapon of handedness `slot` among the first `n`?
pub open spec fn in_spare_weapons(
    x: Option<WeaponV>,
    spares: Seq<WeaponV>,
    slot: EquipmentSlot,
    n: int,
) -> bool {
    exists|q: int|
        0 <= q < n && (#[trigger] spares[q]).equipment.slot == slot && x == Some(spares[q])
}

/// Add one candidate to a pool unless an equal one is already there.
fn pool_insert_equipment(pool: &mut Vec<Option<Equipment>>, item: Option<Equipment>)
    ensures
        forall|x: Option<EquipmentV>|
            #[trigger] final(pool).deep_view().contains(x) <==> (old(
                pool,
            ).deep_view().contains(x) || x == item.deep_view()),
        old(pool).deep_view().no_duplicates() ==> final(pool).deep_view().no_duplicates(),
{
    let mut i: usize = 0;
    while i < pool.len()
        invariant
            0 <= i <= pool.len(),
            forall|j: int| 0 <= j < i ==> pool.deep_view()[j] != item.deep_view(),
            *pool == *old(pool),
        decreases pool.len() - i,
    {
        if opt_equipment_eq(&pool[i], &item) {
            proof {
                assert(pool.deep_view()[i as int] == item.deep_view());
                assert(pool.deep_view().contains(item.deep_view()));
            }
            return ;
        }
        i = i + 1;
    }
    let ghost pre = pool.deep_view();
    proof {
        assert(!pre.contains(item.deep_view()));
    }
    pool.push(item);
    proof {
        assert(pool.deep_view() =~= pre.push(item.deep_view()));
        assert forall|x: Option<EquipmentV>| #[trigger] pool.deep_view().contains(x) <==> (
        pre.contains(x) || x == item.deep_view()) by {
            if pool.deep_view().contains(x) {
                let j = choose|j: int|
                    0 <= j < pool.deep_view().len() && pool.deep_view()[j] == x;
                if j < pre.len() {
                    assert(pre.contains(x));
                }
            }
            if pre.contains(x) {
                let j = choose|j: int| 0 <= j < pre.len() && pre[j] == x;
                assert(pool.deep_view()[j] == x);
            }
            if x == item.deep_view() {
                assert(pool.deep_view()[pre.len() as int] == x);
            }
        }
        if pre.no_duplicates() {
            assert forall|m: int, n: int|
                0 <= m < pool.deep_view().len() && 0 <= n < pool.deep_view().len() && m
                    != n implies pool.deep_view()[m] != pool.deep_view()[n] by {
                if m < pre.len() && n < pre.len() {
                } else if m < pre.len() {
                    assert(pre.contains(pre[m]));
                } else if n < pre.len() {
                    assert(pre.contains(pre[n]));
                }
            }
        }
    }
}

/// Add one weapon candidate to a pool unless an equal one is already
/// there.
fn pool_insert_weapon(pool: &mut Vec<Option<Weapon>>, item: Option<Weapon>)
    ensures
        forall|x: Option<WeaponV>|
            #[trigger] final(pool).deep_view().contains(x) <==> (old(
                pool,
            ).deep_view().contains(x) || x == item.deep_view()),
        old(pool).deep_view().no_duplicates() ==> final(pool).deep_view().no_duplicates(),
{
    let mut i: usize = 0;
    while i < pool.len()
        invariant
            0 <= i <= pool.len(),
            forall|j: int| 0 <= j < i ==> pool.deep_view()[j] != item.deep_view(),
            *pool == *old(pool),
        decreases pool.len() - i,
    {
        if opt_weapon_eq(&pool[i], &item) {
            proof {
                assert(pool.deep_view()[i as int] == item.deep_view());
                assert(pool.deep_view().contains(item.deep_view()));
            }
            return ;
        }
        i = i + 1;
    }
    let ghost pre = pool.deep_view();
    proof {
        assert(!pre.contains(item.deep_view()));
    }
    pool.push(item);
    proof {
        assert(pool.deep_view() =~= pre.push(item.deep_view()));
        assert forall|x: Option<WeaponV>| #[trigger] pool.deep_view().contains(x) <==> (
        pre.contains(x) || x == item.deep_view()) by {
            if pool.deep_view().contains(x) {
                let j = choose|j: int|
                    0 <= j < pool.deep_view().len() && pool.deep_view()[j] == x;
                if j < pre.len() {
                    assert(pre.contains(x));
                }
            }
            if pre.contains(x) {
                let j = choose|j: int| 0 <= j < pre.len() && pre[j] == x;
                assert(pool.deep_view()[j] == x);
            }
            if x == item.deep_view() {
                assert(pool.deep_view()[pre.len() as int] == x);
            }
        }
        if pre.no_duplicates() {
            assert forall|m: int, n: int|
                0 <= m < pool.deep_view().len() && 0 <= n < pool.deep_view().len() && m
                    != n implies pool.deep_view()[m] != pool.deep_view()[n] by {
                if m < pre.len() && n < pre.len() {
                } else if m < pre.len() {
                    assert(pre.contains(pre[m]));
                } else if n < pre.len() {
                    assert(pre.contains(pre[n]));
                }
            }
        }
    }
}


/// Extending the scanned prefix by one spare that joins this pool.
proof fn lemma_epool_step_insert(
    pre: Seq<Option<EquipmentV>>,
    post: Seq<Option<EquipmentV>>,
    mid: Seq<Option<EquipmentV>>,
    spares: Seq<EquipmentV>,
    slot: EquipmentSlot,
    i: int,
)
    requires
        0 <= i < spares.len(),
        spares[i].equipment.slot == slot,
        forall|x: Option<EquipmentV>|
            #[trigger] pre.contains(x) <==> (mid.contains(x) || in_spare_equipment(
                x,
                spares,
                slot,
                i,
            )),
        forall|x: Option<EquipmentV>|
            #[trigger] post.contains(x) <==> (pre.contains(x) || x == Some(spares[i])),
    ensures
        forall|x: Option<EquipmentV>|
            #[trigger] post.contains(x) <==> (mid.contains(x) || in_spare_equipment(
                x,
                spares,
                slot,
                i + 1,
            )),
{
    assert forall|x: Option<EquipmentV>|
        #[trigger] post.contains(x) <==> (mid.contains(x) || in_spare_equipment(
            x,
            spares,
            slot,
            i + 1,
        )) by {
        if post.contains(x) {
            if pre.contains(x) {
                if !mid.contains(x) {
                    let q = choose|q: int|
                        0 <= q < i && (#[trigger] spares[q]).equipment.slot == slot && x == Some(
                            spares[q],
                        );
                    assert(in_spare_equipment(x, spares, slot, i + 1));
                }
            } else {
                assert(x == Some(spares[i]));
                assert(in_spare_equipment(x, spares, slot, i + 1));
            }
        }
        if in_spare_equipment(x, spares, slot, i + 1) {
            let q = choose|q: int|
                0 <= q < i + 1 && (#[trigger] spares[q]).equipment.slot == slot && x == Some(
                    spares[q],
                );
            if q < i {
                assert(in_spare_equipment(x, spares, slot, i));
            } else {
                assert(x == Some(spares[i]));
            }
        }
    }
}

/// Extending the scanned prefix by one spare that belongs elsewhere.
proof fn lemma_epool_step_skip(
    pool: Seq<Option<EquipmentV>>,
    mid: Seq<Option<EquipmentV>>,
    spares: Seq<EquipmentV>,
    slot: EquipmentSlot,
    i: int,
)
    requires
        0 <= i < spares.len(),
        spares[i].equipment.slot != slot,
        forall|x: Option<EquipmentV>|
            #[trigger] pool.contains(x) <==> (mid.contains(x) || in_spare_equipment(
                x,
                spares,
                slot,
                i,
            )),
    ensures
        forall|x: Option<EquipmentV>|
            #[trigger] pool.contains(x) <==> (mid.contains(x) || in_spare_equipment(
                x,
                spares,
                slot,
                i + 1,
            )),
{
    assert forall|x: Option<EquipmentV>|
        #[trigger] pool.contains(x) <==> (mid.contains(x) || in_spare_equipment(
            x,
            spares,
            slot,
            i + 1,
        )) by {
        if pool.contains(x) && !mid.contains(x) {
            let q = choose|q: int|
                0 <= q < i && (#[trigger] spares[q]).equipment.slot == slot && x == Some(
                    spares[q],
                );
            assert(in_spare_equipment(x, spares, slot, i + 1));
        }
        if in_spare_equipment(x, spares, slot, i + 1) {
            let q = choose|q: int|
                0 <= q < i + 1 && (#[trigger] spares[q]).equipment.slot == slot && x == Some(
                    spares[q],
                );
            assert(q != i);
            assert(in_spare_equipment(x, spares, slot, i));
        }
    }
}

/// Extending the scanned prefix by one spare weapon that joins this
/// pool.
proof fn lemma_wpool_step_insert(
    pre: Seq<Option<WeaponV>>,
    post: Seq<Option<WeaponV>>,
    mid: Seq<Option<WeaponV>>,
    spares: Seq<WeaponV>,
    slot: EquipmentSlot,
    i: int,
)
    requires
        0 <= i < spares.len(),
        spares[i].equipment.slot == slot,
        forall|x: Option<WeaponV>|
            #[trigger] pre.contains(x) <==> (mid.contains(x) || in_spare_weapons(
                x,
                spares,
                slot,
                i,
            )),
        forall|x: Option<WeaponV>|
            #[trigger] post.contains(x) <==> (pre.contains(x) || x == Some(spares[i])),
    ensures
        forall|x: Option<WeaponV>|
            #[trigger] post.contains(x) <==> (mid.contains(x) || in_spare_weapons(
                x,
                spares,
                slot,
                i + 1,
            )),
{
    assert forall|x: Option<WeaponV>|
        #[trigger] post.contains(x) <==> (mid.contains(x) || in_spare_weapons(
            x,
            spares,
            slot,
            i + 1,
        )) by {
        if post.contains(x) {
            if pre.contains(x) {
                if !mid.contains(x) {
                    let q = choose|q: int|
                        0 <= q < i && (#[trigger] spares[q]).equipment.slot == slot && x == Some(
                            spares[q],
                        );
                    assert(in_spare_weapons(x, spares, slot, i + 1));
                }
            } else {
                assert(x == Some(spares[i]));
                assert(in_spare_weapons(x, spares, slot, i + 1));
            }
        }
        if in_spare_weapons(x, spares, slot, i + 1) {
            let q = choose|q: int|
                0 <= q < i + 1 && (#[trigger] spares[q]).equipment.slot == slot && x == Some(
                    spares[q],
                );
            if q < i {
                assert(in_spare_weapons(x, spares, slot, i));
            } else {
                assert(x == Some(spares[i]));
            }
        }
    }
}

/// Extending the scanned prefix by one spare weapon of the other
/// handedness.
proof fn lemma_wpool_step_skip(
    pool: Seq<Option<WeaponV>>,
    mid: Seq<Option<WeaponV>>,
    spares: Seq<WeaponV>,
    slot: EquipmentSlot,
    i: int,
)
    requires
        0 <= i < spares.len(),
        spares[i].equipment.slot != slot,
        forall|x: Option<WeaponV>|
            #[trigger] pool.contains(x) <==> (mid.contains(x) || in_spare_weapons(
                x,
                spares,
                slot,
                i,
            )),
    ensures
        forall|x: Option<WeaponV>|
            #[trigger] pool.contains(x) <==> (mid.contains(x) || in_spare_weapons(
                x,
                spares,
                slot,
                i + 1,
            )),
{
    assert forall|x: Option<WeaponV>|
        #[trigger] pool.contains(x) <==> (mid.contains(x) || in_spare_weapons(
            x,
            spares,
            slot,
            i + 1,
        )) by {
        if pool.contains(x) && !mid.contains(x) {
            let q = choose|q: int|
                0 <= q < i && (#[trigger] spares[q]).equipment.slot == slot && x == Some(
                    spares[q],
                );
            assert(in_spare_weapons(x, spares, slot, i + 1));
        }
        if in_spare_weapons(x, spares, slot, i + 1) {
            let q = choose|q: int|
                0 <= q < i + 1 && (#[trigger] spares[q]).equipment.slot == slot && x == Some(
                    spares[q],
                );
            assert(q != i);
            assert(in_spare_weapons(x, spares, slot, i));
        }
    }
}


/// The nine managed slot pools, in enumeration order.
pub open spec fn spec_slot_pools(s: SimulationV) -> Seq<Seq<Option<EquipmentV>>> {
    seq![s.ammo, s.body, s.cape, s.feet, s.head, s.legs, s.neck, s.ring, s.hands]
}

/// The nine managed slots of a gear set, in enumeration order.
pub open spec fn proj9(gs: GearSetV) -> Seq<Option<EquipmentV>> {
    seq![gs.ammo, gs.body, gs.cape, gs.feet, gs.head, gs.legs, gs.neck, gs.ring, gs.hands]
}

/// The weapon half of candidacy: a two-handed choice with the shield
/// forced empty, or a one-handed choice paired with any shield choice.
pub open spec fn candidate_weapon(s: SimulationV, gs: GearSetV) -> bool {
    ||| (s.twohand.contains(gs.weapon) && gs.shield is None)
    ||| (s.weapon.contains(gs.weapon) && s.shield.contains(gs.shield))
}

/// A gear set the enumeration owes: every managed slot drawn from its
/// pool, and a valid weapon/shield branch.
pub open spec fn spec_is_candidate(s: SimulationV, gs: GearSetV) -> bool {
    &&& s.ammo.contains(gs.ammo)
    &&& s.body.contains(gs.body)
    &&& s.cape.contains(gs.cape)
    &&& s.feet.contains(gs.feet)
    &&& s.head.contains(gs.head)
    &&& s.legs.contains(gs.legs)
    &&& s.neck.contains(gs.neck)
    &&& s.ring.contains(gs.ring)
    &&& s.hands.contains(gs.hands)
    &&& candidate_weapon(s, gs)
}

/// Every candidate of a well-formed simulation is a valid gear set
/// wearing only well-formed items.
pub proof fn lemma_candidate_gear_wf(s: SimulationV, gs: GearSetV)
    requires
        s.wf(),
        spec_is_candidate(s, gs),
    ensures
        gearset_valid(gs),
        spec_gear_of_set(gs).wf(),
{
}

/// Pushing onto a sequence adds exactly one member.
proof fn lemma_push_contains<T>(s: Seq<T>, e: T, x: T)
    ensures
        s.push(e).contains(x) <==> (s.contains(x) || x == e),
{
    if s.push(e).contains(x) {
        let j = choose|j: int| 0 <= j < s.push(e).len() && s.push(e)[j] == x;
        if j < s.len() {
            assert(s.contains(x));
        }
    }
    if s.contains(x) {
        let j = choose|j: int| 0 <= j < s.len() && s[j] == x;
        assert(s.push(e)[j] == x);
    }
    if x == e {
        assert(s.push(e)[s.len() as int] == x);
    }
}

/// The two-handed branches of one slot assignment, up to index `ti`.
pub open spec fn branch1_upto(s: SimulationV, gs: GearSetV, ti: int) -> bool {
    exists|t: int| 0 <= t < ti && gs.weapon == s.twohand[t] && gs.shield is None
}

/// The (one-handed weapon, shield) branches of one slot assignment, in
/// row-major order up to row `wi`, column `si`; the doubly empty pair
/// is the two-handed branches' and is skipped here.
pub open spec fn branch2_upto(s: SimulationV, gs: GearSetV, wi: int, si: int) -> bool {
    exists|ww: int, ss: int|
        0 <= ww < s.weapon.len() && 0 <= ss < s.shield.len() && (ww < wi || (ww == wi && ss < si))
            && !(s.weapon[ww] is None && s.shield[ss] is None) && gs.weapon == s.weapon[ww]
            && gs.shield == s.shield[ss]
}

/// One candidate pool, copied.
fn clone_equipment_pool(v: &Vec<Option<Equipment>>) -> (r: Vec<Option<Equipment>>)
    ensures
        r.deep_view() == v.deep_view(),
{
    let mut r: Vec<Option<Equipment>> = Vec::new();
    let mut k: usize = 0;
    while k < v.len()
        invariant
            0 <= k <= v.len(),
            r.deep_view() =~= v.deep_view().take(k as int),
        decreases v.len() - k,
    {
        let ghost pre = r.deep_view();
        r.push(clone_opt_equipment(&v[k]));
        proof {
            assert(r.deep_view() =~= pre.push(v.deep_view()[k as int]));
            assert(v.deep_view().take(k + 1 as int) =~= v.deep_view().take(k as int).push(
                v.deep_view()[k as int],
            ));
        }
        k = k + 1;
    }
    proof {
        assert(v.deep_view().take(v.deep_view().len() as int) =~= v.deep_view());
    }
    r
}

/// The optimizer's working state: the starting gear, the spare pool,
/// and one candidate pool per axis.
#[derive(Debug)]
pub struct Simulation {
    pub gear: Gear,
    pub original_gear: Gear,
    pub equipment: SpareGear,
    pub ammo: Vec<Option<Equipment>>,
    pub body: Vec<Option<Equipment>>,
    pub cape: Vec<Option<Equipment>>,
    pub feet: Vec<Option<Equipment>>,
    pub head: Vec<Option<Equipment>>,
    pub legs: Vec<Option<Equipment>>,
    pub neck: Vec<Option<Equipment>>,
    pub ring: Vec<Option<Equipment>>,
    pub hands: Vec<Option<Equipment>>,
    pub shield: Vec<Option<Equipment>>,
    pub weapon: Vec<Option<Weapon>>,
    pub twohand: Vec<Option<Weapon>>,
}

impl View for Simulation {
    type V = SimulationV;

    open spec fn view(&self) -> SimulationV {
        SimulationV {
            gear: self.gear@,
            original_gear: self.original_gear@,
            equipment: self.equipment@,
            ammo: self.ammo.deep_view(),
            body: self.body.deep_view(),
            cape: self.cape.deep_view(),
            feet: self.feet.deep_view(),
            head: self.head.deep_view(),
            legs: self.legs.deep_view(),
            neck: self.neck.deep_view(),
            ring: self.ring.deep_view(),
            hands: self.hands.deep_view(),
            shield: self.shield.deep_view(),
            weapon: self.weapon.deep_view(),
            twohand: self.twohand.deep_view(),
        }
    }
}

/// A one-element pool holding only the empty choice.
fn seeded_equipment_pool() -> (r: Vec<Option<Equipment>>)
    ensures
        r.deep_view() =~= seq![None::<EquipmentV>],
        equipment_pool_wf(r.deep_view()),
{
    let mut v: Vec<Option<Equipment>> = Vec::new();
    v.push(None);
    proof {
        assert(v.deep_view() =~= seq![None::<EquipmentV>]);
        assert(v.deep_view()[0] == None::<EquipmentV>);
        assert(v.deep_view().contains(None::<EquipmentV>));
    }
    v
}

/// A one-element weapon pool holding only the empty choice.
fn seeded_weapon_pool() -> (r: Vec<Option<Weapon>>)
    ensures
        r.deep_view() =~= seq![None::<WeaponV>],
        weapon_pool_wf(r.deep_view(), EquipmentSlot::WEAPON),
        weapon_pool_wf(r.deep_view(), EquipmentSlot::TWOHAND),
{
    let mut v: Vec<Option<Weapon>> = Vec::new();
    v.push(None);
    proof {
        assert(v.deep_view() =~= seq![None::<WeaponV>]);
        assert(v.deep_view()[0] == None::<WeaponV>);
        assert(v.deep_view().contains(None::<WeaponV>));
    }
    v
}

impl Simulation {
    /// A fresh simulation: the pools hold only the empty choice.
    pub fn new(gear: &Gear, equipment: &SpareGear) -> (r: Self)
        ensures
            r@.gear == gear@,
            r@.original_gear == gear@,
            r@.equipment == equipment@,
            r@.ammo =~= seq![None::<EquipmentV>],
            r@.body =~= seq![None::<EquipmentV>],
            r@.cape =~= seq![None::<EquipmentV>],
            r@.feet =~= seq![None::<EquipmentV>],
            r@.head =~= seq![None::<EquipmentV>],
            r@.legs =~= seq![None::<EquipmentV>],
            r@.neck =~= seq![None::<EquipmentV>],
            r@.ring =~= seq![None::<EquipmentV>],
            r@.hands =~= seq![None::<EquipmentV>],
            r@.shield =~= seq![None::<EquipmentV>],
            r@.weapon =~= seq![None::<WeaponV>],
            r@.twohand =~= seq![None::<WeaponV>],
            r@.wf(),
    {
        Simulation {
            gear: gear.clone(),
            original_gear: gear.clone(),
            equipment: equipment.clone(),
            ammo: seeded_equipment_pool(),
            body: seeded_equipment_pool(),
            cape: seeded_equipment_pool(),
            feet: seeded_equipment_pool(),
            head: seeded_equipment_pool(),
            legs: seeded_equipment_pool(),
            neck: seeded_equipment_pool(),
            ring: seeded_equipment_pool(),
            hands: seeded_equipment_pool(),
            shield: seeded_equipment_pool(),
            weapon: seeded_weapon_pool(),
            twohand: seeded_weapon_pool(),
        }
    }

    /// The gear the simulation started from.
    pub fn get_gear(&self) -> (r: &Gear)
        ensures
            r@ == self@.gear,
    {
        &self.gear
    }

    /// Fill the pools: the worn gear joins its slot's pool, the worn
    /// weapon its handedness pool, and every spare item and weapon the
    /// pool its slot names.
    pub fn init(&mut self)
        requires
            old(self)@.wf(),
            old(self)@.gear.wf(),
            old(self)@.equipment.wf(),
        ensures
            final(self)@.wf(),
            final(self)@.gear == old(self)@.gear,
            final(self)@.original_gear == old(self)@.original_gear,
            final(self)@.equipment == old(self)@.equipment,
            forall|x: Option<EquipmentV>|
                #[trigger] final(self)@.ammo.contains(x) <==> (old(self)@.ammo.contains(x) || x
                    == old(self)@.gear.ammo || in_spare_equipment(
                    x,
                    old(self)@.equipment.spare_equipment,
                    EquipmentSlot::AMMO,
                    old(self)@.equipment.spare_equipment.len() as int,
                )),
            forall|x: Option<EquipmentV>|
                #[trigger] final(self)@.body.contains(x) <==> (old(self)@.body.contains(x) || x
                    == old(self)@.gear.body || in_spare_equipment(
                    x,
                    old(self)@.equipment.spare_equipment,
                    EquipmentSlot::BODY,
                    old(self)@.equipment.spare_equipment.len() as int,
                )),
            forall|x: Option<EquipmentV>|
                #[trigger] final(self)@.cape.contains(x) <==> (old(self)@.cape.contains(x) || x
                    == old(self)@.gear.cape || in_spare_equipment(
                    x,
                    old(self)@.equipment.spare_equipment,
                    EquipmentSlot::CAPE,
                    old(self)@.equipment.spare_equipment.len() as int,
                )),
            forall|x: Option<EquipmentV>|
                #[trigger] final(self)@.feet.contains(x) <==> (old(self)@.feet.contains(x) || x
                    == old(self)@.gear.feet || in_spare_equipment(
                    x,
                    old(self)@.equipment.spare_equipment,
                    EquipmentSlot::FEET,
                    old(self)@.equipment.spare_equipment.len() as int,
                )),
            forall|x: Option<EquipmentV>|
                #[trigger] final(self)@.head.contains(x) <==> (old(self)@.head.contains(x) || x
                    == old(self)@.gear.head || in_spare_equipment(
                    x,
                    old(self)@.equipment.spare_equipment,
                    EquipmentSlot::HEAD,
                    old(self)@.equipment.spare_equipment.len() as int,
                )),
            forall|x: Option<EquipmentV>|
                #[trigger] final(self)@.legs.contains(x) <==> (old(self)@.legs.contains(x) || x
                    == old(self)@.gear.legs || in_spare_equipment(
                    x,
                    old(self)@.equipment.spare_equipment,
                    EquipmentSlot::LEGS,
                    old(self)@.equipment.spare_equipment.len() as int,
                )),
            forall|x: Option<EquipmentV>|
                #[trigger] final(self)@.neck.contains(x) <==> (old(self)@.neck.contains(x) || x
                    == old(self)@.gear.neck || in_spare_equipment(
                    x,
                    old(self)@.equipment.spare_equipment,
                    EquipmentSlot::NECK,
                    old(self)@.equipment.spare_equipment.len() as int,
                )),
            forall|x: Option<EquipmentV>|
                #[trigger] final(self)@.ring.contains(x) <==> (old(self)@.ring.contains(x) || x
                    == old(self)@.gear.ring || in_spare_equipment(
                    x,
                    old(self)@.equipment.spare_equipment,
                    EquipmentSlot::RING,
                    old(self)@.equipment.spare_equipment.len() as int,
                )),
            forall|x: Option<EquipmentV>|
                #[trigger] final(self)@.hands.contains(x) <==> (old(self)@.hands.contains(x) || x
                    == old(self)@.gear.hands || in_spare_equipment(
                    x,
                    old(self)@.equipment.spare_equipment,
                    EquipmentSlot::HANDS,
                    old(self)@.equipment.spare_equipment.len() as int,
                )),
            forall|x: Option<EquipmentV>|
                #[trigger] final(self)@.shield.contains(x) <==> (old(self)@.shield.contains(x)
                    || x == old(self)@.gear.shield || in_spare_equipment(
                    x,
                    old(self)@.equipment.spare_equipment,
                    EquipmentSlot::SHIELD,
                    old(self)@.equipment.spare_equipment.len() as int,
                )),
            forall|x: Option<WeaponV>|
                #[trigger] final(self)@.weapon.contains(x) <==> (old(self)@.weapon.contains(x) || (
                match old(self)@.gear.weapon {
                    Some(w) => w.equipment.slot == EquipmentSlot::WEAPON && x == Some(w),
                    None => false,
                }) || in_spare_weapons(
                    x,
                    old(self)@.equipment.spare_weapons,
                    EquipmentSlot::WEAPON,
                    old(self)@.equipment.spare_weapons.len() as int,
                )),
            forall|x: Option<WeaponV>|
                #[trigger] final(self)@.twohand.contains(x) <==> (old(self)@.twohand.contains(x)
                    || (match old(self)@.gear.weapon {
                    Some(w) => w.equipment.slot == EquipmentSlot::TWOHAND && x == Some(w),
                    None => false,
                }) || in_spare_weapons(
                    x,
                    old(self)@.equipment.spare_weapons,
                    EquipmentSlot::TWOHAND,
                    old(self)@.equipment.spare_weapons.len() as int,
                )),
    {
        let ghost spares_eq = old(self)@.equipment.spare_equipment;
        let ghost spares_wep = old(self)@.equipment.spare_weapons;

        // the worn gear joins the pools, slot by slot
        pool_insert_equipment(&mut self.ammo, clone_opt_equipment(&self.gear.ammo));
        pool_insert_equipment(&mut self.body, clone_opt_equipment(&self.gear.body));
        pool_insert_equipment(&mut self.cape, clone_opt_equipment(&self.gear.cape));
        pool_insert_equipment(&mut self.feet, clone_opt_equipment(&self.gear.feet));
        pool_insert_equipment(&mut self.head, clone_opt_equipment(&self.gear.head));
        pool_insert_equipment(&mut self.legs, clone_opt_equipment(&self.gear.legs));
        pool_insert_equipment(&mut self.neck, clone_opt_equipment(&self.gear.neck));
        pool_insert_equipment(&mut self.ring, clone_opt_equipment(&self.gear.ring));
        pool_insert_equipment(&mut self.hands, clone_opt_equipment(&self.gear.hands));
        pool_insert_equipment(&mut self.shield, clone_opt_equipment(&self.gear.shield));

        // the worn weapon joins the pool of its handedness
        let worn = clone_opt_weapon(&self.gear.weapon);
        match worn {
            Some(w) => {
                if matches!(w.equipment.slot, EquipmentSlot::WEAPON) {
                    pool_insert_weapon(&mut self.weapon, Some(w));
                } else if matches!(w.equipment.slot, EquipmentSlot::TWOHAND) {
                    pool_insert_weapon(&mut self.twohand, Some(w));
                }
            },
            None => {},
        }

        let ghost mid = self@;

        // spare weapons join the pool of their handedness
        let mut i: usize = 0;
        while i < self.equipment.spare_weapons.len()
            invariant
                0 <= i <= spares_wep.len(),
                self@.equipment.spare_weapons == spares_wep,
                spares_wep.len() == self.equipment.spare_weapons@.len(),
                self@.gear == mid.gear,
                self@.original_gear == mid.original_gear,
                self@.equipment == mid.equipment,
                self@.ammo == mid.ammo,
                self@.body == mid.body,
                self@.cape == mid.cape,
                self@.feet == mid.feet,
                self@.head == mid.head,
                self@.legs == mid.legs,
                self@.neck == mid.neck,
                self@.ring == mid.ring,
                self@.hands == mid.hands,
                self@.shield == mid.shield,
                forall|x: Option<WeaponV>|
                    #[trigger] self@.weapon.contains(x) <==> (mid.weapon.contains(x)
                        || in_spare_weapons(x, spares_wep, EquipmentSlot::WEAPON, i as int)),
                forall|x: Option<WeaponV>|
                    #[trigger] self@.twohand.contains(x) <==> (mid.twohand.contains(x)
                        || in_spare_weapons(x, spares_wep, EquipmentSlot::TWOHAND, i as int)),
                mid.weapon.no_duplicates() ==> self@.weapon.no_duplicates(),
                mid.twohand.no_duplicates() ==> self@.twohand.no_duplicates(),
            decreases spares_wep.len() - i,
        {
            let w = self.equipment.spare_weapons[i].clone();
            proof {
                assert(w@ == spares_wep[i as int]);
            }
            let ghost pre = self@;
            if matches!(w.equipment.slot, EquipmentSlot::WEAPON) {
                pool_insert_weapon(&mut self.weapon, Some(w));
                proof {
                    lemma_wpool_step_insert(
                        pre.weapon,
                        self@.weapon,
                        mid.weapon,
                        spares_wep,
                        EquipmentSlot::WEAPON,
                        i as int,
                    );
                    lemma_wpool_step_skip(
                        self@.twohand,
                        mid.twohand,
                        spares_wep,
                        EquipmentSlot::TWOHAND,
                        i as int,
                    );
                }
            } else if matches!(w.equipment.slot, EquipmentSlot::TWOHAND) {
                pool_insert_weapon(&mut self.twohand, Some(w));
                proof {
                    lemma_wpool_step_insert(
                        pre.twohand,
                        self@.twohand,
                        mid.twohand,
                        spares_wep,
                        EquipmentSlot::TWOHAND,
                        i as int,
                    );
                    lemma_wpool_step_skip(
                        self@.weapon,
                        mid.weapon,
                        spares_wep,
                        EquipmentSlot::WEAPON,
                        i as int,
                    );
                }
            } else {
                proof {
                    lemma_wpool_step_skip(
                        self@.weapon,
                        mid.weapon,
                        spares_wep,
                        EquipmentSlot::WEAPON,
                        i as int,
                    );
                    lemma_wpool_step_skip(
                        self@.twohand,
                        mid.twohand,
                        spares_wep,
                        EquipmentSlot::TWOHAND,
                        i as int,
                    );
                }
            }
            i = i + 1;
        }

        // spare items join the pool of their slot
        let mut i: usize = 0;
        while i < self.equipment.spare_equipment.len()
            invariant
                0 <= i <= spares_eq.len(),
                self@.equipment.spare_equipment == spares_eq,
                spares_eq.len() == self.equipment.spare_equipment@.len(),
                self@.gear == mid.gear,
                self@.original_gear == mid.original_gear,
                self@.equipment == mid.equipment,
                forall|x: Option<WeaponV>|
                    #[trigger] self@.weapon.contains(x) <==> (mid.weapon.contains(x)
                        || in_spare_weapons(
                        x,
                        spares_wep,
                        EquipmentSlot::WEAPON,
                        spares_wep.len() as int,
                    )),
                forall|x: Option<WeaponV>|
                    #[trigger] self@.twohand.contains(x) <==> (mid.twohand.contains(x)
                        || in_spare_weapons(
                        x,
                        spares_wep,
                        EquipmentSlot::TWOHAND,
                        spares_wep.len() as int,
                    )),
                mid.weapon.no_duplicates() ==> self@.weapon.no_duplicates(),
                mid.twohand.no_duplicates() ==> self@.twohand.no_duplicates(),
                forall|x: Option<EquipmentV>|
                    #[trigger] self@.ammo.contains(x) <==> (mid.ammo.contains(x)
                        || in_spare_equipment(x, spares_eq, EquipmentSlot::AMMO, i as int)),
                forall|x: Option<EquipmentV>|
                    #[trigger] self@.body.contains(x) <==> (mid.body.contains(x)
                        || in_spare_equipment(x, spares_eq, EquipmentSlot::BODY, i as int)),
                forall|x: Option<EquipmentV>|
                    #[trigger] self@.cape.contains(x) <==> (mid.cape.contains(x)
                        || in_spare_equipment(x, spares_eq, EquipmentSlot::CAPE, i as int)),
                forall|x: Option<EquipmentV>|
                    #[trigger] self@.feet.contains(x) <==> (mid.feet.contains(x)
                        || in_spare_equipment(x, spares_eq, EquipmentSlot::FEET, i as int)),
                forall|x: Option<EquipmentV>|
                    #[trigger] self@.head.contains(x) <==> (mid.head.contains(x)
                        || in_spare_equipment(x, spares_eq, EquipmentSlot::HEAD, i as int)),
                forall|x: Option<EquipmentV>|
                    #[trigger] self@.legs.contains(x) <==> (mid.legs.contains(x)
                        || in_spare_equipment(x, spares_eq, EquipmentSlot::LEGS, i as int)),
                forall|x: Option<EquipmentV>|
                    #[trigger] self@.neck.contains(x) <==> (mid.neck.contains(x)
                        || in_spare_equipment(x, spares_eq, EquipmentSlot::NECK, i as int)),
                forall|x: Option<EquipmentV>|
                    #[trigger] self@.ring.contains(x) <==> (mid.ring.contains(x)
                        || in_spare_equipment(x, spares_eq, EquipmentSlot::RING, i as int)),
                forall|x: Option<EquipmentV>|
                    #[trigger] self@.hands.contains(x) <==> (mid.hands.contains(x)
                        || in_spare_equipment(x, spares_eq, EquipmentSlot::HANDS, i as int)),
                forall|x: Option<EquipmentV>|
                    #[trigger] self@.shield.contains(x) <==> (mid.shield.contains(x)
                        || in_spare_equipment(x, spares_eq, EquipmentSlot::SHIELD, i as int)),
                mid.ammo.no_duplicates() ==> self@.ammo.no_duplicates(),
                mid.body.no_duplicates() ==> self@.body.no_duplicates(),
                mid.cape.no_duplicates() ==> self@.cape.no_duplicates(),
                mid.feet.no_duplicates() ==> self@.feet.no_duplicates(),
                mid.head.no_duplicates() ==> self@.head.no_duplicates(),
                mid.legs.no_duplicates() ==> self@.legs.no_duplicates(),
                mid.neck.no_duplicates() ==> self@.neck.no_duplicates(),
                mid.ring.no_duplicates() ==> self@.ring.no_duplicates(),
                mid.hands.no_duplicates() ==> self@.hands.no_duplicates(),
                mid.shield.no_duplicates() ==> self@.shield.no_duplicates(),
            decreases spares_eq.len() - i,
        {
            let e = self.equipment.spare_equipment[i].clone();
            proof {
                assert(e@ == spares_eq[i as int]);
            }
            let ghost pre = self@;
            match e.equipment.slot {
                EquipmentSlot::AMMO => {
                    pool_insert_equipment(&mut self.ammo, Some(e));
                    proof {
                        assert(self@.weapon == pre.weapon);
                        assert(self@.twohand == pre.twohand);
                        assert(self@.body == pre.body);
                        assert(self@.cape == pre.cape);
                        assert(self@.feet == pre.feet);
                        assert(self@.head == pre.head);
                        assert(self@.legs == pre.legs);
                        assert(self@.neck == pre.neck);
                        assert(self@.ring == pre.ring);
                        assert(self@.hands == pre.hands);
                        assert(self@.shield == pre.shield);
                        lemma_epool_step_insert(
                            pre.ammo,
                            self@.ammo,
                            mid.ammo,
                            spares_eq,
                            EquipmentSlot::AMMO,
                            i as int,
                        );
                        lemma_epool_step_skip(
                            self@.body,
                            mid.body,
                            spares_eq,
                            EquipmentSlot::BODY,
                            i as int,
                        );
                        lemma_epool_step_skip(
                            self@.cape,
                            mid.cape,
                            spares_eq,
                            EquipmentSlot::CAPE,
                            i as int,
                        );
                        lemma_epool_step_skip(
                            self@.feet,
                            mid.feet,
                            spares_eq,
                            EquipmentSlot::FEET,
                            i as int,
                        );
                        lemma_epool_step_skip(
                            self@.head,
                            mid.head,
                            spares_eq,
                            EquipmentSlot::HEAD,
                            i as int,
                        );
                        lemma_epool_step_skip(
                            self@.legs,
                            mid.legs,
                            spares_eq,
                            EquipmentSlot::LEGS,
                            i as int,
                        );
                        lemma_epool_step_skip(
                            self@.neck,
                            mid.neck,
                            spares_eq,
                            EquipmentSlot::NECK,
                            i as int,
                        );
                        lemma_epool_step_skip(
                            self@.ring,
                            mid.ring,
                            spares_eq,
                            EquipmentSlot::RING,
                            i as int,
                        );
                        lemma_epool_step_skip(
                            self@.hands,
                            mid.hands,
                            spares_eq,
                            EquipmentSlot::HANDS,
                            i as int,
                        );
                        lemma_epool_step_skip(
                            self@.shield,
                            mid.shield,
                            spares_eq,
                            EquipmentSlot::SHIELD,
                            i as int,
                        );
                    }
                },
                EquipmentSlot::BODY => {
                    pool_insert_equipment(&mut self.body, Some(e));
                    proof {
                        assert(self@.weapon == pre.weapon);
                        assert(self@.twohand == pre.twohand);
                        assert(self@.ammo == pre.ammo);
                        assert(self@.cape == pre.cape);
                        assert(self@.feet == pre.feet);
                        assert(self@.head == pre.head);
                        assert(self@.legs == pre.legs);
                        assert(self@.neck == pre.neck);
                        assert(self@.ring == pre.ring);
                        assert(self@.hands == pre.hands);
                        assert(self@.shield == pre.shield);
                        lemma_epool_step_insert(
                            pre.body,
                            self@.body,
                            mid.body,
                            spares_eq,
                            EquipmentSlot::BODY,
                            i as int,
                        );
                        lemma_epool_step_skip(
                            self@.ammo,
                            mid.ammo,
                            spares_eq,
                            EquipmentSlot::AMMO,
                            i as int,
                        );
                        lemma_epool_step_skip(
                            self@.cape,
                            mid.cape,
                            spares_eq,
                            EquipmentSlot::CAPE,
                            i as int,
                        );
                        lemma_epool_step_skip(
                            self@.feet,
                            mid.feet,
                            spares_eq,
                            EquipmentSlot::FEET,
                            i as int,
                        );
                        lemma_epool_step_skip(
                            self@.head,
                            mid.head,
                            spares_eq,
                            EquipmentSlot::HEAD,
                            i as int,
                        );
                        lemma_epool_step_skip(
                            self@.legs,
                            mid.legs,
                            spares_eq,
                            EquipmentSlot::LEGS,
                            i as int,
                        );
                        lemma_epool_step_skip(
                            self@.neck,
                            mid.neck,
                            spares_eq,
                            EquipmentSlot::NECK,
                            i as int,
                        );
                        lemma_epool_step_skip(
                            self@.ring,
                            mid.ring,
                            spares_eq,
                            EquipmentSlot::RING,
                            i as int,
                        );
                        lemma_epool_step_skip(
                            self@.hands,
                            mid.hands,
                            spares_eq,
                            EquipmentSlot::HANDS,
                            i as int,
                        );
                        lemma_epool_step_skip(
                            self@.shield,
                            mid.shield,
                            spares_eq,
                            EquipmentSlot::SHIELD,
                            i as int,
                        );
                    }
                },
                EquipmentSlot::CAPE => {
                    pool_insert_equipment(&mut self.cape, Some(e));
                    proof {
                        assert(self@.weapon == pre.weapon);
                        assert(self@.twohand == pre.twohand);
                        assert(self@.ammo == pre.ammo);
                        assert(self@.body == pre.body);
                        assert(self@.feet == pre.feet);
                        assert(self@.head == pre.head);
                        assert(self@.legs == pre.legs);
                        assert(self@.neck == pre.neck);
                        assert(self@.ring == pre.ring);
                        assert(self@.hands == pre.hands);
                        assert(self@.shield == pre.shield);
                        lemma_epool_step_insert(
                            pre.cape,
                            self@.cape,
                            mid.cape,
                            spares_eq,
                            EquipmentSlot::CAPE,
                            i as int,
                        );
                        lemma_epool_step_skip(
                            self@.ammo,
                            mid.ammo,
                            spares_eq,
                            EquipmentSlot::AMMO,
                            i as int,
                        );
                        lemma_epool_step_skip(
                            self@.body,
                            mid.body,
                            spares_eq,
                            EquipmentSlot::BODY,
                            i as int,
                        );
                        lemma_epool_step_skip(
                            self@.feet,
                            mid.feet,
                            spares_eq,
                            EquipmentSlot::FEET,
                            i as int,
                        );
                        lemma_epool_step_skip(
                            self@.head,
                            mid.head,
                            spares_eq,
                            EquipmentSlot::HEAD,
                            i as int,
                        );
                        lemma_epool_step_skip(
                            self@.legs,
                            mid.legs,
                            spares_eq,
                            EquipmentSlot::LEGS,
                            i as int,
                        );
                        lemma_epool_step_skip(
                            self@.neck,
                            mid.neck,
                            spares_eq,
                            EquipmentSlot::NECK,
                            i as int,
                        );
                        lemma_epool_step_skip(
                            self@.ring,
                            mid.ring,
                            spares_eq,
                            EquipmentSlot::RING,
                            i as int,
                        );
                        lemma_epool_step_skip(
                            self@.hands,
                            mid.hands,
                            spares_eq,
                            EquipmentSlot::HANDS,
                            i as int,
                        );
                        lemma_epool_step_skip(
                            self@.shield,
                            mid.shield,
                            spares_eq,
                            EquipmentSlot::SHIELD,
                            i as int,
                        );
                    }
                },
                EquipmentSlot::FEET => {
                    pool_insert_equipment(&mut self.feet, Some(e));
                    proof {
                        assert(self@.weapon == pre.weapon);
                        assert(self@.twohand == pre.twohand);
                        assert(self@.ammo == pre.ammo);
                        assert(self@.body == pre.body);
                        assert(self@.cape == pre.cape);
                        assert(self@.head == pre.head);
                        assert(self@.legs == pre.legs);
                        assert(self@.neck == pre.neck);
                        assert(self@.ring == pre.ring);
                        assert(self@.hands == pre.hands);
                        assert(self@.shield == pre.shield);
                        lemma_epool_step_insert(
                            pre.feet,
                            self@.feet,
                            mid.feet,
                            spares_eq,
                            EquipmentSlot::FEET,
                            i as int,
                        );
                        lemma_epool_step_skip(
                            self@.ammo,
                            mid.ammo,
                            spares_eq,
                            EquipmentSlot::AMMO,
                            i as int,
                        );
                        lemma_epool_step_skip(
                            self@.body,
                            mid.body,
                            spares_eq,
                            EquipmentSlot::BODY,
                            i as int,
                        );
                        lemma_epool_step_skip(
                            self@.cape,
                            mid.cape,
                            spares_eq,
                            EquipmentSlot::CAPE,
                            i as int,
                        );
                        lemma_epool_step_skip(
                            self@.head,
                            mid.head,
                            spares_eq,
                            EquipmentSlot::HEAD,
                            i as int,
                        );
                        lemma_epool_step_skip(
                            self@.legs,
                            mid.legs,
                            spares_eq,
                            EquipmentSlot::LEGS,
                            i as int,
                        );
                        lemma_epool_step_skip(
                            self@.neck,
                            mid.neck,
                            spares_eq,
                            EquipmentSlot::NECK,
                            i as int,
                        );
                        lemma_epool_step_skip(
                            self@.ring,
                            mid.ring,
                            spares_eq,
                            EquipmentSlot::RING,
                            i as int,
                        );
                        lemma_epool_step_skip(
                            self@.hands,
                            mid.hands,
                            spares_eq,
                            EquipmentSlot::HANDS,
                            i as int,
                        );
                        lemma_epool_step_skip(
                            self@.shield,
                            mid.shield,
                            spares_eq,
                            EquipmentSlot::SHIELD,
                            i as int,
                        );
                    }
                },
                EquipmentSlot::HEAD => {
                    pool_insert_equipment(&mut self.head, Some(e));
                    proof {
                        assert(self@.weapon == pre.weapon);
                        assert(self@.twohand == pre.twohand);
                        assert(self@.ammo == pre.ammo);
                        assert(self@.body == pre.body);
                        assert(self@.cape == pre.cape);
                        assert(self@.feet == pre.feet);
                        assert(self@.legs == pre.legs);
                        assert(self@.neck == pre.neck);
                        assert(self@.ring == pre.ring);
                        assert(self@.hands == pre.hands);
                        assert(self@.shield == pre.shield);
                        lemma_epool_step_insert(
                            pre.head,
                            self@.head,
                            mid.head,
                            spares_eq,
                            EquipmentSlot::HEAD,
                            i as int,
                        );
                        lemma_epool_step_skip(
                            self@.ammo,
                            mid.ammo,
                            spares_eq,
                            EquipmentSlot::AMMO,
                            i as int,
                        );
                        lemma_epool_step_skip(
                            self@.body,
                            mid.body,
                            spares_eq,
                            EquipmentSlot::BODY,
                            i as int,
                        );
                        lemma_epool_step_skip(
                            self@.cape,
                            mid.cape,
                            spares_eq,
                            EquipmentSlot::CAPE,
                            i as int,
                        );
                        lemma_epool_step_skip(
                            self@.feet,
                            mid.feet,
                            spares_eq,
                            EquipmentSlot::FEET,
                            i as int,
                        );
                        lemma_epool_step_skip(
                            self@.legs,
                            mid.legs,
                            spares_eq,
                            EquipmentSlot::LEGS,
                            i as int,
                        );
                        lemma_epool_step_skip(
                            self@.neck,
                            mid.neck,
                            spares_eq,
                            EquipmentSlot::NECK,
                            i as int,
                        );
                        lemma_epool_step_skip(
                            self@.ring,
                            mid.ring,
                            spares_eq,
                            EquipmentSlot::RING,
                            i as int,
                        );
                        lemma_epool_step_skip(
                            self@.hands,
                            mid.hands,
                            spares_eq,
                            EquipmentSlot::HANDS,
                            i as int,
                        );
                        lemma_epool_step_skip(
                            self@.shield,
                            mid.shield,
                            spares_eq,
                            EquipmentSlot::SHIELD,
                            i as int,
                        );
                    }
                },
                EquipmentSlot::LEGS => {
                    pool_insert_equipment(&mut self.legs, Some(e));
                    proof {
                        assert(self@.weapon == pre.weapon);
                        assert(self@.twohand == pre.twohand);
                        assert(self@.ammo == pre.ammo);
                        assert(self@.body == pre.body);
                        assert(self@.cape == pre.cape);
                        assert(self@.feet == pre.feet);
                        assert(self@.head == pre.head);
                        assert(self@.neck == pre.neck);
                        assert(self@.ring == pre.ring);
                        assert(self@.hands == pre.hands);
                        assert(self@.shield == pre.shield);
                        lemma_epool_step_insert(
                            pre.legs,
                            self@.legs,
                            mid.legs,
                            spares_eq,
                            EquipmentSlot::LEGS,
                            i as int,
                        );
                        lemma_epool_step_skip(
                            self@.ammo,
                            mid.ammo,
                            spares_eq,
                            EquipmentSlot::AMMO,
                            i as int,
                        );
                        lemma_epool_step_skip(
                            self@.body,
                            mid.body,
                            spares_eq,
                            EquipmentSlot::BODY,
                            i as int,
                        );
                        lemma_epool_step_skip(
                            self@.cape,
                            mid.cape,
                            spares_eq,
                            EquipmentSlot::CAPE,
                            i as int,
                        );
                        lemma_epool_step_skip(
                            self@.feet,
                            mid.feet,
                            spares_eq,
                            EquipmentSlot::FEET,
                            i as int,
                        );
                        lemma_epool_step_skip(
                            self@.head,
                            mid.head,
                            spares_eq,
                            EquipmentSlot::HEAD,
                            i as int,
                        );
                        lemma_epool_step_skip(
                            self@.neck,
                            mid.neck,
                            spares_eq,
                            EquipmentSlot::NECK,
                            i as int,
                        );
                        lemma_epool_step_skip(
                            self@.ring,
                            mid.ring,
                            spares_eq,
                            EquipmentSlot::RING,
                            i as int,
                        );
                        lemma_epool_step_skip(
                            self@.hands,
                            mid.hands,
                            spares_eq,
                            EquipmentSlot::HANDS,
                            i as int,
                        );
                        lemma_epool_step_skip(
                            self@.shield,
                            mid.shield,
                            spares_eq,
                            EquipmentSlot::SHIELD,
                            i as int,
                        );
                    }
                },
                EquipmentSlot::NECK => {
                    pool_insert_equipment(&mut self.neck, Some(e));
                    proof {
                        assert(self@.weapon == pre.weapon);
                        assert(self@.twohand == pre.twohand);
                        assert(self@.ammo == pre.ammo);
                        assert(self@.body == pre.body);
                        assert(self@.cape == pre.cape);
                        assert(self@.feet == pre.feet);
                        assert(self@.head == pre.head);
                        assert(self@.legs == pre.legs);
                        assert(self@.ring == pre.ring);
                        assert(self@.hands == pre.hands);
                        assert(self@.shield == pre.shield);
                        lemma_epool_step_insert(
                            pre.neck,
                            self@.neck,
                            mid.neck,
                            spares_eq,
                            EquipmentSlot::NECK,
                            i as int,
                        );
                        lemma_epool_step_skip(
                            self@.ammo,
                            mid.ammo,
                            spares_eq,
                            EquipmentSlot::AMMO,
                            i as int,
                        );
                        lemma_epool_step_skip(
                            self@.body,
                            mid.body,
                            spares_eq,
                            EquipmentSlot::BODY,
                            i as int,
                        );
                        lemma_epool_step_skip(
                            self@.cape,
                            mid.cape,
                            spares_eq,
                            EquipmentSlot::CAPE,
                            i as int,
                        );
                        lemma_epool_step_skip(
                            self@.feet,
                            mid.feet,
                            spares_eq,
                            EquipmentSlot::FEET,
                            i as int,
                        );
                        lemma_epool_step_skip(
                            self@.head,
                            mid.head,
                            spares_eq,
                            EquipmentSlot::HEAD,
                            i as int,
                        );
                        lemma_epool_step_skip(
                            self@.legs,
                            mid.legs,
                            spares_eq,
                            EquipmentSlot::LEGS,
                            i as int,
                        );
                        lemma_epool_step_skip(
                            self@.ring,
                            mid.ring,
                            spares_eq,
                            EquipmentSlot::RING,
                            i as int,
                        );
                        lemma_epool_step_skip(
                            self@.hands,
                            mid.hands,
                            spares_eq,
                            EquipmentSlot::HANDS,
                            i as int,
                        );
                        lemma_epool_step_skip(
                            self@.shield,
                            mid.shield,
                            spares_eq,
                            EquipmentSlot::SHIELD,
                            i as int,
                        );
                    }
                },
                EquipmentSlot::RING => {
                    pool_insert_equipment(&mut self.ring, Some(e));
                    proof {
                        assert(self@.weapon == pre.weapon);
                        assert(self@.twohand == pre.twohand);
                        assert(self@.ammo == pre.ammo);
                        assert(self@.body == pre.body);
                        assert(self@.cape == pre.cape);
                        assert(self@.feet == pre.feet);
                        assert(self@.head == pre.head);
                        assert(self@.legs == pre.legs);
                        assert(self@.neck == pre.neck);
                        assert(self@.hands == pre.hands);
                        assert(self@.shield == pre.shield);
                        lemma_epool_step_insert(
                            pre.ring,
                            self@.ring,
                            mid.ring,
                            spares_eq,
                            EquipmentSlot::RING,
                            i as int,
                        );
                        lemma_epool_step_skip(
                            self@.ammo,
                            mid.ammo,
                            spares_eq,
                            EquipmentSlot::AMMO,
                            i as int,
                        );
                        lemma_epool_step_skip(
                            self@.body,
                            mid.body,
                            spares_eq,
                            EquipmentSlot::BODY,
                            i as int,
                        );
                        lemma_epool_step_skip(
                            self@.cape,
                            mid.cape,
                            spares_eq,
                            EquipmentSlot::CAPE,
                            i as int,
                        );
                        lemma_epool_step_skip(
                            self@.feet,
                            mid.feet,
                            spares_eq,
                            EquipmentSlot::FEET,
                            i as int,
                        );
                        lemma_epool_step_skip(
                            self@.head,
                            mid.head,
                            spares_eq,
                            EquipmentSlot::HEAD,
                            i as int,
                        );
                        lemma_epool_step_skip(
                            self@.legs,
                            mid.legs,
                            spares_eq,
                            EquipmentSlot::LEGS,
                            i as int,
                        );
                        lemma_epool_step_skip(
                            self@.neck,
                            mid.neck,
                            spares_eq,
                            EquipmentSlot::NECK,
                            i as int,
                        );
                        lemma_epool_step_skip(
                            self@.hands,
                            mid.hands,
                            spares_eq,
                            EquipmentSlot::HANDS,
                            i as int,
                        );
                        lemma_epool_step_skip(
                            self@.shield,
                            mid.shield,
                            spares_eq,
                            EquipmentSlot::SHIELD,
                            i as int,
                        );
                    }
                },
                EquipmentSlot::HANDS => {
                    pool_insert_equipment(&mut self.hands, Some(e));
                    proof {
                        assert(self@.weapon == pre.weapon);
                        assert(self@.twohand == pre.twohand);
                        assert(self@.ammo == pre.ammo);
                        assert(self@.body == pre.body);
                        assert(self@.cape == pre.cape);
                        assert(self@.feet == pre.feet);
                        assert(self@.head == pre.head);
                        assert(self@.legs == pre.legs);
                        assert(self@.neck == pre.neck);
                        assert(self@.ring == pre.ring);
                        assert(self@.shield == pre.shield);
                        lemma_epool_step_insert(
                            pre.hands,
                            self@.hands,
                            mid.hands,
                            spares_eq,
                            EquipmentSlot::HANDS,
                            i as int,
                        );
                        lemma_epool_step_skip(
                            self@.ammo,
                            mid.ammo,
                            spares_eq,
                            EquipmentSlot::AMMO,
                            i as int,
                        );
                        lemma_epool_step_skip(
                            self@.body,
                            mid.body,
                            spares_eq,
                            EquipmentSlot::BODY,
                            i as int,
                        );
                        lemma_epool_step_skip(
                            self@.cape,
                            mid.cape,
                            spares_eq,
                            EquipmentSlot::CAPE,
                            i as int,
                        );
                        lemma_epool_step_skip(
                            self@.feet,
                            mid.feet,
                            spares_eq,
                            EquipmentSlot::FEET,
                            i as int,
                        );
                        lemma_epool_step_skip(
                            self@.head,
                            mid.head,
                            spares_eq,
                            EquipmentSlot::HEAD,
                            i as int,
                        );
                        lemma_epool_step_skip(
                            self@.legs,
                            mid.legs,
                            spares_eq,
                            EquipmentSlot::LEGS,
                            i as int,
                        );
                        lemma_epool_step_skip(
                            self@.neck,
                            mid.neck,
                            spares_eq,
                            EquipmentSlot::NECK,
                            i as int,
                        );
                        lemma_epool_step_skip(
                            self@.ring,
                            mid.ring,
                            spares_eq,
                            EquipmentSlot::RING,
                            i as int,
                        );
                        lemma_epool_step_skip(
                            self@.shield,
                            mid.shield,
                            spares_eq,
                            EquipmentSlot::SHIELD,
                            i as int,
                        );
                    }
                },
                EquipmentSlot::SHIELD => {
                    pool_insert_equipment(&mut self.shield, Some(e));
                    proof {
                        assert(self@.weapon == pre.weapon);
                        assert(self@.twohand == pre.twohand);
                        assert(self@.ammo == pre.ammo);
                        assert(self@.body == pre.body);
                        assert(self@.cape == pre.cape);
                        assert(self@.feet == pre.feet);
                        assert(self@.head == pre.head);
                        assert(self@.legs == pre.legs);
                        assert(self@.neck == pre.neck);
                        assert(self@.ring == pre.ring);
                        assert(self@.hands == pre.hands);
                        lemma_epool_step_insert(
                            pre.shield,
                            self@.shield,
                            mid.shield,
                            spares_eq,
                            EquipmentSlot::SHIELD,
                            i as int,
                        );
                        lemma_epool_step_skip(
                            self@.ammo,
                            mid.ammo,
                            spares_eq,
                            EquipmentSlot::AMMO,
                            i as int,
                        );
                        lemma_epool_step_skip(
                            self@.body,
                            mid.body,
                            spares_eq,
                            EquipmentSlot::BODY,
                            i as int,
                        );
                        lemma_epool_step_skip(
                            self@.cape,
                            mid.cape,
                            spares_eq,
                            EquipmentSlot::CAPE,
                            i as int,
                        );
                        lemma_epool_step_skip(
                            self@.feet,
                            mid.feet,
                            spares_eq,
                            EquipmentSlot::FEET,
                            i as int,
                        );
                        lemma_epool_step_skip(
                            self@.head,
                            mid.head,
                            spares_eq,
                            EquipmentSlot::HEAD,
                            i as int,
                        );
                        lemma_epool_step_skip(
                            self@.legs,
                            mid.legs,
                            spares_eq,
                            EquipmentSlot::LEGS,
                            i as int,
                        );
                        lemma_epool_step_skip(
                            self@.neck,
                            mid.neck,
                            spares_eq,
                            EquipmentSlot::NECK,
                            i as int,
                        );
                        lemma_epool_step_skip(
                            self@.ring,
                            mid.ring,
                            spares_eq,
                            EquipmentSlot::RING,
                            i as int,
                        );
                        lemma_epool_step_skip(
                            self@.hands,
                            mid.hands,
                            spares_eq,
                            EquipmentSlot::HANDS,
                            i as int,
                        );
                    }
                },
                _ => {
                    proof {
                        lemma_epool_step_skip(
                            self@.ammo,
                            mid.ammo,
                            spares_eq,
                            EquipmentSlot::AMMO,
                            i as int,
                        );
                        lemma_epool_step_skip(
                            self@.body,
                            mid.body,
                            spares_eq,
                            EquipmentSlot::BODY,
                            i as int,
                        );
                        lemma_epool_step_skip(
                            self@.cape,
                            mid.cape,
                            spares_eq,
                            EquipmentSlot::CAPE,
                            i as int,
                        );
                        lemma_epool_step_skip(
                            self@.feet,
                            mid.feet,
                            spares_eq,
                            EquipmentSlot::FEET,
                            i as int,
                        );
                        lemma_epool_step_skip(
                            self@.head,
                            mid.head,
                            spares_eq,
                            EquipmentSlot::HEAD,
                            i as int,
                        );
                        lemma_epool_step_skip(
                            self@.legs,
                            mid.legs,
                            spares_eq,
                            EquipmentSlot::LEGS,
                            i as int,
                        );
                        lemma_epool_step_skip(
                            self@.neck,
                            mid.neck,
                            spares_eq,
                            EquipmentSlot::NECK,
                            i as int,
                        );
                        lemma_epool_step_skip(
                            self@.ring,
                            mid.ring,
                            spares_eq,
                            EquipmentSlot::RING,
                            i as int,
                        );
                        lemma_epool_step_skip(
                            self@.hands,
                            mid.hands,
                            spares_eq,
                            EquipmentSlot::HANDS,
                            i as int,
                        );
                        lemma_epool_step_skip(
                            self@.shield,
                            mid.shield,
                            spares_eq,
                            EquipmentSlot::SHIELD,
                            i as int,
                        );
                    }
                },
            }
            i = i + 1;
        }
    }
}

/// Already-emitted gear sets of completed slot assignments.
pub open spec fn done_combos(
    s: SimulationV,
    combosdv: Seq<Seq<Option<EquipmentV>>>,
    gs: GearSetV,
    ci: int,
) -> bool {
    (exists|k: int| 0 <= k < ci && combosdv[k] == proj9(gs)) && candidate_weapon(s, gs)
}

/// Whether the one skipped (empty, empty) pair lies before row `wi`,
/// column `si` of the branch walk.
pub open spec fn skipped_in(
    wdv: Seq<Option<WeaponV>>,
    sdv: Seq<Option<EquipmentV>>,
    wi: int,
    si: int,
) -> int {
    if wdv.take(wi).contains(None::<WeaponV>) || (wi < wdv.len() && wdv[wi] is None
        && sdv.take(si).contains(None::<EquipmentV>)) {
        1
    } else {
        0
    }
}

impl Simulation {
    /// Every distinct gear set the pools allow: the cross product of
    /// the nine slot pools, each assignment paired with every
    /// two-handed weapon (shield empty) and with every (one-handed
    /// weapon, shield) pair, no combination skipped or repeated.
    ///
    /// The result grows as the product of the pool sizes, exponential
    /// in the number of slots with alternatives; the intended problem
    /// size is a handful of alternatives per slot.
    pub fn get_gear_combinations(&self) -> (r: Vec<GearSet>)
        requires
            self@.wf(),
        ensures
            forall|gs: GearSetV|
                #[trigger] r.deep_view().contains(gs) <==> spec_is_candidate(self@, gs),
            r.deep_view().no_duplicates(),
            r.deep_view().len() == pools_prod(spec_slot_pools(self@)) * (self@.twohand.len()
                + self@.weapon.len() * self@.shield.len() - 1),
    {
        let mut pools: Vec<Vec<Option<Equipment>>> = Vec::new();
        pools.push(clone_equipment_pool(&self.ammo));
        pools.push(clone_equipment_pool(&self.body));
        pools.push(clone_equipment_pool(&self.cape));
        pools.push(clone_equipment_pool(&self.feet));
        pools.push(clone_equipment_pool(&self.head));
        pools.push(clone_equipment_pool(&self.legs));
        pools.push(clone_equipment_pool(&self.neck));
        pools.push(clone_equipment_pool(&self.ring));
        pools.push(clone_equipment_pool(&self.hands));
        proof {
            assert(pools.deep_view() =~= spec_slot_pools(self@));
        }
        let combos = cross_from(&pools, 0);
        let ghost combosdv = combos.deep_view();
        proof {
            assert(pools.deep_view().skip(0) =~= pools.deep_view());
            assert(combosdv == spec_cross(spec_slot_pools(self@)));
            assert forall|p: int|
                0 <= p < spec_slot_pools(self@).len() implies (#[trigger] spec_slot_pools(
                self@,
            )[p]).no_duplicates() by {
                let ps = spec_slot_pools(self@);
                if p == 0 {
                    assert(ps[p] == self@.ammo);
                } else if p == 1 {
                    assert(ps[p] == self@.body);
                } else if p == 2 {
                    assert(ps[p] == self@.cape);
                } else if p == 3 {
                    assert(ps[p] == self@.feet);
                } else if p == 4 {
                    assert(ps[p] == self@.head);
                } else if p == 5 {
                    assert(ps[p] == self@.legs);
                } else if p == 6 {
                    assert(ps[p] == self@.neck);
                } else if p == 7 {
                    assert(ps[p] == self@.ring);
                } else {
                    assert(ps[p] == self@.hands);
                }
            }
            lemma_cross_nodup(spec_slot_pools(self@));
            lemma_cross_len(spec_slot_pools(self@));
        }
        let ghost block: int = self@.twohand.len() + self@.weapon.len() * self@.shield.len() - 1;
        let mut out: Vec<GearSet> = Vec::new();
        let mut ci: usize = 0;
        while ci < combos.len()
            invariant
                self@.wf(),
                combosdv == combos.deep_view(),
                combosdv == spec_cross(spec_slot_pools(self@)),
                combosdv.no_duplicates(),
                block == self@.twohand.len() + self@.weapon.len() * self@.shield.len() - 1,
                0 <= ci <= combosdv.len(),
                out.deep_view().len() == ci * block,
                out.deep_view().no_duplicates(),
                forall|gs: GearSetV|
                    #[trigger] out.deep_view().contains(gs) <==> done_combos(
                        self@,
                        combosdv,
                        gs,
                        ci as int,
                    ),
            decreases combos.len() - ci,
        {
            let combo = &combos[ci];
            proof {
                assert(combosdv.contains(combosdv[ci as int]));
                lemma_cross_contains(spec_slot_pools(self@), combosdv[ci as int]);
                assert(combo.deep_view() == combosdv[ci as int]);
            }
            let ghost cdv = combosdv[ci as int];
            let ghost base = out.deep_view().len();

            // one branch per two-handed candidate, shield forced empty
            let mut ti: usize = 0;
            while ti < self.twohand.len()
                invariant
                self@.wf(),
                combosdv == combos.deep_view(),
                combosdv == spec_cross(spec_slot_pools(self@)),
                combosdv.no_duplicates(),
                block == self@.twohand.len() + self@.weapon.len() * self@.shield.len() - 1,
                0 <= ci < combosdv.len(),
                cdv == combosdv[ci as int],
                cdv.len() == 9,
                combo.deep_view() == cdv,
                    0 <= ti <= self@.twohand.len(),
                    out.deep_view().len() == ci * block + ti,
                    out.deep_view().no_duplicates(),
                    forall|gs: GearSetV|
                        #[trigger] out.deep_view().contains(gs) <==> (done_combos(
                            self@,
                            combosdv,
                            gs,
                            ci as int,
                        ) || (proj9(gs) == cdv && branch1_upto(self@, gs, ti as int))),
                decreases self.twohand.len() - ti,
            {
                let gs = GearSet {
                    ammo: clone_opt_equipment(&combo[0]),
                    body: clone_opt_equipment(&combo[1]),
                    cape: clone_opt_equipment(&combo[2]),
                    feet: clone_opt_equipment(&combo[3]),
                    head: clone_opt_equipment(&combo[4]),
                    legs: clone_opt_equipment(&combo[5]),
                    neck: clone_opt_equipment(&combo[6]),
                    ring: clone_opt_equipment(&combo[7]),
                    hands: clone_opt_equipment(&combo[8]),
                    shield: None,
                    weapon: clone_opt_weapon(&self.twohand[ti]),
                };
                let ghost gsv = gs@;
                let ghost pre = out.deep_view();
                proof {
                    assert(proj9(gsv) =~= cdv);
                    assert(gsv.weapon == self@.twohand[ti as int]);
                    assert(gsv.shield is None);
                }
                out.push(gs);
                proof {
                    assert(out.deep_view() =~= pre.push(gsv));
                    // the new gear set was not emitted before
                    assert(!pre.contains(gsv)) by {
                        if pre.contains(gsv) {
                            if done_combos(self@, combosdv, gsv, ci as int) {
                                let k = choose|k: int|
                                    0 <= k < ci && combosdv[k] == proj9(gsv);
                                assert(combosdv[k] == combosdv[ci as int]);
                            } else {
                                let t = choose|t: int|
                                    0 <= t < ti && gsv.weapon == self@.twohand[t] && gsv.shield
                                        is None;
                                assert(self@.twohand[t] == self@.twohand[ti as int]);
                            }
                        }
                    }
                    assert forall|m: int, n: int|
                        0 <= m < out.deep_view().len() && 0 <= n < out.deep_view().len() && m
                            != n implies out.deep_view()[m] != out.deep_view()[n] by {
                        if m < pre.len() && n < pre.len() {
                        } else if m < pre.len() {
                            assert(pre.contains(pre[m]));
                        } else if n < pre.len() {
                            assert(pre.contains(pre[n]));
                        }
                    }
                    // membership after the push
                    assert forall|gs2: GearSetV|
                        #[trigger] out.deep_view().contains(gs2) <==> (done_combos(
                            self@,
                            combosdv,
                            gs2,
                            ci as int,
                        ) || (proj9(gs2) == cdv && branch1_upto(self@, gs2, ti + 1))) by {
                        lemma_push_contains(pre, gsv, gs2);
                        if gs2 == gsv {
                            assert(branch1_upto(self@, gs2, ti + 1));
                        }
                        if !(gs2 == gsv) && proj9(gs2) == cdv && branch1_upto(
                            self@,
                            gs2,
                            ti + 1,
                        ) && !branch1_upto(self@, gs2, ti as int) {
                            let t = choose|t: int|
                                0 <= t < ti + 1 && gs2.weapon == self@.twohand[t] && gs2.shield
                                    is None;
                            assert(t == ti);
                            assert(proj9(gs2) =~= proj9(gsv));
                        }
                    }
                }
                ti = ti + 1;
            }

            // one branch per (one-handed weapon, shield) pair; the
            // doubly empty pair already came out of the two-handed walk
            let mut wi: usize = 0;
            while wi < self.weapon.len()
                invariant
                self@.wf(),
                combosdv == combos.deep_view(),
                combosdv == spec_cross(spec_slot_pools(self@)),
                combosdv.no_duplicates(),
                block == self@.twohand.len() + self@.weapon.len() * self@.shield.len() - 1,
                0 <= ci < combosdv.len(),
                cdv == combosdv[ci as int],
                cdv.len() == 9,
                combo.deep_view() == cdv,
                    0 <= wi <= self@.weapon.len(),
                    out.deep_view().len() == ci * block + self@.twohand.len() + wi
                        * self@.shield.len() - skipped_in(
                        self@.weapon,
                        self@.shield,
                        wi as int,
                        0,
                    ),
                    out.deep_view().no_duplicates(),
                    forall|gs: GearSetV|
                        #[trigger] out.deep_view().contains(gs) <==> (done_combos(
                            self@,
                            combosdv,
                            gs,
                            ci as int,
                        ) || (proj9(gs) == cdv && (branch1_upto(
                            self@,
                            gs,
                            self@.twohand.len() as int,
                        ) || branch2_upto(self@, gs, wi as int, 0)))),
                decreases self.weapon.len() - wi,
            {
                let mut si: usize = 0;
                while si < self.shield.len()
                    invariant
                self@.wf(),
                combosdv == combos.deep_view(),
                combosdv == spec_cross(spec_slot_pools(self@)),
                combosdv.no_duplicates(),
                block == self@.twohand.len() + self@.weapon.len() * self@.shield.len() - 1,
                0 <= ci < combosdv.len(),
                cdv == combosdv[ci as int],
                cdv.len() == 9,
                combo.deep_view() == cdv,
                        0 <= wi < self@.weapon.len(),
                        0 <= si <= self@.shield.len(),
                        out.deep_view().len() == ci * block + self@.twohand.len() + wi
                            * self@.shield.len() + si - skipped_in(
                            self@.weapon,
                            self@.shield,
                            wi as int,
                            si as int,
                        ),
                        out.deep_view().no_duplicates(),
                        forall|gs: GearSetV|
                            #[trigger] out.deep_view().contains(gs) <==> (done_combos(
                                self@,
                                combosdv,
                                gs,
                                ci as int,
                            ) || (proj9(gs) == cdv && (branch1_upto(
                                self@,
                                gs,
                                self@.twohand.len() as int,
                            ) || branch2_upto(self@, gs, wi as int, si as int)))),
                    decreases self.shield.len() - si,
                {
                    if self.weapon[wi].is_none() && self.shield[si].is_none() {
                        // this pair is the all-empty one: the two-handed
                        // walk already emitted it
                        proof {
                            assert(self@.weapon[wi as int] is None);
                            assert(self@.shield[si as int] is None);
                            assert(!self@.weapon.take(wi as int).contains(None::<WeaponV>)) by {
                                if self@.weapon.take(wi as int).contains(None::<WeaponV>) {
                                    let k = choose|k: int|
                                        0 <= k < wi && (#[trigger] self@.weapon.take(
                                            wi as int,
                                        )[k]) is None;
                                    assert(self@.weapon[k] == self@.weapon[wi as int]);
                                }
                            }
                            assert(!self@.shield.take(si as int).contains(
                                None::<EquipmentV>,
                            )) by {
                                if self@.shield.take(si as int).contains(None::<EquipmentV>) {
                                    let k = choose|k: int|
                                        0 <= k < si && (#[trigger] self@.shield.take(
                                            si as int,
                                        )[k]) is None;
                                    assert(self@.shield[k] == self@.shield[si as int]);
                                }
                            }
                            assert(self@.shield.take(si + 1).contains(None::<EquipmentV>)) by {
                                assert(self@.shield.take(si + 1)[si as int] is None);
                            }
                            assert(skipped_in(self@.weapon, self@.shield, wi as int, si + 1)
                                == 1);
                            assert forall|gs: GearSetV|
                                branch2_upto(self@, gs, wi as int, si + 1) implies branch2_upto(
                                self@,
                                gs,
                                wi as int,
                                si as int,
                            ) by {
                                let (ww, ss) = choose|ww: int, ss: int|
                                    0 <= ww < self@.weapon.len() && 0 <= ss
                                        < self@.shield.len() && (ww < wi || (ww == wi && ss < si
                                        + 1)) && !(self@.weapon[ww] is None
                                        && self@.shield[ss] is None) && gs.weapon
                                        == self@.weapon[ww] && gs.shield == self@.shield[ss];
                                assert(!(ww == wi && ss == si));
                            }
                        }
                    } else {
                        let gs = GearSet {
                            ammo: clone_opt_equipment(&combo[0]),
                            body: clone_opt_equipment(&combo[1]),
                            cape: clone_opt_equipment(&combo[2]),
                            feet: clone_opt_equipment(&combo[3]),
                            head: clone_opt_equipment(&combo[4]),
                            legs: clone_opt_equipment(&combo[5]),
                            neck: clone_opt_equipment(&combo[6]),
                            ring: clone_opt_equipment(&combo[7]),
                            hands: clone_opt_equipment(&combo[8]),
                            shield: clone_opt_equipment(&self.shield[si]),
                            weapon: clone_opt_weapon(&self.weapon[wi]),
                        };
                        let ghost gsv = gs@;
                        let ghost pre = out.deep_view();
                        proof {
                            assert(proj9(gsv) =~= cdv);
                            assert(gsv.weapon == self@.weapon[wi as int]);
                            assert(gsv.shield == self@.shield[si as int]);
                            assert(!(self@.weapon[wi as int] is None && self@.shield[si as int]
                                is None));
                        }
                        out.push(gs);
                        proof {
                            assert(out.deep_view() =~= pre.push(gsv));
                            assert(self@.weapon.contains(gsv.weapon)) by {
                                assert(self@.weapon[wi as int] == gsv.weapon);
                            }
                            assert(!pre.contains(gsv)) by {
                                if pre.contains(gsv) {
                                    if done_combos(self@, combosdv, gsv, ci as int) {
                                        let k = choose|k: int|
                                            0 <= k < ci && combosdv[k] == proj9(gsv);
                                        assert(combosdv[k] == combosdv[ci as int]);
                                    } else if branch1_upto(
                                        self@,
                                        gsv,
                                        self@.twohand.len() as int,
                                    ) {
                                        let t = choose|t: int|
                                            0 <= t < self@.twohand.len() && gsv.weapon
                                                == self@.twohand[t] && gsv.shield is None;
                                        assert(self@.twohand.contains(self@.twohand[t]));
                                        assert(self@.weapon[wi as int] is None);
                                        assert(self@.shield[si as int] is None);
                                    } else {
                                        let (ww, ss) = choose|ww: int, ss: int|
                                            0 <= ww < self@.weapon.len() && 0 <= ss
                                                < self@.shield.len() && (ww < wi || (ww == wi
                                                && ss < si)) && !(self@.weapon[ww] is None
                                                && self@.shield[ss] is None) && gsv.weapon
                                                == self@.weapon[ww] && gsv.shield
                                                == self@.shield[ss];
                                            assert(self@.weapon[ww] == self@.weapon[wi as int]);
                                            assert(ww == wi);
                                            assert(self@.shield[ss] == self@.shield[si as int]);
                                    }
                                }
                            }
                            assert forall|m: int, n: int|
                                0 <= m < out.deep_view().len() && 0 <= n < out.deep_view().len()
                                    && m != n implies out.deep_view()[m] != out.deep_view()[
                            n] by {
                                if m < pre.len() && n < pre.len() {
                                } else if m < pre.len() {
                                    assert(pre.contains(pre[m]));
                                } else if n < pre.len() {
                                    assert(pre.contains(pre[n]));
                                }
                            }
                            assert(skipped_in(self@.weapon, self@.shield, wi as int, si + 1)
                                == skipped_in(self@.weapon, self@.shield, wi as int, si as int))
                                by {
                                if self@.weapon[wi as int] is None {
                                    assert(!(self@.shield[si as int] is None));
                                    assert(self@.shield.take(si + 1).contains(None::<EquipmentV>)
                                        <==> self@.shield.take(si as int).contains(
                                        None::<EquipmentV>,
                                    )) by {
                                        if self@.shield.take(si + 1).contains(
                                            None::<EquipmentV>,
                                        ) {
                                            let k = choose|k: int|
                                                0 <= k < si + 1 && (#[trigger] self@.shield.take(
                                                    si + 1,
                                                )[k]) is None;
                                            assert(k != si);
                                            assert(self@.shield.take(si as int)[k] is None);
                                        }
                                        if self@.shield.take(si as int).contains(
                                            None::<EquipmentV>,
                                        ) {
                                            let k = choose|k: int|
                                                0 <= k < si && (#[trigger] self@.shield.take(
                                                    si as int,
                                                )[k]) is None;
                                            assert(self@.shield.take(si + 1)[k] is None);
                                        }
                                    }
                                }
                            }
                            assert forall|gs2: GearSetV|
                                #[trigger] out.deep_view().contains(gs2) <==> (done_combos(
                                    self@,
                                    combosdv,
                                    gs2,
                                    ci as int,
                                ) || (proj9(gs2) == cdv && (branch1_upto(
                                    self@,
                                    gs2,
                                    self@.twohand.len() as int,
                                ) || branch2_upto(self@, gs2, wi as int, si + 1)))) by {
                                lemma_push_contains(pre, gsv, gs2);
                                if gs2 == gsv {
                                    assert(branch2_upto(self@, gs2, wi as int, si + 1));
                                }
                                if !(gs2 == gsv) && proj9(gs2) == cdv && branch2_upto(
                                    self@,
                                    gs2,
                                    wi as int,
                                    si + 1,
                                ) && !branch2_upto(self@, gs2, wi as int, si as int) {
                                    let (ww, ss) = choose|ww: int, ss: int|
                                        0 <= ww < self@.weapon.len() && 0 <= ss
                                            < self@.shield.len() && (ww < wi || (ww == wi && ss
                                            < si + 1)) && !(self@.weapon[ww] is None
                                            && self@.shield[ss] is None) && gs2.weapon
                                            == self@.weapon[ww] && gs2.shield
                                            == self@.shield[ss];
                                    assert(ww == wi && ss == si);
                                    assert(proj9(gs2) =~= proj9(gsv));
                                }
                            }
                        }
                    }
                    si = si + 1;
                }
                proof {
                    assert(self@.shield.take(self@.shield.len() as int) =~= self@.shield);
                    assert(self@.weapon.take(wi + 1).contains(None::<WeaponV>) <==> (
                    self@.weapon.take(wi as int).contains(None::<WeaponV>)
                        || self@.weapon[wi as int] is None)) by {
                        if self@.weapon.take(wi + 1).contains(None::<WeaponV>) {
                            let k = choose|k: int|
                                0 <= k < wi + 1 && (#[trigger] self@.weapon.take(wi + 1)[k])
                                    is None;
                            if k < wi {
                                assert(self@.weapon.take(wi as int)[k] is None);
                            }
                        }
                        if self@.weapon.take(wi as int).contains(None::<WeaponV>) {
                            let k = choose|k: int|
                                0 <= k < wi && (#[trigger] self@.weapon.take(wi as int)[k])
                                    is None;
                            assert(self@.weapon.take(wi + 1)[k] is None);
                        }
                        if self@.weapon[wi as int] is None {
                            assert(self@.weapon.take(wi + 1)[wi as int] is None);
                        }
                    }
                    assert(skipped_in(self@.weapon, self@.shield, wi as int, self@.shield.len() as int)
                        == skipped_in(self@.weapon, self@.shield, wi + 1, 0)) by {
                        if self@.weapon[wi as int] is None {
                            assert(self@.shield.contains(None::<EquipmentV>));
                        }
                    }
                    assert((wi + 1) * self@.shield.len() == wi * self@.shield.len()
                        + self@.shield.len()) by (nonlinear_arith);
                    assert forall|gs: GearSetV|
                        branch2_upto(self@, gs, wi as int, self@.shield.len() as int)
                            <==> branch2_upto(self@, gs, wi + 1, 0) by {}
                }
                wi = wi + 1;
            }
            proof {
                // this assignment's branches are exactly its candidates
                assert forall|gs: GearSetV|
                    (proj9(gs) == cdv && (branch1_upto(self@, gs, self@.twohand.len() as int)
                        || branch2_upto(self@, gs, self@.weapon.len() as int, 0)))
                        <==> (proj9(gs) == cdv && candidate_weapon(self@, gs)) by {
                    if proj9(gs) == cdv {
                        if branch1_upto(self@, gs, self@.twohand.len() as int) {
                            let t = choose|t: int|
                                0 <= t < self@.twohand.len() && gs.weapon == self@.twohand[t]
                                    && gs.shield is None;
                            assert(self@.twohand.contains(gs.weapon));
                        }
                        if branch2_upto(self@, gs, self@.weapon.len() as int, 0) {
                            let (ww, ss) = choose|ww: int, ss: int|
                                0 <= ww < self@.weapon.len() && 0 <= ss < self@.shield.len()
                                    && (ww < self@.weapon.len() || (ww == self@.weapon.len()
                                    && ss < 0)) && !(self@.weapon[ww] is None
                                    && self@.shield[ss] is None) && gs.weapon
                                    == self@.weapon[ww] && gs.shield == self@.shield[ss];
                            assert(self@.weapon.contains(gs.weapon));
                            assert(self@.shield.contains(gs.shield));
                        }
                        if candidate_weapon(self@, gs) {
                            if self@.twohand.contains(gs.weapon) && gs.shield is None {
                                let t = choose|t: int|
                                    0 <= t < self@.twohand.len() && self@.twohand[t]
                                        == gs.weapon;
                                assert(branch1_upto(self@, gs, self@.twohand.len() as int));
                            } else {
                                let ww = choose|ww: int|
                                    0 <= ww < self@.weapon.len() && self@.weapon[ww]
                                        == gs.weapon;
                                let ss = choose|ss: int|
                                    0 <= ss < self@.shield.len() && self@.shield[ss]
                                        == gs.shield;
                                if self@.weapon[ww] is None && self@.shield[ss] is None {
                                    // the all-empty pair flows through
                                    // the two-handed branches instead
                                    assert(self@.twohand.contains(None::<WeaponV>));
                                    let t = choose|t: int|
                                        0 <= t < self@.twohand.len() && (
                                        #[trigger] self@.twohand[t]) is None;
                                    assert(branch1_upto(
                                        self@,
                                        gs,
                                        self@.twohand.len() as int,
                                    ));
                                } else {
                                    assert(branch2_upto(
                                        self@,
                                        gs,
                                        self@.weapon.len() as int,
                                        0,
                                    ));
                                }
                            }
                        }
                    }
                }
                // fold this assignment into the finished ones
                assert forall|gs: GearSetV|
                    #[trigger] out.deep_view().contains(gs) <==> done_combos(
                        self@,
                        combosdv,
                        gs,
                        ci + 1,
                    ) by {
                    if out.deep_view().contains(gs) {
                        if done_combos(self@, combosdv, gs, ci as int) {
                            let k = choose|k: int| 0 <= k < ci && combosdv[k] == proj9(gs);
                            assert(0 <= k < ci + 1 && combosdv[k] == proj9(gs));
                        } else {
                            assert(combosdv[ci as int] == proj9(gs));
                        }
                    }
                    if done_combos(self@, combosdv, gs, ci + 1) && !done_combos(
                        self@,
                        combosdv,
                        gs,
                        ci as int,
                    ) {
                        let k = choose|k: int| 0 <= k < ci + 1 && combosdv[k] == proj9(gs);
                        assert(k == ci);
                    }
                }
                assert(skipped_in(self@.weapon, self@.shield, self@.weapon.len() as int, 0)
                    == 1) by {
                    assert(self@.weapon.contains(None::<WeaponV>));
                    let k = choose|k: int|
                        0 <= k < self@.weapon.len() && (#[trigger] self@.weapon[k]) is None;
                    assert(self@.weapon.take(self@.weapon.len() as int) =~= self@.weapon);
                }
                assert((ci + 1) * block == ci * block + block) by (nonlinear_arith);
            }
            ci = ci + 1;
        }
        proof {
            // the finished assignments are exactly the candidates
            assert forall|gs: GearSetV|
                #[trigger] out.deep_view().contains(gs) <==> spec_is_candidate(self@, gs) by {
                lemma_cross_contains(spec_slot_pools(self@), proj9(gs));
                if out.deep_view().contains(gs) {
                    let k = choose|k: int|
                        0 <= k < combosdv.len() && combosdv[k] == proj9(gs);
                    assert(combosdv.contains(proj9(gs)));
                    assert(self@.ammo.contains(proj9(gs)[0]));
                    assert(self@.body.contains(proj9(gs)[1]));
                    assert(self@.cape.contains(proj9(gs)[2]));
                    assert(self@.feet.contains(proj9(gs)[3]));
                    assert(self@.head.contains(proj9(gs)[4]));
                    assert(self@.legs.contains(proj9(gs)[5]));
                    assert(self@.neck.contains(proj9(gs)[6]));
                    assert(self@.ring.contains(proj9(gs)[7]));
                    assert(self@.hands.contains(proj9(gs)[8]));
                }
                if spec_is_candidate(self@, gs) {
                    assert(spec_slot_pools(self@)[0].contains(proj9(gs)[0]));
                    assert(spec_slot_pools(self@)[1].contains(proj9(gs)[1]));
                    assert(spec_slot_pools(self@)[2].contains(proj9(gs)[2]));
                    assert(spec_slot_pools(self@)[3].contains(proj9(gs)[3]));
                    assert(spec_slot_pools(self@)[4].contains(proj9(gs)[4]));
                    assert(spec_slot_pools(self@)[5].contains(proj9(gs)[5]));
                    assert(spec_slot_pools(self@)[6].contains(proj9(gs)[6]));
                    assert(spec_slot_pools(self@)[7].contains(proj9(gs)[7]));
                    assert(spec_slot_pools(self@)[8].contains(proj9(gs)[8]));
                    assert forall|p: int|
                        0 <= p < spec_slot_pools(self@).len() implies #[trigger] spec_slot_pools(
                        self@,
                    )[p].contains(proj9(gs)[p]) by {
                        if p == 0 || p == 1 || p == 2 || p == 3 || p == 4 || p == 5 || p == 6
                            || p == 7 || p == 8 {
                        }
                    }
                    assert(combosdv.contains(proj9(gs)));
                    let k = choose|k: int|
                        0 <= k < combosdv.len() && combosdv[k] == proj9(gs);
                    assert(done_combos(self@, combosdv, gs, combosdv.len() as int));
                }
            }
        }
        out
    }
}

/// A player can be scored against a monster when the wielded weapon
/// offers at least one stance, every stance is resolved, and every
/// stance yields a comparable score.
pub open spec fn spec_scoreable(p: PlayerV, m: MonsterV) -> bool {
    let ss = spec_player_stances(p);
    &&& ss.len() > 0
    &&& forall|i: int| 0 <= i < ss.len() ==> stance_resolved(#[trigger] ss[i])
    &&& forall|i: int|
        0 <= i < ss.len() ==> spec_score_valid(
            p,
            m,
            true,
            (#[trigger] ss[i]).attack_style.unwrap(),
            ss[i].attack_type.unwrap(),
        )
}

/// The best stance of one player against one monster: the stance with
/// the highest exact DPS, the first of equals winning, together with
/// the DPS and the equipment bonuses it used.
pub fn run_attack_styles(base: &Player, monster: &Monster) -> (r: Result<
    (Ratio, (AttackStyle, AttackType), i64, i64),
    OptimizationError,
>)
    requires
        base@.wf(),
        monster@.wf(),
    ensures
        (r is Ok) == spec_scoreable(base@, monster@),
        r matches Ok(t) ==> {
            let pairs = spec_resolved_pairs(spec_player_stances(base@));
            &&& t.0.wf()
            &&& exists|i: int|
                0 <= i < pairs.len() && #[trigger] pairs[i] == t.1 && t.0@ == spec_stance_dps(
                    base@,
                    monster@,
                    true,
                    t.1.0,
                    t.1.1,
                ) && (forall|j: int|
                    0 <= j < i ==> rat_lt(
                        spec_stance_dps(
                            base@,
                            monster@,
                            true,
                            (#[trigger] pairs[j]).0,
                            pairs[j].1,
                        ),
                        t.0@,
                    ))
            &&& forall|j: int|
                0 <= j < pairs.len() ==> rat_le(
                    spec_stance_dps(base@, monster@, true, (#[trigger] pairs[j]).0, pairs[j].1),
                    t.0@,
                )
            &&& forall|j: int|
                0 <= j < pairs.len() ==> rat_wf(
                    spec_stance_dps(base@, monster@, true, (#[trigger] pairs[j]).0, pairs[j].1),
                )
            &&& t.2 == spec_gear_attack_bonus(base@.gear, t.1.1)
            &&& t.3 == spec_gear_strength_bonus(base@.gear, t.1.1)
        },
        r == Err::<(Ratio, (AttackStyle, AttackType), i64, i64), _>(
            OptimizationError::UnresolvedStance,
        ) <==> exists|i: int|
            0 <= i < spec_player_stances(base@).len() && !stance_resolved(
                #[trigger] spec_player_stances(base@)[i],
            ),
        r == Err::<(Ratio, (AttackStyle, AttackType), i64, i64), _>(
            OptimizationError::WeaponWithoutStances,
        ) <==> ((forall|i: int|
            0 <= i < spec_player_stances(base@).len() ==> stance_resolved(
                #[trigger] spec_player_stances(base@)[i],
            )) && spec_player_stances(base@).len() == 0),
        r matches Err(e) ==> (e == OptimizationError::UnresolvedStance || e
            == OptimizationError::WeaponWithoutStances || e
            == OptimizationError::NonComparableScore),
{
    let styles = match base.weapon_styles() {
        Ok(v) => v,
        Err(e) => {
            return Err(e);
        },
    };
    let ghost pairs = spec_resolved_pairs(spec_player_stances(base@));
    proof {
        assert(styles@ == pairs);
    }
    if styles.len() == 0 {
        return Err(OptimizationError::WeaponWithoutStances);
    }

    let mut best: (Ratio, (AttackStyle, AttackType), i64, i64) = (
        Ratio { num: 0, den: 1 },
        styles[0],
        0,
        0,
    );
    let ghost mut best_i: int = 0;
    let mut started = false;
    let mut i: usize = 0;
    while i < styles.len()
        invariant
            base@.wf(),
            monster@.wf(),
            pairs == spec_resolved_pairs(spec_player_stances(base@)),
            styles@ == pairs,
            0 < styles@.len(),
            0 <= i <= styles@.len(),
            forall|j: int|
                0 <= j < spec_player_stances(base@).len() ==> stance_resolved(
                    #[trigger] spec_player_stances(base@)[j],
                ),
            forall|j: int|
                0 <= j < i ==> spec_score_valid(
                    base@,
                    monster@,
                    true,
                    (#[trigger] pairs[j]).0,
                    pairs[j].1,
                ),
            forall|j: int|
                0 <= j < i ==> rat_wf(
                    spec_stance_dps(
                        base@,
                        monster@,
                        true,
                        (#[trigger] pairs[j]).0,
                        pairs[j].1,
                    ),
                ),
            started == (i > 0),
            started ==> {
                &&& 0 <= best_i < i
                &&& best.0.wf()
                &&& best.1 == pairs[best_i]
                &&& best.0@ == spec_stance_dps(base@, monster@, true, best.1.0, best.1.1)
                &&& best.2 == spec_gear_attack_bonus(base@.gear, best.1.1)
                &&& best.3 == spec_gear_strength_bonus(base@.gear, best.1.1)
                &&& forall|j: int|
                    0 <= j < i ==> rat_le(
                        spec_stance_dps(
                            base@,
                            monster@,
                            true,
                            (#[trigger] pairs[j]).0,
                            pairs[j].1,
                        ),
                        best.0@,
                    )
                &&& forall|j: int|
                    0 <= j < best_i ==> rat_lt(
                        spec_stance_dps(
                            base@,
                            monster@,
                            true,
                            (#[trigger] pairs[j]).0,
                            pairs[j].1,
                        ),
                        best.0@,
                    )
            },
        decreases styles@.len() - i,
    {
        let st = styles[i];
        let ar = base.max_attack_roll(monster, true, &st.0, &st.1);
        let dr = monster.max_defence_roll(&st.1);
        let ticks = base.gear.attack_interval_ticks();
        if ar < 0 || dr < 0 || ticks < 1 {
            proof {
                assert(!spec_score_valid(base@, monster@, true, pairs[i as int].0, pairs[
                    i as int].1));
                let ss = spec_player_stances(base@);
                assert(pairs[i as int] == ((#[trigger] ss[i as int]).attack_style.unwrap(), ss[
                    i as int].attack_type.unwrap()));
                assert(!spec_scoreable(base@, monster@));
            }
            return Err(OptimizationError::NonComparableScore);
        }
        let d = base.dps(monster, true, &st);
        let ab = base.gear.attack_equipment_bonus(&st.1);
        let sb = base.gear.strength_equipment_bonus(&st.1);
        if !started {
            best = (d, st, ab, sb);
            proof {
                best_i = i as int;
            }
            started = true;
        } else if ratio_lt(&best.0, &d) {
            proof {
                assert forall|j: int| 0 <= j < i implies rat_le(
                    spec_stance_dps(base@, monster@, true, (#[trigger] pairs[j]).0, pairs[j].1),
                    d@,
                ) by {
                    crate::ratio::lemma_rat_le_lt_trans(
                        spec_stance_dps(base@, monster@, true, pairs[j].0, pairs[j].1),
                        best.0@,
                        d@,
                    );
                }
                assert forall|j: int| 0 <= j < i implies rat_lt(
                    spec_stance_dps(base@, monster@, true, (#[trigger] pairs[j]).0, pairs[j].1),
                    d@,
                ) by {
                    crate::ratio::lemma_rat_le_lt_trans(
                        spec_stance_dps(base@, monster@, true, pairs[j].0, pairs[j].1),
                        best.0@,
                        d@,
                    );
                }
                best_i = i as int;
            }
            best = (d, st, ab, sb);
        } else {
            proof {
                crate::ratio::lemma_rat_le_total(best.0@, d@);
            }
        }
        i = i + 1;
    }
    proof {
        let ss = spec_player_stances(base@);
        assert forall|i2: int| 0 <= i2 < ss.len() implies spec_score_valid(
            base@,
            monster@,
            true,
            (#[trigger] ss[i2]).attack_style.unwrap(),
            ss[i2].attack_type.unwrap(),
        ) by {
            assert(pairs[i2] == (ss[i2].attack_style.unwrap(), ss[i2].attack_type.unwrap()));
        }
        assert(spec_scoreable(base@, monster@));
    }
    Ok(best)
}

/// The player as worn after equipping one gear set: only the gear
/// changes.
pub open spec fn spec_equipped(p: PlayerV, gs: GearSetV) -> PlayerV {
    PlayerV { gear: spec_gear_of_set(gs), ..p }
}

/// A slot choice the optimizer owes: empty, the worn item, or any
/// spare of that slot.
pub open spec fn slot_candidate(
    x: Option<EquipmentV>,
    worn: Option<EquipmentV>,
    spares: Seq<EquipmentV>,
    slot: EquipmentSlot,
) -> bool {
    ||| x is None
    ||| x == worn
    ||| in_spare_equipment(x, spares, slot, spares.len() as int)
}

/// A weapon choice the optimizer owes for one handedness: empty, the
/// worn weapon if it is of that handedness, or any spare of it.
pub open spec fn weapon_candidate_of(x: Option<WeaponV>, p: PlayerV, slot: EquipmentSlot) -> bool {
    ||| x is None
    ||| (match p.gear.weapon {
        Some(w) => w.equipment.slot == slot && x == Some(w),
        None => false,
    })
    ||| in_spare_weapons(
        x,
        p.spare_equipment.spare_weapons,
        slot,
        p.spare_equipment.spare_weapons.len() as int,
    )
}

/// A gear set the optimizer owes an evaluation of: every slot drawn
/// from what the player owns, with a two-handed weapon forcing the
/// shield empty.
pub open spec fn run_candidate(p: PlayerV, gs: GearSetV) -> bool {
    &&& slot_candidate(gs.ammo, p.gear.ammo, p.spare_equipment.spare_equipment, EquipmentSlot::AMMO)
    &&& slot_candidate(gs.body, p.gear.body, p.spare_equipment.spare_equipment, EquipmentSlot::BODY)
    &&& slot_candidate(gs.cape, p.gear.cape, p.spare_equipment.spare_equipment, EquipmentSlot::CAPE)
    &&& slot_candidate(gs.feet, p.gear.feet, p.spare_equipment.spare_equipment, EquipmentSlot::FEET)
    &&& slot_candidate(gs.head, p.gear.head, p.spare_equipment.spare_equipment, EquipmentSlot::HEAD)
    &&& slot_candidate(gs.legs, p.gear.legs, p.spare_equipment.spare_equipment, EquipmentSlot::LEGS)
    &&& slot_candidate(gs.neck, p.gear.neck, p.spare_equipment.spare_equipment, EquipmentSlot::NECK)
    &&& slot_candidate(gs.ring, p.gear.ring, p.spare_equipment.spare_equipment, EquipmentSlot::RING)
    &&& slot_candidate(
        gs.hands,
        p.gear.hands,
        p.spare_equipment.spare_equipment,
        EquipmentSlot::HANDS,
    )
    &&& ((weapon_candidate_of(gs.weapon, p, EquipmentSlot::TWOHAND) && gs.shield is None)
        || (weapon_candidate_of(gs.weapon, p, EquipmentSlot::WEAPON) && slot_candidate(
        gs.shield,
        p.gear.shield,
        p.spare_equipment.spare_equipment,
        EquipmentSlot::SHIELD,
    )))
}

/// A one-element sequence holds exactly its element.
proof fn lemma_singleton_contains<T>(e: T, x: T)
    ensures
        seq![e].contains(x) <==> x == e,
{
    if seq![e].contains(x) {
        let k = choose|k: int| 0 <= k < 1 && seq![e][k] == x;
    }
    if x == e {
        assert(seq![e][0] == x);
    }
}

/// A product of pools that each offer a choice is positive.
proof fn lemma_pools_prod_pos(pools: Seq<Seq<Option<EquipmentV>>>)
    requires
        forall|p: int| 0 <= p < pools.len() ==> (#[trigger] pools[p]).len() >= 1,
    ensures
        pools_prod(pools) >= 1,
    decreases pools.len(),
{
    if pools.len() == 0 {
    } else {
        assert forall|p: int|
            0 <= p < pools.drop_first().len() implies (#[trigger] pools.drop_first()[p]).len()
            >= 1 by {
            assert(pools[p + 1].len() >= 1);
        }
        lemma_pools_prod_pos(pools.drop_first());
        assert(pools[0].len() >= 1);
        assert(pools[0].len() * pools_prod(pools.drop_first()) >= 1) by (nonlinear_arith)
            requires
                pools[0].len() >= 1,
                pools_prod(pools.drop_first()) >= 1,
        ;
    }
}

/// Search every candidate gear set and every stance for the highest
/// exact DPS against `monster`.  Of equal scores the first found in
/// enumeration order wins, deliberately, so the result is
/// deterministic.  The search aborts with a typed error on the first
/// candidate whose weapon has no stances, whose stance is unresolved,
/// or whose score is not comparable; it never returns such a score.
pub fn run(player: Player, monster: &Monster) -> (r: Result<
    ((Ratio, (AttackStyle, AttackType), i64, i64), GearSet),
    OptimizationError,
>)
    requires
        player@.wf_full(),
        monster@.wf(),
    ensures
        (r is Ok) == (forall|gs: GearSetV|
            #[trigger] run_candidate(player@, gs) ==> spec_scoreable(
                spec_equipped(player@, gs),
                monster@,
            )),
        r matches Ok(t) ==> {
            &&& run_candidate(player@, t.1@)
            &&& gearset_valid(t.1@)
            &&& t.0.0.wf()
            &&& t.0.0@ == spec_stance_dps(
                spec_equipped(player@, t.1@),
                monster@,
                true,
                t.0.1.0,
                t.0.1.1,
            )
            &&& spec_resolved_pairs(spec_player_stances(spec_equipped(player@, t.1@))).contains(
                t.0.1,
            )
            &&& t.0.2 == spec_gear_attack_bonus(spec_gear_of_set(t.1@), t.0.1.1)
            &&& t.0.3 == spec_gear_strength_bonus(spec_gear_of_set(t.1@), t.0.1.1)
            &&& forall|gs: GearSetV, j: int|
                #[trigger] run_candidate(player@, gs) && 0 <= j < spec_resolved_pairs(
                    spec_player_stances(spec_equipped(player@, gs)),
                ).len() ==> rat_le(
                    spec_stance_dps(
                        spec_equipped(player@, gs),
                        monster@,
                        true,
                        (#[trigger] spec_resolved_pairs(
                            spec_player_stances(spec_equipped(player@, gs)),
                        )[j]).0,
                        spec_resolved_pairs(spec_player_stances(spec_equipped(player@, gs)))[
                            j].1,
                    ),
                    t.0.0@,
                )
        },
        r matches Err(e) ==> (e == OptimizationError::UnresolvedStance || e
            == OptimizationError::WeaponWithoutStances || e
            == OptimizationError::NonComparableScore),
        r == Err::<((Ratio, (AttackStyle, AttackType), i64, i64), GearSet), _>(
            OptimizationError::UnresolvedStance,
        ) ==> exists|gs: GearSetV, i: int|
            #[trigger] run_candidate(player@, gs) && 0 <= i < spec_player_stances(
                spec_equipped(player@, gs),
            ).len() && !stance_resolved(
                #[trigger] spec_player_stances(spec_equipped(player@, gs))[i],
            ),
        r == Err::<((Ratio, (AttackStyle, AttackType), i64, i64), GearSet), _>(
            OptimizationError::WeaponWithoutStances,
        ) ==> exists|gs: GearSetV|
            #[trigger] run_candidate(player@, gs) && spec_player_stances(
                spec_equipped(player@, gs),
            ).len() == 0,
{
    let mut sim = Simulation::new(&player.gear, &player.spare_equipment);
    sim.init();
    // a mandatory axis without candidates is a structural error; the
    // builder seeds every pool with the empty choice, so the check is
    // for form's sake
    if sim.ammo.len() == 0 || sim.body.len() == 0 || sim.cape.len() == 0 || sim.feet.len() == 0
        || sim.head.len() == 0 || sim.legs.len() == 0 || sim.neck.len() == 0 || sim.ring.len()
        == 0 || sim.hands.len() == 0 || sim.shield.len() == 0 || sim.weapon.len() == 0
        || sim.twohand.len() == 0 {
        return Err(OptimizationError::EmptyCandidatePool);
    }
    let ghost simv = sim@;
    proof {
        // the pools offer exactly what the player owns
        assert forall|gs: GearSetV|
            spec_is_candidate(simv, gs) <==> #[trigger] run_candidate(player@, gs) by {
            lemma_singleton_contains(None::<EquipmentV>, gs.ammo);
            lemma_singleton_contains(None::<EquipmentV>, gs.body);
            lemma_singleton_contains(None::<EquipmentV>, gs.cape);
            lemma_singleton_contains(None::<EquipmentV>, gs.feet);
            lemma_singleton_contains(None::<EquipmentV>, gs.head);
            lemma_singleton_contains(None::<EquipmentV>, gs.legs);
            lemma_singleton_contains(None::<EquipmentV>, gs.neck);
            lemma_singleton_contains(None::<EquipmentV>, gs.ring);
            lemma_singleton_contains(None::<EquipmentV>, gs.hands);
            lemma_singleton_contains(None::<EquipmentV>, gs.shield);
            lemma_singleton_contains(None::<WeaponV>, gs.weapon);
        }
    }
    let combos = sim.get_gear_combinations();
    let ghost combosdv = combos.deep_view();
    proof {
        assert(combosdv.len() >= 1) by {
            assert forall|p: int|
                0 <= p < spec_slot_pools(simv).len() implies (#[trigger] spec_slot_pools(
                simv,
            )[p]).len() >= 1 by {
                let ps = spec_slot_pools(simv);
                if p == 0 {
                    assert(ps[p] == simv.ammo);
                } else if p == 1 {
                    assert(ps[p] == simv.body);
                } else if p == 2 {
                    assert(ps[p] == simv.cape);
                } else if p == 3 {
                    assert(ps[p] == simv.feet);
                } else if p == 4 {
                    assert(ps[p] == simv.head);
                } else if p == 5 {
                    assert(ps[p] == simv.legs);
                } else if p == 6 {
                    assert(ps[p] == simv.neck);
                } else if p == 7 {
                    assert(ps[p] == simv.ring);
                } else {
                    assert(ps[p] == simv.hands);
                }
            }
            lemma_pools_prod_pos(spec_slot_pools(simv));
            assert(simv.twohand.len() + simv.weapon.len() * simv.shield.len() - 1 >= 1)
                by (nonlinear_arith)
                requires
                    simv.twohand.len() >= 1,
                    simv.weapon.len() >= 1,
                    simv.shield.len() >= 1,
            ;
            assert(combosdv.len() >= 1) by (nonlinear_arith)
                requires
                    combosdv.len() == pools_prod(spec_slot_pools(simv)) * (simv.twohand.len()
                        + simv.weapon.len() * simv.shield.len() - 1),
                    pools_prod(spec_slot_pools(simv)) >= 1,
                    simv.twohand.len() + simv.weapon.len() * simv.shield.len() - 1 >= 1,
            ;
        }
    }
    let mut best: (Ratio, (AttackStyle, AttackType), i64, i64) = (
        Ratio { num: 0, den: 1 },
        (AttackStyle::ACCURATE, AttackType::CRUSH),
        0,
        0,
    );
    let mut best_gs: GearSet = combos[0].clone();
    let ghost mut best_ci: int = 0;
    let mut started = false;
    let mut ci: usize = 0;
    while ci < combos.len()
        invariant
            player@.wf_full(),
            monster@.wf(),
            combosdv == combos.deep_view(),
            forall|gs: GearSetV|
                #[trigger] combosdv.contains(gs) <==> spec_is_candidate(simv, gs),
            forall|gs: GearSetV|
                spec_is_candidate(simv, gs) <==> #[trigger] run_candidate(player@, gs),
            simv.wf(),
            0 <= ci <= combosdv.len(),
            combosdv.len() >= 1,
            forall|k: int|
                0 <= k < ci ==> spec_scoreable(
                    spec_equipped(player@, #[trigger] combosdv[k]),
                    monster@,
                ),
            started == (ci > 0),
            started ==> {
                &&& 0 <= best_ci < ci
                &&& best_gs@ == combosdv[best_ci]
                &&& best.0.wf()
                &&& best.0@ == spec_stance_dps(
                    spec_equipped(player@, best_gs@),
                    monster@,
                    true,
                    best.1.0,
                    best.1.1,
                )
                &&& spec_resolved_pairs(
                    spec_player_stances(spec_equipped(player@, best_gs@)),
                ).contains(best.1)
                &&& best.2 == spec_gear_attack_bonus(spec_gear_of_set(best_gs@), best.1.1)
                &&& best.3 == spec_gear_strength_bonus(spec_gear_of_set(best_gs@), best.1.1)
                &&& forall|k: int, j: int|
                    0 <= k < ci && 0 <= j < spec_resolved_pairs(
                        spec_player_stances(spec_equipped(player@, #[trigger] combosdv[k])),
                    ).len() ==> rat_le(
                        #[trigger] spec_stance_dps(
                            spec_equipped(player@, combosdv[k]),
                            monster@,
                            true,
                            spec_resolved_pairs(
                                spec_player_stances(spec_equipped(player@, combosdv[k])),
                            )[j].0,
                            spec_resolved_pairs(
                                spec_player_stances(spec_equipped(player@, combosdv[k])),
                            )[j].1,
                        ),
                        best.0@,
                    )
                &&& forall|k: int, j: int|
                    0 <= k < ci && 0 <= j < spec_resolved_pairs(
                        spec_player_stances(spec_equipped(player@, #[trigger] combosdv[k])),
                    ).len() ==> rat_wf(
                        #[trigger] spec_stance_dps(
                            spec_equipped(player@, combosdv[k]),
                            monster@,
                            true,
                            spec_resolved_pairs(
                                spec_player_stances(spec_equipped(player@, combosdv[k])),
                            )[j].0,
                            spec_resolved_pairs(
                                spec_player_stances(spec_equipped(player@, combosdv[k])),
                            )[j].1,
                        ),
                    )
            },
        decreases combos@.len() - ci,
    {
        let p = combos[ci].equip_player(&player);
        proof {
            assert(combosdv[ci as int] == combos@[ci as int]@);
            assert(combosdv.contains(combosdv[ci as int]));
            lemma_candidate_gear_wf(simv, combosdv[ci as int]);
            assert(p@ == spec_equipped(player@, combosdv[ci as int]));
            assert(p@.wf());
        }
        match run_attack_styles(&p, monster) {
            Err(e) => {
                proof {
                    assert(run_candidate(player@, combosdv[ci as int]));
                    assert(!spec_scoreable(spec_equipped(player@, combosdv[ci as int]), monster@));
                    if e == OptimizationError::UnresolvedStance {
                        let i = choose|i: int|
                            0 <= i < spec_player_stances(p@).len() && !stance_resolved(
                                #[trigger] spec_player_stances(p@)[i],
                            );
                        assert(#[trigger] run_candidate(player@, combosdv[ci as int]) && 0 <= i
                            < spec_player_stances(
                            spec_equipped(player@, combosdv[ci as int]),
                        ).len() && !stance_resolved(
                            #[trigger] spec_player_stances(
                                spec_equipped(player@, combosdv[ci as int]),
                            )[i],
                        ));
                    }
                }
                return Err(e);
            },
            Ok(t) => {
                let ghost curdv = combosdv[ci as int];
                let ghost pairs = spec_resolved_pairs(
                    spec_player_stances(spec_equipped(player@, curdv)),
                );
                if !started {
                    best = t;
                    best_gs = combos[ci].clone();
                    proof {
                        best_ci = ci as int;
                    }
                    started = true;
                } else if ratio_lt(&best.0, &t.0) {
                    proof {
                        assert forall|k: int, j: int|
                            0 <= k < ci && 0 <= j < spec_resolved_pairs(
                                spec_player_stances(
                                    spec_equipped(player@, #[trigger] combosdv[k]),
                                ),
                            ).len() implies rat_le(
                            #[trigger] spec_stance_dps(
                                spec_equipped(player@, combosdv[k]),
                                monster@,
                                true,
                                spec_resolved_pairs(
                                    spec_player_stances(spec_equipped(player@, combosdv[k])),
                                )[j].0,
                                spec_resolved_pairs(
                                    spec_player_stances(spec_equipped(player@, combosdv[k])),
                                )[j].1,
                            ),
                            t.0@,
                        ) by {
                            let d = spec_stance_dps(
                                spec_equipped(player@, combosdv[k]),
                                monster@,
                                true,
                                spec_resolved_pairs(
                                    spec_player_stances(spec_equipped(player@, combosdv[k])),
                                )[j].0,
                                spec_resolved_pairs(
                                    spec_player_stances(spec_equipped(player@, combosdv[k])),
                                )[j].1,
                            );
                            crate::ratio::lemma_rat_le_lt_trans(d, best.0@, t.0@);
                        }
                        best_ci = ci as int;
                    }
                    best = t;
                    best_gs = combos[ci].clone();
                } else {
                    proof {
                        crate::ratio::lemma_rat_le_total(best.0@, t.0@);
                        assert forall|j: int| 0 <= j < pairs.len() implies rat_le(
                            spec_stance_dps(
                                spec_equipped(player@, curdv),
                                monster@,
                                true,
                                (#[trigger] pairs[j]).0,
                                pairs[j].1,
                            ),
                            best.0@,
                        ) by {
                            crate::ratio::lemma_rat_le_trans(
                                spec_stance_dps(
                                    spec_equipped(player@, curdv),
                                    monster@,
                                    true,
                                    pairs[j].0,
                                    pairs[j].1,
                                ),
                                t.0@,
                                best.0@,
                            );
                        }
                    }
                }
            },
        }
        ci = ci + 1;
    }
    proof {
        assert forall|gs: GearSetV|
            #[trigger] run_candidate(player@, gs) implies spec_scoreable(
            spec_equipped(player@, gs),
            monster@,
        ) by {
            assert(combosdv.contains(gs));
            let k = choose|k: int| 0 <= k < combosdv.len() && combosdv[k] == gs;
        }
        assert forall|gs: GearSetV, j: int|
            #[trigger] run_candidate(player@, gs) && 0 <= j < spec_resolved_pairs(
                spec_player_stances(spec_equipped(player@, gs)),
            ).len() implies rat_le(
            spec_stance_dps(
                spec_equipped(player@, gs),
                monster@,
                true,
                (#[trigger] spec_resolved_pairs(
                    spec_player_stances(spec_equipped(player@, gs)),
                )[j]).0,
                spec_resolved_pairs(spec_player_stances(spec_equipped(player@, gs)))[j].1,
            ),
            best.0@,
        ) by {
            assert(combosdv.contains(gs));
            let k = choose|k: int| 0 <= k < combosdv.len() && combosdv[k] == gs;
        }
        assert(combosdv.contains(combosdv[best_ci]));
        assert(run_candidate(player@, best_gs@));
        lemma_candidate_gear_wf(simv, best_gs@);
    }
    Ok((best, best_gs))
}

} // verus!
