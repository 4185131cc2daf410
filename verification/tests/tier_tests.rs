use bloon_sim::bloon::{
    Bloon, MODIFIER_BLACK, MODIFIER_CAMO, MODIFIER_FORTIFIED, MODIFIER_LEAD, MODIFIER_PURPLE,
    MODIFIER_WHITE,
};
use bloon_sim::damage::DamageType;
use bloon_sim::tier::{BloonTier, BloonType};
use bloon_sim::upgradable::Upgradable;

#[test]
fn catalog_children() {
    assert_eq!(BloonTier::Red.get_base_child_bloons(), Vec::<BloonTier>::new());
    assert_eq!(BloonTier::Blue.get_base_child_bloons(), vec![BloonTier::Red]);
    assert_eq!(
        BloonTier::Zebra.get_base_child_bloons(),
        vec![BloonTier::Black, BloonTier::White]
    );
    assert_eq!(
        BloonTier::BAD.get_base_child_bloons(),
        vec![
            BloonTier::ZOMG,
            BloonTier::ZOMG,
            BloonTier::DDT,
            BloonTier::DDT,
            BloonTier::DDT
        ]
    );
}

#[test]
fn catalog_stats() {
    assert_eq!(BloonTier::Red.get_base_hp(), 1);
    assert_eq!(BloonTier::Ceramic.get_base_hp(), 10);
    assert_eq!(BloonTier::ZOMG.get_base_hp(), 4000);
    assert_eq!(BloonTier::Red.get_base_speed(), 100);
    assert_eq!(BloonTier::Pink.get_base_speed(), 350);
    assert_eq!(BloonTier::Red.get_base_hitbox_radius(), 13500);
    assert_eq!(BloonTier::BAD.get_base_hitbox_radius(), 81000);
    assert_eq!(BloonTier::Lead.get_fortified_hp_mult(), 4);
    assert_eq!(BloonTier::Ceramic.get_fortified_hp_mult(), 2);
    assert!(matches!(BloonTier::MOAB.get_type(), BloonType::Blimp));
    assert!(matches!(BloonTier::Ceramic.get_type(), BloonType::Bloon));
}

#[test]
fn spawn_modifiers_follow_tier() {
    assert_eq!(Bloon::with(BloonTier::Purple, 0).modifiers, MODIFIER_PURPLE);
    assert_eq!(
        Bloon::with(BloonTier::Zebra, 0).modifiers,
        MODIFIER_BLACK | MODIFIER_WHITE
    );
    assert_eq!(
        Bloon::with(BloonTier::DDT, 0).modifiers,
        MODIFIER_LEAD | MODIFIER_CAMO
    );
    assert_eq!(Bloon::with(BloonTier::Red, 0).modifiers, 0);
}

#[test]
fn fortified_multiplies_spawn_health_once() {
    assert_eq!(Bloon::with(BloonTier::Red, 0).hp, 1);
    assert_eq!(Bloon::with(BloonTier::Red, MODIFIER_FORTIFIED).hp, 2);
    // the lead class quadruples
    assert_eq!(Bloon::with(BloonTier::Lead, MODIFIER_FORTIFIED).hp, 4);
    assert_eq!(Bloon::with(BloonTier::Ceramic, MODIFIER_FORTIFIED).hp, 20);
}

#[test]
fn damage_type_masks() {
    assert_eq!(DamageType::Normal.to_modifier_mask(), 0);
    assert_eq!(DamageType::Shatter.to_modifier_mask(), MODIFIER_LEAD);
    assert_eq!(
        DamageType::Energy.to_modifier_mask(),
        MODIFIER_LEAD | MODIFIER_PURPLE
    );
    assert_eq!(
        DamageType::Cold.to_modifier_mask(),
        MODIFIER_LEAD | MODIFIER_WHITE
    );
}

#[test]
fn crosspath_upgrade_rules() {
    let fresh = Upgradable::Crosspath520(0, 0, 0);
    assert!(fresh.can_upgrade_1());
    assert!(fresh.can_upgrade_2());
    assert!(fresh.can_upgrade_3());

    // two paths taken: the third is blocked
    let two = Upgradable::Crosspath520(2, 3, 0);
    assert!(!two.can_upgrade_1()); // crosspath maxed at 2 beside a 3
    assert!(two.can_upgrade_2());
    assert!(!two.can_upgrade_3());

    // a maxed-out main path cannot go further
    let maxed = Upgradable::Crosspath520(5, 2, 0);
    assert!(!maxed.can_upgrade_1());

    assert!(!Upgradable::NoUpgrades.can_upgrade_1());
    assert!(!Upgradable::Hero20(3).can_upgrade_2());
}
