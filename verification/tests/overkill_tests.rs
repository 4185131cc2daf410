use bloon_sim::bloon::Bloon;
use bloon_sim::overkill::{
    calculate_overkill, generate_lookup_overkill_bloon, lookup_overkill_bloon,
    resolve_overkill_tiers, tier_index,
};
use bloon_sim::tier::BloonTier;

#[test]
fn zero_magnitude_gives_direct_children() {
    assert_eq!(resolve_overkill_tiers(BloonTier::Blue, 0), vec![BloonTier::Red]);
    assert_eq!(
        resolve_overkill_tiers(BloonTier::Zebra, 0),
        vec![BloonTier::Black, BloonTier::White]
    );
    assert_eq!(resolve_overkill_tiers(BloonTier::Red, 0), Vec::<BloonTier>::new());
}

#[test]
fn overkill_skips_generations() {
    // one point of overkill on a Green pops the Blue layer too
    assert_eq!(resolve_overkill_tiers(BloonTier::Green, 1), vec![BloonTier::Red]);
    // two points exhaust the whole tree below a Green
    assert_eq!(resolve_overkill_tiers(BloonTier::Green, 2), Vec::<BloonTier>::new());
}

#[test]
fn ceramic_overkill_three_flattens_to_pinks() {
    // base health 10, hit for 13: magnitude 3 propagates through
    // Rainbow -> Zebra -> Black/White and lands on sixteen Pinks
    let r = resolve_overkill_tiers(BloonTier::Ceramic, 3);
    assert_eq!(r.len(), 16);
    assert!(r.iter().all(|t| *t == BloonTier::Pink));
    // and not the unmodified direct children
    assert_ne!(r, vec![BloonTier::Rainbow, BloonTier::Rainbow]);
}

#[test]
fn table_rows_equal_live_recursion() {
    let table = generate_lookup_overkill_bloon();
    for tier in [
        BloonTier::Red,
        BloonTier::Blue,
        BloonTier::Green,
        BloonTier::Purple,
        BloonTier::Zebra,
        BloonTier::Lead,
        BloonTier::Rainbow,
        BloonTier::Ceramic,
    ] {
        let row = &table.rows[tier_index(tier)];
        for (m, entry) in row.iter().enumerate() {
            assert_eq!(*entry, resolve_overkill_tiers(tier, m as i64));
        }
    }
}

#[test]
fn blimp_rows_are_exempt_from_the_table() {
    let table = generate_lookup_overkill_bloon();
    assert!(table.rows[tier_index(BloonTier::MOAB)].is_empty());
    assert!(table.rows[tier_index(BloonTier::BAD)].is_empty());
}

#[test]
fn moab_overkill_consumes_surviving_children() {
    // an exactly-destroyed MOAB leaves four Ceramics
    assert_eq!(
        resolve_overkill_tiers(BloonTier::MOAB, 0),
        vec![BloonTier::Ceramic; 4]
    );
    // a small overkill leaves the Ceramics with positive health, so under
    // pure overkill semantics they are consumed outright
    assert_eq!(resolve_overkill_tiers(BloonTier::MOAB, 5), Vec::<BloonTier>::new());
    // enough overkill to destroy each Ceramic reaches their children
    assert_eq!(
        resolve_overkill_tiers(BloonTier::MOAB, 10),
        vec![BloonTier::Rainbow; 8]
    );
}

#[test]
fn lookup_builds_derived_instances() {
    let table = generate_lookup_overkill_bloon();
    let mut ceramic = Bloon::with(BloonTier::Ceramic, 0);
    ceramic.hp = -3;
    let family = ceramic.bid.family;
    let out = lookup_overkill_bloon(&ceramic, &table);
    assert_eq!(out.len(), 16);
    for (i, child) in out.iter().enumerate() {
        assert_eq!(child.tier, BloonTier::Pink);
        assert_eq!(child.hp, 1);
        assert_eq!(child.bid.family, family);
        // sixteen siblings consume four path bits
        assert_eq!(child.bid.layer, 4);
        assert_eq!(child.bid.tree, i as u32);
    }
}

#[test]
fn lookup_misses_past_the_table() {
    let table = generate_lookup_overkill_bloon();
    let mut blue = Bloon::with(BloonTier::Blue, 0);
    blue.hp = -20;
    // past the precomputed rows the lookup yields nothing ...
    assert_eq!(lookup_overkill_bloon(&blue, &table).len(), 0);
    // ... and the fallback live recursion agrees that nothing survives
    assert_eq!(calculate_overkill(&blue, &table).len(), 0);
}

#[test]
fn calculate_overkill_blimps_use_live_recursion() {
    let table = generate_lookup_overkill_bloon();
    let mut moab = Bloon::with(BloonTier::MOAB, 0);
    moab.hp = 0;
    let out = calculate_overkill(&moab, &table);
    assert_eq!(out.len(), 4);
    assert!(out.iter().all(|b| b.tier == BloonTier::Ceramic && b.hp == 10));
}
