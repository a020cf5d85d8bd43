use roguelike_core::{AttackOutcome, Rgb, Unit, AI};

fn weakling(damage: i32) -> Unit {
    Unit::new(0, 0, 'w', Rgb { r: 0, g: 0, b: 0 }, "Weakling", true, true, 1, AI::Basic, 10, 10, 0, damage)
}

fn armored(defense: i32) -> Unit {
    Unit::new(0, 0, 'a', Rgb { r: 0, g: 0, b: 0 }, "Armored", true, true, 1, AI::Basic, 10, 10, defense, 1)
}

#[test]
fn attack_applies_damage_minus_defense() {
    // Troll damage 4 against player defense 2: exactly 2 damage.
    let troll = Unit::troll(0, 0, 1);
    let mut player = Unit::player(1, 0);
    let outcome = troll.attack(&mut player);
    assert_eq!(outcome, AttackOutcome::Hit { damage: 2, killed: false });
    assert_eq!(player.current_hp(), 28);
    assert!(player.is_alive());
}

#[test]
fn attack_too_weak_deals_nothing() {
    let feeble = weakling(0);
    let mut player = Unit::player(1, 0);
    let outcome = feeble.attack(&mut player);
    assert_eq!(outcome, AttackOutcome::TooWeak);
    assert_eq!(player.current_hp(), 30);

    let negative = weakling(-3);
    let outcome = negative.attack(&mut player);
    assert_eq!(outcome, AttackOutcome::TooWeak);
    assert_eq!(player.current_hp(), 30);
}

#[test]
fn attack_absorbed_by_armor() {
    // Orc damage 3 against defense 5: positive damage, fully absorbed.
    let orc = Unit::orc(0, 0, 1);
    let mut tank = armored(5);
    let outcome = orc.attack(&mut tank);
    assert_eq!(outcome, AttackOutcome::Absorbed);
    assert_eq!(tank.current_hp(), 10);

    // Exactly-matching defense is also absorption, not weakness.
    let mut tank3 = armored(3);
    let outcome = orc.attack(&mut tank3);
    assert_eq!(outcome, AttackOutcome::Absorbed);
    assert_eq!(tank3.current_hp(), 10);
}

#[test]
fn thirty_orc_hits_kill_the_player() {
    // Weak monster (damage 3) against the player (defense 2): 1 damage per
    // hit; 30 hits take the player from 30 hit points to 0 and flip alive.
    let orc = Unit::orc(0, 0, 1);
    let mut player = Unit::player(1, 0);
    for i in 1..=30 {
        assert!(player.is_alive());
        let outcome = orc.attack(&mut player);
        assert_eq!(outcome, AttackOutcome::Hit { damage: 1, killed: i == 30 });
        assert_eq!(player.current_hp(), 30 - i);
    }
    assert_eq!(player.current_hp(), 0);
    assert!(!player.is_alive());
    assert!(!player.is_blocks_point());
}

#[test]
fn hit_points_never_rise() {
    let troll = Unit::troll(0, 0, 1);
    let mut player = Unit::player(1, 0);
    let mut last_hp = player.current_hp();
    for _ in 0..20 {
        troll.attack(&mut player);
        assert!(player.current_hp() <= last_hp);
        last_hp = player.current_hp();
    }
}

#[test]
fn death_is_permanent_under_further_attacks() {
    let troll = Unit::troll(0, 0, 1);
    let mut orc = Unit::orc(1, 0, 1);
    // Troll deals 4 - 0 = 4 per hit; three hits bring the orc from 10 to -2.
    for _ in 0..3 {
        troll.attack(&mut orc);
    }
    assert_eq!(orc.current_hp(), -2);
    assert!(!orc.is_alive());
    assert!(!orc.is_blocks_point());
    assert_eq!(orc.get_color(), Rgb { r: 127, g: 127, b: 127 });

    // Attacking the corpse again keeps it dead and non-blocking.
    troll.attack(&mut orc);
    assert!(!orc.is_alive());
    assert!(!orc.is_blocks_point());
    assert_eq!(orc.current_hp(), -6);
}

#[test]
fn take_damage_latches_death_state() {
    let mut orc = Unit::orc(0, 0, 1);
    orc.take_damage(9);
    assert_eq!(orc.current_hp(), 1);
    assert!(orc.is_alive());
    assert!(orc.is_blocks_point());

    orc.take_damage(1);
    assert_eq!(orc.current_hp(), 0);
    assert!(!orc.is_alive());
    assert!(!orc.is_blocks_point());
    assert_eq!(orc.get_color(), Rgb { r: 127, g: 127, b: 127 });
}
