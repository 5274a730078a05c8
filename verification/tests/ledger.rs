use neon_rush::upgrades::Upgrades;

#[test]
fn effects_scale_linearly_with_the_level() {
    let mut u = Upgrades::new();
    assert_eq!(u.player_speed(), 360_000);
    u.speed = 2;
    assert_eq!(u.player_speed(), 403_200);
    u.magnet = 3;
    assert_eq!(u.magnet_speed(), 270_000);
    u.shard_value = 4;
    assert_eq!(u.shard_currency_bonus(), 8);
}

#[test]
fn dash_cooldown_keeps_eighty_eight_percent_per_level() {
    let mut u = Upgrades::new();
    assert_eq!(u.dash_cd_ms(), 900);
    u.dash_cd = 1;
    assert_eq!(u.dash_cd_ms(), 792);
    u.dash_cd = 2;
    assert_eq!(u.dash_cd_ms(), 696);
}

#[test]
fn dash_duration_gains_eight_percent_per_level() {
    let mut u = Upgrades::new();
    assert_eq!(u.dash_time_ms(), 160);
    u.dash_time = 1;
    assert_eq!(u.dash_time_ms(), 172);
}

#[test]
fn dash_cooldown_is_floored_at_one_millisecond() {
    let mut u = Upgrades::new();
    u.dash_cd = 200;
    let cd = u.dash_cd_ms();
    assert!(cd >= 1);
}

#[test]
fn costs_escalate_per_level() {
    let mut u = Upgrades::new();
    assert_eq!(u.cost_speed(), 60);
    assert_eq!(u.cost_dash_cd(), 80);
    assert_eq!(u.cost_dash_time(), 80);
    assert_eq!(u.cost_shard_value(), 40);
    assert_eq!(u.cost_magnet(), 50);
    u.speed = 1;
    u.dash_cd = 2;
    u.shard_value = 3;
    assert_eq!(u.cost_speed(), 105);
    assert_eq!(u.cost_dash_cd(), 180);
    assert_eq!(u.cost_shard_value(), 130);
}
