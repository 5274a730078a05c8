use neon_rush::economy::Economy;
use neon_rush::effects::{decay_particles_vec, Particle};
use neon_rush::entities::{Bullet, Enemy, PowerKind, PowerUp, Shard};
use neon_rush::game::Game;
use neon_rush::geom::Vec2;
use neon_rush::player::{MoveInput, Player};

const W: i64 = 1_280_000;
const H: i64 = 720_000;

fn no_keys() -> MoveInput {
    MoveInput { left: false, right: false, up: false, down: false }
}

#[test]
fn dash_from_rest_goes_rightward_at_dash_speed() {
    let mut p = Player::new(W, H);
    assert_eq!(p.dashes_left, 1);
    let ok = p.try_dash(160, 900);
    assert!(ok);
    assert_eq!(p.vel, Vec2 { x: 920_000, y: 0 });
    assert_eq!(p.dash_t, 160);
    assert_eq!(p.invuln, 160);
    assert_eq!(p.dashes_left, 0);
    assert_eq!(p.dash_cd, 900);
}

#[test]
fn dash_refused_without_charge_or_while_dashing() {
    let mut p = Player::new(W, H);
    assert!(p.try_dash(160, 900));
    // a dash is running and the charge is spent
    assert!(!p.try_dash(160, 900));
    let mut q = Player::new(W, H);
    q.dashes_left = 0;
    assert!(!q.try_dash(160, 900));
}

#[test]
fn dash_along_motion_keeps_the_heading() {
    let mut p = Player::new(W, H);
    p.vel = Vec2 { x: 0, y: -250_000 };
    assert!(p.try_dash(160, 900));
    assert_eq!(p.vel, Vec2 { x: 0, y: -920_000 });
}

#[test]
fn player_position_clamps_exactly_at_the_edge() {
    let mut p = Player::new(W, H);
    p.pos = Vec2 { x: 20_000, y: 360_000 };
    let input = MoveInput { left: true, right: false, up: false, down: false };
    p.update(1000, 360_000, input, W, H);
    assert_eq!(p.pos.x, 15_000);
    assert_eq!(p.pos.y, 360_000);
}

#[test]
fn player_trail_is_capped() {
    let mut p = Player::new(W, H);
    let mut i = 0;
    while i < 60 {
        p.update(5, 360_000, no_keys(), W, H);
        i += 1;
    }
    assert!(p.trail.len() <= 42);
    assert!(p.trail.len() > 0);
}

#[test]
fn cooldown_expiry_refills_the_charge() {
    let mut p = Player::new(W, H);
    assert!(p.try_dash(100, 300));
    // run the dash out, then the cooldown
    p.update(200, 360_000, no_keys(), W, H);
    assert_eq!(p.dash_t, 0);
    p.update(400, 360_000, no_keys(), W, H);
    assert_eq!(p.dashes_left, 1);
    assert_eq!(p.dash_cd, 0);
}

#[test]
fn expired_particle_is_removed_not_resurrected() {
    let mut pool = vec![
        Particle { pos: Vec2 { x: 0, y: 0 }, vel: Vec2 { x: 0, y: 0 }, life: 10, size: 5_000 },
        Particle { pos: Vec2 { x: 0, y: 0 }, vel: Vec2 { x: 1000, y: 0 }, life: 900, size: 5_000 },
    ];
    decay_particles_vec(&mut pool, 16);
    assert_eq!(pool.len(), 1);
    assert_eq!(pool[0].life, 884);
    decay_particles_vec(&mut pool, 1000);
    assert_eq!(pool.len(), 0);
    decay_particles_vec(&mut pool, 1000);
    assert_eq!(pool.len(), 0);
}

#[test]
fn combo_grows_by_one_step_per_reward_and_rearms() {
    let mut e = Economy::new();
    e.bump_score(10);
    assert_eq!(e.score, 10);
    assert_eq!(e.combo, 1);
    assert_eq!(e.combo_t, 2200);
    e.bump_score(5);
    assert_eq!(e.combo, 2);
}

#[test]
fn combo_decay_steps_down_and_floors_at_zero() {
    let mut e = Economy::new();
    e.combo = 3;
    e.combo_t = 10;
    e.decay_tick(16);
    assert_eq!(e.combo, 0);
    assert_eq!(e.combo_t, 0);
    // disarmed: further ticks change nothing
    e.decay_tick(16);
    assert_eq!(e.combo, 0);
    let mut f = Economy::new();
    f.combo = 9;
    f.combo_t = 10;
    f.decay_tick(16);
    assert_eq!(f.combo, 4);
}

#[test]
fn shard_bonus_rounds_toward_zero() {
    let mut e = Economy::new();
    e.combo = 5;
    assert_eq!(e.shard_bonus(), 7);
    e.combo = 0;
    assert_eq!(e.shard_bonus(), 5);
}

#[test]
fn enemy_contact_while_invulnerable_pays_ten_and_two() {
    let mut g = Game::new(W, H);
    g.player.invuln = 1000;
    // far enough that a dropped shard stays out of pickup range this tick
    let epos = Vec2 { x: g.player.pos.x + 26_500, y: g.player.pos.y };
    g.enemies.push(Enemy::new(epos, 1, 0));
    g.update(16, no_keys());
    assert_eq!(g.eco.score, 10);
    assert_eq!(g.eco.currency, 2);
    assert_eq!(g.eco.combo, 1);
    assert_eq!(g.enemies.len(), 0);
    assert!(!g.over);
    assert!(g.shards.len() <= 1);
}

#[test]
fn enemy_contact_while_vulnerable_ends_the_round() {
    let mut g = Game::new(W, H);
    let epos = Vec2 { x: g.player.pos.x + 10_000, y: g.player.pos.y };
    g.enemies.push(Enemy::new(epos, 1, 0));
    g.update(16, no_keys());
    assert!(g.over);
    assert_eq!(g.eco.score, 0);
    assert_eq!(g.enemies.len(), 0);
}

#[test]
fn shard_pickup_with_half_combo_pays_seven() {
    let mut g = Game::new(W, H);
    g.eco.combo = 5;
    g.eco.combo_t = 2200;
    g.shards.push(Shard::new(g.player.pos, 0));
    g.update(16, no_keys());
    assert_eq!(g.eco.score, 7);
    assert_eq!(g.eco.currency, 3);
    assert_eq!(g.eco.combo, 6);
    assert_eq!(g.shards.len(), 0);
}

#[test]
fn near_miss_never_touches_the_combo() {
    let mut g = Game::new(W, H);
    let epos = Vec2 { x: g.player.pos.x + 31_000, y: g.player.pos.y };
    g.enemies.push(Enemy::new(epos, 0, 0));
    g.update(16, no_keys());
    assert_eq!(g.eco.combo, 0);
    assert_eq!(g.enemies.len(), 1);
    assert!(!g.over);
}

#[test]
fn buying_speed_at_sixty_credits_then_broke() {
    let mut g = Game::new(W, H);
    g.eco.currency = 60;
    let ok = g.try_buy(1);
    assert!(ok);
    assert_eq!(g.eco.currency, 0);
    assert_eq!(g.upgrades.speed, 1);
    let again = g.try_buy(1);
    assert!(!again);
    assert_eq!(g.eco.currency, 0);
    assert_eq!(g.upgrades.speed, 1);
}

#[test]
fn unknown_purchase_category_is_a_no_op() {
    let mut g = Game::new(W, H);
    g.eco.currency = 10_000;
    assert!(!g.try_buy(0));
    assert!(!g.try_buy(6));
    assert_eq!(g.eco.currency, 10_000);
}

#[test]
fn powerup_pickup_sets_the_buff_window() {
    let mut g = Game::new(W, H);
    g.powerups.push(PowerUp { pos: g.player.pos, kind: PowerKind::Magnet, spin: 0 });
    g.update(16, no_keys());
    assert_eq!(g.power_magnet, 6000);
    assert_eq!(g.powerups.len(), 0);
}

#[test]
fn double_dash_buff_raises_then_lowers_capacity() {
    let mut g = Game::new(W, H);
    g.powerups.push(PowerUp { pos: g.player.pos, kind: PowerKind::DoubleDash, spin: 0 });
    g.update(16, no_keys());
    assert_eq!(g.power_ddash, 8000);
    g.update(16, no_keys());
    assert_eq!(g.player.dashes_max, 2);
    g.power_ddash = 5;
    g.update(16, no_keys());
    assert_eq!(g.player.dashes_max, 1);
    assert!(g.player.dashes_left <= g.player.dashes_max);
}

#[test]
fn hostile_bullet_absorbed_while_shielded() {
    let mut g = Game::new(W, H);
    g.player.invuln = 1000;
    g.bullets.push(Bullet {
        pos: g.player.pos,
        vel: Vec2 { x: 0, y: 0 },
        r: 5_000,
        hostile: true,
        life: 5000,
    });
    g.update(16, no_keys());
    assert!(!g.over);
    assert_eq!(g.bullets.len(), 1);
    assert_eq!(g.bullets[0].life, 5000 - 16);
}

#[test]
fn hostile_bullet_ends_the_round_when_vulnerable() {
    let mut g = Game::new(W, H);
    g.eco.score = 33;
    g.bullets.push(Bullet {
        pos: g.player.pos,
        vel: Vec2 { x: 0, y: 0 },
        r: 5_000,
        hostile: true,
        life: 5000,
    });
    g.update(16, no_keys());
    assert!(g.over);
    assert_eq!(g.bullets.len(), 0);
    assert_eq!(g.eco.best, 33);
}

#[test]
fn strayed_bullet_is_culled() {
    let mut g = Game::new(W, H);
    g.bullets.push(Bullet {
        pos: Vec2 { x: -20_000, y: 100_000 },
        vel: Vec2 { x: 0, y: 0 },
        r: 5_000,
        hostile: false,
        life: 5000,
    });
    g.update(16, no_keys());
    assert_eq!(g.bullets.len(), 0);
}

#[test]
fn boss_arrives_at_the_threshold() {
    let mut g = Game::new(W, H);
    g.eco.score = 250;
    g.update(16, no_keys());
    assert!(g.boss.is_some());
    let b = g.boss.as_ref().unwrap();
    assert_eq!(b.timer, 20_000 - 16);
    assert_eq!(b.phase, 16);
}

#[test]
fn boss_countdown_pays_out_and_raises_the_threshold() {
    let mut g = Game::new(W, H);
    g.eco.score = 200;
    g.player.invuln = 1_000_000;
    let mut i = 0;
    while i < 21 {
        g.update(1000, no_keys());
        i += 1;
    }
    assert!(g.next_boss_score == 450);
    assert!(g.eco.currency >= 50);
    assert!(!g.over);
}

#[test]
fn finished_round_only_decays_effects() {
    let mut g = Game::new(W, H);
    g.eco.score = 42;
    g.over = true;
    g.enemies.push(Enemy::new(Vec2 { x: 0, y: 0 }, 0, 0));
    g.update(16, no_keys());
    assert_eq!(g.eco.score, 42);
    assert_eq!(g.enemies.len(), 1);
    assert!(g.over);
}

#[test]
fn reset_round_keeps_the_persistent_state() {
    let mut g = Game::new(W, H);
    g.eco.currency = 77;
    g.eco.best = 900;
    g.eco.score = 300;
    g.upgrades.magnet = 2;
    g.over = true;
    g.reset_round();
    assert_eq!(g.eco.currency, 77);
    assert_eq!(g.eco.best, 900);
    assert_eq!(g.eco.score, 0);
    assert_eq!(g.upgrades.magnet, 2);
    assert!(!g.over);
}

#[test]
fn dash_input_respects_the_overlays() {
    let mut g = Game::new(W, H);
    g.shop_open = true;
    assert!(!g.dash_input());
    g.shop_open = false;
    g.over = true;
    assert!(!g.dash_input());
    g.over = false;
    assert!(g.dash_input());
    assert_eq!(g.player.dashes_left, 0);
}

#[test]
fn magnet_pulls_a_shard_inward() {
    let mut g = Game::new(W, H);
    let sx = g.player.pos.x + 100_000;
    g.shards.push(Shard::new(Vec2 { x: sx, y: g.player.pos.y }, 0));
    g.update(100, no_keys());
    assert_eq!(g.shards.len(), 1);
    // pulled 12 pixels inward: 120 px/s for a tenth of a second
    assert_eq!(g.shards[0].pos.x, sx - 12_000);
}

#[test]
fn applied_save_shows_up_in_the_session() {
    let mut g = Game::new(W, H);
    let rec = neon_rush::save::SaveRecord {
        currency: 120,
        speed: 2,
        dash_cd: 1,
        dash_time: 0,
        shard_value: 3,
        magnet: 0,
        best: 540,
    };
    g.apply_save(&rec);
    assert_eq!(g.eco.currency, 120);
    assert_eq!(g.eco.best, 540);
    assert_eq!(g.upgrades.speed, 2);
    let out = g.save_record();
    assert_eq!(out, rec);
}
