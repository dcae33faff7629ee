use boids::components::Velocity;
use boids::config::{FlockParams, SimError, WinSize};
use boids::engine::{apply_turn, initialize, tick};
use boids::store::{Agent, AgentStore};

fn bounds() -> WinSize {
    WinSize { w: 1_000_000, h: 1_000_000 }
}

fn params() -> FlockParams {
    FlockParams {
        coherence_weight: 2,
        separation_weight: 40,
        separation_distance: 30_000,
        alignment_weight: 60,
        base_speed: 200_000,
        min_speed: 100_000,
        max_speed: 500_000,
    }
}

fn agent(x: i64, y: i64, vx: i64, vy: i64) -> Agent {
    Agent { x, y, vel: Velocity { x: vx, y: vy } }
}

#[test]
fn concrete_two_agent_cohesion() {
    // two agents 100 units apart, cohesion weight 2, everything else off:
    // each gains an x velocity delta of 2 units toward the other
    let b = bounds();
    let p = FlockParams {
        coherence_weight: 2,
        separation_weight: 0,
        separation_distance: 30_000,
        alignment_weight: 0,
        base_speed: 10_000,
        min_speed: 0,
        max_speed: 1_000_000,
    };
    let mut st = AgentStore::new();
    st.push(agent(-50_000, 0, 0, 10_000));
    st.push(agent(50_000, 0, 0, 10_000));
    tick(&mut st, &b, &p, 1000);
    assert_eq!(st.velocity_of(0), (2_000, 10_000));
    assert_eq!(st.velocity_of(1), (-2_000, 10_000));
    assert_eq!(st.position_of(0), (-48_000, 10_000));
    assert_eq!(st.position_of(1), (48_000, 10_000));
}

#[test]
fn single_agent_moves_straight_at_constant_speed() {
    let b = bounds();
    let p = params();
    let mut st = AgentStore::new();
    st.push(agent(0, 0, 3_000, 4_000));
    for _ in 0..3 {
        tick(&mut st, &b, &p, 100);
    }
    assert_eq!(st.velocity_of(0), (3_000, 4_000));
    assert_eq!(st.speed_of(0), 5_000);
    assert_eq!(st.position_of(0), (900, 1_200));
}

#[test]
fn wrap_teleports_to_opposite_edge() {
    let b = bounds();
    let p = params();
    let mut st = AgentStore::new();
    st.push(agent(499_000, 0, 10_000, 0));
    tick(&mut st, &b, &p, 1000);
    let (x, y) = st.position_of(0);
    assert_eq!((x, y), (-500_000, 0));
    assert!(-500_000 <= x && x <= 500_000);
}

#[test]
fn speed_clamped_to_max() {
    // two agents at the same spot: all rule deltas are zero, so only the
    // clamp acts, scaling 900 down to 500 (milli-units per second x 1000)
    let b = bounds();
    let p = params();
    let mut st = AgentStore::new();
    st.push(agent(0, 0, 900_000, 0));
    st.push(agent(0, 0, 900_000, 0));
    tick(&mut st, &b, &p, 0);
    assert_eq!(st.velocity_of(0), (500_000, 0));
    assert_eq!(st.speed_of(0), 500_000);
}

#[test]
fn speed_raised_to_min() {
    let b = bounds();
    let p = params();
    let mut st = AgentStore::new();
    st.push(agent(0, 0, 30, 40));
    st.push(agent(0, 0, 30, 40));
    tick(&mut st, &b, &p, 0);
    assert_eq!(st.velocity_of(0), (60_000, 80_000));
    assert_eq!(st.speed_of(0), 100_000);
}

#[test]
fn speeds_stay_in_bounds_over_many_ticks() {
    let b = bounds();
    let p = params();
    let mut st = match initialize(&b, &p, 40, 7) {
        Ok(st) => st,
        Err(_) => panic!("valid configuration rejected"),
    };
    for _ in 0..50 {
        tick(&mut st, &b, &p, 16);
        for i in 0..st.agent_count() {
            let s = st.speed_of(i);
            assert!(p.min_speed <= s && s <= p.max_speed);
        }
    }
}

#[test]
fn storage_order_does_not_change_outcomes() {
    let b = bounds();
    let p = params();
    let a0 = agent(-50_000, 1_000, 120_000, -40_000);
    let a1 = agent(20_000, -3_000, -90_000, 110_000);
    let a2 = agent(10_000, 10_000, 100_000, 100_000);
    let mut fwd = AgentStore::new();
    fwd.push(a0);
    fwd.push(a1);
    fwd.push(a2);
    let mut rev = AgentStore::new();
    rev.push(a2);
    rev.push(a1);
    rev.push(a0);
    tick(&mut fwd, &b, &p, 16);
    tick(&mut rev, &b, &p, 16);
    assert_eq!(fwd.position_of(0), rev.position_of(2));
    assert_eq!(fwd.velocity_of(0), rev.velocity_of(2));
    assert_eq!(fwd.position_of(1), rev.position_of(1));
    assert_eq!(fwd.velocity_of(1), rev.velocity_of(1));
    assert_eq!(fwd.position_of(2), rev.position_of(0));
    assert_eq!(fwd.velocity_of(2), rev.velocity_of(0));
}

#[test]
fn initialize_rejects_invalid_configurations() {
    let p = params();
    let bad_bounds = WinSize { w: 0, h: 1_000_000 };
    assert!(matches!(
        initialize(&bad_bounds, &p, 10, 1),
        Err(SimError::InvalidConfiguration)
    ));
    let mut inverted = params();
    inverted.min_speed = 600_000;
    inverted.max_speed = 500_000;
    assert!(matches!(
        initialize(&bounds(), &inverted, 10, 1),
        Err(SimError::InvalidConfiguration)
    ));
    let mut negative = params();
    negative.min_speed = -1;
    assert!(matches!(
        initialize(&bounds(), &negative, 10, 1),
        Err(SimError::InvalidConfiguration)
    ));
}

#[test]
fn initialize_spawns_in_bounds_with_nonzero_speed() {
    let b = bounds();
    let p = params();
    let st = match initialize(&b, &p, 64, 42) {
        Ok(st) => st,
        Err(_) => panic!("valid configuration rejected"),
    };
    assert_eq!(st.agent_count(), 64);
    for i in 0..64 {
        let (x, y) = st.position_of(i);
        assert!(-500_000 <= x && x <= 500_000);
        assert!(-500_000 <= y && y <= 500_000);
        let (vx, vy) = st.velocity_of(i);
        assert!(vx != 0 || vy != 0);
        assert!(st.speed_of(i) >= p.base_speed);
    }
}

#[test]
fn initialize_is_deterministic_for_a_seed() {
    let b = bounds();
    let p = params();
    let s1 = match initialize(&b, &p, 16, 99) {
        Ok(st) => st,
        Err(_) => panic!("valid configuration rejected"),
    };
    let s2 = match initialize(&b, &p, 16, 99) {
        Ok(st) => st,
        Err(_) => panic!("valid configuration rejected"),
    };
    for i in 0..16 {
        assert_eq!(s1.position_of(i), s2.position_of(i));
        assert_eq!(s1.velocity_of(i), s2.velocity_of(i));
    }
}

#[test]
fn turn_rotates_velocity_quarter_circle() {
    let mut st = AgentStore::new();
    st.push(agent(5, 6, 1_000, 0));
    let r = apply_turn(&mut st, 0, 0, 1_000);
    assert_eq!(r, Ok(()));
    assert_eq!(st.velocity_of(0), (0, 1_000));
    assert_eq!(st.position_of(0), (5, 6));
}

#[test]
fn turn_rejects_unknown_agent() {
    let mut st = AgentStore::new();
    st.push(agent(0, 0, 1_000, 0));
    assert_eq!(apply_turn(&mut st, 3, 1_000, 0), Err(SimError::OutOfRange));
    assert_eq!(st.velocity_of(0), (1_000, 0));
}

#[test]
fn heading_is_unit_scaled_direction() {
    let mut st = AgentStore::new();
    st.push(agent(0, 0, 3_000, 4_000));
    assert_eq!(st.heading_of(0), (600, 800));
}
