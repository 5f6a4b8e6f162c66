use shaken::CooldownGate;
use shaken::CooldownOutcome;

#[test]
fn trigger() {
    let mut gate = CooldownGate::new(10, 30, 150_000);

    assert!(matches!(gate.trigger(0), CooldownOutcome::Fired));

    let next = gate.next_open_time(1).unwrap();
    assert!(next < 10, "{}", next);
    assert!(next > 1, "{}", next);

    assert!(matches!(gate.trigger(5), CooldownOutcome::Cooling));

    assert!(gate.next_open_time(31).is_none());
    assert!(matches!(gate.trigger(31), CooldownOutcome::Fired));
}

#[test]
fn passive_quiet() {
    let mut gate = CooldownGate::new(10, 30, 150_000);

    // set the last-fired time to be now
    assert!(matches!(gate.trigger(0), CooldownOutcome::Fired));

    // 31 elapsed: the quiet override fires even with a failing sample
    assert!(gate.passive(31, 999_999));

    // right after, neither the quiet period nor the chance admits a fire
    assert!(!gate.passive(31, 999_999));
}

#[test]
fn passive_rng() {
    // sample pattern chosen to pass, then fail, then fail
    let mut gate = CooldownGate::new(10, 30, 1);

    assert!(gate.passive(0, 0));
    assert!(!gate.passive(0, 1));
    assert!(!gate.passive(0, 0));
}

#[test]
fn forced_and_quiet_scenario() {
    // interval 10, quiet 30, chance certain
    let mut gate = CooldownGate::new(10, 30, 1_000_000);

    // a forced trigger at t=0 succeeds
    assert!(matches!(gate.trigger(0), CooldownOutcome::Fired));
    // a forced trigger at t=5 is still cooling: a normal outcome
    assert!(matches!(gate.trigger(5), CooldownOutcome::Cooling));
    // a forced trigger at t=11 succeeds
    assert!(matches!(gate.trigger(11), CooldownOutcome::Fired));

    // a passive trigger 31 after the last fire succeeds regardless of
    // chance: even a gate with zero chance fires on the quiet override
    let mut silent = CooldownGate::new(10, 30, 0);
    assert!(matches!(silent.trigger(11), CooldownOutcome::Fired));
    assert!(silent.passive(42, 999_999));
}

#[test]
fn certain_chance_fires_when_open() {
    // a certain chance together with an open gate must fire, whatever the
    // random draw came to
    let mut gate = CooldownGate::new(10, 30, 1_000_000);
    assert!(gate.passive_entropy(0));
    // and a zero chance without the quiet override never does
    let mut silent = CooldownGate::new(10, 30, 0);
    assert!(!silent.passive_entropy(0));
}
