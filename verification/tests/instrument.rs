use controller_music::instrument::{bake_target, override_target, position, TargetSpec, MAX_EFFECTS};

fn effects() -> Vec<(&'static str, Vec<&'static str>)> {
    vec![("delay", vec!["mix"]), ("noise", vec!["mix"]), ("gain", vec!["amount"])]
}

#[test]
fn position_finds_the_first() {
    assert_eq!(position(&vec!["a", "b", "b"], "b"), Some(1));
    assert_eq!(position(&vec!["a"], "c"), None);
    assert_eq!(position(&vec![], "c"), None);
}

#[test]
fn bake_effect_targets() {
    let fx = effects();
    let osc = vec!["ratio", "amplitude"];
    assert_eq!(bake_target(TargetSpec::Effect("gain"), "amount", &fx, &osc), Some((2, 0)));
    assert_eq!(bake_target(TargetSpec::Effect("noise"), "mix", &fx, &osc), Some((1, 0)));
    assert_eq!(bake_target(TargetSpec::Effect("gain"), "mix", &fx, &osc), None);
    assert_eq!(bake_target(TargetSpec::Effect("reverb"), "mix", &fx, &osc), None);
}

#[test]
fn bake_skips_effects_without_the_parameter() {
    let fx = vec![("d", vec!["a"]), ("d", vec!["mix"])];
    assert_eq!(bake_target(TargetSpec::Effect("d"), "mix", &fx, &vec![]), Some((1, 0)));
    assert_eq!(override_target("d", "mix", &fx), None);
}

#[test]
fn bake_refuses_parameter_at_max_effects() {
    let many: Vec<&'static str> = vec!["p0", "p1", "p2", "p3", "p4", "p5", "p6", "p7", "p8", "p9", "p10", "p11", "p12"];
    let fx = vec![("big", many)];
    assert_eq!(bake_target(TargetSpec::Effect("big"), "p11", &fx, &vec![]), Some((0, 11)));
    assert_eq!(bake_target(TargetSpec::Effect("big"), "p12", &fx, &vec![]), None);
}

#[test]
fn bake_oscillator_targets() {
    let osc = vec!["ratio", "amplitude"];
    assert_eq!(bake_target(TargetSpec::Osc, "amplitude", &effects(), &osc), Some((MAX_EFFECTS, 1)));
    assert_eq!(bake_target(TargetSpec::Osc, "cutoff", &effects(), &osc), None);
}

#[test]
fn override_targets() {
    let fx = effects();
    assert_eq!(override_target("gain", "amount", &fx), Some((2, 0)));
    assert_eq!(override_target("delay", "mix", &fx), Some((0, 0)));
    assert_eq!(override_target("delay", "amount", &fx), None);
    assert_eq!(override_target("chorus", "mix", &fx), None);
}
