//! Finding the parameter that a control or a setting of an instrument
//! addresses: an effect of the instrument's effect chain, by name, and one of
//! its parameters, by name; or a parameter of the instrument's oscillator.
//!
//! Effects are given here by their names and the names of their parameters,
//! in order.

use vstd::prelude::*;
use crate::text::str_eq;

verus! {

/// What a control or a setting addresses, by name.
#[derive(Clone, Copy, Debug)]
pub enum TargetSpec {
    Effect(&'static str),
    Osc,
}

/// What a control addresses, by position.
#[derive(Clone, Copy, Debug)]
pub enum Target {
    Effect(usize),
    Osc,
}

/// The most effects an instrument has; as a target index it stands for the
/// oscillator.
pub const MAX_EFFECTS: usize = 12;

/// The position of the first name in `names` that equals `name`; -1 if none.
pub open spec fn position_of(names: Seq<Seq<char>>, name: Seq<char>) -> int {
    if exists|i: int| 0 <= i < names.len() && names[i] == name {
        choose|i: int|
            0 <= i < names.len() && names[i] == name && forall|j: int|
                0 <= j < i ==> #[trigger] names[j] != name
    } else {
        -1
    }
}

/// The characters of each name.
pub open spec fn names_view(names: Seq<&'static str>) -> Seq<Seq<char>> {
    names.map_values(|s: &'static str| s@)
}

/// Effect `i` of `effects` is named `effect` and has a parameter named
/// `param`.
pub open spec fn effect_has(effects: Seq<(&'static str, Vec<&'static str>)>, i: int, effect: Seq<char>, param: Seq<char>) -> bool {
    0 <= i < effects.len() && effects[i].0@ == effect && position_of(names_view(effects[i].1@), param) >= 0
}

/// What `InputMapSpec::bake` finds for `target` and `param`: for an effect,
/// the first effect of that name that has the parameter, with the
/// parameter's position, unless that position is `MAX_EFFECTS`; for the
/// oscillator, `MAX_EFFECTS` with the parameter's position among the
/// oscillator's parameters. `None` where it finds nothing.
pub open spec fn bake_spec(
    target: TargetSpec,
    param: Seq<char>,
    effects: Seq<(&'static str, Vec<&'static str>)>,
    osc_params: Seq<&'static str>,
) -> Option<(usize, usize)> {
    match target {
        TargetSpec::Effect(name) => {
            if exists|i: int| effect_has(effects, i, name@, param) {
                let i = choose|i: int|
                    effect_has(effects, i, name@, param) && forall|j: int|
                        0 <= j < i ==> !effect_has(effects, j, name@, param);
                let p = position_of(names_view(effects[i].1@), param);
                if p == MAX_EFFECTS {
                    None
                } else {
                    Some((i as usize, p as usize))
                }
            } else {
                None
            }
        },
        TargetSpec::Osc => {
            let p = position_of(names_view(osc_params), param);
            if p < 0 {
                None
            } else {
                Some((MAX_EFFECTS, p as usize))
            }
        },
    }
}

/// What `Instrument::apply_overrides` finds for a setting of effect `effect`:
/// the first effect of that name, and the position of the parameter among
/// its parameters; `None` if there is no such effect or it has no such
/// parameter.
pub open spec fn override_spec(
    effect: Seq<char>,
    param: Seq<char>,
    effects: Seq<(&'static str, Vec<&'static str>)>,
) -> Option<(usize, usize)> {
    let labels = effects.map_values(|e: (&'static str, Vec<&'static str>)| e.0@);
    let i = position_of(labels, effect);
    if i < 0 {
        None
    } else {
        let p = position_of(names_view(effects[i].1@), param);
        if p < 0 {
            None
        } else {
            Some((i as usize, p as usize))
        }
    }
}

/// The position of the first name in `names` that equals `name`.
pub fn position(names: &Vec<&'static str>, name: &str) -> (r: Option<usize>)
    ensures
        match r {
            Some(i) => position_of(names_view(names@), name@) == i,
            None => position_of(names_view(names@), name@) == -1,
        },
{
    let ghost v = names_view(names@);
    let mut i: usize = 0;
    while i < names.len()
        invariant
            v == names_view(names@),
            i <= names@.len(),
            forall|j: int| 0 <= j < i ==> #[trigger] v[j] != name@,
        decreases names@.len() - i,
    {
        if str_eq(names[i], name) {
            proof {
                assert(v[i as int] == name@);
                let k = choose|k: int|
                    0 <= k < v.len() && v[k] == name@ && forall|j: int| 0 <= j < k ==> #[trigger] v[j] != name@;
                if k < i {
                    assert(v[k] != name@);
                }
                if i < k {
                    assert(v[i as int] != name@);
                }
            }
            return Some(i);
        }
        i += 1;
    }
    assert(!exists|k: int| 0 <= k < v.len() && v[k] == name@);
    None
}

/// The effect and parameter positions that a control addresses (see
/// `bake_spec`); `None` where the effect or parameter is missing.
pub fn bake_target(
    target: TargetSpec,
    param: &str,
    effects: &Vec<(&'static str, Vec<&'static str>)>,
    osc_params: &Vec<&'static str>,
) -> (r: Option<(usize, usize)>)
    ensures
        r == bake_spec(target, param@, effects@, osc_params@),
{
    match target {
        TargetSpec::Effect(effect_name) => {
            let mut i: usize = 0;
            while i < effects.len()
                invariant
                    target == TargetSpec::Effect(effect_name),
                    i <= effects@.len(),
                    forall|j: int| 0 <= j < i ==> !effect_has(effects@, j, effect_name@, param@),
                decreases effects@.len() - i,
            {
                if str_eq(effects[i].0, effect_name) {
                    match position(&effects[i].1, param) {
                        Some(index) => {
                            proof {
                                assert(effect_has(effects@, i as int, effect_name@, param@));
                                let k = choose|k: int|
                                    effect_has(effects@, k, effect_name@, param@) && forall|j: int|
                                        0 <= j < k ==> !effect_has(effects@, j, effect_name@, param@);
                                if k < i {
                                    assert(!effect_has(effects@, k, effect_name@, param@));
                                }
                                if i < k {
                                    assert(!effect_has(effects@, i as int, effect_name@, param@));
                                }
                            }
                            if index == MAX_EFFECTS {
                                return None;
                            }
                            return Some((i, index));
                        },
                        None => {},
                    }
                }
                i += 1;
            }
            None
        },
        TargetSpec::Osc => match position(osc_params, param) {
            Some(p_i) => Some((MAX_EFFECTS, p_i)),
            None => None,
        },
    }
}

/// The effect and parameter positions that a setting of effect `effect`
/// addresses (see `override_spec`).
pub fn override_target(
    effect: &str,
    param: &str,
    effects: &Vec<(&'static str, Vec<&'static str>)>,
) -> (r: Option<(usize, usize)>)
    ensures
        r == override_spec(effect@, param@, effects@),
{
    let ghost labels = effects@.map_values(|e: (&'static str, Vec<&'static str>)| e.0@);
    let mut i: usize = 0;
    while i < effects.len()
        invariant
            labels == effects@.map_values(|e: (&'static str, Vec<&'static str>)| e.0@),
            i <= effects@.len(),
            forall|j: int| 0 <= j < i ==> #[trigger] labels[j] != effect@,
        decreases effects@.len() - i,
    {
        if str_eq(effects[i].0, effect) {
            proof {
                assert(labels[i as int] == effect@);
                let k = choose|k: int|
                    0 <= k < labels.len() && labels[k] == effect@ && forall|j: int|
                        0 <= j < k ==> #[trigger] labels[j] != effect@;
                if k < i {
                    assert(labels[k] != effect@);
                }
                if i < k {
                    assert(labels[i as int] != effect@);
                }
            }
            return match position(&effects[i].1, param) {
                Some(p) => Some((i, p)),
                None => None,
            };
        }
        i += 1;
    }
    assert(!exists|k: int| 0 <= k < labels.len() && labels[k] == effect@);
    None
}

} // verus!
