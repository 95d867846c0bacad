//! The escape-time evaluator: how many steps an orbit stays inside the escape
//! radius, and whether it left.
//!
//! The arithmetic on orbit points is the caller's. The evaluator sees an orbit
//! only through the iteration rule, which yields the next point, and through
//! the measure, which says where a point lies relative to the escape radius.

use vstd::prelude::*;

verus! {

/// The smallest iteration cap a render ever runs with.
pub const MIN_ITERATIONS: u64 = 1000;

/// Where an orbit point lies relative to the escape radius.
#[derive(Clone, Copy, Debug, PartialEq, Eq, Structural)]
pub enum Magnitude {
    /// The modulus is at most the escape radius.
    Within,
    /// The modulus is greater than the escape radius.
    Beyond,
    /// The modulus compares neither way: it is not a number.
    Undefined,
}

/// What the evaluator reports for one starting point.
#[derive(Clone, Copy, Debug, PartialEq, Eq, Structural)]
pub struct EscapeResult {
    /// Number of applications of the iteration rule.
    pub count: u64,
    /// Whether the last orbit point lies beyond the escape radius.
    pub escaped: bool,
}

/// What to do after looking at one orbit point.
#[derive(Clone, Copy, Debug, PartialEq, Eq, Structural)]
pub enum Step {
    /// Apply the iteration rule once more.
    Iterate,
    /// Stop with this result.
    Halt(EscapeResult),
}

/// The decision for the orbit point reached after `count` steps.
pub open spec fn decision(count: u64, max_iter: u64, magnitude: Magnitude) -> Step {
    if count < max_iter && magnitude == Magnitude::Within {
        Step::Iterate
    } else {
        Step::Halt(EscapeResult { count, escaped: magnitude == Magnitude::Beyond })
    }
}

/// `orbit` is a run of `rule` from `seed` with the fixed parameter `param`:
/// it starts at the seed, and each later point is a result of the rule on the
/// point before it.
pub open spec fn is_orbit<Z, R: Fn(Z, Z) -> Z>(orbit: Seq<Z>, seed: Z, param: Z, rule: R) -> bool {
    &&& orbit.len() > 0
    &&& orbit[0] == seed
    &&& forall|i: int|
        0 <= i < orbit.len() - 1 ==> rule.ensures((#[trigger] orbit[i], param), orbit[i + 1])
}

/// `magnitudes` holds, point for point, a result of `measure` on `orbit`.
pub open spec fn measured<Z, M: Fn(Z) -> Magnitude>(
    orbit: Seq<Z>,
    measure: M,
    magnitudes: Seq<Magnitude>,
) -> bool {
    &&& magnitudes.len() == orbit.len()
    &&& forall|i: int|
        0 <= i < orbit.len() ==> measure.ensures((orbit[i],), #[trigger] magnitudes[i])
}

/// `magnitudes` is the record of a finished evaluation under the cap
/// `max_iter`: every point but the last lies within the radius, and the last
/// one either does not or is the point at which the cap is reached.
pub open spec fn halts(magnitudes: Seq<Magnitude>, max_iter: u64) -> bool {
    &&& 0 < magnitudes.len() <= max_iter + 1
    &&& forall|i: int| 0 <= i < magnitudes.len() - 1 ==> magnitudes[i] == Magnitude::Within
    &&& (magnitudes.len() == max_iter + 1 || magnitudes.last() != Magnitude::Within)
}

/// The result that a finished record stands for: one step per point after
/// the seed, escaped when the last point lies beyond the radius.
pub open spec fn verdict(magnitudes: Seq<Magnitude>) -> EscapeResult {
    EscapeResult {
        count: (magnitudes.len() - 1) as u64,
        escaped: magnitudes.last() == Magnitude::Beyond,
    }
}

/// `result` is an outcome of evaluating `seed` under `rule` and `measure`.
pub open spec fn evaluates_to<Z, R: Fn(Z, Z) -> Z, M: Fn(Z) -> Magnitude>(
    seed: Z,
    param: Z,
    rule: R,
    measure: M,
    max_iter: u64,
    result: EscapeResult,
) -> bool {
    exists|orbit: Seq<Z>, magnitudes: Seq<Magnitude>|
        {
            &&& is_orbit(orbit, seed, param, rule)
            &&& #[trigger] measured(orbit, measure, magnitudes)
            &&& halts(magnitudes, max_iter)
            &&& result == verdict(magnitudes)
        }
}

/// Raises a raw iteration budget to the floor of `MIN_ITERATIONS`.
pub fn iteration_cap(raw: u64) -> (cap: u64)
    ensures
        cap == if raw < MIN_ITERATIONS { MIN_ITERATIONS } else { raw },
{
    if raw < MIN_ITERATIONS {
        MIN_ITERATIONS
    } else {
        raw
    }
}

/// Decides, for the orbit point reached after `count` steps, whether to go on.
pub fn decide(count: u64, max_iter: u64, magnitude: Magnitude) -> (step: Step)
    ensures
        step == decision(count, max_iter, magnitude),
{
    match magnitude {
        Magnitude::Within => {
            if count < max_iter {
                Step::Iterate
            } else {
                Step::Halt(EscapeResult { count, escaped: false })
            }
        },
        Magnitude::Beyond => Step::Halt(EscapeResult { count, escaped: true }),
        Magnitude::Undefined => Step::Halt(EscapeResult { count, escaped: false }),
    }
}

/// Runs the orbit of `seed` until it leaves the escape radius or `max_iter`
/// steps have been taken.
pub fn evaluate<Z: Copy, R: Fn(Z, Z) -> Z, M: Fn(Z) -> Magnitude>(
    seed: Z,
    param: Z,
    rule: &R,
    measure: &M,
    max_iter: u64,
) -> (result: EscapeResult)
    requires
        forall|z: Z| rule.requires((z, param)),
        forall|z: Z| measure.requires((z,)),
    ensures
        evaluates_to(seed, param, *rule, *measure, max_iter, result),
        result.count <= max_iter,
{
    let mut z = seed;
    let mut count: u64 = 0;
    let ghost mut orbit: Seq<Z> = seq![seed];
    let ghost mut magnitudes: Seq<Magnitude> = Seq::empty();
    loop
        invariant
            forall|z: Z| rule.requires((z, param)),
            forall|z: Z| measure.requires((z,)),
            count <= max_iter,
            orbit.len() == count + 1,
            orbit.last() == z,
            is_orbit(orbit, seed, param, *rule),
            magnitudes.len() == count,
            forall|i: int| 0 <= i < count ==> measure.ensures((orbit[i],), #[trigger] magnitudes[i]),
            forall|i: int| 0 <= i < count ==> magnitudes[i] == Magnitude::Within,
        decreases max_iter - count,
    {
        let magnitude = measure(z);
        proof {
            magnitudes = magnitudes.push(magnitude);
        }
        match decide(count, max_iter, magnitude) {
            Step::Iterate => {
                let next = rule(z, param);
                proof {
                    orbit = orbit.push(next);
                }
                z = next;
                count = count + 1;
            },
            Step::Halt(result) => {
                proof {
                    assert(measured(orbit, *measure, magnitudes));
                    assert(halts(magnitudes, max_iter));
                    assert(result == verdict(magnitudes));
                }
                return result;
            },
        }
    }
}

/// `rule` yields one result for each point under the parameter `param`.
pub open spec fn rule_is_function<Z, R: Fn(Z, Z) -> Z>(rule: R, param: Z) -> bool {
    forall|z: Z, a: Z, b: Z|
        #[trigger] rule.ensures((z, param), a) && #[trigger] rule.ensures((z, param), b) ==> a == b
}

/// `measure` yields one result for each point.
pub open spec fn measure_is_function<Z, M: Fn(Z) -> Magnitude>(measure: M) -> bool {
    forall|z: Z, a: Magnitude, b: Magnitude|
        #[trigger] measure.ensures((z,), a) && #[trigger] measure.ensures((z,), b) ==> a == b
}

/// Two runs of one functional rule from one seed agree wherever both reach.
proof fn lemma_orbits_agree<Z, R: Fn(Z, Z) -> Z>(
    first: Seq<Z>,
    second: Seq<Z>,
    seed: Z,
    param: Z,
    rule: R,
    i: int,
)
    requires
        rule_is_function(rule, param),
        is_orbit(first, seed, param, rule),
        is_orbit(second, seed, param, rule),
        0 <= i < first.len(),
        i < second.len(),
    ensures
        first[i] == second[i],
    decreases i,
{
    if i > 0 {
        lemma_orbits_agree(first, second, seed, param, rule, i - 1);
        assert(rule.ensures((first[i - 1], param), first[i]));
        assert(rule.ensures((second[i - 1], param), second[i]));
    }
}

/// Of two finished records of one orbit, the first is no longer than the
/// second.
proof fn lemma_record_no_longer<Z, R: Fn(Z, Z) -> Z, M: Fn(Z) -> Magnitude>(
    seed: Z,
    param: Z,
    rule: R,
    measure: M,
    max_iter: u64,
    first: (Seq<Z>, Seq<Magnitude>),
    second: (Seq<Z>, Seq<Magnitude>),
)
    requires
        rule_is_function(rule, param),
        measure_is_function(measure),
        is_orbit(first.0, seed, param, rule),
        measured(first.0, measure, first.1),
        halts(first.1, max_iter),
        is_orbit(second.0, seed, param, rule),
        measured(second.0, measure, second.1),
        halts(second.1, max_iter),
    ensures
        second.1.len() <= first.1.len(),
{
    if first.1.len() < second.1.len() {
        let last = first.1.len() - 1;
        lemma_orbits_agree(first.0, second.0, seed, param, rule, last);
        assert(measure.ensures((first.0[last],), first.1[last]));
        assert(measure.ensures((second.0[last],), second.1[last]));
        assert(second.1[last] == Magnitude::Within);
    }
}

/// The evaluator is deterministic: where the iteration rule and the measure
/// each yield one result per input, one seed, parameter and cap have one
/// outcome.
pub proof fn lemma_evaluation_deterministic<Z, R: Fn(Z, Z) -> Z, M: Fn(Z) -> Magnitude>(
    seed: Z,
    param: Z,
    rule: R,
    measure: M,
    max_iter: u64,
    first: EscapeResult,
    second: EscapeResult,
)
    requires
        rule_is_function(rule, param),
        measure_is_function(measure),
        evaluates_to(seed, param, rule, measure, max_iter, first),
        evaluates_to(seed, param, rule, measure, max_iter, second),
    ensures
        first == second,
{
    let a = choose|orbit: Seq<Z>, magnitudes: Seq<Magnitude>|
        {
            &&& is_orbit(orbit, seed, param, rule)
            &&& #[trigger] measured(orbit, measure, magnitudes)
            &&& halts(magnitudes, max_iter)
            &&& first == verdict(magnitudes)
        };
    let b = choose|orbit: Seq<Z>, magnitudes: Seq<Magnitude>|
        {
            &&& is_orbit(orbit, seed, param, rule)
            &&& #[trigger] measured(orbit, measure, magnitudes)
            &&& halts(magnitudes, max_iter)
            &&& second == verdict(magnitudes)
        };
    lemma_record_no_longer(seed, param, rule, measure, max_iter, a, b);
    lemma_record_no_longer(seed, param, rule, measure, max_iter, b, a);
    let last = a.1.len() - 1;
    lemma_orbits_agree(a.0, b.0, seed, param, rule, last);
    assert(measure.ensures((a.0[last],), a.1[last]));
    assert(measure.ensures((b.0[last],), b.1[last]));
}

/// The count of a finished record lies between zero and the cap. A count
/// short of the cap means that the last point is not within the radius; a
/// last point within the radius means that the cap was reached and the orbit
/// is reported as not escaped.
pub proof fn lemma_verdict_bounds(magnitudes: Seq<Magnitude>, max_iter: u64)
    requires
        halts(magnitudes, max_iter),
    ensures
        0 <= verdict(magnitudes).count <= max_iter,
        verdict(magnitudes).count == magnitudes.len() - 1,
        verdict(magnitudes).count < max_iter ==> magnitudes.last() != Magnitude::Within,
        magnitudes.last() == Magnitude::Within ==> verdict(magnitudes).count == max_iter
            && !verdict(magnitudes).escaped,
        verdict(magnitudes).escaped <==> magnitudes.last() == Magnitude::Beyond,
{
}

/// `measure` never yields an undefined modulus.
pub open spec fn measure_is_defined<Z, M: Fn(Z) -> Magnitude>(measure: M) -> bool {
    forall|z: Z, magnitude: Magnitude| #[trigger]
        measure.ensures((z,), magnitude) ==> magnitude != Magnitude::Undefined
}

/// Every outcome of an evaluation has a count between zero and the cap.
/// Where every modulus is defined, an orbit that stopped short of the cap
/// has escaped, and one that has not escaped has run to the cap.
pub proof fn lemma_count_within_cap<Z, R: Fn(Z, Z) -> Z, M: Fn(Z) -> Magnitude>(
    seed: Z,
    param: Z,
    rule: R,
    measure: M,
    max_iter: u64,
    result: EscapeResult,
)
    requires
        evaluates_to(seed, param, rule, measure, max_iter, result),
    ensures
        0 <= result.count <= max_iter,
        measure_is_defined(measure) && result.count < max_iter ==> result.escaped,
        measure_is_defined(measure) && !result.escaped ==> result.count == max_iter,
{
    let (orbit, magnitudes) = choose|orbit: Seq<Z>, magnitudes: Seq<Magnitude>|
        {
            &&& is_orbit(orbit, seed, param, rule)
            &&& #[trigger] measured(orbit, measure, magnitudes)
            &&& halts(magnitudes, max_iter)
            &&& result == verdict(magnitudes)
        };
    let last = magnitudes.len() - 1;
    assert(measure.ensures((orbit[last],), magnitudes[last]));
}

} // verus!
