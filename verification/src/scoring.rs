//! What a challenge is worth after a number of solves.
use crate::error::str_of;
use crate::text::same;
use vstd::prelude::*;

verus! {

/// How a challenge is worth something: its stored scoring.
#[derive(Clone, Copy, Debug)]
pub struct Scoring {
    pub initial: Option<i32>,
    pub minimum: Option<i32>,
    pub decay: Option<i32>,
}

impl Scoring {
    pub open spec fn start(self) -> int {
        match self.initial {
            Some(value) => value as int,
            None => 0,
        }
    }

    pub open spec fn floor(self) -> int {
        match self.minimum {
            Some(value) => value as int,
            None => 0,
        }
    }

    /// The decay is one at least.
    pub open spec fn fall(self) -> int {
        match self.decay {
            Some(value) => if value >= 1 {
                value as int
            } else {
                1
            },
            None => 1,
        }
    }
}

/// The solves after the first.
pub open spec fn later_solves(solve_count: i64) -> int {
    if solve_count > 1 {
        solve_count - 1
    } else {
        0
    }
}

/// The value under linear decay, which does not fall below the minimum.
pub open spec fn linear_value(scoring: Scoring, solve_count: i64) -> int {
    let value = scoring.start() - scoring.fall() * later_solves(solve_count);
    if value < scoring.floor() {
        scoring.floor()
    } else {
        value
    }
}

/// What happens to the value of a challenge.
#[derive(Clone, Copy, Debug, PartialEq, Eq, Structural)]
pub enum ValueChange {
    /// The value is fixed.
    Keep,
    To { value: i32 },
    /// The value follows the curve
    /// `(minimum - initial) / decay^2 * later^2 + initial`, rounded up and not below `minimum`.
    Curve { initial: i32, minimum: i32, decay: i32, later: i64 },
}

pub open spec fn value_change(
    function: Option<Seq<char>>,
    scoring: Scoring,
    solve_count: i64,
) -> ValueChange {
    if function is None || function == Some("static"@) {
        ValueChange::Keep
    } else if function == Some("linear"@) {
        ValueChange::To { value: linear_value(scoring, solve_count) as i32 }
    } else {
        ValueChange::Curve {
            initial: scoring.start() as i32,
            minimum: scoring.floor() as i32,
            decay: scoring.fall() as i32,
            later: later_solves(solve_count) as i64,
        }
    }
}

/// Whether the value of a challenge depends on its solves.
pub fn is_dynamic(function: Option<&str>) -> (result: bool)
    ensures
        result == !(function is None || str_of(function) == Some("static"@)),
{
    match function {
        Some(name) => !same(name, "static"),
        None => false,
    }
}

/// The value of a challenge that has been solved `solve_count` times.
pub fn recalculated_value(function: Option<&str>, scoring: Scoring, solve_count: i64) -> (result:
    ValueChange)
    ensures
        result == value_change(str_of(function), scoring, solve_count),
{
    if !is_dynamic(function) {
        return ValueChange::Keep;
    }
    let initial: i32 = match scoring.initial {
        Some(value) => value,
        None => 0,
    };
    let minimum: i32 = match scoring.minimum {
        Some(value) => value,
        None => 0,
    };
    let decay: i32 = match scoring.decay {
        Some(value) => if value >= 1 {
            value
        } else {
            1
        },
        None => 1,
    };
    let later: i64 = if solve_count > 1 {
        solve_count - 1
    } else {
        0
    };
    let linear = match function {
        Some(name) => same(name, "linear"),
        None => false,
    };
    if !linear {
        return ValueChange::Curve { initial, minimum, decay, later };
    }
    proof {
        assert(0 <= decay * later <= 0x7fff_ffff * 0x7fff_ffff_ffff_ffff) by (nonlinear_arith)
            requires
                1 <= decay <= 0x7fff_ffff,
                0 <= later <= 0x7fff_ffff_ffff_ffff,
        ;
    }
    let value: i128 = initial as i128 - decay as i128 * later as i128;
    if value < minimum as i128 {
        ValueChange::To { value: minimum }
    } else {
        ValueChange::To { value: value as i32 }
    }
}

/// A value is never below the minimum.
pub fn at_least(minimum: i32, value: i32) -> (result: i32)
    ensures
        result == (if value < minimum {
            minimum
        } else {
            value
        }),
{
    if value < minimum {
        minimum
    } else {
        value
    }
}

/// A linear value is a number of 32 bits, not below the minimum, that the first solve leaves as it
/// is where it starts above the minimum.
pub proof fn law_linear_values_are_bounded(scoring: Scoring, solve_count: i64)
    ensures
        i32::MIN <= linear_value(scoring, solve_count) <= i32::MAX,
        linear_value(scoring, solve_count) >= scoring.floor(),
        solve_count <= 1 && scoring.start() >= scoring.floor() ==> linear_value(
            scoring,
            solve_count,
        ) == scoring.start(),
{
    assert(scoring.fall() * later_solves(solve_count) >= 0) by (nonlinear_arith)
        requires
            scoring.fall() >= 1,
            later_solves(solve_count) >= 0,
    ;
    if solve_count <= 1 {
        assert(scoring.fall() * 0 == 0);
    }
}

/// More solves never make a challenge worth more under linear decay.
pub proof fn law_linear_values_fall(scoring: Scoring, fewer: i64, more: i64)
    requires
        fewer <= more,
    ensures
        linear_value(scoring, more) <= linear_value(scoring, fewer),
{
    let a = later_solves(fewer);
    let b = later_solves(more);
    assert(scoring.fall() * a <= scoring.fall() * b) by (nonlinear_arith)
        requires
            scoring.fall() >= 1,
            a <= b,
    ;
}

/// What a linear challenge is worth after so many solves, where the change of its value is one to a
/// number.
pub open spec fn worth(change: ValueChange) -> int {
    match change {
        ValueChange::To { value } => value as int,
        _ => 0,
    }
}

/// The first solve leaves a linear challenge at its initial value, and each solve after it takes
/// exactly the decay off, until the minimum is reached and kept.
pub proof fn law_each_solve_takes_the_decay(initial: i32, minimum: i32, decay: i32, solves: i64)
    requires
        initial >= minimum,
        decay >= 1,
        1 <= solves < i64::MAX,
    ensures
        ({
            let scoring = Scoring {
                initial: Some(initial),
                minimum: Some(minimum),
                decay: Some(decay),
            };
            let first = value_change(Some("linear"@), scoring, 1);
            let now = value_change(Some("linear"@), scoring, solves);
            let next = value_change(Some("linear"@), scoring, (solves + 1) as i64);
            &&& first == ValueChange::To { value: initial }
            &&& now is To && next is To
            &&& minimum <= worth(now) <= initial
            &&& worth(next) == if worth(now) - decay < minimum {
                minimum as int
            } else {
                worth(now) - decay
            }
        }),
{
    let scoring = Scoring { initial: Some(initial), minimum: Some(minimum), decay: Some(decay) };
    lemma_linear_words();
    let n = solves - 1;
    assert(decay * (n + 1) == decay * n + decay) by (nonlinear_arith);
    assert(0 <= decay * n && 0 <= decay * (n + 1)) by (nonlinear_arith)
        requires
            decay >= 1,
            n >= 0,
    ;
    assert(decay * 0 == 0);
    assert(linear_value(scoring, 1) == initial);
    assert(linear_value(scoring, solves) == if initial - decay * n < minimum {
        minimum as int
    } else {
        initial - decay * n
    });
}

proof fn lemma_linear_words()
    ensures
        "linear"@ != "static"@,
{
    reveal_strlit("linear");
    reveal_strlit("static");
    assert("linear"@[0] != "static"@[0]);
}

/// Before the first solve a linear challenge is worth what it is worth after it: its initial value,
/// or the minimum where that is higher.
pub proof fn law_the_first_solve_costs_nothing(scoring: Scoring, solves: i64)
    requires
        solves <= 1,
    ensures
        ({
            let initial = if scoring.initial is Some {
                scoring.initial->Some_0 as int
            } else {
                0
            };
            let minimum = if scoring.minimum is Some {
                scoring.minimum->Some_0 as int
            } else {
                0
            };
            value_change(Some("linear"@), scoring, solves) is To && worth(
                value_change(Some("linear"@), scoring, solves),
            ) == if initial < minimum {
                minimum
            } else {
                initial
            }
        }),
{
    lemma_linear_words();
    assert(scoring.fall() * 0 == 0);
}

/// A missing decay, or one below one, counts as one; a missing initial value or minimum counts as
/// zero.
pub proof fn law_missing_scores_count_as_nothing(
    function: Option<Seq<char>>,
    scoring: Scoring,
    solves: i64,
)
    ensures
        value_change(function, scoring, solves) == value_change(
            function,
            Scoring {
                initial: if scoring.initial is None {
                    Some(0)
                } else {
                    scoring.initial
                },
                minimum: if scoring.minimum is None {
                    Some(0)
                } else {
                    scoring.minimum
                },
                decay: if scoring.decay is None || scoring.decay->Some_0 < 1 {
                    Some(1)
                } else {
                    scoring.decay
                },
            },
            solves,
        ),
{
}

/// The value of a challenge without a function, or with the static one, never changes; under any
/// other function but the linear one it follows the curve through the stored numbers, at the number
/// of solves after the first.
pub proof fn law_the_function_decides(
    function: Option<Seq<char>>,
    initial: i32,
    minimum: i32,
    decay: i32,
    solves: i64,
)
    requires
        decay >= 1,
        solves >= 1,
    ensures
        ({
            let scoring = Scoring {
                initial: Some(initial),
                minimum: Some(minimum),
                decay: Some(decay),
            };
            let change = value_change(function, scoring, solves);
            &&& change is Keep <==> function is None || function == Some("static"@)
            &&& change is To <==> function == Some("linear"@)
            &&& function is Some && function != Some("static"@) && function != Some("linear"@)
                ==> change == ValueChange::Curve {
                initial,
                minimum,
                decay,
                later: (solves - 1) as i64,
            }
        }),
{
    lemma_linear_words();
}

/// The curve counts the solves after the first: none before the second.
pub proof fn law_the_curve_counts_later_solves(function: Seq<char>, scoring: Scoring, solves: i64)
    requires
        function != "static"@,
        function != "linear"@,
    ensures
        value_change(Some(function), scoring, solves) matches ValueChange::Curve {
            initial,
            minimum,
            decay,
            later,
        } && {
            &&& solves <= 1 ==> later == 0
            &&& solves > 1 ==> later == solves - 1
            &&& scoring.initial is Some ==> initial == scoring.initial->Some_0
            &&& scoring.minimum is Some ==> minimum == scoring.minimum->Some_0
            &&& scoring.decay is Some && scoring.decay->Some_0 >= 1 ==> decay
                == scoring.decay->Some_0
            &&& scoring.decay is None || scoring.decay->Some_0 < 1 ==> decay == 1
        },
{
}

} // verus!
