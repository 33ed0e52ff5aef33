//! The controller: its state, the model of one control cycle, and its operations.
use vstd::prelude::*;
use vstd::string::StringExecFns;
use crate::arith::{SCALE, sat, wrap, clamp, fixed_mul, floor_div_rem, fold, saturate, mul_fixed};

verus! {

/// Weight of the newest error in the derivative filter is `1 / FILTER_SPAN`.
pub const FILTER_SPAN: i64 = 20;

/// The state of a controller, as mathematical values.
pub ghost struct PidView {
    pub kp: int,
    pub ki: int,
    pub kd: int,
    pub setpoint: int,
    pub measured: int,
    pub continuous: bool,
    pub input_min: int,
    pub input_max: int,
    pub integral: int,
    pub prev_filtered: int,
    pub output_min: int,
    pub output_max: int,
    pub label: Seq<char>,
}

/// The width of the wraparound period.
pub open spec fn period(s: PidView) -> int {
    s.input_max - s.input_min
}

/// What a step asks of the state and of the time step: a positive time step,
/// and a nonempty period when wraparound is on.
pub open spec fn step_allowed(s: PidView, dt: Option<i64>) -> bool {
    &&& s.continuous ==> s.input_min < s.input_max
    &&& dt matches Some(d) ==> d > 0
}

/// The error of a step: setpoint minus measured value, wrapped when the input is continuous.
pub open spec fn error_of(s: PidView) -> int {
    if s.continuous {
        wrap(s.setpoint - s.measured, period(s))
    } else {
        sat(s.setpoint - s.measured)
    }
}

/// Exponential smoothing with weight `1 / FILTER_SPAN` on the new value,
/// rounded to the nearest integer (halves upward), so that it drifts neither way.
pub open spec fn smooth(err: int, prev: int) -> int {
    (err + (FILTER_SPAN - 1) * prev + FILTER_SPAN / 2) / (FILTER_SPAN as int)
}

/// The filtered error of a step, wrapped again when the input is continuous.
pub open spec fn filtered_of(s: PidView) -> int {
    let f = smooth(error_of(s), s.prev_filtered);
    if s.continuous {
        wrap(f, period(s))
    } else {
        f
    }
}

/// The integral accumulator after a step.
pub open spec fn integral_of(s: PidView) -> int {
    sat(s.integral + error_of(s))
}

/// The derivative term of a step: zero without a time step, else the slope
/// of the filtered error, rounded down.
pub open spec fn derivative_of(s: PidView, dt: Option<i64>) -> int {
    match dt {
        Some(d) => sat(((filtered_of(s) - s.prev_filtered) * SCALE) / (d as int)),
        None => 0,
    }
}

/// The output of a step before clamping.
pub open spec fn raw_output_of(s: PidView, dt: Option<i64>) -> int {
    fixed_mul(s.kp, error_of(s)) + fixed_mul(s.ki, integral_of(s)) + fixed_mul(
        s.kd,
        derivative_of(s, dt),
    )
}

/// The output of a step.
pub open spec fn output_of(s: PidView, dt: Option<i64>) -> int {
    clamp(raw_output_of(s, dt), s.output_min, s.output_max)
}

/// The state after a step.
pub open spec fn after_step(s: PidView) -> PidView {
    PidView { integral: integral_of(s), prev_filtered: filtered_of(s), ..s }
}

/// The state of a new controller with the given gains.
pub open spec fn fresh(kp: int, ki: int, kd: int) -> PidView {
    PidView {
        kp,
        ki,
        kd,
        setpoint: 0,
        measured: 0,
        continuous: false,
        input_min: 0,
        input_max: 0,
        integral: 0,
        prev_filtered: 0,
        output_min: i64::MIN as int,
        output_max: i64::MAX as int,
        label: Seq::empty(),
    }
}

/// The state after a reset: transient values zeroed, configuration kept.
pub open spec fn reset_view(s: PidView) -> PidView {
    PidView { setpoint: 0, measured: 0, integral: 0, prev_filtered: 0, ..s }
}

/// The inputs of one control cycle: setpoint and measured value, set before the step, and its time step.
pub ghost struct Cycle {
    pub setpoint: int,
    pub measured: int,
    pub dt: Option<i64>,
}

/// The state once a cycle's setpoint and measured value are set.
pub open spec fn with_inputs(s: PidView, c: Cycle) -> PidView {
    PidView { setpoint: c.setpoint, measured: c.measured, ..s }
}

/// The outputs of running `cycles` in order, starting from `s`.
pub open spec fn outputs(s: PidView, cycles: Seq<Cycle>) -> Seq<int>
    decreases cycles.len(),
{
    if cycles.len() == 0 {
        Seq::empty()
    } else {
        let t = with_inputs(s, cycles[0]);
        seq![output_of(t, cycles[0].dt)] + outputs(after_step(t), cycles.skip(1))
    }
}

/// A new controller with the gains and output bounds of `s`, and its wraparound if on.
pub open spec fn configured_like(s: PidView) -> PidView {
    let base = PidView {
        output_min: s.output_min,
        output_max: s.output_max,
        ..fresh(s.kp, s.ki, s.kd)
    };
    if s.continuous {
        PidView { continuous: true, input_min: s.input_min, input_max: s.input_max, ..base }
    } else {
        base
    }
}

/// Two states on which every step computes the same thing.
pub open spec fn agree(a: PidView, b: PidView) -> bool {
    &&& a.kp == b.kp && a.ki == b.ki && a.kd == b.kd
    &&& a.setpoint == b.setpoint && a.measured == b.measured
    &&& a.integral == b.integral && a.prev_filtered == b.prev_filtered
    &&& a.output_min == b.output_min && a.output_max == b.output_max
    &&& a.continuous == b.continuous
    &&& a.continuous ==> a.input_min == b.input_min && a.input_max == b.input_max
}

proof fn lemma_outputs_agree(a: PidView, b: PidView, cycles: Seq<Cycle>)
    requires
        agree(a, b),
    ensures
        outputs(a, cycles) == outputs(b, cycles),
    decreases cycles.len(),
{
    if cycles.len() > 0 {
        let ta = with_inputs(a, cycles[0]);
        let tb = with_inputs(b, cycles[0]);
        lemma_outputs_agree(after_step(ta), after_step(tb), cycles.skip(1));
    }
}

/// After a reset, any sequence of cycles gives the same outputs as on a new
/// controller with the same gains, output bounds and wraparound.
pub proof fn lemma_reset_replays_fresh(s: PidView, cycles: Seq<Cycle>)
    ensures
        outputs(reset_view(s), cycles) == outputs(configured_like(s), cycles),
{
    lemma_outputs_agree(reset_view(s), configured_like(s), cycles);
}

/// Without a time step there is no derivative term: with zero proportional and
/// integral gains the output is zero whatever the error, while the filtered
/// error is still carried forward.
pub proof fn lemma_no_time_step_no_derivative(s: PidView)
    requires
        s.kp == 0,
        s.ki == 0,
        s.output_min <= 0 <= s.output_max,
    ensures
        derivative_of(s, None) == 0,
        output_of(s, None) == 0,
        after_step(s).prev_filtered == filtered_of(s),
{
}

/// Whatever the gains, state and time step, a step's output lies within the
/// output bounds whenever the lower bound does not exceed the upper.
pub proof fn lemma_output_within_bounds(s: PidView, dt: Option<i64>)
    requires
        s.output_min <= s.output_max,
    ensures
        s.output_min <= output_of(s, dt) <= s.output_max,
{
}

/// The default output bounds, the limits of `i64`, leave every output within
/// them unchanged.
pub proof fn lemma_default_bounds_never_clamp(s: PidView, dt: Option<i64>)
    requires
        s.output_min == i64::MIN,
        s.output_max == i64::MAX,
        i64::MIN <= raw_output_of(s, dt) <= i64::MAX,
    ensures
        output_of(s, dt) == raw_output_of(s, dt),
{
}

/// The values of one control cycle, as a step sees them.
pub struct StepRecord {
    pub setpoint: i64,
    pub measured: i64,
    pub error: i64,
    pub integral: i64,
    pub derivative: i64,
    pub output: i64,
}

/// A single-axis PID controller.
pub struct PID {
    kp: i64,
    ki: i64,
    kd: i64,
    sp: i64,
    pv: i64,
    continuous_input: bool,
    input_min: i64,
    input_max: i64,
    err_sum: i64,
    errf_prev: i64,
    min: i64,
    max: i64,
    debug_label: String,
}

impl View for PID {
    type V = PidView;

    closed spec fn view(&self) -> PidView {
        PidView {
            kp: self.kp as int,
            ki: self.ki as int,
            kd: self.kd as int,
            setpoint: self.sp as int,
            measured: self.pv as int,
            continuous: self.continuous_input,
            input_min: self.input_min as int,
            input_max: self.input_max as int,
            integral: self.err_sum as int,
            prev_filtered: self.errf_prev as int,
            output_min: self.min as int,
            output_max: self.max as int,
            label: self.debug_label@,
        }
    }
}

impl PID {
    /// A controller with the given gains, zero state, no wraparound and no output limit.
    pub fn new(kp: i64, ki: i64, kd: i64) -> (r: PID)
        ensures
            r@ == fresh(kp as int, ki as int, kd as int),
    {
        PID {
            kp,
            ki,
            kd,
            sp: 0,
            pv: 0,
            err_sum: 0,
            errf_prev: 0,
            min: i64::MIN,
            max: i64::MAX,
            continuous_input: false,
            input_min: 0,
            input_max: 0,
            debug_label: String::new(),
        }
    }

    /// The label shown in diagnostics.
    pub fn debug_label(&self) -> (r: &String)
        ensures
            r@ == self@.label,
    {
        &self.debug_label
    }

    /// Sets the diagnostic label to `s` in parentheses, followed by a space.
    pub fn add_debug_label(&mut self, s: &str)
        ensures
            final(self)@ == (PidView { label: seq!['('] + s@ + seq![')', ' '], ..old(self)@ }),
    {
        let mut label = String::from_str("(");
        label.append(s);
        label.append(") ");
        proof {
            reveal_strlit("(");
            reveal_strlit(") ");
            assert(label@ =~= seq!['('] + s@ + seq![')', ' ']);
        }
        self.debug_label = label;
    }

    /// Turns wraparound on, with the period running from `min` to `max`.
    pub fn enable_continuous_input(&mut self, min: i64, max: i64)
        ensures
            final(self)@ == (PidView {
                continuous: true,
                input_min: min as int,
                input_max: max as int,
                ..old(self)@
            }),
    {
        self.continuous_input = true;
        self.input_min = min;
        self.input_max = max;
    }

    /// Turns wraparound off.
    pub fn disable_continuous_input(&mut self)
        ensures
            final(self)@ == (PidView { continuous: false, ..old(self)@ }),
    {
        self.continuous_input = false;
    }

    /// Zeroes setpoint, measured value, integral and filtered error; keeps the configuration.
    pub fn reset(&mut self)
        ensures
            final(self)@ == reset_view(old(self)@),
    {
        self.sp = 0;
        self.pv = 0;
        self.err_sum = 0;
        self.errf_prev = 0;
    }

    /// Replaces the three gains.
    pub fn set_gains(&mut self, kp: i64, ki: i64, kd: i64)
        ensures
            final(self)@ == (PidView { kp: kp as int, ki: ki as int, kd: kd as int, ..old(self)@ }),
    {
        self.kp = kp;
        self.ki = ki;
        self.kd = kd;
    }

    /// Replaces the output bounds.
    pub fn set_output_range(&mut self, min: i64, max: i64)
        ensures
            final(self)@ == (PidView {
                output_min: min as int,
                output_max: max as int,
                ..old(self)@
            }),
    {
        self.min = min;
        self.max = max;
    }

    /// Sets the setpoint.
    pub fn set_sp(&mut self, sp: i64)
        ensures
            final(self)@ == (PidView { setpoint: sp as int, ..old(self)@ }),
    {
        self.sp = sp;
    }

    /// Sets the measured value.
    pub fn set_pv(&mut self, pv: i64)
        ensures
            final(self)@ == (PidView { measured: pv as int, ..old(self)@ }),
    {
        self.pv = pv;
    }

    /// Whether `step` may be called now with `dt`.
    pub fn can_step(&self, dt: Option<i64>) -> (r: bool)
        ensures
            r == step_allowed(self@, dt),
    {
        let dt_ok = match dt {
            Some(d) => d > 0,
            None => true,
        };
        dt_ok && (!self.continuous_input || self.input_min < self.input_max)
    }

    /// Wraps `error` into the period from `input_min` to `input_max`, centred on zero.
    pub fn normalize_error(&self, error: i64) -> (r: i64)
        requires
            self@.input_min < self@.input_max,
        ensures
            r == wrap(error as int, period(self@)),
            -period(self@) <= 2 * r <= period(self@),
    {
        let m: i128 = self.input_max as i128 - self.input_min as i128;
        fold(error as i128, m) as i64
    }

    fn clamp_output(&self, val: i128) -> (r: i64)
        ensures
            r == clamp(val as int, self@.output_min, self@.output_max),
    {
        let a: i128 = if val < self.min as i128 {
            self.min as i128
        } else {
            val
        };
        if a > self.max as i128 {
            self.max
        } else {
            a as i64
        }
    }

    /// Runs one control cycle and reports the values it computed.
    pub fn step_record(&mut self, dt: Option<i64>) -> (r: StepRecord)
        requires
            step_allowed(old(self)@, dt),
        ensures
            final(self)@ == after_step(old(self)@),
            r.setpoint == old(self)@.setpoint,
            r.measured == old(self)@.measured,
            r.error == error_of(old(self)@),
            r.integral == integral_of(old(self)@),
            r.derivative == derivative_of(old(self)@, dt),
            r.output == output_of(old(self)@, dt),
    {
        let diff: i128 = self.sp as i128 - self.pv as i128;
        let m: i128 = self.input_max as i128 - self.input_min as i128;
        let err: i64 = if self.continuous_input {
            fold(diff, m) as i64
        } else {
            saturate(diff)
        };
        let (f, _) = floor_div_rem(
            err as i128 + (FILTER_SPAN - 1) as i128 * self.errf_prev as i128 + (FILTER_SPAN / 2) as i128,
            FILTER_SPAN as i128,
        );
        proof {
            assert(i64::MIN <= f <= i64::MAX) by (nonlinear_arith)
                requires
                    f == (err + 19 * self.errf_prev + 10) / 20,
                    i64::MIN <= err <= i64::MAX,
                    i64::MIN <= self.errf_prev <= i64::MAX,
            ;
        }
        let errf: i64 = if self.continuous_input {
            fold(f, m) as i64
        } else {
            f as i64
        };
        self.err_sum = saturate(self.err_sum as i128 + err as i128);
        let errf_dt: i64 = match dt {
            Some(d) => {
                assert(-0x1_0000_0000_0000_0000_0000_0000 <= (errf - self.errf_prev) * 1_000_000_000
                    <= 0x1_0000_0000_0000_0000_0000_0000);
                let (q, _) = floor_div_rem(
                    (errf as i128 - self.errf_prev as i128) * SCALE as i128,
                    d as i128,
                );
                saturate(q)
            },
            None => 0,
        };
        self.errf_prev = errf;
        let raw: i128 = mul_fixed(self.kp, err) + mul_fixed(self.ki, self.err_sum) + mul_fixed(
            self.kd,
            errf_dt,
        );
        let output = self.clamp_output(raw);
        StepRecord {
            setpoint: self.sp,
            measured: self.pv,
            error: err,
            integral: self.err_sum,
            derivative: errf_dt,
            output,
        }
    }

    /// Runs one control cycle and returns the clamped output.
    pub fn step(&mut self, dt: Option<i64>) -> (r: i64)
        requires
            step_allowed(old(self)@, dt),
        ensures
            final(self)@ == after_step(old(self)@),
            r == output_of(old(self)@, dt),
            old(self)@.output_min <= old(self)@.output_max ==> old(self)@.output_min <= r
                <= old(self)@.output_max,
    {
        self.step_record(dt).output
    }
}

} // verus!
