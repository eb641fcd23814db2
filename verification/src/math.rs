//! The mathematical built-ins.
//!
//! Absolute value, minimum and maximum are decided here, on the bit-level
//! number model. The functions that need hardware floating point — roots,
//! logarithms, powers, rounding, trigonometry — validate their arguments and
//! their domains here and hand the one remaining operation to the host.
//! Domain violations are errors, never a quiet not-a-number.
use vstd::prelude::*;

use crate::bridge::{fail, failed_with, BinaryOp, HostCall, Outcome, Pending, UnaryOp};
use crate::num::{bits_of_int, eq_bits, lt_bits, SIGN_UNIT};
use crate::num::{num_eq, num_lt, num_of_int};
use crate::string::answers_number;
use crate::symbol_table::SymbolTable;
use crate::value::{NativeFn, Value};

verus! {

/// The bits of the double PI closest to the circle constant.
pub const PI_BITS: u64 = 0x4009_21FB_5444_2D18;

/// The bits of the double closest to the base of the natural logarithm.
pub const E_BITS: u64 = 0x4005_BF0A_8B14_5769;

/// The bits of the double closest to the full-turn constant, twice PI.
pub const TAU_BITS: u64 = 0x4019_21FB_5444_2D18;

/// The pattern with the sign bit cleared: the absolute value of a double,
/// whatever it is, not-a-number payloads included.
pub open spec fn abs_bits(b: u64) -> u64 {
    b % SIGN_UNIT
}

/// What the absolute-value built-in answers.
pub open spec fn abs_post(args: Seq<Value>, o: Outcome) -> bool {
    if args.len() != 1 {
        failed_with(o, "abs expects 1 argument"@)
    } else {
        match args[0] {
            Value::Number(b) => answers_number(o, abs_bits(b)),
            _ => failed_with(o, "abs expects a number"@),
        }
    }
}

/// Clear a number's sign.
pub(crate) fn run_abs(args: Vec<Value>) -> (o: Outcome)
    ensures
        abs_post(args@, o),
{
    if args.len() != 1 {
        return fail("abs expects 1 argument");
    }
    match &args[0] {
        Value::Number(b) => crate::bridge::succeed(Value::Number(*b % SIGN_UNIT)),
        _ => fail("abs expects a number"),
    }
}

/// What a one-number built-in computed by the host answers: validation and
/// the domain check are decided here; only the arithmetic leaves.
pub open spec fn unary_post(
    args: Seq<Value>,
    o: Outcome,
    op: UnaryOp,
    arity_msg: Seq<char>,
    type_msg: Seq<char>,
    in_domain: spec_fn(u64) -> bool,
    domain_msg: Seq<char>,
) -> bool {
    if args.len() != 1 {
        failed_with(o, arity_msg)
    } else {
        match args[0] {
            Value::Number(b) => if in_domain(b) {
                o == Outcome::Host(HostCall::NumUnary(op, b), Pending::WrapNumber)
            } else {
                failed_with(o, domain_msg)
            },
            _ => failed_with(o, type_msg),
        }
    }
}

/// Not below zero: the domain of the square root. The negative zero passes,
/// as the hardware accepts it.
pub open spec fn not_negative(b: u64) -> bool {
    !lt_bits(b, bits_of_int(0))
}

/// Strictly above zero: the domain of the logarithms.
pub open spec fn strictly_positive(b: u64) -> bool {
    !lt_bits(b, bits_of_int(0)) && !eq_bits(b, bits_of_int(0))
}

/// Between minus one and one: the domain of the inverse sine and cosine.
pub open spec fn within_unit(b: u64) -> bool {
    !lt_bits(b, bits_of_int(-1)) && !lt_bits(bits_of_int(1), b)
}

fn run_unary(
    args: Vec<Value>,
    op: UnaryOp,
    arity_msg: &str,
    type_msg: &str,
) -> (o: Outcome)
    ensures
        args@.len() != 1 ==> failed_with(o, arity_msg@),
        args@.len() == 1 ==> match args@[0] {
            Value::Number(b) => o == Outcome::Host(HostCall::NumUnary(op, b), Pending::WrapNumber),
            _ => failed_with(o, type_msg@),
        },
{
    if args.len() != 1 {
        return fail(arity_msg);
    }
    match &args[0] {
        Value::Number(b) => Outcome::Host(HostCall::NumUnary(op, *b), Pending::WrapNumber),
        _ => fail(type_msg),
    }
}

/// Floor of a number; the rounding is the hardware's.
pub(crate) fn run_floor(args: Vec<Value>) -> (o: Outcome)
    ensures
        unary_post(
            args@,
            o,
            UnaryOp::Floor,
            "floor expects 1 argument"@,
            "floor expects a number"@,
            |b: u64| true,
            Seq::empty(),
        ),
{
    run_unary(args, UnaryOp::Floor, "floor expects 1 argument", "floor expects a number")
}

/// Ceiling of a number.
pub(crate) fn run_ceil(args: Vec<Value>) -> (o: Outcome)
    ensures
        unary_post(
            args@,
            o,
            UnaryOp::Ceil,
            "ceil expects 1 argument"@,
            "ceil expects a number"@,
            |b: u64| true,
            Seq::empty(),
        ),
{
    run_unary(args, UnaryOp::Ceil, "ceil expects 1 argument", "ceil expects a number")
}

/// Nearest whole number, halves away from zero.
pub(crate) fn run_round(args: Vec<Value>) -> (o: Outcome)
    ensures
        unary_post(
            args@,
            o,
            UnaryOp::Round,
            "round expects 1 argument"@,
            "round expects a number"@,
            |b: u64| true,
            Seq::empty(),
        ),
{
    run_unary(args, UnaryOp::Round, "round expects 1 argument", "round expects a number")
}

/// Square root; a number below zero is an error, not a quiet not-a-number.
pub(crate) fn run_sqrt(args: Vec<Value>) -> (o: Outcome)
    ensures
        unary_post(
            args@,
            o,
            UnaryOp::Sqrt,
            "sqrt expects 1 argument"@,
            "sqrt expects a number"@,
            |b: u64| not_negative(b),
            "sqrt does not accept negative numbers"@,
        ),
{
    if args.len() != 1 {
        return fail("sqrt expects 1 argument");
    }
    match &args[0] {
        Value::Number(b) => {
            if num_lt(*b, num_of_int(0)) {
                fail("sqrt does not accept negative numbers")
            } else {
                Outcome::Host(HostCall::NumUnary(UnaryOp::Sqrt, *b), Pending::WrapNumber)
            }
        },
        _ => fail("sqrt expects a number"),
    }
}

/// Natural logarithm; only positive numbers are accepted.
pub(crate) fn run_log(args: Vec<Value>) -> (o: Outcome)
    ensures
        unary_post(
            args@,
            o,
            UnaryOp::Ln,
            "log expects 1 argument"@,
            "log expects a number"@,
            |b: u64| strictly_positive(b),
            "log only accepts positive numbers"@,
        ),
{
    if args.len() != 1 {
        return fail("log expects 1 argument");
    }
    match &args[0] {
        Value::Number(b) => {
            if num_lt(*b, num_of_int(0)) || num_eq(*b, num_of_int(0)) {
                fail("log only accepts positive numbers")
            } else {
                Outcome::Host(HostCall::NumUnary(UnaryOp::Ln, *b), Pending::WrapNumber)
            }
        },
        _ => fail("log expects a number"),
    }
}

/// Base-ten logarithm; only positive numbers are accepted.
pub(crate) fn run_log10(args: Vec<Value>) -> (o: Outcome)
    ensures
        unary_post(
            args@,
            o,
            UnaryOp::Log10,
            "log10 expects 1 argument"@,
            "log10 expects a number"@,
            |b: u64| strictly_positive(b),
            "log10 only accepts positive numbers"@,
        ),
{
    if args.len() != 1 {
        return fail("log10 expects 1 argument");
    }
    match &args[0] {
        Value::Number(b) => {
            if num_lt(*b, num_of_int(0)) || num_eq(*b, num_of_int(0)) {
                fail("log10 only accepts positive numbers")
            } else {
                Outcome::Host(HostCall::NumUnary(UnaryOp::Log10, *b), Pending::WrapNumber)
            }
        },
        _ => fail("log10 expects a number"),
    }
}

/// The exponential function.
pub(crate) fn run_exp(args: Vec<Value>) -> (o: Outcome)
    ensures
        unary_post(
            args@,
            o,
            UnaryOp::Exp,
            "exp expects 1 argument"@,
            "exp expects a number"@,
            |b: u64| true,
            Seq::empty(),
        ),
{
    run_unary(args, UnaryOp::Exp, "exp expects 1 argument", "exp expects a number")
}

/// Sine.
pub(crate) fn run_sin(args: Vec<Value>) -> (o: Outcome)
    ensures
        unary_post(
            args@,
            o,
            UnaryOp::Sin,
            "sin expects 1 argument"@,
            "sin expects a number"@,
            |b: u64| true,
            Seq::empty(),
        ),
{
    run_unary(args, UnaryOp::Sin, "sin expects 1 argument", "sin expects a number")
}

/// Cosine.
pub(crate) fn run_cos(args: Vec<Value>) -> (o: Outcome)
    ensures
        unary_post(
            args@,
            o,
            UnaryOp::Cos,
            "cos expects 1 argument"@,
            "cos expects a number"@,
            |b: u64| true,
            Seq::empty(),
        ),
{
    run_unary(args, UnaryOp::Cos, "cos expects 1 argument", "cos expects a number")
}

/// Tangent.
pub(crate) fn run_tan(args: Vec<Value>) -> (o: Outcome)
    ensures
        unary_post(
            args@,
            o,
            UnaryOp::Tan,
            "tan expects 1 argument"@,
            "tan expects a number"@,
            |b: u64| true,
            Seq::empty(),
        ),
{
    run_unary(args, UnaryOp::Tan, "tan expects 1 argument", "tan expects a number")
}

/// Inverse sine; the argument must lie between minus one and one.
pub(crate) fn run_asin(args: Vec<Value>) -> (o: Outcome)
    ensures
        unary_post(
            args@,
            o,
            UnaryOp::Asin,
            "asin expects 1 argument"@,
            "asin expects a number"@,
            |b: u64| within_unit(b),
            "asin expects a number between -1 and 1"@,
        ),
{
    if args.len() != 1 {
        return fail("asin expects 1 argument");
    }
    match &args[0] {
        Value::Number(b) => {
            if num_lt(*b, num_of_int(-1)) || num_lt(num_of_int(1), *b) {
                fail("asin expects a number between -1 and 1")
            } else {
                Outcome::Host(HostCall::NumUnary(UnaryOp::Asin, *b), Pending::WrapNumber)
            }
        },
        _ => fail("asin expects a number"),
    }
}

/// Inverse cosine; the argument must lie between minus one and one.
pub(crate) fn run_acos(args: Vec<Value>) -> (o: Outcome)
    ensures
        unary_post(
            args@,
            o,
            UnaryOp::Acos,
            "acos expects 1 argument"@,
            "acos expects a number"@,
            |b: u64| within_unit(b),
            "acos expects a number between -1 and 1"@,
        ),
{
    if args.len() != 1 {
        return fail("acos expects 1 argument");
    }
    match &args[0] {
        Value::Number(b) => {
            if num_lt(*b, num_of_int(-1)) || num_lt(num_of_int(1), *b) {
                fail("acos expects a number between -1 and 1")
            } else {
                Outcome::Host(HostCall::NumUnary(UnaryOp::Acos, *b), Pending::WrapNumber)
            }
        },
        _ => fail("acos expects a number"),
    }
}

/// Inverse tangent.
pub(crate) fn run_atan(args: Vec<Value>) -> (o: Outcome)
    ensures
        unary_post(
            args@,
            o,
            UnaryOp::Atan,
            "atan expects 1 argument"@,
            "atan expects a number"@,
            |b: u64| true,
            Seq::empty(),
        ),
{
    run_unary(args, UnaryOp::Atan, "atan expects 1 argument", "atan expects a number")
}

/// What a two-number built-in computed by the host answers.
pub open spec fn binary_post(
    args: Seq<Value>,
    o: Outcome,
    op: BinaryOp,
    arity_msg: Seq<char>,
    type_msg: Seq<char>,
) -> bool {
    if args.len() != 2 {
        failed_with(o, arity_msg)
    } else {
        match (args[0], args[1]) {
            (Value::Number(a), Value::Number(b)) => o == Outcome::Host(
                HostCall::NumBinary(op, a, b),
                Pending::WrapNumber,
            ),
            _ => failed_with(o, type_msg),
        }
    }
}

/// A base raised to a power; the arithmetic is the hardware's.
pub(crate) fn run_pow(args: Vec<Value>) -> (o: Outcome)
    ensures
        binary_post(args@, o, BinaryOp::Pow, "pow expects 2 arguments"@, "pow expects two numbers"@),
{
    if args.len() != 2 {
        return fail("pow expects 2 arguments");
    }
    match (&args[0], &args[1]) {
        (Value::Number(a), Value::Number(b)) => Outcome::Host(
            HostCall::NumBinary(BinaryOp::Pow, *a, *b),
            Pending::WrapNumber,
        ),
        _ => fail("pow expects two numbers"),
    }
}

/// The angle of a point, from its vertical and horizontal parts.
pub(crate) fn run_atan2(args: Vec<Value>) -> (o: Outcome)
    ensures
        binary_post(
            args@,
            o,
            BinaryOp::Atan2,
            "atan2 expects 2 arguments"@,
            "atan2 expects two numbers"@,
        ),
{
    if args.len() != 2 {
        return fail("atan2 expects 2 arguments");
    }
    match (&args[0], &args[1]) {
        (Value::Number(a), Value::Number(b)) => Outcome::Host(
            HostCall::NumBinary(BinaryOp::Atan2, *a, *b),
            Pending::WrapNumber,
        ),
        _ => fail("atan2 expects two numbers"),
    }
}

/// The running minimum of a sequence of numbers: a later number replaces the
/// best one only when it is strictly smaller, so a leading not-a-number stays.
pub open spec fn fold_min(s: Seq<u64>, acc: u64) -> u64
    decreases s.len(),
{
    if s.len() == 0 {
        acc
    } else {
        fold_min(s.drop_first(), if lt_bits(s[0], acc) {
            s[0]
        } else {
            acc
        })
    }
}

/// The running maximum, with the same replacement policy.
pub open spec fn fold_max(s: Seq<u64>, acc: u64) -> u64
    decreases s.len(),
{
    if s.len() == 0 {
        acc
    } else {
        fold_max(s.drop_first(), if lt_bits(acc, s[0]) {
            s[0]
        } else {
            acc
        })
    }
}

/// Every element is a number.
pub open spec fn all_numbers(s: Seq<Value>) -> bool {
    forall|i: int| 0 <= i < s.len() ==> (#[trigger] s[i]) is Number
}

/// The bit patterns of a sequence of numbers.
pub open spec fn bits_of(s: Seq<Value>) -> Seq<u64> {
    Seq::new(s.len(), |i: int| s[i]->Number_0)
}

/// What the minimum built-in answers.
pub open spec fn min_post(args: Seq<Value>, o: Outcome) -> bool {
    if args.len() < 1 {
        failed_with(o, "min expects at least 1 argument"@)
    } else if !all_numbers(args) {
        failed_with(o, "min expects numbers"@)
    } else {
        answers_number(o, fold_min(bits_of(args).drop_first(), bits_of(args)[0]))
    }
}

/// What the maximum built-in answers.
pub open spec fn max_post(args: Seq<Value>, o: Outcome) -> bool {
    if args.len() < 1 {
        failed_with(o, "max expects at least 1 argument"@)
    } else if !all_numbers(args) {
        failed_with(o, "max expects numbers"@)
    } else {
        answers_number(o, fold_max(bits_of(args).drop_first(), bits_of(args)[0]))
    }
}

/// The smallest of the given numbers.
#[verifier::loop_isolation(false)]
pub(crate) fn run_min(args: Vec<Value>) -> (o: Outcome)
    ensures
        min_post(args@, o),
{
    if args.len() < 1 {
        return fail("min expects at least 1 argument");
    }
    let mut best: u64 = match &args[0] {
        Value::Number(b) => *b,
        _ => {
            return fail("min expects numbers");
        },
    };
    let mut i: usize = 1;
    while i < args.len()
        invariant
            1 <= i <= args@.len(),
            forall|j: int| 0 <= j < i ==> (#[trigger] args@[j]) is Number,
            fold_min(bits_of(args@).skip(i as int), best) == fold_min(
                bits_of(args@).drop_first(),
                bits_of(args@)[0],
            ),
        decreases args@.len() - i,
    {
        match &args[i] {
            Value::Number(b) => {
                proof {
                    assert(bits_of(args@).skip(i as int).drop_first() =~= bits_of(args@).skip(
                        i + 1,
                    ));
                }
                if num_lt(*b, best) {
                    best = *b;
                }
            },
            _ => {
                return fail("min expects numbers");
            },
        }
        i = i + 1;
    }
    proof {
        assert(bits_of(args@).skip(args@.len() as int) =~= Seq::<u64>::empty());
    }
    crate::bridge::succeed(Value::Number(best))
}

/// The largest of the given numbers.
#[verifier::loop_isolation(false)]
pub(crate) fn run_max(args: Vec<Value>) -> (o: Outcome)
    ensures
        max_post(args@, o),
{
    if args.len() < 1 {
        return fail("max expects at least 1 argument");
    }
    let mut best: u64 = match &args[0] {
        Value::Number(b) => *b,
        _ => {
            return fail("max expects numbers");
        },
    };
    let mut i: usize = 1;
    while i < args.len()
        invariant
            1 <= i <= args@.len(),
            forall|j: int| 0 <= j < i ==> (#[trigger] args@[j]) is Number,
            fold_max(bits_of(args@).skip(i as int), best) == fold_max(
                bits_of(args@).drop_first(),
                bits_of(args@)[0],
            ),
        decreases args@.len() - i,
    {
        match &args[i] {
            Value::Number(b) => {
                proof {
                    assert(bits_of(args@).skip(i as int).drop_first() =~= bits_of(args@).skip(
                        i + 1,
                    ));
                }
                if num_lt(best, *b) {
                    best = *b;
                }
            },
            _ => {
                return fail("max expects numbers");
            },
        }
        i = i + 1;
    }
    proof {
        assert(bits_of(args@).skip(args@.len() as int) =~= Seq::<u64>::empty());
    }
    crate::bridge::succeed(Value::Number(best))
}

/// Install the mathematical family and its constants into the registry. The
/// constants are immutable bindings and not redeclarable constants, exactly
/// as the registry convention for values has them.
pub fn register(globals: &mut SymbolTable)
    ensures
        final(globals)@ == old(globals)@
            .insert("abs"@, (Value::NativeFunction(NativeFn::MathAbs), false, true))
            .insert("floor"@, (Value::NativeFunction(NativeFn::MathFloor), false, true))
            .insert("ceil"@, (Value::NativeFunction(NativeFn::MathCeil), false, true))
            .insert("round"@, (Value::NativeFunction(NativeFn::MathRound), false, true))
            .insert("pow"@, (Value::NativeFunction(NativeFn::MathPow), false, true))
            .insert("sqrt"@, (Value::NativeFunction(NativeFn::MathSqrt), false, true))
            .insert("log"@, (Value::NativeFunction(NativeFn::MathLog), false, true))
            .insert("log10"@, (Value::NativeFunction(NativeFn::MathLog10), false, true))
            .insert("exp"@, (Value::NativeFunction(NativeFn::MathExp), false, true))
            .insert("min"@, (Value::NativeFunction(NativeFn::MathMin), false, true))
            .insert("max"@, (Value::NativeFunction(NativeFn::MathMax), false, true))
            .insert("sin"@, (Value::NativeFunction(NativeFn::MathSin), false, true))
            .insert("cos"@, (Value::NativeFunction(NativeFn::MathCos), false, true))
            .insert("tan"@, (Value::NativeFunction(NativeFn::MathTan), false, true))
            .insert("asin"@, (Value::NativeFunction(NativeFn::MathAsin), false, true))
            .insert("acos"@, (Value::NativeFunction(NativeFn::MathAcos), false, true))
            .insert("atan"@, (Value::NativeFunction(NativeFn::MathAtan), false, true))
            .insert("atan2"@, (Value::NativeFunction(NativeFn::MathAtan2), false, true))
            .insert("PI"@, (Value::Number(PI_BITS), false, false))
            .insert("E"@, (Value::Number(E_BITS), false, false))
            .insert("TAU"@, (Value::Number(TAU_BITS), false, false)),
{
    globals.define_native_function("abs", NativeFn::MathAbs);
    globals.define_native_function("floor", NativeFn::MathFloor);
    globals.define_native_function("ceil", NativeFn::MathCeil);
    globals.define_native_function("round", NativeFn::MathRound);
    globals.define_native_function("pow", NativeFn::MathPow);
    globals.define_native_function("sqrt", NativeFn::MathSqrt);
    globals.define_native_function("log", NativeFn::MathLog);
    globals.define_native_function("log10", NativeFn::MathLog10);
    globals.define_native_function("exp", NativeFn::MathExp);
    globals.define_native_function("min", NativeFn::MathMin);
    globals.define_native_function("max", NativeFn::MathMax);
    globals.define_native_function("sin", NativeFn::MathSin);
    globals.define_native_function("cos", NativeFn::MathCos);
    globals.define_native_function("tan", NativeFn::MathTan);
    globals.define_native_function("asin", NativeFn::MathAsin);
    globals.define_native_function("acos", NativeFn::MathAcos);
    globals.define_native_function("atan", NativeFn::MathAtan);
    globals.define_native_function("atan2", NativeFn::MathAtan2);
    globals.define("PI".to_owned(), Value::Number(PI_BITS), false, false);
    globals.define("E".to_owned(), Value::Number(E_BITS), false, false);
    globals.define("TAU".to_owned(), Value::Number(TAU_BITS), false, false);
}

/// A square root of a number below zero is refused outright: no request
/// reaches the host, so no not-a-number can come back.
pub proof fn lemma_sqrt_rejects_negative(args: Seq<Value>, o: Outcome, b: u64)
    requires
        args.len() == 1,
        args[0] == Value::Number(b),
        lt_bits(b, bits_of_int(0)),
        unary_post(
            args,
            o,
            UnaryOp::Sqrt,
            "sqrt expects 1 argument"@,
            "sqrt expects a number"@,
            |x: u64| not_negative(x),
            "sqrt does not accept negative numbers"@,
        ),
    ensures
        failed_with(o, "sqrt does not accept negative numbers"@),
{
}

/// A logarithm of a number at or below zero is refused outright.
pub proof fn lemma_log_rejects_non_positive(args: Seq<Value>, o: Outcome, b: u64)
    requires
        args.len() == 1,
        args[0] == Value::Number(b),
        lt_bits(b, bits_of_int(0)) || eq_bits(b, bits_of_int(0)),
        unary_post(
            args,
            o,
            UnaryOp::Ln,
            "log expects 1 argument"@,
            "log expects a number"@,
            |x: u64| strictly_positive(x),
            "log only accepts positive numbers"@,
        ),
    ensures
        failed_with(o, "log only accepts positive numbers"@),
{
}

/// An inverse sine outside the unit interval is refused outright.
pub proof fn lemma_asin_rejects_outside_unit(args: Seq<Value>, o: Outcome, b: u64)
    requires
        args.len() == 1,
        args[0] == Value::Number(b),
        lt_bits(b, bits_of_int(-1)) || lt_bits(bits_of_int(1), b),
        unary_post(
            args,
            o,
            UnaryOp::Asin,
            "asin expects 1 argument"@,
            "asin expects a number"@,
            |x: u64| within_unit(x),
            "asin expects a number between -1 and 1"@,
        ),
    ensures
        failed_with(o, "asin expects a number between -1 and 1"@),
{
}

} // verus!
