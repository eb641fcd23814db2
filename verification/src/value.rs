//! The tagged runtime value, with the language's equality and ordering.
//!
//! Every datum the interpreter and the built-ins exchange is a `Value`: a
//! closed sum over every shape a datum can take. A number holds the bits of
//! a double; a user function is an opaque handle owned by the evaluator; a
//! built-in function is its tag, so dispatch stays an exhaustively checked
//! match. Lists and dictionaries own their contents outright: whoever
//! "modifies" one works on a clone, never through a shared alias.
use vstd::prelude::*;

use crate::num::{eq_bits, lt_bits};
use crate::num::{num_eq, num_lt};

verus! {

broadcast use vstd::std_specs::vec::group_vec_axioms;

/// The tag of a built-in function.
#[derive(Clone, Copy, PartialEq, Eq, Structural, Debug)]
pub enum NativeFn {
    MapList,
    FilterList,
    ReduceList,
    FindList,
    AnyList,
    AllList,
    ReverseList,
    SortList,
    UniqueList,
    FlattenList,
    RangeList,
    StrLen,
    StrUpper,
    StrLower,
    StrTrim,
    StrSplit,
    StrJoin,
    StrReplace,
    StrContains,
    StrStartsWith,
    StrEndsWith,
    StrChars,
    StrSubstring,
    StrFormat,
    MathAbs,
    MathFloor,
    MathCeil,
    MathRound,
    MathPow,
    MathSqrt,
    MathLog,
    MathLog10,
    MathExp,
    MathMin,
    MathMax,
    MathSin,
    MathCos,
    MathTan,
    MathAsin,
    MathAcos,
    MathAtan,
    MathAtan2,
    SysTime,
    SysSleep,
    SysExit,
    SysArgs,
    SysEnv,
    SysSetEnv,
    SysCwd,
    SysPlatform,
    SysArch,
    IoReadFile,
    IoWriteFile,
    IoAppendFile,
    IoExists,
    IoDelete,
    IoReadDir,
    IoIsFile,
    IoIsDir,
    IoCreateDir,
    HttpGet,
    HttpPost,
}

/// The runtime value.
pub enum Value {
    Nil,
    Boolean(bool),
    Number(u64),
    Str(String),
    List(Vec<Value>),
    Dict(Vec<(Value, Value)>),
    Function(u64),
    NativeFunction(NativeFn),
}

/// The language's equality: numeric on numbers (nothing equals a
/// not-a-number, the two zeroes are one), by contents on strings, element
/// by element on lists, entry by entry on dictionaries, by handle on user
/// functions and by tag on built-ins.
pub open spec fn eq_val(a: Value, b: Value) -> bool
    decreases a, 1int,
{
    match (a, b) {
        (Value::Nil, Value::Nil) => true,
        (Value::Boolean(x), Value::Boolean(y)) => x == y,
        (Value::Number(x), Value::Number(y)) => eq_bits(x, y),
        (Value::Str(x), Value::Str(y)) => x@ == y@,
        (Value::List(x), Value::List(y)) => eq_vals(x@, y@),
        (Value::Dict(x), Value::Dict(y)) => eq_pairs(x@, y@),
        (Value::Function(x), Value::Function(y)) => x == y,
        (Value::NativeFunction(x), Value::NativeFunction(y)) => x == y,
        _ => false,
    }
}

pub open spec fn eq_vals(s: Seq<Value>, t: Seq<Value>) -> bool
    decreases s, 0int,
{
    if s.len() != t.len() {
        false
    } else if s.len() == 0 {
        true
    } else {
        eq_val(s[0], t[0]) && eq_vals(s.drop_first(), t.drop_first())
    }
}

pub open spec fn eq_pairs(s: Seq<(Value, Value)>, t: Seq<(Value, Value)>) -> bool
    decreases s, 0int,
{
    if s.len() != t.len() {
        false
    } else if s.len() == 0 {
        true
    } else {
        eq_val(s[0].0, t[0].0) && eq_val(s[0].1, t[0].1) && eq_pairs(
            s.drop_first(),
            t.drop_first(),
        )
    }
}

/// Sequence equality is the pointwise equality of equally long sequences.
pub proof fn lemma_eq_vals_pointwise(s: Seq<Value>, t: Seq<Value>)
    ensures
        eq_vals(s, t) <==> (s.len() == t.len() && forall|i: int|
            0 <= i < s.len() ==> eq_val(#[trigger] s[i], t[i])),
    decreases s.len(),
{
    if s.len() == t.len() && s.len() > 0 {
        lemma_eq_vals_pointwise(s.drop_first(), t.drop_first());
        if eq_vals(s, t) {
            assert forall|i: int| 0 <= i < s.len() implies eq_val(#[trigger] s[i], t[i]) by {
                if i > 0 {
                    assert(s.drop_first()[i - 1] == s[i]);
                    assert(t.drop_first()[i - 1] == t[i]);
                }
            }
        }
        if s.len() == t.len() && (forall|i: int|
            0 <= i < s.len() ==> eq_val(#[trigger] s[i], t[i])) {
            assert forall|i: int| 0 <= i < s.drop_first().len() implies eq_val(
                #[trigger] s.drop_first()[i],
                t.drop_first()[i],
            ) by {
                assert(s.drop_first()[i] == s[i + 1]);
                assert(t.drop_first()[i] == t[i + 1]);
            }
        }
    }
}

pub proof fn lemma_eq_pairs_pointwise(s: Seq<(Value, Value)>, t: Seq<(Value, Value)>)
    ensures
        eq_pairs(s, t) <==> (s.len() == t.len() && forall|i: int|
            0 <= i < s.len() ==> eq_val((#[trigger] s[i]).0, t[i].0) && eq_val(s[i].1, t[i].1)),
    decreases s.len(),
{
    if s.len() == t.len() && s.len() > 0 {
        lemma_eq_pairs_pointwise(s.drop_first(), t.drop_first());
        if eq_pairs(s, t) {
            assert forall|i: int| 0 <= i < s.len() implies eq_val(
                (#[trigger] s[i]).0,
                t[i].0,
            ) && eq_val(s[i].1, t[i].1) by {
                if i > 0 {
                    assert(s.drop_first()[i - 1] == s[i]);
                    assert(t.drop_first()[i - 1] == t[i]);
                }
            }
        }
        if s.len() == t.len() && (forall|i: int|
            0 <= i < s.len() ==> eq_val((#[trigger] s[i]).0, t[i].0) && eq_val(s[i].1, t[i].1)) {
            assert forall|i: int| 0 <= i < s.drop_first().len() implies eq_val(
                (#[trigger] s.drop_first()[i]).0,
                t.drop_first()[i].0,
            ) && eq_val(s.drop_first()[i].1, t.drop_first()[i].1) by {
                assert(s.drop_first()[i] == s[i + 1]);
                assert(t.drop_first()[i] == t[i + 1]);
            }
        }
    }
}

/// The language's equality is symmetric: both sides see the same answer.
pub proof fn lemma_eq_val_symmetric(a: Value, b: Value)
    ensures
        eq_val(a, b) == eq_val(b, a),
    decreases a, 1int,
{
    match (a, b) {
        (Value::List(x), Value::List(y)) => {
            lemma_eq_vals_symmetric(x@, y@);
        },
        (Value::Dict(x), Value::Dict(y)) => {
            lemma_eq_pairs_symmetric(x@, y@);
        },
        _ => {},
    }
}

proof fn lemma_eq_vals_symmetric(s: Seq<Value>, t: Seq<Value>)
    ensures
        eq_vals(s, t) == eq_vals(t, s),
    decreases s, 0int,
{
    if s.len() == t.len() && s.len() > 0 {
        lemma_eq_val_symmetric(s[0], t[0]);
        lemma_eq_vals_symmetric(s.drop_first(), t.drop_first());
    }
}

proof fn lemma_eq_pairs_symmetric(s: Seq<(Value, Value)>, t: Seq<(Value, Value)>)
    ensures
        eq_pairs(s, t) == eq_pairs(t, s),
    decreases s, 0int,
{
    if s.len() == t.len() && s.len() > 0 {
        lemma_eq_val_symmetric(s[0].0, t[0].0);
        lemma_eq_val_symmetric(s[0].1, t[0].1);
        lemma_eq_pairs_symmetric(s.drop_first(), t.drop_first());
    }
}

/// Decide the language's equality of two values.
#[verifier::loop_isolation(false)]
pub fn eq_value(a: &Value, b: &Value) -> (r: bool)
    ensures
        r == eq_val(*a, *b),
    decreases *a,
{
    match (a, b) {
        (Value::Nil, Value::Nil) => true,
        (Value::Boolean(x), Value::Boolean(y)) => *x == *y,
        (Value::Number(x), Value::Number(y)) => num_eq(*x, *y),
        (Value::Str(x), Value::Str(y)) => *x == *y,
        (Value::List(x), Value::List(y)) => {
            proof {
                lemma_eq_vals_pointwise(x@, y@);
            }
            if x.len() != y.len() {
                return false;
            }
            let mut i: usize = 0;
            while i < x.len()
                invariant
                    0 <= i <= x@.len(),
                    x@.len() == y@.len(),
                    forall|j: int| 0 <= j < i ==> eq_val(#[trigger] x@[j], y@[j]),
                    eq_vals(x@, y@) <==> (forall|j: int|
                        0 <= j < x@.len() ==> eq_val(#[trigger] x@[j], y@[j])),
                decreases x@.len() - i,
            {
                proof {
                    assert(decreases_to!(*x => x@));
                    assert(decreases_to!(x@ => x@[i as int]));
                }
                if !eq_value(&x[i], &y[i]) {
                    return false;
                }
                i = i + 1;
            }
            true
        },
        (Value::Dict(x), Value::Dict(y)) => {
            proof {
                lemma_eq_pairs_pointwise(x@, y@);
            }
            if x.len() != y.len() {
                return false;
            }
            let mut i: usize = 0;
            while i < x.len()
                invariant
                    0 <= i <= x@.len(),
                    x@.len() == y@.len(),
                    forall|j: int|
                        0 <= j < i ==> eq_val((#[trigger] x@[j]).0, y@[j].0) && eq_val(
                            x@[j].1,
                            y@[j].1,
                        ),
                    eq_pairs(x@, y@) <==> (forall|j: int|
                        0 <= j < x@.len() ==> eq_val((#[trigger] x@[j]).0, y@[j].0) && eq_val(
                            x@[j].1,
                            y@[j].1,
                        )),
                decreases x@.len() - i,
            {
                proof {
                    assert(decreases_to!(*x => x@));
                    assert(decreases_to!(x@ => x@[i as int]));
                    assert(decreases_to!(x@[i as int] => x@[i as int].0));
                    assert(decreases_to!(x@[i as int] => x@[i as int].1));
                }
                if !eq_value(&x[i].0, &y[i].0) {
                    return false;
                }
                if !eq_value(&x[i].1, &y[i].1) {
                    return false;
                }
                i = i + 1;
            }
            true
        },
        (Value::Function(x), Value::Function(y)) => *x == *y,
        (Value::NativeFunction(x), Value::NativeFunction(y)) => *x == *y,
        _ => false,
    }
}

/// Decide whether two string slices hold the same characters.
pub fn str_eq(x: &str, y: &str) -> (r: bool)
    ensures
        r == (x@ == y@),
{
    let xn = x.unicode_len();
    let yn = y.unicode_len();
    if xn != yn {
        return false;
    }
    let mut i: usize = 0;
    while i < xn
        invariant
            0 <= i <= xn,
            xn == x@.len(),
            yn == y@.len(),
            xn == yn,
            forall|j: int| 0 <= j < i ==> x@[j] == y@[j],
        decreases xn - i,
    {
        if x.get_char(i) != y.get_char(i) {
            return false;
        }
        i = i + 1;
    }
    proof {
        assert(x@ =~= y@);
    }
    true
}

/// The outcome of the single ordering the sort built-in uses.
#[derive(Clone, Copy, PartialEq, Eq, Structural, Debug)]
pub enum Rank {
    Less,
    Equal,
    Greater,
}

/// Lexicographic order of two character sequences, by code point.
pub open spec fn lex_rank(x: Seq<char>, y: Seq<char>) -> Rank
    decreases x.len(),
{
    if x.len() == 0 && y.len() == 0 {
        Rank::Equal
    } else if x.len() == 0 {
        Rank::Less
    } else if y.len() == 0 {
        Rank::Greater
    } else if (x[0] as u32) != (y[0] as u32) {
        if (x[0] as u32) < (y[0] as u32) {
            Rank::Less
        } else {
            Rank::Greater
        }
    } else {
        lex_rank(x.drop_first(), y.drop_first())
    }
}

/// The single ordering used by sort: numeric on two numbers with
/// not-a-number ranking equal, lexicographic on two strings, and "equal"
/// for any other pairing, so sorting never fails.
#[verifier::opaque]
pub open spec fn cmp_val(a: Value, b: Value) -> Rank {
    match (a, b) {
        (Value::Number(x), Value::Number(y)) => if lt_bits(x, y) {
            Rank::Less
        } else if lt_bits(y, x) {
            Rank::Greater
        } else {
            Rank::Equal
        },
        (Value::Str(x), Value::Str(y)) => lex_rank(x@, y@),
        _ => Rank::Equal,
    }
}

/// Decide the ordering of two values.
pub fn cmp_value(a: &Value, b: &Value) -> (r: Rank)
    ensures
        r == cmp_val(*a, *b),
{
    proof {
        reveal(cmp_val);
    }
    match (a, b) {
        (Value::Number(x), Value::Number(y)) => {
            if num_lt(*x, *y) {
                Rank::Less
            } else if num_lt(*y, *x) {
                Rank::Greater
            } else {
                Rank::Equal
            }
        },
        (Value::Str(x), Value::Str(y)) => lex_compare(x.as_str(), y.as_str()),
        _ => Rank::Equal,
    }
}

fn lex_compare(x: &str, y: &str) -> (r: Rank)
    ensures
        r == lex_rank(x@, y@),
{
    let xn = x.unicode_len();
    let yn = y.unicode_len();
    let mut i: usize = 0;
    proof {
        assert(x@.skip(0) =~= x@);
        assert(y@.skip(0) =~= y@);
    }
    loop
        invariant
            0 <= i <= xn,
            i <= yn,
            xn == x@.len(),
            yn == y@.len(),
            lex_rank(x@.skip(i as int), y@.skip(i as int)) == lex_rank(x@, y@),
        decreases xn - i,
    {
        if i == xn && i == yn {
            return Rank::Equal;
        }
        if i == xn {
            return Rank::Less;
        }
        if i == yn {
            return Rank::Greater;
        }
        let cx = x.get_char(i);
        let cy = y.get_char(i);
        if (cx as u32) != (cy as u32) {
            if (cx as u32) < (cy as u32) {
                return Rank::Less;
            }
            return Rank::Greater;
        }
        proof {
            assert(x@.skip(i as int).drop_first() =~= x@.skip(i + 1));
            assert(y@.skip(i as int).drop_first() =~= y@.skip(i + 1));
        }
        i = i + 1;
    }
}

/// The ordering is antisymmetric: seen from the other side, "less"
/// becomes "greater" and nothing else changes.
pub proof fn lemma_cmp_flip(a: Value, b: Value)
    ensures
        cmp_val(a, b) == Rank::Less <==> cmp_val(b, a) == Rank::Greater,
        cmp_val(a, b) == Rank::Greater <==> cmp_val(b, a) == Rank::Less,
        cmp_val(a, b) == Rank::Equal <==> cmp_val(b, a) == Rank::Equal,
{
    reveal(cmp_val);
    match (a, b) {
        (Value::Str(x), Value::Str(y)) => {
            lemma_lex_flip(x@, y@);
        },
        _ => {},
    }
}

proof fn lemma_lex_flip(x: Seq<char>, y: Seq<char>)
    ensures
        lex_rank(x, y) == Rank::Less <==> lex_rank(y, x) == Rank::Greater,
        lex_rank(x, y) == Rank::Greater <==> lex_rank(y, x) == Rank::Less,
        lex_rank(x, y) == Rank::Equal <==> lex_rank(y, x) == Rank::Equal,
    decreases x.len(),
{
    if x.len() != 0 && y.len() != 0 && (x[0] as u32) == (y[0] as u32) {
        lemma_lex_flip(x.drop_first(), y.drop_first());
    }
}

} // verus!
