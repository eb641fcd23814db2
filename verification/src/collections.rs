//! The collection built-ins: the list utilities of the language.
//!
//! Each follows the bridge discipline: the argument count is checked first,
//! the argument variants second, and only then is the work done. The
//! higher-order built-ins (map, filter, reduce, find, any, all) validate
//! their arguments and then answer an error: running a user function value
//! takes the evaluator, which this core only describes. The family is
//! packaged twice — flattened into the registry, and as a module object —
//! and both carry the very same function tags.
use vstd::prelude::*;

use crate::bridge::{fail, failed_with, succeed, HostCall, Outcome, Pending};
use crate::num::{bits_of_int, is_zero_bits, lt_bits, small_int_of, whole_mag, EXP_BIAS, FRAC_UNIT, MANT_LIMIT};
use crate::num::{num_lt, num_of_int, num_small_int};
use crate::symbol_table::SymbolTable;
use crate::value::{cmp_val, cmp_value, eq_val, eq_value, lemma_cmp_flip, NativeFn, Rank, Value};


verus! {

/// Some element of the sequence equals `v` under the language's equality.
pub open spec fn contains_eq(s: Seq<Value>, v: Value) -> bool {
    exists|i: int| 0 <= i < s.len() && eq_val(s[i], v)
}

/// The elements of `s` that are not already present, appended in order to
/// the accumulator: the meaning of keeping first occurrences.
pub open spec fn uniq_acc(s: Seq<Value>, acc: Seq<Value>) -> Seq<Value>
    decreases s.len(),
{
    if s.len() == 0 {
        acc
    } else if contains_eq(acc, s[0]) {
        uniq_acc(s.drop_first(), acc)
    } else {
        uniq_acc(s.drop_first(), acc.push(s[0]))
    }
}

/// The sequence with later duplicates dropped, first occurrences kept in order.
pub open spec fn first_occurrences(s: Seq<Value>) -> Seq<Value> {
    uniq_acc(s, Seq::empty())
}

/// One level of flattening: a list element contributes its own elements, any
/// other element contributes itself; deeper lists stay as they are.
pub open spec fn flatten_one(s: Seq<Value>) -> Seq<Value>
    decreases s.len(),
{
    if s.len() == 0 {
        Seq::empty()
    } else {
        (match s[0] {
            Value::List(inner) => inner@,
            other => seq![other],
        }) + flatten_one(s.drop_first())
    }
}

/// Every adjacent pair is in order: the left one never ranks greater.
pub open spec fn sorted_adj(s: Seq<Value>) -> bool {
    forall|i: int| 0 <= i < s.len() - 1 ==> cmp_val(#[trigger] s[i], s[i + 1]) != Rank::Greater
}

/// How far the counter still has to travel, for termination of generation.
pub open spec fn range_togo(cur: int, end: int, step: int) -> int {
    if step > 0 {
        if cur < end {
            end - cur
        } else {
            0
        }
    } else {
        if cur > end {
            cur - end
        } else {
            0
        }
    }
}

/// The numbers a whole-valued range emits: from `cur`, stepping by `step`,
/// until the exclusive bound `end` is reached or passed.
pub open spec fn range_ints(cur: int, end: int, step: int) -> Seq<Value>
    decreases range_togo(cur, end, step),
{
    if step > 0 && cur < end {
        seq![Value::Number(bits_of_int(cur))] + range_ints(cur + step, end, step)
    } else if step < 0 && cur > end {
        seq![Value::Number(bits_of_int(cur))] + range_ints(cur + step, end, step)
    } else {
        Seq::empty()
    }
}

/// What the reverse built-in answers.
pub open spec fn reverse_post(args: Seq<Value>, o: Outcome) -> bool {
    if args.len() != 1 {
        failed_with(o, "reverse expects 1 argument"@)
    } else {
        match args[0] {
            Value::List(l) => match o {
                Outcome::Done(r) => match r {
                    Result::Ok(v) => match v {
                        Value::List(out) => out@.len() == l@.len() && (forall|i: int|
                            0 <= i < l@.len() ==> #[trigger] out@[i] == l@[l@.len() - 1 - i]),
                        _ => false,
                    },
                    Result::Err(_) => false,
                },
                Outcome::Host(_, _) => false,
            },
            _ => failed_with(o, "reverse expects a list"@),
        }
    }
}

/// Reverse a list.
#[verifier::loop_isolation(false)]
pub(crate) fn run_reverse(args: Vec<Value>) -> (o: Outcome)
    ensures
        reverse_post(args@, o),
{
    let mut args = args;
    if args.len() != 1 {
        return fail("reverse expects 1 argument");
    }
    match args.remove(0) {
        Value::List(l) => {
            let ghost l0 = l@;
            let mut l = l;
            let mut out: Vec<Value> = Vec::new();
            while l.len() > 0
                invariant
                    out@.len() + l@.len() == l0.len(),
                    l@ == l0.take(l@.len() as int),
                    forall|i: int| 0 <= i < out@.len() ==> #[trigger] out@[i] == l0[l0.len() - 1
                        - i],
                decreases l@.len(),
            {
                let ghost before = l@;
                let x = l.pop().unwrap();
                proof {
                    assert(before.take(before.len() - 1) =~= l0.take(l@.len() as int));
                }
                out.push(x);
            }
            succeed(Value::List(out))
        },
        _ => fail("reverse expects a list"),
    }
}

/// What the unique built-in answers.
pub open spec fn unique_post(args: Seq<Value>, o: Outcome) -> bool {
    if args.len() != 1 {
        failed_with(o, "unique expects 1 argument"@)
    } else {
        match args[0] {
            Value::List(l) => match o {
                Outcome::Done(r) => match r {
                    Result::Ok(v) => match v {
                        Value::List(out) => out@ == first_occurrences(l@),
                        _ => false,
                    },
                    Result::Err(_) => false,
                },
                Outcome::Host(_, _) => false,
            },
            _ => failed_with(o, "unique expects a list"@),
        }
    }
}

/// Keep the first occurrence of every element, by the language's equality.
#[verifier::loop_isolation(false)]
pub(crate) fn run_unique(args: Vec<Value>) -> (o: Outcome)
    ensures
        unique_post(args@, o),
{
    let mut args = args;
    if args.len() != 1 {
        return fail("unique expects 1 argument");
    }
    match args.remove(0) {
        Value::List(l) => {
            let ghost l0 = l@;
            let mut l = l;
            let mut out: Vec<Value> = Vec::new();
            while l.len() > 0
                invariant
                    uniq_acc(l@, out@) == uniq_acc(l0, Seq::empty()),
                decreases l@.len(),
            {
                let ghost before = l@;
                let x = l.remove(0);
                let ghost out_b = out@;
                proof {
                    assert(before.remove(0) =~= before.drop_first());
                    assert(x == before[0]);
                }
                let mut seen: bool = false;
                let mut j: usize = 0;
                while j < out.len()
                    invariant
                        0 <= j <= out@.len(),
                        out@ == out_b,
                        seen <==> exists|k: int| 0 <= k < j && eq_val(#[trigger] out@[k], x),
                    decreases out@.len() - j,
                {
                    if eq_value(&out[j], &x) {
                        seen = true;
                    }
                    j = j + 1;
                }
                proof {
                    assert(seen == contains_eq(out_b, before[0]));
                }
                if !seen {
                    out.push(x);
                }
                proof {
                    assert(uniq_acc(l@, out@) == uniq_acc(before, out_b));
                }
            }
            succeed(Value::List(out))
        },
        _ => fail("unique expects a list"),
    }
}

/// What the flatten built-in answers.
pub open spec fn flatten_post(args: Seq<Value>, o: Outcome) -> bool {
    if args.len() != 1 {
        failed_with(o, "flatten expects 1 argument"@)
    } else {
        match args[0] {
            Value::List(l) => match o {
                Outcome::Done(r) => match r {
                    Result::Ok(v) => match v {
                        Value::List(out) => out@ == flatten_one(l@),
                        _ => false,
                    },
                    Result::Err(_) => false,
                },
                Outcome::Host(_, _) => false,
            },
            _ => failed_with(o, "flatten expects a list"@),
        }
    }
}

/// Splice the elements of list elements in, one level deep.
#[verifier::loop_isolation(false)]
pub(crate) fn run_flatten(args: Vec<Value>) -> (o: Outcome)
    ensures
        flatten_post(args@, o),
{
    let mut args = args;
    if args.len() != 1 {
        return fail("flatten expects 1 argument");
    }
    match args.remove(0) {
        Value::List(l) => {
            let ghost l0 = l@;
            let mut l = l;
            let mut out: Vec<Value> = Vec::new();
            while l.len() > 0
                invariant
                    out@ + flatten_one(l@) == flatten_one(l0),
                decreases l@.len(),
            {
                let ghost before = l@;
                let x = l.remove(0);
                proof {
                    assert(before.remove(0) =~= before.drop_first());
                }
                match x {
                    Value::List(inner) => {
                        let ghost in0 = inner@;
                        let mut inner = inner;
                        while inner.len() > 0
                            invariant
                                out@ + inner@ + flatten_one(l@) == flatten_one(l0),
                            decreases inner@.len(),
                        {
                            let ghost ib = inner@;
                            let y = inner.remove(0);
                            proof {
                                assert(ib.remove(0) =~= ib.drop_first());
                                assert(out@.push(y) + ib.drop_first() =~= out@ + ib);
                            }
                            out.push(y);
                        }
                        proof {
                            assert(out@ + inner@ =~= out@);
                        }
                    },
                    other => {
                        proof {
                            assert(out@.push(other) + flatten_one(l@) =~= out@ + (seq![other]
                                + flatten_one(l@)));
                        }
                        out.push(other);
                    },
                }
            }
            proof {
                assert(out@ + flatten_one(l@) =~= out@);
            }
            succeed(Value::List(out))
        },
        _ => fail("flatten expects a list"),
    }
}

/// The output holds the input's elements at the origins `p`: the origins are
/// a permutation of the positions, every output element is the input element
/// at its origin, and the sort is stable — any two output elements that rank
/// equal keep the relative order their origins had.
pub open spec fn stable_arrangement(orig: Seq<Value>, out: Seq<Value>, p: Seq<int>) -> bool {
    &&& out.len() == orig.len()
    &&& p.len() == out.len()
    &&& forall|k: int| 0 <= k < p.len() ==> 0 <= #[trigger] p[k] < orig.len()
    &&& forall|k1: int, k2: int|
        #![trigger p[k1], p[k2]]
        0 <= k1 < k2 < p.len() ==> p[k1] != p[k2]
    &&& forall|k: int| 0 <= k < out.len() ==> #[trigger] out[k] == orig[p[k]]
    &&& forall|k1: int, k2: int|
        #![trigger p[k1], p[k2]]
        0 <= k1 < k2 < out.len() && cmp_val(out[k1], out[k2]) == Rank::Equal ==> p[k1] < p[k2]
}

/// The sorting loop's ledger: origins tracked as in a stable arrangement,
/// but with the stability demand only on the sorted prefix below `i`, and
/// everything from `i` on still sitting at its own origin.
pub open spec fn sort_tracking(orig: Seq<Value>, l: Seq<Value>, p: Seq<int>, i: int) -> bool {
    &&& l.len() == orig.len()
    &&& p.len() == l.len()
    &&& forall|k: int| 0 <= k < p.len() ==> 0 <= #[trigger] p[k] < orig.len()
    &&& forall|k1: int, k2: int|
        #![trigger p[k1], p[k2]]
        0 <= k1 < k2 < p.len() ==> p[k1] != p[k2]
    &&& forall|k: int| 0 <= k < l.len() ==> #[trigger] l[k] == orig[p[k]]
    &&& forall|k: int| i <= k < l.len() ==> #[trigger] p[k] == k
    &&& forall|k1: int, k2: int|
        #![trigger p[k1], p[k2]]
        0 <= k1 < k2 < i && cmp_val(l[k1], l[k2]) == Rank::Equal ==> p[k1] < p[k2]
}

/// What the sort built-in answers: a stable reordering of the very same
/// elements in which no element ranks greater than its right neighbour.
/// Mixed pairings rank "equal", so sorting never fails, whatever the list
/// holds, and such pairs keep their relative order.
pub open spec fn sort_post(args: Seq<Value>, o: Outcome) -> bool {
    if args.len() != 1 {
        failed_with(o, "sort expects 1 argument"@)
    } else {
        match args[0] {
            Value::List(l) => match o {
                Outcome::Done(r) => match r {
                    Result::Ok(v) => match v {
                        Value::List(out) => out@.to_multiset() == l@.to_multiset() && sorted_adj(
                            out@,
                        ) && (exists|p: Seq<int>| stable_arrangement(l@, out@, p)),
                        _ => false,
                    },
                    Result::Err(_) => false,
                },
                Outcome::Host(_, _) => false,
            },
            _ => failed_with(o, "sort expects a list"@),
        }
    }
}

proof fn lemma_remove_insert_multiset(lb: Seq<Value>, x: Value, i: int, j: int)
    requires
        0 <= j <= i < lb.len(),
        x == lb[i],
    ensures
        lb.remove(i).insert(j, x).to_multiset() == lb.to_multiset(),
{
    broadcast use vstd::seq_lib::group_to_multiset_ensures;

    let lm = lb.remove(i);
    assert(lb.contains(lb[i]));
    assert(lb.remove(i).to_multiset() == lb.to_multiset().remove(lb[i]));
    assert(lm.insert(j, x).to_multiset() == lm.to_multiset().insert(x));
    assert(lm.insert(j, x).to_multiset() =~= lb.to_multiset());
}

#[verifier::rlimit(100)]
#[verifier::spinoff_prover]
proof fn lemma_insert_keeps_order(lb: Seq<Value>, x: Value, i: int, j: int)
    requires
        0 <= j <= i < lb.len(),
        x == lb[i],
        sorted_adj(lb.take(i)),
        forall|k: int| j <= k < i ==> cmp_val(#[trigger] lb.remove(i)[k], x) == Rank::Greater,
        j > 0 ==> cmp_val(lb.remove(i)[j - 1], x) != Rank::Greater,
    ensures
        sorted_adj(lb.remove(i).insert(j, x).take(i + 1)),
        lb.remove(i).insert(j, x).to_multiset() == lb.to_multiset(),
{
    lemma_remove_insert_multiset(lb, x, i, j);
    let lm = lb.remove(i);
    let lf = lm.insert(j, x);
    let s = lf.take(i + 1);
    assert forall|k: int| 0 <= k < j implies #[trigger] s[k] == lb[k] by {
        assert(s[k] == lm[k]);
        assert(lm[k] == lb[k]);
    }
    assert(s[j] == x);
    assert forall|k: int| j < k <= i implies #[trigger] s[k] == lb[k - 1] by {
        assert(s[k] == lm[k - 1]);
        assert(lm[k - 1] == lb[k - 1]);
    }
    if j < i {
        lemma_cmp_flip(lb[j], x);
        assert(cmp_val(lm[j], x) == Rank::Greater);
        assert(lm[j] == lb[j]);
    }
    assert forall|k: int| 0 <= k < i implies cmp_val(#[trigger] s[k], s[k + 1])
        != Rank::Greater by {
        let p = lb.take(i);
        if k + 1 < j {
            assert(s[k] == lb[k] && s[k + 1] == lb[k + 1]);
            assert(p[k] == lb[k] && p[k + 1] == lb[k + 1]);
            assert(cmp_val(p[k], p[k + 1]) != Rank::Greater);
        } else if k + 1 == j {
            assert(s[k] == lb[k] && s[k + 1] == x);
            assert(lm[k] == lb[k]);
        } else if k == j {
            assert(s[k] == x && s[k + 1] == lb[k]);
            assert(lm[k] == lb[k]);
        } else {
            assert(s[k] == lb[k - 1] && s[k + 1] == lb[k]);
            assert(p[k - 1] == lb[k - 1] && p[k] == lb[k]);
            assert(cmp_val(p[k - 1], p[k]) != Rank::Greater);
        }
    }
    assert(sorted_adj(s));
}

/// Everything already sorted originates below `i`: an origin at or above
/// `i` would still sit at itself, clashing with the one that moved.
proof fn lemma_prefix_origins_low(orig: Seq<Value>, l: Seq<Value>, p: Seq<int>, i: int)
    requires
        sort_tracking(orig, l, p, i),
        0 <= i < l.len(),
    ensures
        forall|k: int| 0 <= k < i ==> #[trigger] p[k] < i,
{
    assert forall|k: int| 0 <= k < i implies #[trigger] p[k] < i by {
        if p[k] >= i {
            assert(p[p[k]] == p[k]);
            assert(false);
        }
    }
}

#[verifier::rlimit(100)]
#[verifier::spinoff_prover]
proof fn lemma_insert_keeps_stability(
    orig: Seq<Value>,
    lb: Seq<Value>,
    idx: Seq<int>,
    x: Value,
    i: int,
    j: int,
)
    requires
        sort_tracking(orig, lb, idx, i),
        0 <= j <= i < lb.len(),
        x == lb[i],
        forall|k: int| j <= k < i ==> cmp_val(#[trigger] lb.remove(i)[k], x) == Rank::Greater,
    ensures
        sort_tracking(orig, lb.remove(i).insert(j, x), idx.remove(i).insert(j, i), i + 1),
{
    lemma_prefix_origins_low(orig, lb, idx, i);
    let lf = lb.remove(i).insert(j, x);
    let np = idx.remove(i).insert(j, i);
    assert(lf.len() == lb.len());
    assert(np.len() == idx.len());
    assert forall|k: int| 0 <= k < j implies #[trigger] lf[k] == lb[k] && #[trigger] np[k]
        == idx[k] by {
        assert(lf[k] == lb.remove(i)[k]);
        assert(np[k] == idx.remove(i)[k]);
    }
    assert(lf[j] == x && np[j] == i);
    assert forall|k: int| j < k <= i implies #[trigger] lf[k] == lb[k - 1] && #[trigger] np[k]
        == idx[k - 1] by {
        assert(lf[k] == lb.remove(i)[k - 1]);
        assert(np[k] == idx.remove(i)[k - 1]);
    }
    assert forall|k: int| i < k < lf.len() implies #[trigger] lf[k] == lb[k] && #[trigger] np[k]
        == idx[k] by {
        assert(lf[k] == lb.remove(i)[k - 1]);
        assert(np[k] == idx.remove(i)[k - 1]);
    }
    assert(idx[i] == i);
    assert forall|k1: int, k2: int|
        #![trigger np[k1], np[k2]]
        0 <= k1 < k2 < np.len() implies np[k1] != np[k2] by {
        let o1 = if k1 < j {
            k1
        } else if k1 == j {
            i
        } else if k1 <= i {
            k1 - 1
        } else {
            k1
        };
        let o2 = if k2 < j {
            k2
        } else if k2 == j {
            i
        } else if k2 <= i {
            k2 - 1
        } else {
            k2
        };
        assert(np[k1] == idx[o1]);
        assert(np[k2] == idx[o2]);
        assert(o1 != o2);
    }
    assert forall|k1: int, k2: int|
        #![trigger np[k1], np[k2]]
        0 <= k1 < k2 < i + 1 && cmp_val(lf[k1], lf[k2]) == Rank::Equal implies np[k1]
        < np[k2] by {
        if k2 < j {
            assert(cmp_val(lb[k1], lb[k2]) == Rank::Equal);
        } else if k2 == j {
            assert(lf[k1] == lb[k1] && np[k1] == idx[k1]);
            assert(np[k1] < i);
        } else if k1 == j {
            lemma_cmp_flip(lb[k2 - 1], x);
            assert(cmp_val(lb.remove(i)[k2 - 1], x) == Rank::Greater);
            assert(lb.remove(i)[k2 - 1] == lb[k2 - 1]);
        } else if k1 < j {
            assert(cmp_val(lb[k1], lb[k2 - 1]) == Rank::Equal);
        } else {
            assert(cmp_val(lb[k1 - 1], lb[k2 - 1]) == Rank::Equal);
        }
    }
}

/// Sort a list by the single ordering, by insertion.
#[verifier::loop_isolation(false)]
#[verifier::rlimit(100)]
pub(crate) fn run_sort(args: Vec<Value>) -> (o: Outcome)
    ensures
        sort_post(args@, o),
{
    let mut args = args;
    if args.len() != 1 {
        return fail("sort expects 1 argument");
    }
    match args.remove(0) {
        Value::List(l) => {
            let ghost l0 = l@;
            let mut l = l;
            let ghost mut idx: Seq<int> = Seq::new(l@.len(), |k: int| k);
            if l.len() <= 1 {
                proof {
                    assert(stable_arrangement(l0, l@, idx));
                }
                return succeed(Value::List(l));
            }
            let mut i: usize = 1;
            while i < l.len()
                invariant
                    1 <= i <= l@.len(),
                    l@.len() == l0.len(),
                    l@.to_multiset() == l0.to_multiset(),
                    sorted_adj(l@.take(i as int)),
                    sort_tracking(l0, l@, idx, i as int),
                decreases l@.len() - i,
            {
                let ghost lb = l@;
                let ghost idxb = idx;
                let x = l.remove(i);
                let ghost lm = l@;
                let mut j: usize = i;
                while j > 0 && cmp_value(&l[j - 1], &x) == Rank::Greater
                    invariant
                        0 <= j <= i,
                        l@ == lm,
                        forall|k: int| j <= k < i ==> cmp_val(#[trigger] lm[k], x)
                            == Rank::Greater,
                    decreases j,
                {
                    j = j - 1;
                }
                l.insert(j, x);
                proof {
                    lemma_insert_keeps_order(lb, x, i as int, j as int);
                    lemma_insert_keeps_stability(l0, lb, idxb, x, i as int, j as int);
                    idx = idxb.remove(i as int).insert(j as int, i as int);
                }
                i = i + 1;
            }
            proof {
                assert(l@.take(l@.len() as int) =~= l@);
                assert(stable_arrangement(l0, l@, idx));
            }
            succeed(Value::List(l))
        },
        _ => fail("sort expects a list"),
    }
}

/// The bit patterns of the three range operands, defaults filled in,
/// provided every given argument is a number.
pub open spec fn range_args(args: Seq<Value>) -> Option<(u64, u64, u64)> {
    if args.len() == 1 {
        match args[0] {
            Value::Number(e) => Some((bits_of_int(0), e, bits_of_int(1))),
            _ => None,
        }
    } else if args.len() == 2 {
        match (args[0], args[1]) {
            (Value::Number(s), Value::Number(e)) => Some((s, e, bits_of_int(1))),
            _ => None,
        }
    } else {
        match (args[0], args[1], args[2]) {
            (Value::Number(s), Value::Number(e), Value::Number(t)) => Some((s, e, t)),
            _ => None,
        }
    }
}

/// The three operands each encode a whole number below `2^52` in magnitude.
pub open spec fn range_whole(s: u64, e: u64, t: u64) -> bool {
    small_int_of(s) is Some && small_int_of(e) is Some && small_int_of(t) is Some
}

/// What the range built-in answers. With whole-valued operands the list is
/// generated here and is exactly `range_ints`; with any other double the
/// stepping arithmetic is the host's, and only a crossed bound ever reaches
/// it: an uncrossed bound answers the empty list at once, whatever the step.
pub open spec fn range_post(args: Seq<Value>, o: Outcome) -> bool {
    if args.len() < 1 || args.len() > 3 {
        failed_with(o, "range expects 1, 2 or 3 arguments"@)
    } else {
        match range_args(args) {
            Option::None => failed_with(o, "range expects numbers"@),
            Option::Some(ops) => {
                let s = ops.0;
                let e = ops.1;
                let t = ops.2;
                if is_zero_bits(t) {
                    failed_with(o, "the range step cannot be zero"@)
                } else if range_whole(s, e, t) {
                    answers_list(o, range_ints(small_int_of(s)->0, small_int_of(e)->0, small_int_of(t)->0))
                } else if lt_bits(bits_of_int(0), t) {
                    if lt_bits(s, e) {
                        o == Outcome::Host(HostCall::RangeFloat(s, e, t), Pending::WrapRange)
                    } else {
                        answers_list(o, Seq::empty())
                    }
                } else {
                    if lt_bits(e, s) {
                        o == Outcome::Host(HostCall::RangeFloat(s, e, t), Pending::WrapRange)
                    } else {
                        answers_list(o, Seq::empty())
                    }
                }
            },
        }
    }
}

/// The outcome is a finished list holding exactly these elements.
pub open spec fn answers_list(o: Outcome, items: Seq<Value>) -> bool {
    match o {
        Outcome::Done(r) => match r {
            Result::Ok(v) => match v {
                Value::List(out) => out@ == items,
                _ => false,
            },
            Result::Err(_) => false,
        },
        Outcome::Host(_, _) => false,
    }
}

proof fn lemma_whole_mag_ge_one(m: u64, k: nat)
    requires
        whole_mag(m, k) is Some,
        m >= 1,
    ensures
        whole_mag(m, k)->0 >= 1,
    decreases k,
{
    if k > 0 && m % 2 == 0 {
        lemma_whole_mag_ge_one(m / 2, (k - 1) as nat);
    }
}

/// Only the all-clear pattern encodes the whole number zero.
pub proof fn lemma_small_int_zero(b: u64)
    requires
        small_int_of(b) == Some(0int),
    ensures
        b == 0,
{
    if b != 0 {
        let e = crate::num::exp_field(b);
        if EXP_BIAS <= e < crate::num::EXP_OF_MANTISSA {
            let m = (FRAC_UNIT + crate::num::frac_field(b)) as u64;
            let k = (crate::num::EXP_OF_MANTISSA - e) as nat;
            if whole_mag(m, k) is Some {
                lemma_whole_mag_ge_one(m, k);
            }
        }
    }
}

/// Generate the numbers of a whole-valued range.
#[verifier::loop_isolation(false)]
fn gen_range_whole(sv: i64, ev: i64, tv: i64) -> (out: Vec<Value>)
    requires
        -(FRAC_UNIT as int) < sv < FRAC_UNIT as int,
        -(FRAC_UNIT as int) < ev < FRAC_UNIT as int,
        -(FRAC_UNIT as int) < tv < FRAC_UNIT as int,
        tv != 0,
    ensures
        out@ == range_ints(sv as int, ev as int, tv as int),
{
    let mut out: Vec<Value> = Vec::new();
    let mut cur: i64 = sv;
    if tv > 0 {
        while cur < ev
            invariant
                -(MANT_LIMIT as int) < cur < MANT_LIMIT as int,
                out@ + range_ints(cur as int, ev as int, tv as int) == range_ints(
                    sv as int,
                    ev as int,
                    tv as int,
                ),
            decreases range_togo(cur as int, ev as int, tv as int),
        {
            let ghost ob = out@;
            out.push(Value::Number(num_of_int(cur)));
            proof {
                assert(ob.push(Value::Number(bits_of_int(cur as int))) + range_ints(
                    cur + tv,
                    ev as int,
                    tv as int,
                ) =~= ob + range_ints(cur as int, ev as int, tv as int));
            }
            cur = cur + tv;
        }
    } else {
        while cur > ev
            invariant
                -(MANT_LIMIT as int) < cur < MANT_LIMIT as int,
                out@ + range_ints(cur as int, ev as int, tv as int) == range_ints(
                    sv as int,
                    ev as int,
                    tv as int,
                ),
            decreases range_togo(cur as int, ev as int, tv as int),
        {
            let ghost ob = out@;
            out.push(Value::Number(num_of_int(cur)));
            proof {
                assert(ob.push(Value::Number(bits_of_int(cur as int))) + range_ints(
                    cur + tv,
                    ev as int,
                    tv as int,
                ) =~= ob + range_ints(cur as int, ev as int, tv as int));
            }
            cur = cur + tv;
        }
    }
    proof {
        assert(out@ + range_ints(cur as int, ev as int, tv as int) =~= out@);
    }
    out
}

/// Generate a counting list: from the start, stepping by the step, while
/// the exclusive bound lies ahead. A whole-valued range is generated here;
/// any other double is stepped by the host.
#[verifier::loop_isolation(false)]
pub(crate) fn run_range(args: Vec<Value>) -> (o: Outcome)
    ensures
        range_post(args@, o),
{
    if args.len() < 1 || args.len() > 3 {
        return fail("range expects 1, 2 or 3 arguments");
    }
    let zero_bits = num_of_int(0);
    let one_bits = num_of_int(1);
    let (start_b, end_b, step_b): (u64, u64, u64) = if args.len() == 1 {
        match &args[0] {
            Value::Number(e) => (zero_bits, *e, one_bits),
            _ => {
                return fail("range expects numbers");
            },
        }
    } else if args.len() == 2 {
        match (&args[0], &args[1]) {
            (Value::Number(s), Value::Number(e)) => (*s, *e, one_bits),
            _ => {
                return fail("range expects numbers");
            },
        }
    } else {
        match (&args[0], &args[1], &args[2]) {
            (Value::Number(s), Value::Number(e), Value::Number(t)) => (*s, *e, *t),
            _ => {
                return fail("range expects numbers");
            },
        }
    };
    if crate::num::num_is_zero(step_b) {
        return fail("the range step cannot be zero");
    }
    match (num_small_int(start_b), num_small_int(end_b), num_small_int(step_b)) {
        (Some(sv), Some(ev), Some(tv)) => {
            proof {
                if tv == 0 {
                    lemma_small_int_zero(step_b);
                }
            }
            let out = gen_range_whole(sv, ev, tv);
            succeed(Value::List(out))
        },
        _ => {
            if num_lt(zero_bits, step_b) {
                if num_lt(start_b, end_b) {
                    Outcome::Host(HostCall::RangeFloat(start_b, end_b, step_b), Pending::WrapRange)
                } else {
                    succeed(Value::List(Vec::new()))
                }
            } else {
                if num_lt(end_b, start_b) {
                    Outcome::Host(HostCall::RangeFloat(start_b, end_b, step_b), Pending::WrapRange)
                } else {
                    succeed(Value::List(Vec::new()))
                }
            }
        },
    }
}

/// A whole-valued range whose bound is not ahead of the start, in the
/// step's direction, is empty — whatever the nonzero step is.
pub proof fn lemma_range_whole_uncrossed_empty(sv: int, ev: int, tv: int)
    requires
        tv > 0 ==> sv >= ev,
        tv < 0 ==> sv <= ev,
    ensures
        range_ints(sv, ev, tv) == Seq::<Value>::empty(),
{
}

/// The error message for a higher-order built-in called with a wrong count.
pub open spec fn hof_arity_msg(f: NativeFn) -> Seq<char> {
    match f {
        NativeFn::MapList => "map expects 2 arguments"@,
        NativeFn::FilterList => "filter expects 2 arguments"@,
        NativeFn::ReduceList => "reduce expects at least 2 arguments"@,
        NativeFn::FindList => "find expects 2 arguments"@,
        NativeFn::AnyList => "any expects 2 arguments"@,
        _ => "all expects 2 arguments"@,
    }
}

/// The error message for a higher-order built-in with wrong argument shapes.
pub open spec fn hof_type_msg(f: NativeFn) -> Seq<char> {
    match f {
        NativeFn::MapList => "map expects a list and a function"@,
        NativeFn::FilterList => "filter expects a list and a function"@,
        NativeFn::ReduceList => "reduce expects a list and a function"@,
        NativeFn::FindList => "find expects a list and a function"@,
        NativeFn::AnyList => "any expects a list and a function"@,
        _ => "all expects a list and a function"@,
    }
}

/// The answer of a well-formed higher-order call: these built-ins must run a
/// user function value once per element, which takes the evaluator; sooner
/// than hand back a plausible wrong value, they answer this error.
pub open spec fn hof_unimplemented_msg(f: NativeFn) -> Seq<char> {
    match f {
        NativeFn::MapList => "map is not implemented: it needs the evaluator to call the function"@,
        NativeFn::FilterList => "filter is not implemented: it needs the evaluator to call the function"@,
        NativeFn::ReduceList => "reduce is not implemented: it needs the evaluator to call the function"@,
        NativeFn::FindList => "find is not implemented: it needs the evaluator to call the function"@,
        NativeFn::AnyList => "any is not implemented: it needs the evaluator to call the function"@,
        _ => "all is not implemented: it needs the evaluator to call the function"@,
    }
}

/// Whether the argument count suits the higher-order built-in: reduce takes
/// a function, a list and any further operands; the others exactly two.
pub open spec fn hof_arity_ok(f: NativeFn, n: int) -> bool {
    if f == NativeFn::ReduceList {
        n >= 2
    } else {
        n == 2
    }
}

/// What a higher-order built-in answers: always an error, but which one
/// follows the two-phase validation discipline.
pub open spec fn hof_post(f: NativeFn, args: Seq<Value>, o: Outcome) -> bool {
    if !hof_arity_ok(f, args.len() as int) {
        failed_with(o, hof_arity_msg(f))
    } else {
        match (args[0], args[1]) {
            (Value::List(_), Value::Function(_)) => failed_with(o, hof_unimplemented_msg(f)),
            _ => failed_with(o, hof_type_msg(f)),
        }
    }
}

/// Validate a higher-order call, then answer its declared error.
pub(crate) fn run_callback_builtin(f: NativeFn, args: Vec<Value>) -> (o: Outcome)
    requires
        f == NativeFn::MapList || f == NativeFn::FilterList || f == NativeFn::ReduceList || f
            == NativeFn::FindList || f == NativeFn::AnyList || f == NativeFn::AllList,
    ensures
        hof_post(f, args@, o),
{
    let arity_ok = if matches!(f, NativeFn::ReduceList) {
        args.len() >= 2
    } else {
        args.len() == 2
    };
    if !arity_ok {
        return match f {
            NativeFn::MapList => fail("map expects 2 arguments"),
            NativeFn::FilterList => fail("filter expects 2 arguments"),
            NativeFn::ReduceList => fail("reduce expects at least 2 arguments"),
            NativeFn::FindList => fail("find expects 2 arguments"),
            NativeFn::AnyList => fail("any expects 2 arguments"),
            _ => fail("all expects 2 arguments"),
        };
    }
    match (&args[0], &args[1]) {
        (Value::List(_), Value::Function(_)) => match f {
            NativeFn::MapList => fail(
                "map is not implemented: it needs the evaluator to call the function",
            ),
            NativeFn::FilterList => fail(
                "filter is not implemented: it needs the evaluator to call the function",
            ),
            NativeFn::ReduceList => fail(
                "reduce is not implemented: it needs the evaluator to call the function",
            ),
            NativeFn::FindList => fail(
                "find is not implemented: it needs the evaluator to call the function",
            ),
            NativeFn::AnyList => fail(
                "any is not implemented: it needs the evaluator to call the function",
            ),
            _ => fail("all is not implemented: it needs the evaluator to call the function"),
        },
        _ => match f {
            NativeFn::MapList => fail("map expects a list and a function"),
            NativeFn::FilterList => fail("filter expects a list and a function"),
            NativeFn::ReduceList => fail("reduce expects a list and a function"),
            NativeFn::FindList => fail("find expects a list and a function"),
            NativeFn::AnyList => fail("any expects a list and a function"),
            _ => fail("all expects a list and a function"),
        },
    }
}

/// The dictionary has this function bound under this name at this entry.
pub open spec fn module_binds(d: Seq<(Value, Value)>, i: int, name: Seq<char>, f: NativeFn) -> bool {
    &&& 0 <= i < d.len()
    &&& match d[i].0 {
        Value::Str(s) => s@ == name,
        _ => false,
    }
    &&& d[i].1 == Value::NativeFunction(f)
}

/// Build the collections module object: a dictionary from exported names to
/// the family's functions, importable and assignable like any other value.
/// It carries the very same function tags that `register` installs, so the
/// two packagings cannot diverge in behaviour.
pub fn create_module() -> (r: Value)
    ensures
        match r {
            Value::Dict(d) => {
                &&& d@.len() == 11
                &&& module_binds(d@, 0, "map"@, NativeFn::MapList)
                &&& module_binds(d@, 1, "filter"@, NativeFn::FilterList)
                &&& module_binds(d@, 2, "reduce"@, NativeFn::ReduceList)
                &&& module_binds(d@, 3, "find"@, NativeFn::FindList)
                &&& module_binds(d@, 4, "any"@, NativeFn::AnyList)
                &&& module_binds(d@, 5, "all"@, NativeFn::AllList)
                &&& module_binds(d@, 6, "reverse"@, NativeFn::ReverseList)
                &&& module_binds(d@, 7, "sort"@, NativeFn::SortList)
                &&& module_binds(d@, 8, "unique"@, NativeFn::UniqueList)
                &&& module_binds(d@, 9, "flatten"@, NativeFn::FlattenList)
                &&& module_binds(d@, 10, "range"@, NativeFn::RangeList)
            },
            _ => false,
        },
{
    let mut d: Vec<(Value, Value)> = Vec::new();
    d.push((Value::Str("map".to_owned()), Value::NativeFunction(NativeFn::MapList)));
    d.push((Value::Str("filter".to_owned()), Value::NativeFunction(NativeFn::FilterList)));
    d.push((Value::Str("reduce".to_owned()), Value::NativeFunction(NativeFn::ReduceList)));
    d.push((Value::Str("find".to_owned()), Value::NativeFunction(NativeFn::FindList)));
    d.push((Value::Str("any".to_owned()), Value::NativeFunction(NativeFn::AnyList)));
    d.push((Value::Str("all".to_owned()), Value::NativeFunction(NativeFn::AllList)));
    d.push((Value::Str("reverse".to_owned()), Value::NativeFunction(NativeFn::ReverseList)));
    d.push((Value::Str("sort".to_owned()), Value::NativeFunction(NativeFn::SortList)));
    d.push((Value::Str("unique".to_owned()), Value::NativeFunction(NativeFn::UniqueList)));
    d.push((Value::Str("flatten".to_owned()), Value::NativeFunction(NativeFn::FlattenList)));
    d.push((Value::Str("range".to_owned()), Value::NativeFunction(NativeFn::RangeList)));
    Value::Dict(d)
}

/// Install the collections family into the registry, under the same names
/// and tags that the module object exports.
pub fn register(globals: &mut SymbolTable)
    ensures
        final(globals)@ == old(globals)@.insert("map"@, (Value::NativeFunction(NativeFn::MapList), false, true))
            .insert("filter"@, (Value::NativeFunction(NativeFn::FilterList), false, true))
            .insert("reduce"@, (Value::NativeFunction(NativeFn::ReduceList), false, true))
            .insert("find"@, (Value::NativeFunction(NativeFn::FindList), false, true))
            .insert("any"@, (Value::NativeFunction(NativeFn::AnyList), false, true))
            .insert("all"@, (Value::NativeFunction(NativeFn::AllList), false, true))
            .insert("reverse"@, (Value::NativeFunction(NativeFn::ReverseList), false, true))
            .insert("sort"@, (Value::NativeFunction(NativeFn::SortList), false, true))
            .insert("unique"@, (Value::NativeFunction(NativeFn::UniqueList), false, true))
            .insert("flatten"@, (Value::NativeFunction(NativeFn::FlattenList), false, true))
            .insert("range"@, (Value::NativeFunction(NativeFn::RangeList), false, true)),
{
    globals.define_native_function("map", NativeFn::MapList);
    globals.define_native_function("filter", NativeFn::FilterList);
    globals.define_native_function("reduce", NativeFn::ReduceList);
    globals.define_native_function("find", NativeFn::FindList);
    globals.define_native_function("any", NativeFn::AnyList);
    globals.define_native_function("all", NativeFn::AllList);
    globals.define_native_function("reverse", NativeFn::ReverseList);
    globals.define_native_function("sort", NativeFn::SortList);
    globals.define_native_function("unique", NativeFn::UniqueList);
    globals.define_native_function("flatten", NativeFn::FlattenList);
    globals.define_native_function("range", NativeFn::RangeList);
}

/// Packaged as a module or installed in the registry, each exported name is
/// bound to the one function tag: the two packaging styles agree, so calling
/// through a dictionary lookup and through the global binding give the same
/// function, and the bridge's answer is a function of tag and arguments.
pub proof fn lemma_module_matches_registry(
    d: Seq<(Value, Value)>,
    before: Map<Seq<char>, (Value, bool, bool)>,
    after: Map<Seq<char>, (Value, bool, bool)>,
)
    requires
        d.len() == 11,
        module_binds(d, 0, "map"@, NativeFn::MapList),
        module_binds(d, 1, "filter"@, NativeFn::FilterList),
        module_binds(d, 2, "reduce"@, NativeFn::ReduceList),
        module_binds(d, 3, "find"@, NativeFn::FindList),
        module_binds(d, 4, "any"@, NativeFn::AnyList),
        module_binds(d, 5, "all"@, NativeFn::AllList),
        module_binds(d, 6, "reverse"@, NativeFn::ReverseList),
        module_binds(d, 7, "sort"@, NativeFn::SortList),
        module_binds(d, 8, "unique"@, NativeFn::UniqueList),
        module_binds(d, 9, "flatten"@, NativeFn::FlattenList),
        module_binds(d, 10, "range"@, NativeFn::RangeList),
        after == before.insert("map"@, (Value::NativeFunction(NativeFn::MapList), false, true))
            .insert("filter"@, (Value::NativeFunction(NativeFn::FilterList), false, true))
            .insert("reduce"@, (Value::NativeFunction(NativeFn::ReduceList), false, true))
            .insert("find"@, (Value::NativeFunction(NativeFn::FindList), false, true))
            .insert("any"@, (Value::NativeFunction(NativeFn::AnyList), false, true))
            .insert("all"@, (Value::NativeFunction(NativeFn::AllList), false, true))
            .insert("reverse"@, (Value::NativeFunction(NativeFn::ReverseList), false, true))
            .insert("sort"@, (Value::NativeFunction(NativeFn::SortList), false, true))
            .insert("unique"@, (Value::NativeFunction(NativeFn::UniqueList), false, true))
            .insert("flatten"@, (Value::NativeFunction(NativeFn::FlattenList), false, true))
            .insert("range"@, (Value::NativeFunction(NativeFn::RangeList), false, true)),
    ensures
        after.contains_key("map"@) && after["map"@] == (d[0].1, false, true),
        after.contains_key("filter"@) && after["filter"@] == (d[1].1, false, true),
        after.contains_key("reduce"@) && after["reduce"@] == (d[2].1, false, true),
        after.contains_key("find"@) && after["find"@] == (d[3].1, false, true),
        after.contains_key("any"@) && after["any"@] == (d[4].1, false, true),
        after.contains_key("all"@) && after["all"@] == (d[5].1, false, true),
        after.contains_key("reverse"@) && after["reverse"@] == (d[6].1, false, true),
        after.contains_key("sort"@) && after["sort"@] == (d[7].1, false, true),
        after.contains_key("unique"@) && after["unique"@] == (d[8].1, false, true),
        after.contains_key("flatten"@) && after["flatten"@] == (d[9].1, false, true),
        after.contains_key("range"@) && after["range"@] == (d[10].1, false, true),
{
    reveal_strlit("map");
    reveal_strlit("filter");
    reveal_strlit("reduce");
    reveal_strlit("find");
    reveal_strlit("any");
    reveal_strlit("all");
    reveal_strlit("reverse");
    reveal_strlit("sort");
    reveal_strlit("unique");
    reveal_strlit("flatten");
    reveal_strlit("range");
    assert("map"@.len() == 3 && "filter"@.len() == 6 && "reduce"@.len() == 6 && "find"@.len() == 4
        && "any"@.len() == 3 && "all"@.len() == 3 && "reverse"@.len() == 7 && "sort"@.len() == 4
        && "unique"@.len() == 6 && "flatten"@.len() == 7 && "range"@.len() == 5);
    assert("map"@ != "any"@) by {
        assert("map"@[0] != "any"@[0]);
    }
    assert("map"@ != "all"@) by {
        assert("map"@[0] != "all"@[0]);
    }
    assert("any"@ != "all"@) by {
        assert("any"@[1] != "all"@[1]);
    }
    assert("filter"@ != "reduce"@) by {
        assert("filter"@[0] != "reduce"@[0]);
    }
    assert("filter"@ != "unique"@) by {
        assert("filter"@[0] != "unique"@[0]);
    }
    assert("reduce"@ != "unique"@) by {
        assert("reduce"@[0] != "unique"@[0]);
    }
    assert("find"@ != "sort"@) by {
        assert("find"@[0] != "sort"@[0]);
    }
    assert("reverse"@ != "flatten"@) by {
        assert("reverse"@[0] != "flatten"@[0]);
    }
}

/// A range whose bound is not strictly ahead of the start in the step's
/// direction answers the empty list, for any nonzero step: whole-valued
/// operands by the whole numbers' order, any other doubles by the bit-level
/// order, and the two orders agree where both apply.
pub proof fn lemma_range_uncrossed_empty(args: Seq<Value>, o: Outcome, s: u64, e: u64, t: u64)
    requires
        1 <= args.len() <= 3,
        range_args(args) == Some((s, e, t)),
        !is_zero_bits(t),
        lt_bits(bits_of_int(0), t) ==> !lt_bits(s, e),
        !lt_bits(bits_of_int(0), t) ==> !lt_bits(e, s),
        range_post(args, o),
    ensures
        answers_list(o, Seq::<Value>::empty()),
{
    if range_whole(s, e, t) {
        let sv = small_int_of(s)->0;
        let ev = small_int_of(e)->0;
        let tv = small_int_of(t)->0;
        assert(bits_of_int(0) == 0);
        assert(small_int_of(0u64) == Some(0int));
        crate::num::lemma_lt_bits_on_whole(0u64, t);
        crate::num::lemma_lt_bits_on_whole(s, e);
        crate::num::lemma_lt_bits_on_whole(e, s);
        if tv == 0 {
            lemma_small_int_zero(t);
        }
        lemma_range_whole_uncrossed_empty(sv, ev, tv);
    }
}

} // verus!
