//! The string built-ins.
//!
//! Indexing built-ins (substring, chars) work on character offsets, never on
//! byte offsets. Unicode-table work — case mapping, the whitespace set — and
//! substring search are the standard library's; each such call stands behind
//! one trusted wrapper whose contract states what the documentation promises,
//! and everything around the calls is verified here.
use vstd::prelude::*;

use crate::bridge::{fail, failed_with, succeed, HostCall, Outcome, Pending};
use crate::num::{bits_of_u64_rne, small_int_of, trunc_u64_of};
use crate::num::{num_of_u64, num_small_int, num_trunc_u64};
use crate::symbol_table::SymbolTable;
use crate::value::{NativeFn, Value};

verus! {

/// The characters of the uppercase mapping of a character sequence; the
/// mapping itself is the standard library's Unicode table.
pub uninterp spec fn upper_of(s: Seq<char>) -> Seq<char>;

/// The characters of the lowercase mapping of a character sequence.
pub uninterp spec fn lower_of(s: Seq<char>) -> Seq<char>;

/// The characters left when leading and trailing whitespace go; which
/// characters count as whitespace is the standard library's Unicode table.
pub uninterp spec fn trim_of(s: Seq<char>) -> Seq<char>;

/// The pieces a separator cuts a character sequence into.
pub uninterp spec fn split_of(s: Seq<char>, sep: Seq<char>) -> Seq<Seq<char>>;

/// The sequence with every non-overlapping occurrence of a pattern replaced,
/// found left to right.
pub uninterp spec fn replace_of(s: Seq<char>, from: Seq<char>, to: Seq<char>) -> Seq<char>;

/// Relies on str::to_uppercase: the result is a function of the characters
/// alone, and an empty input gives an empty result.
#[verifier::external_body]
fn to_upper(s: &str) -> (r: String)
    ensures
        r@ == upper_of(s@),
        s@.len() == 0 ==> r@.len() == 0,
{
    s.to_uppercase()
}

/// Relies on str::to_lowercase: the result is a function of the characters
/// alone, and an empty input gives an empty result.
#[verifier::external_body]
fn to_lower(s: &str) -> (r: String)
    ensures
        r@ == lower_of(s@),
        s@.len() == 0 ==> r@.len() == 0,
{
    s.to_lowercase()
}

/// Relies on str::trim: it returns a subsequence of the input, so the
/// result is never longer, and an empty input gives an empty result.
#[verifier::external_body]
fn trim_str(s: &str) -> (r: String)
    ensures
        r@ == trim_of(s@),
        r@.len() <= s@.len(),
{
    s.trim().to_string()
}

/// Relies on str::split: every string splits into at least one piece, the
/// pieces depend on the input and separator alone, and — the separators
/// being cut out whole, left to right — gluing the pieces back with a
/// nonempty separator restores the input.
#[verifier::external_body]
fn split_str(s: &str, sep: &str) -> (r: Vec<String>)
    ensures
        r@.len() == split_of(s@, sep@).len(),
        forall|i: int| 0 <= i < r@.len() ==> (#[trigger] r@[i])@ == split_of(s@, sep@)[i],
        r@.len() >= 1,
        sep@.len() > 0 ==> joined(Seq::new(r@.len(), |i: int| r@[i]@), sep@) == s@,
{
    s.split(sep).map(|part| part.to_string()).collect()
}

/// Relies on str::replace: the result depends on the three inputs alone.
#[verifier::external_body]
fn replace_str(s: &str, from: &str, to: &str) -> (r: String)
    ensures
        r@ == replace_of(s@, from@, to@),
{
    s.replace(from, to)
}

/// The needle occurs somewhere in the haystack.
pub open spec fn contains_sub(s: Seq<char>, n: Seq<char>) -> bool {
    exists|k: int| 0 <= k && k + n.len() <= s.len() && #[trigger] s.subrange(k, k + n.len() as int) == n
}

/// Relies on str::contains: true exactly when the needle's characters occur
/// contiguously in the haystack.
#[verifier::external_body]
fn str_contains(s: &str, n: &str) -> (r: bool)
    ensures
        r == contains_sub(s@, n@),
{
    s.contains(n)
}

/// Relies on str::starts_with: true exactly when the input opens with the
/// prefix's characters.
#[verifier::external_body]
fn str_starts_with(s: &str, p: &str) -> (r: bool)
    ensures
        r == (p@.len() <= s@.len() && s@.subrange(0, p@.len() as int) == p@),
{
    s.starts_with(p)
}

/// Relies on str::ends_with: true exactly when the input closes with the
/// suffix's characters.
#[verifier::external_body]
fn str_ends_with(s: &str, p: &str) -> (r: bool)
    ensures
        r == (p@.len() <= s@.len() && s@.subrange(s@.len() - p@.len(), s@.len() as int) == p@),
{
    s.ends_with(p)
}

/// What the length built-in answers: the byte length of a string, or the
/// element count of a list, as the nearest double.
pub open spec fn len_post(args: Seq<Value>, o: Outcome) -> bool {
    if args.len() != 1 {
        failed_with(o, "len expects 1 argument"@)
    } else {
        match args[0] {
            Value::Str(s) => answers_number(o, bits_of_u64_rne(vstd::utf8::encode_utf8(s@).len() as usize as u64)),
            Value::List(l) => answers_number(o, bits_of_u64_rne(l@.len() as u64)),
            _ => failed_with(o, "len expects a string or a list"@),
        }
    }
}

/// The outcome is a finished number with exactly this bit pattern.
pub open spec fn answers_number(o: Outcome, bits: u64) -> bool {
    o == Outcome::Done(Result::<Value, String>::Ok(Value::Number(bits)))
}

/// The outcome is a finished string with exactly these characters.
pub open spec fn answers_text(o: Outcome, t: Seq<char>) -> bool {
    match o {
        Outcome::Done(r) => match r {
            Result::Ok(v) => match v {
                Value::Str(s) => s@ == t,
                _ => false,
            },
            Result::Err(_) => false,
        },
        Outcome::Host(_, _) => false,
    }
}

/// The outcome is a finished boolean with exactly this value.
pub open spec fn answers_flag(o: Outcome, b: bool) -> bool {
    o == Outcome::Done(Result::<Value, String>::Ok(Value::Boolean(b)))
}

/// Measure a string in bytes or a list in elements.
pub(crate) fn run_len(args: Vec<Value>) -> (o: Outcome)
    ensures
        len_post(args@, o),
{
    if args.len() != 1 {
        return fail("len expects 1 argument");
    }
    match &args[0] {
        Value::Str(s) => succeed(Value::Number(num_of_u64(s.as_str().len() as u64))),
        Value::List(l) => succeed(Value::Number(num_of_u64(l.len() as u64))),
        _ => fail("len expects a string or a list"),
    }
}

/// What a one-string built-in whose work is a trusted mapping answers.
pub open spec fn mapped_post(
    args: Seq<Value>,
    o: Outcome,
    arity_msg: Seq<char>,
    type_msg: Seq<char>,
    mapped: spec_fn(Seq<char>) -> Seq<char>,
) -> bool {
    if args.len() != 1 {
        failed_with(o, arity_msg)
    } else {
        match args[0] {
            Value::Str(s) => answers_text(o, mapped(s@)),
            _ => failed_with(o, type_msg),
        }
    }
}

/// Map a string to upper case.
pub(crate) fn run_upper(args: Vec<Value>) -> (o: Outcome)
    ensures
        mapped_post(args@, o, "upper expects 1 argument"@, "upper expects a string"@, |t: Seq<char>| upper_of(t)),
{
    if args.len() != 1 {
        return fail("upper expects 1 argument");
    }
    match &args[0] {
        Value::Str(s) => succeed(Value::Str(to_upper(s.as_str()))),
        _ => fail("upper expects a string"),
    }
}

/// Map a string to lower case.
pub(crate) fn run_lower(args: Vec<Value>) -> (o: Outcome)
    ensures
        mapped_post(args@, o, "lower expects 1 argument"@, "lower expects a string"@, |t: Seq<char>| lower_of(t)),
{
    if args.len() != 1 {
        return fail("lower expects 1 argument");
    }
    match &args[0] {
        Value::Str(s) => succeed(Value::Str(to_lower(s.as_str()))),
        _ => fail("lower expects a string"),
    }
}

/// Strip leading and trailing whitespace.
pub(crate) fn run_trim(args: Vec<Value>) -> (o: Outcome)
    ensures
        mapped_post(args@, o, "trim expects 1 argument"@, "trim expects a string"@, |t: Seq<char>| trim_of(t)),
{
    if args.len() != 1 {
        return fail("trim expects 1 argument");
    }
    match &args[0] {
        Value::Str(s) => succeed(Value::Str(trim_str(s.as_str()))),
        _ => fail("trim expects a string"),
    }
}

/// What the split built-in answers: the separator's pieces, as a list of
/// strings.
pub open spec fn split_post(args: Seq<Value>, o: Outcome) -> bool {
    if args.len() != 2 {
        failed_with(o, "split expects 2 arguments"@)
    } else {
        match (args[0], args[1]) {
            (Value::Str(s), Value::Str(sep)) => match o {
                Outcome::Done(r) => match r {
                    Result::Ok(v) => match v {
                        Value::List(out) => {
                            &&& out@.len() == split_of(s@, sep@).len()
                            &&& forall|i: int|
                                0 <= i < out@.len() ==> match #[trigger] out@[i] {
                                    Value::Str(p) => p@ == split_of(s@, sep@)[i],
                                    _ => false,
                                }
                            &&& (sep@.len() > 0 ==> joined(texts_of(out@), sep@) == s@)
                        },
                        _ => false,
                    },
                    Result::Err(_) => false,
                },
                Outcome::Host(_, _) => false,
            },
            _ => failed_with(o, "split expects two strings"@),
        }
    }
}

/// Cut a string at every occurrence of a separator.
#[verifier::loop_isolation(false)]
pub(crate) fn run_split(args: Vec<Value>) -> (o: Outcome)
    ensures
        split_post(args@, o),
{
    if args.len() != 2 {
        return fail("split expects 2 arguments");
    }
    match (&args[0], &args[1]) {
        (Value::Str(s), Value::Str(sep)) => {
            let parts = split_str(s.as_str(), sep.as_str());
            let ghost pv = parts@;
            let mut parts = parts;
            let mut out: Vec<Value> = Vec::new();
            while parts.len() > 0
                invariant
                    out@.len() + parts@.len() == pv.len(),
                    parts@ == pv.skip(out@.len() as int),
                    forall|j: int|
                        0 <= j < out@.len() ==> match #[trigger] out@[j] {
                            Value::Str(p) => p@ == split_of(s@, sep@)[j],
                            _ => false,
                        },
                decreases parts@.len(),
            {
                let ghost pb = parts@;
                let ghost k = out@.len() as int;
                let piece = parts.remove(0);
                proof {
                    assert(pb.remove(0) =~= pb.drop_first());
                    assert(pb.drop_first() =~= pv.skip(k + 1));
                }
                out.push(Value::Str(piece));
            }
            proof {
                assert(texts_of(out@) =~= Seq::new(pv.len(), |i: int| pv[i]@));
            }
            succeed(Value::List(out))
        },
        _ => fail("split expects two strings"),
    }
}

/// What the replace built-in answers.
pub open spec fn replace_post(args: Seq<Value>, o: Outcome) -> bool {
    if args.len() != 3 {
        failed_with(o, "replace expects 3 arguments"@)
    } else {
        match (args[0], args[1], args[2]) {
            (Value::Str(s), Value::Str(from), Value::Str(to)) => answers_text(
                o,
                replace_of(s@, from@, to@),
            ),
            _ => failed_with(o, "replace expects three strings"@),
        }
    }
}

/// Replace every occurrence of a pattern.
pub(crate) fn run_replace(args: Vec<Value>) -> (o: Outcome)
    ensures
        replace_post(args@, o),
{
    if args.len() != 3 {
        return fail("replace expects 3 arguments");
    }
    match (&args[0], &args[1], &args[2]) {
        (Value::Str(s), Value::Str(from), Value::Str(to)) => succeed(
            Value::Str(replace_str(s.as_str(), from.as_str(), to.as_str())),
        ),
        _ => fail("replace expects three strings"),
    }
}

/// What the substring-search built-ins answer.
pub open spec fn search_post(
    args: Seq<Value>,
    o: Outcome,
    arity_msg: Seq<char>,
    type_msg: Seq<char>,
    found: spec_fn(Seq<char>, Seq<char>) -> bool,
) -> bool {
    if args.len() != 2 {
        failed_with(o, arity_msg)
    } else {
        match (args[0], args[1]) {
            (Value::Str(s), Value::Str(n)) => answers_flag(o, found(s@, n@)),
            _ => failed_with(o, type_msg),
        }
    }
}

/// Decide whether a string holds another as a contiguous part.
pub(crate) fn run_contains(args: Vec<Value>) -> (o: Outcome)
    ensures
        search_post(
            args@,
            o,
            "contains expects 2 arguments"@,
            "contains expects two strings"@,
            |s: Seq<char>, n: Seq<char>| contains_sub(s, n),
        ),
{
    if args.len() != 2 {
        return fail("contains expects 2 arguments");
    }
    match (&args[0], &args[1]) {
        (Value::Str(s), Value::Str(n)) => succeed(
            Value::Boolean(str_contains(s.as_str(), n.as_str())),
        ),
        _ => fail("contains expects two strings"),
    }
}

/// Decide whether a string opens with a prefix.
pub(crate) fn run_starts_with(args: Vec<Value>) -> (o: Outcome)
    ensures
        search_post(
            args@,
            o,
            "starts_with expects 2 arguments"@,
            "starts_with expects two strings"@,
            |s: Seq<char>, n: Seq<char>| n.len() <= s.len() && s.subrange(0, n.len() as int) == n,
        ),
{
    if args.len() != 2 {
        return fail("starts_with expects 2 arguments");
    }
    match (&args[0], &args[1]) {
        (Value::Str(s), Value::Str(n)) => succeed(
            Value::Boolean(str_starts_with(s.as_str(), n.as_str())),
        ),
        _ => fail("starts_with expects two strings"),
    }
}

/// Decide whether a string closes with a suffix.
pub(crate) fn run_ends_with(args: Vec<Value>) -> (o: Outcome)
    ensures
        search_post(
            args@,
            o,
            "ends_with expects 2 arguments"@,
            "ends_with expects two strings"@,
            |s: Seq<char>, n: Seq<char>| n.len() <= s.len() && s.subrange(
                s.len() - n.len(),
                s.len() as int,
            ) == n,
        ),
{
    if args.len() != 2 {
        return fail("ends_with expects 2 arguments");
    }
    match (&args[0], &args[1]) {
        (Value::Str(s), Value::Str(n)) => succeed(
            Value::Boolean(str_ends_with(s.as_str(), n.as_str())),
        ),
        _ => fail("ends_with expects two strings"),
    }
}

/// What the chars built-in answers: the string's characters, each as a
/// one-character string, in order.
pub open spec fn chars_post(args: Seq<Value>, o: Outcome) -> bool {
    if args.len() != 1 {
        failed_with(o, "chars expects 1 argument"@)
    } else {
        match args[0] {
            Value::Str(s) => match o {
                Outcome::Done(r) => match r {
                    Result::Ok(v) => match v {
                        Value::List(out) => {
                            &&& out@.len() == s@.len()
                            &&& forall|i: int|
                                0 <= i < out@.len() ==> match #[trigger] out@[i] {
                                    Value::Str(c) => c@ == seq![s@[i]],
                                    _ => false,
                                }
                        },
                        _ => false,
                    },
                    Result::Err(_) => false,
                },
                Outcome::Host(_, _) => false,
            },
            _ => failed_with(o, "chars expects a string"@),
        }
    }
}

/// Split a string into its characters.
#[verifier::loop_isolation(false)]
pub(crate) fn run_chars(args: Vec<Value>) -> (o: Outcome)
    ensures
        chars_post(args@, o),
{
    if args.len() != 1 {
        return fail("chars expects 1 argument");
    }
    match &args[0] {
        Value::Str(s) => {
            let n = s.as_str().unicode_len();
            let mut out: Vec<Value> = Vec::new();
            let mut i: usize = 0;
            while i < n
                invariant
                    0 <= i <= n,
                    n == s@.len(),
                    out@.len() == i,
                    forall|j: int|
                        0 <= j < i ==> match #[trigger] out@[j] {
                            Value::Str(c) => c@ == seq![s@[j]],
                            _ => false,
                        },
                decreases n - i,
            {
                let piece = s.as_str().substring_char(i, i + 1);
                proof {
                    assert(s@.subrange(i as int, i + 1) =~= seq![s@[i as int]]);
                }
                out.push(Value::Str(piece.to_owned()));
                i = i + 1;
            }
            succeed(Value::List(out))
        },
        _ => fail("chars expects a string"),
    }
}

/// What the substring built-in answers: the half-open character range from
/// the truncated start to the truncated end, each clamped to the character
/// count; a start lying after the end, once clamped, is an error.
pub open spec fn substring_post(args: Seq<Value>, o: Outcome) -> bool {
    if args.len() != 3 {
        failed_with(o, "substring expects 3 arguments"@)
    } else {
        match (args[0], args[1], args[2]) {
            (Value::Str(s), Value::Number(b1), Value::Number(b2)) => {
                let si = if trunc_u64_of(b1) < s@.len() {
                    trunc_u64_of(b1) as int
                } else {
                    s@.len() as int
                };
                let ei = if trunc_u64_of(b2) < s@.len() {
                    trunc_u64_of(b2) as int
                } else {
                    s@.len() as int
                };
                if si > ei {
                    failed_with(o, "the start index lies after the end index"@)
                } else {
                    answers_text(o, s@.subrange(si, ei))
                }
            },
            _ => failed_with(o, "substring expects a string and two numbers"@),
        }
    }
}

/// Take the character range between two clamped offsets.
pub(crate) fn run_substring(args: Vec<Value>) -> (o: Outcome)
    ensures
        substring_post(args@, o),
{
    if args.len() != 3 {
        return fail("substring expects 3 arguments");
    }
    match (&args[0], &args[1], &args[2]) {
        (Value::Str(s), Value::Number(b1), Value::Number(b2)) => {
            let n = s.as_str().unicode_len();
            let t1 = num_trunc_u64(*b1);
            let t2 = num_trunc_u64(*b2);
            let si: usize = if t1 < n as u64 {
                t1 as usize
            } else {
                n
            };
            let ei: usize = if t2 < n as u64 {
                t2 as usize
            } else {
                n
            };
            if si > ei {
                return fail("the start index lies after the end index");
            }
            succeed(Value::Str(s.as_str().substring_char(si, ei).to_owned()))
        },
        _ => fail("substring expects a string and two numbers"),
    }
}

/// Every element is a string.
pub open spec fn all_strings(s: Seq<Value>) -> bool {
    forall|i: int| 0 <= i < s.len() ==> (#[trigger] s[i]) is Str
}

/// The character sequences of a sequence of string values.
pub open spec fn texts_of(s: Seq<Value>) -> Seq<Seq<char>> {
    Seq::new(s.len(), |i: int| s[i]->Str_0@)
}

/// The pieces glued with the separator between every two neighbours.
pub open spec fn joined(parts: Seq<Seq<char>>, sep: Seq<char>) -> Seq<char>
    decreases parts.len(),
{
    if parts.len() == 0 {
        Seq::empty()
    } else if parts.len() == 1 {
        parts[0]
    } else {
        joined(parts.drop_last(), sep) + sep + parts.last()
    }
}

/// What the join built-in answers: the glued string when every element is a
/// string, and an error at the first element that is not.
pub open spec fn join_post(args: Seq<Value>, o: Outcome) -> bool {
    if args.len() != 2 {
        failed_with(o, "join expects 2 arguments"@)
    } else {
        match (args[0], args[1]) {
            (Value::List(l), Value::Str(sep)) => if all_strings(l@) {
                answers_text(o, joined(texts_of(l@), sep@))
            } else {
                failed_with(o, "join expects a list of strings"@)
            },
            _ => failed_with(o, "join expects a list and a string"@),
        }
    }
}

/// Glue a list of strings with a separator.
#[verifier::loop_isolation(false)]
pub(crate) fn run_join(args: Vec<Value>) -> (o: Outcome)
    ensures
        join_post(args@, o),
{
    if args.len() != 2 {
        return fail("join expects 2 arguments");
    }
    match (&args[0], &args[1]) {
        (Value::List(l), Value::Str(sep)) => {
            let mut out = String::new();
            let mut i: usize = 0;
            while i < l.len()
                invariant
                    0 <= i <= l@.len(),
                    forall|j: int| 0 <= j < i ==> (#[trigger] l@[j]) is Str,
                    out@ == joined(texts_of(l@.take(i as int)), sep@),
                decreases l@.len() - i,
            {
                match &l[i] {
                    Value::Str(p) => {
                        if i > 0 {
                            out.append(sep.as_str());
                        }
                        out.append(p.as_str());
                        proof {
                            lemma_joined_step(texts_of(l@.take(i as int)), l@[i as int]->Str_0@, sep@);
                            assert(texts_of(l@.take(i + 1)) =~= texts_of(l@.take(i as int)).push(
                                l@[i as int]->Str_0@,
                            ));
                        }
                    },
                    _ => {
                        return fail("join expects a list of strings");
                    },
                }
                i = i + 1;
            }
            proof {
                assert(l@.take(l@.len() as int) =~= l@);
            }
            succeed(Value::Str(out))
        },
        _ => fail("join expects a list and a string"),
    }
}

proof fn lemma_joined_step(parts: Seq<Seq<char>>, p: Seq<char>, sep: Seq<char>)
    ensures
        parts.len() == 0 ==> joined(parts.push(p), sep) == p,
        parts.len() > 0 ==> joined(parts.push(p), sep) == joined(parts, sep) + sep + p,
{
    assert(parts.push(p).drop_last() =~= parts);
    assert(parts.push(p).last() == p);
    if parts.len() == 0 {
        assert(joined(parts.push(p), sep) == parts.push(p)[0]);
    }
}

/// The decimal digit characters.
pub open spec fn digit_char(d: nat) -> char {
    if d == 0 {
        '0'
    } else if d == 1 {
        '1'
    } else if d == 2 {
        '2'
    } else if d == 3 {
        '3'
    } else if d == 4 {
        '4'
    } else if d == 5 {
        '5'
    } else if d == 6 {
        '6'
    } else if d == 7 {
        '7'
    } else if d == 8 {
        '8'
    } else {
        '9'
    }
}

/// The decimal digits of a whole number, most significant first.
pub open spec fn dec_digits(n: nat) -> Seq<char>
    decreases n,
{
    if n < 10 {
        seq![digit_char(n)]
    } else {
        dec_digits(n / 10) + seq![digit_char(n % 10)]
    }
}

/// The decimal rendering of a whole number, minus sign included.
pub open spec fn dec_int(v: int) -> Seq<char> {
    if v < 0 {
        seq!['-'] + dec_digits((-v) as nat)
    } else {
        dec_digits(v as nat)
    }
}

/// Append one decimal digit character.
fn push_digit(out: &mut String, d: u64)
    requires
        d < 10,
    ensures
        final(out)@ == old(out)@ + seq![digit_char(d as nat)],
{
    proof {
        reveal_strlit("0");
        reveal_strlit("1");
        reveal_strlit("2");
        reveal_strlit("3");
        reveal_strlit("4");
        reveal_strlit("5");
        reveal_strlit("6");
        reveal_strlit("7");
        reveal_strlit("8");
        reveal_strlit("9");
    }
    let ghost target = old(out)@ + seq![digit_char(d as nat)];
    if d == 0 {
        out.append("0");
    } else if d == 1 {
        out.append("1");
    } else if d == 2 {
        out.append("2");
    } else if d == 3 {
        out.append("3");
    } else if d == 4 {
        out.append("4");
    } else if d == 5 {
        out.append("5");
    } else if d == 6 {
        out.append("6");
    } else if d == 7 {
        out.append("7");
    } else if d == 8 {
        out.append("8");
    } else {
        out.append("9");
    }
    proof {
        assert(out@ =~= target);
    }
}

/// The digit characters of collected low-order digits, read from the end.
spec fn digits_tail(d: Seq<u64>) -> Seq<char>
    decreases d.len(),
{
    if d.len() == 0 {
        Seq::empty()
    } else {
        seq![digit_char(d.last() as nat)] + digits_tail(d.drop_last())
    }
}

/// Render a machine word in decimal.
#[verifier::loop_isolation(false)]
fn u64_dec(n: u64) -> (r: String)
    ensures
        r@ == dec_digits(n as nat),
{
    let mut ds: Vec<u64> = Vec::new();
    let mut m: u64 = n;
    proof {
        assert(dec_digits(n as nat) + digits_tail(Seq::empty()) =~= dec_digits(n as nat));
    }
    while m >= 10
        invariant
            dec_digits(m as nat) + digits_tail(ds@) == dec_digits(n as nat),
            forall|j: int| 0 <= j < ds@.len() ==> #[trigger] ds@[j] < 10,
        decreases m,
    {
        let ghost db = ds@;
        ds.push(m % 10);
        proof {
            assert(ds@.drop_last() =~= db);
            assert(dec_digits((m / 10) as nat) + digits_tail(ds@) =~= dec_digits((m / 10) as nat)
                + seq![digit_char((m % 10) as nat)] + digits_tail(db));
        }
        m = m / 10;
    }
    let mut out = String::new();
    push_digit(&mut out, m);
    proof {
        assert(out@ =~= dec_digits(m as nat));
    }
    let mut k: usize = ds.len();
    proof {
        assert(ds@.take(ds@.len() as int) =~= ds@);
    }
    while k > 0
        invariant
            0 <= k <= ds@.len(),
            forall|j: int| 0 <= j < ds@.len() ==> #[trigger] ds@[j] < 10,
            out@ + digits_tail(ds@.take(k as int)) == dec_digits(n as nat),
        decreases k,
    {
        k = k - 1;
        let ghost tk = ds@.take(k + 1);
        proof {
            assert(tk.drop_last() =~= ds@.take(k as int));
            assert(tk.last() == ds@[k as int]);
        }
        push_digit(&mut out, ds[k]);
        proof {
            assert(out@ + digits_tail(ds@.take(k as int)) =~= dec_digits(n as nat));
        }
    }
    proof {
        assert(digits_tail(ds@.take(0)) =~= Seq::<char>::empty());
        assert(out@ =~= dec_digits(n as nat));
    }
    out
}

/// Render a whole number in decimal, minus sign included.
fn i64_dec(v: i64) -> (r: String)
    requires
        v > i64::MIN,
    ensures
        r@ == dec_int(v as int),
{
    if v >= 0 {
        u64_dec(v as u64)
    } else {
        proof {
            reveal_strlit("-");
        }
        let mut out = "-".to_owned();
        let digits = u64_dec((-v) as u64);
        out.append(digits.as_str());
        proof {
            assert(out@ =~= dec_int(v as int));
        }
        out
    }
}

/// A value whose rendering only the host can produce: a number that is not
/// a small whole number, so its decimal form takes the hardware.
pub open spec fn hosted(v: Value) -> bool {
    match v {
        Value::Number(b) => small_int_of(b) is None,
        _ => false,
    }
}

/// The bit patterns of the hosted numbers among the arguments, in order.
pub open spec fn hosted_bits(s: Seq<Value>) -> Seq<u64>
    decreases s.len(),
{
    if s.len() == 0 {
        Seq::empty()
    } else if hosted(s.last()) {
        hosted_bits(s.drop_last()) + seq![s.last()->Number_0]
    } else {
        hosted_bits(s.drop_last())
    }
}

/// The rendering of one argument: whole numbers in decimal, strings as they
/// are, booleans and nil by name, lists and dictionaries as fixed markers,
/// functions as a question mark; a hosted number shows the host's text, or
/// a question mark if the host's reply ran short.
pub open spec fn shown(v: Value, exts: Seq<Seq<char>>, k: int) -> Seq<char> {
    match v {
        Value::Number(b) => match small_int_of(b) {
            Option::Some(n) => dec_int(n),
            Option::None => if 0 <= k < exts.len() {
                exts[k]
            } else {
                "?"@
            },
        },
        Value::Str(s) => s@,
        Value::Boolean(b) => if b {
            "true"@
        } else {
            "false"@
        },
        Value::List(_) => "[list]"@,
        Value::Dict(_) => "{dict}"@,
        Value::Nil => "nil"@,
        _ => "?"@,
    }
}

/// The positional placeholder for one argument.
pub open spec fn placeholder(i: int) -> Seq<char>
    recommends
        i >= 0,
{
    seq!['{'] + dec_digits(i as nat) + seq!['}']
}

/// The template after the arguments from position `i` on have been
/// substituted in, each by a plain textual replacement of its placeholder.
/// A placeholder that reappears inside an already substituted value is
/// replaced again by a later argument's pass: substitution is textual,
/// not a single left-to-right scan.
pub open spec fn subst_all(t: Seq<char>, args: Seq<Value>, exts: Seq<Seq<char>>, i: int) -> Seq<
    char,
>
    decreases args.len() - i,
{
    if i < 0 || i >= args.len() {
        t
    } else {
        subst_all(
            replace_of(t, placeholder(i), shown(args[i], exts, hosted_bits(args.take(i)).len() as int)),
            args,
            exts,
            i + 1,
        )
    }
}

/// Substitute every argument into the template.
#[verifier::loop_isolation(false)]
fn fill_template(template: String, args: &Vec<Value>, exts: &Vec<String>) -> (r: String)
    ensures
        r@ == subst_all(
            template@,
            args@,
            Seq::new(exts@.len(), |i: int| exts@[i]@),
            0,
        ),
{
    let ghost extv = Seq::new(exts@.len(), |i: int| exts@[i]@);
    let mut cur = template;
    let mut c: usize = 0;
    let mut i: usize = 0;
    while i < args.len()
        invariant
            0 <= i <= args@.len(),
            c <= i,
            c == hosted_bits(args@.take(i as int)).len(),
            subst_all(cur@, args@, extv, i as int) == subst_all(template@, args@, extv, 0),
        decreases args@.len() - i,
    {
        proof {
            reveal_strlit("{");
            reveal_strlit("}");
            reveal_strlit("?");
            reveal_strlit("true");
            reveal_strlit("false");
            reveal_strlit("[list]");
            reveal_strlit("{dict}");
            reveal_strlit("nil");
        }
        let mut ph = "{".to_owned();
        let idx_digits = u64_dec(i as u64);
        ph.append(idx_digits.as_str());
        ph.append("}");
        proof {
            assert(ph@ =~= placeholder(i as int));
        }
        let ghost ext_k = hosted_bits(args@.take(i as int)).len() as int;
        let mut is_hosted: bool = false;
        let piece: String = match &args[i] {
            Value::Number(b) => match num_small_int(*b) {
                Some(n) => i64_dec(n),
                None => {
                    is_hosted = true;
                    if c < exts.len() {
                        exts[c].clone()
                    } else {
                        "?".to_owned()
                    }
                },
            },
            Value::Str(t) => t.clone(),
            Value::Boolean(b) => if *b {
                "true".to_owned()
            } else {
                "false".to_owned()
            },
            Value::List(_) => "[list]".to_owned(),
            Value::Dict(_) => "{dict}".to_owned(),
            Value::Nil => "nil".to_owned(),
            _ => "?".to_owned(),
        };
        proof {
            assert(piece@ == shown(args@[i as int], extv, ext_k));
            assert(args@.take(i + 1).drop_last() =~= args@.take(i as int));
            assert(args@.take(i + 1).last() == args@[i as int]);
        }
        cur = replace_str(cur.as_str(), ph.as_str(), piece.as_str());
        if is_hosted {
            c = c + 1;
        }
        i = i + 1;
    }
    proof {
        assert(subst_all(cur@, args@, extv, args@.len() as int) == cur@);
    }
    cur
}

/// What the format built-in answers: the template with every positional
/// placeholder textually substituted. When every number shows as a small
/// whole number the text is finished here; otherwise the hosted numbers'
/// bit patterns go to the host for rendering first.
pub open spec fn format_post(args: Seq<Value>, o: Outcome) -> bool {
    if args.len() < 1 {
        failed_with(o, "format expects at least 1 argument"@)
    } else {
        match args[0] {
            Value::Str(t) => {
                let rest = args.drop_first();
                if hosted_bits(rest).len() == 0 {
                    answers_text(o, subst_all(t@, rest, Seq::empty(), 0))
                } else {
                    match o {
                        Outcome::Host(c, p) => match (c, p) {
                            (HostCall::RenderNumbers(bs), Pending::WrapFormat(t2, a2)) => bs@
                                == hosted_bits(rest) && t2@ == t@ && a2@ == rest,
                            _ => false,
                        },
                        Outcome::Done(_) => false,
                    }
                }
            },
            _ => failed_with(o, "format expects a string as the first argument"@),
        }
    }
}

/// Substitute arguments into a template, or send the numbers only the host
/// can render out for rendering.
#[verifier::loop_isolation(false)]
pub(crate) fn run_format(args: Vec<Value>) -> (o: Outcome)
    ensures
        format_post(args@, o),
{
    let mut args = args;
    if args.len() < 1 {
        return fail("format expects at least 1 argument");
    }
    let ghost whole = args@;
    let template = match args.remove(0) {
        Value::Str(t) => t,
        _ => {
            return fail("format expects a string as the first argument");
        },
    };
    proof {
        assert(whole.remove(0) =~= whole.drop_first());
    }
    let mut bits: Vec<u64> = Vec::new();
    let mut i: usize = 0;
    while i < args.len()
        invariant
            0 <= i <= args@.len(),
            bits@ == hosted_bits(args@.take(i as int)),
        decreases args@.len() - i,
    {
        proof {
            assert(args@.take(i + 1).drop_last() =~= args@.take(i as int));
            assert(args@.take(i + 1).last() == args@[i as int]);
        }
        match &args[i] {
            Value::Number(b) => {
                if num_small_int(*b).is_none() {
                    bits.push(*b);
                }
            },
            _ => {},
        }
        i = i + 1;
    }
    proof {
        assert(args@.take(args@.len() as int) =~= args@);
    }
    if bits.len() == 0 {
        let empty_exts: Vec<String> = Vec::new();
        let filled = fill_template(template, &args, &empty_exts);
        proof {
            assert(Seq::new(0, |i: int| empty_exts@[i]@) =~= Seq::<Seq<char>>::empty());
        }
        succeed(Value::Str(filled))
    } else {
        Outcome::Host(HostCall::RenderNumbers(bits), Pending::WrapFormat(template, args))
    }
}

/// Finish a format call with the host's renderings.
pub(crate) fn finish_format(template: String, args: Vec<Value>, exts: Vec<String>) -> (r: Result<
    Value,
    String,
>)
    ensures
        match r {
            Result::Ok(v) => match v {
                Value::Str(s) => s@ == subst_all(
                    template@,
                    args@,
                    Seq::new(exts@.len(), |i: int| exts@[i]@),
                    0,
                ),
                _ => false,
            },
            Result::Err(_) => false,
        },
{
    let filled = fill_template(template, &args, &exts);
    Result::Ok(Value::Str(filled))
}

/// Install the string family into the registry.
pub fn register(globals: &mut SymbolTable)
    ensures
        final(globals)@ == old(globals)@
            .insert("len"@, (Value::NativeFunction(NativeFn::StrLen), false, true))
            .insert("upper"@, (Value::NativeFunction(NativeFn::StrUpper), false, true))
            .insert("lower"@, (Value::NativeFunction(NativeFn::StrLower), false, true))
            .insert("trim"@, (Value::NativeFunction(NativeFn::StrTrim), false, true))
            .insert("split"@, (Value::NativeFunction(NativeFn::StrSplit), false, true))
            .insert("join"@, (Value::NativeFunction(NativeFn::StrJoin), false, true))
            .insert("replace"@, (Value::NativeFunction(NativeFn::StrReplace), false, true))
            .insert("contains"@, (Value::NativeFunction(NativeFn::StrContains), false, true))
            .insert("starts_with"@, (Value::NativeFunction(NativeFn::StrStartsWith), false, true))
            .insert("ends_with"@, (Value::NativeFunction(NativeFn::StrEndsWith), false, true))
            .insert("chars"@, (Value::NativeFunction(NativeFn::StrChars), false, true))
            .insert("substring"@, (Value::NativeFunction(NativeFn::StrSubstring), false, true))
            .insert("format"@, (Value::NativeFunction(NativeFn::StrFormat), false, true)),
{
    globals.define_native_function("len", NativeFn::StrLen);
    globals.define_native_function("upper", NativeFn::StrUpper);
    globals.define_native_function("lower", NativeFn::StrLower);
    globals.define_native_function("trim", NativeFn::StrTrim);
    globals.define_native_function("split", NativeFn::StrSplit);
    globals.define_native_function("join", NativeFn::StrJoin);
    globals.define_native_function("replace", NativeFn::StrReplace);
    globals.define_native_function("contains", NativeFn::StrContains);
    globals.define_native_function("starts_with", NativeFn::StrStartsWith);
    globals.define_native_function("ends_with", NativeFn::StrEndsWith);
    globals.define_native_function("chars", NativeFn::StrChars);
    globals.define_native_function("substring", NativeFn::StrSubstring);
    globals.define_native_function("format", NativeFn::StrFormat);
}

/// Join inverts split: the pieces a nonempty separator cuts a string into,
/// glued back with the same separator, are the string again.
pub proof fn lemma_join_inverts_split(
    s: String,
    sep: String,
    parts: Vec<Value>,
    o1: Outcome,
    o2: Outcome,
)
    requires
        sep@.len() > 0,
        split_post(seq![Value::Str(s), Value::Str(sep)], o1),
        o1 == Outcome::Done(Result::<Value, String>::Ok(Value::List(parts))),
        join_post(seq![Value::List(parts), Value::Str(sep)], o2),
    ensures
        answers_text(o2, s@),
{
    assert forall|i: int| 0 <= i < parts@.len() implies (#[trigger] parts@[i]) is Str by {}
    assert(all_strings(parts@));
}

} // verus!
