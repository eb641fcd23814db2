use native_bridge::bridge::{invoke, resume, HostCall, HostCaps, HostReply, Outcome};
use native_bridge::value::{eq_value, NativeFn, Value};

fn caps() -> HostCaps {
    HostCaps { http_enabled: false }
}

fn num(x: f64) -> Value {
    Value::Number(x.to_bits())
}

fn text(s: &str) -> Value {
    Value::Str(s.to_string())
}

fn done_ok(o: Outcome) -> Value {
    match o {
        Outcome::Done(Ok(v)) => v,
        Outcome::Done(Err(e)) => panic!("expected a value, got the error: {}", e),
        Outcome::Host(_, _) => panic!("expected a finished value, got a host call"),
    }
}

fn done_err(o: Outcome) -> String {
    match o {
        Outcome::Done(Err(e)) => e,
        Outcome::Done(Ok(_)) => panic!("expected an error, got a value"),
        Outcome::Host(_, _) => panic!("expected an error, got a host call"),
    }
}

fn numbers(xs: &[f64]) -> Value {
    Value::List(xs.iter().map(|x| num(*x)).collect())
}

#[test]
fn range_two_arguments_counts_up() {
    let o = invoke(NativeFn::RangeList, vec![num(1.0), num(5.0)], &caps());
    let v = done_ok(o);
    assert!(eq_value(&v, &numbers(&[1.0, 2.0, 3.0, 4.0])));
    match v {
        Value::List(items) => {
            assert_eq!(items.len(), 4);
            assert!(matches!(items[0], Value::Number(b) if b == 1.0f64.to_bits()));
            assert!(matches!(items[3], Value::Number(b) if b == 4.0f64.to_bits()));
        },
        _ => panic!("range did not give a list"),
    }
}

#[test]
fn range_descending_counts_down() {
    let o = invoke(NativeFn::RangeList, vec![num(5.0), num(1.0), num(-1.0)], &caps());
    assert!(eq_value(&done_ok(o), &numbers(&[5.0, 4.0, 3.0, 2.0])));
}

#[test]
fn range_zero_step_is_an_error() {
    let o = invoke(NativeFn::RangeList, vec![num(1.0), num(5.0), num(0.0)], &caps());
    done_err(o);
    let o2 = invoke(NativeFn::RangeList, vec![num(1.0), num(5.0), num(-0.0)], &caps());
    done_err(o2);
}

#[test]
fn range_empty_when_bound_not_crossed() {
    for step in [1.0, 2.5, 1e-9, f64::INFINITY, -3.0] {
        let o = invoke(NativeFn::RangeList, vec![num(0.0), num(0.0), num(step)], &caps());
        match done_ok(o) {
            Value::List(items) => assert!(items.is_empty()),
            _ => panic!("range did not give a list"),
        }
    }
    let o = invoke(NativeFn::RangeList, vec![num(7.0), num(3.0), num(2.0)], &caps());
    match done_ok(o) {
        Value::List(items) => assert!(items.is_empty()),
        _ => panic!("range did not give a list"),
    }
}

#[test]
fn range_one_argument_starts_at_zero() {
    let o = invoke(NativeFn::RangeList, vec![num(3.0)], &caps());
    assert!(eq_value(&done_ok(o), &numbers(&[0.0, 1.0, 2.0])));
}

#[test]
fn range_fractional_step_matches_hardware_stepping() {
    // A non-whole operand leaves the stepping arithmetic to the host.
    let o = invoke(NativeFn::RangeList, vec![num(0.5), num(3.0), num(0.7)], &caps());
    match o {
        Outcome::Host(HostCall::RangeFloat(s, e, t), pending) => {
            let (mut cur, end, step) = (f64::from_bits(s), f64::from_bits(e), f64::from_bits(t));
            let mut bits = Vec::new();
            while cur < end {
                bits.push(cur.to_bits());
                cur += step;
            }
            let expect: Vec<f64> = bits.iter().map(|b| f64::from_bits(*b)).collect();
            let r = resume(pending, HostReply::BitsSeq(bits)).unwrap();
            assert!(eq_value(&r, &numbers(&expect)));
        },
        _ => panic!("a fractional range should ask the host to step"),
    }
}

#[test]
fn unique_keeps_first_occurrences() {
    let o = invoke(NativeFn::UniqueList, vec![numbers(&[1.0, 2.0, 1.0, 3.0, 2.0])], &caps());
    assert!(eq_value(&done_ok(o), &numbers(&[1.0, 2.0, 3.0])));
}

#[test]
fn unique_merges_the_two_zeroes() {
    let o = invoke(NativeFn::UniqueList, vec![numbers(&[0.0, -0.0])], &caps());
    match done_ok(o) {
        Value::List(items) => assert_eq!(items.len(), 1),
        _ => panic!("unique did not give a list"),
    }
}

#[test]
fn flatten_goes_one_level_only() {
    let inner = numbers(&[5.0, 6.0]);
    let nested = Value::List(vec![num(4.0), inner]);
    let arg = Value::List(vec![num(1.0), numbers(&[2.0, 3.0]), nested]);
    let o = invoke(NativeFn::FlattenList, vec![arg], &caps());
    let expect = Value::List(vec![
        num(1.0),
        num(2.0),
        num(3.0),
        num(4.0),
        numbers(&[5.0, 6.0]),
    ]);
    assert!(eq_value(&done_ok(o), &expect));
}

#[test]
fn sort_orders_numbers_and_strings() {
    let o = invoke(NativeFn::SortList, vec![numbers(&[3.0, 1.0, 2.0])], &caps());
    assert!(eq_value(&done_ok(o), &numbers(&[1.0, 2.0, 3.0])));
    let o2 = invoke(
        NativeFn::SortList,
        vec![Value::List(vec![text("b"), text("a")])],
        &caps(),
    );
    assert!(eq_value(&done_ok(o2), &Value::List(vec![text("a"), text("b")])));
}

#[test]
fn sort_of_mixed_shapes_never_fails() {
    let o = invoke(NativeFn::SortList, vec![Value::List(vec![num(1.0), text("a")])], &caps());
    match done_ok(o) {
        Value::List(items) => assert_eq!(items.len(), 2),
        _ => panic!("sort did not give a list"),
    }
}

#[test]
fn reverse_reverses() {
    let o = invoke(NativeFn::ReverseList, vec![numbers(&[1.0, 2.0, 3.0])], &caps());
    assert!(eq_value(&done_ok(o), &numbers(&[3.0, 2.0, 1.0])));
}

#[test]
fn every_builtin_rejects_a_wrong_argument_count() {
    let all = [
        NativeFn::MapList,
        NativeFn::FilterList,
        NativeFn::ReduceList,
        NativeFn::FindList,
        NativeFn::AnyList,
        NativeFn::AllList,
        NativeFn::ReverseList,
        NativeFn::SortList,
        NativeFn::UniqueList,
        NativeFn::FlattenList,
        NativeFn::RangeList,
        NativeFn::StrLen,
        NativeFn::StrUpper,
        NativeFn::StrLower,
        NativeFn::StrTrim,
        NativeFn::StrSplit,
        NativeFn::StrJoin,
        NativeFn::StrReplace,
        NativeFn::StrContains,
        NativeFn::StrStartsWith,
        NativeFn::StrEndsWith,
        NativeFn::StrChars,
        NativeFn::StrSubstring,
        NativeFn::StrFormat,
        NativeFn::MathAbs,
        NativeFn::MathFloor,
        NativeFn::MathCeil,
        NativeFn::MathRound,
        NativeFn::MathPow,
        NativeFn::MathSqrt,
        NativeFn::MathLog,
        NativeFn::MathLog10,
        NativeFn::MathExp,
        NativeFn::MathMin,
        NativeFn::MathMax,
        NativeFn::MathSin,
        NativeFn::MathCos,
        NativeFn::MathTan,
        NativeFn::MathAsin,
        NativeFn::MathAcos,
        NativeFn::MathAtan,
        NativeFn::MathAtan2,
        NativeFn::SysSleep,
        NativeFn::SysEnv,
        NativeFn::SysSetEnv,
        NativeFn::IoReadFile,
        NativeFn::IoWriteFile,
        NativeFn::IoAppendFile,
        NativeFn::IoExists,
        NativeFn::IoDelete,
        NativeFn::IoReadDir,
        NativeFn::IoIsFile,
        NativeFn::IoIsDir,
        NativeFn::IoCreateDir,
        NativeFn::HttpGet,
        NativeFn::HttpPost,
    ];
    for f in all {
        // None of the built-ins above accepts an empty argument list.
        let o = invoke(f, vec![], &caps());
        done_err(o);
    }
    // The nullary bindings take no arguments at all, and exit at most one.
    for f in [
        NativeFn::SysTime,
        NativeFn::SysArgs,
        NativeFn::SysCwd,
        NativeFn::SysPlatform,
        NativeFn::SysArch,
    ] {
        let o = invoke(f, vec![num(1.0)], &caps());
        done_err(o);
    }
    done_err(invoke(NativeFn::SysExit, vec![num(1.0), num(2.0)], &caps()));
}

#[test]
fn wrong_variants_give_errors_not_panics() {
    done_err(invoke(NativeFn::ReverseList, vec![num(1.0)], &caps()));
    done_err(invoke(NativeFn::SortList, vec![text("x")], &caps()));
    done_err(invoke(NativeFn::UniqueList, vec![Value::Nil], &caps()));
    done_err(invoke(NativeFn::FlattenList, vec![Value::Boolean(true)], &caps()));
    done_err(invoke(NativeFn::RangeList, vec![text("3")], &caps()));
    done_err(invoke(NativeFn::StrUpper, vec![num(1.0)], &caps()));
    done_err(invoke(NativeFn::StrSubstring, vec![num(1.0), num(0.0), num(1.0)], &caps()));
    done_err(invoke(NativeFn::MathAbs, vec![text("1")], &caps()));
    done_err(invoke(NativeFn::MathMin, vec![num(1.0), text("2")], &caps()));
    done_err(invoke(NativeFn::SysSleep, vec![text("5")], &caps()));
    done_err(invoke(NativeFn::IoReadFile, vec![num(1.0)], &caps()));
    done_err(invoke(NativeFn::HttpGet, vec![num(1.0)], &caps()));
}

#[test]
fn map_and_friends_validate_then_decline() {
    let list = numbers(&[1.0]);
    let f = Value::Function(7);
    let o = invoke(NativeFn::MapList, vec![list, f], &caps());
    let e = done_err(o);
    assert!(e.contains("not implemented"));
    let o2 = invoke(NativeFn::MapList, vec![num(1.0), num(2.0)], &caps());
    let e2 = done_err(o2);
    assert!(e2.contains("expects a list and a function"));
}

#[test]
fn sleep_and_exit_describe_their_host_work() {
    match invoke(NativeFn::SysSleep, vec![num(20.0)], &caps()) {
        Outcome::Host(HostCall::SleepMillis(b), p) => {
            assert_eq!(f64::from_bits(b), 20.0);
            assert!(matches!(resume(p, HostReply::Unit), Ok(Value::Nil)));
        },
        _ => panic!("sleep should hand the pause to the host"),
    }
    match invoke(NativeFn::SysExit, vec![], &caps()) {
        Outcome::Host(HostCall::ExitProcess(b), _) => assert_eq!(f64::from_bits(b), 0.0),
        _ => panic!("exit should hand the ending to the host"),
    }
}

#[test]
fn env_read_wraps_both_answers() {
    match invoke(NativeFn::SysEnv, vec![text("HOME")], &caps()) {
        Outcome::Host(HostCall::EnvRead(k), p) => {
            assert_eq!(k, "HOME");
            let hit = resume(p, HostReply::TextOption(Some("/root".to_string()))).unwrap();
            assert!(eq_value(&hit, &text("/root")));
        },
        _ => panic!("env should ask the host"),
    }
    match invoke(NativeFn::SysEnv, vec![text("NO_SUCH")], &caps()) {
        Outcome::Host(_, p) => {
            let miss = resume(p, HostReply::TextOption(None)).unwrap();
            assert!(matches!(miss, Value::Nil));
        },
        _ => panic!("env should ask the host"),
    }
}

#[test]
fn read_file_wraps_host_errors() {
    match invoke(NativeFn::IoReadFile, vec![text("a.txt")], &caps()) {
        Outcome::Host(HostCall::FileRead(p), pending) => {
            assert_eq!(p, "a.txt");
            match resume(pending, HostReply::TextOutcome(Err("gone".to_string()))) {
                Err(e) => assert_eq!(e, "could not read the file: gone"),
                Ok(_) => panic!("a host failure should come back as an error"),
            }
        },
        _ => panic!("read_file should ask the host"),
    }
}

#[test]
fn http_disabled_is_a_fixed_error() {
    let e = done_err(invoke(NativeFn::HttpGet, vec![text("http://x")], &caps()));
    assert_eq!(e, "HTTP is not enabled in this build");
    let enabled = HostCaps { http_enabled: true };
    match invoke(NativeFn::HttpGet, vec![text("http://x")], &enabled) {
        Outcome::Host(HostCall::WebGet(u), p) => {
            assert_eq!(u, "http://x");
            let v = resume(p, HostReply::WebOutcome(Ok((200, "ok".to_string())))).unwrap();
            match v {
                Value::Dict(d) => {
                    assert_eq!(d.len(), 2);
                    assert!(eq_value(&d[0].1, &num(200.0)));
                    assert!(eq_value(&d[1].1, &text("ok")));
                },
                _ => panic!("the web answer should be a dictionary"),
            }
        },
        _ => panic!("with the capability the transfer goes to the host"),
    }
}

#[test]
fn math_domains_are_checked_before_the_host() {
    done_err(invoke(NativeFn::MathSqrt, vec![num(-1.0)], &caps()));
    done_err(invoke(NativeFn::MathLog, vec![num(0.0)], &caps()));
    done_err(invoke(NativeFn::MathLog, vec![num(-3.0)], &caps()));
    done_err(invoke(NativeFn::MathLog10, vec![num(0.0)], &caps()));
    done_err(invoke(NativeFn::MathAsin, vec![num(2.0)], &caps()));
    done_err(invoke(NativeFn::MathAcos, vec![num(-1.5)], &caps()));
    // In-domain calls reach the host and come back as numbers.
    match invoke(NativeFn::MathSqrt, vec![num(4.0)], &caps()) {
        Outcome::Host(HostCall::NumUnary(_, b), p) => {
            let r = resume(p, HostReply::Bits(f64::from_bits(b).sqrt().to_bits())).unwrap();
            assert!(eq_value(&r, &num(2.0)));
        },
        _ => panic!("sqrt of a valid number goes to the host"),
    }
}

#[test]
fn abs_min_max_are_decided_here() {
    assert!(eq_value(&done_ok(invoke(NativeFn::MathAbs, vec![num(-3.5)], &caps())), &num(3.5)));
    assert!(eq_value(
        &done_ok(invoke(NativeFn::MathMin, vec![num(3.0), num(-1.0), num(2.0)], &caps())),
        &num(-1.0),
    ));
    assert!(eq_value(
        &done_ok(invoke(NativeFn::MathMax, vec![num(3.0), num(-1.0), num(2.0)], &caps())),
        &num(3.0),
    ));
    // A leading not-a-number is kept, as the replacement is only on strict order.
    let o = done_ok(invoke(NativeFn::MathMin, vec![num(f64::NAN), num(1.0)], &caps()));
    assert!(matches!(o, Value::Number(b) if f64::from_bits(b).is_nan()));
}

#[test]
fn exit_takes_a_numeric_code_or_none() {
    let e = done_err(invoke(NativeFn::SysExit, vec![text("x")], &caps()));
    assert_eq!(e, "exit expects a number as the code");
    match invoke(NativeFn::SysExit, vec![num(3.0)], &caps()) {
        Outcome::Host(HostCall::ExitProcess(b), _) => assert_eq!(f64::from_bits(b), 3.0),
        _ => panic!("exit should hand the ending to the host"),
    }
}

#[test]
fn empty_lists_are_no_trouble() {
    let empty = Value::List(vec![]);
    for f in [
        NativeFn::ReverseList,
        NativeFn::SortList,
        NativeFn::UniqueList,
        NativeFn::FlattenList,
    ] {
        let o = invoke(f, vec![Value::List(vec![])], &caps());
        assert!(eq_value(&done_ok(o), &empty));
    }
    assert!(eq_value(&done_ok(invoke(NativeFn::StrLen, vec![Value::List(vec![])], &caps())), &num(0.0)));
}

#[test]
fn a_reply_of_the_wrong_shape_is_an_error() {
    match resume(native_bridge::bridge::Pending::WrapNumber, HostReply::Unit) {
        Err(e) => assert_eq!(e, "the host reply does not fit the pending call"),
        Ok(_) => panic!("a mismatched reply should be refused"),
    }
}

#[test]
fn large_whole_operands_leave_range_to_the_host() {
    // Above 2^52 the whole-number regime ends: stepping is the host's.
    let big = (1u64 << 53) as f64;
    let o = invoke(NativeFn::RangeList, vec![num(big), num(big + 4.0), num(1.0)], &caps());
    assert!(matches!(o, Outcome::Host(HostCall::RangeFloat(_, _, _), _)));
}

#[test]
fn sort_is_stable_on_equal_ranking_values() {
    // Values of different shapes rank equal, so they must keep their order.
    let o = invoke(
        NativeFn::SortList,
        vec![Value::List(vec![Value::Nil, Value::Boolean(true), Value::Function(9)])],
        &caps(),
    );
    match done_ok(o) {
        Value::List(items) => {
            assert!(matches!(items[0], Value::Nil));
            assert!(matches!(items[1], Value::Boolean(true)));
            assert!(matches!(items[2], Value::Function(9)));
        },
        _ => panic!("sort did not give a list"),
    }
    // Not-a-number payloads rank equal to everything and also keep their order.
    let n1 = f64::NAN.to_bits() | 1;
    let n2 = f64::NAN.to_bits() | 2;
    let o2 = invoke(
        NativeFn::SortList,
        vec![Value::List(vec![Value::Number(n1), num(1.0), Value::Number(n2)])],
        &caps(),
    );
    match done_ok(o2) {
        Value::List(items) => {
            assert!(matches!(items[0], Value::Number(b) if b == n1));
            assert!(matches!(items[1], Value::Number(b) if b == 1.0f64.to_bits()));
            assert!(matches!(items[2], Value::Number(b) if b == n2));
        },
        _ => panic!("sort did not give a list"),
    }
}
