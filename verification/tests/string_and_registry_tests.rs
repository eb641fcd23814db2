use native_bridge::bridge::{invoke, resume, HostCall, HostCaps, HostReply, Outcome};
use native_bridge::collections::create_module;
use native_bridge::math::{E_BITS, PI_BITS, TAU_BITS};
use native_bridge::symbol_table::SymbolTable;
use native_bridge::value::{cmp_value, eq_value, NativeFn, Rank, Value};

fn caps() -> HostCaps {
    HostCaps { http_enabled: false }
}

fn num(x: f64) -> Value {
    Value::Number(x.to_bits())
}

fn text(s: &str) -> Value {
    Value::Str(s.to_string())
}

fn done_ok(o: Outcome) -> Value {
    match o {
        Outcome::Done(Ok(v)) => v,
        Outcome::Done(Err(e)) => panic!("expected a value, got the error: {}", e),
        Outcome::Host(_, _) => panic!("expected a finished value, got a host call"),
    }
}

fn done_err(o: Outcome) -> String {
    match o {
        Outcome::Done(Err(e)) => e,
        Outcome::Done(Ok(_)) => panic!("expected an error, got a value"),
        Outcome::Host(_, _) => panic!("expected an error, got a host call"),
    }
}

#[test]
fn substring_takes_character_ranges() {
    let o = invoke(
        NativeFn::StrSubstring,
        vec![text("hello"), num(1.0), num(4.0)],
        &caps(),
    );
    assert!(eq_value(&done_ok(o), &text("ell")));
}

#[test]
fn substring_clamps_then_rejects_a_crossed_range() {
    let o = invoke(NativeFn::StrSubstring, vec![text("hi"), num(5.0), num(1.0)], &caps());
    done_err(o);
    let o2 = invoke(NativeFn::StrSubstring, vec![text("hi"), num(1.0), num(50.0)], &caps());
    assert!(eq_value(&done_ok(o2), &text("i")));
}

#[test]
fn substring_truncates_fractional_offsets() {
    // The cast truncates towards zero and clamps negatives at zero,
    // exactly as a hardware cast of the double would.
    let o = invoke(
        NativeFn::StrSubstring,
        vec![text("hello"), num(1.9), num(4.2)],
        &caps(),
    );
    assert!(eq_value(&done_ok(o), &text("ell")));
    let o2 = invoke(
        NativeFn::StrSubstring,
        vec![text("hello"), num(-2.0), num(2.0)],
        &caps(),
    );
    assert!(eq_value(&done_ok(o2), &text("he")));
}

#[test]
fn join_glues_strings_and_rejects_others() {
    let parts = Value::List(vec![text("a"), text("b")]);
    let o = invoke(NativeFn::StrJoin, vec![parts, text("-")], &caps());
    assert!(eq_value(&done_ok(o), &text("a-b")));
    let bad = Value::List(vec![num(1.0), text("b")]);
    let e = done_err(invoke(NativeFn::StrJoin, vec![bad, text("-")], &caps()));
    assert_eq!(e, "join expects a list of strings");
}

#[test]
fn chars_yields_one_character_strings() {
    let o = invoke(NativeFn::StrChars, vec![text("héllo")], &caps());
    let expect = Value::List(vec![text("h"), text("é"), text("l"), text("l"), text("o")]);
    assert!(eq_value(&done_ok(o), &expect));
}

#[test]
fn case_trim_split_replace_search_match_the_standard_library() {
    assert!(eq_value(&done_ok(invoke(NativeFn::StrUpper, vec![text("héllo")], &caps())), &text("HÉLLO")));
    assert!(eq_value(&done_ok(invoke(NativeFn::StrLower, vec![text("AbC")], &caps())), &text("abc")));
    assert!(eq_value(&done_ok(invoke(NativeFn::StrTrim, vec![text("  x \t")], &caps())), &text("x")));
    let o = invoke(NativeFn::StrSplit, vec![text("a,b,,c"), text(",")], &caps());
    let expect = Value::List(vec![text("a"), text("b"), text(""), text("c")]);
    assert!(eq_value(&done_ok(o), &expect));
    assert!(eq_value(
        &done_ok(invoke(NativeFn::StrReplace, vec![text("banana"), text("an"), text("o")], &caps())),
        &text("booa"),
    ));
    assert!(eq_value(&done_ok(invoke(NativeFn::StrContains, vec![text("banana"), text("nan")], &caps())), &Value::Boolean(true)));
    assert!(eq_value(&done_ok(invoke(NativeFn::StrContains, vec![text("banana"), text("x")], &caps())), &Value::Boolean(false)));
    assert!(eq_value(&done_ok(invoke(NativeFn::StrStartsWith, vec![text("banana"), text("ban")], &caps())), &Value::Boolean(true)));
    assert!(eq_value(&done_ok(invoke(NativeFn::StrEndsWith, vec![text("banana"), text("ana")], &caps())), &Value::Boolean(true)));
    assert!(eq_value(&done_ok(invoke(NativeFn::StrEndsWith, vec![text("banana"), text("ban")], &caps())), &Value::Boolean(false)));
}

#[test]
fn len_measures_strings_in_bytes_and_lists_in_elements() {
    assert!(eq_value(&done_ok(invoke(NativeFn::StrLen, vec![text("héllo")], &caps())), &num(6.0)));
    let l = Value::List(vec![num(1.0), num(2.0)]);
    assert!(eq_value(&done_ok(invoke(NativeFn::StrLen, vec![l], &caps())), &num(2.0)));
}

#[test]
fn format_substitutes_positional_placeholders() {
    let o = invoke(
        NativeFn::StrFormat,
        vec![text("{0} and {1} and {0}"), text("a"), num(7.0)],
        &caps(),
    );
    assert!(eq_value(&done_ok(o), &text("a and 7 and a")));
    let o2 = invoke(
        NativeFn::StrFormat,
        vec![
            text("{0} {1} {2} {3} {4}"),
            Value::Boolean(true),
            Value::Nil,
            Value::List(vec![]),
            Value::Dict(vec![]),
            num(-12.0),
        ],
        &caps(),
    );
    assert!(eq_value(&done_ok(o2), &text("true nil [list] {dict} -12")));
}

#[test]
fn format_renders_fractional_numbers_through_the_host() {
    let o = invoke(NativeFn::StrFormat, vec![text("x={0}"), num(2.5)], &caps());
    match o {
        Outcome::Host(HostCall::RenderNumbers(bs), p) => {
            assert_eq!(bs.len(), 1);
            let shown: Vec<String> = bs.iter().map(|b| f64::from_bits(*b).to_string()).collect();
            let r = resume(p, HostReply::Texts(shown)).unwrap();
            assert!(eq_value(&r, &text("x=2.5")));
        },
        _ => panic!("a fractional number should be rendered by the host"),
    }
}

fn sample_args() -> Vec<Value> {
    vec![Value::List(vec![num(2.0), num(1.0), num(2.0)])]
}

#[test]
fn the_module_and_the_registry_bind_the_same_functions() {
    let module = create_module();
    let mut globals = SymbolTable::new();
    native_bridge::collections::register(&mut globals);
    match &module {
        Value::Dict(entries) => {
            assert_eq!(entries.len(), 11);
            for (k, v) in entries.iter() {
                let name = match k {
                    Value::Str(s) => s.clone(),
                    _ => panic!("a module key should be a string"),
                };
                let bound = globals.lookup(name.as_str()).expect("the registry misses a module name");
                assert!(eq_value(bound, v));
                // And calling through either value gives identical results.
                let (mf, gf) = match (v, bound) {
                    (Value::NativeFunction(a), Value::NativeFunction(b)) => (*a, *b),
                    _ => panic!("module entries should be built-in functions"),
                };
                let via_module = invoke(mf, sample_args(), &caps());
                let via_global = invoke(gf, sample_args(), &caps());
                match (via_module, via_global) {
                    (Outcome::Done(Ok(a)), Outcome::Done(Ok(b))) => assert!(eq_value(&a, &b)),
                    (Outcome::Done(Err(a)), Outcome::Done(Err(b))) => assert_eq!(a, b),
                    _ => panic!("the two packagings of {} diverged", name),
                }
            }
        },
        _ => panic!("the module should be a dictionary"),
    }
}

#[test]
fn every_family_registers_its_names() {
    let mut globals = SymbolTable::new();
    native_bridge::collections::register(&mut globals);
    native_bridge::string::register(&mut globals);
    native_bridge::math::register(&mut globals);
    native_bridge::sys::register(&mut globals);
    native_bridge::io::register(&mut globals);
    native_bridge::http::register(&mut globals);
    for name in [
        "map", "filter", "reduce", "find", "any", "all", "reverse", "sort", "unique", "flatten",
        "range", "len", "upper", "lower", "trim", "split", "join", "replace", "contains",
        "starts_with", "ends_with", "chars", "substring", "format", "abs", "floor", "ceil",
        "round", "pow", "sqrt", "log", "log10", "exp", "min", "max", "sin", "cos", "tan", "asin",
        "acos", "atan", "atan2", "time", "sleep", "exit", "args", "env", "set_env", "cwd",
        "platform", "arch", "read_file", "write_file", "append_file", "exists", "delete",
        "read_dir", "is_file", "is_dir", "create_dir", "http_get", "http_post",
    ] {
        assert!(globals.lookup(name).is_some(), "{} is not registered", name);
    }
    assert!(globals.lookup("no_such_binding").is_none());
}

#[test]
fn the_constants_are_the_hardware_constants() {
    assert_eq!(PI_BITS, std::f64::consts::PI.to_bits());
    assert_eq!(E_BITS, std::f64::consts::E.to_bits());
    assert_eq!(TAU_BITS, std::f64::consts::TAU.to_bits());
    let mut globals = SymbolTable::new();
    native_bridge::math::register(&mut globals);
    assert!(eq_value(globals.lookup("PI").unwrap(), &num(std::f64::consts::PI)));
}

#[test]
fn shadowing_keeps_the_newest_binding() {
    let mut globals = SymbolTable::new();
    globals.define("x".to_string(), num(1.0), true, false);
    globals.define("x".to_string(), num(2.0), true, false);
    assert!(eq_value(globals.lookup("x").unwrap(), &num(2.0)));
}

#[test]
fn equality_follows_the_language_rules() {
    assert!(eq_value(&num(0.0), &num(-0.0)));
    assert!(!eq_value(&num(f64::NAN), &num(f64::NAN)));
    assert!(eq_value(&text("a"), &text("a")));
    assert!(!eq_value(&text("a"), &num(1.0)));
    let a = Value::List(vec![num(1.0), text("x")]);
    let b = Value::List(vec![num(1.0), text("x")]);
    assert!(eq_value(&a, &b));
    let d1 = Value::Dict(vec![(text("k"), num(1.0))]);
    let d2 = Value::Dict(vec![(text("k"), num(1.0))]);
    assert!(eq_value(&d1, &d2));
}

#[test]
fn empty_strings_pass_through_the_string_family() {
    assert!(eq_value(&done_ok(invoke(NativeFn::StrUpper, vec![text("")], &caps())), &text("")));
    assert!(eq_value(&done_ok(invoke(NativeFn::StrChars, vec![text("")], &caps())), &Value::List(vec![])));
    let o = invoke(NativeFn::StrSubstring, vec![text(""), num(0.0), num(3.0)], &caps());
    assert!(eq_value(&done_ok(o), &text("")));
    let o2 = invoke(NativeFn::StrJoin, vec![Value::List(vec![]), text("-")], &caps());
    assert!(eq_value(&done_ok(o2), &text("")));
}

#[test]
fn ordering_ranks_not_a_number_as_equal() {
    assert_eq!(cmp_value(&num(f64::NAN), &num(1.0)), Rank::Equal);
    assert_eq!(cmp_value(&num(1.0), &num(2.0)), Rank::Less);
    assert_eq!(cmp_value(&num(2.0), &num(1.0)), Rank::Greater);
    assert_eq!(cmp_value(&text("a"), &text("b")), Rank::Less);
    assert_eq!(cmp_value(&num(1.0), &text("b")), Rank::Equal);
}

#[test]
fn join_inverts_split() {
    for s in ["a-b--c", "", "-", "plain", "--"] {
        let o = invoke(NativeFn::StrSplit, vec![text(s), text("-")], &caps());
        let parts = done_ok(o);
        let o2 = invoke(NativeFn::StrJoin, vec![parts, text("-")], &caps());
        assert!(eq_value(&done_ok(o2), &text(s)));
    }
}
