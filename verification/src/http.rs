//! The web built-ins.
//!
//! The network is an optional capability. With it absent the functions still
//! exist and deterministically answer a fixed error; with it present they
//! validate their arguments here and hand the one transfer to the host, whose
//! answer becomes a dictionary of the status number and the body text.
use vstd::prelude::*;

use crate::bridge::{fail, failed_with, HostCall, HostCaps, Outcome, Pending};
use crate::symbol_table::SymbolTable;
use crate::value::{NativeFn, Value};

verus! {

/// What the web-get built-in answers: without the capability a fixed error,
/// with it one transfer of the given address.
pub open spec fn http_get_post(args: Seq<Value>, http_enabled: bool, o: Outcome) -> bool {
    if args.len() != 1 {
        failed_with(o, "http_get expects 1 argument"@)
    } else {
        match args[0] {
            Value::Str(url) => if !http_enabled {
                failed_with(o, "HTTP is not enabled in this build"@)
            } else {
                match o {
                    Outcome::Host(c, p) => match (c, p) {
                        (HostCall::WebGet(u2), Pending::WrapWeb) => u2@ == url@,
                        _ => false,
                    },
                    Outcome::Done(_) => false,
                }
            },
            _ => failed_with(o, "http_get expects the address as a string"@),
        }
    }
}

/// Fetch an address.
pub(crate) fn run_http_get(args: Vec<Value>, caps: &HostCaps) -> (o: Outcome)
    ensures
        http_get_post(args@, caps.http_enabled, o),
{
    let mut args = args;
    if args.len() != 1 {
        return fail("http_get expects 1 argument");
    }
    match args.remove(0) {
        Value::Str(url) => {
            if !caps.http_enabled {
                fail("HTTP is not enabled in this build")
            } else {
                Outcome::Host(HostCall::WebGet(url), Pending::WrapWeb)
            }
        },
        _ => fail("http_get expects the address as a string"),
    }
}

/// What the web-post built-in answers.
pub open spec fn http_post_post(args: Seq<Value>, http_enabled: bool, o: Outcome) -> bool {
    if args.len() != 2 {
        failed_with(o, "http_post expects 2 arguments"@)
    } else {
        match (args[0], args[1]) {
            (Value::Str(url), Value::Str(body)) => if !http_enabled {
                failed_with(o, "HTTP is not enabled in this build"@)
            } else {
                match o {
                    Outcome::Host(c, p) => match (c, p) {
                        (HostCall::WebPost(u2, b2), Pending::WrapWeb) => u2@ == url@ && b2@
                            == body@,
                        _ => false,
                    },
                    Outcome::Done(_) => false,
                }
            },
            _ => failed_with(o, "http_post expects the address and the body as strings"@),
        }
    }
}

/// Send a body to an address.
pub(crate) fn run_http_post(args: Vec<Value>, caps: &HostCaps) -> (o: Outcome)
    ensures
        http_post_post(args@, caps.http_enabled, o),
{
    let mut args = args;
    if args.len() != 2 {
        return fail("http_post expects 2 arguments");
    }
    let second = args.remove(1);
    let first = args.remove(0);
    match (first, second) {
        (Value::Str(url), Value::Str(body)) => {
            if !caps.http_enabled {
                fail("HTTP is not enabled in this build")
            } else {
                Outcome::Host(HostCall::WebPost(url, body), Pending::WrapWeb)
            }
        },
        _ => fail("http_post expects the address and the body as strings"),
    }
}

/// Install the web family into the registry.
pub fn register(globals: &mut SymbolTable)
    ensures
        final(globals)@ == old(globals)@
            .insert("http_get"@, (Value::NativeFunction(NativeFn::HttpGet), false, true))
            .insert("http_post"@, (Value::NativeFunction(NativeFn::HttpPost), false, true)),
{
    globals.define_native_function("http_get", NativeFn::HttpGet);
    globals.define_native_function("http_post", NativeFn::HttpPost);
}

} // verus!
