//! The filesystem built-ins.
//!
//! Each validates its arguments here and describes its effect as one host
//! call; `resume` turns the host's answer into the built-in's value, wrapping
//! a host failure in a descriptive error message. Deleting takes files and
//! directories alike; creating a directory creates the missing parents too.
use vstd::prelude::*;

use crate::bridge::{fail, failed_with, HostCall, Outcome, Pending};
use crate::symbol_table::SymbolTable;
use crate::value::{NativeFn, Value};

verus! {

/// The outcome is the given host call on the one path argument.
pub open spec fn path_call_post(
    args: Seq<Value>,
    o: Outcome,
    arity_msg: Seq<char>,
    type_msg: Seq<char>,
    call_of: spec_fn(String) -> HostCall,
    p: Pending,
) -> bool {
    if args.len() != 1 {
        failed_with(o, arity_msg)
    } else {
        match args[0] {
            Value::Str(path) => match o {
                Outcome::Host(c, p2) => c == call_of(path) && p2 == p,
                Outcome::Done(_) => false,
            },
            _ => failed_with(o, type_msg),
        }
    }
}

/// The outcome is the given host call on the two string arguments.
pub open spec fn two_text_call_post(
    args: Seq<Value>,
    o: Outcome,
    arity_msg: Seq<char>,
    type_msg: Seq<char>,
    call_of: spec_fn(String, String) -> HostCall,
    p: Pending,
) -> bool {
    if args.len() != 2 {
        failed_with(o, arity_msg)
    } else {
        match (args[0], args[1]) {
            (Value::Str(a), Value::Str(b)) => match o {
                Outcome::Host(c, p2) => c == call_of(a, b) && p2 == p,
                Outcome::Done(_) => false,
            },
            _ => failed_with(o, type_msg),
        }
    }
}

/// Read a whole file as text.
pub(crate) fn run_read_file(args: Vec<Value>) -> (o: Outcome)
    ensures
        path_call_post(
            args@,
            o,
            "read_file expects 1 argument"@,
            "read_file expects the path as a string"@,
            |p: String| HostCall::FileRead(p),
            Pending::WrapReadFile,
        ),
{
    let mut args = args;
    if args.len() != 1 {
        return fail("read_file expects 1 argument");
    }
    match args.remove(0) {
        Value::Str(p) => Outcome::Host(HostCall::FileRead(p), Pending::WrapReadFile),
        _ => fail("read_file expects the path as a string"),
    }
}

/// Write a whole file from text, replacing what was there.
pub(crate) fn run_write_file(args: Vec<Value>) -> (o: Outcome)
    ensures
        two_text_call_post(
            args@,
            o,
            "write_file expects 2 arguments"@,
            "write_file expects the path and the contents as strings"@,
            |a: String, b: String| HostCall::FileWrite(a, b),
            Pending::WrapWriteFile,
        ),
{
    let mut args = args;
    if args.len() != 2 {
        return fail("write_file expects 2 arguments");
    }
    let second = args.remove(1);
    let first = args.remove(0);
    match (first, second) {
        (Value::Str(a), Value::Str(b)) => Outcome::Host(
            HostCall::FileWrite(a, b),
            Pending::WrapWriteFile,
        ),
        _ => fail("write_file expects the path and the contents as strings"),
    }
}

/// Append text to a file, creating it first when it is missing.
pub(crate) fn run_append_file(args: Vec<Value>) -> (o: Outcome)
    ensures
        two_text_call_post(
            args@,
            o,
            "append_file expects 2 arguments"@,
            "append_file expects the path and the contents as strings"@,
            |a: String, b: String| HostCall::FileAppend(a, b),
            Pending::WrapAppendFile,
        ),
{
    let mut args = args;
    if args.len() != 2 {
        return fail("append_file expects 2 arguments");
    }
    let second = args.remove(1);
    let first = args.remove(0);
    match (first, second) {
        (Value::Str(a), Value::Str(b)) => Outcome::Host(
            HostCall::FileAppend(a, b),
            Pending::WrapAppendFile,
        ),
        _ => fail("append_file expects the path and the contents as strings"),
    }
}

/// Whether anything lives at the path.
pub(crate) fn run_exists(args: Vec<Value>) -> (o: Outcome)
    ensures
        path_call_post(
            args@,
            o,
            "exists expects 1 argument"@,
            "exists expects the path as a string"@,
            |p: String| HostCall::PathExists(p),
            Pending::WrapFlag,
        ),
{
    let mut args = args;
    if args.len() != 1 {
        return fail("exists expects 1 argument");
    }
    match args.remove(0) {
        Value::Str(p) => Outcome::Host(HostCall::PathExists(p), Pending::WrapFlag),
        _ => fail("exists expects the path as a string"),
    }
}

/// Remove a file, or a directory with everything under it.
pub(crate) fn run_delete(args: Vec<Value>) -> (o: Outcome)
    ensures
        path_call_post(
            args@,
            o,
            "delete expects 1 argument"@,
            "delete expects the path as a string"@,
            |p: String| HostCall::PathDelete(p),
            Pending::WrapDelete,
        ),
{
    let mut args = args;
    if args.len() != 1 {
        return fail("delete expects 1 argument");
    }
    match args.remove(0) {
        Value::Str(p) => Outcome::Host(HostCall::PathDelete(p), Pending::WrapDelete),
        _ => fail("delete expects the path as a string"),
    }
}

/// The names of a directory's entries.
pub(crate) fn run_read_dir(args: Vec<Value>) -> (o: Outcome)
    ensures
        path_call_post(
            args@,
            o,
            "read_dir expects 1 argument"@,
            "read_dir expects the directory path as a string"@,
            |p: String| HostCall::DirList(p),
            Pending::WrapReadDir,
        ),
{
    let mut args = args;
    if args.len() != 1 {
        return fail("read_dir expects 1 argument");
    }
    match args.remove(0) {
        Value::Str(p) => Outcome::Host(HostCall::DirList(p), Pending::WrapReadDir),
        _ => fail("read_dir expects the directory path as a string"),
    }
}

/// Whether the path names a file.
pub(crate) fn run_is_file(args: Vec<Value>) -> (o: Outcome)
    ensures
        path_call_post(
            args@,
            o,
            "is_file expects 1 argument"@,
            "is_file expects the path as a string"@,
            |p: String| HostCall::PathIsFile(p),
            Pending::WrapFlag,
        ),
{
    let mut args = args;
    if args.len() != 1 {
        return fail("is_file expects 1 argument");
    }
    match args.remove(0) {
        Value::Str(p) => Outcome::Host(HostCall::PathIsFile(p), Pending::WrapFlag),
        _ => fail("is_file expects the path as a string"),
    }
}

/// Whether the path names a directory.
pub(crate) fn run_is_dir(args: Vec<Value>) -> (o: Outcome)
    ensures
        path_call_post(
            args@,
            o,
            "is_dir expects 1 argument"@,
            "is_dir expects the path as a string"@,
            |p: String| HostCall::PathIsDir(p),
            Pending::WrapFlag,
        ),
{
    let mut args = args;
    if args.len() != 1 {
        return fail("is_dir expects 1 argument");
    }
    match args.remove(0) {
        Value::Str(p) => Outcome::Host(HostCall::PathIsDir(p), Pending::WrapFlag),
        _ => fail("is_dir expects the path as a string"),
    }
}

/// Create a directory, with its missing parents.
pub(crate) fn run_create_dir(args: Vec<Value>) -> (o: Outcome)
    ensures
        path_call_post(
            args@,
            o,
            "create_dir expects 1 argument"@,
            "create_dir expects the path as a string"@,
            |p: String| HostCall::DirCreate(p),
            Pending::WrapCreateDir,
        ),
{
    let mut args = args;
    if args.len() != 1 {
        return fail("create_dir expects 1 argument");
    }
    match args.remove(0) {
        Value::Str(p) => Outcome::Host(HostCall::DirCreate(p), Pending::WrapCreateDir),
        _ => fail("create_dir expects the path as a string"),
    }
}

/// Install the filesystem family into the registry.
pub fn register(globals: &mut SymbolTable)
    ensures
        final(globals)@ == old(globals)@
            .insert("read_file"@, (Value::NativeFunction(NativeFn::IoReadFile), false, true))
            .insert("write_file"@, (Value::NativeFunction(NativeFn::IoWriteFile), false, true))
            .insert("append_file"@, (Value::NativeFunction(NativeFn::IoAppendFile), false, true))
            .insert("exists"@, (Value::NativeFunction(NativeFn::IoExists), false, true))
            .insert("delete"@, (Value::NativeFunction(NativeFn::IoDelete), false, true))
            .insert("read_dir"@, (Value::NativeFunction(NativeFn::IoReadDir), false, true))
            .insert("is_file"@, (Value::NativeFunction(NativeFn::IoIsFile), false, true))
            .insert("is_dir"@, (Value::NativeFunction(NativeFn::IoIsDir), false, true))
            .insert("create_dir"@, (Value::NativeFunction(NativeFn::IoCreateDir), false, true)),
{
    globals.define_native_function("read_file", NativeFn::IoReadFile);
    globals.define_native_function("write_file", NativeFn::IoWriteFile);
    globals.define_native_function("append_file", NativeFn::IoAppendFile);
    globals.define_native_function("exists", NativeFn::IoExists);
    globals.define_native_function("delete", NativeFn::IoDelete);
    globals.define_native_function("read_dir", NativeFn::IoReadDir);
    globals.define_native_function("is_file", NativeFn::IoIsFile);
    globals.define_native_function("is_dir", NativeFn::IoIsDir);
    globals.define_native_function("create_dir", NativeFn::IoCreateDir);
}

} // verus!
