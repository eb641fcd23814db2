//! The process and environment built-ins.
//!
//! Each validates its arguments here and describes its effect as one host
//! call: the clock, a blocking sleep, the argument list, environment reads
//! and writes, the working directory, the platform and architecture names,
//! and process exit, which never returns. The nullary bindings take no
//! arguments at all, and exit takes at most a numeric code: any other call
//! shape is an error before any work is done.
use vstd::prelude::*;

use crate::bridge::{fail, failed_with, HostCall, Outcome, Pending};
use crate::num::bits_of_int;
use crate::num::num_of_int;
use crate::symbol_table::SymbolTable;
use crate::value::{NativeFn, Value};

verus! {

/// What the clock built-in answers: seconds since the epoch, fractional.
pub open spec fn time_post(args: Seq<Value>, o: Outcome) -> bool {
    if args.len() != 0 {
        failed_with(o, "time expects no arguments"@)
    } else {
        o == Outcome::Host(HostCall::ClockNow, Pending::WrapNumber)
    }
}

pub(crate) fn run_time(args: Vec<Value>) -> (o: Outcome)
    ensures
        time_post(args@, o),
{
    if args.len() != 0 {
        return fail("time expects no arguments");
    }
    Outcome::Host(HostCall::ClockNow, Pending::WrapNumber)
}

/// What the sleep built-in answers: a blocking pause of the given
/// milliseconds, then nil.
pub open spec fn sleep_post(args: Seq<Value>, o: Outcome) -> bool {
    if args.len() != 1 {
        failed_with(o, "sleep expects 1 argument"@)
    } else {
        match args[0] {
            Value::Number(b) => o == Outcome::Host(HostCall::SleepMillis(b), Pending::WrapNil),
            _ => failed_with(o, "sleep expects a number of milliseconds"@),
        }
    }
}

pub(crate) fn run_sleep(args: Vec<Value>) -> (o: Outcome)
    ensures
        sleep_post(args@, o),
{
    if args.len() != 1 {
        return fail("sleep expects 1 argument");
    }
    match &args[0] {
        Value::Number(b) => Outcome::Host(HostCall::SleepMillis(*b), Pending::WrapNil),
        _ => fail("sleep expects a number of milliseconds"),
    }
}

/// What the exit built-in answers: the process ends with the given code,
/// zero when none is given; nothing ever comes back. More than one
/// argument, or a code that is not a number, is an error instead.
pub open spec fn exit_post(args: Seq<Value>, o: Outcome) -> bool {
    if args.len() > 1 {
        failed_with(o, "exit expects 0 or 1 arguments"@)
    } else if args.len() == 0 {
        o == Outcome::Host(HostCall::ExitProcess(bits_of_int(0)), Pending::WrapExit)
    } else {
        match args[0] {
            Value::Number(b) => o == Outcome::Host(HostCall::ExitProcess(b), Pending::WrapExit),
            _ => failed_with(o, "exit expects a number as the code"@),
        }
    }
}

pub(crate) fn run_exit(args: Vec<Value>) -> (o: Outcome)
    ensures
        exit_post(args@, o),
{
    if args.len() > 1 {
        return fail("exit expects 0 or 1 arguments");
    }
    if args.len() == 0 {
        return Outcome::Host(HostCall::ExitProcess(num_of_int(0)), Pending::WrapExit);
    }
    match &args[0] {
        Value::Number(b) => Outcome::Host(HostCall::ExitProcess(*b), Pending::WrapExit),
        _ => fail("exit expects a number as the code"),
    }
}

/// What the argument-list built-in answers: the program's arguments, the
/// executable's own name left out.
pub open spec fn args_post(args: Seq<Value>, o: Outcome) -> bool {
    if args.len() != 0 {
        failed_with(o, "args expects no arguments"@)
    } else {
        o == Outcome::Host(HostCall::ProgramArgs, Pending::WrapArgs)
    }
}

pub(crate) fn run_args(args: Vec<Value>) -> (o: Outcome)
    ensures
        args_post(args@, o),
{
    if args.len() != 0 {
        return fail("args expects no arguments");
    }
    Outcome::Host(HostCall::ProgramArgs, Pending::WrapArgs)
}

/// What the environment-read built-in answers: the variable's value, or nil
/// when it is not set — a missing variable is no error.
pub open spec fn env_post(args: Seq<Value>, o: Outcome) -> bool {
    if args.len() != 1 {
        failed_with(o, "env expects 1 argument"@)
    } else {
        match args[0] {
            Value::Str(k) => match o {
                Outcome::Host(c, p) => match (c, p) {
                    (HostCall::EnvRead(k2), Pending::WrapEnv) => k2@ == k@,
                    _ => false,
                },
                Outcome::Done(_) => false,
            },
            _ => failed_with(o, "env expects the variable's name as a string"@),
        }
    }
}

pub(crate) fn run_env(args: Vec<Value>) -> (o: Outcome)
    ensures
        env_post(args@, o),
{
    let mut args = args;
    if args.len() != 1 {
        return fail("env expects 1 argument");
    }
    match args.remove(0) {
        Value::Str(k) => Outcome::Host(HostCall::EnvRead(k), Pending::WrapEnv),
        _ => fail("env expects the variable's name as a string"),
    }
}

/// What the environment-write built-in answers: the variable is set
/// process-wide, then nil.
pub open spec fn set_env_post(args: Seq<Value>, o: Outcome) -> bool {
    if args.len() != 2 {
        failed_with(o, "set_env expects 2 arguments"@)
    } else {
        match (args[0], args[1]) {
            (Value::Str(k), Value::Str(v)) => match o {
                Outcome::Host(c, p) => match (c, p) {
                    (HostCall::EnvWrite(k2, v2), Pending::WrapNil) => k2@ == k@ && v2@ == v@,
                    _ => false,
                },
                Outcome::Done(_) => false,
            },
            _ => failed_with(o, "set_env expects two strings"@),
        }
    }
}

pub(crate) fn run_set_env(args: Vec<Value>) -> (o: Outcome)
    ensures
        set_env_post(args@, o),
{
    let mut args = args;
    if args.len() != 2 {
        return fail("set_env expects 2 arguments");
    }
    let second = args.remove(1);
    let first = args.remove(0);
    match (first, second) {
        (Value::Str(k), Value::Str(v)) => Outcome::Host(
            HostCall::EnvWrite(k, v),
            Pending::WrapNil,
        ),
        _ => fail("set_env expects two strings"),
    }
}

/// What the working-directory built-in answers.
pub open spec fn cwd_post(args: Seq<Value>, o: Outcome) -> bool {
    if args.len() != 0 {
        failed_with(o, "cwd expects no arguments"@)
    } else {
        o == Outcome::Host(HostCall::WorkingDir, Pending::WrapCwd)
    }
}

pub(crate) fn run_cwd(args: Vec<Value>) -> (o: Outcome)
    ensures
        cwd_post(args@, o),
{
    if args.len() != 0 {
        return fail("cwd expects no arguments");
    }
    Outcome::Host(HostCall::WorkingDir, Pending::WrapCwd)
}

/// What the platform built-in answers: the operating system's name.
pub open spec fn platform_post(args: Seq<Value>, o: Outcome) -> bool {
    if args.len() != 0 {
        failed_with(o, "platform expects no arguments"@)
    } else {
        o == Outcome::Host(HostCall::PlatformName, Pending::WrapText)
    }
}

pub(crate) fn run_platform(args: Vec<Value>) -> (o: Outcome)
    ensures
        platform_post(args@, o),
{
    if args.len() != 0 {
        return fail("platform expects no arguments");
    }
    Outcome::Host(HostCall::PlatformName, Pending::WrapText)
}

/// What the architecture built-in answers.
pub open spec fn arch_post(args: Seq<Value>, o: Outcome) -> bool {
    if args.len() != 0 {
        failed_with(o, "arch expects no arguments"@)
    } else {
        o == Outcome::Host(HostCall::ArchName, Pending::WrapText)
    }
}

pub(crate) fn run_arch(args: Vec<Value>) -> (o: Outcome)
    ensures
        arch_post(args@, o),
{
    if args.len() != 0 {
        return fail("arch expects no arguments");
    }
    Outcome::Host(HostCall::ArchName, Pending::WrapText)
}

/// Install the process and environment family into the registry.
pub fn register(globals: &mut SymbolTable)
    ensures
        final(globals)@ == old(globals)@
            .insert("time"@, (Value::NativeFunction(NativeFn::SysTime), false, true))
            .insert("sleep"@, (Value::NativeFunction(NativeFn::SysSleep), false, true))
            .insert("exit"@, (Value::NativeFunction(NativeFn::SysExit), false, true))
            .insert("args"@, (Value::NativeFunction(NativeFn::SysArgs), false, true))
            .insert("env"@, (Value::NativeFunction(NativeFn::SysEnv), false, true))
            .insert("set_env"@, (Value::NativeFunction(NativeFn::SysSetEnv), false, true))
            .insert("cwd"@, (Value::NativeFunction(NativeFn::SysCwd), false, true))
            .insert("platform"@, (Value::NativeFunction(NativeFn::SysPlatform), false, true))
            .insert("arch"@, (Value::NativeFunction(NativeFn::SysArch), false, true)),
{
    globals.define_native_function("time", NativeFn::SysTime);
    globals.define_native_function("sleep", NativeFn::SysSleep);
    globals.define_native_function("exit", NativeFn::SysExit);
    globals.define_native_function("args", NativeFn::SysArgs);
    globals.define_native_function("env", NativeFn::SysEnv);
    globals.define_native_function("set_env", NativeFn::SysSetEnv);
    globals.define_native_function("cwd", NativeFn::SysCwd);
    globals.define_native_function("platform", NativeFn::SysPlatform);
    globals.define_native_function("arch", NativeFn::SysArch);
}

} // verus!
