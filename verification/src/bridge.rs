//! The calling convention of the built-in functions.
//!
//! A built-in takes the evaluated argument list and must validate the
//! argument count first and each argument's variant second, before any work;
//! a violation is answered with an error value, never a panic. Work that
//! only the host can perform — hardware floating-point arithmetic, the
//! filesystem, clock, environment, network — is not done here: the built-in
//! returns a `HostCall` describing the work, and `resume` turns the host's
//! reply into the final result. A built-in that needs no host finishes in
//! one step with `Outcome::Done`.
use vstd::prelude::*;

use crate::num::bits_of_mag;
use crate::num::num_of_mag;
use crate::value::{NativeFn, Value};

verus! {

/// Host capabilities the runtime was configured with. Without the network
/// capability the web built-ins exist but answer a fixed error.
pub struct HostCaps {
    pub http_enabled: bool,
}

/// A floating-point function of one number, named by what it computes.
#[derive(Clone, Copy, PartialEq, Eq, Structural, Debug)]
pub enum UnaryOp {
    Floor,
    Ceil,
    Round,
    Sqrt,
    Ln,
    Log10,
    Exp,
    Sin,
    Cos,
    Tan,
    Asin,
    Acos,
    Atan,
}

/// A floating-point function of two numbers.
#[derive(Clone, Copy, PartialEq, Eq, Structural, Debug)]
pub enum BinaryOp {
    Pow,
    Atan2,
}

/// Work that only the host can do, with every operand already validated.
/// Numbers travel as the bits of a double.
pub enum HostCall {
    NumUnary(UnaryOp, u64),
    NumBinary(BinaryOp, u64, u64),
    RangeFloat(u64, u64, u64),
    RenderNumbers(Vec<u64>),
    ClockNow,
    SleepMillis(u64),
    ExitProcess(u64),
    ProgramArgs,
    EnvRead(String),
    EnvWrite(String, String),
    WorkingDir,
    PlatformName,
    ArchName,
    FileRead(String),
    FileWrite(String, String),
    FileAppend(String, String),
    PathExists(String),
    PathDelete(String),
    DirList(String),
    PathIsFile(String),
    PathIsDir(String),
    DirCreate(String),
    WebGet(String),
    WebPost(String, String),
}

/// What the host hands back for a `HostCall`.
pub enum HostReply {
    Bits(u64),
    BitsSeq(Vec<u64>),
    Flag(bool),
    Text(String),
    Texts(Vec<String>),
    TextOption(Option<String>),
    Unit,
    TextOutcome(Result<String, String>),
    UnitOutcome(Result<(), String>),
    TextsOutcome(Result<Vec<String>, String>),
    WebOutcome(Result<(u16, String), String>),
}

/// What `resume` still needs to finish a call once the host has answered.
pub enum Pending {
    WrapNumber,
    WrapNil,
    WrapRange,
    WrapFormat(String, Vec<Value>),
    WrapArgs,
    WrapEnv,
    WrapText,
    WrapReadFile,
    WrapWriteFile,
    WrapAppendFile,
    WrapFlag,
    WrapDelete,
    WrapReadDir,
    WrapCreateDir,
    WrapCwd,
    WrapWeb,
    WrapExit,
}

/// The answer of a built-in: finished, or waiting on one piece of host work.
pub enum Outcome {
    Done(Result<Value, String>),
    Host(HostCall, Pending),
}

/// The outcome is an error with exactly this message.
pub open spec fn failed_with(o: Outcome, m: Seq<char>) -> bool {
    match o {
        Outcome::Done(r) => match r {
            Result::Err(e) => e@ == m,
            Result::Ok(_) => false,
        },
        Outcome::Host(_, _) => false,
    }
}

/// The outcome is an error, whatever its message.
pub open spec fn is_failure(o: Outcome) -> bool {
    match o {
        Outcome::Done(r) => r is Err,
        Outcome::Host(_, _) => false,
    }
}

/// Answer with an error carrying exactly this message.
pub fn fail(msg: &str) -> (o: Outcome)
    ensures
        failed_with(o, msg@),
{
    Outcome::Done(Result::Err(msg.to_owned()))
}

/// Answer with a finished value.
pub fn succeed(v: Value) -> (o: Outcome)
    ensures
        o == Outcome::Done(Result::<Value, String>::Ok(v)),
{
    Outcome::Done(Result::Ok(v))
}

/// What `invoke` answers, built-in by built-in: the whole calling
/// convention of the bridge in one statement.
pub open spec fn invoke_post(f: NativeFn, args: Seq<Value>, http_enabled: bool, o: Outcome) -> bool {
    match f {
        NativeFn::MapList => crate::collections::hof_post(f, args, o),
        NativeFn::FilterList => crate::collections::hof_post(f, args, o),
        NativeFn::ReduceList => crate::collections::hof_post(f, args, o),
        NativeFn::FindList => crate::collections::hof_post(f, args, o),
        NativeFn::AnyList => crate::collections::hof_post(f, args, o),
        NativeFn::AllList => crate::collections::hof_post(f, args, o),
        NativeFn::ReverseList => crate::collections::reverse_post(args, o),
        NativeFn::SortList => crate::collections::sort_post(args, o),
        NativeFn::UniqueList => crate::collections::unique_post(args, o),
        NativeFn::FlattenList => crate::collections::flatten_post(args, o),
        NativeFn::RangeList => crate::collections::range_post(args, o),
        NativeFn::StrLen => crate::string::len_post(args, o),
        NativeFn::StrUpper => crate::string::mapped_post(
            args,
            o,
            "upper expects 1 argument"@,
            "upper expects a string"@,
            |t: Seq<char>| crate::string::upper_of(t),
        ),
        NativeFn::StrLower => crate::string::mapped_post(
            args,
            o,
            "lower expects 1 argument"@,
            "lower expects a string"@,
            |t: Seq<char>| crate::string::lower_of(t),
        ),
        NativeFn::StrTrim => crate::string::mapped_post(
            args,
            o,
            "trim expects 1 argument"@,
            "trim expects a string"@,
            |t: Seq<char>| crate::string::trim_of(t),
        ),
        NativeFn::StrSplit => crate::string::split_post(args, o),
        NativeFn::StrJoin => crate::string::join_post(args, o),
        NativeFn::StrReplace => crate::string::replace_post(args, o),
        NativeFn::StrContains => crate::string::search_post(
            args,
            o,
            "contains expects 2 arguments"@,
            "contains expects two strings"@,
            |s: Seq<char>, n: Seq<char>| crate::string::contains_sub(s, n),
        ),
        NativeFn::StrStartsWith => crate::string::search_post(
            args,
            o,
            "starts_with expects 2 arguments"@,
            "starts_with expects two strings"@,
            |s: Seq<char>, n: Seq<char>| n.len() <= s.len() && s.subrange(0, n.len() as int) == n,
        ),
        NativeFn::StrEndsWith => crate::string::search_post(
            args,
            o,
            "ends_with expects 2 arguments"@,
            "ends_with expects two strings"@,
            |s: Seq<char>, n: Seq<char>| n.len() <= s.len() && s.subrange(
                s.len() - n.len(),
                s.len() as int,
            ) == n,
        ),
        NativeFn::StrChars => crate::string::chars_post(args, o),
        NativeFn::StrSubstring => crate::string::substring_post(args, o),
        NativeFn::StrFormat => crate::string::format_post(args, o),
        NativeFn::MathAbs => crate::math::abs_post(args, o),
        NativeFn::MathFloor => crate::math::unary_post(
            args,
            o,
            UnaryOp::Floor,
            "floor expects 1 argument"@,
            "floor expects a number"@,
            |b: u64| true,
            Seq::empty(),
        ),
        NativeFn::MathCeil => crate::math::unary_post(
            args,
            o,
            UnaryOp::Ceil,
            "ceil expects 1 argument"@,
            "ceil expects a number"@,
            |b: u64| true,
            Seq::empty(),
        ),
        NativeFn::MathRound => crate::math::unary_post(
            args,
            o,
            UnaryOp::Round,
            "round expects 1 argument"@,
            "round expects a number"@,
            |b: u64| true,
            Seq::empty(),
        ),
        NativeFn::MathPow => crate::math::binary_post(
            args,
            o,
            BinaryOp::Pow,
            "pow expects 2 arguments"@,
            "pow expects two numbers"@,
        ),
        NativeFn::MathSqrt => crate::math::unary_post(
            args,
            o,
            UnaryOp::Sqrt,
            "sqrt expects 1 argument"@,
            "sqrt expects a number"@,
            |b: u64| crate::math::not_negative(b),
            "sqrt does not accept negative numbers"@,
        ),
        NativeFn::MathLog => crate::math::unary_post(
            args,
            o,
            UnaryOp::Ln,
            "log expects 1 argument"@,
            "log expects a number"@,
            |b: u64| crate::math::strictly_positive(b),
            "log only accepts positive numbers"@,
        ),
        NativeFn::MathLog10 => crate::math::unary_post(
            args,
            o,
            UnaryOp::Log10,
            "log10 expects 1 argument"@,
            "log10 expects a number"@,
            |b: u64| crate::math::strictly_positive(b),
            "log10 only accepts positive numbers"@,
        ),
        NativeFn::MathExp => crate::math::unary_post(
            args,
            o,
            UnaryOp::Exp,
            "exp expects 1 argument"@,
            "exp expects a number"@,
            |b: u64| true,
            Seq::empty(),
        ),
        NativeFn::MathMin => crate::math::min_post(args, o),
        NativeFn::MathMax => crate::math::max_post(args, o),
        NativeFn::MathSin => crate::math::unary_post(
            args,
            o,
            UnaryOp::Sin,
            "sin expects 1 argument"@,
            "sin expects a number"@,
            |b: u64| true,
            Seq::empty(),
        ),
        NativeFn::MathCos => crate::math::unary_post(
            args,
            o,
            UnaryOp::Cos,
            "cos expects 1 argument"@,
            "cos expects a number"@,
            |b: u64| true,
            Seq::empty(),
        ),
        NativeFn::MathTan => crate::math::unary_post(
            args,
            o,
            UnaryOp::Tan,
            "tan expects 1 argument"@,
            "tan expects a number"@,
            |b: u64| true,
            Seq::empty(),
        ),
        NativeFn::MathAsin => crate::math::unary_post(
            args,
            o,
            UnaryOp::Asin,
            "asin expects 1 argument"@,
            "asin expects a number"@,
            |b: u64| crate::math::within_unit(b),
            "asin expects a number between -1 and 1"@,
        ),
        NativeFn::MathAcos => crate::math::unary_post(
            args,
            o,
            UnaryOp::Acos,
            "acos expects 1 argument"@,
            "acos expects a number"@,
            |b: u64| crate::math::within_unit(b),
            "acos expects a number between -1 and 1"@,
        ),
        NativeFn::MathAtan => crate::math::unary_post(
            args,
            o,
            UnaryOp::Atan,
            "atan expects 1 argument"@,
            "atan expects a number"@,
            |b: u64| true,
            Seq::empty(),
        ),
        NativeFn::MathAtan2 => crate::math::binary_post(
            args,
            o,
            BinaryOp::Atan2,
            "atan2 expects 2 arguments"@,
            "atan2 expects two numbers"@,
        ),
        NativeFn::SysTime => crate::sys::time_post(args, o),
        NativeFn::SysSleep => crate::sys::sleep_post(args, o),
        NativeFn::SysExit => crate::sys::exit_post(args, o),
        NativeFn::SysArgs => crate::sys::args_post(args, o),
        NativeFn::SysEnv => crate::sys::env_post(args, o),
        NativeFn::SysSetEnv => crate::sys::set_env_post(args, o),
        NativeFn::SysCwd => crate::sys::cwd_post(args, o),
        NativeFn::SysPlatform => crate::sys::platform_post(args, o),
        NativeFn::SysArch => crate::sys::arch_post(args, o),
        NativeFn::IoReadFile => crate::io::path_call_post(
            args,
            o,
            "read_file expects 1 argument"@,
            "read_file expects the path as a string"@,
            |p: String| HostCall::FileRead(p),
            Pending::WrapReadFile,
        ),
        NativeFn::IoWriteFile => crate::io::two_text_call_post(
            args,
            o,
            "write_file expects 2 arguments"@,
            "write_file expects the path and the contents as strings"@,
            |a: String, b: String| HostCall::FileWrite(a, b),
            Pending::WrapWriteFile,
        ),
        NativeFn::IoAppendFile => crate::io::two_text_call_post(
            args,
            o,
            "append_file expects 2 arguments"@,
            "append_file expects the path and the contents as strings"@,
            |a: String, b: String| HostCall::FileAppend(a, b),
            Pending::WrapAppendFile,
        ),
        NativeFn::IoExists => crate::io::path_call_post(
            args,
            o,
            "exists expects 1 argument"@,
            "exists expects the path as a string"@,
            |p: String| HostCall::PathExists(p),
            Pending::WrapFlag,
        ),
        NativeFn::IoDelete => crate::io::path_call_post(
            args,
            o,
            "delete expects 1 argument"@,
            "delete expects the path as a string"@,
            |p: String| HostCall::PathDelete(p),
            Pending::WrapDelete,
        ),
        NativeFn::IoReadDir => crate::io::path_call_post(
            args,
            o,
            "read_dir expects 1 argument"@,
            "read_dir expects the directory path as a string"@,
            |p: String| HostCall::DirList(p),
            Pending::WrapReadDir,
        ),
        NativeFn::IoIsFile => crate::io::path_call_post(
            args,
            o,
            "is_file expects 1 argument"@,
            "is_file expects the path as a string"@,
            |p: String| HostCall::PathIsFile(p),
            Pending::WrapFlag,
        ),
        NativeFn::IoIsDir => crate::io::path_call_post(
            args,
            o,
            "is_dir expects 1 argument"@,
            "is_dir expects the path as a string"@,
            |p: String| HostCall::PathIsDir(p),
            Pending::WrapFlag,
        ),
        NativeFn::IoCreateDir => crate::io::path_call_post(
            args,
            o,
            "create_dir expects 1 argument"@,
            "create_dir expects the path as a string"@,
            |p: String| HostCall::DirCreate(p),
            Pending::WrapCreateDir,
        ),
        NativeFn::HttpGet => crate::http::http_get_post(args, http_enabled, o),
        NativeFn::HttpPost => crate::http::http_post_post(args, http_enabled, o),
    }
}

/// Run a built-in on an evaluated argument list: the one entry point the
/// evaluator calls when a resolved value is a built-in function.
pub fn invoke(f: NativeFn, args: Vec<Value>, caps: &HostCaps) -> (o: Outcome)
    ensures
        invoke_post(f, args@, caps.http_enabled, o),
{
    match f {
        NativeFn::MapList => crate::collections::run_callback_builtin(f, args),
        NativeFn::FilterList => crate::collections::run_callback_builtin(f, args),
        NativeFn::ReduceList => crate::collections::run_callback_builtin(f, args),
        NativeFn::FindList => crate::collections::run_callback_builtin(f, args),
        NativeFn::AnyList => crate::collections::run_callback_builtin(f, args),
        NativeFn::AllList => crate::collections::run_callback_builtin(f, args),
        NativeFn::ReverseList => crate::collections::run_reverse(args),
        NativeFn::SortList => crate::collections::run_sort(args),
        NativeFn::UniqueList => crate::collections::run_unique(args),
        NativeFn::FlattenList => crate::collections::run_flatten(args),
        NativeFn::RangeList => crate::collections::run_range(args),
        NativeFn::StrLen => crate::string::run_len(args),
        NativeFn::StrUpper => crate::string::run_upper(args),
        NativeFn::StrLower => crate::string::run_lower(args),
        NativeFn::StrTrim => crate::string::run_trim(args),
        NativeFn::StrSplit => crate::string::run_split(args),
        NativeFn::StrJoin => crate::string::run_join(args),
        NativeFn::StrReplace => crate::string::run_replace(args),
        NativeFn::StrContains => crate::string::run_contains(args),
        NativeFn::StrStartsWith => crate::string::run_starts_with(args),
        NativeFn::StrEndsWith => crate::string::run_ends_with(args),
        NativeFn::StrChars => crate::string::run_chars(args),
        NativeFn::StrSubstring => crate::string::run_substring(args),
        NativeFn::StrFormat => crate::string::run_format(args),
        NativeFn::MathAbs => crate::math::run_abs(args),
        NativeFn::MathFloor => crate::math::run_floor(args),
        NativeFn::MathCeil => crate::math::run_ceil(args),
        NativeFn::MathRound => crate::math::run_round(args),
        NativeFn::MathPow => crate::math::run_pow(args),
        NativeFn::MathSqrt => crate::math::run_sqrt(args),
        NativeFn::MathLog => crate::math::run_log(args),
        NativeFn::MathLog10 => crate::math::run_log10(args),
        NativeFn::MathExp => crate::math::run_exp(args),
        NativeFn::MathMin => crate::math::run_min(args),
        NativeFn::MathMax => crate::math::run_max(args),
        NativeFn::MathSin => crate::math::run_sin(args),
        NativeFn::MathCos => crate::math::run_cos(args),
        NativeFn::MathTan => crate::math::run_tan(args),
        NativeFn::MathAsin => crate::math::run_asin(args),
        NativeFn::MathAcos => crate::math::run_acos(args),
        NativeFn::MathAtan => crate::math::run_atan(args),
        NativeFn::MathAtan2 => crate::math::run_atan2(args),
        NativeFn::SysTime => crate::sys::run_time(args),
        NativeFn::SysSleep => crate::sys::run_sleep(args),
        NativeFn::SysExit => crate::sys::run_exit(args),
        NativeFn::SysArgs => crate::sys::run_args(args),
        NativeFn::SysEnv => crate::sys::run_env(args),
        NativeFn::SysSetEnv => crate::sys::run_set_env(args),
        NativeFn::SysCwd => crate::sys::run_cwd(args),
        NativeFn::SysPlatform => crate::sys::run_platform(args),
        NativeFn::SysArch => crate::sys::run_arch(args),
        NativeFn::IoReadFile => crate::io::run_read_file(args),
        NativeFn::IoWriteFile => crate::io::run_write_file(args),
        NativeFn::IoAppendFile => crate::io::run_append_file(args),
        NativeFn::IoExists => crate::io::run_exists(args),
        NativeFn::IoDelete => crate::io::run_delete(args),
        NativeFn::IoReadDir => crate::io::run_read_dir(args),
        NativeFn::IoIsFile => crate::io::run_is_file(args),
        NativeFn::IoIsDir => crate::io::run_is_dir(args),
        NativeFn::IoCreateDir => crate::io::run_create_dir(args),
        NativeFn::HttpGet => crate::http::run_http_get(args, caps),
        NativeFn::HttpPost => crate::http::run_http_post(args, caps),
    }
}

/// The argument counts a built-in accepts.
pub open spec fn arity_ok(f: NativeFn, n: int) -> bool {
    match f {
        NativeFn::MapList => n == 2,
        NativeFn::FilterList => n == 2,
        NativeFn::ReduceList => n >= 2,
        NativeFn::FindList => n == 2,
        NativeFn::AnyList => n == 2,
        NativeFn::AllList => n == 2,
        NativeFn::ReverseList => n == 1,
        NativeFn::SortList => n == 1,
        NativeFn::UniqueList => n == 1,
        NativeFn::FlattenList => n == 1,
        NativeFn::RangeList => 1 <= n <= 3,
        NativeFn::StrLen => n == 1,
        NativeFn::StrUpper => n == 1,
        NativeFn::StrLower => n == 1,
        NativeFn::StrTrim => n == 1,
        NativeFn::StrSplit => n == 2,
        NativeFn::StrJoin => n == 2,
        NativeFn::StrReplace => n == 3,
        NativeFn::StrContains => n == 2,
        NativeFn::StrStartsWith => n == 2,
        NativeFn::StrEndsWith => n == 2,
        NativeFn::StrChars => n == 1,
        NativeFn::StrSubstring => n == 3,
        NativeFn::StrFormat => n >= 1,
        NativeFn::MathAbs => n == 1,
        NativeFn::MathFloor => n == 1,
        NativeFn::MathCeil => n == 1,
        NativeFn::MathRound => n == 1,
        NativeFn::MathPow => n == 2,
        NativeFn::MathSqrt => n == 1,
        NativeFn::MathLog => n == 1,
        NativeFn::MathLog10 => n == 1,
        NativeFn::MathExp => n == 1,
        NativeFn::MathMin => n >= 1,
        NativeFn::MathMax => n >= 1,
        NativeFn::MathSin => n == 1,
        NativeFn::MathCos => n == 1,
        NativeFn::MathTan => n == 1,
        NativeFn::MathAsin => n == 1,
        NativeFn::MathAcos => n == 1,
        NativeFn::MathAtan => n == 1,
        NativeFn::MathAtan2 => n == 2,
        NativeFn::SysTime => n == 0,
        NativeFn::SysSleep => n == 1,
        NativeFn::SysExit => 0 <= n <= 1,
        NativeFn::SysArgs => n == 0,
        NativeFn::SysEnv => n == 1,
        NativeFn::SysSetEnv => n == 2,
        NativeFn::SysCwd => n == 0,
        NativeFn::SysPlatform => n == 0,
        NativeFn::SysArch => n == 0,
        NativeFn::IoReadFile => n == 1,
        NativeFn::IoWriteFile => n == 2,
        NativeFn::IoAppendFile => n == 2,
        NativeFn::IoExists => n == 1,
        NativeFn::IoDelete => n == 1,
        NativeFn::IoReadDir => n == 1,
        NativeFn::IoIsFile => n == 1,
        NativeFn::IoIsDir => n == 1,
        NativeFn::IoCreateDir => n == 1,
        NativeFn::HttpGet => n == 1,
        NativeFn::HttpPost => n == 2,
    }
}

/// Calling any built-in with an argument count it does not accept always
/// answers an error, whatever the arguments hold.
pub proof fn lemma_wrong_arity_always_fails(
    f: NativeFn,
    args: Seq<Value>,
    http_enabled: bool,
    o: Outcome,
)
    requires
        invoke_post(f, args, http_enabled, o),
        !arity_ok(f, args.len() as int),
    ensures
        is_failure(o),
{
}

/// The message wrapping a host failure, for each pending shape that can
/// carry one.
pub open spec fn host_error_prefix(p: Pending) -> Seq<char> {
    match p {
        Pending::WrapReadFile => "could not read the file: "@,
        Pending::WrapWriteFile => "could not write the file: "@,
        Pending::WrapAppendFile => "could not append to the file: "@,
        Pending::WrapDelete => "could not delete the path: "@,
        Pending::WrapReadDir => "could not read the directory: "@,
        Pending::WrapCreateDir => "could not create the directory: "@,
        Pending::WrapCwd => "could not read the working directory: "@,
        Pending::WrapWeb => "the web request failed: "@,
        _ => Seq::empty(),
    }
}

/// What `resume` answers for each pending call and host reply. A reply of
/// the wrong shape is itself an error; a host failure comes back wrapped in
/// the pending call's message; everything else becomes the built-in's value.
pub open spec fn resume_post(p: Pending, reply: HostReply, r: Result<Value, String>) -> bool {
    match (p, reply) {
        (Pending::WrapNumber, HostReply::Bits(b)) => r == Result::<Value, String>::Ok(
            Value::Number(b),
        ),
        (Pending::WrapNil, HostReply::Unit) => r == Result::<Value, String>::Ok(Value::Nil),
        (Pending::WrapExit, HostReply::Unit) => r == Result::<Value, String>::Ok(Value::Nil),
        (Pending::WrapRange, HostReply::BitsSeq(bs)) => match r {
            Result::Ok(v) => match v {
                Value::List(out) => out@ =~= Seq::new(
                    bs@.len(),
                    |i: int| Value::Number(bs@[i]),
                ),
                _ => false,
            },
            Result::Err(_) => false,
        },
        (Pending::WrapFormat(t, args), HostReply::Texts(xs)) => match r {
            Result::Ok(v) => match v {
                Value::Str(s) => s@ == crate::string::subst_all(
                    t@,
                    args@,
                    Seq::new(xs@.len(), |i: int| xs@[i]@),
                    0,
                ),
                _ => false,
            },
            Result::Err(_) => false,
        },
        (Pending::WrapArgs, HostReply::Texts(xs)) => match r {
            Result::Ok(v) => match v {
                Value::List(out) => out@.len() == xs@.len() && (forall|i: int|
                    0 <= i < out@.len() ==> match #[trigger] out@[i] {
                        Value::Str(s) => s@ == xs@[i]@,
                        _ => false,
                    }),
                _ => false,
            },
            Result::Err(_) => false,
        },
        (Pending::WrapEnv, HostReply::TextOption(m)) => match m {
            Option::Some(s) => r == Result::<Value, String>::Ok(Value::Str(s)),
            Option::None => r == Result::<Value, String>::Ok(Value::Nil),
        },
        (Pending::WrapText, HostReply::Text(s)) => r == Result::<Value, String>::Ok(
            Value::Str(s),
        ),
        (Pending::WrapReadFile, HostReply::TextOutcome(h)) => match h {
            Result::Ok(s) => r == Result::<Value, String>::Ok(Value::Str(s)),
            Result::Err(e) => wrapped_failure(r, Pending::WrapReadFile, e@),
        },
        (Pending::WrapCwd, HostReply::TextOutcome(h)) => match h {
            Result::Ok(s) => r == Result::<Value, String>::Ok(Value::Str(s)),
            Result::Err(e) => wrapped_failure(r, Pending::WrapCwd, e@),
        },
        (Pending::WrapWriteFile, HostReply::UnitOutcome(h)) => match h {
            Result::Ok(u) => r == Result::<Value, String>::Ok(Value::Boolean(true)),
            Result::Err(e) => wrapped_failure(r, Pending::WrapWriteFile, e@),
        },
        (Pending::WrapAppendFile, HostReply::UnitOutcome(h)) => match h {
            Result::Ok(u) => r == Result::<Value, String>::Ok(Value::Boolean(true)),
            Result::Err(e) => wrapped_failure(r, Pending::WrapAppendFile, e@),
        },
        (Pending::WrapDelete, HostReply::UnitOutcome(h)) => match h {
            Result::Ok(u) => r == Result::<Value, String>::Ok(Value::Boolean(true)),
            Result::Err(e) => wrapped_failure(r, Pending::WrapDelete, e@),
        },
        (Pending::WrapCreateDir, HostReply::UnitOutcome(h)) => match h {
            Result::Ok(u) => r == Result::<Value, String>::Ok(Value::Boolean(true)),
            Result::Err(e) => wrapped_failure(r, Pending::WrapCreateDir, e@),
        },
        (Pending::WrapFlag, HostReply::Flag(b)) => r == Result::<Value, String>::Ok(
            Value::Boolean(b),
        ),
        (Pending::WrapReadDir, HostReply::TextsOutcome(h)) => match h {
            Result::Ok(names) => match r {
                Result::Ok(v) => match v {
                    Value::List(out) => out@.len() == names@.len() && (forall|i: int|
                        0 <= i < out@.len() ==> match #[trigger] out@[i] {
                            Value::Str(s) => s@ == names@[i]@,
                            _ => false,
                        }),
                    _ => false,
                },
                Result::Err(_) => false,
            },
            Result::Err(e) => wrapped_failure(r, Pending::WrapReadDir, e@),
        },
        (Pending::WrapWeb, HostReply::WebOutcome(h)) => match h {
            Result::Ok(resp) => match r {
                Result::Ok(v) => match v {
                    Value::Dict(d) => {
                        &&& d@.len() == 2
                        &&& d@[0].0 matches Value::Str(k1) && k1@ == "status"@
                        &&& d@[0].1 == Value::Number(bits_of_mag(0, resp.0 as u64))
                        &&& d@[1].0 matches Value::Str(k2) && k2@ == "body"@
                        &&& d@[1].1 matches Value::Str(b) && b@ == resp.1@
                    },
                    _ => false,
                },
                Result::Err(_) => false,
            },
            Result::Err(e) => wrapped_failure(r, Pending::WrapWeb, e@),
        },
        _ => match r {
            Result::Err(e) => e@ == "the host reply does not fit the pending call"@,
            Result::Ok(_) => false,
        },
    }
}

/// The result is an error made of the pending call's message and the host's.
pub open spec fn wrapped_failure(r: Result<Value, String>, p: Pending, host_msg: Seq<char>) -> bool {
    match r {
        Result::Err(e) => e@ == host_error_prefix(p) + host_msg,
        Result::Ok(_) => false,
    }
}

fn wrap_host_error(prefix: &str, e: String) -> (r: String)
    ensures
        r@ == prefix@ + e@,
{
    let mut m = prefix.to_owned();
    m.append(e.as_str());
    m
}

/// Turn the host's reply into the pending built-in's final result.
#[verifier::loop_isolation(false)]
pub fn resume(p: Pending, reply: HostReply) -> (r: Result<Value, String>)
    ensures
        resume_post(p, reply, r),
{
    match (p, reply) {
        (Pending::WrapNumber, HostReply::Bits(b)) => Result::Ok(Value::Number(b)),
        (Pending::WrapNil, HostReply::Unit) => Result::Ok(Value::Nil),
        (Pending::WrapExit, HostReply::Unit) => Result::Ok(Value::Nil),
        (Pending::WrapRange, HostReply::BitsSeq(bs)) => {
            let mut out: Vec<Value> = Vec::new();
            let mut i: usize = 0;
            while i < bs.len()
                invariant
                    0 <= i <= bs@.len(),
                    out@.len() == i,
                    forall|j: int| 0 <= j < i ==> #[trigger] out@[j] == Value::Number(bs@[j]),
                decreases bs@.len() - i,
            {
                out.push(Value::Number(bs[i]));
                i = i + 1;
            }
            Result::Ok(Value::List(out))
        },
        (Pending::WrapFormat(t, args), HostReply::Texts(xs)) => crate::string::finish_format(
            t,
            args,
            xs,
        ),
        (Pending::WrapArgs, HostReply::Texts(xs)) => Result::Ok(Value::List(texts_to_values(xs))),
        (Pending::WrapEnv, HostReply::TextOption(m)) => match m {
            Some(s) => Result::Ok(Value::Str(s)),
            None => Result::Ok(Value::Nil),
        },
        (Pending::WrapText, HostReply::Text(s)) => Result::Ok(Value::Str(s)),
        (Pending::WrapReadFile, HostReply::TextOutcome(h)) => match h {
            Result::Ok(s) => Result::Ok(Value::Str(s)),
            Result::Err(e) => Result::Err(wrap_host_error("could not read the file: ", e)),
        },
        (Pending::WrapCwd, HostReply::TextOutcome(h)) => match h {
            Result::Ok(s) => Result::Ok(Value::Str(s)),
            Result::Err(e) => Result::Err(
                wrap_host_error("could not read the working directory: ", e),
            ),
        },
        (Pending::WrapWriteFile, HostReply::UnitOutcome(h)) => match h {
            Result::Ok(_) => Result::Ok(Value::Boolean(true)),
            Result::Err(e) => Result::Err(wrap_host_error("could not write the file: ", e)),
        },
        (Pending::WrapAppendFile, HostReply::UnitOutcome(h)) => match h {
            Result::Ok(_) => Result::Ok(Value::Boolean(true)),
            Result::Err(e) => Result::Err(wrap_host_error("could not append to the file: ", e)),
        },
        (Pending::WrapDelete, HostReply::UnitOutcome(h)) => match h {
            Result::Ok(_) => Result::Ok(Value::Boolean(true)),
            Result::Err(e) => Result::Err(wrap_host_error("could not delete the path: ", e)),
        },
        (Pending::WrapCreateDir, HostReply::UnitOutcome(h)) => match h {
            Result::Ok(_) => Result::Ok(Value::Boolean(true)),
            Result::Err(e) => Result::Err(
                wrap_host_error("could not create the directory: ", e),
            ),
        },
        (Pending::WrapFlag, HostReply::Flag(b)) => Result::Ok(Value::Boolean(b)),
        (Pending::WrapReadDir, HostReply::TextsOutcome(h)) => match h {
            Result::Ok(names) => Result::Ok(Value::List(texts_to_values(names))),
            Result::Err(e) => Result::Err(wrap_host_error("could not read the directory: ", e)),
        },
        (Pending::WrapWeb, HostReply::WebOutcome(h)) => match h {
            Result::Ok(resp) => {
                let (status, body) = resp;
                let mut d: Vec<(Value, Value)> = Vec::new();
                d.push(
                    (
                        Value::Str("status".to_owned()),
                        Value::Number(num_of_mag(0, status as u64)),
                    ),
                );
                d.push((Value::Str("body".to_owned()), Value::Str(body)));
                Result::Ok(Value::Dict(d))
            },
            Result::Err(e) => Result::Err(wrap_host_error("the web request failed: ", e)),
        },
        _ => Result::Err("the host reply does not fit the pending call".to_owned()),
    }
}

#[verifier::loop_isolation(false)]
fn texts_to_values(xs: Vec<String>) -> (out: Vec<Value>)
    ensures
        out@.len() == xs@.len(),
        forall|i: int|
            0 <= i < out@.len() ==> match #[trigger] out@[i] {
                Value::Str(s) => s@ == xs@[i]@,
                _ => false,
            },
{
    let ghost x0 = xs@;
    let mut xs = xs;
    let mut out: Vec<Value> = Vec::new();
    while xs.len() > 0
        invariant
            out@.len() + xs@.len() == x0.len(),
            xs@ == x0.skip(out@.len() as int),
            forall|i: int|
                0 <= i < out@.len() ==> match #[trigger] out@[i] {
                    Value::Str(s) => s@ == x0[i]@,
                    _ => false,
                },
        decreases xs@.len(),
    {
        let ghost xb = xs@;
        let ghost k = out@.len() as int;
        let s = xs.remove(0);
        proof {
            assert(xb.remove(0) =~= xb.drop_first());
            assert(xb.drop_first() =~= x0.skip(k + 1));
        }
        out.push(Value::Str(s));
    }
    out
}

/// The argument shapes a built-in accepts, for a call whose count is right.
/// Acceptance is only the variant check: an accepted call can still answer
/// an error of its own, a domain violation or an element of the wrong shape.
pub open spec fn args_accepted(f: NativeFn, args: Seq<Value>) -> bool
    recommends
        arity_ok(f, args.len() as int),
{
    match f {
        NativeFn::MapList => args[0] is List && args[1] is Function,
        NativeFn::FilterList => args[0] is List && args[1] is Function,
        NativeFn::ReduceList => args[0] is List && args[1] is Function,
        NativeFn::FindList => args[0] is List && args[1] is Function,
        NativeFn::AnyList => args[0] is List && args[1] is Function,
        NativeFn::AllList => args[0] is List && args[1] is Function,
        NativeFn::ReverseList => args[0] is List,
        NativeFn::SortList => args[0] is List,
        NativeFn::UniqueList => args[0] is List,
        NativeFn::FlattenList => args[0] is List,
        NativeFn::RangeList => crate::collections::range_args(args) is Some,
        NativeFn::StrLen => args[0] is Str || args[0] is List,
        NativeFn::StrUpper => args[0] is Str,
        NativeFn::StrLower => args[0] is Str,
        NativeFn::StrTrim => args[0] is Str,
        NativeFn::StrSplit => args[0] is Str && args[1] is Str,
        NativeFn::StrJoin => args[0] is List && args[1] is Str,
        NativeFn::StrReplace => args[0] is Str && args[1] is Str && args[2] is Str,
        NativeFn::StrContains => args[0] is Str && args[1] is Str,
        NativeFn::StrStartsWith => args[0] is Str && args[1] is Str,
        NativeFn::StrEndsWith => args[0] is Str && args[1] is Str,
        NativeFn::StrChars => args[0] is Str,
        NativeFn::StrSubstring => args[0] is Str && args[1] is Number && args[2] is Number,
        NativeFn::StrFormat => args[0] is Str,
        NativeFn::MathAbs => args[0] is Number,
        NativeFn::MathFloor => args[0] is Number,
        NativeFn::MathCeil => args[0] is Number,
        NativeFn::MathRound => args[0] is Number,
        NativeFn::MathPow => args[0] is Number && args[1] is Number,
        NativeFn::MathSqrt => args[0] is Number,
        NativeFn::MathLog => args[0] is Number,
        NativeFn::MathLog10 => args[0] is Number,
        NativeFn::MathExp => args[0] is Number,
        NativeFn::MathMin => crate::math::all_numbers(args),
        NativeFn::MathMax => crate::math::all_numbers(args),
        NativeFn::MathSin => args[0] is Number,
        NativeFn::MathCos => args[0] is Number,
        NativeFn::MathTan => args[0] is Number,
        NativeFn::MathAsin => args[0] is Number,
        NativeFn::MathAcos => args[0] is Number,
        NativeFn::MathAtan => args[0] is Number,
        NativeFn::MathAtan2 => args[0] is Number && args[1] is Number,
        NativeFn::SysTime => true,
        NativeFn::SysSleep => args[0] is Number,
        NativeFn::SysExit => args.len() == 0 || args[0] is Number,
        NativeFn::SysArgs => true,
        NativeFn::SysEnv => args[0] is Str,
        NativeFn::SysSetEnv => args[0] is Str && args[1] is Str,
        NativeFn::SysCwd => true,
        NativeFn::SysPlatform => true,
        NativeFn::SysArch => true,
        NativeFn::IoReadFile => args[0] is Str,
        NativeFn::IoWriteFile => args[0] is Str && args[1] is Str,
        NativeFn::IoAppendFile => args[0] is Str && args[1] is Str,
        NativeFn::IoExists => args[0] is Str,
        NativeFn::IoDelete => args[0] is Str,
        NativeFn::IoReadDir => args[0] is Str,
        NativeFn::IoIsFile => args[0] is Str,
        NativeFn::IoIsDir => args[0] is Str,
        NativeFn::IoCreateDir => args[0] is Str,
        NativeFn::HttpGet => args[0] is Str,
        NativeFn::HttpPost => args[0] is Str && args[1] is Str,
    }
}

/// Calling any built-in with the right count but an argument of a shape it
/// does not take always answers an error, never a panic.
pub proof fn lemma_wrong_variant_always_fails(
    f: NativeFn,
    args: Seq<Value>,
    http_enabled: bool,
    o: Outcome,
)
    requires
        invoke_post(f, args, http_enabled, o),
        arity_ok(f, args.len() as int),
        !args_accepted(f, args),
    ensures
        is_failure(o),
{
}

} // verus!
