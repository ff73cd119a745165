//! The decisions the command-line entry point makes itself: help and version
//! text, and the in-process control plane. Every other invocation is
//! forwarded verbatim to the interactive front end.

use vstd::prelude::*;

use crate::computer::strings_view;
use crate::text::{chars_of, join, starts_with, strip_prefix};

verus! {

#[derive(Clone, Debug, PartialEq, Eq)]
pub enum Command {
    Serve { port: Option<u16>, parent_pid: Option<u32>, liveness_fd: Option<i32> },
    Forward,
    Help,
    Version,
}

impl View for Command {
    type V = Command;

    open spec fn view(&self) -> Command {
        *self
    }
}

// ----------------------------------------------------------------------------
// Decimal integers, as the standard library's `FromStr` reads them
// ----------------------------------------------------------------------------

pub open spec fn is_digit(c: char) -> bool {
    '0' <= c && c <= '9'
}

pub open spec fn all_digits(s: Seq<char>) -> bool {
    forall|i: int| 0 <= i < s.len() ==> is_digit(#[trigger] s[i])
}

/// The value of a string of decimal digits.
pub open spec fn digits_value(s: Seq<char>) -> int
    decreases s.len(),
{
    if s.len() == 0 {
        0
    } else {
        10 * digits_value(s.drop_last()) + (s.last() as int - '0' as int)
    }
}

/// A non-negative decimal with an optional `+`, at most `max`.
pub open spec fn parse_unsigned(s: Seq<char>, max: int) -> Option<int> {
    let d = if s.len() > 0 && s[0] == '+' {
        s.skip(1)
    } else {
        s
    };
    if d.len() == 0 || !all_digits(d) || digits_value(d) > max {
        None
    } else {
        Some(digits_value(d))
    }
}

/// A decimal `i32` with an optional sign.
pub open spec fn parse_i32(s: Seq<char>) -> Option<int> {
    if s.len() > 0 && s[0] == '-' {
        let d = s.skip(1);
        if d.len() == 0 || !all_digits(d) || digits_value(d) > 0x8000_0000 {
            None
        } else {
            Some(-digits_value(d))
        }
    } else {
        parse_unsigned(s, 0x7fff_ffff)
    }
}

proof fn lemma_digits_value_nonneg(s: Seq<char>)
    requires
        all_digits(s),
    ensures
        digits_value(s) >= 0,
    decreases s.len(),
{
    if s.len() > 0 {
        lemma_digits_value_nonneg(s.drop_last());
    }
}

/// Appending digits never lowers the value.
proof fn lemma_digits_value_prefix(s: Seq<char>, k: int)
    requires
        all_digits(s),
        0 <= k <= s.len(),
    ensures
        digits_value(s.take(k)) <= digits_value(s),
    decreases s.len() - k,
{
    if k < s.len() {
        lemma_digits_value_prefix(s, k + 1);
        assert(s.take(k + 1).drop_last() =~= s.take(k));
        lemma_digits_value_nonneg(s.take(k));
    } else {
        assert(s.take(k) =~= s);
    }
}

/// The value of the digits in `d` when they are all digits and it is at most `max`.
fn digits_at_most(d: &Vec<char>, start: usize, max: u64) -> (r: Option<u64>)
    requires
        start <= d.len(),
        max <= 0x1_0000_0000,
    ensures
        ({
            let s = d@.skip(start as int);
            match r {
                Some(v) => s.len() > 0 && all_digits(s) && digits_value(s) <= max && v == digits_value(s),
                None => s.len() == 0 || !all_digits(s) || digits_value(s) > max,
            }
        }),
{
    let ghost s = d@.skip(start as int);
    if start == d.len() {
        return None;
    }
    let mut i: usize = start;
    let mut value: u64 = 0;
    let mut overflow = false;
    while i < d.len()
        invariant
            s == d@.skip(start as int),
            start <= i <= d.len(),
            max <= 0x1_0000_0000,
            all_digits(s.take(i - start)),
            !overflow ==> value == digits_value(s.take(i - start)) && value <= max,
            overflow ==> digits_value(s.take(i - start)) > max,
        decreases d.len() - i,
    {
        let c = d[i];
        assert(s[i - start] == c);
        if !('0' <= c && c <= '9') {
            assert(!is_digit(s[i - start]));
            return None;
        }
        assert(s.take(i - start + 1).drop_last() =~= s.take(i - start));
        assert(s.take(i - start + 1).last() == c);
        if !overflow {
            let digit = (c as u32 - '0' as u32) as u64;
            let next = value * 10 + digit;
            if next > max {
                overflow = true;
            } else {
                value = next;
            }
        } else {
            proof {
                lemma_digits_value_nonneg(s.take(i - start));
            }
        }
        i = i + 1;
    }
    assert(s.take(i - start) =~= s);
    if overflow {
        None
    } else {
        Some(value)
    }
}

/// `u16::from_str`.
pub fn parse_u16(s: &str) -> (r: Option<u16>)
    ensures
        match r {
            Some(v) => parse_unsigned(s@, 0xffff) == Some(v as int),
            None => parse_unsigned(s@, 0xffff) is None,
        },
{
    let d = chars_of(s);
    let start: usize = if d.len() > 0 && d[0] == '+' { 1 } else { 0 };
    assert(d@.skip(0) =~= d@);
    match digits_at_most(&d, start, 0xffff) {
        Some(v) => Some(v as u16),
        None => None,
    }
}

/// `u32::from_str`.
pub fn parse_u32(s: &str) -> (r: Option<u32>)
    ensures
        match r {
            Some(v) => parse_unsigned(s@, 0xffff_ffff) == Some(v as int),
            None => parse_unsigned(s@, 0xffff_ffff) is None,
        },
{
    let d = chars_of(s);
    let start: usize = if d.len() > 0 && d[0] == '+' { 1 } else { 0 };
    assert(d@.skip(0) =~= d@);
    match digits_at_most(&d, start, 0xffff_ffff) {
        Some(v) => Some(v as u32),
        None => None,
    }
}

/// `i32::from_str`.
pub fn parse_i32_text(s: &str) -> (r: Option<i32>)
    ensures
        match r {
            Some(v) => parse_i32(s@) == Some(v as int),
            None => parse_i32(s@) is None,
        },
{
    let d = chars_of(s);
    assert(d@.skip(0) =~= d@);
    if d.len() > 0 && d[0] == '-' {
        match digits_at_most(&d, 1, 0x8000_0000) {
            Some(v) => {
                if v == 0x8000_0000 {
                    Some(-2147483648i32)
                } else {
                    Some(-(v as i32))
                }
            },
            None => None,
        }
    } else {
        let start: usize = if d.len() > 0 && d[0] == '+' { 1 } else { 0 };
        match digits_at_most(&d, start, 0x7fff_ffff) {
            Some(v) => Some(v as i32),
            None => None,
        }
    }
}


// ----------------------------------------------------------------------------
// Classification
// ----------------------------------------------------------------------------

pub struct ServeOptions {
    pub port: Option<u16>,
    pub parent_pid: Option<u32>,
    pub liveness_fd: Option<i32>,
}

pub open spec fn no_serve_options() -> ServeOptions {
    ServeOptions { port: None, parent_pid: None, liveness_fd: None }
}

/// An option of `serve` that takes a value, read as `name value` or `name=value`.
pub open spec fn option_value(args: Seq<Seq<char>>, i: int, name: Seq<char>) -> Option<(Seq<char>, int)> {
    if args[i] == name {
        if i + 1 < args.len() {
            Some((args[i + 1], i + 2))
        } else {
            None
        }
    } else {
        Some((args[i].skip(name.len() as int + 1), i + 1))
    }
}

/// Reads the arguments of `serve` from position `i` on; the last occurrence
/// of an option wins.
pub open spec fn serve_scan(args: Seq<Seq<char>>, i: int, acc: ServeOptions) -> Result<ServeOptions, Seq<char>>
    decreases args.len() - i,
{
    if i < 0 || i >= args.len() {
        Ok(acc)
    } else {
        let a = args[i];
        if a == "--port"@ || starts_with(a, "--port="@) {
            match option_value(args, i, "--port"@) {
                None => Err("--port requires a value"@),
                Some((v, next)) => match parse_unsigned(v, 0xffff) {
                    None => Err("invalid serve port: "@ + v),
                    Some(n) => serve_scan(
                        args,
                        next,
                        ServeOptions { port: Some(n as u16), ..acc },
                    ),
                },
            }
        } else if a == "--parent-pid"@ || starts_with(a, "--parent-pid="@) {
            match option_value(args, i, "--parent-pid"@) {
                None => Err("--parent-pid requires a value"@),
                Some((v, next)) => match parse_unsigned(v, 0xffff_ffff) {
                    None => Err("invalid parent pid: "@ + v),
                    Some(n) => serve_scan(
                        args,
                        next,
                        ServeOptions { parent_pid: Some(n as u32), ..acc },
                    ),
                },
            }
        } else if a == "--liveness-fd"@ || starts_with(a, "--liveness-fd="@) {
            match option_value(args, i, "--liveness-fd"@) {
                None => Err("--liveness-fd requires a value"@),
                Some((v, next)) => match parse_i32(v) {
                    None => Err("invalid liveness fd: "@ + v),
                    Some(n) => serve_scan(
                        args,
                        next,
                        ServeOptions { liveness_fd: Some(n as i32), ..acc },
                    ),
                },
            }
        } else {
            Err("`maestro serve` does not accept prompt arguments or option `"@ + a + "`"@)
        }
    }
}

/// What `maestro serve ...` decides.
pub open spec fn serve_result(args: Seq<Seq<char>>) -> Result<Command, Seq<char>> {
    match serve_scan(args, 1, no_serve_options()) {
        Err(m) => Err(m),
        Ok(o) => {
            if o.parent_pid is Some && o.liveness_fd is Some {
                Err("--parent-pid and --liveness-fd are mutually exclusive"@)
            } else if o.parent_pid == Some(0u32) {
                Err("--parent-pid must be a positive process id"@)
            } else if o.liveness_fd matches Some(fd) && fd < 0 {
                Err("--liveness-fd must be a non-negative file descriptor"@)
            } else {
                Ok(Command::Serve { port: o.port, parent_pid: o.parent_pid, liveness_fd: o.liveness_fd })
            }
        },
    }
}

pub open spec fn is_version_flag(a: Seq<char>) -> bool {
    a == "--version"@ || a == "-V"@ || a == "-v"@
}

pub open spec fn is_help_flag(a: Seq<char>) -> bool {
    a == "--help"@ || a == "-h"@ || a == "--help-hidden"@ || a == "--help-all"@
}

/// What `classify` decides for the arguments after the program name.
pub open spec fn classify_result(args: Seq<Seq<char>>) -> Result<Command, Seq<char>> {
    if args.len() == 0 {
        Ok(Command::Forward)
    } else if is_version_flag(args[0]) {
        Ok(Command::Version)
    } else if is_help_flag(args[0]) {
        Ok(Command::Help)
    } else if args[0] == "serve"@ {
        serve_result(args)
    } else {
        Ok(Command::Forward)
    }
}

pub open spec fn command_outcome(r: Result<Command, String>) -> Result<Command, Seq<char>> {
    match r {
        Ok(c) => Ok(c),
        Err(e) => Err(e@),
    }
}

fn text_is(s: &str, literal: &str) -> (r: bool)
    ensures
        r == (s@ == literal@),
{
    crate::text::same_text(s, literal)
}

fn serve(args: &Vec<String>) -> (r: Result<Command, String>)
    requires
        args.len() >= 1,
    ensures
        command_outcome(r) == serve_result(strings_view(args@)),
{
    let ghost v = strings_view(args@);
    proof {
        reveal_strlit("--port");
        reveal_strlit("--port=");
        reveal_strlit("--parent-pid");
        reveal_strlit("--parent-pid=");
        reveal_strlit("--liveness-fd");
        reveal_strlit("--liveness-fd=");
        reveal_strlit("invalid serve port: ");
        reveal_strlit("invalid parent pid: ");
        reveal_strlit("invalid liveness fd: ");
        reveal_strlit("--port requires a value");
        reveal_strlit("--parent-pid requires a value");
        reveal_strlit("--liveness-fd requires a value");
        reveal_strlit("`maestro serve` does not accept prompt arguments or option `");
        reveal_strlit("`");
    }
    let mut port: Option<u16> = None;
    let mut parent_pid: Option<u32> = None;
    let mut liveness_fd: Option<i32> = None;
    let mut index: usize = 1;
    while index < args.len()
        invariant
            v == strings_view(args@),
            1 <= index <= args.len(),
            serve_scan(v, 1, no_serve_options()) == serve_scan(
                v,
                index as int,
                ServeOptions { port, parent_pid, liveness_fd },
            ),
        decreases args.len() - index,
    {
        let argument = args[index].as_str();
        assert(v[index as int] == argument@);
        proof {
            reveal_strlit("--port");
            reveal_strlit("--port=");
            reveal_strlit("--parent-pid");
            reveal_strlit("--parent-pid=");
            reveal_strlit("--liveness-fd");
            reveal_strlit("--liveness-fd=");
            reveal_strlit("invalid serve port: ");
            reveal_strlit("invalid parent pid: ");
            reveal_strlit("invalid liveness fd: ");
            reveal_strlit("--port requires a value");
            reveal_strlit("--parent-pid requires a value");
            reveal_strlit("--liveness-fd requires a value");
            reveal_strlit("`maestro serve` does not accept prompt arguments or option `");
            reveal_strlit("`");
        }

        let ghost i = index as int;
        if text_is(argument, "--port") {
            if index + 1 >= args.len() {
                return Err("--port requires a value".to_owned());
            }
            index = index + 1;
            let value = args[index].as_str();
            assert(v[index as int] == value@);
            match parse_u16(value) {
                None => {
                    return Err(join("invalid serve port: ", value));
                },
                Some(n) => {
                    port = Some(n);
                },
            }
        } else if let Some(value) = strip_prefix(argument, "--port=") {
            assert(argument@ != "--port"@);
            match parse_u16(value) {
                None => {
                    return Err(join("invalid serve port: ", value));
                },
                Some(n) => {
                    port = Some(n);
                },
            }
        } else if text_is(argument, "--parent-pid") {
            if index + 1 >= args.len() {
                return Err("--parent-pid requires a value".to_owned());
            }
            index = index + 1;
            let value = args[index].as_str();
            assert(v[index as int] == value@);
            match parse_u32(value) {
                None => {
                    return Err(join("invalid parent pid: ", value));
                },
                Some(n) => {
                    parent_pid = Some(n);
                },
            }
        } else if let Some(value) = strip_prefix(argument, "--parent-pid=") {
            assert(argument@ != "--parent-pid"@);
            match parse_u32(value) {
                None => {
                    return Err(join("invalid parent pid: ", value));
                },
                Some(n) => {
                    parent_pid = Some(n);
                },
            }
        } else if text_is(argument, "--liveness-fd") {
            if index + 1 >= args.len() {
                return Err("--liveness-fd requires a value".to_owned());
            }
            index = index + 1;
            let value = args[index].as_str();
            assert(v[index as int] == value@);
            match parse_i32_text(value) {
                None => {
                    return Err(join("invalid liveness fd: ", value));
                },
                Some(n) => {
                    liveness_fd = Some(n);
                },
            }
        } else if let Some(value) = strip_prefix(argument, "--liveness-fd=") {
            assert(argument@ != "--liveness-fd"@);
            match parse_i32_text(value) {
                None => {
                    return Err(join("invalid liveness fd: ", value));
                },
                Some(n) => {
                    liveness_fd = Some(n);
                },
            }
        } else {
            let message = join(
                "`maestro serve` does not accept prompt arguments or option `",
                argument,
            );
            return Err(join(message.as_str(), "`"));
        }
        index = index + 1;
    }
    if parent_pid.is_some() && liveness_fd.is_some() {
        return Err("--parent-pid and --liveness-fd are mutually exclusive".to_owned());
    }
    if parent_pid == Some(0u32) {
        return Err("--parent-pid must be a positive process id".to_owned());
    }
    if let Some(fd) = liveness_fd {
        if fd < 0 {
            return Err("--liveness-fd must be a non-negative file descriptor".to_owned());
        }
    }
    Ok(Command::Serve { port, parent_pid, liveness_fd })
}

/// Classifies the arguments that follow the program name.
pub fn classify(args: Vec<String>) -> (r: Result<Command, String>)
    ensures
        command_outcome(r) == classify_result(strings_view(args@)),
{
    let ghost v = strings_view(args@);
    proof {
        reveal_strlit("--version");
        reveal_strlit("-V");
        reveal_strlit("-v");
        reveal_strlit("--help");
        reveal_strlit("-h");
        reveal_strlit("--help-hidden");
        reveal_strlit("--help-all");
        reveal_strlit("serve");
    }
    if args.len() == 0 {
        return Ok(Command::Forward);
    }
    let first = args[0].as_str();
    assert(v[0] == first@);
    if text_is(first, "--version") || text_is(first, "-V") || text_is(first, "-v") {
        return Ok(Command::Version);
    }
    if text_is(first, "--help") || text_is(first, "-h") || text_is(first, "--help-hidden")
        || text_is(first, "--help-all") {
        return Ok(Command::Help);
    }
    if text_is(first, "serve") {
        return serve(&args);
    }
    Ok(Command::Forward)
}


/// The usage text printed for `--help`.
pub const HELP: &'static str = "Deixic Code\n\nUsage:\n  deixic-code [options] [prompt]\n  deixic-code exec <prompt>\n  deixic-code -w <name> [prompt]\n  deixic-code doctor [--json] [--live] [--verbose] [--timeout <ms>] [probe groups]\n  deixic-code setup [--json] [--live] [--model <provider/model>]\n  deixic-code --list-tools [--json]\n  deixic-code --headless\n  deixic-code serve [--port <port>] [--parent-pid <pid> | --liveness-fd <fd>]\n  deixic-code hosted-runner [options]\n\nCommon commands:\n  deixic-code setup       Check authentication and show the next setup step\n  deixic-code config      Inspect or change Deixic Code configuration\n  deixic-code experiments Review or change tool experiment participation\n  deixic-code models      List available models and providers\n  deixic-code sessions    List, export, or import saved sessions\n  deixic-code scenario    Run or inspect scripted scenarios\n  deixic-code run         Inspect or replay a saved session\n\nAdvanced commands:\n  deixic-code diagnostics Project compiler JSONL, optionally against a prior observation\n  deixic-code codex       Manage Codex authentication and app-server access\n  deixic-code mcp         Configure MCP servers\n  deixic-code plugins     Inspect and manage plugins\n  deixic-code connections Manage API keys and delegated accounts\n  deixic-code init        Register a Deixic agent integration\n\nCompatibility:\n  maestro remains available as an alias; MAESTRO_* variables and .maestro paths are unchanged.\n\nOptions:\n  -w, --worktree <name>  Run the session in a new git worktree at ../<repo>-wt-<name>\n                         on a new branch; interactive worktrees and branches are kept\n                         exec removes only clean worktrees with no new commits\n\nThe product runtime is native Rust; no Node.js or Bun runtime is required.";

/// The version line printed for `--version`.
pub const VERSION: &'static str = "deixic-code 0.1.0";

/// The text printed for the commands answered before any runtime starts.
pub fn sync_command_output(command: &Command) -> (r: Option<&'static str>)
    ensures
        r == (match *command {
            Command::Help => Some(HELP),
            Command::Version => Some(VERSION),
            _ => None::<&'static str>,
        }),
{
    match command {
        Command::Help => Some(HELP),
        Command::Version => Some(VERSION),
        _ => None,
    }
}

// ----------------------------------------------------------------------------
// Laws
// ----------------------------------------------------------------------------

/// The control plane is never started with both liveness mechanisms, with
/// process id 0, or with a negative file descriptor.
pub proof fn lemma_serve_options_consistent(args: Seq<Seq<char>>)
    ensures
        classify_result(args) matches Ok(Command::Serve { parent_pid, liveness_fd, .. }) ==> {
            &&& !(parent_pid is Some && liveness_fd is Some)
            &&& parent_pid != Some(0u32)
            &&& liveness_fd matches Some(fd) ==> fd >= 0
        },
{
}

/// Help and version are decided by the first argument alone: what follows it
/// is never read.
pub proof fn lemma_help_and_version_ignore_the_rest(a: Seq<Seq<char>>, b: Seq<Seq<char>>)
    requires
        a.len() > 0,
        b.len() > 0,
        a[0] == b[0],
        is_help_flag(a[0]) || is_version_flag(a[0]),
    ensures
        classify_result(a) == classify_result(b),
        classify_result(a) is Ok,
{
}


/// One step of reading the options of `serve` at `j`, against the same step
/// at the start of the remaining arguments.
proof fn lemma_serve_scan_step(args: Seq<Seq<char>>, j: int, acc: ServeOptions)
    requires
        0 <= j < args.len(),
        j + 1 <= args.len() ==> forall|o: ServeOptions|
            #[trigger] serve_scan(args, j + 1, o) == serve_scan(args.skip(j), 1, o),
        j + 2 <= args.len() ==> forall|o: ServeOptions|
            #[trigger] serve_scan(args, j + 2, o) == serve_scan(args.skip(j), 2, o),
    ensures
        serve_scan(args, j, acc) == serve_scan(args.skip(j), 0, acc),
{
    let t = args.skip(j);
    let a = args[j];
    assert(t[0] == a);
    if j + 1 < args.len() {
        assert(t[1] == args[j + 1]);
    }
    if a == "--port"@ || starts_with(a, "--port="@) {
        if let Some((v, next)) = option_value(args, j, "--port"@) {
            assert(option_value(t, 0, "--port"@) == Some((v, next - j)));
            if let Some(n) = parse_unsigned(v, 0xffff) {
                let o = ServeOptions { port: Some(n as u16), ..acc };
                assert(serve_scan(args, next, o) == serve_scan(t, next - j, o));
            }
        }
    } else if a == "--parent-pid"@ || starts_with(a, "--parent-pid="@) {
        if let Some((v, next)) = option_value(args, j, "--parent-pid"@) {
            assert(option_value(t, 0, "--parent-pid"@) == Some((v, next - j)));
            if let Some(n) = parse_unsigned(v, 0xffff_ffff) {
                let o = ServeOptions { parent_pid: Some(n as u32), ..acc };
                assert(serve_scan(args, next, o) == serve_scan(t, next - j, o));
            }
        }
    } else if a == "--liveness-fd"@ || starts_with(a, "--liveness-fd="@) {
        if let Some((v, next)) = option_value(args, j, "--liveness-fd"@) {
            assert(option_value(t, 0, "--liveness-fd"@) == Some((v, next - j)));
            if let Some(n) = parse_i32(v) {
                let o = ServeOptions { liveness_fd: Some(n as i32), ..acc };
                assert(serve_scan(args, next, o) == serve_scan(t, next - j, o));
            }
        }
    }
}

/// Reading the options of `serve` from position `j` depends only on the
/// arguments from `j` on.
proof fn lemma_serve_scan_suffix(args: Seq<Seq<char>>, j: int)
    requires
        0 <= j <= args.len(),
    ensures
        forall|acc: ServeOptions|
            #[trigger] serve_scan(args, j, acc) == serve_scan(args.skip(j), 0, acc),
    decreases args.len() - j,
{
    let t = args.skip(j);
    if j < args.len() {
        if j + 1 <= args.len() {
            lemma_serve_scan_suffix(args, j + 1);
            lemma_serve_scan_suffix(t, 1);
            assert(t.skip(1) =~= args.skip(j + 1));
            assert forall|o: ServeOptions|
                #[trigger] serve_scan(args, j + 1, o) == serve_scan(t, 1, o) by {
                assert(serve_scan(t, 1, o) == serve_scan(t.skip(1), 0, o));
            }
        }
        if j + 2 <= args.len() {
            lemma_serve_scan_suffix(args, j + 2);
            lemma_serve_scan_suffix(t, 2);
            assert(t.skip(2) =~= args.skip(j + 2));
            assert forall|o: ServeOptions|
                #[trigger] serve_scan(args, j + 2, o) == serve_scan(t, 2, o) by {
                assert(serve_scan(t, 2, o) == serve_scan(t.skip(2), 0, o));
            }
        }
        assert(t[0] == args[j]);
        if j + 1 < args.len() {
            assert(t[1] == args[j + 1]);
        }
        assert forall|acc: ServeOptions|
            #[trigger] serve_scan(args, j, acc) == serve_scan(t, 0, acc) by {
            lemma_serve_scan_step(args, j, acc);
        }
    } else {
        assert forall|acc: ServeOptions|
            #[trigger] serve_scan(args, j, acc) == serve_scan(t, 0, acc) by {
        }
    }
}

/// The value-taking options of `serve`.
pub open spec fn is_serve_option_name(name: Seq<char>) -> bool {
    name == "--port"@ || name == "--parent-pid"@ || name == "--liveness-fd"@
}

/// Arguments that open with `serve` are decided by the options of `serve`.
proof fn lemma_serve_first(args: Seq<Seq<char>>)
    requires
        args.len() > 0,
        args[0] == "serve"@,
    ensures
        classify_result(args) == serve_result(args),
{
    broadcast use vstd::string::group_string_axioms;

    reveal_strlit("serve");
    reveal_strlit("--version");
    reveal_strlit("-V");
    reveal_strlit("-v");
    reveal_strlit("--help");
    reveal_strlit("-h");
    reveal_strlit("--help-hidden");
    reveal_strlit("--help-all");
    assert("serve"@.len() == 5);
    assert("--version"@.len() == 9);
    assert("serve"@[0] == 's');
    assert("serve"@ != "--version"@ && "serve"@ != "-V"@ && "serve"@ != "-v"@);
    assert("serve"@ != "--help"@ && "serve"@ != "-h"@ && "serve"@ != "--help-hidden"@
        && "serve"@ != "--help-all"@);
}

/// The two spellings of an option read at position 1 lead to the same scan of
/// the arguments that follow.
proof fn lemma_spelling_scan(name: Seq<char>, v: Seq<char>, rest: Seq<Seq<char>>)
    requires
        name == "--port"@ || name == "--parent-pid"@ || name == "--liveness-fd"@,
        name == "--port"@ ==> name + "="@ == "--port="@,
        name == "--parent-pid"@ ==> name + "="@ == "--parent-pid="@ && !(name == "--port"@
            || starts_with(name, "--port="@)) && !(name + "="@ + v == "--port"@ || starts_with(
            name + "="@ + v,
            "--port="@,
        )),
        name == "--liveness-fd"@ ==> name + "="@ == "--liveness-fd="@ && !(name == "--port"@
            || starts_with(name, "--port="@)) && !(name + "="@ + v == "--port"@ || starts_with(
            name + "="@ + v,
            "--port="@,
        )) && !(name == "--parent-pid"@ || starts_with(name, "--parent-pid="@)) && !(name
            + "="@ + v == "--parent-pid"@ || starts_with(name + "="@ + v, "--parent-pid="@)),
    ensures
        serve_scan(seq!["serve"@, name, v] + rest, 1, no_serve_options()) == serve_scan(
            seq!["serve"@, name + "="@ + v] + rest,
            1,
            no_serve_options(),
        ),
{
    broadcast use vstd::string::group_string_axioms;

    reveal_strlit("=");
    reveal_strlit("--port");
    reveal_strlit("--port=");
    reveal_strlit("--parent-pid");
    reveal_strlit("--parent-pid=");
    reveal_strlit("--liveness-fd");
    reveal_strlit("--liveness-fd=");
    assert("="@.len() == 1);
    assert("--port"@.len() == 6 && "--port="@.len() == 7);
    assert("--parent-pid"@.len() == 12 && "--parent-pid="@.len() == 13);
    assert("--liveness-fd"@.len() == 13 && "--liveness-fd="@.len() == 14);
    let a = seq!["serve"@, name, v] + rest;
    let joined = name + "="@ + v;
    let b = seq!["serve"@, joined] + rest;
    assert(a[1] == name && a[2] == v);
    assert(b[1] == joined);
    assert(joined.len() == name.len() + 1 + v.len());
    assert(joined != name);
    assert(joined.skip(name.len() as int + 1) =~= v);
    assert(joined.take(name.len() as int + 1) =~= name + "="@);
    lemma_serve_scan_suffix(a, 3);
    lemma_serve_scan_suffix(b, 2);
    assert(a.skip(3) =~= rest);
    assert(b.skip(2) =~= rest);
    let none = no_serve_options();
    assert(starts_with(joined, name + "="@));
    assert(option_value(a, 1, name) == Some((v, 3int)));
    assert(option_value(b, 1, name) == Some((v, 2int)));
    if name == "--port"@ {
        if let Some(n) = parse_unsigned(v, 0xffff) {
            let o = ServeOptions { port: Some(n as u16), ..none };
            assert(serve_scan(a, 3, o) == serve_scan(b, 2, o));
        }
    } else if name == "--parent-pid"@ {
        if let Some(n) = parse_unsigned(v, 0xffff_ffff) {
            let o = ServeOptions { parent_pid: Some(n as u32), ..none };
            assert(serve_scan(a, 3, o) == serve_scan(b, 2, o));
        }
    } else {
        if let Some(n) = parse_i32(v) {
            let o = ServeOptions { liveness_fd: Some(n as i32), ..none };
            assert(serve_scan(a, 3, o) == serve_scan(b, 2, o));
        }
    }
}

/// `name=value` sets exactly what `name value` sets: for every option of
/// `serve`, value and following arguments, the two spellings decide the same.
pub proof fn lemma_option_spellings_agree(name: Seq<char>, v: Seq<char>, rest: Seq<Seq<char>>)
    requires
        is_serve_option_name(name),
    ensures
        classify_result(seq!["serve"@, name, v] + rest) == classify_result(
            seq!["serve"@, name + "="@ + v] + rest,
        ),
{
    broadcast use vstd::string::group_string_axioms;

    reveal_strlit("serve");
    reveal_strlit("--port");
    reveal_strlit("--port=");
    reveal_strlit("--parent-pid");
    reveal_strlit("--parent-pid=");
    reveal_strlit("--liveness-fd");
    reveal_strlit("--liveness-fd=");
    reveal_strlit("=");
    let a = seq!["serve"@, name, v] + rest;
    let joined = name + "="@ + v;
    let b = seq!["serve"@, joined] + rest;
    assert(a[0] == "serve"@ && b[0] == "serve"@);
    lemma_serve_first(a);
    lemma_serve_first(b);
    assert(joined.len() == name.len() + 1 + v.len());
    if name == "--port"@ {
        assert(name + "="@ =~= "--port="@);
    } else if name == "--parent-pid"@ {
        assert(name + "="@ =~= "--parent-pid="@);
        assert(name.take(7)[3] != "--port="@[3]);
        assert(joined.take(7)[3] != "--port="@[3]);
    } else {
        assert(name + "="@ =~= "--liveness-fd="@);
        assert(name.take(7)[2] != "--port="@[2]);
        assert(joined.take(7)[2] != "--port="@[2]);
        assert(name.take(13)[2] != "--parent-pid="@[2]);
        assert(joined.take(13)[2] != "--parent-pid="@[2]);
    }
    lemma_spelling_scan(name, v, rest);
}

/// `a` sets the port of `serve`, in either spelling.
pub open spec fn is_port_option(a: Seq<char>) -> bool {
    a == "--port"@ || starts_with(a, "--port="@)
}

/// One step of reading options that never set the port.
proof fn lemma_keeps_port_step(args: Seq<Seq<char>>, j: int, acc: ServeOptions)
    requires
        0 <= j < args.len(),
        !is_port_option(args[j]),
        j + 1 <= args.len() ==> forall|o: ServeOptions|
            #[trigger] serve_scan(args, j + 1, o) matches Ok(r) ==> r.port == o.port,
        j + 2 <= args.len() ==> forall|o: ServeOptions|
            #[trigger] serve_scan(args, j + 2, o) matches Ok(r) ==> r.port == o.port,
    ensures
        serve_scan(args, j, acc) matches Ok(r) ==> r.port == acc.port,
{
    let a = args[j];
    if a == "--parent-pid"@ || starts_with(a, "--parent-pid="@) {
        if let Some((v, next)) = option_value(args, j, "--parent-pid"@) {
            if let Some(n) = parse_unsigned(v, 0xffff_ffff) {
                let o = ServeOptions { parent_pid: Some(n as u32), ..acc };
                assert(serve_scan(args, j, acc) == serve_scan(args, next, o));
            }
        }
    } else if a == "--liveness-fd"@ || starts_with(a, "--liveness-fd="@) {
        if let Some((v, next)) = option_value(args, j, "--liveness-fd"@) {
            if let Some(n) = parse_i32(v) {
                let o = ServeOptions { liveness_fd: Some(n as i32), ..acc };
                assert(serve_scan(args, j, acc) == serve_scan(args, next, o));
            }
        }
    }
}

/// Reading options that never set the port leaves the port as it was.
proof fn lemma_serve_scan_keeps_port(args: Seq<Seq<char>>, j: int)
    requires
        0 <= j <= args.len(),
        forall|k: int| j <= k < args.len() ==> !is_port_option(#[trigger] args[k]),
    ensures
        forall|acc: ServeOptions|
            #[trigger] serve_scan(args, j, acc) matches Ok(o) ==> o.port == acc.port,
    decreases args.len() - j,
{
    if j + 1 <= args.len() {
        lemma_serve_scan_keeps_port(args, j + 1);
    }
    if j + 2 <= args.len() {
        lemma_serve_scan_keeps_port(args, j + 2);
    }
    assert forall|acc: ServeOptions|
        #[trigger] serve_scan(args, j, acc) matches Ok(o) ==> o.port == acc.port by {
        if j < args.len() {
            lemma_keeps_port_step(args, j, acc);
        }
    }
}

/// The last port option decides the port: `serve --port N` or
/// `serve --port=N`, with `N` a valid `u16` and no port option after it,
/// starts the control plane on port `N` whenever it starts it at all, and
/// with nothing after it always starts it there.
pub proof fn lemma_last_port_option_decides(v: Seq<char>, rest: Seq<Seq<char>>)
    requires
        parse_unsigned(v, 0xffff) is Some,
        forall|k: int| 0 <= k < rest.len() ==> !is_port_option(#[trigger] rest[k]),
    ensures
        ({
            let n = (parse_unsigned(v, 0xffff)->Some_0) as u16;
            &&& classify_result(seq!["serve"@, "--port"@, v] + rest) matches Ok(Command::Serve { port, .. })
                ==> port == Some(n)
            &&& classify_result(seq!["serve"@, "--port="@ + v] + rest) matches Ok(Command::Serve { port, .. })
                ==> port == Some(n)
            &&& rest.len() == 0 ==> classify_result(seq!["serve"@, "--port"@, v]) == Ok::<Command, Seq<char>>(
                Command::Serve { port: Some(n), parent_pid: None, liveness_fd: None },
            )
            &&& rest.len() == 0 ==> classify_result(seq!["serve"@, "--port="@ + v]) == Ok::<Command, Seq<char>>(
                Command::Serve { port: Some(n), parent_pid: None, liveness_fd: None },
            )
        }),
{
    broadcast use vstd::string::group_string_axioms;

    reveal_strlit("serve");
    reveal_strlit("--port");
    reveal_strlit("--port=");
    reveal_strlit("=");
    assert("--port"@.len() == 6 && "--port="@.len() == 7 && "="@.len() == 1);
    assert("--port"@ + "="@ =~= "--port="@);
    let n = parse_unsigned(v, 0xffff)->Some_0;
    let none = no_serve_options();
    let o = ServeOptions { port: Some(n as u16), ..none };
    let a = seq!["serve"@, "--port"@, v] + rest;
    assert(a[0] == "serve"@ && a[1] == "--port"@ && a[2] == v);
    lemma_serve_first(a);
    assert(option_value(a, 1, "--port"@) == Some((v, 3int)));
    assert(serve_scan(a, 1, none) == serve_scan(a, 3, o));
    lemma_serve_scan_suffix(a, 3);
    assert(a.skip(3) =~= rest);
    lemma_serve_scan_keeps_port(rest, 0);
    assert(serve_scan(rest, 0, o) matches Ok(r) ==> r.port == Some(n as u16));
    lemma_option_spellings_agree("--port"@, v, rest);
    assert(seq!["serve"@, "--port"@ + "="@ + v] + rest =~= seq!["serve"@, "--port="@ + v] + rest);
    if rest.len() == 0 {
        assert(serve_scan(rest, 0, o) == Ok::<ServeOptions, Seq<char>>(o));
        assert(a =~= seq!["serve"@, "--port"@, v]);
        assert(seq!["serve"@, "--port="@ + v] + rest =~= seq!["serve"@, "--port="@ + v]);
    }
}

} // verus!
