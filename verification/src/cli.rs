//! The server's command line: the options it sets and how its arguments are read.
use vstd::prelude::*;
use crate::text::chars_of;

verus! {

/// The value of a run of decimal digits.
pub open spec fn digits_value(s: Seq<char>) -> nat
    decreases s.len(),
{
    if s.len() == 0 {
        0
    } else {
        digits_value(s.drop_last()) * 10 + (s.last() as int - 48) as nat
    }
}

/// Every character of `s` is an ASCII decimal digit.
pub open spec fn is_digits(s: Seq<char>) -> bool {
    forall|i: int| 0 <= i < s.len() ==> '0' <= #[trigger] s[i] <= '9'
}

/// The digits of an unsigned number as std writes it: after an optional leading `+`.
pub open spec fn unsigned_body(s: Seq<char>) -> Seq<char> {
    if s.len() > 0 && s[0] == '+' {
        s.drop_first()
    } else {
        s
    }
}

/// What std's `parse` gives for an unsigned integer type whose largest value is `max`: the
/// value of the digits after an optional `+`, when there is at least one, all are decimal
/// digits and the value fits.
pub open spec fn parse_unsigned(s: Seq<char>, max: nat) -> Option<nat> {
    let d = unsigned_body(s);
    if d.len() > 0 && is_digits(d) && digits_value(d) <= max {
        Some(digits_value(d))
    } else {
        None
    }
}

/// A prefix of a run of digits is worth no more than the whole run.
proof fn lemma_digits_prefix_le(s: Seq<char>, k: int)
    requires
        is_digits(s),
        0 <= k <= s.len(),
    ensures
        digits_value(s.take(k)) <= digits_value(s),
    decreases s.len(),
{
    if k < s.len() {
        let t = s.drop_last();
        assert(is_digits(t)) by {
            assert forall|i: int| 0 <= i < t.len() implies '0' <= #[trigger] t[i] <= '9' by {
                assert(t[i] == s[i]);
            }
        }
        lemma_digits_prefix_le(t, k);
        assert(t.take(k) == s.take(k));
        assert(s.drop_last() == t);
        assert('0' <= s[s.len() - 1] <= '9');
    } else {
        assert(s.take(k) == s);
    }
}

/// Parses an unsigned number no larger than `max`, as std's `parse` does for the unsigned
/// type whose largest value is `max`.
pub fn parse_bounded(s: &str, max: u64) -> (r: Option<u64>)
    ensures
        match r {
            Some(v) => parse_unsigned(s@, max as nat) == Some(v as nat),
            None => parse_unsigned(s@, max as nat) is None,
        },
{
    let cs = chars_of(s);
    let n = cs.len();
    let mut start: usize = 0;
    if n > 0 && cs[0] == '+' {
        start = 1;
    }
    let ghost body = unsigned_body(s@);
    assert(body == cs@.subrange(start as int, n as int));
    if start == n {
        return None;
    }
    let mut v: u64 = 0;
    let mut i: usize = start;
    assert(cs@.subrange(start as int, start as int).len() == 0);
    while i < n
        invariant
            n == cs@.len(),
            cs@ == s@,
            start <= i <= n,
            body == cs@.subrange(start as int, n as int),
            body == unsigned_body(s@),
            is_digits(cs@.subrange(start as int, i as int)),
            v == digits_value(cs@.subrange(start as int, i as int)),
            v <= max,
        decreases n - i,
    {
        let c = cs[i];
        let ghost prev = cs@.subrange(start as int, i as int);
        let ghost next = cs@.subrange(start as int, i + 1);
        assert(next.drop_last() == prev);
        assert(next.last() == c);
        assert(body[i - start] == c);
        if !('0' <= c && c <= '9') {
            return None;
        }
        let d: u64 = (c as u32 - 48) as u64;
        let nv: u128 = v as u128 * 10 + d as u128;
        assert(nv == digits_value(next));
        assert(is_digits(next)) by {
            assert forall|k: int| 0 <= k < next.len() implies '0' <= #[trigger] next[k] <= '9' by {
                if k < prev.len() {
                    assert(next[k] == prev[k]);
                }
            }
        }
        if nv > max as u128 {
            proof {
                if is_digits(body) {
                    assert(body.take(i + 1 - start) == next);
                    lemma_digits_prefix_le(body, i + 1 - start);
                }
            }
            return None;
        }
        v = nv as u64;
        i = i + 1;
    }
    assert(cs@.subrange(start as int, n as int) == body);
    Some(v)
}

/// What the command line sets: where to listen, how many workers and database connections,
/// the database's page cache, and whether to log.
pub struct ServerOptions {
    pub host: String,
    pub port: u16,
    pub num_workers: usize,
    pub pool_size: usize,
    pub cache_size: usize,
    pub debug: bool,
}

/// The options as values.
pub struct OptionsView {
    pub host: Seq<char>,
    pub port: u16,
    pub num_workers: usize,
    pub pool_size: usize,
    pub cache_size: usize,
    pub debug: bool,
}

impl View for ServerOptions {
    type V = OptionsView;

    open spec fn view(&self) -> OptionsView {
        OptionsView {
            host: self.host@,
            port: self.port,
            num_workers: self.num_workers,
            pool_size: self.pool_size,
            cache_size: self.cache_size,
            debug: self.debug,
        }
    }
}

/// The options before the command line is read: listen on `0.0.0.0:8080`, one worker and one
/// database connection per CPU, a page cache of 1024, no logging.
pub fn default_options(num_cpus: usize) -> (o: ServerOptions)
    ensures
        o@ == (OptionsView {
            host: "0.0.0.0"@,
            port: 8080,
            num_workers: num_cpus,
            pool_size: num_cpus,
            cache_size: 1024,
            debug: false,
        }),
{
    ServerOptions {
        host: "0.0.0.0".to_owned(),
        port: 8080,
        num_workers: num_cpus,
        pool_size: num_cpus,
        cache_size: 1024,
        debug: false,
    }
}

/// The text of each argument.
pub open spec fn arg_views(args: Seq<String>) -> Seq<Seq<char>> {
    args.map_values(|a: String| a@)
}

/// Reading the `i`-th argument: where reading goes on, and the options after it. An option
/// that takes a value takes the next argument when there is one (a number only when it
/// parses); an argument that is not an option is passed over.
pub open spec fn arg_step(args: Seq<Seq<char>>, i: int, o: OptionsView) -> (int, OptionsView) {
    let a = args[i];
    let has_next = i + 1 < args.len();
    if a == "--host"@ || a == "-h"@ {
        if has_next {
            (i + 2, OptionsView { host: args[i + 1], ..o })
        } else {
            (i + 1, o)
        }
    } else if a == "--port"@ || a == "-p"@ {
        if has_next && parse_unsigned(args[i + 1], u16::MAX as nat) is Some {
            (i + 2, OptionsView { port: parse_unsigned(args[i + 1], u16::MAX as nat)->0 as u16, ..o })
        } else {
            (i + 1, o)
        }
    } else if a == "--num_workers"@ || a == "-w"@ {
        if has_next && parse_unsigned(args[i + 1], usize::MAX as nat) is Some {
            (
                i + 2,
                OptionsView {
                    num_workers: parse_unsigned(args[i + 1], usize::MAX as nat)->0 as usize,
                    ..o
                },
            )
        } else {
            (i + 1, o)
        }
    } else if a == "--pool_size"@ || a == "-c"@ {
        if has_next && parse_unsigned(args[i + 1], usize::MAX as nat) is Some {
            (
                i + 2,
                OptionsView {
                    pool_size: parse_unsigned(args[i + 1], usize::MAX as nat)->0 as usize,
                    ..o
                },
            )
        } else {
            (i + 1, o)
        }
    } else if a == "--cache_size"@ || a == "-z"@ {
        if has_next && parse_unsigned(args[i + 1], usize::MAX as nat) is Some {
            (
                i + 2,
                OptionsView {
                    cache_size: parse_unsigned(args[i + 1], usize::MAX as nat)->0 as usize,
                    ..o
                },
            )
        } else {
            (i + 1, o)
        }
    } else if a == "--debug"@ {
        (i + 1, OptionsView { debug: true, ..o })
    } else {
        (i + 1, o)
    }
}

/// The options after reading the arguments from the `i`-th on.
pub open spec fn apply_args(args: Seq<Seq<char>>, i: int, o: OptionsView) -> OptionsView
    decreases args.len() - i,
{
    if 0 <= i < args.len() {
        let (j, o2) = arg_step(args, i, o);
        apply_args(args, j, o2)
    } else {
        o
    }
}

/// Reads the command line `args` (the program's name first, then its arguments) over the
/// options `defaults`.
pub fn parse_args(args: &Vec<String>, defaults: ServerOptions) -> (r: ServerOptions)
    ensures
        r@ == apply_args(arg_views(args@), 1, defaults@),
{
    let ghost av = arg_views(args@);
    let n = args.len();
    let host_long = "--host".to_owned();
    let host_short = "-h".to_owned();
    let port_long = "--port".to_owned();
    let port_short = "-p".to_owned();
    let workers_long = "--num_workers".to_owned();
    let workers_short = "-w".to_owned();
    let pool_long = "--pool_size".to_owned();
    let pool_short = "-c".to_owned();
    let cache_long = "--cache_size".to_owned();
    let cache_short = "-z".to_owned();
    let debug_flag = "--debug".to_owned();
    let mut o = defaults;
    let mut i: usize = 1;
    while i < n
        invariant
            n == args@.len(),
            av == arg_views(args@),
            1 <= i,
            apply_args(av, i as int, o@) == apply_args(av, 1, defaults@),
            host_long@ == "--host"@,
            host_short@ == "-h"@,
            port_long@ == "--port"@,
            port_short@ == "-p"@,
            workers_long@ == "--num_workers"@,
            workers_short@ == "-w"@,
            pool_long@ == "--pool_size"@,
            pool_short@ == "-c"@,
            cache_long@ == "--cache_size"@,
            cache_short@ == "-z"@,
            debug_flag@ == "--debug"@,
        decreases n - i,
    {
        let ghost before = o@;
        let ghost step = arg_step(av, i as int, before);
        assert(av[i as int] == args@[i as int]@);
        let has_next = i + 1 < n;
        proof {
            if has_next {
                assert(av[i + 1] == args@[i + 1]@);
            }
        }
        let a = &args[i];
        if *a == host_long || *a == host_short {
            if has_next {
                o.host = args[i + 1].clone();
                i = i + 1;
            }
        } else if *a == port_long || *a == port_short {
            if has_next {
                if let Some(p) = parse_bounded(args[i + 1].as_str(), 0xffff) {
                    o.port = p as u16;
                    i = i + 1;
                }
            }
        } else if *a == workers_long || *a == workers_short {
            if has_next {
                if let Some(w) = parse_bounded(args[i + 1].as_str(), usize::MAX as u64) {
                    o.num_workers = w as usize;
                    i = i + 1;
                }
            }
        } else if *a == pool_long || *a == pool_short {
            if has_next {
                if let Some(c) = parse_bounded(args[i + 1].as_str(), usize::MAX as u64) {
                    o.pool_size = c as usize;
                    i = i + 1;
                }
            }
        } else if *a == cache_long || *a == cache_short {
            if has_next {
                if let Some(z) = parse_bounded(args[i + 1].as_str(), usize::MAX as u64) {
                    o.cache_size = z as usize;
                    i = i + 1;
                }
            }
        } else if *a == debug_flag {
            o.debug = true;
        }
        i = i + 1;
        assert(step.0 == i as int && step.1 == o@);
    }
    o
}

/// The option names are all different.
proof fn lemma_option_names_differ()
    ensures
        "--host"@.len() == 6 && "--port"@.len() == 6 && "--host"@[2] != "--port"@[2],
        "-h"@.len() == 2 && "-p"@.len() == 2 && "-w"@.len() == 2 && "-c"@.len() == 2 && "-z"@.len() == 2,
        "-h"@[1] == 'h' && "-p"@[1] == 'p' && "-w"@[1] == 'w' && "-c"@[1] == 'c' && "-z"@[1] == 'z',
        "--num_workers"@.len() == 13 && "--pool_size"@.len() == 11 && "--cache_size"@.len() == 12
            && "--debug"@.len() == 7,
{
    reveal_strlit("--host");
    reveal_strlit("-h");
    reveal_strlit("--port");
    reveal_strlit("-p");
    reveal_strlit("--num_workers");
    reveal_strlit("-w");
    reveal_strlit("--pool_size");
    reveal_strlit("-c");
    reveal_strlit("--cache_size");
    reveal_strlit("-z");
    reveal_strlit("--debug");
}

/// Each option reads its long and its short form alike: at the `i`-th argument, `--host` acts
/// as `-h`, `--port` as `-p`, `--num_workers` as `-w`, `--pool_size` as `-c` and `--cache_size`
/// as `-z`.
pub proof fn lemma_long_and_short_options(args: Seq<Seq<char>>, i: int, o: OptionsView)
    requires
        0 <= i < args.len(),
    ensures
        args[i] == "--host"@ ==> arg_step(args, i, o) == arg_step(args.update(i, "-h"@), i, o),
        args[i] == "--port"@ ==> arg_step(args, i, o) == arg_step(args.update(i, "-p"@), i, o),
        args[i] == "--num_workers"@ ==> arg_step(args, i, o) == arg_step(args.update(i, "-w"@), i, o),
        args[i] == "--pool_size"@ ==> arg_step(args, i, o) == arg_step(args.update(i, "-c"@), i, o),
        args[i] == "--cache_size"@ ==> arg_step(args, i, o) == arg_step(args.update(i, "-z"@), i, o),
{
    lemma_option_names_differ();
    assert forall|f: Seq<char>|
        #[trigger] args.update(i, f)[i] == f && args.update(i, f).len() == args.len() && (i + 1
            < args.len() ==> args.update(i, f)[i + 1] == args[i + 1]) by {}
}

/// An option with a value sets it and reading goes on after the value: `--host h` (or `-h h`)
/// sets the host to `h`; `--port n` (`-p n`), `--num_workers n` (`-w n`), `--pool_size n`
/// (`-c n`) and `--cache_size n` (`-z n`) set their option to `n` when `n` parses as a number
/// of the option's type; `--debug` turns logging on.
pub proof fn lemma_option_values(args: Seq<Seq<char>>, i: int, o: OptionsView)
    requires
        0 <= i,
        i + 1 < args.len(),
    ensures
        (args[i] == "--host"@ || args[i] == "-h"@) ==> apply_args(args, i, o) == apply_args(
            args,
            i + 2,
            OptionsView { host: args[i + 1], ..o },
        ),
        (args[i] == "--port"@ || args[i] == "-p"@) && parse_unsigned(args[i + 1], u16::MAX as nat)
            is Some ==> apply_args(args, i, o) == apply_args(
            args,
            i + 2,
            OptionsView { port: parse_unsigned(args[i + 1], u16::MAX as nat)->0 as u16, ..o },
        ),
        (args[i] == "--num_workers"@ || args[i] == "-w"@) && parse_unsigned(
            args[i + 1],
            usize::MAX as nat,
        ) is Some ==> apply_args(args, i, o) == apply_args(
            args,
            i + 2,
            OptionsView { num_workers: parse_unsigned(args[i + 1], usize::MAX as nat)->0 as usize, ..o },
        ),
        (args[i] == "--pool_size"@ || args[i] == "-c"@) && parse_unsigned(
            args[i + 1],
            usize::MAX as nat,
        ) is Some ==> apply_args(args, i, o) == apply_args(
            args,
            i + 2,
            OptionsView { pool_size: parse_unsigned(args[i + 1], usize::MAX as nat)->0 as usize, ..o },
        ),
        (args[i] == "--cache_size"@ || args[i] == "-z"@) && parse_unsigned(
            args[i + 1],
            usize::MAX as nat,
        ) is Some ==> apply_args(args, i, o) == apply_args(
            args,
            i + 2,
            OptionsView { cache_size: parse_unsigned(args[i + 1], usize::MAX as nat)->0 as usize, ..o },
        ),
        args[i] == "--debug"@ ==> apply_args(args, i, o) == apply_args(
            args,
            i + 1,
            OptionsView { debug: true, ..o },
        ),
{
    lemma_option_names_differ();
}

} // verus!
