use vstd::prelude::*;
use vstd::string::StrSliceExecFns;
use vstd::string::StringExecFns;

use crate::listener::{MndpConfig, DEFAULT_TIMEOUT_SECS};
use crate::time::TimeSpan;

verus! {

/// Whether `c` is a decimal digit.
pub open spec fn is_digit(c: char) -> bool {
    '0' <= c && c <= '9'
}

/// The number that a string of decimal digits writes.
pub open spec fn digits_value(s: Seq<char>) -> int
    decreases s.len(),
{
    if s.len() == 0 {
        0
    } else {
        digits_value(s.drop_last()) * 10 + (s.last() as int - '0' as int)
    }
}

/// The digits of an unsigned decimal number: an optional leading `+`, then
/// the rest.
pub open spec fn unsigned_digits(s: Seq<char>) -> Seq<char> {
    if s.len() > 0 && s[0] == '+' {
        s.drop_first()
    } else {
        s
    }
}

/// What `u64::from_str` gives for `s`: an optional `+` followed by one or
/// more decimal digits whose number fits in a `u64`; nothing else parses.
pub open spec fn spec_parse_u64(s: Seq<char>) -> Option<u64> {
    let d = unsigned_digits(s);
    if d.len() > 0 && (forall|i: int| 0 <= i < d.len() ==> is_digit(#[trigger] d[i]))
        && digits_value(d) <= u64::MAX {
        Some(digits_value(d) as u64)
    } else {
        None
    }
}

proof fn lemma_digits_value_grows(s: Seq<char>, k: int)
    requires
        0 <= k <= s.len(),
        forall|i: int| 0 <= i < s.len() ==> is_digit(#[trigger] s[i]),
    ensures
        0 <= digits_value(s.take(k)) <= digits_value(s),
    decreases s.len(),
{
    if s.len() > 0 {
        if k == s.len() {
            assert(s.take(k) =~= s);
            lemma_digits_value_grows(s.drop_last(), s.len() - 1);
            assert(s.drop_last().take(s.len() - 1) =~= s.drop_last());
        } else {
            lemma_digits_value_grows(s.drop_last(), k);
            assert(s.drop_last().take(k) =~= s.take(k));
            lemma_digits_value_grows(s.drop_last(), s.len() - 1);
            assert(s.drop_last().take(s.len() - 1) =~= s.drop_last());
        }
    }
}

/// Parses an unsigned decimal number the way `u64::from_str` does.
pub fn parse_u64(s: &str) -> (r: Option<u64>)
    ensures
        r == spec_parse_u64(s@),
{
    let n = s.unicode_len();
    let mut start: usize = 0;
    if n > 0 && s.get_char(0) == '+' {
        start = 1;
    }
    let ghost d = unsigned_digits(s@);
    proof {
        assert(d =~= s@.subrange(start as int, n as int));
    }
    if start == n {
        return None;
    }
    let mut i: usize = start;
    while i < n
        invariant
            start <= i <= n,
            n == s@.len(),
            d =~= s@.subrange(start as int, n as int),
            d == unsigned_digits(s@),
            forall|j: int| 0 <= j < i - start ==> is_digit(#[trigger] d[j]),
        decreases n - i,
    {
        let c = s.get_char(i);
        assert(d[i - start] == c);
        if !('0' <= c && c <= '9') {
            assert(!is_digit(d[i - start]));
            return None;
        }
        i = i + 1;
    }
    let mut value: u64 = 0;
    let mut k: usize = start;
    while k < n
        invariant
            start <= k <= n,
            n == s@.len(),
            d =~= s@.subrange(start as int, n as int),
            d == unsigned_digits(s@),
            forall|j: int| 0 <= j < d.len() ==> is_digit(#[trigger] d[j]),
            value == digits_value(d.take(k - start)),
        decreases n - k,
    {
        let c = s.get_char(k);
        assert(d[k - start] == c);
        assert(is_digit(c));
        let digit = (c as u32 - '0' as u32) as u64;
        proof {
            assert(is_digit(d[k - start]));
            assert(d.take(k - start + 1).drop_last() =~= d.take(k - start));
            assert(d.take(k - start + 1).last() == c);
        }
        let next = match value.checked_mul(10) {
            Some(v) => v.checked_add(digit),
            None => None,
        };
        match next {
            Some(v) => {
                value = v;
            },
            None => {
                proof {
                    assert(digits_value(d.take(k - start + 1)) == value * 10 + digit);
                    lemma_digits_value_grows(d, k - start + 1);
                }
                return None;
            },
        }
        k = k + 1;
    }
    assert(d.take(n - start) =~= d);
    Some(value)
}

/// Whether `s` ends with the seconds suffix `s`.
pub open spec fn ends_with_secs_suffix(s: Seq<char>) -> bool {
    s.len() > 0 && s.last() == 's'
}

/// Whether `parse_str_time` accepts `s`: without the `s` suffix any text is
/// accepted (and gives the default); with it, the rest must be a number.
pub open spec fn time_accepted(s: Seq<char>) -> bool {
    ends_with_secs_suffix(s) ==> spec_parse_u64(s.drop_last()) is Some
}

/// The span that a timeout argument stands for: `<n>s` is `n` seconds,
/// anything without the `s` suffix the default of 20 seconds.
pub open spec fn spec_parse_str_time(s: Seq<char>) -> TimeSpan {
    if ends_with_secs_suffix(s) {
        TimeSpan { secs: spec_parse_u64(s.drop_last())->0, nanos: 0 }
    } else {
        TimeSpan { secs: DEFAULT_TIMEOUT_SECS, nanos: 0 }
    }
}

/// Reads a timeout argument such as `30s`.
pub fn parse_str_time(timeout: String) -> (t: TimeSpan)
    requires
        time_accepted(timeout@),
    ensures
        t == spec_parse_str_time(timeout@),
        t.wf(),
{
    let text = timeout.as_str();
    let n = text.unicode_len();
    if n > 0 && text.get_char(n - 1) == 's' {
        let digits = text.substring_char(0, n - 1);
        assert(digits@ =~= timeout@.drop_last());
        let secs = parse_u64(digits).unwrap();
        TimeSpan::from_secs(secs)
    } else {
        TimeSpan::from_secs(DEFAULT_TIMEOUT_SECS)
    }
}

/// The first thing that stops the command line from being read into a
/// configuration, if anything does.
#[derive(Debug, Clone, Copy, PartialEq, Eq, Structural)]
pub enum ArgsCheck {
    /// Every argument can be read.
    Complete,
    /// Help is asked for; it is printed instead of running.
    Help,
    /// The option at this index is the last argument and lacks its value.
    MissingValue(usize),
    /// The timeout given to the option at this index is not a number of
    /// seconds.
    InvalidTimeout(usize),
}

/// The arguments as text.
pub open spec fn args_view(args: Seq<String>) -> Seq<Seq<char>> {
    args.map_values(|a: String| a@)
}

/// Whether `a` asks for help.
pub open spec fn is_help_flag(a: Seq<char>) -> bool {
    a == "--help"@ || a == "-h"@ || a == "help"@
}

/// Reading the arguments from index `i` on: what stops it first.
pub open spec fn spec_check_args_from(args: Seq<Seq<char>>, i: int) -> ArgsCheck
    decreases args.len() - i,
{
    if i < 0 || i >= args.len() {
        ArgsCheck::Complete
    } else if args[i] == "-i"@ {
        if i + 1 >= args.len() {
            ArgsCheck::MissingValue(i as usize)
        } else {
            spec_check_args_from(args, i + 1)
        }
    } else if args[i] == "-t"@ {
        if i + 1 >= args.len() {
            ArgsCheck::MissingValue(i as usize)
        } else if !time_accepted(args[i + 1]) {
            ArgsCheck::InvalidTimeout(i as usize)
        } else {
            spec_check_args_from(args, i + 1)
        }
    } else if is_help_flag(args[i]) {
        ArgsCheck::Help
    } else {
        spec_check_args_from(args, i + 1)
    }
}

/// What a configuration says, as text and numbers.
pub struct ConfigView {
    pub interface: Option<Seq<char>>,
    pub timeout: TimeSpan,
    pub raw_socket: bool,
}

pub open spec fn config_view(c: MndpConfig) -> ConfigView {
    ConfigView {
        interface: match c.interface {
            Some(name) => Some(name@),
            None => None,
        },
        timeout: c.timeout,
        raw_socket: c.raw_socket,
    }
}

/// The configuration that `MndpConfig::new` gives.
pub open spec fn default_config() -> ConfigView {
    ConfigView {
        interface: None,
        timeout: TimeSpan { secs: DEFAULT_TIMEOUT_SECS, nanos: 0 },
        raw_socket: false,
    }
}

/// What the argument at index `i` does to a configuration: `-i` names the
/// interface (the next argument) and asks for raw frames, `-t` sets the
/// timeout (from the next argument); any other argument changes nothing.
pub open spec fn spec_apply_arg(c: ConfigView, args: Seq<Seq<char>>, i: int) -> ConfigView {
    if args[i] == "-i"@ && i + 1 < args.len() {
        ConfigView { interface: Some(args[i + 1]), raw_socket: true, ..c }
    } else if args[i] == "-t"@ && i + 1 < args.len() {
        ConfigView { timeout: spec_parse_str_time(args[i + 1]), ..c }
    } else {
        c
    }
}

/// The configuration after reading the arguments from index `i` on.
pub open spec fn spec_args_config(c: ConfigView, args: Seq<Seq<char>>, i: int) -> ConfigView
    decreases args.len() - i,
{
    if i < 0 || i >= args.len() {
        c
    } else {
        spec_args_config(spec_apply_arg(c, args, i), args, i + 1)
    }
}

/// Whether `a` is the text `lit`.
fn text_is(a: &String, lit: &str) -> (b: bool)
    ensures
        b == (a@ == lit@),
{
    let expected = String::from_str(lit);
    *a == expected
}

/// Finds what, if anything, stops the command line from being read; every
/// argument is looked at, the values of options included.
pub fn check_args(args: &Vec<String>) -> (r: ArgsCheck)
    ensures
        r == spec_check_args_from(args_view(args@), 0),
{
    let ghost v = args_view(args@);
    let n = args.len();
    let mut i: usize = n;
    let mut outcome = ArgsCheck::Complete;
    // Walks backwards, so that `outcome` is always the outcome of reading
    // from index `i` on.
    while i > 0
        invariant
            i <= n,
            n == args@.len(),
            v == args_view(args@),
            outcome == spec_check_args_from(v, i as int),
        decreases i,
    {
        i = i - 1;
        let a = &args[i];
        if text_is(a, "-i") {
            if i + 1 >= n {
                outcome = ArgsCheck::MissingValue(i);
            }
        } else if text_is(a, "-t") {
            if i + 1 >= n {
                outcome = ArgsCheck::MissingValue(i);
            } else if !timeout_is_valid(&args[i + 1]) {
                outcome = ArgsCheck::InvalidTimeout(i);
            }
        } else if text_is(a, "--help") || text_is(a, "-h") || text_is(a, "help") {
            outcome = ArgsCheck::Help;
        }
    }
    outcome
}

/// Whether `parse_str_time` accepts `timeout`.
pub fn timeout_is_valid(timeout: &String) -> (b: bool)
    ensures
        b == time_accepted(timeout@),
{
    let text = timeout.as_str();
    let n = text.unicode_len();
    if n > 0 && text.get_char(n - 1) == 's' {
        let digits = text.substring_char(0, n - 1);
        assert(digits@ =~= timeout@.drop_last());
        parse_u64(digits).is_some()
    } else {
        true
    }
}

/// Reads the command line into a configuration. Requires a command line
/// that `check_args` finds complete.
pub fn parse_args(args: Vec<String>) -> (config: MndpConfig)
    requires
        spec_check_args_from(args_view(args@), 0) == ArgsCheck::Complete,
    ensures
        config_view(config) == spec_args_config(default_config(), args_view(args@), 0),
{
    let ghost v = args_view(args@);
    let mut config = MndpConfig::new();
    let n = args.len();
    let mut i: usize = 0;
    while i < n
        invariant
            i <= n,
            n == args@.len(),
            v == args_view(args@),
            spec_check_args_from(v, i as int) == ArgsCheck::Complete,
            spec_args_config(default_config(), v, 0) == spec_args_config(
                config_view(config),
                v,
                i as int,
            ),
        decreases n - i,
    {
        if text_is(&args[i], "-i") {
            config.raw_socket = true;
            config.interface = Some(args[i + 1].clone());
        } else if text_is(&args[i], "-t") {
            config.timeout = parse_str_time(args[i + 1].clone());
        }
        i = i + 1;
    }
    config
}

/// A single decimal digit parses to its own value.
pub proof fn lemma_parse_u64_one_digit(c: char)
    requires
        '0' <= c <= '9',
    ensures
        spec_parse_u64(seq![c]) == Some((c as int - '0' as int) as u64),
{
    let d = seq![c];
    assert(unsigned_digits(d) == d);
    assert(d.drop_last() =~= Seq::<char>::empty());
    assert(d.last() == c);
    assert(d[0] == c);
    assert(digits_value(d.drop_last()) == 0);
    assert(digits_value(d) == c as int - '0' as int);
    assert(forall|i: int| 0 <= i < d.len() ==> is_digit(#[trigger] d[i]));
}

/// Appending a decimal digit to a number multiplies it by ten and adds the
/// digit, as long as the result fits in a `u64`; it stops parsing once the
/// result does not fit.
pub proof fn lemma_parse_u64_push_digit(d: Seq<char>, n: u64, c: char)
    requires
        spec_parse_u64(d) == Some(n),
        '0' <= c <= '9',
    ensures
        n as int * 10 + (c as int - '0' as int) <= u64::MAX ==> spec_parse_u64(d.push(c)) == Some(
            (n as int * 10 + (c as int - '0' as int)) as u64,
        ),
        n as int * 10 + (c as int - '0' as int) > u64::MAX ==> spec_parse_u64(d.push(c)) is None,
{
    let u = unsigned_digits(d);
    let e = d.push(c);
    lemma_digits_value_grows(u, 0);
    assert(n as int == digits_value(u));
    if d[0] == '+' {
        assert(e.drop_first() =~= d.drop_first().push(c));
    }
    assert(e[0] == d[0]);
    assert(unsigned_digits(e) =~= u.push(c));
    let v = u.push(c);
    assert(v.drop_last() =~= u);
    assert(v.last() == c);
    assert(digits_value(v) == digits_value(u) * 10 + (c as int - '0' as int));
    assert forall|i: int| 0 <= i < v.len() implies is_digit(#[trigger] v[i]) by {
        if i < u.len() {
            assert(v[i] == u[i]);
        }
    }
}

/// A timeout argument made of a number and the `s` suffix stands for that
/// many whole seconds.
pub proof fn lemma_time_is_its_number(d: Seq<char>, n: u64)
    requires
        spec_parse_u64(d) == Some(n),
    ensures
        time_accepted(d.push('s')),
        spec_parse_str_time(d.push('s')) == (TimeSpan { secs: n, nanos: 0 }),
{
    assert(d.push('s').drop_last() =~= d);
}

/// Reading arguments from index `k` on, where no `-i` is followed by a value,
/// leaves the interface as it was and never turns raw capture off.
proof fn lemma_no_interface_flag(c: ConfigView, args: Seq<Seq<char>>, k: int)
    requires
        0 <= k,
        forall|j: int| k <= j < args.len() - 1 ==> args[j] != "-i"@,
    ensures
        spec_args_config(c, args, k).interface == c.interface,
        c.raw_socket ==> spec_args_config(c, args, k).raw_socket,
    decreases args.len() - k,
{
    if k < args.len() {
        lemma_no_interface_flag(spec_apply_arg(c, args, k), args, k + 1);
    }
}

/// Reading arguments from index `k` on, where no `-t` is followed by a value,
/// leaves the timeout as it was.
proof fn lemma_no_timeout_flag(c: ConfigView, args: Seq<Seq<char>>, k: int)
    requires
        0 <= k,
        forall|j: int| k <= j < args.len() - 1 ==> args[j] != "-t"@,
    ensures
        spec_args_config(c, args, k).timeout == c.timeout,
    decreases args.len() - k,
{
    if k < args.len() {
        lemma_no_timeout_flag(spec_apply_arg(c, args, k), args, k + 1);
    }
}

proof fn lemma_interface_from(c: ConfigView, args: Seq<Seq<char>>, k: int, i: int)
    requires
        0 <= k <= i,
        i + 1 < args.len(),
        args[i] == "-i"@,
        forall|j: int| i < j < args.len() - 1 ==> args[j] != "-i"@,
    ensures
        spec_args_config(c, args, k).interface == Some(args[i + 1]),
        spec_args_config(c, args, k).raw_socket,
    decreases i - k,
{
    if k < i {
        lemma_interface_from(spec_apply_arg(c, args, k), args, k + 1, i);
    } else {
        lemma_no_interface_flag(spec_apply_arg(c, args, k), args, k + 1);
    }
}

proof fn lemma_timeout_from(c: ConfigView, args: Seq<Seq<char>>, k: int, i: int)
    requires
        0 <= k <= i,
        i + 1 < args.len(),
        args[i] == "-t"@,
        forall|j: int| i < j < args.len() - 1 ==> args[j] != "-t"@,
    ensures
        spec_args_config(c, args, k).timeout == spec_parse_str_time(args[i + 1]),
    decreases i - k,
{
    assert("-t"@ != "-i"@) by {
        reveal_strlit("-t");
        reveal_strlit("-i");
        assert("-t"@[1] != "-i"@[1]);
    }
    if k < i {
        lemma_timeout_from(spec_apply_arg(c, args, k), args, k + 1, i);
    } else {
        lemma_no_timeout_flag(spec_apply_arg(c, args, k), args, k + 1);
    }
}

/// The interface is the argument right after the last `-i` that has one,
/// whatever comes after it, and asking for an interface turns on raw
/// capture.
pub proof fn lemma_interface_follows_flag(args: Seq<Seq<char>>, i: int)
    requires
        0 <= i,
        i + 1 < args.len(),
        args[i] == "-i"@,
        forall|j: int| i < j < args.len() - 1 ==> args[j] != "-i"@,
    ensures
        spec_args_config(default_config(), args, 0).interface == Some(args[i + 1]),
        spec_args_config(default_config(), args, 0).raw_socket,
{
    lemma_interface_from(default_config(), args, 0, i);
}

/// The timeout is what the argument right after the last `-t` that has one
/// stands for, whatever comes after it.
pub proof fn lemma_timeout_follows_flag(args: Seq<Seq<char>>, i: int)
    requires
        0 <= i,
        i + 1 < args.len(),
        args[i] == "-t"@,
        forall|j: int| i < j < args.len() - 1 ==> args[j] != "-t"@,
    ensures
        spec_args_config(default_config(), args, 0).timeout == spec_parse_str_time(args[i + 1]),
{
    lemma_timeout_from(default_config(), args, 0, i);
}

/// Without `-i` the configuration listens on the UDP port, and without `-t`
/// it keeps the default timeout of 20 seconds.
pub proof fn lemma_defaults_without_flags(args: Seq<Seq<char>>)
    ensures
        (forall|j: int| 0 <= j < args.len() - 1 ==> args[j] != "-i"@) ==> {
            &&& spec_args_config(default_config(), args, 0).interface is None
        },
        (forall|j: int| 0 <= j < args.len() - 1 ==> args[j] != "-t"@) ==> spec_args_config(
            default_config(),
            args,
            0,
        ).timeout == (TimeSpan { secs: DEFAULT_TIMEOUT_SECS, nanos: 0 }),
{
    if forall|j: int| 0 <= j < args.len() - 1 ==> args[j] != "-i"@ {
        lemma_no_interface_flag(default_config(), args, 0);
    }
    if forall|j: int| 0 <= j < args.len() - 1 ==> args[j] != "-t"@ {
        lemma_no_timeout_flag(default_config(), args, 0);
    }
}

} // verus!
