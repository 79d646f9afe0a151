//! Command-line grammar of the generator:
//! `--transfer pq|hlg [--resolution fhd|4k|8k|WxH] [--frames N] --output out.y4m`.
use crate::generator::GeneratorOptions;
use crate::levels::Transfer;
use vstd::prelude::*;

verus! {

/// `c` is an ASCII decimal digit.
pub open spec fn is_digit(c: char) -> bool {
    '0' <= c <= '9'
}

/// Value of a string of decimal digits (0 for the empty string).
pub open spec fn digits_value(s: Seq<char>) -> nat
    decreases s.len(),
{
    if s.len() == 0 {
        0
    } else {
        digits_value(s.drop_last()) * 10 + (s.last() as nat - '0' as nat) as nat
    }
}

/// The digits of an unsigned literal: the text after an optional leading `+`.
pub open spec fn unsigned_digits(s: Seq<char>) -> Seq<char> {
    if s.len() > 0 && s[0] == '+' {
        s.drop_first()
    } else {
        s
    }
}

/// The machine-sized unsigned integer that `s` spells: an optional `+`, then
/// one or more decimal digits whose value fits in `usize`.
pub open spec fn parse_usize_spec(s: Seq<char>) -> Option<usize> {
    let d = unsigned_digits(s);
    if d.len() > 0 && (forall|i: int| 0 <= i < d.len() ==> #[trigger] is_digit(d[i]))
        && digits_value(d) <= usize::MAX {
        Some(digits_value(d) as usize)
    } else {
        None
    }
}

/// The named resolutions.
pub open spec fn resolution_alias(v: Seq<char>) -> Option<(usize, usize)> {
    if v == "fhd"@ || v == "1080p"@ || v == "2k"@ || v == "1920x1080"@ {
        Some((1920, 1080))
    } else if v == "uhd"@ || v == "4k"@ || v == "3840x2160"@ {
        Some((3840, 2160))
    } else if v == "8k"@ || v == "7680x4320"@ {
        Some((7680, 4320))
    } else {
        None
    }
}

/// `i` is the position of the first `x` of `v`.
pub open spec fn is_first_x(v: Seq<char>, i: int) -> bool {
    &&& 0 <= i < v.len()
    &&& v[i] == 'x'
    &&& forall|j: int| 0 <= j < i ==> v[j] != 'x'
}

/// The result of parsing a `--resolution` value.
pub open spec fn parse_resolution_spec(v: Seq<char>) -> Result<(usize, usize), Seq<char>> {
    match resolution_alias(v) {
        Some(size) => Ok(size),
        None => if !(exists|i: int| is_first_x(v, i)) {
            Err("invalid --resolution value: "@ + v)
        } else {
            let i = choose|i: int| is_first_x(v, i);
            match parse_usize_spec(v.take(i)) {
                None => Err("invalid width in --resolution: "@ + v),
                Some(w) => match parse_usize_spec(v.skip(i + 1)) {
                    None => Err("invalid height in --resolution: "@ + v),
                    Some(h) => if w == 0 || h == 0 {
                        Err("--resolution dimensions must be greater than zero"@)
                    } else {
                        Ok((w, h))
                    },
                },
            }
        },
    }
}

/// The result of parsing a `--transfer` value.
pub open spec fn parse_transfer_spec(v: Seq<char>) -> Result<Transfer, Seq<char>> {
    if v == "pq"@ {
        Ok(Transfer::Pq)
    } else if v == "hlg"@ {
        Ok(Transfer::Hlg)
    } else {
        Err("invalid --transfer value: "@ + v)
    }
}

/// The settings read so far from the command line.
pub struct ArgsSeen {
    pub transfer: Option<Transfer>,
    pub resolution: Option<(usize, usize)>,
    pub frames: Option<usize>,
    pub output: Option<Seq<char>>,
}

/// Where reading the command line ends.
pub enum ArgsOutcome {
    /// Help was asked for.
    Help,
    /// Every argument was read.
    Finished(ArgsSeen),
    /// An argument was rejected with this message.
    Failed(Seq<char>),
}

/// Nothing read yet.
pub open spec fn nothing_seen() -> ArgsSeen {
    ArgsSeen { transfer: None, resolution: None, frames: None, output: None }
}

/// Reads `args` from left to right, starting from `seen`.
pub open spec fn scan_args(args: Seq<Seq<char>>, seen: ArgsSeen) -> ArgsOutcome
    decreases args.len(),
{
    if args.len() == 0 {
        ArgsOutcome::Finished(seen)
    } else {
        let arg = args[0];
        let rest = args.drop_first();
        if arg == "--transfer"@ {
            if rest.len() == 0 {
                ArgsOutcome::Failed("missing value after "@ + "--transfer"@)
            } else {
                match parse_transfer_spec(rest[0]) {
                    Ok(t) => scan_args(rest.drop_first(), ArgsSeen { transfer: Some(t), ..seen }),
                    Err(e) => ArgsOutcome::Failed(e),
                }
            }
        } else if arg == "--resolution"@ {
            if rest.len() == 0 {
                ArgsOutcome::Failed("missing value after "@ + "--resolution"@)
            } else {
                match parse_resolution_spec(rest[0]) {
                    Ok(size) => scan_args(
                        rest.drop_first(),
                        ArgsSeen { resolution: Some(size), ..seen },
                    ),
                    Err(e) => ArgsOutcome::Failed(e),
                }
            }
        } else if arg == "--frames"@ {
            if rest.len() == 0 {
                ArgsOutcome::Failed("missing value after "@ + "--frames"@)
            } else {
                match parse_usize_spec(rest[0]) {
                    None => ArgsOutcome::Failed("invalid --frames value: "@ + rest[0]),
                    Some(n) => if n == 0 {
                        ArgsOutcome::Failed("--frames must be greater than zero"@)
                    } else {
                        scan_args(rest.drop_first(), ArgsSeen { frames: Some(n), ..seen })
                    },
                }
            }
        } else if arg == "--output"@ {
            if rest.len() == 0 {
                ArgsOutcome::Failed("missing value after "@ + "--output"@)
            } else {
                scan_args(rest.drop_first(), ArgsSeen { output: Some(rest[0]), ..seen })
            }
        } else if arg == "-h"@ || arg == "--help"@ {
            ArgsOutcome::Help
        } else {
            ArgsOutcome::Failed("unknown argument: "@ + arg)
        }
    }
}

/// The options and output path once every argument has been read.
pub open spec fn finish_args(seen: ArgsSeen) -> Result<(GeneratorOptions, Seq<char>), Seq<char>> {
    let (width, height) = match seen.resolution {
        Some(size) => size,
        None => (1920usize, 1080usize),
    };
    match seen.transfer {
        None => Err("missing --transfer pq|hlg"@),
        Some(t) => match seen.output {
            None => Err("missing --output out.y4m"@),
            Some(output) => Ok(
                (
                    GeneratorOptions {
                        transfer: t,
                        width,
                        height,
                        frames: match seen.frames {
                            Some(n) => n,
                            None => 1,
                        },
                    },
                    output,
                ),
            ),
        },
    }
}

/// What the command line asks for.
pub enum Command {
    /// Generate a Y4M file.
    Run(Args),
    /// Print the usage line.
    Help,
}

/// A generation request read from the command line.
pub struct Args {
    pub options: GeneratorOptions,
    pub output: String,
}

/// `r` is what reading `args` yields.
pub open spec fn parse_args_result(args: Seq<Seq<char>>, r: Result<Command, String>) -> bool {
    match scan_args(args, nothing_seen()) {
        ArgsOutcome::Help => r matches Ok(Command::Help),
        ArgsOutcome::Failed(e) => r matches Err(m) && m@ == e,
        ArgsOutcome::Finished(seen) => match finish_args(seen) {
            Ok((options, output)) => r matches Ok(Command::Run(a)) && a.options == options
                && a.output@ == output,
            Err(e) => r matches Err(m) && m@ == e,
        },
    }
}

/// `a` and `b` spell the same text.
fn str_eq(a: &str, b: &str) -> (r: bool)
    ensures
        r == (a@ == b@),
{
    String::from_str(a) == String::from_str(b)
}

/// `prefix` followed by `value`.
fn message_with(prefix: &str, value: &str) -> (r: String)
    ensures
        r@ == prefix@ + value@,
{
    let mut message = String::from_str(prefix);
    message.append(value);
    message
}

/// A longer digit string is worth at least as much as its prefix.
proof fn lemma_digits_value_prefix(d: Seq<char>, k: int)
    requires
        0 <= k <= d.len(),
        forall|i: int| 0 <= i < d.len() ==> #[trigger] is_digit(d[i]),
    ensures
        digits_value(d.take(k)) <= digits_value(d),
    decreases d.len() - k,
{
    if k < d.len() {
        lemma_digits_value_prefix(d, k + 1);
        assert(d.take(k + 1).drop_last() =~= d.take(k));
    } else {
        assert(d.take(k) =~= d);
    }
}

/// Parses an unsigned decimal literal as `str::parse::<usize>` does.
pub fn parse_usize(s: &str) -> (r: Option<usize>)
    ensures
        r == parse_usize_spec(s@),
{
    let n = s.unicode_len();
    if n == 0 {
        return None;
    }
    let mut start: usize = 0;
    if s.get_char(0) == '+' {
        if n == 1 {
            return None;
        }
        start = 1;
    }
    let ghost d = unsigned_digits(s@);
    proof {
        assert(d =~= s@.skip(start as int));
    }
    let mut value: usize = 0;
    let mut i = start;
    while i < n
        invariant
            n == s@.len(),
            start <= i <= n,
            d == s@.skip(start as int),
            d == unsigned_digits(s@),
            d.len() > 0,
            forall|j: int| 0 <= j < i - start ==> #[trigger] is_digit(d[j]),
            value == digits_value(d.take(i - start)),
        decreases n - i,
    {
        let c = s.get_char(i);
        if c < '0' || c > '9' {
            proof {
                assert(!is_digit(d[i - start]));
            }
            return None;
        }
        let digit = (c as u32 - '0' as u32) as usize;
        proof {
            assert(d.take(i - start + 1).drop_last() =~= d.take(i - start));
        }
        if value > (usize::MAX - digit) / 10 {
            proof {
                assert(digits_value(d.take(i - start + 1)) > usize::MAX);
                if forall|j: int| 0 <= j < d.len() ==> #[trigger] is_digit(d[j]) {
                    lemma_digits_value_prefix(d, i - start + 1);
                }
            }
            return None;
        }
        value = value * 10 + digit;
        i = i + 1;
    }
    proof {
        assert(d.take(i - start) =~= d);
    }
    Some(value)
}

/// Parses a `--transfer` value.
pub fn parse_transfer(value: &str) -> (r: Result<Transfer, String>)
    ensures
        match parse_transfer_spec(value@) {
            Ok(t) => r == Ok::<Transfer, String>(t),
            Err(e) => r matches Err(m) && m@ == e,
        },
{
    if str_eq(value, "pq") {
        Ok(Transfer::Pq)
    } else if str_eq(value, "hlg") {
        Ok(Transfer::Hlg)
    } else {
        Err(message_with("invalid --transfer value: ", value))
    }
}

/// Parses a `--resolution` value: a named resolution or `WIDTHxHEIGHT`.
pub fn parse_resolution(value: &str) -> (r: Result<(usize, usize), String>)
    ensures
        match parse_resolution_spec(value@) {
            Ok(size) => r == Ok::<(usize, usize), String>(size),
            Err(e) => r matches Err(m) && m@ == e,
        },
{
    if str_eq(value, "fhd") || str_eq(value, "1080p") || str_eq(value, "2k") || str_eq(
        value,
        "1920x1080",
    ) {
        return Ok((1920, 1080));
    }
    if str_eq(value, "uhd") || str_eq(value, "4k") || str_eq(value, "3840x2160") {
        return Ok((3840, 2160));
    }
    if str_eq(value, "8k") || str_eq(value, "7680x4320") {
        return Ok((7680, 4320));
    }
    let n = value.unicode_len();
    let mut i: usize = 0;
    while i < n && value.get_char(i) != 'x'
        invariant
            n == value@.len(),
            i <= n,
            forall|j: int| 0 <= j < i ==> value@[j] != 'x',
        decreases n - i,
    {
        i = i + 1;
    }
    if i == n {
        proof {
            assert forall|k: int| !is_first_x(value@, k) by {
                if 0 <= k < value@.len() {
                    assert(value@[k] != 'x');
                }
            }
        }
        return Err(message_with("invalid --resolution value: ", value));
    }
    proof {
        assert(is_first_x(value@, i as int));
        assert forall|k: int| is_first_x(value@, k) implies k == i by {
            if k < i {
                assert(value@[k] != 'x');
            } else if k > i {
                assert(value@[i as int] != 'x');
            }
        }
    }
    let width = match parse_usize(value.substring_char(0, i)) {
        Some(w) => w,
        None => {
            return Err(message_with("invalid width in --resolution: ", value));
        },
    };
    let height = match parse_usize(value.substring_char(i + 1, n)) {
        Some(h) => h,
        None => {
            return Err(message_with("invalid height in --resolution: ", value));
        },
    };
    proof {
        assert(value@.subrange(i + 1, n as int) =~= value@.skip(i + 1));
        assert(value@.subrange(0, i as int) =~= value@.take(i as int));
    }
    if width == 0 || height == 0 {
        return Err(String::from_str("--resolution dimensions must be greater than zero"));
    }
    Ok((width, height))
}

/// The argument after position `i - 1`, or the message that `name` lacks its
/// value.
pub fn next_value(args: &Vec<String>, i: usize, name: &str) -> (r: Result<String, String>)
    ensures
        i < args@.len() ==> (r matches Ok(v) && v@ == args@[i as int]@),
        i >= args@.len() ==> (r matches Err(m) && m@ == "missing value after "@ + name@),
{
    if i < args.len() {
        Ok(args[i].clone())
    } else {
        Err(message_with("missing value after ", name))
    }
}

/// The settings held by the parser's variables.
pub open spec fn seen_of(
    transfer: Option<Transfer>,
    resolution: Option<(usize, usize)>,
    frames: Option<usize>,
    output: Option<String>,
) -> ArgsSeen {
    ArgsSeen {
        transfer,
        resolution,
        frames,
        output: match output {
            Some(o) => Some(o@),
            None => None,
        },
    }
}

/// Reads the command line (without the program name).
pub fn parse_args(args: &Vec<String>) -> (r: Result<Command, String>)
    ensures
        parse_args_result(args.deep_view(), r),
{
    let ghost all = args.deep_view();
    let mut transfer: Option<Transfer> = None;
    let mut resolution: Option<(usize, usize)> = None;
    let mut frames: Option<usize> = None;
    let mut output: Option<String> = None;
    let mut i: usize = 0;
    proof {
        assert(all.skip(0) =~= all);
    }
    while i < args.len()
        invariant
            all == args.deep_view(),
            all.len() == args@.len(),
            i <= args@.len(),
            scan_args(all.skip(i as int), seen_of(transfer, resolution, frames, output))
                == scan_args(all, nothing_seen()),
        decreases args@.len() - i,
    {
        let ghost seen = seen_of(transfer, resolution, frames, output);
        let ghost rest = all.skip(i as int);
        proof {
            assert(rest[0] == args@[i as int]@);
            assert(rest.drop_first() =~= all.skip(i + 1));
            if i + 1 < args@.len() {
                assert(rest.drop_first()[0] == args@[i + 1]@);
                assert(rest.drop_first().drop_first() =~= all.skip(i + 2));
            }
        }
        let arg = args[i].as_str();
        if str_eq(arg, "--transfer") {
            let value = match next_value(args, i + 1, "--transfer") {
                Ok(v) => v,
                Err(e) => {
                    return Err(e);
                },
            };
            let t = match parse_transfer(value.as_str()) {
                Ok(t) => t,
                Err(e) => {
                    return Err(e);
                },
            };
            transfer = Some(t);
            i = i + 2;
        } else if str_eq(arg, "--resolution") {
            let value = match next_value(args, i + 1, "--resolution") {
                Ok(v) => v,
                Err(e) => {
                    return Err(e);
                },
            };
            let size = match parse_resolution(value.as_str()) {
                Ok(size) => size,
                Err(e) => {
                    return Err(e);
                },
            };
            resolution = Some(size);
            i = i + 2;
        } else if str_eq(arg, "--frames") {
            let value = match next_value(args, i + 1, "--frames") {
                Ok(v) => v,
                Err(e) => {
                    return Err(e);
                },
            };
            let parsed = match parse_usize(value.as_str()) {
                Some(n) => n,
                None => {
                    return Err(message_with("invalid --frames value: ", value.as_str()));
                },
            };
            if parsed == 0 {
                return Err(String::from_str("--frames must be greater than zero"));
            }
            frames = Some(parsed);
            i = i + 2;
        } else if str_eq(arg, "--output") {
            let value = match next_value(args, i + 1, "--output") {
                Ok(v) => v,
                Err(e) => {
                    return Err(e);
                },
            };
            output = Some(value);
            i = i + 2;
        } else if str_eq(arg, "-h") || str_eq(arg, "--help") {
            return Ok(Command::Help);
        } else {
            return Err(message_with("unknown argument: ", arg));
        }
    }
    proof {
        assert(all.skip(i as int).len() == 0);
    }
    let (width, height) = match resolution {
        Some(size) => size,
        None => (1920, 1080),
    };
    let t = match transfer {
        Some(t) => t,
        None => {
            return Err(String::from_str("missing --transfer pq|hlg"));
        },
    };
    let out = match output {
        Some(o) => o,
        None => {
            return Err(String::from_str("missing --output out.y4m"));
        },
    };
    let frames = match frames {
        Some(n) => n,
        None => 1,
    };
    Ok(Command::Run(Args { options: GeneratorOptions { transfer: t, width, height, frames }, output: out }))
}

/// The ASCII digit of `d` (`0 <= d < 10`).
pub open spec fn digit_char(d: int) -> char {
    if d == 0 {
        '0'
    } else if d == 1 {
        '1'
    } else if d == 2 {
        '2'
    } else if d == 3 {
        '3'
    } else if d == 4 {
        '4'
    } else if d == 5 {
        '5'
    } else if d == 6 {
        '6'
    } else if d == 7 {
        '7'
    } else if d == 8 {
        '8'
    } else {
        '9'
    }
}

/// The decimal text of `n` as `{}` formats it: digits, most significant
/// first, without leading zeros.
pub open spec fn decimal_text(n: nat) -> Seq<char>
    decreases n,
{
    if n < 10 {
        seq![digit_char(n as int)]
    } else {
        decimal_text(n / 10).push(digit_char((n % 10) as int))
    }
}

/// The decimal text of `n` is a non-empty digit string worth `n`.
proof fn lemma_decimal_text(n: nat)
    ensures
        decimal_text(n).len() >= 1,
        forall|i: int| 0 <= i < decimal_text(n).len() ==> #[trigger] is_digit(decimal_text(n)[i]),
        digits_value(decimal_text(n)) == n,
    decreases n,
{
    lemma_digit_char((n % 10) as int);
    if n >= 10 {
        lemma_decimal_text(n / 10);
        let t = decimal_text(n);
        assert(t.drop_last() =~= decimal_text(n / 10));
        assert(t.last() == digit_char((n % 10) as int));
        assert(digits_value(t) == digits_value(t.drop_last()) * 10 + (n % 10));
        assert(n == (n / 10) * 10 + n % 10);
    } else {
        let t = decimal_text(n);
        assert(t.drop_last() =~= Seq::<char>::empty());
        assert(digits_value(t) == digits_value(t.drop_last()) * 10 + n);
    }
}

/// `digit_char(d)` is the digit worth `d`.
proof fn lemma_digit_char(d: int)
    requires
        0 <= d < 10,
    ensures
        is_digit(digit_char(d)),
        digit_char(d) as nat - '0' as nat == d,
{
    assert('0' as nat == 48 && '9' as nat == 57);
    assert('1' as nat == 49 && '2' as nat == 50 && '3' as nat == 51 && '4' as nat == 52);
    assert('5' as nat == 53 && '6' as nat == 54 && '7' as nat == 55 && '8' as nat == 56);
}

/// The decimal text of `n` parses back to `n`.
proof fn lemma_parse_decimal_text(n: usize)
    ensures
        parse_usize_spec(decimal_text(n as nat)) == Some(n),
{
    lemma_decimal_text(n as nat);
    assert(is_digit(decimal_text(n as nat)[0]));
    assert(unsigned_digits(decimal_text(n as nat)) == decimal_text(n as nat));
}

/// Parsing the text of `WIDTHxHEIGHT` from the `x` at `i`, when `i` is the
/// position of the first `x`.
proof fn lemma_first_x_unique(v: Seq<char>, i: int)
    requires
        is_first_x(v, i),
    ensures
        (choose|k: int| is_first_x(v, k)) == i,
{
    let k = choose|k: int| is_first_x(v, k);
    assert(is_first_x(v, k));
    if k < i {
        assert(v[k] != 'x');
    } else if k > i {
        assert(v[i] != 'x');
    }
}

/// The decimal texts of two positive sizes joined by `x` parse back to the
/// sizes.
pub proof fn law_resolution_round_trip(w: usize, h: usize)
    requires
        w >= 1,
        h >= 1,
    ensures
        parse_resolution_spec(decimal_text(w as nat) + seq!['x'] + decimal_text(h as nat)) == Ok::<
            (usize, usize),
            Seq<char>,
        >((w, h)),
{
    let dw = decimal_text(w as nat);
    let dh = decimal_text(h as nat);
    let v = dw + seq!['x'] + dh;
    let i = dw.len() as int;
    lemma_decimal_text(w as nat);
    lemma_decimal_text(h as nat);
    lemma_parse_decimal_text(w);
    lemma_parse_decimal_text(h);
    assert(v[i] == 'x');
    assert forall|j: int| 0 <= j < i implies v[j] != 'x' by {
        assert(v[j] == dw[j]);
        assert(is_digit(dw[j]));
    }
    assert(is_first_x(v, i));
    lemma_first_x_unique(v, i);
    assert(v.take(i) =~= dw);
    assert(v.skip(i + 1) =~= dh);
    lemma_aliases_round_trip(v, i, w, h);
}

/// A named resolution that is also the text of `WIDTHxHEIGHT` names the same
/// size.
proof fn lemma_aliases_round_trip(v: Seq<char>, i: int, w: usize, h: usize)
    requires
        is_first_x(v, i),
        parse_usize_spec(v.take(i)) == Some(w),
        parse_usize_spec(v.skip(i + 1)) == Some(h),
        digits_value(v.take(i)) == w,
        digits_value(v.skip(i + 1)) == h,
    ensures
        resolution_alias(v) matches Some(size) ==> size == (w, h),
{
    reveal_strlit("fhd");
    reveal_strlit("1080p");
    reveal_strlit("2k");
    reveal_strlit("uhd");
    reveal_strlit("4k");
    reveal_strlit("8k");
    reveal_strlit("1920x1080");
    reveal_strlit("3840x2160");
    reveal_strlit("7680x4320");
    reveal_with_fuel(digits_value, 5);
    if v == "1920x1080"@ {
        lemma_first_x_at_4(v, i);
        assert(v.take(4) =~= seq!['1', '9', '2', '0']);
        assert(v.skip(5) =~= seq!['1', '0', '8', '0']);
    } else if v == "3840x2160"@ {
        lemma_first_x_at_4(v, i);
        assert(v.take(4) =~= seq!['3', '8', '4', '0']);
        assert(v.skip(5) =~= seq!['2', '1', '6', '0']);
    } else if v == "7680x4320"@ {
        lemma_first_x_at_4(v, i);
        assert(v.take(4) =~= seq!['7', '6', '8', '0']);
        assert(v.skip(5) =~= seq!['4', '3', '2', '0']);
    } else {
        assert(v[i] == 'x');
    }
}

/// In a nine-character text with `x` only at position 4, the first `x` is at 4.
proof fn lemma_first_x_at_4(v: Seq<char>, i: int)
    requires
        is_first_x(v, i),
        v.len() == 9,
        v[4] == 'x',
        forall|j: int| 0 <= j < 4 ==> v[j] != 'x',
    ensures
        i == 4,
{
    if i < 4 {
        assert(v[i] != 'x');
    } else if i > 4 {
        assert(v[4] != 'x');
    }
}

/// Every named resolution is the native raster or an integer multiple of it:
/// `fhd`, `1080p`, `2k` and `1920x1080` name 1920x1080; `uhd`, `4k` and
/// `3840x2160` name 3840x2160; `8k` and `7680x4320` name 7680x4320.
pub proof fn law_named_resolutions(v: Seq<char>)
    ensures
        parse_resolution_spec("fhd"@) == Ok::<(usize, usize), Seq<char>>((1920, 1080)),
        parse_resolution_spec("1080p"@) == Ok::<(usize, usize), Seq<char>>((1920, 1080)),
        parse_resolution_spec("2k"@) == Ok::<(usize, usize), Seq<char>>((1920, 1080)),
        parse_resolution_spec("1920x1080"@) == Ok::<(usize, usize), Seq<char>>((1920, 1080)),
        parse_resolution_spec("uhd"@) == Ok::<(usize, usize), Seq<char>>((3840, 2160)),
        parse_resolution_spec("4k"@) == Ok::<(usize, usize), Seq<char>>((3840, 2160)),
        parse_resolution_spec("3840x2160"@) == Ok::<(usize, usize), Seq<char>>((3840, 2160)),
        parse_resolution_spec("8k"@) == Ok::<(usize, usize), Seq<char>>((7680, 4320)),
        parse_resolution_spec("7680x4320"@) == Ok::<(usize, usize), Seq<char>>((7680, 4320)),
        resolution_alias(v) matches Some(size) ==> exists|s: int|
            (s == 1 || s == 2 || s == 4) && size.0 == 1920 * s && #[trigger] (1080 * s) == size.1,
{
    reveal_strlit("fhd");
    reveal_strlit("1080p");
    reveal_strlit("2k");
    reveal_strlit("uhd");
    reveal_strlit("4k");
    reveal_strlit("8k");
    reveal_strlit("1920x1080");
    reveal_strlit("3840x2160");
    reveal_strlit("7680x4320");
    assert("uhd"@[0] != "fhd"@[0]);
    assert("4k"@[0] != "2k"@[0]);
    assert("3840x2160"@[0] != "1920x1080"@[0]);
    assert("8k"@[0] != "2k"@[0] && "8k"@[0] != "4k"@[0]);
    assert("7680x4320"@[0] != "1920x1080"@[0] && "7680x4320"@[0] != "3840x2160"@[0]);
    if let Some(size) = resolution_alias(v) {
        if size == (1920usize, 1080usize) {
            assert(1080 * 1 == size.1);
        } else if size == (3840usize, 2160usize) {
            assert(1080 * 2 == size.1);
        } else {
            assert(1080 * 4 == size.1);
        }
    }
}

/// Reading `x` then `y` from `seen` is reading `y` from where `x` finished.
proof fn lemma_scan_append(x: Seq<Seq<char>>, y: Seq<Seq<char>>, seen: ArgsSeen)
    ensures
        scan_args(x, seen) matches ArgsOutcome::Finished(mid) ==> scan_args(x + y, seen)
            == scan_args(y, mid),
    decreases x.len(),
{
    if x.len() == 0 {
        assert(x + y =~= y);
    } else {
        let xy = x + y;
        assert(xy[0] == x[0]);
        assert(xy.drop_first() =~= x.drop_first() + y);
        if x.len() >= 2 {
            assert(xy.drop_first()[0] == x.drop_first()[0]);
            assert(xy.drop_first().drop_first() =~= x.drop_first().drop_first() + y);
            let rest = x.drop_first().drop_first();
            lemma_scan_append(rest, y, ArgsSeen { transfer: Some(Transfer::Pq), ..seen });
            lemma_scan_append(rest, y, ArgsSeen { transfer: Some(Transfer::Hlg), ..seen });
            if let Ok(size) = parse_resolution_spec(x[1]) {
                lemma_scan_append(rest, y, ArgsSeen { resolution: Some(size), ..seen });
            }
            if let Some(n) = parse_usize_spec(x[1]) {
                lemma_scan_append(rest, y, ArgsSeen { frames: Some(n), ..seen });
            }
            lemma_scan_append(rest, y, ArgsSeen { output: Some(x[1]), ..seen });
        }
    }
}

/// The settings after reading one more `key value` pair.
proof fn lemma_scan_pair(key: Seq<char>, value: Seq<char>, seen: ArgsSeen)
    ensures
        match parse_usize_spec(value) {
            Some(n) => key == "--frames"@ && n >= 1 ==> scan_args(seq![key, value], seen)
                == ArgsOutcome::Finished(ArgsSeen { frames: Some(n), ..seen }),
            None => true,
        },
        match parse_transfer_spec(value) {
            Ok(t) => key == "--transfer"@ ==> scan_args(seq![key, value], seen)
                == ArgsOutcome::Finished(ArgsSeen { transfer: Some(t), ..seen }),
            Err(_) => true,
        },
        match parse_resolution_spec(value) {
            Ok(size) => key == "--resolution"@ ==> scan_args(seq![key, value], seen)
                == ArgsOutcome::Finished(ArgsSeen { resolution: Some(size), ..seen }),
            Err(_) => true,
        },
        key == "--output"@ ==> scan_args(seq![key, value], seen) == ArgsOutcome::Finished(
            ArgsSeen { output: Some(value), ..seen },
        ),
{
    reveal_strlit("--transfer");
    reveal_strlit("--resolution");
    reveal_strlit("--frames");
    reveal_strlit("--output");
    reveal_strlit("-h");
    reveal_strlit("--help");
    reveal_with_fuel(scan_args, 2);
    assert("--output"@[2] != "--frames"@[2]);
    let args = seq![key, value];
    assert(args[0] == key);
    assert(args.drop_first() =~= seq![value]);
    assert(args.drop_first()[0] == value);
    assert(args.drop_first().drop_first() =~= Seq::<Seq<char>>::empty());
}

/// An option given again at the end of a command line that is read
/// successfully overrides its earlier value and leaves every other setting
/// as it was: the last occurrence of an option wins.
pub proof fn law_last_option_wins(
    args: Seq<Seq<char>>,
    key: Seq<char>,
    value: Seq<char>,
    first: Result<Command, String>,
    second: Result<Command, String>,
)
    requires
        parse_args_result(args, first),
        parse_args_result(args + seq![key, value], second),
    ensures
        match first {
            Ok(Command::Run(a)) => {
                &&& match parse_usize_spec(value) {
                    Some(n) => key == "--frames"@ && n >= 1 ==> match second {
                        Ok(Command::Run(b)) => b.options == (GeneratorOptions {
                            frames: n,
                            ..a.options
                        }) && b.output@ == a.output@,
                        _ => false,
                    },
                    None => true,
                }
                &&& match parse_transfer_spec(value) {
                    Ok(t) => key == "--transfer"@ ==> match second {
                        Ok(Command::Run(b)) => b.options == (GeneratorOptions {
                            transfer: t,
                            ..a.options
                        }) && b.output@ == a.output@,
                        _ => false,
                    },
                    Err(_) => true,
                }
                &&& match parse_resolution_spec(value) {
                    Ok(size) => key == "--resolution"@ ==> match second {
                        Ok(Command::Run(b)) => b.options == (GeneratorOptions {
                            width: size.0,
                            height: size.1,
                            ..a.options
                        }) && b.output@ == a.output@,
                        _ => false,
                    },
                    Err(_) => true,
                }
                &&& key == "--output"@ ==> match second {
                    Ok(Command::Run(b)) => b.options == a.options && b.output@ == value,
                    _ => false,
                }
            },
            _ => true,
        },
{
    if let ArgsOutcome::Finished(seen) = scan_args(args, nothing_seen()) {
        lemma_scan_append(args, seq![key, value], nothing_seen());
        lemma_scan_pair(key, value, seen);
    }
}


/// No argument at an even position of `b`, where an option name stands in a
/// command line read in pairs, is `key`.
pub open spec fn key_absent(b: Seq<Seq<char>>, key: Seq<char>) -> bool {
    forall|i: int| 0 <= i < b.len() && i % 2 == 0 ==> #[trigger] b[i] != key
}

/// Reading `(name, value)` pairs stops before the end only by failing or by
/// help, so a finished read of `x + y` with `x` of even length has finished
/// `x` first.
proof fn lemma_scan_prefix_finishes(x: Seq<Seq<char>>, y: Seq<Seq<char>>, seen: ArgsSeen)
    requires
        x.len() % 2 == 0,
        scan_args(x + y, seen) is Finished,
    ensures
        scan_args(x, seen) is Finished,
    decreases x.len(),
{
    if x.len() > 0 {
        let xy = x + y;
        let rest = x.drop_first().drop_first();
        assert(xy[0] == x[0]);
        assert(xy.drop_first() =~= x.drop_first() + y);
        assert(xy.drop_first()[0] == x[1]);
        assert(x.drop_first()[0] == x[1]);
        assert(xy.drop_first().drop_first() =~= rest + y);
        let arg = x[0];
        if arg == "--transfer"@ {
            if let Ok(t) = parse_transfer_spec(x[1]) {
                lemma_scan_prefix_finishes(rest, y, ArgsSeen { transfer: Some(t), ..seen });
            }
        } else if arg == "--resolution"@ {
            if let Ok(size) = parse_resolution_spec(x[1]) {
                lemma_scan_prefix_finishes(rest, y, ArgsSeen { resolution: Some(size), ..seen });
            }
        } else if arg == "--frames"@ {
            if let Some(n) = parse_usize_spec(x[1]) {
                if n != 0 {
                    lemma_scan_prefix_finishes(rest, y, ArgsSeen { frames: Some(n), ..seen });
                }
            }
        } else if arg == "--output"@ {
            lemma_scan_prefix_finishes(rest, y, ArgsSeen { output: Some(x[1]), ..seen });
        }
    }
}

/// A finished read of `b` leaves alone every setting whose option name does
/// not occur in `b`.
proof fn lemma_scan_keeps(b: Seq<Seq<char>>, seen: ArgsSeen)
    ensures
        scan_args(b, seen) matches ArgsOutcome::Finished(f) ==> {
            &&& key_absent(b, "--transfer"@) ==> f.transfer == seen.transfer
            &&& key_absent(b, "--resolution"@) ==> f.resolution == seen.resolution
            &&& key_absent(b, "--frames"@) ==> f.frames == seen.frames
            &&& key_absent(b, "--output"@) ==> f.output == seen.output
        },
    decreases b.len(),
{
    if b.len() >= 2 {
        let rest = b.drop_first().drop_first();
        assert(b.drop_first()[0] == b[1]);
        assert forall|key: Seq<char>| key_absent(b, key) implies key_absent(rest, key) by {
            assert forall|i: int| 0 <= i < rest.len() && i % 2 == 0 implies #[trigger] rest[i]
                != key by {
                assert(rest[i] == b[i + 2]);
            }
        }
        assert(!key_absent(b, b[0])) by {
            assert(b[0] == b[0]);
        }
        let arg = b[0];
        if arg == "--transfer"@ {
            if let Ok(t) = parse_transfer_spec(b[1]) {
                lemma_scan_keeps(rest, ArgsSeen { transfer: Some(t), ..seen });
            }
        } else if arg == "--resolution"@ {
            if let Ok(size) = parse_resolution_spec(b[1]) {
                lemma_scan_keeps(rest, ArgsSeen { resolution: Some(size), ..seen });
            }
        } else if arg == "--frames"@ {
            if let Some(n) = parse_usize_spec(b[1]) {
                if n != 0 {
                    lemma_scan_keeps(rest, ArgsSeen { frames: Some(n), ..seen });
                }
            }
        } else if arg == "--output"@ {
            lemma_scan_keeps(rest, ArgsSeen { output: Some(b[1]), ..seen });
        }
    }
}

/// Each option takes the value of its last occurrence: when a command line
/// `a + [key, value] + b` is read successfully, `a` is made of whole
/// `(name, value)` pairs and `key` names no option in `b`, the setting that
/// `key` names is what `value` spells.
pub proof fn law_last_occurrence_wins(
    a: Seq<Seq<char>>,
    key: Seq<char>,
    value: Seq<char>,
    b: Seq<Seq<char>>,
    r: Result<Command, String>,
)
    requires
        parse_args_result(a + seq![key, value] + b, r),
        a.len() % 2 == 0,
        key_absent(b, key),
    ensures
        r matches Ok(Command::Run(x)) ==> {
            &&& key == "--frames"@ ==> parse_usize_spec(value) == Some(x.options.frames)
            &&& key == "--transfer"@ ==> parse_transfer_spec(value) == Ok::<Transfer, Seq<char>>(
                x.options.transfer,
            )
            &&& key == "--resolution"@ ==> parse_resolution_spec(value) == Ok::<
                (usize, usize),
                Seq<char>,
            >((x.options.width, x.options.height))
            &&& key == "--output"@ ==> x.output@ == value
        },
{
    let pair = seq![key, value];
    let all = a + pair + b;
    assert(all =~= a + (pair + b));
    if let ArgsOutcome::Finished(f) = scan_args(all, nothing_seen()) {
        lemma_scan_prefix_finishes(a, pair + b, nothing_seen());
        lemma_scan_append(a, pair + b, nothing_seen());
        if let ArgsOutcome::Finished(m) = scan_args(a, nothing_seen()) {
            lemma_scan_prefix_finishes(pair, b, m);
            lemma_scan_append(pair, b, m);
            if let ArgsOutcome::Finished(m2) = scan_args(pair, m) {
                lemma_scan_keeps(b, m2);
                reveal_strlit("--transfer");
                reveal_strlit("--resolution");
                reveal_strlit("--frames");
                reveal_strlit("--output");
                reveal_with_fuel(scan_args, 2);
                assert("--output"@[2] != "--frames"@[2]);
                assert(pair[0] == key);
                assert(pair.drop_first() =~= seq![value]);
                assert(pair.drop_first()[0] == value);
                assert(pair.drop_first().drop_first() =~= Seq::<Seq<char>>::empty());
            }
        }
    }
}

} // verus!
