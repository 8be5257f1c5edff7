use vstd::prelude::*;
use crate::text::{is_space, char_is_space, trim_start, chars_of, string_of, eq_ignore_ascii_case, ascii_lower};
use crate::server_commands::{ServerCommands, ServerCommand, command_for};

verus! {

/// The longest run of non-whitespace characters at the start of `t`.
pub open spec fn word_prefix(t: Seq<char>) -> Seq<char>
    decreases t.len(),
{
    if t.len() == 0 || is_space(t[0]) {
        seq![]
    } else {
        seq![t[0]] + word_prefix(t.drop_first())
    }
}

/// The first whitespace-separated word of `s` and the text after it
/// (`str::split_whitespace`, one step).
pub open spec fn next_word(s: Seq<char>) -> Option<(Seq<char>, Seq<char>)> {
    let t = trim_start(s);
    if t.len() == 0 {
        None
    } else {
        Some((word_prefix(t), t.skip(word_prefix(t).len() as int)))
    }
}

/// Splits off the first whitespace-separated word of `v[from..]`; returns the
/// word and the index just after it.
fn take_word(v: &Vec<char>, from: usize) -> (r: Option<(Vec<char>, usize)>)
    requires
        from <= v.len(),
    ensures
        match next_word(v@.skip(from as int)) {
            None => r.is_none(),
            Some((w, rest)) => r.is_some() && r.unwrap().0@ == w && r.unwrap().1 <= v.len()
                && v@.skip(r.unwrap().1 as int) == rest,
        },
{
    let mut a = from;
    while a < v.len() && char_is_space(v[a])
        invariant
            from <= a <= v.len(),
            trim_start(v@.skip(from as int)) == trim_start(v@.skip(a as int)),
        decreases v.len() - a,
    {
        assert(v@.skip(a as int).drop_first() =~= v@.skip(a + 1));
        a = a + 1;
    }
    assert(trim_start(v@.skip(a as int)) == v@.skip(a as int));
    if a == v.len() {
        assert(v@.skip(a as int) =~= Seq::<char>::empty());
        return None;
    }
    let ghost t = v@.skip(a as int);
    let mut b = a;
    let mut word: Vec<char> = Vec::new();
    assert(t.skip(0) =~= t);
    while b < v.len() && !char_is_space(v[b])
        invariant
            a <= b <= v.len(),
            t == v@.skip(a as int),
            word@ + word_prefix(v@.skip(b as int)) == word_prefix(t),
            word@.len() == b - a,
        decreases v.len() - b,
    {
        assert(v@.skip(b as int).drop_first() =~= v@.skip(b + 1));
        assert(word@.push(v@[b as int]) + word_prefix(v@.skip(b + 1)) =~= word@ + word_prefix(v@.skip(b as int)));
        word.push(v[b]);
        b = b + 1;
    }
    assert(word_prefix(v@.skip(b as int)) =~= Seq::<char>::empty());
    assert(word@ + Seq::<char>::empty() =~= word@);
    assert(t.skip(word@.len() as int) =~= v@.skip(b as int));
    Some((word, b))
}

/// Whether `word` names the command `c`.
pub open spec fn names(c: ServerCommand, word: Seq<char>) -> bool {
    match c {
        ServerCommand::Enabled { alias } => alias@ == word,
        ServerCommand::Disabled => false,
    }
}

fn chars_equal(a: &Vec<char>, b: &Vec<char>) -> (r: bool)
    ensures
        r == (a@ == b@),
{
    if a.len() != b.len() {
        assert(a@.len() != b@.len());
        return false;
    }
    let mut i: usize = 0;
    while i < a.len()
        invariant
            i <= a.len(),
            a.len() == b.len(),
            forall|j: int| 0 <= j < i ==> a@[j] == b@[j],
        decreases a.len() - i,
    {
        if a[i] != b[i] {
            assert(a@[i as int] != b@[i as int]);
            return false;
        }
        i = i + 1;
    }
    assert(a@ =~= b@);
    true
}

fn is_command(c: ServerCommand, word: &Vec<char>) -> (b: bool)
    ensures
        b == names(c, word@),
{
    match c {
        ServerCommand::Enabled { alias } => chars_equal(&chars_of(alias.as_str()), word),
        ServerCommand::Disabled => false,
    }
}

/// Value of a non-empty string of decimal digits.
pub open spec fn digits_value(ds: Seq<char>) -> int
    decreases ds.len(),
{
    if ds.len() == 0 {
        0
    } else {
        digits_value(ds.drop_last()) * 10 + (ds.last() as int - '0' as int)
    }
}

pub open spec fn is_digit(c: char) -> bool {
    '0' <= c && c <= '9'
}

/// `s` without a leading sign.
pub open spec fn unsigned_part(s: Seq<char>) -> Seq<char> {
    if s.len() > 0 && (s[0] == '-' || s[0] == '+') {
        s.drop_first()
    } else {
        s
    }
}

/// Whether every character of `ds` is an ASCII digit.
pub open spec fn all_digits(ds: Seq<char>) -> bool {
    forall|i: int| 0 <= i < ds.len() ==> is_digit(#[trigger] ds[i])
}

/// `i32::from_str`: an optional `+` or `-` followed by one or more ASCII
/// digits whose value fits in an `i32`.
pub open spec fn parse_i32_spec(s: Seq<char>) -> Option<i32> {
    let neg = s.len() > 0 && s[0] == '-';
    let ds = unsigned_part(s);
    if ds.len() == 0 || !all_digits(ds) {
        None
    } else {
        let v = if neg {
            -digits_value(ds)
        } else {
            digits_value(ds)
        };
        if i32::MIN <= v && v <= i32::MAX {
            Some(v as i32)
        } else {
            None
        }
    }
}

proof fn lemma_digits_grow(ds: Seq<char>, k: int)
    requires
        0 <= k <= ds.len(),
        forall|i: int| 0 <= i < ds.len() ==> is_digit(#[trigger] ds[i]),
    ensures
        digits_value(ds.take(k)) <= digits_value(ds),
        0 <= digits_value(ds.take(k)),
    decreases ds.len(),
{
    if k == ds.len() {
        assert(ds.take(k) =~= ds);
        lemma_digits_nonneg(ds);
    } else {
        assert(ds.drop_last().take(k) =~= ds.take(k));
        lemma_digits_grow(ds.drop_last(), k);
        lemma_digits_nonneg(ds.drop_last());
    }
}

proof fn lemma_digits_nonneg(ds: Seq<char>)
    requires
        forall|i: int| 0 <= i < ds.len() ==> is_digit(#[trigger] ds[i]),
    ensures
        0 <= digits_value(ds),
    decreases ds.len(),
{
    if ds.len() > 0 {
        lemma_digits_nonneg(ds.drop_last());
    }
}

/// Parses a decimal `i32` as `str::parse::<i32>` does.
pub fn parse_i32(s: &Vec<char>) -> (r: Option<i32>)
    ensures
        r == parse_i32_spec(s@),
{
    let mut start: usize = 0;
    let mut neg = false;
    if s.len() > 0 && (s[0] == '-' || s[0] == '+') {
        neg = s[0] == '-';
        start = 1;
    }
    let ghost ds = unsigned_part(s@);
    assert(ds =~= s@.skip(start as int));
    if start == s.len() {
        return None;
    }
    let mut acc: i64 = 0;
    let mut i = start;
    assert(ds.take(0) =~= Seq::<char>::empty());
    while i < s.len()
        invariant
            start <= i <= s.len(),
            neg == (s@.len() > 0 && s@[0] == '-'),
            ds == unsigned_part(s@),
            ds.len() == s.len() - start,
            start < s.len(),
            ds == s@.skip(start as int),
            forall|j: int| 0 <= j < i - start ==> is_digit(#[trigger] ds[j]),
            acc == digits_value(ds.take(i - start)),
            0 <= acc <= 2147483648,
        decreases s.len() - i,
    {
        let c = s[i];
        if !('0' <= c && c <= '9') {
            assert(ds[i - start] == s@[i as int]);
            assert(!is_digit(ds[i - start]));
            assert(!all_digits(ds));
            return None;
        }
        assert(ds.take(i + 1 - start).drop_last() =~= ds.take(i - start));
        let d = (c as u32 - '0' as u32) as i64;
        acc = acc * 10 + d;
        i = i + 1;
        if acc > 2147483648 {
            proof {
                assert(forall|j: int| 0 <= j < i - start ==> is_digit(#[trigger] ds[j]));
            }
            let mut k = i;
            while k < s.len()
                invariant
                    i <= k <= s.len(),
                    start < i,
                    ds == s@.skip(start as int),
                    ds.len() == s.len() - start,
                    acc == digits_value(ds.take(i - start)),
                    acc > 2147483648,
                    ds == unsigned_part(s@),
                    neg == (s@.len() > 0 && s@[0] == '-'),
                    forall|j: int| 0 <= j < k - start ==> is_digit(#[trigger] ds[j]),
                decreases s.len() - k,
            {
                if !('0' <= s[k] && s[k] <= '9') {
                    assert(ds[k - start] == s@[k as int]);
                    assert(!is_digit(ds[k - start]));
                    assert(!all_digits(ds));
                    return None;
                }
                k = k + 1;
            }
            proof {
                assert(all_digits(ds));
                lemma_digits_grow(ds, i - start);
                assert(digits_value(ds) > 2147483648);
            }
            return None;
        }
    }
    assert(ds.take(ds.len() as int) =~= ds);
    if neg {
        Some((-acc) as i32)
    } else {
        if acc > 2147483647 {
            assert(all_digits(ds));
            return None;
        }
        Some(acc as i32)
    }
}

/// The exponent mark of a float literal.
pub open spec fn is_exp_mark(c: char) -> bool {
    c == 'e' || c == 'E'
}

/// The digits-and-point part of a float literal: digits with at most one
/// decimal point, and at least one digit.
pub open spec fn mantissa_ok(m: Seq<char>) -> bool {
    &&& forall|i: int| 0 <= i < m.len() ==> is_digit(#[trigger] m[i]) || m[i] == '.'
    &&& forall|i: int, j: int| 0 <= i < j < m.len() ==> !(#[trigger] m[i] == '.' && #[trigger] m[j] == '.')
    &&& exists|i: int| 0 <= i < m.len() && is_digit(#[trigger] m[i])
}

/// The part after the exponent mark: an optional sign and one or more digits.
pub open spec fn exponent_ok(x: Seq<char>) -> bool {
    unsigned_part(x).len() > 0 && all_digits(unsigned_part(x))
}

/// A decimal number: a mantissa, then optionally an exponent mark and an exponent.
pub open spec fn number_ok(b: Seq<char>) -> bool {
    exists|k: int| 0 <= k <= b.len() && #[trigger] mantissa_ok(b.take(k))
        && (k == b.len() || (is_exp_mark(b[k]) && exponent_ok(b.skip(k + 1))))
}

/// The text `f32::from_str` accepts: an optional sign, then `inf`,
/// `infinity`, `nan` (any case) or a decimal number.
pub open spec fn float_literal(s: Seq<char>) -> bool {
    let b = unsigned_part(s);
    eq_ignore_ascii_case(b, "inf"@) || eq_ignore_ascii_case(b, "infinity"@) || eq_ignore_ascii_case(b, "nan"@)
        || number_ok(b)
}

fn chars_eq_ignore_ascii_case(a: &Vec<char>, lit: &str) -> (r: bool)
    ensures
        r == eq_ignore_ascii_case(a@, lit@),
{
    let b = chars_of(lit);
    if a.len() != b.len() {
        return false;
    }
    let mut i: usize = 0;
    while i < a.len()
        invariant
            i <= a.len(),
            a.len() == b.len(),
            b@ == lit@,
            forall|j: int| 0 <= j < i ==> #[trigger] ascii_lower(a@[j]) == ascii_lower(b@[j]),
        decreases a.len() - i,
    {
        let x: u32 = if 'A' <= a[i] && a[i] <= 'Z' { (a[i] as u32) + 32 } else { a[i] as u32 };
        let y: u32 = if 'A' <= b[i] && b[i] <= 'Z' { (b[i] as u32) + 32 } else { b[i] as u32 };
        if x != y {
            assert(ascii_lower(a@[i as int]) != ascii_lower(b@[i as int]));
            return false;
        }
        i = i + 1;
    }
    true
}

/// Whether `v[lo..hi]` is a mantissa.
fn check_mantissa(v: &Vec<char>, lo: usize, hi: usize) -> (r: bool)
    requires
        lo <= hi <= v.len(),
    ensures
        r == mantissa_ok(v@.subrange(lo as int, hi as int)),
{
    let ghost m = v@.subrange(lo as int, hi as int);
    let mut dot_seen = false;
    let mut digit_seen = false;
    let mut i = lo;
    while i < hi
        invariant
            lo <= i <= hi <= v.len(),
            m == v@.subrange(lo as int, hi as int),
            forall|j: int| 0 <= j < i - lo ==> is_digit(#[trigger] m[j]) || m[j] == '.',
            forall|j: int, l: int| 0 <= j < l < i - lo ==> !(#[trigger] m[j] == '.' && #[trigger] m[l] == '.'),
            dot_seen == exists|j: int| 0 <= j < i - lo && #[trigger] m[j] == '.',
            digit_seen == exists|j: int| 0 <= j < i - lo && is_digit(#[trigger] m[j]),
        decreases hi - i,
    {
        let c = v[i];
        assert(m[i - lo] == c);
        if c == '.' {
            if dot_seen {
                let ghost j = choose|j: int| 0 <= j < i - lo && #[trigger] m[j] == '.';
                assert(!(m[j] == '.' && m[i - lo] == '.') == false);
                return false;
            }
            dot_seen = true;
        } else if '0' <= c && c <= '9' {
            digit_seen = true;
        } else {
            assert(!(is_digit(m[i - lo]) || m[i - lo] == '.'));
            return false;
        }
        i = i + 1;
    }
    digit_seen
}

/// Whether `v[lo..]` is an exponent.
fn check_exponent(v: &Vec<char>, lo: usize) -> (r: bool)
    requires
        lo <= v.len(),
    ensures
        r == exponent_ok(v@.skip(lo as int)),
{
    let ghost x = v@.skip(lo as int);
    let mut start = lo;
    if lo < v.len() && (v[lo] == '+' || v[lo] == '-') {
        start = lo + 1;
    }
    assert(unsigned_part(x) =~= v@.skip(start as int));
    if start == v.len() {
        return false;
    }
    let mut i = start;
    while i < v.len()
        invariant
            start <= i <= v.len(),
            x == v@.skip(lo as int),
            unsigned_part(x) == v@.skip(start as int),
            forall|j: int| 0 <= j < i - start ==> is_digit(#[trigger] unsigned_part(x)[j]),
        decreases v.len() - i,
    {
        assert(unsigned_part(x)[i - start] == v@[i as int]);
        if !('0' <= v[i] && v[i] <= '9') {
            assert(!is_digit(unsigned_part(x)[i - start]));
            assert(!all_digits(unsigned_part(x)));
            return false;
        }
        i = i + 1;
    }
    true
}

/// Whether `s` is text that `f32::from_str` accepts.
pub fn is_float_literal(s: &Vec<char>) -> (r: bool)
    ensures
        r == float_literal(s@),
{
    let mut start: usize = 0;
    if s.len() > 0 && (s[0] == '+' || s[0] == '-') {
        start = 1;
    }
    let mut b: Vec<char> = Vec::new();
    let mut i = start;
    while i < s.len()
        invariant
            start <= i <= s.len(),
            b@ == s@.subrange(start as int, i as int),
        decreases s.len() - i,
    {
        b.push(s[i]);
        i = i + 1;
    }
    assert(b@ =~= unsigned_part(s@));
    if chars_eq_ignore_ascii_case(&b, "inf") || chars_eq_ignore_ascii_case(&b, "infinity")
        || chars_eq_ignore_ascii_case(&b, "nan") {
        return true;
    }
    let mut k: usize = 0;
    while k < b.len() && b[k] != 'e' && b[k] != 'E'
        invariant
            k <= b.len(),
            forall|j: int| 0 <= j < k ==> !is_exp_mark(#[trigger] b@[j]),
        decreases b.len() - k,
    {
        k = k + 1;
    }
    assert(b@.subrange(0, k as int) =~= b@.take(k as int));
    let m = check_mantissa(&b, 0, k);
    let r = if !m {
        false
    } else if k == b.len() {
        true
    } else {
        check_exponent(&b, k + 1)
    };
    proof {
        let bb = b@;
        if r {
            assert(mantissa_ok(bb.take(k as int)));
        } else if number_ok(bb) {
            let k2 = choose|k2: int| 0 <= k2 <= bb.len() && #[trigger] mantissa_ok(bb.take(k2))
                && (k2 == bb.len() || (is_exp_mark(bb[k2]) && exponent_ok(bb.skip(k2 + 1))));
            if k2 < k {
                assert(!is_exp_mark(bb[k2]));
            } else if k2 > k {
                assert(bb.take(k2)[k as int] == bb[k as int]);
                assert(is_exp_mark(bb[k as int]));
                assert(!(is_digit(bb.take(k2)[k as int]) || bb.take(k2)[k as int] == '.'));
            }
        }
    }
    r
}

/// A parsed server command. The fly-speed argument is kept as written: text
/// that `f32::from_str` accepts, which the caller reads and clamps to `[0, 1]`.
#[derive(Debug, Clone, PartialEq, Eq)]
pub enum Command {
    Spawn,
    Fly,
    FlySpeed(String),
    Transfer(String, i32),
    Server(String),
}

/// Why a command line was not understood.
#[derive(Debug, Clone, Copy, PartialEq, Eq, Structural)]
pub enum ParseCommandError {
    Empty,
    Unknown,
    InvalidSpeed,
    InvalidHost,
    InvalidPort,
    MissingDestinationId,
}

/// The meaning of a command line, with arguments as character sequences.
pub enum CommandMeaning {
    Spawn,
    Fly,
    FlySpeed(Seq<char>),
    Transfer(Seq<char>, i32),
    Server(Seq<char>),
}

/// The abstract meaning of a parsed command.
pub open spec fn meaning(c: Command) -> CommandMeaning {
    match c {
        Command::Spawn => CommandMeaning::Spawn,
        Command::Fly => CommandMeaning::Fly,
        Command::FlySpeed(s) => CommandMeaning::FlySpeed(s@),
        Command::Transfer(h, p) => CommandMeaning::Transfer(h@, p),
        Command::Server(d) => CommandMeaning::Server(d@),
    }
}

/// The default fly speed argument.
pub const DEFAULT_FLY_SPEED: &'static str = "0.05";

/// The default transfer port.
pub const DEFAULT_TRANSFER_PORT: &'static str = "25565";

/// How a command line is read: its first word selects a command by alias;
/// `fly speed` takes an optional speed (default `0.05`), `transfer` a host
/// and an optional port (default `25565`), `server` a destination id.
pub open spec fn parse_command(cmds: ServerCommands, input: Seq<char>) -> Result<CommandMeaning, ParseCommandError> {
    match next_word(input) {
        None => Err(ParseCommandError::Empty),
        Some((cmd, rest)) => if names(command_for(cmds.spawn_alias()), cmd) {
            Ok(CommandMeaning::Spawn)
        } else if names(command_for(cmds.fly_alias()), cmd) {
            Ok(CommandMeaning::Fly)
        } else if names(command_for(cmds.fly_speed_alias()), cmd) {
            match next_word(rest) {
                Some((w, _)) => if float_literal(w) {
                    Ok(CommandMeaning::FlySpeed(w))
                } else {
                    Err(ParseCommandError::InvalidSpeed)
                },
                None => Ok(CommandMeaning::FlySpeed(DEFAULT_FLY_SPEED@)),
            }
        } else if names(command_for(cmds.transfer_alias()), cmd) {
            match next_word(rest) {
                None => Err(ParseCommandError::InvalidHost),
                Some((host, rest2)) => {
                    let port_text = match next_word(rest2) {
                        Some((w, _)) => w,
                        None => DEFAULT_TRANSFER_PORT@,
                    };
                    match parse_i32_spec(port_text) {
                        None => Err(ParseCommandError::InvalidPort),
                        Some(port) => Ok(CommandMeaning::Transfer(host, port)),
                    }
                },
            }
        } else if names(command_for(cmds.server_alias()), cmd) {
            match next_word(rest) {
                None => Err(ParseCommandError::MissingDestinationId),
                Some((id, _)) => Ok(CommandMeaning::Server(id)),
            }
        } else {
            Err(ParseCommandError::Unknown)
        },
    }
}

impl Command {
    /// Parses a command line against the configured aliases.
    pub fn parse(server_commands: &ServerCommands, input: &str) -> (r: Result<Command, ParseCommandError>)
        ensures
            match r {
                Ok(c) => parse_command(*server_commands, input@) == Ok::<CommandMeaning, ParseCommandError>(meaning(c)),
                Err(e) => parse_command(*server_commands, input@) == Err::<CommandMeaning, ParseCommandError>(e),
            },
    {
        let v = chars_of(input);
        assert(v@.skip(0) =~= v@);
        let (cmd, after) = match take_word(&v, 0) {
            None => return Err(ParseCommandError::Empty),
            Some(x) => x,
        };
        if is_command(server_commands.spawn(), &cmd) {
            Ok(Command::Spawn)
        } else if is_command(server_commands.fly(), &cmd) {
            Ok(Command::Fly)
        } else if is_command(server_commands.fly_speed(), &cmd) {
            match take_word(&v, after) {
                Some((w, _)) => {
                    if is_float_literal(&w) {
                        Ok(Command::FlySpeed(string_of(&w)))
                    } else {
                        Err(ParseCommandError::InvalidSpeed)
                    }
                },
                None => Ok(Command::FlySpeed(DEFAULT_FLY_SPEED.to_string())),
            }
        } else if is_command(server_commands.transfer(), &cmd) {
            let (host, after2) = match take_word(&v, after) {
                None => return Err(ParseCommandError::InvalidHost),
                Some(x) => x,
            };
            let port_text = match take_word(&v, after2) {
                Some((w, _)) => w,
                None => chars_of(DEFAULT_TRANSFER_PORT),
            };
            match parse_i32(&port_text) {
                None => Err(ParseCommandError::InvalidPort),
                Some(port) => Ok(Command::Transfer(string_of(&host), port)),
            }
        } else if is_command(server_commands.server(), &cmd) {
            match take_word(&v, after) {
                None => Err(ParseCommandError::MissingDestinationId),
                Some((id, _)) => Ok(Command::Server(string_of(&id))),
            }
        } else {
            Err(ParseCommandError::Unknown)
        }
    }
}

} // verus!
