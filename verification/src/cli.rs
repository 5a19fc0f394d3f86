//! The commands of the command line and their arguments.

use vstd::prelude::*;
use vstd::string::{StrSliceExecFns, StringExecFns};
use crate::project::{project_label, Program, ProjectID};
use crate::store::CommitInfo;

verus! {

/// The command line as a whole.
#[derive(Debug)]
pub struct Cli {
    /// Config file location (default is system-dependent).
    pub config: Option<String>,
    pub command: Option<Commands>,
}

#[derive(Debug)]
pub enum Commands {
    /// Show status (this is the default action)
    Status(StatusCommand),
    /// Manage stores (e.g., git repos)
    Store(StoreCommand),
    /// Track a file
    Track(TrackCommand),
    /// Untrack a file
    Untrack(UntrackCommand),
    /// Commit changes
    Commit,
    /// Automatically commit changes as they happen
    AutoCommit(AutoCommitCommand),
    /// Show commit history
    Log(LogCommand),
}

#[derive(Debug)]
pub struct StatusCommand {
    /// Also show projects that aren't tracked yet.
    pub show_untracked: bool,
}

impl Default for StatusCommand {
    fn default() -> (res: Self)
        ensures
            !res.show_untracked,
    {
        StatusCommand { show_untracked: false }
    }
}

#[derive(Debug)]
pub struct LogCommand {
    /// How far to look back, in seconds.
    pub since: u64,
    /// Store to show logs from (if not specified, uses the only store if
    /// there's just one)
    pub store: Option<String>,
}

#[derive(Debug)]
pub struct StoreCommand {
    pub subcommand: StoreSubcommand,
}

#[derive(Debug)]
pub enum StoreSubcommand {
    /// Create a store (e.g., a git repo)
    Create(CreateStoreArgs),
    /// Remove a store
    Remove(RemoveStoreArgs),
}

#[derive(Debug)]
pub struct CreateStoreArgs {
    /// The store type (git is the only option)
    pub store_type: String,
    /// Path to the repo
    pub path: String,
}

#[derive(Debug)]
pub struct RemoveStoreArgs {
    /// Path to the repo
    pub path: String,
}

#[derive(Debug)]
pub struct TrackCommand {
    /// Track a spike file
    pub spike: bool,
    /// Track a mindstorms file
    pub mindstorms: bool,
    pub file_name: String,
}

#[derive(Debug)]
pub struct UntrackCommand {
    /// Untrack a spike file
    pub spike: bool,
    /// Untrack a mindstorms file
    pub mindstorms: bool,
    pub file_name: String,
}

#[derive(Debug)]
pub struct AutoCommitCommand {
    /// Minimum interval between commits, in seconds.
    pub interval: u64,
}

/// The program that the flags of a command choose: exactly one of the two
/// must be set.
pub fn program_choice(spike: bool, mindstorms: bool) -> (res: Option<Program>)
    ensures
        res == (if spike && !mindstorms {
            Some(Program::Spike)
        } else if mindstorms && !spike {
            Some(Program::Mindstorms)
        } else {
            None
        }),
{
    match (spike, mindstorms) {
        (true, false) => Some(Program::Spike),
        (false, true) => Some(Program::Mindstorms),
        _ => None,
    }
}

pub open spec fn is_digit(c: char) -> bool {
    '0' <= c <= '9'
}

pub open spec fn digit_value(c: char) -> nat {
    (c as nat - '0' as nat) as nat
}

/// The number that a string of decimal digits stands for.
pub open spec fn number_value(s: Seq<char>) -> nat
    decreases s.len(),
{
    if s.len() == 0 {
        0
    } else {
        number_value(s.drop_last()) * 10 + digit_value(s.last())
    }
}

pub open spec fn all_digits(s: Seq<char>) -> bool {
    forall|i: int| 0 <= i < s.len() ==> is_digit(#[trigger] s[i])
}

/// The digits of a number's text: the text without a leading `+`.
pub open spec fn unsigned_part(s: Seq<char>) -> Seq<char> {
    if s.len() > 0 && s[0] == '+' {
        s.subrange(1, s.len() as int)
    } else {
        s
    }
}

/// The number that a text stands for: decimal digits, at least one, after
/// an optional `+`, with a value that fits in 64 bits.
pub open spec fn parse_number(s: Seq<char>) -> Option<u64> {
    let d = unsigned_part(s);
    if d.len() > 0 && all_digits(d) && number_value(d) <= u64::MAX {
        Some(number_value(d) as u64)
    } else {
        None
    }
}

/// The seconds in one unit of time.
pub open spec fn unit_seconds(c: char) -> Option<u64> {
    if c == 's' {
        Some(1u64)
    } else if c == 'm' {
        Some(60u64)
    } else if c == 'h' {
        Some(3600u64)
    } else if c == 'd' {
        Some(86400u64)
    } else if c == 'w' {
        Some(604800u64)
    } else {
        None
    }
}

/// The seconds that a duration such as `30s`, `1d` or `2w` stands for: a
/// number and, as the last character, a unit. Nothing where the text is no
/// duration or the seconds do not fit in 64 bits.
pub open spec fn duration_seconds(s: Seq<char>) -> Option<u64> {
    if s.len() == 0 {
        None
    } else {
        match (parse_number(s.drop_last()), unit_seconds(s.last())) {
            (Some(n), Some(u)) => if n * u <= u64::MAX {
                Some((n * u) as u64)
            } else {
                None
            },
            _ => None,
        }
    }
}

/// A longer string of digits stands for no smaller number.
proof fn lemma_number_grows(s: Seq<char>, i: int)
    requires
        0 <= i <= s.len(),
    ensures
        number_value(s.take(i)) <= number_value(s),
    decreases s.len() - i,
{
    if i < s.len() {
        lemma_number_grows(s, i + 1);
        assert(s.take(i + 1).drop_last() =~= s.take(i));
    } else {
        assert(s.take(i) =~= s);
    }
}

/// The value of a text of digits, if they are digits and the value fits.
fn parse_digits(s: &str, from: usize, len: usize) -> (res: Option<u64>)
    requires
        from <= len,
        len == s@.len(),
    ensures
        ({
            let d = s@.subrange(from as int, len as int);
            res == if d.len() > 0 && all_digits(d) && number_value(d) <= u64::MAX {
                Some(number_value(d) as u64)
            } else {
                None
            }
        }),
{
    let ghost d = s@.subrange(from as int, len as int);
    if from == len {
        return None;
    }
    let mut acc: u64 = 0;
    let mut i: usize = from;
    assert(d.take(0) =~= Seq::empty());
    while i < len
        invariant
            from <= i <= len,
            len == s@.len(),
            d == s@.subrange(from as int, len as int),
            all_digits(d.take(i - from)),
            acc == number_value(d.take(i - from)),
        decreases len - i,
    {
        let c = s.get_char(i);
        assert(c == d[i - from]);
        if c < '0' || c > '9' {
            assert(!is_digit(d[i - from]));
            return None;
        }
        let v: u64 = (c as u32 - '0' as u32) as u64;
        proof {
            assert(d.take(i - from + 1).drop_last() =~= d.take(i - from));
            assert(d.take(i - from + 1).last() == c);
            assert(number_value(d.take(i - from + 1)) == acc * 10 + v);
            lemma_number_grows(d, i - from + 1);
        }
        if acc > (u64::MAX - v) / 10 {
            return None;
        }
        acc = acc * 10 + v;
        assert(all_digits(d.take(i - from + 1))) by {
            assert forall|j: int| 0 <= j < i - from + 1 implies is_digit(
                #[trigger] d.take(i - from + 1)[j],
            ) by {
                if j < i - from {
                    assert(d.take(i - from + 1)[j] == d.take(i - from)[j]);
                }
            }
        }
        i += 1;
    }
    assert(d.take(len - from) =~= d);
    Some(acc)
}

/// Why a text is no duration.
#[derive(Debug)]
pub enum DurationError {
    Empty,
    InvalidNumber(String),
    InvalidUnit(String),
    TooLong,
}

impl DurationError {
    /// The text shown to the user.
    pub fn message(&self) -> (s: String)
        ensures
            self is Empty ==> s@ == "duration cannot be empty"@,
            self is InvalidNumber ==> s@ == "invalid number: "@ + self->InvalidNumber_0@,
            self is InvalidUnit ==> s@ == "invalid duration unit: "@ + self->InvalidUnit_0@,
            self is TooLong ==> s@ == "duration is too long"@,
    {
        match self {
            DurationError::Empty => String::from_str("duration cannot be empty"),
            DurationError::InvalidNumber(n) => String::from_str("invalid number: ").concat(
                n.as_str(),
            ),
            DurationError::InvalidUnit(u) => String::from_str("invalid duration unit: ").concat(
                u.as_str(),
            ),
            DurationError::TooLong => String::from_str("duration is too long"),
        }
    }
}

/// The seconds of a duration given as a number and a unit: `s`, `m`, `h`,
/// `d` or `w`.
pub fn parse_duration(s: &str) -> (res: Result<u64, DurationError>)
    ensures
        res is Ok <==> duration_seconds(s@) is Some,
        res is Ok ==> res->Ok_0 == duration_seconds(s@)->Some_0,
        s@.len() == 0 ==> res is Err && res->Err_0 is Empty,
        s@.len() > 0 && parse_number(s@.drop_last()) is None ==> res is Err && res->Err_0
            is InvalidNumber && res->Err_0->InvalidNumber_0@ == s@.drop_last(),
        s@.len() > 0 && parse_number(s@.drop_last()) is Some && unit_seconds(s@.last()) is None
            ==> res is Err && res->Err_0 is InvalidUnit && res->Err_0->InvalidUnit_0@ == seq![
            s@.last(),
        ],
{
    let len = s.unicode_len();
    if len == 0 {
        return Err(DurationError::Empty);
    }
    let num_str = s.substring_char(0, len - 1);
    assert(num_str@ =~= s@.drop_last());
    let from: usize = if len > 1 && num_str.get_char(0) == '+' {
        1
    } else {
        0
    };
    assert(unsigned_part(num_str@) =~= num_str@.subrange(from as int, len - 1));
    let num = match parse_digits(num_str, from, len - 1) {
        Some(num) => num,
        None => {
            return Err(DurationError::InvalidNumber(String::from_str(num_str)));
        },
    };
    let unit = s.get_char(len - 1);
    let per_unit: u64 = if unit == 's' {
        1
    } else if unit == 'm' {
        60
    } else if unit == 'h' {
        3600
    } else if unit == 'd' {
        86400
    } else if unit == 'w' {
        604800
    } else {
        let text = s.substring_char(len - 1, len);
        assert(text@ =~= seq![s@.last()]);
        return Err(DurationError::InvalidUnit(String::from_str(text)));
    };
    match num.checked_mul(per_unit) {
        Some(seconds) => Ok(seconds),
        None => Err(DurationError::TooLong),
    }
}

pub const SECONDS_IN_MINUTE: u64 = 60;

pub const SECONDS_IN_HOUR: u64 = 3600;

pub const SECONDS_IN_DAY: u64 = 86400;

pub const SECONDS_IN_WEEK: u64 = 604800;

/// The character of a decimal digit.
pub open spec fn digit_char(d: nat) -> char
    recommends
        d < 10,
{
    if d == 0 {
        '0'
    } else if d == 1 {
        '1'
    } else if d == 2 {
        '2'
    } else if d == 3 {
        '3'
    } else if d == 4 {
        '4'
    } else if d == 5 {
        '5'
    } else if d == 6 {
        '6'
    } else if d == 7 {
        '7'
    } else if d == 8 {
        '8'
    } else {
        '9'
    }
}

/// The decimal digits of a number, without leading zeros.
pub open spec fn decimal_text(n: nat) -> Seq<char>
    decreases n,
{
    if n < 10 {
        seq![digit_char(n)]
    } else {
        decimal_text(n / 10).push(digit_char(n % 10))
    }
}

/// The digits of a number stand for the number.
pub proof fn lemma_decimal_text(n: nat)
    ensures
        decimal_text(n).len() >= 1,
        all_digits(decimal_text(n)),
        number_value(decimal_text(n)) == n,
        decimal_text(n)[0] != '+',
    decreases n,
{
    if n < 10 {
        let s = decimal_text(n);
        assert(s.drop_last() =~= Seq::<char>::empty());
        assert(number_value(s.drop_last()) == 0);
        assert(s.last() == digit_char(n));
        assert(digit_value(digit_char(n)) == n);
    } else {
        lemma_decimal_text(n / 10);
        let s = decimal_text(n);
        let head = decimal_text(n / 10);
        assert(s.drop_last() =~= head);
        assert(s.last() == digit_char(n % 10));
        assert(digit_value(digit_char(n % 10)) == n % 10);
        assert forall|i: int| 0 <= i < s.len() implies is_digit(#[trigger] s[i]) by {
            if i < head.len() {
                assert(s[i] == head[i]);
            }
        }
        assert(s[0] == head[0]);
    }
}

/// A number that is written in decimal digits is read back as itself.
pub proof fn lemma_number_round_trip(n: u64)
    ensures
        parse_number(decimal_text(n as nat)) == Some(n),
{
    lemma_decimal_text(n as nat);
}

/// A duration that is written as whole seconds is read back as itself.
pub proof fn lemma_seconds_round_trip(n: u64)
    ensures
        duration_seconds(decimal_text(n as nat).push('s')) == Some(n),
{
    lemma_decimal_text(n as nat);
    let s = decimal_text(n as nat).push('s');
    let d = decimal_text(n as nat);
    assert(s.drop_last() =~= d);
    assert(s.last() == 's');
    assert(unsigned_part(d) == d);
    assert(parse_number(d) == Some(n));
    assert(unit_seconds('s') == Some(1u64));
    assert(n * 1 == n);
}

fn digit(d: u64) -> (s: &'static str)
    requires
        d < 10,
    ensures
        s@ == seq![digit_char(d as nat)],
{
    proof {
        reveal_strlit("0");
        reveal_strlit("1");
        reveal_strlit("2");
        reveal_strlit("3");
        reveal_strlit("4");
        reveal_strlit("5");
        reveal_strlit("6");
        reveal_strlit("7");
        reveal_strlit("8");
        reveal_strlit("9");
    }
    let s = if d == 0 {
        "0"
    } else if d == 1 {
        "1"
    } else if d == 2 {
        "2"
    } else if d == 3 {
        "3"
    } else if d == 4 {
        "4"
    } else if d == 5 {
        "5"
    } else if d == 6 {
        "6"
    } else if d == 7 {
        "7"
    } else if d == 8 {
        "8"
    } else {
        "9"
    };
    assert(s@ =~= seq![digit_char(d as nat)]);
    s
}

/// A number in decimal digits.
pub fn decimal(n: u64) -> (s: String)
    ensures
        s@ == decimal_text(n as nat),
    decreases n,
{
    if n < 10 {
        String::from_str(digit(n))
    } else {
        let s = decimal(n / 10).concat(digit(n % 10));
        assert(s@ =~= decimal_text((n / 10) as nat).push(digit_char((n % 10) as nat)));
        s
    }
}

/// How long ago something was, in the largest unit that fits: weeks, days,
/// hours, minutes or seconds, rounded down.
pub open spec fn duration_text(seconds: u64) -> Seq<char> {
    if seconds >= SECONDS_IN_WEEK {
        decimal_text((seconds / SECONDS_IN_WEEK) as nat).push('w')
    } else if seconds >= SECONDS_IN_DAY {
        decimal_text((seconds / SECONDS_IN_DAY) as nat).push('d')
    } else if seconds >= SECONDS_IN_HOUR {
        decimal_text((seconds / SECONDS_IN_HOUR) as nat).push('h')
    } else if seconds >= SECONDS_IN_MINUTE {
        decimal_text((seconds / SECONDS_IN_MINUTE) as nat).push('m')
    } else {
        decimal_text(seconds as nat).push('s')
    }
}

/// The text for a duration of whole seconds.
pub fn format_duration_ago(seconds: u64) -> (s: String)
    ensures
        s@ == duration_text(seconds),
{
    proof {
        reveal_strlit("w");
        reveal_strlit("d");
        reveal_strlit("h");
        reveal_strlit("m");
        reveal_strlit("s");
    }
    let s = if seconds >= SECONDS_IN_WEEK {
        decimal(seconds / SECONDS_IN_WEEK).concat("w")
    } else if seconds >= SECONDS_IN_DAY {
        decimal(seconds / SECONDS_IN_DAY).concat("d")
    } else if seconds >= SECONDS_IN_HOUR {
        decimal(seconds / SECONDS_IN_HOUR).concat("h")
    } else if seconds >= SECONDS_IN_MINUTE {
        decimal(seconds / SECONDS_IN_MINUTE).concat("m")
    } else {
        decimal(seconds).concat("s")
    };
    assert(s@ =~= duration_text(seconds));
    s
}

/// The text for the time since `time`: its age where it does not lie after
/// `now`, else the words that say so.
pub open spec fn age_text(now: i64, time: i64) -> Seq<char> {
    if now >= time {
        duration_text((now - time) as u64)
    } else {
        "(?? second time provided was later than self ??)"@
    }
}

/// The text for the time since `time`, both in seconds since the Unix
/// epoch. A time that lies after `now` has no age.
pub fn format_time_ago(now: i64, time: i64) -> (s: String)
    ensures
        s@ == age_text(now, time),
{
    if now >= time {
        let d: i128 = now as i128 - time as i128;
        format_duration_ago(d as u64)
    } else {
        String::from_str("(?? second time provided was later than self ??)")
    }
}

/// The line that shows a commit: its shortened id, its age, in brackets
/// the local time it was made at, and the first line of its message.
pub open spec fn log_header_text(
    hash: Seq<char>,
    age: Seq<char>,
    when: Seq<char>,
    message: Seq<char>,
) -> Seq<char> {
    hash + " "@ + age + " ("@ + when + ") "@ + message
}

/// The line that shows one changed project below a commit.
pub open spec fn log_change_text(id: (Program, Seq<char>)) -> Seq<char> {
    "  +/- "@ + project_label(id)
}

/// The line that shows a commit, `now` seconds after the Unix epoch; `when`
/// is the commit's time as the local clock shows it.
pub fn log_header(info: &CommitInfo, now: i64, when: &str) -> (s: String)
    ensures
        s@ == log_header_text(info.hash@, age_text(now, info.date), when@, info.message@),
{
    let age = format_time_ago(now, info.date);
    info.hash.clone().concat(" ").concat(age.as_str()).concat(" (").concat(when).concat(
        ") ",
    ).concat(info.message.as_str())
}

/// The line that shows one changed project below a commit.
pub fn log_change(id: &ProjectID) -> (s: String)
    ensures
        s@ == log_change_text(id@),
{
    String::from_str("  +/- ").concat(id.label().as_str())
}

} // verus!
