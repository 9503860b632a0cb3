//! The rules of the log: which lines are written where, how the files are
//! named, and which files are old enough to be archived.

use crate::text::{
    append_decimal, chars_of, decimal, ends_with, lemma_decimal_injective, same_chars, split,
    split_chars, starts_with, texts,
};
use vstd::prelude::*;
use vstd::string::StringExecFns;

verus! {

/// How grave a line of the log is, the gravest first.
#[derive(Debug, Clone, Copy, PartialEq, Eq, Structural)]
pub enum LogLevel {
    Error,
    Warn,
    Info,
    Debug,
    Trace,
}

/// Lines of the levels up to `Info` are written; the others are dropped.
pub open spec fn written_level(level: LogLevel) -> bool {
    level == LogLevel::Error || level == LogLevel::Warn || level == LogLevel::Info
}

/// The name of a level in a line of the log.
pub open spec fn level_text(level: LogLevel) -> Seq<char> {
    match level {
        LogLevel::Error => "ERROR"@,
        LogLevel::Warn => "WARN"@,
        LogLevel::Info => "INFO"@,
        LogLevel::Debug => "DEBUG"@,
        LogLevel::Trace => "TRACE"@,
    }
}

/// The escape sequence that colours a level on the console.
pub open spec fn level_paint(level: LogLevel) -> Seq<char> {
    match level {
        LogLevel::Error => "\x1B[31m"@,
        LogLevel::Warn => "\x1B[33m"@,
        LogLevel::Info => "\x1B[32m"@,
        LogLevel::Debug => "\x1B[34m"@,
        LogLevel::Trace => "\x1B[36m"@,
    }
}

/// A line as the console shows it.
pub open spec fn shown_line(
    timestamp: Seq<char>,
    level: LogLevel,
    target: Seq<char>,
    message: Seq<char>,
) -> Seq<char> {
    timestamp + " "@ + level_paint(level) + "["@ + level_text(level) + "]"@ + "\x1B[0m"@ + " ["@
        + target + "] "@ + message
}

/// A line as a log file holds it.
pub open spec fn filed_line(
    timestamp: Seq<char>,
    level: LogLevel,
    target: Seq<char>,
    message: Seq<char>,
) -> Seq<char> {
    timestamp + " ["@ + level_text(level) + "] ["@ + target + "] "@ + message + "\n"@
}

/// Whether a line comes from the user interface: its target begins with the
/// path of the commands that take such lines in.
pub open spec fn from_frontend(target: Seq<char>) -> bool {
    "showcase_app_lib::log_frontend_"@.is_prefix_of(target)
}

/// The name of the `count`-th log file of a day.
pub open spec fn log_name(prefix: Seq<char>, date: Seq<char>, count: u64) -> Seq<char> {
    prefix + "_"@ + date + "_"@ + decimal(count as nat) + ".log"@
}

/// The number of bytes that a character takes in UTF-8.
pub open spec fn char_bytes(c: char) -> nat {
    let n = c as u32;
    if n < 0x80 {
        1
    } else if n < 0x800 {
        2
    } else if n < 0x10000 {
        3
    } else {
        4
    }
}

/// The number of bytes that a text takes in UTF-8.
pub open spec fn byte_length(s: Seq<char>) -> nat
    decreases s.len(),
{
    if s.len() == 0 {
        0
    } else {
        byte_length(s.drop_last()) + char_bytes(s.last())
    }
}

/// Whether a file is a log of an earlier day: its name ends in `.log` and
/// begins with `backend` or `frontend`, then `_`, then a date of ten bytes
/// that is followed by `_` or the end of the name and is not today's.
pub open spec fn old_log(file_name: Seq<char>, today: Seq<char>) -> bool {
    let parts = split(file_name, '_');
    &&& ".log"@.is_suffix_of(file_name)
    &&& parts.len() >= 2
    &&& (parts[0] == "backend"@ || parts[0] == "frontend"@)
    &&& byte_length(parts[1]) == 10
    &&& parts[1] != today
}

/// The name of the archive that takes a log file in.
pub open spec fn archive_of(file_name: Seq<char>) -> Seq<char> {
    file_name + ".zip"@
}

/// Whether lines of this level are written.
pub fn is_enabled(level: LogLevel) -> (r: bool)
    ensures
        r == written_level(level),
{
    match level {
        LogLevel::Error | LogLevel::Warn | LogLevel::Info => true,
        _ => false,
    }
}

/// The name of a level in a line of the log.
pub fn level_name(level: LogLevel) -> (r: &'static str)
    ensures
        r@ == level_text(level),
{
    match level {
        LogLevel::Error => "ERROR",
        LogLevel::Warn => "WARN",
        LogLevel::Info => "INFO",
        LogLevel::Debug => "DEBUG",
        LogLevel::Trace => "TRACE",
    }
}

/// The escape sequence that colours a level on the console.
pub fn level_color(level: LogLevel) -> (r: &'static str)
    ensures
        r@ == level_paint(level),
{
    match level {
        LogLevel::Error => "\x1B[31m",
        LogLevel::Warn => "\x1B[33m",
        LogLevel::Info => "\x1B[32m",
        LogLevel::Debug => "\x1B[34m",
        LogLevel::Trace => "\x1B[36m",
    }
}

/// The line for the console.
pub fn console_line(timestamp: &str, level: LogLevel, target: &str, message: &str) -> (line:
    String)
    ensures
        line@ == shown_line(timestamp@, level, target@, message@),
{
    let mut line = String::from_str(timestamp);
    line.append(" ");
    line.append(level_color(level));
    line.append("[");
    line.append(level_name(level));
    line.append("]");
    line.append("\x1B[0m");
    line.append(" [");
    line.append(target);
    line.append("] ");
    line.append(message);
    line
}

/// The line for the log file.
pub fn file_line(timestamp: &str, level: LogLevel, target: &str, message: &str) -> (line: String)
    ensures
        line@ == filed_line(timestamp@, level, target@, message@),
{
    let mut line = String::from_str(timestamp);
    line.append(" [");
    line.append(level_name(level));
    line.append("] [");
    line.append(target);
    line.append("] ");
    line.append(message);
    line.append("\n");
    line
}

/// Whether a line with this target goes to the log of the user interface.
pub fn is_frontend_target(target: &str) -> (r: bool)
    ensures
        r == from_frontend(target@),
{
    starts_with(&chars_of(target), &chars_of("showcase_app_lib::log_frontend_"))
}

/// The name of the `count`-th log file that `prefix` writes on the day
/// `date`.
pub fn log_file_name(prefix: &str, date: &str, count: u64) -> (name: String)
    ensures
        name@ == log_name(prefix@, date@, count),
{
    let mut name = String::from_str(prefix);
    name.append("_");
    name.append(date);
    name.append("_");
    append_decimal(&mut name, count);
    name.append(".log");
    name
}

/// Whether the file `file_name` is a log of an earlier day than `today` and
/// is to be archived.
pub fn is_archivable_log(file_name: &str, today: &str) -> (r: bool)
    ensures
        r == old_log(file_name@, today@),
{
    let name = chars_of(file_name);
    if !ends_with(&name, &chars_of(".log")) {
        return false;
    }
    let parts = split_chars(&name, '_');
    if parts.len() < 2 {
        return false;
    }
    assert(texts(parts@)[0] == parts@[0]@);
    assert(texts(parts@)[1] == parts@[1]@);
    let known = same_chars(&parts[0], &chars_of("backend")) || same_chars(
        &parts[0],
        &chars_of("frontend"),
    );
    if !known {
        return false;
    }
    has_byte_length(&parts[1], 10) && !same_chars(&parts[1], &chars_of(today))
}

/// Whether `s` takes `wanted` bytes in UTF-8.
pub fn has_byte_length(s: &Vec<char>, wanted: usize) -> (r: bool)
    ensures
        r == (byte_length(s@) == wanted),
{
    let mut total: usize = 0;
    let mut i: usize = 0;
    while i < s.len()
        invariant
            i <= s.len(),
            total == byte_length(s@.take(i as int)),
            total <= wanted,
        decreases s.len() - i,
    {
        let n = s[i] as u32;
        let width: usize = if n < 0x80 {
            1
        } else if n < 0x800 {
            2
        } else if n < 0x10000 {
            3
        } else {
            4
        };
        proof {
            assert(s@.take(i + 1).drop_last() == s@.take(i as int));
            assert(s@.take(i + 1).last() == s@[i as int]);
        }
        if width > wanted - total {
            proof {
                lemma_byte_length_grows(s@, i + 1);
            }
            return false;
        }
        total = total + width;
        i += 1;
    }
    assert(s@.take(s.len() as int) == s@);
    total == wanted
}

/// A text takes at least as many bytes as any of its beginnings.
pub proof fn lemma_byte_length_grows(s: Seq<char>, n: int)
    requires
        0 <= n <= s.len(),
    ensures
        byte_length(s.take(n)) <= byte_length(s),
    decreases s.len() - n,
{
    if n < s.len() {
        lemma_byte_length_grows(s.drop_last(), n);
        assert(s.drop_last().take(n) == s.take(n));
    } else {
        assert(s.take(n) == s);
    }
}

/// The name of the archive for the log file `file_name`.
pub fn archive_name(file_name: &str) -> (name: String)
    ensures
        name@ == archive_of(file_name@),
{
    let mut name = String::from_str(file_name);
    name.append(".zip");
    name
}

/// The names of the first `upto` log files that `prefix` writes on the day
/// `date`.
pub open spec fn numbered_names(prefix: Seq<char>, date: Seq<char>, upto: nat) -> Set<Seq<char>>
    decreases upto,
{
    if upto == 0 {
        Set::empty()
    } else {
        numbered_names(prefix, date, (upto - 1) as nat).insert(log_name(prefix, date, upto as u64))
    }
}

/// The name of a log file tells its number.
pub proof fn lemma_log_name_tells_number(prefix: Seq<char>, date: Seq<char>, a: u64, b: u64)
    requires
        log_name(prefix, date, a) == log_name(prefix, date, b),
    ensures
        a == b,
{
    let lead = prefix + "_"@ + date + "_"@;
    let tail = ".log"@;
    let end_a = decimal(a as nat) + tail;
    let end_b = decimal(b as nat) + tail;
    assert(log_name(prefix, date, a) == lead + end_a);
    assert(log_name(prefix, date, b) == lead + end_b);
    assert(end_a == (lead + end_a).skip(lead.len() as int));
    assert(end_b == (lead + end_b).skip(lead.len() as int));
    assert(decimal(a as nat) == end_a.take(end_a.len() - tail.len()));
    assert(decimal(b as nat) == end_b.take(end_b.len() - tail.len()));
    lemma_decimal_injective(a as nat, b as nat);
}

/// There are `upto` names of the first `upto` log files, each that of a
/// number from 1 to `upto`.
pub proof fn lemma_numbered_names(prefix: Seq<char>, date: Seq<char>, upto: nat)
    requires
        upto <= u64::MAX,
    ensures
        numbered_names(prefix, date, upto).finite(),
        numbered_names(prefix, date, upto).len() == upto,
        forall|name: Seq<char>| #[trigger]
            numbered_names(prefix, date, upto).contains(name) ==> exists|k: u64|
                1 <= k <= upto && name == log_name(prefix, date, k),
        forall|k: u64|
            1 <= k <= upto ==> numbered_names(prefix, date, upto).contains(
                #[trigger] log_name(prefix, date, k),
            ),
    decreases upto,
{
    if upto > 0 {
        let before = numbered_names(prefix, date, (upto - 1) as nat);
        let last = log_name(prefix, date, upto as u64);
        lemma_numbered_names(prefix, date, (upto - 1) as nat);
        if before.contains(last) {
            let k = choose|k: u64| 1 <= k <= upto - 1 && last == log_name(prefix, date, k);
            lemma_log_name_tells_number(prefix, date, k, upto as u64);
        }
        assert forall|name: Seq<char>| #[trigger]
            before.insert(last).contains(name) implies exists|k: u64|
            1 <= k <= upto && name == log_name(prefix, date, k) by {
            if name == last {
                assert(name == log_name(prefix, date, upto as u64));
            } else {
                let k = choose|k: u64| 1 <= k <= upto - 1 && name == log_name(prefix, date, k);
                assert(1 <= k <= upto && name == log_name(prefix, date, k));
            }
        }
    }
}

/// Where the log files of the numbers 1 to `upto` are all there, there are
/// `upto` files at least.
pub proof fn lemma_numbers_need_names(
    prefix: Seq<char>,
    date: Seq<char>,
    names: Seq<Seq<char>>,
    upto: nat,
)
    requires
        upto <= u64::MAX,
        forall|k: u64| 1 <= k <= upto ==> names.contains(#[trigger] log_name(prefix, date, k)),
    ensures
        upto <= names.len(),
{
    let taken = numbered_names(prefix, date, upto);
    lemma_numbered_names(prefix, date, upto);
    assert(taken.subset_of(names.to_set())) by {
        assert forall|name: Seq<char>| taken.contains(name) implies names.to_set().contains(
            name,
        ) by {
            let k = choose|k: u64| 1 <= k <= upto && name == log_name(prefix, date, k);
            assert(names.contains(log_name(prefix, date, k)));
        }
    }
    vstd::seq_lib::seq_to_set_is_finite(names);
    vstd::set_lib::lemma_len_subset(taken, names.to_set());
    names.lemma_cardinality_of_set();
}

/// Whether `name` is one of `names`.
fn is_taken(names: &Vec<String>, name: &str) -> (r: bool)
    ensures
        r == names.deep_view().contains(name@),
{
    let wanted = chars_of(name);
    let mut i: usize = 0;
    while i < names.len()
        invariant
            i <= names.len(),
            wanted@ == name@,
            forall|k: int| 0 <= k < i ==> names.deep_view()[k] != name@,
        decreases names.len() - i,
    {
        if same_chars(&chars_of(names[i].as_str()), &wanted) {
            assert(names.deep_view()[i as int] == name@);
            return true;
        }
        i += 1;
    }
    false
}

/// The number of the next log file that `prefix` writes on the day `date`,
/// where the directory of the logs holds the files `names`: the least number
/// from 1 on whose file is not there.
pub fn next_log_number(prefix: &str, date: &str, names: &Vec<String>) -> (n: u64)
    requires
        names.len() < u64::MAX,
    ensures
        n >= 1,
        !names.deep_view().contains(log_name(prefix@, date@, n)),
        forall|k: u64| 1 <= k < n ==> names.deep_view().contains(log_name(prefix@, date@, k)),
{
    let mut n: u64 = 1;
    loop
        invariant_except_break
            1 <= n <= names.len() + 1,
            names.len() < u64::MAX,
            forall|k: u64|
                1 <= k < n ==> names.deep_view().contains(
                    #[trigger] log_name(prefix@, date@, k),
                ),
        ensures
            n >= 1,
            !names.deep_view().contains(log_name(prefix@, date@, n)),
            forall|k: u64|
                1 <= k < n ==> names.deep_view().contains(
                    #[trigger] log_name(prefix@, date@, k),
                ),
        decreases names.len() + 1 - n,
    {
        if !is_taken(names, log_file_name(prefix, date, n).as_str()) {
            break;
        }
        proof {
            assert forall|k: u64| 1 <= k <= n implies names.deep_view().contains(
                #[trigger] log_name(prefix@, date@, k),
            ) by {}
            lemma_numbers_need_names(prefix@, date@, names.deep_view(), n as nat);
        }
        n = n + 1;
    }
    n
}

} // verus!
