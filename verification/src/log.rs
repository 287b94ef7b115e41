//! Diagnostics of the scheduler, off unless asked for.
//!
//! The level comes from a setting of the operator:
//!
//! | Setting | Lines |
//! |---------|-------|
//! | none, empty, `0`, `off`, `false`, `no` | none |
//! | `debug`, `trace`, `2` | all |
//! | anything else | those of level info |

use vstd::prelude::*;

use crate::text::{dec, push_dec};
use crate::vm::native::str_eq;

verus! {

pub const OFF: u8 = 0;

pub const INFO: u8 = 1;

pub const DEBUG: u8 = 2;

/// An ASCII letter in lower case; any other character as it is.
pub open spec fn lower(c: char) -> char {
    if 'A' <= c && c <= 'Z' {
        ((c as u8) + 32) as char
    } else {
        c
    }
}

pub open spec fn lowered(s: Seq<char>) -> Seq<char> {
    s.map_values(|c: char| lower(c))
}

/// The characters with the Unicode property `White_Space`.
pub open spec fn white_space(c: char) -> bool {
    let n = c as u32;
    ||| 0x9 <= n <= 0xD
    ||| n == 0x20
    ||| n == 0x85
    ||| n == 0xA0
    ||| n == 0x1680
    ||| 0x2000 <= n <= 0x200A
    ||| n == 0x2028
    ||| n == 0x2029
    ||| n == 0x202F
    ||| n == 0x205F
    ||| n == 0x3000
}

/// A text without white space at its ends.
pub open spec fn trimmed(s: Seq<char>) -> Seq<char>
    decreases s.len(),
{
    if s.len() > 0 && white_space(s[0]) {
        trimmed(s.skip(1))
    } else if s.len() > 0 && white_space(s.last()) {
        trimmed(s.drop_last())
    } else {
        s
    }
}

/// `str::trim`: the text without white space at its ends, white space being
/// what has the Unicode property `White_Space`.
#[verifier::external_body]
fn trim(s: &str) -> (r: String)
    ensures
        r@ == trimmed(s@),
{
    s.trim().to_owned()
}

/// `str::to_ascii_lowercase`: the letters `A` to `Z` in lower case, every other
/// character as it is.
#[verifier::external_body]
fn to_lower(s: &str) -> (r: String)
    ensures
        r@ == lowered(s@),
{
    s.to_ascii_lowercase()
}

/// The level that a setting in lower case and without white space around it
/// stands for.
pub open spec fn level_named(token: Seq<char>) -> u8 {
    if token == ""@ || token == "0"@ || token == "off"@ || token == "false"@ || token == "no"@ {
        OFF
    } else if token == "debug"@ || token == "trace"@ || token == "2"@ {
        DEBUG
    } else {
        INFO
    }
}

pub fn level_of(token: &str) -> (level: u8)
    ensures
        level == level_named(token@),
{
    if str_eq(token, "") || str_eq(token, "0") || str_eq(token, "off") || str_eq(token, "false")
        || str_eq(token, "no") {
        OFF
    } else if str_eq(token, "debug") || str_eq(token, "trace") || str_eq(token, "2") {
        DEBUG
    } else {
        INFO
    }
}

/// The level of the diagnostics.
#[derive(Clone, Copy, Debug, PartialEq, Eq, Structural)]
pub struct Logger {
    pub level: u8,
}

impl Logger {
    /// The level that a setting asks for; silent without one.
    pub fn from_setting(setting: Option<&str>) -> (l: Logger)
        ensures
            l.level == (match setting {
                Some(s) => level_named(lowered(trimmed(s@))),
                None => OFF,
            }),
    {
        match setting {
            Some(s) => {
                let token = to_lower(trim(s).as_str());
                Logger { level: level_of(token.as_str()) }
            },
            None => Logger { level: OFF },
        }
    }
}

/// Set the level: 0 off, 1 info, 2 debug. Anything above is debug.
pub fn set_level_for_tests(log: &mut Logger, level: u8)
    ensures
        final(log).level == (if level > DEBUG {
            DEBUG
        } else {
            level
        }),
{
    log.level = if level > DEBUG {
        DEBUG
    } else {
        level
    };
}

/// A line with a time stamp in milliseconds.
pub open spec fn log_line(stamp_ms: u64, label: Seq<char>, msg: Seq<char>) -> Seq<char> {
    "["@ + dec(stamp_ms as nat) + "] byteflow "@ + label + " "@ + msg
}

fn line(stamp_ms: u64, label: &str, msg: &str) -> (s: String)
    ensures
        s@ == log_line(stamp_ms, label@, msg@),
{
    let mut s = String::from_str("[");
    push_dec(&mut s, stamp_ms);
    s.append("] byteflow ");
    s.append(label);
    s.append(" ");
    s.append(msg);
    s
}

/// The line to write for a message of level info, if it is to be written.
pub fn info(log: &Logger, stamp_ms: u64, msg: &str) -> (r: Option<String>)
    ensures
        r is Some <==> log.level >= INFO,
        r matches Some(s) ==> s@ == log_line(stamp_ms, "INFO "@, msg@),
{
    if log.level >= INFO {
        Some(line(stamp_ms, "INFO ", msg))
    } else {
        None
    }
}

/// The line to write for a message of level debug, if it is to be written.
pub fn debug(log: &Logger, stamp_ms: u64, msg: &str) -> (r: Option<String>)
    ensures
        r is Some <==> log.level >= DEBUG,
        r matches Some(s) ==> s@ == log_line(stamp_ms, "DEBUG"@, msg@),
{
    if log.level >= DEBUG {
        Some(line(stamp_ms, "DEBUG", msg))
    } else {
        None
    }
}

/// The text from `a` to `b` is all that white space does not surround.
pub open spec fn surrounds(s: Seq<char>, a: int, b: int) -> bool {
    &&& 0 <= a <= b <= s.len()
    &&& forall|k: int| 0 <= k < a ==> white_space(#[trigger] s[k])
    &&& forall|k: int| b <= k < s.len() ==> white_space(#[trigger] s[k])
    &&& a < b ==> !white_space(s[a]) && !white_space(s[b - 1])
}

/// Neither capitals nor white space around a setting matter: a capital stands for
/// its small letter and any other character for itself, and white space is taken
/// off both ends and from nowhere else.
pub proof fn settings_are_read_loosely(s: Seq<char>, i: int)
    ensures
        lowered(s).len() == s.len(),
        0 <= i < s.len() ==> {
            &&& 'A' as int <= s[i] as int <= 'Z' as int ==> lowered(s)[i] as int == s[i] as int
                + ('a' as int - 'A' as int)
            &&& !('A' as int <= s[i] as int <= 'Z' as int) ==> lowered(s)[i] == s[i]
        },
        exists|a: int, b: int| #[trigger] surrounds(s, a, b) && trimmed(s) == s.subrange(a, b),
        white_space(' ') && white_space('\t') && white_space('\n') && white_space('\r'),
        forall|c: char| #[trigger] white_space(c) ==> c as int <= 32 || c as int > 127,
{
    let (a, b) = trimming_keeps_the_middle(s);
    assert(surrounds(s, a, b));
}

proof fn trimming_keeps_the_middle(s: Seq<char>) -> (r: (int, int))
    ensures
        surrounds(s, r.0, r.1),
        trimmed(s) == s.subrange(r.0, r.1),
    decreases s.len(),
{
    if s.len() > 0 && white_space(s[0]) {
        let t = s.skip(1);
        let (a, b) = trimming_keeps_the_middle(t);
        assert(s.subrange(a + 1, b + 1) =~= t.subrange(a, b));
        assert forall|k: int| 0 <= k < a + 1 implies white_space(#[trigger] s[k]) by {
            if k > 0 {
                assert(t[k - 1] == s[k]);
            }
        }
        assert forall|k: int| b + 1 <= k < s.len() implies white_space(#[trigger] s[k]) by {
            assert(t[k - 1] == s[k]);
        }
        (a + 1, b + 1)
    } else if s.len() > 0 && white_space(s.last()) {
        let t = s.drop_last();
        let (a, b) = trimming_keeps_the_middle(t);
        assert(s.subrange(a, b) =~= t.subrange(a, b));
        assert forall|k: int| 0 <= k < a implies white_space(#[trigger] s[k]) by {
            assert(t[k] == s[k]);
        }
        assert forall|k: int| b <= k < s.len() implies white_space(#[trigger] s[k]) by {
            if k < t.len() {
                assert(t[k] == s[k]);
            }
        }
        (a, b)
    } else {
        assert(s.subrange(0, s.len() as int) =~= s);
        (0, s.len() as int)
    }
}

/// The words for silence silence the log, the words for more say more, and any
/// other word turns it on.
pub proof fn words_set_the_level(token: Seq<char>)
    ensures
        level_named(token) <= 2,
        level_named(token) == 0 <==> token =~= seq![] || token =~= seq!['0'] || token =~= seq![
            'o',
            'f',
            'f',
        ] || token =~= seq!['n', 'o'] || token =~= seq!['f', 'a', 'l', 's', 'e'],
        level_named(token) == 2 <==> token =~= seq!['2'] || token =~= seq![
            'd',
            'e',
            'b',
            'u',
            'g',
        ] || token =~= seq!['t', 'r', 'a', 'c', 'e'],
{
    reveal_strlit("");
    reveal_strlit("0");
    reveal_strlit("off");
    reveal_strlit("false");
    reveal_strlit("no");
    reveal_strlit("debug");
    reveal_strlit("trace");
    reveal_strlit("2");
    assert(""@ =~= seq![]);
    assert("0"@ =~= seq!['0']);
    assert("off"@ =~= seq!['o', 'f', 'f']);
    assert("no"@ =~= seq!['n', 'o']);
    assert("false"@ =~= seq!['f', 'a', 'l', 's', 'e']);
    assert("2"@ =~= seq!['2']);
    assert("debug"@ =~= seq!['d', 'e', 'b', 'u', 'g']);
    assert("trace"@ =~= seq!['t', 'r', 'a', 'c', 'e']);
    assert("false"@[0] == 'f' && "debug"@[0] == 'd' && "trace"@[0] == 't');
    assert("0"@[0] == '0' && "2"@[0] == '2');
}

} // verus!
