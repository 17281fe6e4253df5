//! Settings of the server, from its arguments and environment.

use crate::text::{bounded_decimal, decimal_value, parse_u16, same_text, strip_prefix};
use vstd::prelude::*;
use vstd::string::*;

verus! {

/// The port where none is set.
pub const DEFAULT_PORT: u16 = 47100;

/// The texts of a row of strings.
pub open spec fn texts(v: Seq<String>) -> Seq<Seq<char>> {
    Seq::new(v.len(), |i: int| v[i]@)
}

/// The text of an optional string.
pub open spec fn optional_text(v: Option<String>) -> Option<Seq<char>> {
    match v {
        Some(s) => Some(s@),
        None => None,
    }
}

/// A port that a text writes.
pub open spec fn port_value(s: Seq<char>) -> Option<nat> {
    bounded_decimal(s, u16::MAX as nat)
}

/// The port that the arguments set: the first `--port N` or `--port=N` whose `N`
/// is a port. What follows `--port` is its value, whatever it is.
pub open spec fn port_argument(args: Seq<Seq<char>>) -> Option<nat>
    decreases args.len(),
{
    if args.len() == 0 {
        None
    } else if args[0] == "--port"@ {
        if args.len() == 1 {
            None
        } else if port_value(args[1]) is Some {
            port_value(args[1])
        } else {
            port_argument(args.skip(2))
        }
    } else if "--port="@.is_prefix_of(args[0]) && port_value(
        args[0].skip("--port="@.len() as int),
    ) is Some {
        port_value(args[0].skip("--port="@.len() as int))
    } else {
        port_argument(args.skip(1))
    }
}

/// The port to listen on: that of the arguments, else that of the environment
/// variable, else the default.
pub open spec fn port_setting(args: Seq<Seq<char>>, var: Option<Seq<char>>) -> nat {
    if port_argument(args) is Some {
        port_argument(args)->0
    } else if var is Some && port_value(var->0) is Some {
        port_value(var->0)->0
    } else {
        DEFAULT_PORT as nat
    }
}

fn argument_port(args: &Vec<String>) -> (port: Option<u16>)
    ensures
        port is Some <==> port_argument(texts(args@)) is Some,
        port is Some ==> port->0 == port_argument(texts(args@))->0,
{
    let ghost all = texts(args@);
    let mut i: usize = 0;
    assert(all.skip(0) =~= all);
    while i < args.len()
        invariant
            all == texts(args@),
            i <= args@.len(),
            port_argument(all) == port_argument(all.skip(i as int)),
        decreases args@.len() - i,
    {
        let arg: &str = args[i].as_str();
        let ghost rest = all.skip(i as int);
        assert(rest[0] == arg@);
        assert(rest.skip(1) =~= all.skip(i + 1));
        if same_text(arg, "--port") {
            if i + 1 == args.len() {
                return None;
            }
            assert(rest[1] == args@[i + 1]@);
            assert(rest.skip(2) =~= all.skip(i + 2));
            match parse_u16(args[i + 1].as_str()) {
                Some(port) => return Some(port),
                None => {},
            }
            i = i + 2;
        } else {
            match strip_prefix(arg, "--port=") {
                Some(value) => match parse_u16(value.as_str()) {
                    Some(port) => return Some(port),
                    None => {},
                },
                None => {},
            }
            i = i + 1;
        }
    }
    assert(all.skip(i as int).len() == 0);
    None
}

/// The port to listen on. `args` are the program's arguments without its name,
/// `var` is what `CLAUDE_MONITOR_PORT` holds, if it is set.
pub fn resolve_port(args: &Vec<String>, var: &Option<String>) -> (port: u16)
    ensures
        port == port_setting(texts(args@), optional_text(*var)),
{
    match argument_port(args) {
        Some(port) => port,
        None => match var {
            Some(v) => match parse_u16(v.as_str()) {
                Some(port) => port,
                None => DEFAULT_PORT,
            },
            None => DEFAULT_PORT,
        },
    }
}

/// Whether a character has the Unicode property `White_Space`.
pub open spec fn is_white_space(c: char) -> bool {
    ||| '\u{9}' <= c <= '\u{d}'
    ||| c == ' '
    ||| c == '\u{85}'
    ||| c == '\u{a0}'
    ||| c == '\u{1680}'
    ||| '\u{2000}' <= c <= '\u{200a}'
    ||| c == '\u{2028}'
    ||| c == '\u{2029}'
    ||| c == '\u{202f}'
    ||| c == '\u{205f}'
    ||| c == '\u{3000}'
}

/// `char::is_whitespace` of std: true of the characters with the Unicode property
/// `White_Space`, and of no others.
pub assume_specification[ char::is_whitespace ](c: char) -> (b: bool)
    ensures
        b == is_white_space(c),
;

/// Whether a text holds nothing but white space.
pub open spec fn is_blank(s: Seq<char>) -> bool {
    forall|i: int| 0 <= i < s.len() ==> is_white_space(#[trigger] s[i])
}

/// Whether a text holds nothing but white space.
fn blank(s: &str) -> (b: bool)
    ensures
        b == is_blank(s@),
{
    let chars: Vec<char> = crate::text::to_chars(s);
    let mut i: usize = 0;
    while i < chars.len()
        invariant
            chars@ == s@,
            i <= chars@.len(),
            forall|j: int| 0 <= j < i ==> is_white_space(#[trigger] chars@[j]),
        decreases chars@.len() - i,
    {
        if !chars[i].is_whitespace() {
            assert(!is_white_space(s@[i as int]));
            return false;
        }
        i = i + 1;
    }
    true
}

/// The shell command to run when a session halts. `var` is what
/// `CLAUDE_MONITOR_SOUND` holds, if it is set; blank is as good as unset.
pub fn resolve_sound(var: Option<String>) -> (cmd: Option<String>)
    ensures
        match var {
            Some(v) => cmd == (if is_blank(v@) {
                None
            } else {
                Some(v)
            }),
            None => cmd is None,
        },
{
    match var {
        Some(v) => if blank(v.as_str()) {
            None
        } else {
            Some(v)
        },
        None => None,
    }
}

/// Whether reports are logged: with the argument `--log`, or with the variable
/// set to something that is not blank.
pub open spec fn log_setting(args: Seq<Seq<char>>, var: Option<Seq<char>>) -> bool {
    args.contains("--log"@) || (var is Some && !is_blank(var->0))
}

/// Whether to log each report. `args` are the program's arguments without its
/// name, `var` is what `CLAUDE_MONITOR_LOG` holds, if it is set.
pub fn resolve_log(args: &Vec<String>, var: &Option<String>) -> (log: bool)
    ensures
        log == log_setting(texts(args@), optional_text(*var)),
{
    let ghost all = texts(args@);
    let mut i: usize = 0;
    while i < args.len()
        invariant
            all == texts(args@),
            i <= args@.len(),
            forall|j: int| 0 <= j < i ==> #[trigger] all[j] != "--log"@,
        decreases args@.len() - i,
    {
        assert(all[i as int] == args@[i as int]@);
        if same_text(args[i].as_str(), "--log") {
            return true;
        }
        i = i + 1;
    }
    assert(!all.contains("--log"@));
    match var {
        Some(v) => !blank(v.as_str()),
        None => false,
    }
}

/// A port on the command line wins over the environment, the environment over the
/// default.
pub proof fn law_port_precedence(args: Seq<Seq<char>>, var: Option<Seq<char>>)
    ensures
        port_argument(args) is Some ==> port_setting(args, var) == port_argument(args)->0,
        port_argument(args) is None && var is Some && port_value(var->0) is Some ==> port_setting(
            args,
            var,
        ) == port_value(var->0)->0,
        port_argument(args) is None && (var is None || port_value(var->0) is None) ==> port_setting(
            args,
            var,
        ) == 47100,
{
}

/// `--port N` and `--port=N` set the same port.
pub proof fn law_port_spellings(value: Seq<char>, rest: Seq<Seq<char>>)
    requires
        port_value(value) is Some,
    ensures
        port_argument(seq!["--port"@, value] + rest) == port_value(value),
        port_argument(seq!["--port="@ + value] + rest) == port_value(value),
{
    reveal_strlit("--port");
    reveal_strlit("--port=");
    let joined = "--port="@ + value;
    assert(joined.skip("--port="@.len() as int) =~= value);
    assert("--port="@.is_prefix_of(joined));
    assert(joined[6] == '=');
    assert(joined != "--port"@);
    let split = seq!["--port"@, value] + rest;
    assert(split[0] == "--port"@ && split[1] == value);
    assert((seq![joined] + rest)[0] == joined);
}

/// A text with a visible ASCII character in it is not blank: a command with a word
/// in it is never taken for unset.
pub proof fn law_visible_text_not_blank(s: Seq<char>, i: int)
    requires
        0 <= i < s.len(),
        '!' <= s[i] <= '~',
    ensures
        !is_blank(s),
{
    assert(!is_white_space(s[i]));
}

/// The texts of strings are theirs, one for one.
pub proof fn law_texts_one_for_one(v: Seq<String>, o: Option<String>)
    ensures
        texts(v).len() == v.len(),
        forall|i: int| 0 <= i < v.len() ==> #[trigger] texts(v)[i] == v[i]@,
        o is None <==> optional_text(o) is None,
        o is Some ==> optional_text(o)->0 == o->0@,
{
}

/// How the arguments are read, from the front: what is not about the port is passed
/// over; a port, in either spelling, is taken; a value that is no port is used up;
/// `--port` at the end sets nothing.
pub proof fn law_port_read_from_the_front(arg: Seq<char>, value: Seq<char>, rest: Seq<Seq<char>>)
    ensures
        port_argument(Seq::empty()) is None,
        port_argument(seq!["--port"@]) is None,
        arg != "--port"@ && !"--port="@.is_prefix_of(arg) ==> port_argument(seq![arg] + rest)
            == port_argument(rest),
        decimal_value(value) is Some && decimal_value(value)->0 <= 65535 ==> port_argument(
            seq!["--port"@, value] + rest,
        ) == decimal_value(value) && port_argument(seq!["--port="@ + value] + rest)
            == decimal_value(value),
        !(decimal_value(value) is Some && decimal_value(value)->0 <= 65535) ==> port_argument(
            seq!["--port"@, value] + rest,
        ) == port_argument(rest) && port_argument(seq!["--port="@ + value] + rest)
            == port_argument(rest),
{
    reveal_strlit("--port");
    reveal_strlit("--port=");
    let joined = "--port="@ + value;
    assert(joined.skip("--port="@.len() as int) =~= value);
    assert("--port="@ =~= joined.subrange(0, "--port="@.len() as int));
    assert("--port="@.is_prefix_of(joined));
    assert(joined.len() >= 7);
    assert("--port"@.len() == 6);
    assert(joined != "--port"@);
    let split = seq!["--port"@, value] + rest;
    assert(split[0] == "--port"@ && split[1] == value);
    assert(split.skip(2) =~= rest);
    assert((seq![joined] + rest)[0] == joined);
    assert((seq![joined] + rest).skip(1) =~= rest);
    assert((seq![arg] + rest)[0] == arg);
    assert((seq![arg] + rest).skip(1) =~= rest);
}

/// The port of the environment counts where the arguments set none, and 47100
/// where it is no port either.
pub proof fn law_port_of_the_environment(args: Seq<Seq<char>>, var: Seq<char>)
    requires
        port_argument(args) is None,
    ensures
        port_setting(args, Some(var)) == (if decimal_value(var) is Some && decimal_value(var)->0
            <= 65535 {
            decimal_value(var)->0
        } else {
            47100
        }),
        port_setting(args, None) == 47100,
{
}

/// The characters that are white space.
pub proof fn law_white_space(c: char)
    ensures
        is_white_space(c) <==> {
            let n = c as int;
            ||| 9 <= n <= 13
            ||| n == 32
            ||| n == 133
            ||| n == 160
            ||| n == 5760
            ||| 8192 <= n <= 8202
            ||| n == 8232
            ||| n == 8233
            ||| n == 8239
            ||| n == 8287
            ||| n == 12288
        },
{
}

/// A text is blank exactly when every character of it is white space.
pub proof fn law_blank_is_all_white_space(s: Seq<char>)
    ensures
        is_blank(s) <==> forall|i: int| 0 <= i < s.len() ==> is_white_space(#[trigger] s[i]),
{
}

/// The log is on with `--log` anywhere among the arguments, or with a variable that
/// holds something, and off otherwise.
pub proof fn law_log_on_request_only(args: Seq<Seq<char>>, var: Option<Seq<char>>)
    ensures
        log_setting(args, var) <==> {
            ||| exists|i: int| 0 <= i < args.len() && #[trigger] args[i] == "--log"@
            ||| var is Some && exists|i: int|
                0 <= i < var->0.len() && !is_white_space(#[trigger] var->0[i])
        },
{
}

} // verus!
