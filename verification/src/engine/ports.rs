//! The ports of serve commands: written into their arguments, read from their
//! output.

use vstd::prelude::*;
use vstd::string::*;

use crate::manifest::Cmd;
use crate::text::{
    cat3, chars_of, cut, dec, decimal, digit_char, find, find_from, has, is_digit, lowercase,
    lowered, matches_at, occurs, owned, parse_uint, parsed, rfind, rfind_from, same, slice_text,
    split_once, texts,
};

verus! {

/// Whether the argument is a flag that takes the port of a server.
pub open spec fn is_port_flag(flag: Seq<char>) -> bool {
    flag == "--port"@ || flag == "-p"@ || flag == "--listen-port"@ || flag == "--http-port"@ || flag
        == "--server-port"@ || flag == "--serve-port"@ || flag == "--web-port"@
}

/// Whether the argument is a flag that takes the port of a server.
pub fn is_serve_port_flag(flag: &str) -> (r: bool)
    ensures
        r == is_port_flag(flag@),
{
    same(flag, "--port") || same(flag, "-p") || same(flag, "--listen-port") || same(
        flag,
        "--http-port",
    ) || same(flag, "--server-port") || same(flag, "--serve-port") || same(flag, "--web-port")
}

/// Whether the text is the number of a port.
pub open spec fn is_port_number(value: Seq<char>) -> bool {
    parsed(value, 65535) is Some && parsed(value, 65535) != Some(0nat)
}

/// Whether the text is the number of a port.
pub fn is_numeric_port(value: &str) -> (r: bool)
    ensures
        r == is_port_number(value@),
{
    match parse_uint(value, 65535) {
        Some(port) => port != 0,
        None => false,
    }
}

/// The arguments from index `i` on with their port numbers made `port`, and
/// whether there were any. Numbers stand behind a flag, as an argument of their
/// own or joined to it by an equals sign.
pub open spec fn ports_rewritten(args: Seq<Seq<char>>, port: Seq<char>, i: int) -> (
    Seq<Seq<char>>,
    bool,
)
    decreases args.len() - i,
{
    if i < 0 || i >= args.len() {
        (args, false)
    } else {
        match split_once(args[i], "="@) {
            Some((flag, value)) => if is_port_flag(flag) && is_port_number(value) {
                (ports_rewritten(args.update(i, flag + "="@ + port), port, i + 1).0, true)
            } else {
                ports_rewritten(args, port, i + 1)
            },
            None => if is_port_flag(args[i]) && i + 1 < args.len() && is_port_number(args[i + 1]) {
                (ports_rewritten(args.update(i + 1, port), port, i + 2).0, true)
            } else {
                ports_rewritten(args, port, i + 1)
            },
        }
    }
}

/// Makes the port numbers behind flags the given one; returns whether there were
/// any.
pub fn rewrite_argv_port_args(argv: &mut Vec<String>, port: u16) -> (r: bool)
    ensures
        (texts(final(argv)@), r) == ports_rewritten(texts(old(argv)@), dec(port as nat), 0),
{
    let text: String = decimal(port as u64);
    let mut changed = false;
    let mut i: usize = 0;
    let ghost goal = ports_rewritten(texts(argv@), text@, 0);
    while i < argv.len()
        invariant
            i <= argv@.len(),
            text@ == dec(port as nat),
            goal == ports_rewritten(texts(old(argv)@), text@, 0),
            goal.0 == ports_rewritten(texts(argv@), text@, i as int).0,
            goal.1 == (changed || ports_rewritten(texts(argv@), text@, i as int).1),
        decreases argv@.len() - i,
    {
        let ghost before = texts(argv@);
        assert(before[i as int] == argv@[i as int]@);
        match cut(argv[i].as_str(), "=") {
            Some((flag, value)) => {
                if is_serve_port_flag(flag.as_str()) && is_numeric_port(value.as_str()) {
                    let item = cat3(flag.as_str(), "=", text.as_str());
                    argv.set(i, item);
                    assert(texts(argv@) =~= before.update(i as int, item@));
                    changed = true;
                }
            },
            None => {
                if is_serve_port_flag(argv[i].as_str()) && i + 1 < argv.len() {
                    assert(before[i + 1] == argv@[i + 1]@);
                    if is_numeric_port(argv[i + 1].as_str()) {
                        argv.set(i + 1, text.clone());
                        assert(texts(argv@) =~= before.update(i + 1, text@));
                        changed = true;
                        i += 1;
                    }
                }
            },
        }
        i += 1;
    }
    changed
}

/// What stands behind the last slash.
pub open spec fn base_name(s: Seq<char>) -> Seq<char> {
    match rfind_from(s, "/"@, s.len() as int) {
        Some(i) => s.skip(i + 1),
        None => s,
    }
}

/// What stands behind the last slash.
pub fn base_name_of(s: &str) -> (r: String)
    ensures
        r@ == base_name(s@),
{
    let cs = chars_of(s);
    proof {
        reveal_strlit("/");
    }
    match rfind(&cs, &chars_of("/")) {
        Some(i) => {
            assert(matches_at(s@, "/"@, i as int));
            assert(i + 1 <= cs.len());
            assert(cs@.subrange(i + 1, cs@.len() as int) =~= cs@.skip(i + 1));
            slice_text(&cs, i + 1, cs.len())
        },
        None => owned(s),
    }
}

/// Whether the arguments run a command line through a shell.
pub open spec fn runs_shell(args: Seq<Seq<char>>) -> bool {
    &&& args.len() > 2
    &&& base_name(args[0]) == "sh"@ || base_name(args[0]) == "bash"@ || base_name(args[0])
        == "zsh"@
    &&& args[1] == "-c"@ || args[1] == "-lc"@
}

/// The index of the command line, where the arguments run one through a shell.
pub fn shell_command_index(argv: &Vec<String>) -> (r: Option<usize>)
    ensures
        r == (if runs_shell(texts(argv@)) {
            Some(2usize)
        } else {
            None
        }),
{
    if argv.len() <= 2 {
        return None;
    }
    assert(texts(argv@)[0] == argv@[0]@);
    assert(texts(argv@)[1] == argv@[1]@);
    let shell = base_name_of(argv[0].as_str());
    let flag = argv[1].as_str();
    if (same(shell.as_str(), "sh") || same(shell.as_str(), "bash") || same(shell.as_str(), "zsh"))
        && (same(flag, "-c") || same(flag, "-lc")) {
        Some(2)
    } else {
        None
    }
}

/// What `regex::Regex::new` and `Regex::replace_all` make of a pattern, a text and
/// a replacement: the text with every match replaced, nothing where the pattern is
/// not a regular expression.
pub uninterp spec fn regex_replaced(
    pattern: Seq<char>,
    text: Seq<char>,
    replacement: Seq<char>,
) -> Option<Seq<char>>;

/// `regex::Regex::new` on the pattern, then `Regex::replace_all` on the text with
/// the replacement. Nothing is said of the syntax of either.
#[verifier::external_body]
fn regex_replace_all(pattern: &str, text: &str, replacement: &str) -> (r: Option<String>)
    ensures
        match r {
            Some(s) => regex_replaced(pattern@, text@, replacement@) == Some(s@),
            None => regex_replaced(pattern@, text@, replacement@) is None,
        },
{
    match regex::Regex::new(pattern) {
        Ok(re) => Some(re.replace_all(text, replacement).into_owned()),
        Err(_) => None,
    }
}

/// The pattern of a flag and a port number joined by an equals sign.
pub open spec fn equals_pattern() -> Seq<char> {
    "(?P<flag>(?:--(?:port|listen-port|http-port|server-port|serve-port|web-port)|-p)=)(?P<port>[1-9][0-9]{1,4})(?P<end>\\b)"@
}

/// The pattern of a flag and a port number with white space between them.
pub open spec fn separated_pattern() -> Seq<char> {
    "(?P<flag>(?:--(?:port|listen-port|http-port|server-port|serve-port|web-port)|-p))(?P<sep>\\s+)(?P<port>[1-9][0-9]{1,4})(?P<end>\\s|$)"@
}

/// A command line with its port numbers replaced: first those behind an equals
/// sign, then those behind white space.
pub open spec fn shell_replaced(command: Seq<char>, port: Seq<char>) -> Option<Seq<char>> {
    match regex_replaced(equals_pattern(), command, "${flag}"@ + port + "${end}"@) {
        Some(s) => regex_replaced(
            separated_pattern(),
            s,
            "${flag}${sep}"@ + port + "${end}"@,
        ),
        None => None,
    }
}

/// The text where it differs from the one that it was made of.
pub fn if_changed(before: &str, after: Option<String>) -> (r: Option<String>)
    ensures
        r == (match after {
            Some(s) => if s@ != before@ {
                Some(s)
            } else {
                None
            },
            None => None,
        }),
{
    match after {
        Some(s) => if same(s.as_str(), before) {
            None
        } else {
            Some(s)
        },
        None => None,
    }
}

/// A command line with its port numbers made the given one, where it has any that
/// differ.
pub fn rewrite_shell_port_args(command: &str, port: u16) -> (r: Option<String>)
    ensures
        match shell_replaced(command@, dec(port as nat)) {
            Some(s) => if s != command@ {
                r is Some && r->0@ == s
            } else {
                r is None
            },
            None => r is None,
        },
{
    let text = decimal(port as u64);
    let after = match regex_replace_all(
        "(?P<flag>(?:--(?:port|listen-port|http-port|server-port|serve-port|web-port)|-p)=)(?P<port>[1-9][0-9]{1,4})(?P<end>\\b)",
        command,
        cat3("${flag}", text.as_str(), "${end}").as_str(),
    ) {
        Some(s) => regex_replace_all(
            "(?P<flag>(?:--(?:port|listen-port|http-port|server-port|serve-port|web-port)|-p))(?P<sep>\\s+)(?P<port>[1-9][0-9]{1,4})(?P<end>\\s|$)",
            s.as_str(),
            cat3("${flag}${sep}", text.as_str(), "${end}").as_str(),
        ),
        None => None,
    };
    if_changed(command, after)
}

/// What becomes of the arguments of a serve command when its port is given: in a
/// shell's command line and in plain arguments alike, the port numbers behind
/// flags are replaced.
pub open spec fn serve_rewritten(args: Seq<Seq<char>>, port: Seq<char>) -> (Seq<Seq<char>>, bool) {
    if runs_shell(args) {
        match shell_replaced(args[2], port) {
            Some(s) => if s != args[2] {
                (args.update(2, s), true)
            } else {
                (args, false)
            },
            None => (args, false),
        }
    } else {
        ports_rewritten(args, port, 0)
    }
}

/// Makes the port numbers in the arguments of a serve command the given one;
/// returns whether there were any.
pub fn rewrite_serve_cmd_port_args(cmd: &mut Cmd, port: u16) -> (r: bool)
    ensures
        (texts(final(cmd).argv@), r) == serve_rewritten(texts(old(cmd).argv@), dec(port as nat)),
        final(cmd).workdir == old(cmd).workdir,
        final(cmd).env == old(cmd).env,
{
    if let Some(i) = shell_command_index(&cmd.argv) {
        let ghost before = texts(cmd.argv@);
        assert(before[2] == cmd.argv@[2]@);
        match rewrite_shell_port_args(cmd.argv[i].as_str(), port) {
            Some(s) => {
                let ghost new = s@;
                cmd.argv.set(i, s);
                assert(texts(cmd.argv@) =~= before.update(2, new));
                return true;
            },
            None => {
                return false;
            },
        }
    }
    rewrite_argv_port_args(&mut cmd.argv, port)
}

/// The index behind the digits that stand from index `i` on.
pub open spec fn digits_end(s: Seq<char>, i: int) -> int
    decreases s.len() - i,
{
    if 0 <= i < s.len() && is_digit(s[i]) {
        digits_end(s, i + 1)
    } else {
        i
    }
}

/// The port whose number stands at an index.
pub open spec fn port_at(s: Seq<char>, start: int) -> Option<u16> {
    let end = digits_end(s, start);
    if end == start {
        None
    } else {
        match parsed(s.subrange(start, end), 65535) {
            Some(n) => if n == 0 {
                None
            } else {
                Some(n as u16)
            },
            None => None,
        }
    }
}

/// The port whose number stands at an index; nothing behind the end.
pub fn parse_port_at(line: &Vec<char>, start: usize) -> (r: Option<u16>)
    ensures
        r == port_at(line@, start as int),
{
    if start >= line.len() {
        return None;
    }
    let mut end: usize = start;
    while end < line.len() && digit_char(line[end])
        invariant
            start <= end <= line@.len(),
            digits_end(line@, start as int) == digits_end(line@, end as int),
        decreases line@.len() - end,
    {
        end += 1;
    }
    if end == start {
        return None;
    }
    match parse_uint(slice_text(line, start, end).as_str(), 65535) {
        Some(n) => if n == 0 {
            None
        } else {
            Some(n as u16)
        },
        None => None,
    }
}

/// The port whose number stands behind the first occurrence of the prefix, not
/// before `from`, that has one behind it.
pub open spec fn port_after(s: Seq<char>, prefix: Seq<char>, from: int) -> Option<u16>
    decreases s.len() - from,
{
    match find_from(s, prefix, from) {
        Some(i) => if prefix.len() > 0 && from <= i && i + prefix.len() <= s.len() {
            match port_at(s, i + prefix.len()) {
                Some(p) => Some(p),
                None => port_after(s, prefix, i + prefix.len()),
            }
        } else {
            None
        },
        None => None,
    }
}

/// The port whose number stands behind the first occurrence of the prefix that has
/// one behind it.
pub fn find_port_after(line: &Vec<char>, prefix: &str) -> (r: Option<u16>)
    requires
        prefix@.len() > 0,
    ensures
        r == port_after(line@, prefix@, 0),
{
    let p = chars_of(prefix);
    let mut from: usize = 0;
    loop
        invariant
            from <= line.len(),
            p@ == prefix@,
            p@.len() > 0,
            port_after(line@, prefix@, 0) == port_after(line@, prefix@, from as int),
        decreases line@.len() - from,
    {
        match find(line, &p, from) {
            Some(i) => {
                assert(i + p.len() <= line.len());
                let start: usize = i + p.len();
                if let Some(port) = parse_port_at(line, start) {
                    return Some(port);
                }
                from = start;
            },
            None => {
                return None;
            },
        }
    }
}

/// Whether a line of output speaks of a server that listens.
pub open spec fn speaks_of_listening(s: Seq<char>) -> bool {
    occurs(s, "listen"@) || occurs(s, "serving"@) || occurs(s, "running"@) || occurs(s, "ready"@)
        || occurs(s, "local:"@) || occurs(s, "started"@)
}

/// The first of two ports that there is.
pub open spec fn or_else(a: Option<u16>, b: Option<u16>) -> Option<u16> {
    match a {
        Some(p) => Some(p),
        None => b,
    }
}

/// The local port that a line of output says is listened on: that of a local URL,
/// or that of a local address where the line speaks of a server that listens.
pub open spec fn listen_port(line: Seq<char>) -> Option<u16> {
    let s = lowercase(line);
    let url = or_else(
        port_after(s, "http://127.0.0.1:"@, 0),
        or_else(
            port_after(s, "http://localhost:"@, 0),
            or_else(
                port_after(s, "https://127.0.0.1:"@, 0),
                port_after(s, "https://localhost:"@, 0),
            ),
        ),
    );
    if url is Some {
        url
    } else if speaks_of_listening(s) {
        or_else(port_after(s, "127.0.0.1:"@, 0), port_after(s, "localhost:"@, 0))
    } else {
        None
    }
}

/// The local port that a line of output says is listened on.
pub fn detect_local_listen_port(line: &str) -> (r: Option<u16>)
    ensures
        r == listen_port(line@),
{
    let lower = lowered(line);
    let cs = chars_of(lower.as_str());
    proof {
        reveal_strlit("http://127.0.0.1:");
        reveal_strlit("http://localhost:");
        reveal_strlit("https://127.0.0.1:");
        reveal_strlit("https://localhost:");
        reveal_strlit("127.0.0.1:");
        reveal_strlit("localhost:");
    }
    if let Some(p) = find_port_after(&cs, "http://127.0.0.1:") {
        return Some(p);
    }
    if let Some(p) = find_port_after(&cs, "http://localhost:") {
        return Some(p);
    }
    if let Some(p) = find_port_after(&cs, "https://127.0.0.1:") {
        return Some(p);
    }
    if let Some(p) = find_port_after(&cs, "https://localhost:") {
        return Some(p);
    }
    let s = lower.as_str();
    if !(has(s, "listen") || has(s, "serving") || has(s, "running") || has(s, "ready") || has(
        s,
        "local:",
    ) || has(s, "started")) {
        return None;
    }
    match find_port_after(&cs, "127.0.0.1:") {
        Some(p) => Some(p),
        None => find_port_after(&cs, "localhost:"),
    }
}

/// Putting a port into plain arguments keeps their number, and changes none of them
/// where there was no port number.
pub proof fn rewriting_keeps_arguments(args: Seq<Seq<char>>, port: Seq<char>, i: int)
    requires
        0 <= i,
    ensures
        ports_rewritten(args, port, i).0.len() == args.len(),
        !ports_rewritten(args, port, i).1 ==> ports_rewritten(args, port, i).0 == args,
        forall|k: int|
            0 <= k < i && k < args.len() ==> #[trigger] ports_rewritten(args, port, i).0[k]
                == args[k],
    decreases args.len() - i,
{
    if i < args.len() {
        match split_once(args[i], "="@) {
            Some((flag, value)) => {
                if is_port_flag(flag) && is_port_number(value) {
                    rewriting_keeps_arguments(args.update(i, flag + "="@ + port), port, i + 1);
                } else {
                    rewriting_keeps_arguments(args, port, i + 1);
                }
            },
            None => {
                if is_port_flag(args[i]) && i + 1 < args.len() && is_port_number(args[i + 1]) {
                    rewriting_keeps_arguments(args.update(i + 1, port), port, i + 2);
                } else {
                    rewriting_keeps_arguments(args, port, i + 1);
                }
            },
        }
    }
}

} // verus!
