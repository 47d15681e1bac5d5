//! What giving a server a port does to its arguments, whatever they are.

use vstd::prelude::*;
use vstd::string::*;

use crate::engine::ports::{
    base_name, ports_rewritten, regex_replaced, rewriting_keeps_arguments, serve_rewritten,
};
use crate::text::{dec, dec_is_digits, is_digit, parsed, parsed_dec, rfind_from, split_once};
use crate::text_laws::{before_first, char_at, first_char, lacks};

verus! {

/// Whether a text is one of the flags that take the port of a server.
pub open spec fn server_flag(s: Seq<char>) -> bool {
    s == "--port"@ || s == "-p"@ || s == "--listen-port"@ || s == "--http-port"@ || s
        == "--server-port"@ || s == "--serve-port"@ || s == "--web-port"@
}

/// Whether a text is the number of a port, which is not zero and fits in 16 bits.
pub open spec fn names_port(s: Seq<char>) -> bool {
    parsed(s, 65535) matches Some(n) && 1 <= n <= 65535
}

/// Whether an argument is a flag, an equals sign and the number of a port.
pub open spec fn joined_port(arg: Seq<char>, flag: Seq<char>, number: Seq<char>) -> bool {
    server_flag(flag) && names_port(number) && arg == flag + "="@ + number
}

/// Whether an argument is the number of a port and the one before it a flag.
pub open spec fn behind_flag(args: Seq<Seq<char>>, k: int) -> bool {
    0 < k < args.len() && server_flag(args[k - 1]) && names_port(args[k])
}

/// A flag starts with a hyphen and has no equals sign.
proof fn flag_shape(s: Seq<char>)
    requires
        server_flag(s),
    ensures
        s.len() > 0,
        s[0] == '-',
        lacks(s, '='),
{
    reveal_strlit("--port");
    reveal_strlit("-p");
    reveal_strlit("--listen-port");
    reveal_strlit("--http-port");
    reveal_strlit("--server-port");
    reveal_strlit("--serve-port");
    reveal_strlit("--web-port");
}

/// The number of a port has no equals sign and starts with no hyphen.
proof fn number_shape(s: Seq<char>)
    requires
        names_port(s),
    ensures
        s.len() > 0,
        s[0] != '-',
        lacks(s, '='),
        !server_flag(s),
{
    let t = if s[0] == '+' {
        s.drop_first()
    } else {
        s
    };
    assert forall|i: int| 0 <= i < s.len() implies #[trigger] s[i] != '=' by {
        if s[0] == '+' {
            if i > 0 {
                assert(t[i - 1] == s[i]);
            }
        } else {
            assert(t[i] == s[i]);
        }
    }
    assert(t[0] == (if s[0] == '+' {
        s[1]
    } else {
        s[0]
    }));
    if server_flag(s) {
        flag_shape(s);
    }
}

/// An argument of a flag, an equals sign and a number falls into the two at the equals
/// sign.
proof fn joined_cut(arg: Seq<char>, flag: Seq<char>, number: Seq<char>)
    requires
        joined_port(arg, flag, number),
    ensures
        split_once(arg, "="@) == Some((flag, number)),
        !lacks(arg, '='),
{
    reveal_strlit("=");
    flag_shape(flag);
    assert("="@ =~= seq!['=']);
    first_char(flag, '=', number, 0);
    assert(arg.take(flag.len() as int) =~= flag);
    assert(arg.skip((flag.len() + 1) as int) =~= number);
    assert(arg[flag.len() as int] == '=');
}

/// An argument that falls in two at an equals sign is those two with it between them.
proof fn cut_joined(arg: Seq<char>)
    ensures
        match split_once(arg, "="@) {
            Some((a, b)) => arg == a + "="@ + b && !lacks(arg, '='),
            None => lacks(arg, '='),
        },
{
    reveal_strlit("=");
    assert("="@ =~= seq!['=']);
    before_first(arg, '=');
}

/// What becomes of the argument at an index.
spec fn argument_after(args: Seq<Seq<char>>, port: Seq<char>, k: int, after: Seq<char>) -> bool {
    &&& forall|flag: Seq<char>, number: Seq<char>| #[trigger]
        joined_port(args[k], flag, number) ==> after == flag + "="@ + port
    &&& behind_flag(args, k) ==> after == port
    &&& (!behind_flag(args, k) && !(exists|flag: Seq<char>, number: Seq<char>| #[trigger]
        joined_port(args[k], flag, number))) ==> after == args[k]
}

/// An argument that is neither joined to a port nor one itself is kept.
proof fn stays(args: Seq<Seq<char>>, port: Seq<char>, k: int)
    requires
        0 <= k < args.len(),
        !behind_flag(args, k),
        match split_once(args[k], "="@) {
            Some((a, b)) => !(server_flag(a) && names_port(b)),
            None => true,
        },
    ensures
        argument_after(args, port, k, args[k]),
        forall|flag: Seq<char>, number: Seq<char>| !#[trigger] joined_port(args[k], flag, number),
{
    assert forall|flag: Seq<char>, number: Seq<char>| !#[trigger] joined_port(
        args[k],
        flag,
        number,
    ) by {
        if joined_port(args[k], flag, number) {
            joined_cut(args[k], flag, number);
        }
    }
}

/// What becomes of the arguments from an index on.
#[verifier::rlimit(40)]
proof fn arguments_after(args: Seq<Seq<char>>, port: Seq<char>, i: int)
    requires
        0 <= i,
        !server_flag(port),
        !behind_flag(args, i),
    ensures
        ports_rewritten(args, port, i).0.len() == args.len(),
        forall|k: int|
            i <= k < args.len() ==> argument_after(
                args,
                port,
                k,
                #[trigger] ports_rewritten(args, port, i).0[k],
            ),
        ports_rewritten(args, port, i).1 <==> exists|k: int|
            i <= k < args.len() && (#[trigger] behind_flag(args, k) || exists|
                flag: Seq<char>,
                number: Seq<char>,
            | #[trigger] joined_port(args[k], flag, number)),
    decreases args.len() - i,
{
    let r = ports_rewritten(args, port, i);
    rewriting_keeps_arguments(args, port, i);
    if i < args.len() {
        cut_joined(args[i]);
        match split_once(args[i], "="@) {
            Some((flag, value)) => {
                if names_port(args[i]) {
                    number_shape(args[i]);
                }
                if server_flag(args[i]) {
                    flag_shape(args[i]);
                }
                if server_flag(flag) && names_port(value) {
                    let item = flag + "="@ + port;
                    let next = args.update(i, item);
                    reveal_strlit("=");
                    assert(item[flag.len() as int] == '=');
                    if server_flag(item) {
                        flag_shape(item);
                    }
                    rewriting_keeps_arguments(next, port, i + 1);
                    arguments_after(next, port, i + 1);
                    assert(r.0[i] == item);
                    assert(joined_port(args[i], flag, value));
                    assert forall|f: Seq<char>, n: Seq<char>| #[trigger]
                        joined_port(args[i], f, n) implies item == f + "="@ + port by {
                        joined_cut(args[i], f, n);
                    }
                    assert(argument_after(args, port, i, item));
                    assert forall|k: int| i < k < args.len() implies argument_after(
                        args,
                        port,
                        k,
                        #[trigger] r.0[k],
                    ) by {
                        assert(next[k] == args[k]);
                        assert(behind_flag(next, k) == behind_flag(args, k));
                    }
                    assert(!behind_flag(args, i));
                } else {
                    arguments_after(args, port, i + 1);
                    stays(args, port, i);
                    rewriting_keeps_arguments(args, port, i + 1);
                    assert(r.0[i] == args[i]);
                    if r.1 {
                        let k = choose|k: int|
                            i + 1 <= k < args.len() && (#[trigger] behind_flag(args, k) || exists|
                                flag: Seq<char>,
                                number: Seq<char>,
                            | #[trigger] joined_port(args[k], flag, number));
                        assert(behind_flag(args, k) || !behind_flag(args, k));
                    }
                }
            },
            None => {
                if server_flag(args[i]) && i + 1 < args.len() && names_port(args[i + 1]) {
                    let next = args.update(i + 1, port);
                    number_shape(args[i + 1]);
                    rewriting_keeps_arguments(next, port, i + 2);
                    arguments_after(next, port, i + 2);
                    stays(args, port, i);
                    assert(r.0[i] == args[i]);
                    assert(r.0[i + 1] == port);
                    assert(behind_flag(args, i + 1));
                    assert forall|f: Seq<char>, n: Seq<char>| !#[trigger] joined_port(
                        args[i + 1],
                        f,
                        n,
                    ) by {
                        if joined_port(args[i + 1], f, n) {
                            joined_cut(args[i + 1], f, n);
                        }
                    }
                    assert forall|k: int| i + 1 < k < args.len() implies argument_after(
                        args,
                        port,
                        k,
                        #[trigger] r.0[k],
                    ) by {
                        assert(next[k] == args[k]);
                        assert(behind_flag(next, k) == behind_flag(args, k));
                    }
                } else {
                    arguments_after(args, port, i + 1);
                    stays(args, port, i);
                    rewriting_keeps_arguments(args, port, i + 1);
                    assert(r.0[i] == args[i]);
                    if r.1 {
                        let k = choose|k: int|
                            i + 1 <= k < args.len() && (#[trigger] behind_flag(args, k) || exists|
                                flag: Seq<char>,
                                number: Seq<char>,
                            | #[trigger] joined_port(args[k], flag, number));
                        assert(behind_flag(args, k) || !behind_flag(args, k));
                    }
                }
            },
        }
    }
}

/// Decimal digits are no flag.
proof fn digits_no_flag(p: nat)
    ensures
        !server_flag(dec(p)),
{
    dec_is_digits(p);
    if server_flag(dec(p)) {
        flag_shape(dec(p));
    }
}

/// Every argument that is a flag, an equals sign and the number of a port becomes the
/// flag, an equals sign and the given port; every number of a port that is an argument
/// behind a flag becomes the given port. Either way the arguments count as rewritten.
pub proof fn port_given(
    args: Seq<Seq<char>>,
    p: u16,
    k: int,
    flag: Seq<char>,
    number: Seq<char>,
)
    requires
        0 <= k < args.len(),
        flag == "--port"@ || flag == "-p"@ || flag == "--listen-port"@ || flag == "--http-port"@
            || flag == "--server-port"@ || flag == "--serve-port"@ || flag == "--web-port"@,
        parsed(number, 65535) matches Some(n) && 1 <= n <= 65535,
    ensures
        args[k] == flag + "="@ + number ==> {
            &&& ports_rewritten(args, dec(p as nat), 0).0[k] == flag + "="@ + dec(p as nat)
            &&& ports_rewritten(args, dec(p as nat), 0).1
        },
        args[k] == flag && k + 1 < args.len() && args[k + 1] == number ==> {
            &&& ports_rewritten(args, dec(p as nat), 0).0[k] == flag
            &&& ports_rewritten(args, dec(p as nat), 0).0[k + 1] == dec(p as nat)
            &&& ports_rewritten(args, dec(p as nat), 0).1
        },
{
    digits_no_flag(p as nat);
    let r = ports_rewritten(args, dec(p as nat), 0);
    arguments_after(args, dec(p as nat), 0);
    if args[k] == flag + "="@ + number {
        assert(joined_port(args[k], flag, number));
        assert(argument_after(args, dec(p as nat), k, r.0[k]));
        assert(behind_flag(args, k) || !behind_flag(args, k));
    }
    if args[k] == flag && k + 1 < args.len() && args[k + 1] == number {
        assert(behind_flag(args, k + 1));
        assert(argument_after(args, dec(p as nat), k + 1, r.0[k + 1]));
        flag_shape(flag);
        cut_joined(flag);
        if names_port(flag) {
            number_shape(flag);
        }
        stays(args, dec(p as nat), k);
        assert(argument_after(args, dec(p as nat), k, r.0[k]));
    }
}

/// The same number written in decimal: `n` behind a flag gives way to `p`.
pub proof fn decimal_given(args: Seq<Seq<char>>, p: u16, k: int, flag: Seq<char>, n: u16)
    requires
        0 <= k < args.len(),
        flag == "--port"@ || flag == "-p"@ || flag == "--listen-port"@ || flag == "--http-port"@
            || flag == "--server-port"@ || flag == "--serve-port"@ || flag == "--web-port"@,
        n > 0,
        args[k] == flag + "="@ + dec(n as nat) || (args[k] == flag && k + 1 < args.len()
            && args[k + 1] == dec(n as nat)),
    ensures
        ports_rewritten(args, dec(p as nat), 0).1,
        args[k] == flag + "="@ + dec(n as nat) ==> ports_rewritten(args, dec(p as nat), 0).0[k]
            == flag + "="@ + dec(p as nat),
        args[k] == flag ==> ports_rewritten(args, dec(p as nat), 0).0[k + 1] == dec(p as nat),
{
    parsed_dec(n as nat, 65535);
    port_given(args, p, k, flag, dec(n as nat));
    flag_shape(flag);
    if args[k] == flag && args[k] == flag + "="@ + dec(n as nat) {
        reveal_strlit("=");
        assert(args[k].len() == flag.len() + 1 + dec(n as nat).len());
    }
}

/// Arguments that are not the number of a port behind a flag, or joined to one, stay as
/// they are, and there are as many arguments as before.
pub proof fn others_kept(args: Seq<Seq<char>>, p: u16, k: int)
    requires
        0 <= k < args.len(),
        forall|flag: Seq<char>, number: Seq<char>| !#[trigger] joined_port(args[k], flag, number),
        !behind_flag(args, k),
    ensures
        ports_rewritten(args, dec(p as nat), 0).0.len() == args.len(),
        ports_rewritten(args, dec(p as nat), 0).0[k] == args[k],
{
    digits_no_flag(p as nat);
    arguments_after(args, dec(p as nat), 0);
    assert(argument_after(args, dec(p as nat), k, ports_rewritten(args, dec(p as nat), 0).0[k]));
}

/// Arguments count as rewritten only where one of them is the number of a port behind a
/// flag, or joined to one.
pub proof fn given_where_asked(args: Seq<Seq<char>>, p: u16)
    ensures
        ports_rewritten(args, dec(p as nat), 0).1 <==> exists|k: int|
            0 <= k < args.len() && (#[trigger] behind_flag(args, k) || exists|
                flag: Seq<char>,
                number: Seq<char>,
            | #[trigger] joined_port(args[k], flag, number)),
{
    digits_no_flag(p as nat);
    arguments_after(args, dec(p as nat), 0);
}

/// Once a port was given, no flag is joined to another, and no other stands behind one.
pub proof fn no_other_port(
    args: Seq<Seq<char>>,
    p: u16,
    k: int,
    flag: Seq<char>,
    number: Seq<char>,
)
    requires
        0 <= k < args.len(),
        server_flag(flag),
        names_port(number),
    ensures
        ports_rewritten(args, dec(p as nat), 0).0[k] == flag + "="@ + number ==> number == dec(
            p as nat,
        ),
        ports_rewritten(args, dec(p as nat), 0).0[k] == flag && k + 1 < args.len()
            && ports_rewritten(args, dec(p as nat), 0).0[k + 1] == number ==> number == dec(
            p as nat,
        ),
{
    let port = dec(p as nat);
    let r = ports_rewritten(args, port, 0).0;
    digits_no_flag(p as nat);
    arguments_after(args, port, 0);
    assert(argument_after(args, port, k, r[k]));
    reveal_strlit("=");
    number_shape(number);
    flag_shape(flag);
    if r[k] == flag + "="@ + number {
        assert(joined_port(r[k], flag, number));
        joined_cut(r[k], flag, number);
        if behind_flag(args, k) {
            dec_is_digits(p as nat);
            assert(r[k][0] == '-');
            assert(is_digit(port[0]));
        } else if exists|f: Seq<char>, n: Seq<char>| #[trigger] joined_port(args[k], f, n) {
            let (f, n) = choose|f: Seq<char>, n: Seq<char>| #[trigger] joined_port(args[k], f, n);
            flag_shape(f);
            assert("="@ =~= seq!['=']);
            first_char(f, '=', port, 0);
            first_char(flag, '=', number, 0);
            assert(r[k].skip((f.len() + 1) as int) =~= port);
            assert(r[k].skip((flag.len() + 1) as int) =~= number);
        }
    }
    if r[k] == flag && k + 1 < args.len() && r[k + 1] == number {
        assert(argument_after(args, port, k + 1, r[k + 1]));
        if exists|f: Seq<char>, n: Seq<char>| #[trigger] joined_port(args[k + 1], f, n) {
            let (f, n) = choose|f: Seq<char>, n: Seq<char>| #[trigger]
                joined_port(args[k + 1], f, n);
            assert((f + "="@ + port)[f.len() as int] == '=');
        } else if !behind_flag(args, k + 1) {
            if behind_flag(args, k) {
                dec_is_digits(p as nat);
                assert(is_digit(port[0]));
            } else if exists|f: Seq<char>, n: Seq<char>| #[trigger] joined_port(args[k], f, n) {
                let (f, n) = choose|f: Seq<char>, n: Seq<char>| #[trigger]
                    joined_port(args[k], f, n);
                assert((f + "="@ + port)[f.len() as int] == '=');
            }
        }
    }
}

/// The last place of a character before a part that lacks it.
proof fn last_char(a: Seq<char>, c: char, b: Seq<char>, upto: int)
    requires
        lacks(b, c),
        a.len() <= upto,
    ensures
        rfind_from(a + seq![c] + b, seq![c], upto) == Some(a.len() as int),
    decreases upto,
{
    let s = a + seq![c] + b;
    char_at(s, c, upto);
    if upto > a.len() {
        if upto < s.len() {
            assert(s[upto] == b[upto - a.len() - 1]);
        }
        last_char(a, c, b, upto - 1);
    } else {
        assert(s[upto] == c);
    }
}

/// A character that a text lacks has no last place in it.
proof fn no_last_char(a: Seq<char>, c: char, upto: int)
    requires
        lacks(a, c),
        0 <= upto,
    ensures
        rfind_from(a, seq![c], upto) is None,
    decreases upto,
{
    char_at(a, c, upto);
    if upto > 0 {
        no_last_char(a, c, upto - 1);
    } else {
        char_at(a, c, -1);
        reveal_with_fuel(rfind_from, 2);
    }
}

/// A program is called by what stands behind the last slash of its path.
pub proof fn called_by_name(dir: Seq<char>, name: Seq<char>)
    requires
        lacks(name, '/'),
    ensures
        base_name(name) == name,
        base_name(dir + "/"@ + name) == name,
{
    reveal_strlit("/");
    assert("/"@ =~= seq!['/']);
    let s = dir + "/"@ + name;
    no_last_char(name, '/', name.len() as int);
    last_char(dir, '/', name, s.len() as int);
    assert(s.skip((dir.len() + 1) as int) =~= name);
}

/// In what runs a command line through a shell, wherever the shell stands, only that
/// command line is rewritten, and it is handed on whole.
pub proof fn shell_kept(args: Seq<Seq<char>>, p: u16, dir: Seq<char>, shell: Seq<char>)
    requires
        args.len() > 2,
        shell == "sh"@ || shell == "bash"@ || shell == "zsh"@,
        args[0] == shell || args[0] == dir + "/"@ + shell,
        args[1] == "-c"@ || args[1] == "-lc"@,
    ensures
        serve_rewritten(args, dec(p as nat)).0 == args.update(
            2,
            serve_rewritten(args, dec(p as nat)).0[2],
        ),
        serve_rewritten(args, dec(p as nat)).1 <==> serve_rewritten(args, dec(p as nat)).0 != args,
        forall|more: Seq<Seq<char>>| #[trigger]
            serve_rewritten(args.take(3) + more, dec(p as nat)).0[2] == serve_rewritten(
                args,
                dec(p as nat),
            ).0[2],
{
    reveal_strlit("sh");
    reveal_strlit("bash");
    reveal_strlit("zsh");
    called_by_name(dir, shell);
    let r = serve_rewritten(args, dec(p as nat));
    assert(args.update(2, args[2]) =~= args);
    assert(r.0 =~= args.update(2, r.0[2]));
    assert forall|more: Seq<Seq<char>>| #[trigger]
        serve_rewritten(args.take(3) + more, dec(p as nat)).0[2] == r.0[2] by {
        let other = args.take(3) + more;
        assert(other[0] == args[0] && other[1] == args[1] && other[2] == args[2]);
    }
}

/// Arguments that run no command line through a shell are rewritten one by one.
pub proof fn plain_rewritten(args: Seq<Seq<char>>, p: u16, dir: Seq<char>, name: Seq<char>)
    requires
        args.len() > 0,
        lacks(name, '/'),
        args[0] == name || args[0] == dir + "/"@ + name,
        args.len() < 3 || (name != "sh"@ && name != "bash"@ && name != "zsh"@) || (args[1] != "-c"@
            && args[1] != "-lc"@),
    ensures
        serve_rewritten(args, dec(p as nat)) == ports_rewritten(args, dec(p as nat), 0),
{
    called_by_name(dir, name);
}

/// The command line of a shell is searched twice, for flags joined to a number and then for
/// flags before one, and is rewritten where that changes it.
pub proof fn shell_line_rewritten(
    args: Seq<Seq<char>>,
    p: u16,
    once: Seq<char>,
    twice: Seq<char>,
)
    requires
        args.len() > 2,
        args[0] == "sh"@ || args[0] == "bash"@ || args[0] == "zsh"@,
        args[1] == "-c"@ || args[1] == "-lc"@,
        regex_replaced(
            "(?P<flag>(?:--(?:port|listen-port|http-port|server-port|serve-port|web-port)|-p)=)(?P<port>[1-9][0-9]{1,4})(?P<end>\\b)"@,
            args[2],
            "${flag}"@ + dec(p as nat) + "${end}"@,
        ) == Some(once),
        regex_replaced(
            "(?P<flag>(?:--(?:port|listen-port|http-port|server-port|serve-port|web-port)|-p))(?P<sep>\\s+)(?P<port>[1-9][0-9]{1,4})(?P<end>\\s|$)"@,
            once,
            "${flag}${sep}"@ + dec(p as nat) + "${end}"@,
        ) == Some(twice),
    ensures
        serve_rewritten(args, dec(p as nat)).0 == args.update(2, twice),
        serve_rewritten(args, dec(p as nat)).1 <==> twice != args[2],
{
    reveal_strlit("sh");
    reveal_strlit("bash");
    reveal_strlit("zsh");
    called_by_name(args[0], args[0]);
    assert(args.update(2, args[2]) =~= args);
}

} // verus!
