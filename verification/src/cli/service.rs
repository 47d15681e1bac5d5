//! The daemon as a service of the system.

use vstd::prelude::*;
use vstd::string::*;

use crate::daemon::client::{daemon_args, daemon_args_of};
use crate::http::{escaped, html_escape};
use crate::http_laws::{escaped_is_text, replaced_lacks};
use crate::paths::{join_path, joined_path};
use crate::text::{cat, cat3, dec, decimal, join, joined, owned, replace, replaced, texts, texts_push};

verus! {

/// What the service is called.
pub const DAEMON_SERVICE_LABEL: &'static str = "com.thousandbirds.starling.daemon";

/// The file that describes the service, below the home directory; an error where
/// there is none.
pub fn launch_agent_path(home: Option<&str>) -> (r: Result<String, String>)
    ensures
        match (home, r) {
            (Some(h), Ok(p)) => p@ == join_path(
                join_path(join_path(h@, "Library"@), "LaunchAgents"@),
                DAEMON_SERVICE_LABEL@ + ".plist"@,
            ),
            (None, Err(e)) => e@ == "could not resolve home directory"@,
            _ => false,
        },
{
    match home {
        Some(h) => {
            let agents = joined_path(joined_path(h, "Library").as_str(), "LaunchAgents");
            Ok(joined_path(agents.as_str(), cat(DAEMON_SERVICE_LABEL, ".plist").as_str()))
        },
        None => Err(owned("could not resolve home directory")),
    }
}

/// The domain of a user's services.
pub fn launchd_domain(uid: u32) -> (r: String)
    ensures
        r@ == "gui/"@ + dec(uid as nat),
{
    cat("gui/", decimal(uid as u64).as_str())
}

/// The service in the domain of a user.
pub fn launchd_target(uid: u32) -> (r: String)
    ensures
        r@ == "gui/"@ + dec(uid as nat) + "/"@ + DAEMON_SERVICE_LABEL@,
{
    cat3(launchd_domain(uid).as_str(), "/", DAEMON_SERVICE_LABEL)
}

/// A text in which the characters that XML gives a meaning are written out.
pub open spec fn xml_escaped(s: Seq<char>) -> Seq<char> {
    replaced(escaped(s), '\'', "&apos;"@)
}

/// A text in which the characters that XML gives a meaning are written out.
pub fn xml_escape(s: &str) -> (r: String)
    ensures
        r@ == xml_escaped(s@),
{
    replace(html_escape(s).as_str(), '\'', "&apos;")
}

/// The elements of arguments.
pub open spec fn argument_elements(args: Seq<Seq<char>>) -> Seq<Seq<char>> {
    args.map_values(|a: Seq<char>| "        <string>"@ + xml_escaped(a) + "</string>"@)
}

/// The description of the service that runs a program with arguments, and logs to a
/// file.
pub open spec fn plist(args: Seq<Seq<char>>, log: Seq<char>) -> Seq<char> {
    "<?xml version=\"1.0\" encoding=\"UTF-8\"?>\n<!DOCTYPE plist PUBLIC \"-//Apple//DTD PLIST 1.0//EN\" \"http://www.apple.com/DTDs/PropertyList-1.0.dtd\">\n<plist version=\"1.0\">\n<dict>\n    <key>Label</key>\n    <string>"@
        + DAEMON_SERVICE_LABEL@
        + "</string>\n    <key>ProgramArguments</key>\n    <array>\n"@ + join(
        argument_elements(args),
        "\n"@,
    )
        + "\n    </array>\n    <key>RunAtLoad</key>\n    <true/>\n    <key>StandardOutPath</key>\n    <string>"@
        + xml_escaped(log) + "</string>\n    <key>StandardErrorPath</key>\n    <string>"@
        + xml_escaped(log) + "</string>\n</dict>\n</plist>\n"@
}

/// The description of the service that runs the daemon.
pub fn daemon_service_plist(
    exe: &str,
    log: &str,
    proxy_port: u16,
    tld: &str,
    host: &str,
    tls: bool,
    lan: bool,
) -> (r: String)
    ensures
        r@ == plist(seq![exe@] + daemon_args_of(proxy_port, tld@, host@, tls, lan), log@),
{
    broadcast use texts_push;

    let mut args: Vec<String> = Vec::new();
    args.push(owned(exe));
    let mut rest = daemon_args(proxy_port, tld, host, tls, lan);
    let ghost all = seq![exe@] + texts(rest@);
    args.append(&mut rest);
    assert(texts(args@) =~= all);
    let mut elements: Vec<String> = Vec::new();
    let ghost want = argument_elements(all);
    let mut i: usize = 0;
    assert(texts(elements@) =~= want.take(0));
    while i < args.len()
        invariant
            i <= args@.len(),
            all == texts(args@),
            want == argument_elements(all),
            texts(elements@) == want.take(i as int),
        decreases args@.len() - i,
    {
        elements.push(
            cat3("        <string>", xml_escape(args[i].as_str()).as_str(), "</string>"),
        );
        assert(want[i as int] == "        <string>"@ + xml_escaped(args@[i as int]@)
            + "</string>"@);
        assert(want.take(i + 1) =~= want.take(i as int).push(want[i as int]));
        i += 1;
    }
    assert(want.take(i as int) =~= want);
    let shown_log = xml_escape(log);
    let mut r = cat3(
        "<?xml version=\"1.0\" encoding=\"UTF-8\"?>\n<!DOCTYPE plist PUBLIC \"-//Apple//DTD PLIST 1.0//EN\" \"http://www.apple.com/DTDs/PropertyList-1.0.dtd\">\n<plist version=\"1.0\">\n<dict>\n    <key>Label</key>\n    <string>",
        DAEMON_SERVICE_LABEL,
        "</string>\n    <key>ProgramArguments</key>\n    <array>\n",
    );
    r.append(joined(&elements, "\n").as_str());
    r.append(
        "\n    </array>\n    <key>RunAtLoad</key>\n    <true/>\n    <key>StandardOutPath</key>\n    <string>",
    );
    r.append(shown_log.as_str());
    r.append("</string>\n    <key>StandardErrorPath</key>\n    <string>");
    r.append(shown_log.as_str());
    r.append("</string>\n</dict>\n</plist>\n");
    r
}

/// What is printed of the service.
pub fn service_status(path: &str, installed: bool, loaded: bool, responding: bool) -> (r: Vec<String>)
    ensures
        texts(r@) == seq![
            "Service: "@ + DAEMON_SERVICE_LABEL@,
            "Plist: "@ + path@,
            "Installed: "@ + yes_no_text(installed),
            "Loaded: "@ + yes_no_text(loaded),
            "Daemon responding: "@ + yes_no_text(responding),
        ],
{
    let mut r: Vec<String> = Vec::new();
    r.push(cat("Service: ", DAEMON_SERVICE_LABEL));
    r.push(cat("Plist: ", path));
    r.push(cat("Installed: ", yes_no(installed)));
    r.push(cat("Loaded: ", yes_no(loaded)));
    r.push(cat("Daemon responding: ", yes_no(responding)));
    assert(texts(r@) =~= seq![
        "Service: "@ + DAEMON_SERVICE_LABEL@,
        "Plist: "@ + path@,
        "Installed: "@ + yes_no_text(installed),
        "Loaded: "@ + yes_no_text(loaded),
        "Daemon responding: "@ + yes_no_text(responding),
    ]);
    r
}

/// Yes or no.
pub open spec fn yes_no_text(b: bool) -> Seq<char> {
    if b {
        "yes"@
    } else {
        "no"@
    }
}

fn yes_no(b: bool) -> (r: &'static str)
    ensures
        r@ == yes_no_text(b),
{
    if b {
        "yes"
    } else {
        "no"
    }
}

/// A text that is written into the description of a service opens and closes no
/// element, and ends no attribute.
pub proof fn xml_escaped_is_text(s: Seq<char>)
    ensures
        !xml_escaped(s).contains('<'),
        !xml_escaped(s).contains('>'),
        !xml_escaped(s).contains('"'),
        !xml_escaped(s).contains('\''),
{
    reveal_strlit("&apos;");
    escaped_is_text(s);
    replaced_lacks(escaped(s), '\'', "&apos;"@, '<');
    replaced_lacks(escaped(s), '\'', "&apos;"@, '>');
    replaced_lacks(escaped(s), '\'', "&apos;"@, '"');
    replaced_lacks(escaped(s), '\'', "&apos;"@, '\'');
}

} // verus!
