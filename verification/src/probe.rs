//! Readiness probes: what an attempt asks for, and what its outcome means.

use vstd::prelude::*;
use vstd::string::*;

use crate::engine::services::ResolvedProbe;
use crate::http::{bytes_from, find_subslice};
use crate::text::{
    cat, cat3, debug_text, debugged, dec, decimal, lines, lines_of, lossy, lossy_text, lowercase,
    lowered, owned, parse_uint, parsed, same, texts, trim, trimmed, words, words_of,
};

verus! {

/// What an attempt does.
#[derive(Debug, PartialEq)]
pub enum ProbePlan {
    /// It fails at once.
    Fail(String),
    /// It runs a command.
    Run(Vec<String>),
    /// It opens a connection.
    Connect { host: String, port: u16 },
    /// It sends a request for the path and reads the first line of the response.
    Get { host: String, port: u16, path: String, request: String },
}

/// The path that is asked for.
pub open spec fn probe_path(path: Seq<char>) -> Seq<char> {
    if path.len() == 0 {
        "/"@
    } else {
        path
    }
}

/// The request of a probe.
pub open spec fn probe_request(host: Seq<char>, port: u16, path: Seq<char>) -> Seq<char> {
    "GET "@ + path + " HTTP/1.1\r\nHost: "@ + host + ":"@ + dec(port as nat)
        + "\r\nUser-Agent: starling-probe\r\nConnection: close\r\n\r\n"@
}

/// Whether a plan is what an attempt does.
pub open spec fn planned(action: ResolvedProbe, p: ProbePlan) -> bool {
    match action {
        ResolvedProbe::Exec { command } => if command@.len() == 0 {
            p is Fail && p->Fail_0@ == "exec probe has no command"@
        } else {
            p is Run && texts(p->Run_0@) == texts(command@)
        },
        ResolvedProbe::Tcp { host, port } => p is Connect && p->Connect_host@ == host@
            && p->Connect_port == port,
        ResolvedProbe::Http { host, port, scheme, path } => if lowercase(scheme@) == "https"@ {
            p is Connect && p->Connect_host@ == host@ && p->Connect_port == port
        } else {
            p is Get && p->Get_host@ == host@ && p->Get_port == port && p->path@ == probe_path(
                path@,
            ) && p->request@ == probe_request(host@, port, probe_path(path@))
        },
    }
}

/// What an attempt does. One over TLS only looks whether the port is open.
pub fn plan_probe(action: &ResolvedProbe) -> (r: ProbePlan)
    ensures
        planned(*action, r),
{
    match action {
        ResolvedProbe::Exec { command } => if command.len() == 0 {
            ProbePlan::Fail(owned("exec probe has no command"))
        } else {
            ProbePlan::Run(command.clone())
        },
        ResolvedProbe::Tcp { host, port } => ProbePlan::Connect { host: host.clone(), port: *port },
        ResolvedProbe::Http { host, port, scheme, path } => {
            if same(lowered(scheme.as_str()).as_str(), "https") {
                return ProbePlan::Connect { host: host.clone(), port: *port };
            }
            let path = if path.as_str().is_empty() {
                owned("/")
            } else {
                path.clone()
            };
            let mut request = cat3("GET ", path.as_str(), " HTTP/1.1\r\nHost: ");
            request.append(host.as_str());
            request.append(":");
            request.append(decimal(*port as u64).as_str());
            request.append("\r\nUser-Agent: starling-probe\r\nConnection: close\r\n\r\n");
            ProbePlan::Get { host: host.clone(), port: *port, path, request }
        },
    }
}

/// The last line that a command printed as an error, trimmed.
pub open spec fn last_line(text: Seq<char>) -> Seq<char> {
    let l = lines(text);
    if l.len() == 0 {
        trim(Seq::empty())
    } else {
        trim(l.last())
    }
}

/// What the end of a command means. `status` tells how it ended.
pub fn exec_outcome(success: bool, status: &str, stderr: &Vec<u8>) -> (r: Result<(), String>)
    ensures
        match r {
            Ok(_) => success,
            Err(e) => !success && e@ == "command exited with "@ + status@ + (if last_line(
                lossy(stderr@),
            ).len() == 0 {
                Seq::empty()
            } else {
                ": "@ + last_line(lossy(stderr@))
            }),
        },
{
    if success {
        return Ok(());
    }
    let text = lossy_text(stderr);
    let l = lines_of(text.as_str());
    let empty = String::new();
    assert(empty@ =~= Seq::empty());
    let tail = if l.len() == 0 {
        trimmed(empty.as_str())
    } else {
        assert(texts(l@).last() == l@[l@.len() - 1]@);
        trimmed(l[l.len() - 1].as_str())
    };
    let mut e = cat("command exited with ", status);
    if !tail.as_str().is_empty() {
        e.append(": ");
        e.append(tail.as_str());
    }
    assert(e@ =~= "command exited with "@ + status@ + (if last_line(lossy(stderr@)).len() == 0 {
        Seq::empty()
    } else {
        ": "@ + last_line(lossy(stderr@))
    }));
    Err(e)
}

/// The message of a command that could not be started.
pub fn exec_not_started(program: &str, error: &str) -> (r: String)
    ensures
        r@ == "failed to start "@ + program@ + ": "@ + error@,
{
    cat(cat3("failed to start ", program, ": ").as_str(), error)
}

/// The message of a connection that took too long.
pub fn connect_timed_out(host: &str, port: u16) -> (r: String)
    ensures
        r@ == "connection to "@ + host@ + ":"@ + dec(port as nat) + " timed out"@,
{
    let mut r = cat3("connection to ", host, ":");
    r.append(decimal(port as u64).as_str());
    r.append(" timed out");
    r
}

/// The message of a connection that failed.
pub fn connect_failed(host: &str, port: u16, error: &str) -> (r: String)
    ensures
        r@ == "connection to "@ + host@ + ":"@ + dec(port as nat) + " failed: "@ + error@,
{
    let mut r = cat3("connection to ", host, ":");
    r.append(decimal(port as u64).as_str());
    r.append(" failed: ");
    r.append(error);
    r
}

/// The message of a request that took too long.
pub fn get_timed_out(host: &str, port: u16, path: &str) -> (r: String)
    ensures
        r@ == "HTTP GET "@ + host@ + ":"@ + dec(port as nat) + path@ + " timed out"@,
{
    let mut r = cat3("HTTP GET ", host, ":");
    r.append(decimal(port as u64).as_str());
    r.append(path);
    r.append(" timed out");
    r
}

/// Whether enough of a response was read: its first line, or too much for one.
pub fn enough_read(buf: &Vec<u8>) -> (r: bool)
    ensures
        r == (bytes_from(buf@, seq![13u8, 10u8], 0) is Some || buf@.len() > 4096),
{
    let mut needle: Vec<u8> = Vec::new();
    needle.push(13);
    needle.push(10);
    assert(needle@ =~= seq![13u8, 10u8]);
    find_subslice(buf, needle.as_slice()).is_some() || buf.len() > 4096
}

/// The status in the first line of what was read, if there is one.
pub open spec fn probe_status(line: Seq<char>) -> Option<nat> {
    let w = words(line);
    if w.len() >= 2 {
        parsed(w[1], 65535)
    } else {
        None
    }
}

/// The first line of what was read.
pub open spec fn first_line(text: Seq<char>) -> Seq<char> {
    let l = lines(text);
    if l.len() == 0 {
        Seq::empty()
    } else {
        l[0]
    }
}

/// What the response to a probe means: a status below 400 is a success.
pub fn get_outcome(path: &str, buf: &Vec<u8>) -> (r: Result<(), String>)
    ensures
        ({
            let line = first_line(lossy(buf@));
            match probe_status(line) {
                None => r is Err && r->Err_0@ == "no HTTP status in response: "@ + debugged(line),
                Some(n) => if n < 400 {
                    r is Ok
                } else {
                    r is Err && r->Err_0@ == "GET "@ + path@ + " returned HTTP "@ + dec(n)
                },
            }
        }),
{
    let text = lossy_text(buf);
    let l = lines_of(text.as_str());
    let line = if l.len() == 0 {
        let e = String::new();
        assert(e@ =~= Seq::empty());
        e
    } else {
        assert(texts(l@)[0] == l@[0]@);
        l[0].clone()
    };
    let w = words_of(line.as_str());
    if w.len() >= 2 {
        assert(texts(w@)[1] == w@[1]@);
        if let Some(n) = parse_uint(w[1].as_str(), 65535) {
            if n < 400 {
                return Ok(());
            }
            return Err(
                cat(cat3("GET ", path, " returned HTTP ").as_str(), decimal(n).as_str()),
            );
        }
    }
    Err(cat("no HTTP status in response: ", debug_text(line.as_str()).as_str()))
}

} // verus!
