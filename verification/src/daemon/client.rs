//! What a client of the daemon needs to know: where the daemon is, how to start it,
//! and what its replies mean.

use vstd::prelude::*;
use vstd::string::*;

use crate::daemon::protocol::{is_state_file, socket_path, Response};
use crate::text::{cat, cat3, dec, decimal, owned, texts, trim, trimmed};

verus! {

/// A client of the daemon.
#[derive(Debug)]
pub struct DaemonClient {
    sock: String,
}

impl DaemonClient {
    /// The socket that the client connects to.
    pub closed spec fn socket(self) -> Seq<char> {
        self.sock@
    }

    /// A client of the user's daemon.
    pub fn new() -> (r: DaemonClient)
        ensures
            is_state_file(r.socket(), "daemon.sock"@),
    {
        DaemonClient { sock: socket_path() }
    }

    /// The socket that the client connects to.
    pub fn sock(&self) -> (r: &str)
        ensures
            r@ == self.socket(),
    {
        self.sock.as_str()
    }
}

impl Clone for DaemonClient {
    fn clone(&self) -> (r: Self)
        ensures
            r == *self,
    {
        DaemonClient { sock: self.sock.clone() }
    }
}

/// The message of a client that could not connect.
pub fn connect_error(sock: &str, error: &str) -> (r: String)
    ensures
        r@ == "connecting to daemon at "@ + sock@ + ": "@ + error@,
{
    let mut r = cat3("connecting to daemon at ", sock, ": ");
    r.append(error);
    r
}

/// A request as it goes over the socket: on a line of its own.
pub fn request_line(json: &str) -> (r: String)
    ensures
        r@ == json@ + "\n"@,
{
    cat(json, "\n")
}

/// The reply in a line that the daemon sent, or what is wrong with it.
pub fn reply_line(line: &str) -> (r: Result<&str, String>)
    ensures
        match r {
            Ok(l) => l@ == line@ && trim(line@).len() > 0,
            Err(e) => trim(line@).len() == 0 && e@ == "empty response from daemon"@,
        },
{
    if trimmed(line).as_str().is_empty() {
        Err(owned("empty response from daemon"))
    } else {
        Ok(line)
    }
}

/// Whether the reply to a ping says that the daemon runs.
pub fn is_running(reply: &Result<Response, String>) -> (r: bool)
    ensures
        r == (reply is Ok && reply->Ok_0 is Done),
{
    match reply {
        Ok(response) => match response {
            Response::Done => true,
            _ => false,
        },
        Err(_) => false,
    }
}

/// The arguments that start the daemon.
pub open spec fn daemon_args_of(
    proxy_port: u16,
    tld: Seq<char>,
    host: Seq<char>,
    tls: bool,
    lan: bool,
) -> Seq<Seq<char>> {
    let a = seq![
        "daemon"@,
        "--proxy-port"@,
        dec(proxy_port as nat),
        "--tld"@,
        tld,
        "--host"@,
        host,
    ];
    let a = if tls {
        a.push("--tls"@)
    } else {
        a
    };
    if lan {
        a.push("--lan"@)
    } else {
        a
    }
}

/// The arguments that start the daemon.
pub fn daemon_args(proxy_port: u16, tld: &str, host: &str, tls: bool, lan: bool) -> (r: Vec<String>)
    ensures
        texts(r@) == daemon_args_of(proxy_port, tld@, host@, tls, lan),
{
    let mut r: Vec<String> = Vec::new();
    r.push(owned("daemon"));
    r.push(owned("--proxy-port"));
    r.push(decimal(proxy_port as u64));
    r.push(owned("--tld"));
    r.push(owned(tld));
    r.push(owned("--host"));
    r.push(owned(host));
    if tls {
        r.push(owned("--tls"));
    }
    if lan {
        r.push(owned("--lan"));
    }
    assert(texts(r@) =~= daemon_args_of(proxy_port, tld@, host@, tls, lan));
    r
}

} // verus!
