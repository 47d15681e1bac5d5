//! Sharing named URLs beyond this machine.

use vstd::prelude::*;
use vstd::string::*;

use crate::certs::Platform;
use crate::text::{cat, dec, decimal, owned, pieces, split, texts};

verus! {

/// The name of a host on the local network: its first label, below `.local`.
pub open spec fn local_name_of(host: Seq<char>) -> Seq<char> {
    split(host, "."@)[0] + ".local"@
}

fn first_label(host: &str) -> (r: String)
    ensures
        r@ == split(host@, "."@)[0],
{
    proof {
        reveal_strlit(".");
    }
    let p = pieces(host, ".");
    assert(texts(p@)[0] == p@[0]@);
    p[0].clone()
}

/// The name of a host on the local network.
pub fn local_name(host: &str) -> (r: String)
    ensures
        r@ == local_name_of(host@),
{
    cat(first_label(host).as_str(), ".local")
}

/// The command that makes a host known on the local network.
pub open spec fn advertising(platform: Platform, host: Seq<char>, ip: Seq<char>) -> Seq<Seq<char>> {
    match platform {
        Platform::MacOs => seq![
            "dns-sd"@,
            "-P"@,
            split(host, "."@)[0],
            "_http._tcp"@,
            "local"@,
            "80"@,
            local_name_of(host),
            ip,
        ],
        _ => seq!["avahi-publish-address"@, local_name_of(host), ip],
    }
}

/// The command that makes a host known on the local network.
pub fn advertise_command(platform: Platform, host: &str, ip: &str) -> (r: Vec<String>)
    ensures
        texts(r@) == advertising(platform, host@, ip@),
{
    let mut r: Vec<String> = Vec::new();
    if platform == Platform::MacOs {
        r.push(owned("dns-sd"));
        r.push(owned("-P"));
        r.push(first_label(host));
        r.push(owned("_http._tcp"));
        r.push(owned("local"));
        r.push(owned("80"));
        r.push(local_name(host));
        r.push(owned(ip));
    } else {
        r.push(owned("avahi-publish-address"));
        r.push(local_name(host));
        r.push(owned(ip));
    }
    assert(texts(r@) =~= advertising(platform, host@, ip@));
    r
}

/// The command that shares the proxy on the user's tailnet.
pub fn tailscale_command(proxy_port: u16) -> (r: Vec<String>)
    ensures
        texts(r@) == seq!["tailscale"@, "serve"@, "--bg"@, dec(proxy_port as nat)],
{
    let mut r: Vec<String> = Vec::new();
    r.push(owned("tailscale"));
    r.push(owned("serve"));
    r.push(owned("--bg"));
    r.push(decimal(proxy_port as u64));
    assert(texts(r@) =~= seq!["tailscale"@, "serve"@, "--bg"@, dec(proxy_port as nat)]);
    r
}

} // verus!
