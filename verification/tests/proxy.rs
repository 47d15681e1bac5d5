use starling::daemon::client::DaemonClient;
use starling::daemon::protocol::{Request, Response};
use starling::daemon::state::{HostPorts, SearchStep, PORT_TRIES};
use starling::http::{
    bad_gateway, find_subslice, head_read, html_escape, is_tls_hello, not_found_body, parse_head,
    redirect_to_https, rewrite_head, route_request, write_simple, HeadRead, ProxyStep,
};
use starling::proxy::{format_url, sanitize_label, PortReservation, ProxyRegistry};
use starling::proxy_handle::{
    allocate_reply, reserve_reply, ProxyConfig, ProxyHandle, ReserveStep,
};

#[test]
fn sanitizes_labels() {
    assert_eq!(sanitize_label("(Starlingfile)"), "starlingfile");
    assert_eq!(sanitize_label("My App!"), "my-app");
    assert_eq!(sanitize_label("api.web"), "api-web");
    assert_eq!(sanitize_label("frontend"), "frontend");
}

#[test]
fn formats_urls() {
    assert_eq!(format_url("web.localhost", 1355, false), "http://web.localhost:1355");
    assert_eq!(format_url("web.localhost", 80, false), "http://web.localhost");
    assert_eq!(format_url("web.localhost", 443, true), "https://web.localhost");
}

#[test]
fn registry_lookup_exact_and_wildcard() {
    let mut reg = ProxyRegistry::new();
    reg.register("myapp.localhost", 4001);
    assert_eq!(reg.lookup("myapp.localhost"), Some(4001));
    assert_eq!(reg.lookup("tenant.myapp.localhost"), Some(4001));
    assert_eq!(reg.lookup("other.localhost"), None);
    reg.remove("myapp.localhost");
    assert_eq!(reg.lookup("myapp.localhost"), None);
}

#[test]
fn registering_again_replaces_the_route() {
    let mut reg = ProxyRegistry::new();
    assert_eq!(reg.register("a.localhost", 1), None);
    assert_eq!(reg.register("a.localhost", 2), Some(1));
    assert_eq!(reg.snapshot().len(), 1);
    assert_eq!(reg.remove("a.localhost"), Some(2));
    assert_eq!(reg.remove("a.localhost"), None);
    assert!(!reg.uses_port(2));
}

#[test]
fn labels_are_left_alone_the_second_time() {
    for name in ["--a__B--", "", "---", "x y z", "Grüße", "a-b"] {
        let once = sanitize_label(name);
        assert_eq!(sanitize_label(&once), once);
        assert!(!once.starts_with('-') && !once.ends_with('-') && !once.contains("--"));
    }
}

fn head_of(text: &str) -> starling::http::Head {
    parse_head(text.as_bytes().to_vec())
}

#[test]
fn head_says_host_hops_and_upgrade() {
    let h = head_of(
        "GET / HTTP/1.1\r\nHOST:  web.localhost:1360 \r\nX-Portless-Hops: 3\r\nUpgrade: WebSocket\r\n\r\n",
    );
    assert_eq!(h.host, "web.localhost");
    assert_eq!(h.hops, 3);
    assert!(h.is_websocket);
    let plain = head_of("GET / HTTP/1.1\r\nx-portless-hops: many\r\nupgrade: h2c\r\n\r\n");
    assert_eq!(plain.host, "");
    assert_eq!(plain.hops, 0);
    assert!(!plain.is_websocket);
}

#[test]
fn head_is_read_until_the_blank_line() {
    let mut buf = b"GET / HTTP/1.1\r\nHost: a\r\n\r\nbody".to_vec();
    assert_eq!(head_read(&buf), HeadRead::Complete(buf.len() - 4));
    buf.truncate(20);
    assert_eq!(head_read(&buf), HeadRead::More);
    assert_eq!(head_read(&vec![b'x'; 65536]), HeadRead::More);
    assert_eq!(head_read(&vec![b'x'; 65537]), HeadRead::TooLarge);
    assert_eq!(find_subslice(&b"abcabc".to_vec(), b"ca"), Some(2));
    assert_eq!(find_subslice(&b"abc".to_vec(), b"abcd"), None);
}

#[test]
fn bytes_that_are_no_text_do_not_hide_the_host() {
    let mut raw = b"GET /".to_vec();
    raw.push(0xff);
    raw.extend_from_slice(b" HTTP/1.1\r\nHost: web\r\n\r\n");
    assert_eq!(parse_head(raw).host, "web");
}

#[test]
fn each_pass_adds_a_hop_and_keeps_the_host() {
    let mut raw = b"GET / HTTP/1.1\r\nHost: web.localhost\r\n\r\n".to_vec();
    for pass in 0..6u32 {
        let head = parse_head(raw);
        assert_eq!(head.hops, pass);
        assert_eq!(head.host, "web.localhost");
        raw = rewrite_head(&head, false);
    }
    let text = String::from_utf8(raw).unwrap();
    assert!(text.ends_with(
        "X-Forwarded-For: 127.0.0.1\r\nX-Forwarded-Proto: http\r\nX-Forwarded-Host: web.localhost\r\nx-portless-hops: 6\r\n\r\n"
    ));
}

#[test]
fn requests_are_answered_or_forwarded() {
    let mut reg = ProxyRegistry::new();
    reg.register("web.localhost", 4000);
    let ok = head_of("GET / HTTP/1.1\r\nHost: web.localhost\r\n\r\n");
    assert_eq!(route_request(&ok, &reg, 1360), ProxyStep::Connect(4000));

    let nohost = head_of("GET / HTTP/1.1\r\n\r\n");
    assert_eq!(
        route_request(&nohost, &reg, 1360),
        ProxyStep::Reply(
            "HTTP/1.1 400 Bad Request\r\nContent-Type: text/plain\r\nContent-Length: 24\r\nX-Portless: 1\r\nConnection: close\r\n\r\n400 Missing Host header\n"
                .to_string()
        )
    );

    let looped = head_of("GET / HTTP/1.1\r\nHost: web.localhost\r\nx-portless-hops: 5\r\n\r\n");
    match route_request(&looped, &reg, 1360) {
        ProxyStep::Reply(text) => assert!(text.starts_with("HTTP/1.1 508 Loop Detected\r\n")),
        other => panic!("forwarded a loop: {other:?}"),
    }

    let unknown = head_of("GET / HTTP/1.1\r\nHost: <x>\r\n\r\n");
    match route_request(&unknown, &reg, 1360) {
        ProxyStep::Reply(text) => {
            assert!(text.starts_with("HTTP/1.1 404 Not Found\r\n"));
            assert!(text.contains("<strong>&lt;x&gt;</strong>"));
            assert!(text.contains(
                "<li><a href=\"http://web.localhost:1360\">web.localhost</a> → <code>127.0.0.1:4000</code></li>"
            ));
            let (head, body) = text.split_once("\r\n\r\n").unwrap();
            assert!(head.contains(&format!("Content-Length: {}", body.len())));
        }
        other => panic!("forwarded an unknown host: {other:?}"),
    }
}

#[test]
fn proxy_pages() {
    assert!(bad_gateway("a&b", 9).contains(
        "<h1>502 Bad Gateway</h1><p>No app responding on 127.0.0.1:9 for <strong>a&amp;b</strong>. It may not be running yet.</p>"
    ));
    assert!(not_found_body("h", &ProxyRegistry::new(), 80).ends_with("<p>No apps registered.</p>"));
    assert_eq!(html_escape("\"<&>\""), "&quot;&lt;&amp;&gt;&quot;");
    assert!(write_simple(200, "x").starts_with("HTTP/1.1 200 OK\r\n"));
    assert_eq!(
        redirect_to_https("web.localhost", 1360),
        "HTTP/1.1 308 Permanent Redirect\r\nLocation: https://web.localhost:1360/\r\nContent-Length: 0\r\nX-Portless: 1\r\nConnection: close\r\n\r\n"
    );
    assert!(redirect_to_https("web.localhost", 443).contains("Location: https://web.localhost/\r\n"));
    assert!(is_tls_hello(0x16));
    assert!(!is_tls_hello(b'G'));
}

fn ports(preferred_free: bool, free: &[u16]) -> HostPorts {
    HostPorts {
        preferred_free,
        offers: free.iter().map(|p| Some(*p)).collect(),
    }
}

#[test]
fn a_local_proxy_never_gives_a_port_twice() {
    let mut cfg = ProxyConfig::new("localhost", 1355, false);
    let first = cfg.reserve_local_port(Some(4000), &ports(true, &[])).unwrap();
    assert_eq!(
        first,
        PortReservation {
            port: 4000,
            preferred: Some(4000),
            conflict: false
        }
    );
    let second = cfg
        .reserve_local_port(Some(4000), &ports(true, &[4000, 4001]))
        .unwrap();
    assert_eq!(second.port, 4001);
    assert!(second.conflict);
    let third = cfg.reserve_local_port(None, &ports(false, &[4001, 4002])).unwrap();
    assert_eq!(third.port, 4002);
    assert!(!third.conflict);
    assert!(cfg.reserve_local_port(None, &ports(false, &[4000, 4001])).is_none());
}

#[test]
fn a_local_port_is_released_with_its_last_route() {
    let mut cfg = ProxyConfig::new("localhost", 1355, false);
    cfg.register("a.localhost", 4000);
    cfg.register("b.localhost", 4000);
    cfg.remove("a.localhost");
    assert!(cfg.leased_ports.contains(&4000));
    cfg.register("b.localhost", 4001);
    assert!(!cfg.leased_ports.contains(&4000));
    assert!(cfg.leased_ports.contains(&4001));
    cfg.release_local_port_if_unused(4001);
    assert!(cfg.leased_ports.contains(&4001));
    cfg.remove("b.localhost");
    assert!(cfg.leased_ports.is_empty());
}

fn daemon_handle() -> ProxyHandle {
    ProxyHandle::Daemon {
        client: DaemonClient::new(),
        instance: "inst".to_string(),
        project: "My Project".to_string(),
        tld: "localhost".to_string(),
        proxy_port: 1360,
        tls: false,
    }
}

#[test]
fn hostnames_are_single_labels_below_the_tld() {
    let local = ProxyHandle::Local(ProxyConfig::new("test", 80, false));
    assert_eq!(local.hostname("Api Server"), "api-server.test");
    assert_eq!(local.url_for("web"), "http://web.test");
    let shared = daemon_handle();
    assert_eq!(shared.hostname("web"), "web-my-project.localhost");
    assert_eq!(shared.hostname("my-project"), "my-project.localhost");
    assert_eq!(shared.hostname("!!"), "my-project.localhost");
    assert_eq!(shared.url_for("web"), "http://web-my-project.localhost:1360");
    assert_eq!(shared.proxy_port(), 1360);
    assert!(!shared.tls());
}

#[test]
fn the_daemon_is_asked_for_ports_and_routes() {
    let mut h = daemon_handle();
    match h.reserve_port(Some(4000), &ports(false, &[])) {
        ReserveStep::Ask(Request::ReservePort { instance, preferred }) => {
            assert_eq!(instance, "inst");
            assert_eq!(preferred, Some(4000));
        }
        other => panic!("unexpected step: {other:?}"),
    }
    assert!(matches!(
        h.register("web", 4000),
        Some(Request::RegisterRoute { hostname, port: 4000, .. }) if hostname == "web-my-project.localhost"
    ));
    assert!(matches!(
        h.remove("web"),
        Some(Request::RemoveRoute { hostname }) if hostname == "web-my-project.localhost"
    ));
    assert!(matches!(h.release_port(7), Some(Request::ReleasePort { port: 7, .. })));

    let reserved = Ok(Response::ReservedPort {
        port: 5,
        preferred: Some(4),
        conflict: true,
    });
    assert!(matches!(
        reserve_reply("inst", &reserved),
        ReserveStep::Settled(Some(PortReservation { port: 5, preferred: Some(4), conflict: true }))
    ));
    assert!(matches!(
        reserve_reply("inst", &Ok(Response::Error("unknown".to_string()))),
        ReserveStep::Ask(Request::AllocatePort { .. })
    ));
    assert!(matches!(
        reserve_reply("inst", &Err("gone".to_string())),
        ReserveStep::Settled(None)
    ));
    assert_eq!(
        allocate_reply(Some(4), &Ok(Response::Port { port: 9 })),
        Some(PortReservation {
            port: 9,
            preferred: Some(4),
            conflict: true
        })
    );
    assert_eq!(allocate_reply(None, &Ok(Response::Done)), None);
}

#[test]
fn the_search_for_a_port_ends() {
    let mut cfg = ProxyConfig::new("localhost", 1355, false);
    cfg.reserve_local_port(None, &ports(false, &[4000])).unwrap();
    let mut host = ports(false, &[]);
    let mut asked = 0;
    while cfg.search_step(None, &host) == SearchStep::Ask {
        host.offers.push(if asked % 2 == 0 { Some(4000) } else { None });
        asked += 1;
    }
    assert_eq!(asked, PORT_TRIES);
    assert_eq!(asked, 50);
    assert!(cfg.reserve_local_port(None, &host).is_none());
    host.offers.push(Some(4001));
    assert!(cfg.reserve_local_port(None, &host).is_none());
    assert_eq!(cfg.search_step(None, &ports(false, &[4000, 4001])), SearchStep::Settle);
    assert_eq!(cfg.search_step(Some(4001), &ports(true, &[])), SearchStep::Settle);
    assert_eq!(cfg.search_step(Some(4000), &ports(true, &[])), SearchStep::Ask);
    assert_eq!(daemon_handle().search_step(None, &ports(false, &[])), SearchStep::Settle);
}

#[test]
fn routes_stand_in_the_order_of_their_last_registration() {
    let mut r = ProxyRegistry::new();
    r.register("a", 1);
    r.register("b", 2);
    r.register("c", 3);
    r.register("a", 4);
    r.remove("b");
    r.register("d", 5);
    r.register("c", 6);
    let routes: Vec<(String, u16)> = r.snapshot().into_iter().map(|r| (r.hostname, r.port)).collect();
    let expected = [("a", 4u16), ("d", 5), ("c", 6)];
    assert_eq!(routes, expected.map(|(h, p)| (h.to_string(), p)).to_vec());
}
