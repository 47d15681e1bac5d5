use starling::health::{
    check_modules, check_root, extract_attr, extract_local_imports, extract_module_scripts,
    has_module_type, imports_of_groups, is_html, is_javascript, normalize_local_path,
    parse_http_response, parse_http_status, proxy_request, HttpResponse, ModuleCheck, RootCheck,
    MAX_MODULES,
};

#[test]
fn parses_http_status_line() {
    assert_eq!(parse_http_status("HTTP/1.1 502 Bad Gateway"), Some(502));
    assert_eq!(parse_http_status("not http"), None);
}

#[test]
fn extracts_module_scripts() {
    let html = r#"<script type="module" src="/src/main.tsx"></script>"#;
    assert_eq!(
        extract_module_scripts(html).into_iter().collect::<Vec<_>>(),
        vec!["/src/main.tsx"]
    );
}

#[test]
fn extracts_local_imports() {
    let js = r#"import React from "/node_modules/react.js?v=1"; import "/src/style.css";"#;
    assert_eq!(
        extract_local_imports(js),
        vec!["/node_modules/react.js?v=1", "/src/style.css"]
    );
}

#[test]
fn dynamic_imports_count_and_foreign_ones_do_not() {
    let js = "import('/lazy.js'); import x from './near.js'; export * from \"//cdn/x.js\"; export {a} from '/b.js'";
    assert_eq!(extract_local_imports(js), vec!["/lazy.js", "/b.js"]);
    assert_eq!(
        imports_of_groups(vec![
            (Some("/a".into()), Some("/b".into())),
            (None, Some("/c".into())),
            (Some("d".into()), Some("/e".into())),
            (None, None),
        ]),
        vec!["/a", "/c"]
    );
}

#[test]
fn only_local_module_scripts_are_taken() {
    let html = "<script src='/plain.js'></script><script type='MODULE' src='/a.js'></script>\
                <script type=\"module\" src=\"https://cdn/x.js\"></script>\
                <script type=\"module\" src=\"//cdn/y.js\"></script><script type=\"module\" src=\"/b";
    assert_eq!(extract_module_scripts(html), vec!["/a.js"]);
    assert!(has_module_type(" type='module'"));
    assert!(!has_module_type(" type=module"));
    assert_eq!(extract_attr("a src=\"x\" b", "src").as_deref(), Some("x"));
    assert_eq!(extract_attr("src=\"x' src='y'", "src"), None);
    assert_eq!(normalize_local_path("//x".to_string()), None);
    assert_eq!(normalize_local_path("/x".to_string()).as_deref(), Some("/x"));
}

fn response(status: u16, content_type: &str, body: &str) -> HttpResponse {
    HttpResponse {
        status,
        headers: vec![("content-type".to_string(), content_type.to_string())],
        body: body.as_bytes().to_vec(),
    }
}

#[test]
fn responses_are_read_from_bytes() {
    let raw = b"HTTP/1.1 200 OK\r\nContent-Type:  text/HTML; x\r\nBroken\r\ncontent-type: Text/Html\r\n\r\n<p>".to_vec();
    let r = parse_http_response(&raw).unwrap();
    assert_eq!(r.status, 200);
    assert_eq!(r.headers.len(), 2);
    assert_eq!(r.body, b"<p>".to_vec());
    assert!(is_html(&r));
    assert!(!is_javascript(&r));
    assert!(is_javascript(&response(200, "application/ECMAscript", "")));
    assert_eq!(
        parse_http_response(&b"HTTP/1.1 200 OK".to_vec()).unwrap_err(),
        "proxy returned a response without headers"
    );
    assert_eq!(
        parse_http_response(&b"\r\n\r\n".to_vec()).unwrap_err(),
        "proxy returned an empty response"
    );
    assert_eq!(
        parse_http_response(&b"ICY 200\r\n\r\n".to_vec()).unwrap_err(),
        "proxy returned a response without an HTTP status: ICY 200"
    );
}

#[test]
fn the_front_page_decides() {
    let settled = |r: RootCheck| match r {
        RootCheck::Settled(h) => h,
        other => panic!("not settled: {other:?}"),
    };
    let h = settled(check_root("a", 80, &Err("refused".to_string())));
    assert!(!h.ok);
    assert_eq!(h.reason, "ProxyProbeFailed");
    assert_eq!(h.message, "http://a:80/ is not reachable through the proxy: refused");
    for status in [502, 503, 504] {
        let h = settled(check_root("a", 80, &Ok(response(status, "text/html", ""))));
        assert!(!h.ok);
        assert_eq!(h.status, Some(status));
    }
    let h = settled(check_root("a", 80, &Ok(response(500, "text/html", ""))));
    assert!(h.ok);
    assert_eq!(h.reason, "HTTP500");
    assert_eq!(h.message, "http://a:80/ returned HTTP 500 through the proxy");
    assert!(settled(check_root("a", 80, &Ok(response(200, "text/plain", "")))).ok);
    assert!(matches!(
        check_root("a", 80, &Ok(response(201, "text/html", ""))),
        RootCheck::Modules(201)
    ));
    let up = check_modules("a", 80, 200, Ok(()));
    assert!(up.ok);
    assert_eq!(
        up.message,
        "http://a:80/ returned HTTP 200 and module assets loaded through the proxy"
    );
    let down = check_modules("a", 80, 200, Err("bad".to_string()));
    assert!(!down.ok);
    assert_eq!(down.reason, "ModuleProbeFailed");
    assert_eq!(down.message, "bad");
}

#[test]
fn modules_are_loaded_once_each() {
    let html = "<script type=\"module\" src=\"/a.js\"></script><script type=\"module\" src=\"/a.js\"></script>";
    let mut check = ModuleCheck::new(&html.as_bytes().to_vec());
    assert_eq!(check.next().as_deref(), Some("/a.js"));
    let a = Ok(response(200, "text/javascript", "import '/b.js'; import '/a.js'; import '/b.js'"));
    assert!(check.on_response("/a.js", &a).is_ok());
    assert_eq!(check.next().as_deref(), Some("/b.js"));
    assert_eq!(
        check
            .on_response("/b.js", &Ok(response(404, "text/\"html", "")))
            .unwrap_err(),
        "module /b.js returned HTTP 404 through the proxy with Content-Type \"text/\\\"html\""
    );
    assert_eq!(
        check
            .on_response("/b.js", &Ok(response(200, "text/html", "")))
            .unwrap_err(),
        "module /b.js returned disallowed MIME type \"text/html\" through the proxy"
    );
    assert_eq!(
        check.on_response("/b.js", &Err("timed out".to_string())).unwrap_err(),
        "module /b.js is not reachable through the proxy: timed out"
    );
    let mut bare = response(500, "", "");
    bare.headers.clear();
    assert_eq!(
        check.on_response("/b.js", &Ok(bare)).unwrap_err(),
        "module /b.js returned HTTP 500 through the proxy with missing Content-Type"
    );
    assert_eq!(check.next(), None);
}

#[test]
fn no_more_modules_than_the_limit_are_loaded() {
    let mut html = String::new();
    for i in 0..40 {
        html.push_str(&format!("<script type=\"module\" src=\"/{i}.js\"></script>"));
    }
    let mut check = ModuleCheck::new(&html.into_bytes());
    let mut n = 0;
    while check.next().is_some() {
        n += 1;
    }
    assert_eq!(n, MAX_MODULES);
}

#[test]
fn requests_name_the_host_and_the_agent() {
    assert_eq!(
        proxy_request("a.localhost", 1360, "/x", "starling-health"),
        "GET /x HTTP/1.1\r\nHost: a.localhost:1360\r\nUser-Agent: starling-health\r\nConnection: close\r\n\r\n"
    );
}
