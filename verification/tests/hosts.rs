use raptor::config::{Config, ConfigError};
use raptor::handlers::{select_vhost, should_keep_connection};
use raptor::method_handlers::{extension_or_txt, handle_request, is_path_traversal, resolve_path, root_path, Handling};
use raptor::http11::Request;
use raptor::response::IoFailure;
use raptor::vhosts::{Vhost, VhostManager};

fn vhost(name: &str, ip: &str, port: u16, tls: bool, default: Option<bool>) -> Vhost {
    Vhost {
        name: name.to_string(),
        ip: ip.to_string(),
        port,
        is_ipv6: ip.contains(':'),
        cert_key: if tls { Some("cert.pem".to_string()) } else { None },
        private_key: if tls { Some("key.pem".to_string()) } else { None },
        root_dir: "/srv".to_string(),
        is_default: default,
    }
}

fn config(root: &str, default_file: Option<&str>) -> Config {
    Config {
        ip: "127.0.0.1".to_string(),
        port: 8000,
        cert_path: "cert.pem".to_string(),
        key_path: "key.pem".to_string(),
        root_dir: root.to_string(),
        default_file: default_file.map(|s| s.to_string()),
        log_file: None,
    }
}

#[test]
fn one_listener_per_address() {
    let manager = VhostManager::from_vhosts(vec![
        vhost("a.org", "127.0.0.1", 80, false, None),
        vhost("b.org", "127.0.0.1", 80, true, None),
        vhost("c.org", "::1", 443, true, None),
        vhost("d.org", "127.0.0.1", 8080, false, None),
    ]);
    let listeners = manager.init_listeners();
    let seen: Vec<(Vec<u8>, bool, usize)> = listeners.into_iter().map(|l| (l.address, l.tls, l.vhost)).collect();
    assert_eq!(
        seen,
        vec![
            (b"127.0.0.1:80".to_vec(), false, 0),
            (b"[::1]:443".to_vec(), true, 2),
            (b"127.0.0.1:8080".to_vec(), false, 3),
        ]
    );
}

#[test]
fn host_selection() {
    let hosts = vec![vhost("*.org", "1.1.1.1", 80, false, None), vhost("other", "1.1.1.1", 80, false, Some(true))];
    // The header's name is what the patterns are matched against.
    let headers = vec![("Host".to_string(), b"x.org".to_vec())];
    match select_vhost(&hosts, &headers) {
        Some(Ok(v)) => assert_eq!(v.name, "other"),
        other => panic!("unexpected {:?}", other.map(|r| r.map(|v| v.name.clone()))),
    }
    let hosts2 = vec![vhost("Ho*", "1.1.1.1", 80, false, None), vhost("other", "1.1.1.1", 80, false, Some(true))];
    match select_vhost(&hosts2, &headers) {
        Some(Ok(v)) => assert_eq!(v.name, "Ho*"),
        _ => panic!("expected the first host"),
    }
    let no_default = vec![vhost("zzz", "1.1.1.1", 80, false, None), vhost("yyy", "1.1.1.1", 80, false, None)];
    match select_vhost(&no_default, &headers) {
        Some(Ok(v)) => assert_eq!(v.name, "zzz"),
        _ => panic!("expected the first host"),
    }
    match select_vhost(&hosts, &[("Accept".to_string(), b"*/*".to_vec())]) {
        Some(Err(e)) => assert_eq!(e, "Invalid request."),
        _ => panic!("expected an error"),
    }
    let bad = vec![vhost("[", "1.1.1.1", 80, false, None)];
    assert!(select_vhost(&bad, &headers).is_none());
}

#[test]
fn keep_alive() {
    assert!(should_keep_connection(&[("Connection".to_string(), b"keep-alive".to_vec())]));
    assert!(!should_keep_connection(&[("Connection".to_string(), b"close".to_vec())]));
    assert!(!should_keep_connection(&[("Keep".to_string(), b"keep-alive".to_vec())]));
}

#[test]
fn configuration_checks() {
    assert_eq!(config("/srv", None).get_default_file(), "index.html");
    assert_eq!(config("/srv", Some("home.htm")).get_default_file(), "home.htm");
    assert!(config("/srv", None).check(false).is_ok());
    assert!(matches!(config("/srv", None).check(true), Err(ConfigError::RootFolderIsAFile(p)) if p == "/srv"));
    assert!(matches!(config("srv", None).check(false), Err(ConfigError::RootPathNotAbsolute(p)) if p == "srv"));
}

#[test]
fn paths_of_requests() {
    let conf = config("/srv/www", None);
    assert_eq!(root_path(&conf, b"/a/b.txt"), "/srv/www/a/b.txt");
    assert_eq!(root_path(&conf, b"a.txt"), "/srv/www/a.txt");
    // A second leading slash makes the path absolute: it replaces the root.
    assert_eq!(root_path(&conf, b"//etc/passwd"), "/etc/passwd");
    assert_eq!(resolve_path(&conf, "/srv/www/docs".to_string(), true), "/srv/www/docs/index.html");
    assert_eq!(resolve_path(&conf, "/srv/www/a.txt".to_string(), false), "/srv/www/a.txt");
    assert!(!is_path_traversal("/srv/www/a.txt", &conf));
    assert!(is_path_traversal("/srv/www2/a.txt", &conf));
    assert!(is_path_traversal("/etc/passwd", &conf));
    assert_eq!(extension_or_txt("/srv/www/a.tar.gz"), "gz");
    assert_eq!(extension_or_txt("/srv/www/README"), "txt");
}

#[test]
fn request_handling_decisions() {
    let req = Request::try_from(Some(&b"GET"[..]), Some(&b"/a"[..])).unwrap();
    assert!(matches!(handle_request(&req, "/srv/a", Ok(false)), Handling::ReadFile));
    match handle_request(&req, "/etc/passwd", Ok(true)) {
        Handling::Respond(r) => assert_eq!(r.code, 403),
        _ => panic!("expected a response"),
    }
    match handle_request(&req, "/srv/missing", Err(IoFailure::NotFound)) {
        Handling::Respond(r) => assert_eq!(r.code, 404),
        _ => panic!("expected a response"),
    }
}
