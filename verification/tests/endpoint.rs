use ferrugem::endpoint::is_usable_url;
use ferrugem::endpoint::locate;
use ferrugem::endpoint::resolve_target;
use ferrugem::endpoint::Origin;
use ferrugem::endpoint::ResolveError;
use ferrugem::endpoint::Target;

#[test]
fn reads_host_and_explicit_port() {
    assert_eq!(
        resolve_target("http://example.com:8080/api"),
        Ok(Target { host: "example.com".to_string(), port: 8080 })
    );
}

#[test]
fn known_schemes_have_default_ports() {
    assert_eq!(
        resolve_target("https://jsonplaceholder.typicode.com"),
        Ok(Target { host: "jsonplaceholder.typicode.com".to_string(), port: 443 })
    );
    assert_eq!(
        resolve_target("http://127.0.0.1"),
        Ok(Target { host: "127.0.0.1".to_string(), port: 80 })
    );
}

#[test]
fn unknown_scheme_falls_back_to_port_80() {
    assert_eq!(
        resolve_target("foo://example.com"),
        Ok(Target { host: "example.com".to_string(), port: 80 })
    );
}

#[test]
fn text_that_is_no_url_is_refused() {
    assert_eq!(resolve_target("not a url"), Err(ResolveError::InvalidUrl));
    assert_eq!(resolve_target(""), Err(ResolveError::InvalidUrl));
    assert_eq!(resolve_target("/relative/path"), Err(ResolveError::InvalidUrl));
}

#[test]
fn url_without_host_is_refused() {
    assert_eq!(resolve_target("data:text/plain,Stuff"), Err(ResolveError::NoHost));
    assert_eq!(resolve_target("unix:/run/foo.socket"), Err(ResolveError::NoHost));
}

#[test]
fn locate_maps_every_origin() {
    assert_eq!(locate(None), Err(ResolveError::InvalidUrl));
    assert_eq!(locate(Some(Origin { host: None, port: Some(1) })), Err(ResolveError::NoHost));
    assert_eq!(
        locate(Some(Origin { host: Some("h".to_string()), port: None })),
        Ok(Target { host: "h".to_string(), port: 80 })
    );
    assert_eq!(
        locate(Some(Origin { host: Some("h".to_string()), port: Some(9) })),
        Ok(Target { host: "h".to_string(), port: 9 })
    );
}

#[test]
fn usable_means_absolute_with_host() {
    assert!(is_usable_url("http://127.0.0.1:9999"));
    assert!(!is_usable_url("mailto:someone@example.com"));
    assert!(!is_usable_url("example.com"));
}

#[test]
fn errors_have_messages() {
    assert_eq!(ResolveError::InvalidUrl.message(), "Invalid URL");
    assert_eq!(ResolveError::NoHost.message(), "No host found");
}
