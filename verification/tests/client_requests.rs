use centralenv::client::{check_status, env_url, Config, FetchError};

#[test]
fn url_drops_trailing_slashes_of_server() {
    assert_eq!(
        env_url("http://100.1.2.3:3001///", "acme-api", "production"),
        "http://100.1.2.3:3001/api/projects/acme-api/env?environment=production"
    );
    assert_eq!(env_url("https://h", "p", "dev"), "https://h/api/projects/p/env?environment=dev");
    assert_eq!(env_url("/", "p", "e"), "/api/projects/p/env?environment=e");
}

#[test]
fn status_401_is_unauthorized() {
    assert_eq!(check_status(401), Err(FetchError::Unauthorized));
}

#[test]
fn status_404_is_not_found() {
    assert_eq!(check_status(404), Err(FetchError::NotFound));
}

#[test]
fn other_failures_are_server_errors() {
    assert_eq!(check_status(500), Err(FetchError::Server(500)));
    assert_eq!(check_status(302), Err(FetchError::Server(302)));
    assert_eq!(check_status(199), Err(FetchError::Server(199)));
}

#[test]
fn success_statuses_pass() {
    assert_eq!(check_status(200), Ok(()));
    assert_eq!(check_status(204), Ok(()));
    assert_eq!(check_status(299), Ok(()));
}

#[test]
fn config_holds_url_and_token() {
    let cfg = Config { server_url: "http://x".to_string(), token: "t".to_string() };
    assert_eq!(cfg.server_url, "http://x");
    assert_eq!(cfg.token, "t");
}
