use sessions::CookieOptions;

#[test]
fn defaults_name_and_max_age() {
    let opts = CookieOptions::new();
    assert_eq!(opts.name, "viz.sid");
    assert_eq!(opts.max_age_secs, 60 * 60 * 24);
    assert_eq!(opts.domain, None);
    assert_eq!(opts.path, None);
    assert_eq!(opts.secure, None);
    assert_eq!(opts.http_only, None);
    assert_eq!(opts.same_site, None);
}

#[test]
fn builders_replace_each_field() {
    let opts = CookieOptions::new()
        .with_name("app.sid".to_string())
        .with_max_age(3600)
        .with_domain("example.test".to_string())
        .with_path("/".to_string())
        .with_secure(true)
        .with_http_only(true)
        .with_same_site("Lax".to_string());
    assert_eq!(opts.name, "app.sid");
    assert_eq!(opts.max_age_secs, 3600);
    assert_eq!(opts.domain.as_deref(), Some("example.test"));
    assert_eq!(opts.path.as_deref(), Some("/"));
    assert_eq!(opts.secure, Some(true));
    assert_eq!(opts.http_only, Some(true));
    assert_eq!(opts.same_site.as_deref(), Some("Lax"));
}
