//! Cookie policy configuration consumed by sessions and by the cookie layer
//! around them: a name, a maximum age, and optional transport attributes.

use vstd::prelude::*;

verus! {

/// Default maximum age of a session cookie: 24 hours, in seconds.
pub const DEFAULT_MAX_AGE_SECS: u64 = 60 * 60 * 24;

/// The mathematical model of a [`CookieOptions`] value.
pub struct CookieOptionsModel {
    /// Cookie name.
    pub name: Seq<char>,
    /// Maximum age, in seconds.
    pub max_age_secs: u64,
    /// Cookie domain, when set.
    pub domain: Option<Seq<char>>,
    /// Cookie path, when set.
    pub path: Option<Seq<char>>,
    /// The `Secure` attribute, when set.
    pub secure: Option<bool>,
    /// The `HttpOnly` attribute, when set.
    pub http_only: Option<bool>,
    /// The `SameSite` attribute, when set.
    pub same_site: Option<Seq<char>>,
}

/// Cookie policy values: immutable after construction and shared read-only
/// by the sessions that carry them.
#[derive(Debug)]
pub struct CookieOptions {
    /// Cookie name, `viz.sid` by default.
    pub name: String,
    /// Cookie maximum age in seconds, 24 hours by default.
    pub max_age_secs: u64,
    /// Cookie domain.
    pub domain: Option<String>,
    /// Cookie path.
    pub path: Option<String>,
    /// Cookie `Secure` attribute.
    pub secure: Option<bool>,
    /// Cookie `HttpOnly` attribute.
    pub http_only: Option<bool>,
    /// Cookie `SameSite` attribute.
    pub same_site: Option<String>,
}

/// The model of an optional string.
pub open spec fn opt_view(o: Option<String>) -> Option<Seq<char>> {
    match o {
        Some(s) => Some(s@),
        None => None,
    }
}

impl View for CookieOptions {
    type V = CookieOptionsModel;

    open spec fn view(&self) -> CookieOptionsModel {
        CookieOptionsModel {
            name: self.name@,
            max_age_secs: self.max_age_secs,
            domain: opt_view(self.domain),
            path: opt_view(self.path),
            secure: self.secure,
            http_only: self.http_only,
            same_site: opt_view(self.same_site),
        }
    }
}

impl CookieOptions {
    /// Creates the default options: name `viz.sid`, maximum age 24 hours,
    /// every other attribute unset.
    pub fn new() -> (r: CookieOptions)
        ensures
            r@.name == "viz.sid"@,
            r@.max_age_secs == DEFAULT_MAX_AGE_SECS,
            r@.domain is None,
            r@.path is None,
            r@.secure is None,
            r@.http_only is None,
            r@.same_site is None,
    {
        CookieOptions {
            name: "viz.sid".to_owned(),
            max_age_secs: DEFAULT_MAX_AGE_SECS,
            domain: None,
            path: None,
            secure: None,
            http_only: None,
            same_site: None,
        }
    }

    /// The same options with `name` replaced.
    pub fn with_name(self, name: String) -> (r: CookieOptions)
        ensures
            r@ == (CookieOptionsModel { name: name@, ..self@ }),
    {
        CookieOptions { name, ..self }
    }

    /// The same options with `max_age_secs` replaced.
    pub fn with_max_age(self, max_age_secs: u64) -> (r: CookieOptions)
        ensures
            r@ == (CookieOptionsModel { max_age_secs, ..self@ }),
    {
        CookieOptions { max_age_secs, ..self }
    }

    /// The same options with `domain` set.
    pub fn with_domain(self, domain: String) -> (r: CookieOptions)
        ensures
            r@ == (CookieOptionsModel { domain: Some(domain@), ..self@ }),
    {
        CookieOptions { domain: Some(domain), ..self }
    }

    /// The same options with `path` set.
    pub fn with_path(self, path: String) -> (r: CookieOptions)
        ensures
            r@ == (CookieOptionsModel { path: Some(path@), ..self@ }),
    {
        CookieOptions { path: Some(path), ..self }
    }

    /// The same options with `secure` set.
    pub fn with_secure(self, secure: bool) -> (r: CookieOptions)
        ensures
            r@ == (CookieOptionsModel { secure: Some(secure), ..self@ }),
    {
        CookieOptions { secure: Some(secure), ..self }
    }

    /// The same options with `http_only` set.
    pub fn with_http_only(self, http_only: bool) -> (r: CookieOptions)
        ensures
            r@ == (CookieOptionsModel { http_only: Some(http_only), ..self@ }),
    {
        CookieOptions { http_only: Some(http_only), ..self }
    }

    /// The same options with `same_site` set.
    pub fn with_same_site(self, same_site: String) -> (r: CookieOptions)
        ensures
            r@ == (CookieOptionsModel { same_site: Some(same_site@), ..self@ }),
    {
        CookieOptions { same_site: Some(same_site), ..self }
    }
}

} // verus!
