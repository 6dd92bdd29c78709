//! Target policy: which target URLs this receiver accepts mentions for.
//!
//! A target is acceptable exactly when it parses as a URL whose host is on
//! the configured allow-list. A malformed or hostless target is told apart
//! from one with a host outside the list, since the two map to different
//! client-visible rejections.

use vstd::prelude::*;

verus! {

/// Why an inbound submission was rejected.
#[derive(Debug, Clone, Copy, PartialEq, Eq, Structural)]
pub enum ValidationError {
    /// The target does not parse as a URL with a host.
    InvalidTargetUrl,
    /// The target's host is not on the allow-list.
    DisallowedHost,
}

/// Process-wide, read-only configuration: the hosts this receiver accepts
/// webmention targets on.
pub struct MentionConfig {
    pub allowed_target_hosts: Vec<String>,
}

/// The host of `url` as the url crate parses it, or `None` where the text
/// is not a URL or the URL has no host.
pub uninterp spec fn host_of(url: Seq<char>) -> Option<Seq<char>>;

/// Relies on `url::Url::parse` and `Url::host_str`: the normalized host
/// part of the URL, absent where the text does not parse as a URL or the
/// URL is hostless.
#[verifier::external_body]
fn target_host(url: &str) -> (r: Option<String>)
    ensures
        r is Some <==> host_of(url@) is Some,
        r matches Some(h) ==> host_of(url@) == Some(h@),
{
    match url::Url::parse(url) {
        Ok(u) => match u.host_str() {
            Some(h) => Some(h.to_owned()),
            None => None,
        },
        Err(_) => None,
    }
}

/// Whether `host` is one of the allowed hosts (exact match).
pub open spec fn host_allowed(host: Seq<char>, allowed: Seq<String>) -> bool {
    exists|i: int| 0 <= i < allowed.len() && allowed[i]@ == host
}

/// What target validation yields on a target with text `t`.
pub open spec fn spec_validate(t: Seq<char>, allowed: Seq<String>) -> Result<(), ValidationError> {
    match host_of(t) {
        None => Err(ValidationError::InvalidTargetUrl),
        Some(h) => if host_allowed(h, allowed) {
            Ok(())
        } else {
            Err(ValidationError::DisallowedHost)
        },
    }
}

/// Accepts a target URL exactly when its host is on the allow-list.
pub fn validate_target(target: &str, allowed_hosts: &Vec<String>) -> (r: Result<
    (),
    ValidationError,
>)
    ensures
        r == spec_validate(target@, allowed_hosts@),
{
    let host = match target_host(target) {
        Some(h) => h,
        None => {
            return Err(ValidationError::InvalidTargetUrl);
        },
    };
    let n = allowed_hosts.len();
    let mut i: usize = 0;
    while i < n
        invariant
            i <= n,
            n == allowed_hosts.len(),
            host_of(target@) == Some(host@),
            forall|j: int| 0 <= j < i ==> allowed_hosts@[j]@ != host@,
        decreases n - i,
    {
        if allowed_hosts[i] == host {
            proof {
                assert(host_allowed(host@, allowed_hosts@)) by {
                    assert(allowed_hosts@[i as int]@ == host@);
                }
            }
            return Ok(());
        }
        i += 1;
    }
    Err(ValidationError::DisallowedHost)
}

} // verus!
