//! What the proxy slots show of a site's TLS certificate: where it is kept,
//! who issued it, when it expires and how many days it has left.
use vstd::prelude::*;
use crate::text::{concat3, owned};

verus! {

/// The file that holds the certificate of `domain`: `./certs/<domain>.crt`.
pub fn cert_path(domain: &str) -> (r: String)
    ensures
        r@ == "./certs/"@ + domain@ + ".crt"@,
{
    concat3("./certs/", domain, ".crt")
}

/// Whether a rule's certificate comes from Let's Encrypt.
pub open spec fn is_letsencrypt(ssl_status: Seq<char>) -> bool {
    ssl_status == "active_letsencrypt"@
}

/// How long a certificate is valid, in days: 90 for Let's Encrypt, 365 for a
/// self-signed one.
pub open spec fn validity_days(ssl_status: Seq<char>) -> int {
    if is_letsencrypt(ssl_status) {
        90
    } else {
        365
    }
}

/// A point in time as seconds and nanoseconds since the Unix epoch.
pub open spec fn time_nanos(t: (u64, u32)) -> int {
    t.0 * 1_000_000_000 + t.1
}

/// Whether a time's nanoseconds are below one second.
pub open spec fn valid_time(t: (u64, u32)) -> bool {
    t.1 < 1_000_000_000
}

/// The whole days left from `now` until `expires`, or 0 once it has passed.
pub open spec fn days_left(expires: (u64, u32), now: (u64, u32)) -> int {
    if time_nanos(expires) >= time_nanos(now) {
        (time_nanos(expires) - time_nanos(now)) / 1_000_000_000 / 86400
    } else {
        0
    }
}

/// What is shown of a certificate.
pub struct CertDetails {
    pub issuer: String,
    /// When it expires (seconds, nanoseconds since the epoch); `None` shows as
    /// `N/A`.
    pub expires_at: Option<(u64, u32)>,
    pub days_remaining: i64,
}

/// The details of a certificate whose file was last modified at `modified`
/// (`None` when there is no such file, or its time cannot be read), seen at
/// `now`: it expires `validity_days` after it was written.
pub fn cert_details(ssl_status: &str, modified: Option<(u64, u32)>, now: (u64, u32)) -> (r: CertDetails)
    requires
        modified matches Some(m) ==> valid_time(m),
        valid_time(now),
    ensures
        match modified {
            Some(m) => if m.0 + validity_days(ssl_status@) * 86400 <= u64::MAX {
                &&& r.issuer@ == (if is_letsencrypt(ssl_status@) {
                    "Let's Encrypt"@
                } else {
                    "Self-Signed"@
                })
                &&& r.expires_at == Some(((m.0 + validity_days(ssl_status@) * 86400) as u64, m.1))
                &&& r.days_remaining == days_left(((m.0 + validity_days(ssl_status@) * 86400) as u64, m.1), now)
            } else {
                r.issuer@ == "None"@ && r.expires_at is None && r.days_remaining == 0
            },
            None => r.issuer@ == "None"@ && r.expires_at is None && r.days_remaining == 0,
        },
{
    let letsencrypt = owned(ssl_status) == owned("active_letsencrypt");
    let validity: u64 = if letsencrypt { 90 * 86400 } else { 365 * 86400 };
    match modified {
        Some(m) => {
            match m.0.checked_add(validity) {
                Some(secs) => {
                    let expires: (u64, u32) = (secs, m.1);
                    let days: u64 = if secs > now.0 || (secs == now.0 && m.1 >= now.1) {
                        let whole: u64 = if m.1 >= now.1 { secs - now.0 } else { secs - now.0 - 1 };
                        proof {
                            lemma_whole_seconds(expires, now);
                        }
                        whole / 86400
                    } else {
                        0
                    };
                    let issuer = if letsencrypt { owned("Let's Encrypt") } else { owned("Self-Signed") };
                    CertDetails { issuer, expires_at: Some(expires), days_remaining: days as i64 }
                },
                None => CertDetails { issuer: owned("None"), expires_at: None, days_remaining: 0 },
            }
        },
        None => CertDetails { issuer: owned("None"), expires_at: None, days_remaining: 0 },
    }
}

/// The whole seconds between two valid times, the later first.
proof fn lemma_whole_seconds(e: (u64, u32), n: (u64, u32))
    requires
        valid_time(e),
        valid_time(n),
        e.0 > n.0 || (e.0 == n.0 && e.1 >= n.1),
    ensures
        time_nanos(e) >= time_nanos(n),
        (time_nanos(e) - time_nanos(n)) / 1_000_000_000 == if e.1 >= n.1 {
            e.0 - n.0
        } else {
            e.0 - n.0 - 1
        },
{
    let d = time_nanos(e) - time_nanos(n);
    if e.1 >= n.1 {
        let q = e.0 - n.0;
        let r = e.1 - n.1;
        assert(d == q * 1_000_000_000 + r);
        assert(0 <= r < 1_000_000_000);
        vstd::arithmetic::div_mod::lemma_fundamental_div_mod_converse(d, 1_000_000_000, q, r);
    } else {
        let q = e.0 - n.0 - 1;
        let r = 1_000_000_000 + e.1 - n.1;
        assert(d == q * 1_000_000_000 + r);
        assert(0 <= r < 1_000_000_000);
        vstd::arithmetic::div_mod::lemma_fundamental_div_mod_converse(d, 1_000_000_000, q, r);
    }
}

} // verus!
