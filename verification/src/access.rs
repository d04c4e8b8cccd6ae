//! Requests and who makes them: roles, the panel's entrance path, cookies, the
//! answer to an unauthenticated request, the response being built, and the
//! small readings of script arguments that the slots share.
use vstd::prelude::*;
use vstd::string::StringSliceAdditionalSpecFns;
use crate::memory::{lowercase, to_lowercase};
use crate::text::{
    chars_of, concat, concat3, contains, contains_exec, owned, split, split_exec, split_once, split_once_exec,
    starts_with, starts_with_exec, string_of_range, trim, trim_exec, trim_start_matches, trim_start_matches_exec,
    views,
};

verus! {

/// Whether a user with `role` holds `required`: admins hold every role,
/// editors the editor and viewer roles, viewers the viewer role; unknown
/// roles are held by nobody.
pub open spec fn role_satisfies(role: Seq<char>, required: Seq<char>) -> bool {
    if required == "admin"@ {
        role == "admin"@
    } else if required == "editor"@ {
        role == "admin"@ || role == "editor"@
    } else if required == "viewer"@ {
        role == "admin"@ || role == "editor"@ || role == "viewer"@
    } else {
        false
    }
}

/// Whether a user with `role` holds `required`.
pub fn has_role(role: &str, required: &str) -> (b: bool)
    ensures
        b == role_satisfies(role@, required@),
{
    let r = owned(role);
    let q = owned(required);
    let admin = owned("admin");
    let editor = owned("editor");
    let viewer = owned("viewer");
    if q == admin {
        r == admin
    } else if q == editor {
        r == admin || r == editor
    } else if q == viewer {
        r == admin || r == editor || r == viewer
    } else {
        false
    }
}

/// Whether a user with `role` is an administrator.
pub fn is_admin(role: &str) -> (b: bool)
    ensures
        b == (role@ == "admin"@),
        b == role_satisfies(role@, "admin"@),
{
    owned(role) == owned("admin")
}

/// The roles are ordered: whoever holds a role holds every role below it, and
/// an administrator is exactly who holds the admin role.
pub proof fn law_role_hierarchy(role: Seq<char>)
    ensures
        role_satisfies(role, "admin"@) ==> role_satisfies(role, "editor"@),
        role_satisfies(role, "editor"@) ==> role_satisfies(role, "viewer"@),
        role_satisfies(role, "admin"@) <==> role == "admin"@,
{
    reveal_strlit("admin");
    reveal_strlit("editor");
    reveal_strlit("viewer");
    assert("admin"@ != "editor"@ && "admin"@ != "viewer"@ && "editor"@ != "viewer"@) by {
        assert("admin"@[0] != "editor"@[0]);
        assert("admin"@[0] != "viewer"@[0]);
        assert("editor"@[0] != "viewer"@[0]);
    }
}

/// A new entrance path: trimmed, with a leading `/` added when missing; none
/// for empty text.
pub open spec fn entrance_path_of(p: Seq<char>) -> Option<Seq<char>> {
    let t = trim(p);
    if t.len() == 0 {
        None
    } else if starts_with(t, "/"@) {
        Some(t)
    } else {
        Some("/"@ + t)
    }
}

/// A new entrance path, or `None` for empty text (which changes nothing).
pub fn normalize_entrance_path(p: &str) -> (r: Option<String>)
    ensures
        crate::image::opt_view(r) == entrance_path_of(p@),
{
    let t = trim_exec(p);
    if t.as_str().is_empty() {
        None
    } else if starts_with_exec(t.as_str(), "/") {
        Some(t)
    } else {
        Some(concat("/", t.as_str()))
    }
}

/// The `Set-Cookie` value for a cookie.
pub open spec fn cookie_text(
    name: Seq<char>,
    value: Seq<char>,
    path: Seq<char>,
    same_site: Seq<char>,
    http_only: bool,
    max_age: Option<int>,
) -> Seq<char> {
    name + "="@ + value + "; Path="@ + path + "; SameSite="@ + same_site + (if http_only {
        "; HttpOnly"@
    } else {
        Seq::empty()
    }) + match max_age {
        Some(a) => "; Max-Age="@ + crate::num::decimal(a),
        None => Seq::empty(),
    }
}

/// The `Set-Cookie` value for a cookie.
pub fn set_cookie_value(
    name: &str,
    value: &str,
    path: &str,
    same_site: &str,
    http_only: bool,
    max_age: Option<i64>,
) -> (r: String)
    ensures
        r@ == cookie_text(name@, value@, path@, same_site@, http_only, match max_age {
            Some(a) => Some(a as int),
            None => None,
        }),
{
    let a = concat3(name, "=", value);
    let b = concat3(a.as_str(), "; Path=", path);
    let mut c = concat3(b.as_str(), "; SameSite=", same_site);
    if http_only {
        c = concat(c.as_str(), "; HttpOnly");
    }
    match max_age {
        Some(age) => {
            let n = crate::num::int_to_string(age);
            c = concat3(c.as_str(), "; Max-Age=", n.as_str());
        },
        None => {},
    }
    c
}

/// The `Set-Cookie` value that clears a cookie.
pub fn clear_cookie_value(name: &str, path: &str, same_site: &str) -> (r: String)
    ensures
        r@ == name@ + "="@ + "; Path="@ + path@ + "; Max-Age=0; SameSite="@ + same_site@,
{
    let a = concat3(name, "=", "; Path=");
    let b = concat3(a.as_str(), path, "; Max-Age=0; SameSite=");
    concat(b.as_str(), same_site)
}

/// The answer to a request that is not authenticated: API paths get a JSON
/// refusal with status 401; other paths a plain 404, so the panel does not
/// show that it is there.
pub open spec fn denial_of(path: Seq<char>) -> (u16, Seq<char>, Seq<u8>) {
    if starts_with(path, "/api/"@) {
        (
            401u16,
            "application/json"@,
            "{\"message\":\"Unauthorized: Silakan login terlebih dahulu\",\"success\":false}".spec_bytes(),
        )
    } else {
        (404u16, "text/plain; charset=utf-8"@, "Halaman tidak ditemukan.".spec_bytes())
    }
}

/// A response being built: its status, headers, cookies and body.
pub struct HttpResponseBuilder {
    pub status: u16,
    pub headers: Vec<(String, String)>,
    pub cookies: Vec<String>,
    pub body: Option<Vec<u8>>,
}

/// The value of header `name` in `headers`, if set.
pub open spec fn header_value(headers: Seq<(Seq<char>, Seq<char>)>, name: Seq<char>) -> Option<Seq<char>> {
    crate::compose::env_lookup(headers, name)
}

impl HttpResponseBuilder {
    /// A response with status 200, no headers, no cookies and no body.
    pub fn new() -> (r: HttpResponseBuilder)
        ensures
            r.status == 200,
            r.headers@.len() == 0,
            r.cookies@.len() == 0,
            r.body is None,
    {
        HttpResponseBuilder { status: 200, headers: Vec::new(), cookies: Vec::new(), body: None }
    }

    /// Sets header `name` to `value`, replacing an earlier value.
    pub fn set_header(&mut self, name: &str, value: &str)
        ensures
            crate::compose::pairs_view(final(self).headers@) == crate::compose::env_insert(
                crate::compose::pairs_view(old(self).headers@),
                name@,
                value@,
            ),
            forall|other: Seq<char>|
                #[trigger] header_value(crate::compose::pairs_view(final(self).headers@), other) == if other == name@ {
                    Some(value@)
                } else {
                    header_value(crate::compose::pairs_view(old(self).headers@), other)
                },
            final(self).status == old(self).status,
            final(self).cookies == old(self).cookies,
            final(self).body == old(self).body,
    {
        crate::compose::env_insert_exec(&mut self.headers, owned(name), owned(value));
        proof {
            assert forall|other: Seq<char>|
                #[trigger] header_value(crate::compose::pairs_view(self.headers@), other) == if other == name@ {
                    Some(value@)
                } else {
                    header_value(crate::compose::pairs_view(old(self).headers@), other)
                } by {
                crate::compose::law_env_lookup_after_insert(
                    crate::compose::pairs_view(old(self).headers@),
                    name@,
                    value@,
                    other,
                );
            }
        }
    }

    /// Adds a `Set-Cookie` value.
    pub fn add_cookie(&mut self, cookie: String)
        ensures
            final(self).cookies@ == old(self).cookies@.push(cookie),
            final(self).status == old(self).status,
            final(self).headers == old(self).headers,
            final(self).body == old(self).body,
    {
        self.cookies.push(cookie);
    }

    /// Answers with `status`, content type `content_type` and the UTF-8 bytes
    /// of `body`.
    pub fn respond(&mut self, status: u16, content_type: &str, body: &str)
        ensures
            final(self).status == status,
            crate::compose::pairs_view(final(self).headers@) == crate::compose::env_insert(
                crate::compose::pairs_view(old(self).headers@),
                "Content-Type"@,
                content_type@,
            ),
            final(self).body matches Some(b) && b@ == body.spec_bytes(),
            final(self).cookies == old(self).cookies,
    {
        self.status = status;
        self.set_header("Content-Type", content_type);
        let bytes = body.as_bytes();
        let mut v: Vec<u8> = Vec::new();
        let mut i: usize = 0;
        while i < bytes.len()
            invariant
                i <= bytes@.len(),
                v@ == bytes@.subrange(0, i as int),
            decreases bytes@.len() - i,
        {
            v.push(bytes[i]);
            assert(v@ =~= bytes@.subrange(0, i + 1));
            i += 1;
        }
        assert(bytes@.subrange(0, bytes@.len() as int) =~= bytes@);
        self.body = Some(v);
    }

    /// Redirects to `location` with `status`, with an empty body.
    pub fn redirect(&mut self, location: &str, status: u16)
        ensures
            final(self).status == status,
            crate::compose::pairs_view(final(self).headers@) == crate::compose::env_insert(
                crate::compose::pairs_view(old(self).headers@),
                "Location"@,
                location@,
            ),
            final(self).body matches Some(b) && b@.len() == 0,
            final(self).cookies == old(self).cookies,
    {
        self.status = status;
        self.set_header("Location", location);
        self.body = Some(Vec::new());
    }

    /// Answers a log download whose file does not exist: 404 with a JSON
    /// message.
    pub fn respond_log_missing(&mut self)
        ensures
            final(self).status == 404,
            crate::compose::pairs_view(final(self).headers@) == crate::compose::env_insert(
                crate::compose::pairs_view(old(self).headers@),
                "Content-Type"@,
                "application/json"@,
            ),
            final(self).body matches Some(b) && b@ == "{\"message\":\"Log file not found\"}".spec_bytes(),
            final(self).cookies == old(self).cookies,
    {
        self.respond(404, "application/json", "{\"message\":\"Log file not found\"}");
    }

    /// Answers a log download with the log's `content`, as an attachment named
    /// after the process.
    pub fn respond_log(&mut self, proc_id: &str, content: &str)
        ensures
            final(self).status == 200,
            crate::compose::pairs_view(final(self).headers@) == crate::compose::env_insert(
                crate::compose::env_insert(
                    crate::compose::pairs_view(old(self).headers@),
                    "Content-Type"@,
                    "application/octet-stream"@,
                ),
                "Content-Disposition"@,
                "attachment; filename=\""@ + proc_id@ + ".log\""@,
            ),
            final(self).body matches Some(b) && b@ == content.spec_bytes(),
            final(self).cookies == old(self).cookies,
    {
        self.respond(200, "application/octet-stream", content);
        let disposition = concat3("attachment; filename=\"", proc_id, ".log\"");
        self.set_header("Content-Disposition", disposition.as_str());
    }

    /// Answers a request that is not authenticated (see `denial_of`).
    pub fn deny_unauthenticated(&mut self, path: &str)
        ensures
            final(self).status == denial_of(path@).0,
            crate::compose::pairs_view(final(self).headers@) == crate::compose::env_insert(
                crate::compose::pairs_view(old(self).headers@),
                "Content-Type"@,
                denial_of(path@).1,
            ),
            final(self).body matches Some(b) && b@ == denial_of(path@).2,
    {
        if starts_with_exec(path, "/api/") {
            let body = "{\"message\":\"Unauthorized: Silakan login terlebih dahulu\",\"success\":false}";
            self.respond(401, "application/json", body);
        } else {
            let body = "Halaman tidak ditemukan.";
            self.respond(404, "text/plain; charset=utf-8", body);
        }
    }
}

/// The status a slot names: its integer truncated to 16 bits.
pub fn status_code(n: i64) -> (r: u16)
    ensures
        r == n as u16,
{
    n as u16
}

/// The variable named by an `as` argument: without leading `$`.
pub fn target_name(v: &str) -> (r: String)
    ensures
        r@ == trim_start_matches(v@, "$"@),
{
    trim_start_matches_exec(v, "$")
}

/// The variable named by the `as` argument of `coalesce`: trimmed, without
/// leading `$`, trimmed again.
pub fn coalesce_target_name(v: &str) -> (r: String)
    ensures
        r@ == trim(trim_start_matches(trim(v@), "$"@)),
{
    let t = trim_exec(v);
    let u = trim_start_matches_exec(t.as_str(), "$");
    trim_exec(u.as_str())
}

/// Whether text stands for no value: empty, `nil`, `<nil>`, or an unresolved
/// `$variable`.
pub open spec fn nil_text(s: Seq<char>) -> bool {
    s.len() == 0 || s == "nil"@ || s == "<nil>"@ || starts_with(s, "$"@)
}

/// Whether text stands for no value.
pub fn is_nil_text(s: &str) -> (b: bool)
    ensures
        b == nil_text(s@),
{
    let o = owned(s);
    s.is_empty() || o == owned("nil") || o == owned("<nil>") || starts_with_exec(s, "$")
}

/// The parts of a `contains` condition `expr, value: search`: the trimmed
/// expression before the first comma, and the search expression after the
/// first colon of the trimmed second part (none when it has no colon);
/// `None` without a comma.
pub open spec fn contains_parts(s: Seq<char>) -> Option<(Seq<char>, Option<Seq<char>>)> {
    let parts = split(trim(s), ","@);
    if parts.len() >= 2 {
        let second = trim(parts[1]);
        Some(
            (
                trim(parts[0]),
                match split_once(second, ":"@) {
                    (_, Some(v)) => Some(trim(v)),
                    (_, None) => None,
                },
            ),
        )
    } else {
        None
    }
}

/// The parts of a `contains` condition.
pub fn parse_contains_condition(s: &str) -> (r: Option<(String, Option<String>)>)
    ensures
        match contains_parts(s@) {
            Some((m, q)) => r matches Some((a, b)) && a@ == m && crate::image::opt_view(b) == q,
            None => r is None,
        },
{
    proof {
        reveal_strlit(",");
    }
    let t = trim_exec(s);
    let parts = split_exec(t.as_str(), ",");
    if parts.len() >= 2 {
        assert(views(parts@)[0] == parts@[0]@ && views(parts@)[1] == parts@[1]@);
        let second = trim_exec(parts[1].as_str());
        let (_, rest) = split_once_exec(second.as_str(), ":");
        let q = match rest {
            Some(v) => Some(trim_exec(v.as_str())),
            None => None,
        };
        Some((trim_exec(parts[0].as_str()), q))
    } else {
        None
    }
}

/// Whether a value names something to download: in lower case, it starts with
/// `http://` or `https://`.
pub fn is_download_url(v: &str) -> (b: bool)
    ensures
        b == (starts_with(lowercase(v@), "http://"@) || starts_with(lowercase(v@), "https://"@)),
{
    let l = to_lowercase(v);
    starts_with_exec(l.as_str(), "http://") || starts_with_exec(l.as_str(), "https://")
}

/// The client address a request names: the first entry of its forwarding
/// header, trimmed, or `unknown` when it has none.
pub fn client_ip(forwarded: &Option<String>) -> (r: String)
    ensures
        r@ == match forwarded {
            Some(h) => trim(split(h@, ","@)[0]),
            None => "unknown"@,
        },
{
    proof {
        reveal_strlit(",");
    }
    match forwarded {
        Some(h) => {
            let parts = split_exec(h.as_str(), ",");
            proof {
                crate::text::lemma_split_nonempty(h@, ","@);
            }
            assert(views(parts@)[0] == parts@[0]@);
            trim_exec(parts[0].as_str())
        },
        None => owned("unknown"),
    }
}

/// The boundary that a multipart content type names.
pub uninterp spec fn multipart_boundary(content_type: Seq<char>) -> Option<Seq<char>>;

/// `multer::parse_boundary`: the `boundary` parameter of a
/// `multipart/form-data` content type, or `None` when the text is not such a
/// type or has no boundary. Its result is a function of the text alone.
#[verifier::external_body]
fn parse_boundary(content_type: &str) -> (r: Option<String>)
    ensures
        crate::image::opt_view(r) == multipart_boundary(content_type@),
{
    match multer::parse_boundary(content_type) {
        Ok(b) => Some(b),
        Err(_) => None,
    }
}

/// The multipart boundary of an upload request, from its content type.
pub fn upload_boundary(content_type: &Option<String>) -> (r: Result<String, String>)
    ensures
        match content_type {
            Some(ct) => match multipart_boundary(ct@) {
                Some(b) => r matches Ok(x) && x@ == b,
                None => r matches Err(m) && m@ == "http.save_uploads: invalid or missing multipart boundary"@,
            },
            None => r matches Err(m) && m@ == "http.save_uploads: invalid or missing multipart boundary"@,
        },
{
    let b = match content_type {
        Some(ct) => parse_boundary(ct.as_str()),
        None => None,
    };
    match b {
        Some(x) => Ok(x),
        None => Err(owned("http.save_uploads: invalid or missing multipart boundary")),
    }
}

/// The name under which an uploaded file is stored: the last component of the
/// name it was sent with; refused when that is missing or starts with `.`.
pub fn upload_file_name(filename: &str) -> (r: Result<String, String>)
    ensures
        match crate::compose_plan::path_file_name(filename@) {
            Some(n) => if n.len() > 0 && !starts_with(n, "."@) {
                r matches Ok(x) && x@ == n
            } else {
                r matches Err(m) && m@ == "http.save_uploads: invalid filename '"@ + filename@ + "'"@
            },
            None => r matches Err(m) && m@ == "http.save_uploads: invalid filename '"@ + filename@ + "'"@,
        },
{
    let safe = match crate::compose_plan::file_name_of(filename) {
        Some(n) => n,
        None => String::new(),
    };
    if safe.as_str().is_empty() || starts_with_exec(safe.as_str(), ".") {
        Err(concat3("http.save_uploads: invalid filename '", filename, "'"))
    } else {
        Ok(safe)
    }
}

/// Where a process's log is kept, and the download header that names it.
pub fn process_log_download(proc_id: &str) -> (r: (String, String))
    ensures
        r.0@ == "./logs/"@ + proc_id@ + ".log"@,
        r.1@ == "attachment; filename=\""@ + proc_id@ + ".log\""@,
{
    (concat3("./logs/", proc_id, ".log"), concat3("attachment; filename=\"", proc_id, ".log\""))
}

} // verus!
