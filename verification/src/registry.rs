//! Registry credentials: the `auths` entries of a Docker client configuration
//! and the `Authorization` values built from them.
use vstd::prelude::*;
use base64::Engine as _;
use vstd::utf8::{decode_utf8, encode_utf8, encode_utf8_decode_utf8, encode_utf8_valid_utf8, valid_utf8};
use crate::text::{
    concat, concat3, contains, lemma_split_once_first, owned, split_once, split_once_exec, trim_end_char, trim_end_char_exec,
    trim_start_matches, trim_start_matches_exec,
};

verus! {

/// The bytes that the standard base64 alphabet (with padding) decodes `s` to,
/// or `None` where `s` is not such text.
pub uninterp spec fn base64_decoded(s: Seq<char>) -> Option<Seq<u8>>;

/// The standard base64 text (with padding) of the UTF-8 bytes of `s`.
pub uninterp spec fn base64_encoded(s: Seq<char>) -> Seq<char>;

/// `base64::engine::general_purpose::STANDARD.decode`: the decoded bytes, or
/// `None` for a `DecodeError`. Its result is a function of the input alone.
#[verifier::external_body]
fn standard_decode(s: &str) -> (r: Option<Vec<u8>>)
    ensures
        match r {
            Some(v) => base64_decoded(s@) == Some(v@),
            None => base64_decoded(s@) is None,
        },
{
    match base64::engine::general_purpose::STANDARD.decode(s) {
        Ok(v) => Some(v),
        Err(_) => None,
    }
}

/// `base64::engine::general_purpose::STANDARD.encode`: the base64 text of the
/// bytes of `s`, which `STANDARD.decode` turns back into those bytes (the
/// engine pads on encoding and asks for canonical padding on decoding). The
/// encoded length of a `String` always fits a `usize`, so the call does not
/// panic.
#[verifier::external_body]
fn standard_encode(s: &str) -> (r: String)
    ensures
        r@ == base64_encoded(s@),
        base64_decoded(r@) == Some(encode_utf8(s@)),
{
    base64::engine::general_purpose::STANDARD.encode(s)
}

/// `String::from_utf8`: the text that `bytes` encode when they are valid UTF-8.
#[verifier::external_body]
fn string_from_utf8(bytes: Vec<u8>) -> (r: Option<String>)
    ensures
        r is Some <==> valid_utf8(bytes@),
        r matches Some(s) ==> s@ == decode_utf8(bytes@),
{
    match String::from_utf8(bytes) {
        Ok(s) => Some(s),
        Err(_) => None,
    }
}

/// One entry of the `auths` object of a Docker client configuration: its key
/// and its `auth` string, if it has one.
pub struct AuthEntry {
    pub key: String,
    pub auth: Option<String>,
}

/// `s` without leading `https://` and then leading `http://` prefixes.
pub open spec fn strip_scheme(s: Seq<char>) -> Seq<char> {
    trim_start_matches(trim_start_matches(s, "https://"@), "http://"@)
}

/// Whether the `auths` key `key` names the registry whose host is `host`: the
/// two agree without scheme and trailing slashes, and Docker Hub's registry
/// host also answers to `index.docker.io/v1`.
pub open spec fn auth_key_matches(key: Seq<char>, host: Seq<char>) -> bool {
    let key_clean = trim_end_char(strip_scheme(key), '/');
    let host_clean = trim_end_char(host, '/');
    key_clean == host_clean || (host_clean == "registry-1.docker.io"@ && key_clean
        == "index.docker.io/v1"@)
}

/// The user name and password that an `auth` string holds: base64 of UTF-8 text
/// `user:password`, split at the first colon.
pub open spec fn credentials_of_auth(auth: Seq<char>) -> Option<(Seq<char>, Seq<char>)> {
    match base64_decoded(auth) {
        Some(bytes) => if valid_utf8(bytes) {
            match split_once(decode_utf8(bytes), ":"@) {
                (user, Some(password)) => Some((user, password)),
                _ => None,
            }
        } else {
            None
        },
        None => None,
    }
}

/// The view of an `auths` entry.
pub open spec fn auth_entry_view(e: AuthEntry) -> (Seq<char>, Option<Seq<char>>) {
    (
        e.key@,
        match e.auth {
            Some(a) => Some(a@),
            None => None,
        },
    )
}

/// The credentials of the first entry from `i` on whose key matches `host` and
/// whose `auth` string holds credentials.
pub open spec fn credentials_from(
    entries: Seq<(Seq<char>, Option<Seq<char>>)>,
    host: Seq<char>,
    i: int,
) -> Option<(Seq<char>, Seq<char>)>
    decreases entries.len() - i,
{
    if i < 0 || i >= entries.len() {
        None
    } else {
        let (key, auth) = entries[i];
        let found = if auth_key_matches(key, host) {
            match auth {
                Some(a) => credentials_of_auth(a),
                None => None,
            }
        } else {
            None
        };
        match found {
            Some(c) => Some(c),
            None => credentials_from(entries, host, i + 1),
        }
    }
}

/// The credentials for the registry at `url` among `entries`.
pub open spec fn registry_credentials(
    entries: Seq<(Seq<char>, Option<Seq<char>>)>,
    url: Seq<char>,
) -> Option<(Seq<char>, Seq<char>)> {
    credentials_from(entries, strip_scheme(url), 0)
}

/// `url` without its scheme.
fn strip_scheme_exec(url: &str) -> (r: String)
    ensures
        r@ == strip_scheme(url@),
{
    let a = trim_start_matches_exec(url, "https://");
    trim_start_matches_exec(a.as_str(), "http://")
}

/// Whether an `auths` key names the registry whose host is `host`.
pub fn auth_key_matches_exec(key: &str, host: &str) -> (b: bool)
    ensures
        b == auth_key_matches(key@, host@),
{
    let stripped = strip_scheme_exec(key);
    let key_clean = trim_end_char_exec(stripped.as_str(), '/');
    let host_clean = trim_end_char_exec(host, '/');
    let hub_host = owned("registry-1.docker.io");
    let hub_index = owned("index.docker.io/v1");
    let same = key_clean == host_clean;
    let hub = host_clean == hub_host && key_clean == hub_index;
    same || hub
}

/// The user name and password held by an `auth` string, if it holds any.
pub fn credentials_from_auth(auth: &str) -> (r: Option<(String, String)>)
    ensures
        match r {
            Some((u, p)) => credentials_of_auth(auth@) == Some((u@, p@)),
            None => credentials_of_auth(auth@) is None,
        },
{
    match standard_decode(auth) {
        Some(bytes) => match string_from_utf8(bytes) {
            Some(text) => {
                let (user, rest) = split_once_exec(text.as_str(), ":");
                match rest {
                    Some(password) => Some((user, password)),
                    None => None,
                }
            },
            None => None,
        },
        None => None,
    }
}

/// The credentials for the registry at `registry_url`: those of the first
/// `auths` entry, in the order given, whose key names that registry and whose
/// `auth` string decodes to `user:password`.
pub fn find_registry_credentials(entries: &Vec<AuthEntry>, registry_url: &str) -> (r: Option<
    (String, String),
>)
    ensures
        match r {
            Some((u, p)) => registry_credentials(entries@.map_values(|e| auth_entry_view(e)), registry_url@)
                == Some((u@, p@)),
            None => registry_credentials(entries@.map_values(|e| auth_entry_view(e)), registry_url@) is None,
        },
{
    let ghost ev = entries@.map_values(|e| auth_entry_view(e));
    let host = strip_scheme_exec(registry_url);
    let mut i: usize = 0;
    while i < entries.len()
        invariant
            i <= entries.len(),
            ev == entries@.map_values(|e| auth_entry_view(e)),
            host@ == strip_scheme(registry_url@),
            credentials_from(ev, host@, 0) == credentials_from(ev, host@, i as int),
        decreases entries.len() - i,
    {
        let e = &entries[i];
        assert(ev[i as int] == auth_entry_view(*e));
        if auth_key_matches_exec(e.key.as_str(), host.as_str()) {
            match &e.auth {
                Some(a) => match credentials_from_auth(a.as_str()) {
                    Some(c) => {
                        return Some(c);
                    },
                    None => {},
                },
                None => {},
            }
        }
        i += 1;
    }
    None
}

/// The `Authorization` value for basic authentication as `user`:
/// `Basic ` and the base64 text of `user:password`.
pub open spec fn basic_auth_of(user: Seq<char>, password: Seq<char>) -> Seq<char> {
    "Basic "@ + base64_encoded(user + ":"@ + password)
}

/// The `Authorization` value for basic authentication.
pub fn basic_auth_header(user: &str, password: &str) -> (r: String)
    ensures
        r@ == basic_auth_of(user@, password@),
{
    let pair = concat3(user, ":", password);
    let encoded = standard_encode(pair.as_str());
    concat("Basic ", encoded.as_str())
}

/// What a registry token request falls back to when no token came back: basic
/// authentication with the credentials, or no authorization at all.
pub fn fallback_authorization(credentials: &Option<(String, String)>) -> (r: String)
    ensures
        r@ == match credentials {
            Some((u, p)) => basic_auth_of(u@, p@),
            None => Seq::<char>::empty(),
        },
{
    match credentials {
        Some((u, p)) => basic_auth_header(u.as_str(), p.as_str()),
        None => String::new(),
    }
}

/// The views of the `auths` entries.
pub open spec fn auth_views(entries: Seq<AuthEntry>) -> Seq<(Seq<char>, Option<Seq<char>>)> {
    entries.map_values(|e: AuthEntry| auth_entry_view(e))
}

/// The index of the first entry from `i` on whose key is `key`.
pub open spec fn entry_index_from(entries: Seq<(Seq<char>, Option<Seq<char>>)>, key: Seq<char>, i: int) -> Option<int>
    decreases entries.len() - i,
{
    if i < 0 || i >= entries.len() {
        None
    } else if entries[i].0 == key {
        Some(i)
    } else {
        entry_index_from(entries, key, i + 1)
    }
}

/// The index of the first entry whose key is `key`.
fn entry_index(entries: &Vec<AuthEntry>, key: &str) -> (r: Option<usize>)
    ensures
        match entry_index_from(auth_views(entries@), key@, 0) {
            Some(i) => r matches Some(j) && j as int == i,
            None => r is None,
        },
        r matches Some(j) ==> j < entries.len(),
{
    let k = owned(key);
    let ghost ev = auth_views(entries@);
    let mut i: usize = 0;
    while i < entries.len()
        invariant
            i <= entries.len(),
            k@ == key@,
            ev == auth_views(entries@),
            entry_index_from(ev, key@, 0) == entry_index_from(ev, key@, i as int),
        decreases entries.len() - i,
    {
        assert(ev[i as int] == auth_entry_view(entries@[i as int]));
        if entries[i].key == k {
            return Some(i);
        }
        i += 1;
    }
    None
}

/// Whether every entry that names the registry at `host` is keyed `registry`.
pub open spec fn only_key_for(entries: Seq<(Seq<char>, Option<Seq<char>>)>, registry: Seq<char>, host: Seq<char>) -> bool {
    forall|j: int| 0 <= j < entries.len() && (#[trigger] entries[j]).0 != registry ==> !auth_key_matches(entries[j].0, host)
}

/// The search for credentials passes over entries that do not name the host.
proof fn lemma_credentials_skip(entries: Seq<(Seq<char>, Option<Seq<char>>)>, host: Seq<char>, i: int, k: int)
    requires
        0 <= i <= k <= entries.len(),
        forall|j: int| i <= j < k ==> !auth_key_matches(#[trigger] entries[j].0, host),
    ensures
        credentials_from(entries, host, i) == credentials_from(entries, host, k),
    decreases k - i,
{
    if i < k {
        lemma_credentials_skip(entries, host, i + 1, k);
    }
}

/// After a login is stored, the search for the registry's credentials finds
/// it, when its `auth` string reads back and no other key names the registry.
proof fn lemma_login_found(
    entries: Seq<(Seq<char>, Option<Seq<char>>)>,
    registry: Seq<char>,
    user: Seq<char>,
    password: Seq<char>,
    host: Seq<char>,
)
    requires
        auth_key_matches(registry, host),
        only_key_for(entries, registry, host),
        credentials_of_auth(base64_encoded(user + ":"@ + password)) == Some((user, password)),
    ensures
        credentials_from(with_login(entries, registry, user, password), host, 0) == Some((user, password)),
{
    lemma_entry_index(entries, registry, 0);
    let w = with_login(entries, registry, user, password);
    let k = match entry_index_from(entries, registry, 0) {
        Some(i) => i,
        None => entries.len() as int,
    };
    assert forall|j: int| 0 <= j < k implies !auth_key_matches(#[trigger] w[j].0, host) by {
        assert(w[j] == entries[j]);
        assert(entries[j].0 != registry);
    }
    lemma_credentials_skip(w, host, 0, k);
    assert(w[k] == (registry, Some(base64_encoded(user + ":"@ + password))));
}

/// The `auths` entries after storing credentials for `registry`: the entry with
/// that key gets the `auth` string of `user:password`, or one is added.
pub open spec fn with_login(
    entries: Seq<(Seq<char>, Option<Seq<char>>)>,
    registry: Seq<char>,
    user: Seq<char>,
    password: Seq<char>,
) -> Seq<(Seq<char>, Option<Seq<char>>)> {
    let e = (registry, Some(base64_encoded(user + ":"@ + password)));
    match entry_index_from(entries, registry, 0) {
        Some(i) => entries.update(i, e),
        None => entries.push(e),
    }
}

/// Stores the login `username`/`password` for `registry` in the `auths`
/// entries; with an empty registry, user name or password nothing is stored
/// and the result is false.
pub fn registry_add(entries: &mut Vec<AuthEntry>, registry: &str, username: &str, password: &str) -> (r: bool)
    ensures
        r == (registry@.len() > 0 && username@.len() > 0 && password@.len() > 0),
        r ==> auth_views(final(entries)@) == with_login(auth_views(old(entries)@), registry@, username@, password@),
        !r ==> final(entries)@ == old(entries)@,
        r && !contains(username@, ":"@) ==> forall|url: Seq<char>|
            auth_key_matches(registry@, strip_scheme(url)) && only_key_for(
                auth_views(old(entries)@),
                registry@,
                strip_scheme(url),
            ) ==> #[trigger] registry_credentials(auth_views(final(entries)@), url) == Some((username@, password@)),
{
    if registry.is_empty() || username.is_empty() || password.is_empty() {
        return false;
    }
    let pair = concat3(username, ":", password);
    let encoded = standard_encode(pair.as_str());
    proof {
        reveal_strlit(":");
        if !contains(username@, ":"@) {
            lemma_split_once_first(username@, ":"@, password@);
            encode_utf8_valid_utf8(pair@);
            encode_utf8_decode_utf8(pair@);
            assert(credentials_of_auth(encoded@) == Some((username@, password@)));
        }
    }
    let ghost before = auth_views(entries@);
    let entry = AuthEntry { key: owned(registry), auth: Some(encoded) };
    let ghost ev = auth_entry_view(entry);
    match entry_index(entries, registry) {
        Some(i) => {
            entries.set(i, entry);
            assert(auth_views(entries@) =~= before.update(i as int, ev));
        },
        None => {
            entries.push(entry);
            assert(auth_views(entries@) =~= before.push(ev));
        },
    }
    proof {
        if !contains(username@, ":"@) {
            assert forall|url: Seq<char>|
                auth_key_matches(registry@, strip_scheme(url)) && only_key_for(
                    before,
                    registry@,
                    strip_scheme(url),
                ) implies #[trigger] registry_credentials(auth_views(entries@), url) == Some(
                (username@, password@),
            ) by {
                lemma_login_found(before, registry@, username@, password@, strip_scheme(url));
            }
        }
    }
    true
}

/// Removes the login for `registry` from the `auths` entries; the result says
/// whether there was one (never for an empty registry).
pub fn registry_delete(entries: &mut Vec<AuthEntry>, registry: &str) -> (r: bool)
    ensures
        r == (registry@.len() > 0 && entry_index_from(auth_views(old(entries)@), registry@, 0) is Some),
        r ==> final(entries)@ == old(entries)@.remove(
            entry_index_from(auth_views(old(entries)@), registry@, 0)->Some_0,
        ),
        !r ==> final(entries)@ == old(entries)@,
{
    if registry.is_empty() {
        return false;
    }
    match entry_index(entries, registry) {
        Some(i) => {
            entries.remove(i);
            true
        },
        None => false,
    }
}

/// The registries that have a login, in order.
pub fn registry_list(entries: &Vec<AuthEntry>) -> (r: Vec<String>)
    ensures
        crate::text::views(r@) == auth_views(entries@).map_values(|e: (Seq<char>, Option<Seq<char>>)| e.0),
{
    let mut r: Vec<String> = Vec::new();
    let mut i: usize = 0;
    while i < entries.len()
        invariant
            i <= entries.len(),
            crate::text::views(r@) == auth_views(entries@).map_values(|e: (Seq<char>, Option<Seq<char>>)| e.0).take(
                i as int,
            ),
        decreases entries.len() - i,
    {
        let ghost prev = crate::text::views(r@);
        r.push(entries[i].key.clone());
        assert(crate::text::views(r@) =~= prev.push(entries@[i as int].key@));
        assert(auth_views(entries@).map_values(|e: (Seq<char>, Option<Seq<char>>)| e.0).take(i + 1) =~= auth_views(
            entries@,
        ).map_values(|e: (Seq<char>, Option<Seq<char>>)| e.0).take(i as int).push(entries@[i as int].key@));
        i += 1;
    }
    assert(auth_views(entries@).map_values(|e: (Seq<char>, Option<Seq<char>>)| e.0).take(entries.len() as int)
        =~= auth_views(entries@).map_values(|e: (Seq<char>, Option<Seq<char>>)| e.0));
    r
}

/// Whether no two entries share a key.
pub open spec fn unique_keys(entries: Seq<(Seq<char>, Option<Seq<char>>)>) -> bool {
    forall|i: int, j: int| 0 <= i < j < entries.len() ==> #[trigger] entries[i].0 != #[trigger] entries[j].0
}

/// The first entry with a key is the only one when keys are unique.
proof fn lemma_entry_index(entries: Seq<(Seq<char>, Option<Seq<char>>)>, key: Seq<char>, i: int)
    requires
        0 <= i <= entries.len(),
    ensures
        match entry_index_from(entries, key, i) {
            Some(k) => i <= k < entries.len() && entries[k].0 == key && forall|j: int| i <= j < k ==> entries[j].0 != key,
            None => forall|j: int| i <= j < entries.len() ==> entries[j].0 != key,
        },
    decreases entries.len() - i,
{
    if i < entries.len() && entries[i].0 != key {
        lemma_entry_index(entries, key, i + 1);
    }
}

/// Storing a login keeps registry keys unique, and afterwards exactly one entry
/// has the registry's key, holding the new login.
pub proof fn law_login_stored_once(
    entries: Seq<(Seq<char>, Option<Seq<char>>)>,
    registry: Seq<char>,
    user: Seq<char>,
    password: Seq<char>,
)
    requires
        unique_keys(entries),
    ensures
        unique_keys(with_login(entries, registry, user, password)),
        exists|k: int|
            0 <= k < with_login(entries, registry, user, password).len() && #[trigger] with_login(entries, registry, user, password)[k]
                == (registry, Some(base64_encoded(user + ":"@ + password))) && forall|j: int|
                0 <= j < with_login(entries, registry, user, password).len() && j != k ==> with_login(
                    entries,
                    registry,
                    user,
                    password,
                )[j].0 != registry,
{
    lemma_entry_index(entries, registry, 0);
    let w = with_login(entries, registry, user, password);
    let e = (registry, Some(base64_encoded(user + ":"@ + password)));
    match entry_index_from(entries, registry, 0) {
        Some(i) => {
            assert(w[i] == e);
            assert forall|a: int, b: int| 0 <= a < b < w.len() implies #[trigger] w[a].0 != #[trigger] w[b].0 by {
                if a == i {
                    assert(entries[b].0 != entries[i].0);
                } else if b == i {
                    assert(entries[a].0 != entries[i].0);
                }
            }
        },
        None => {
            assert(w[entries.len() as int] == e);
        },
    }
}

/// Filtering keeps a sequence whose items all pass.
proof fn lemma_filter_keeps_all<A>(s: Seq<A>, p: spec_fn(A) -> bool)
    requires
        forall|j: int| 0 <= j < s.len() ==> p(#[trigger] s[j]),
    ensures
        s.filter(p) == s,
    decreases s.len(),
{
    reveal(Seq::filter);
    if s.len() > 0 {
        assert forall|j: int| 0 <= j < s.drop_last().len() implies p(#[trigger] s.drop_last()[j]) by {
            assert(s.drop_last()[j] == s[j]);
        }
        lemma_filter_keeps_all(s.drop_last(), p);
        assert(s.drop_last().push(s.last()) =~= s);
    }
}

/// Filtering drops exactly the one item that does not pass.
proof fn lemma_filter_drops_one<A>(s: Seq<A>, p: spec_fn(A) -> bool, i: int)
    requires
        0 <= i < s.len(),
        !p(s[i]),
        forall|j: int| 0 <= j < s.len() && j != i ==> p(#[trigger] s[j]),
    ensures
        s.filter(p) == s.remove(i),
    decreases s.len(),
{
    reveal(Seq::filter);
    assert forall|j: int| 0 <= j < s.drop_last().len() && j != i implies p(#[trigger] s.drop_last()[j]) by {
        assert(s.drop_last()[j] == s[j]);
    }
    if i == s.len() - 1 {
        lemma_filter_keeps_all(s.drop_last(), p);
        assert(s.drop_last() =~= s.remove(i));
    } else {
        lemma_filter_drops_one(s.drop_last(), p, i);
        assert(s.drop_last().remove(i).push(s.last()) =~= s.remove(i));
    }
}

/// Removing a login leaves no entry for the registry, when keys are unique,
/// and keeps every entry of another registry, in order.
pub proof fn law_login_removed(entries: Seq<(Seq<char>, Option<Seq<char>>)>, registry: Seq<char>)
    requires
        unique_keys(entries),
        entry_index_from(entries, registry, 0) is Some,
    ensures
        forall|j: int|
            0 <= j < entries.remove(entry_index_from(entries, registry, 0)->Some_0).len() ==> #[trigger] entries.remove(
                entry_index_from(entries, registry, 0)->Some_0,
            )[j].0 != registry,
        entries.remove(entry_index_from(entries, registry, 0)->Some_0) == entries.filter(
            |e: (Seq<char>, Option<Seq<char>>)| e.0 != registry,
        ),
{
    lemma_entry_index(entries, registry, 0);
    let i = entry_index_from(entries, registry, 0)->Some_0;
    let r = entries.remove(i);
    assert forall|j: int| 0 <= j < r.len() implies #[trigger] r[j].0 != registry by {
        if j < i {
            assert(r[j] == entries[j]);
        } else {
            assert(r[j] == entries[j + 1]);
            assert(entries[i].0 != entries[j + 1].0);
        }
    }
    let p = |e: (Seq<char>, Option<Seq<char>>)| e.0 != registry;
    assert forall|j: int| 0 <= j < entries.len() && j != i implies p(#[trigger] entries[j]) by {
        if j < i {
        } else {
            assert(entries[i].0 != entries[j].0);
        }
    }
    lemma_filter_drops_one(entries, p, i);
}

} // verus!
