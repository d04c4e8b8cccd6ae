//! Image references, the on-disk names of cached images, registry manifests and
//! the registry authentication handshake.
use vstd::prelude::*;
use crate::text::{
    chars_of, concat, concat3, contains, contains_exec, find, owned, replace_char,
    replace_char_exec, replace_from, rfind_char, rfind_char_exec, split, split_exec, split_once,
    split_once_exec, starts_with, starts_with_exec, string_of_range, trim, trim_char,
    trim_char_exec, trim_exec, trim_start_matches, trim_start_matches_exec, views,
};

verus! {

/// Where an image lives: registry URL, repository path and tag.
#[derive(Debug)]
pub struct ImageRef {
    pub registry: String,
    pub repository: String,
    pub tag: String,
}

/// The registry that images without a registry host come from.
pub open spec fn docker_hub() -> Seq<char> {
    "https://registry-1.docker.io"@
}

/// What `parse_image_ref` reads from `image`: the part before the first `/` is
/// a registry host when it holds a `.` or `:`; the tag follows the last `:`
/// (`latest` when there is none); Docker Hub repositories without a `/` live
/// under `library/`.
pub open spec fn image_ref_of(image: Seq<char>) -> (Seq<char>, Seq<char>, Seq<char>) {
    let (first, rest) = split_once(image, "/"@);
    let (registry, repo0) = if rest is Some && (contains(first, "."@) || contains(first, ":"@)) {
        ("https://"@ + first, rest->0)
    } else {
        (docker_hub(), image)
    };
    let (repo1, tag) = match rfind_char(repo0, ':') {
        Some(i) => (repo0.subrange(0, i), repo0.subrange(i + 1, repo0.len() as int)),
        None => (repo0, "latest"@),
    };
    let repo = if registry == docker_hub() && !contains(repo1, "/"@) {
        "library/"@ + repo1
    } else {
        repo1
    };
    (registry, repo, tag)
}

/// Splits an image name such as `ghcr.io/user/app:1.2` into registry, repository and tag.
pub fn parse_image_ref(image: &str) -> (r: ImageRef)
    ensures
        (r.registry@, r.repository@, r.tag@) == image_ref_of(image@),
{
    let (first, rest) = split_once_exec(image, "/");
    let (registry, repo0) = match rest {
        Some(rest) => {
            if contains_exec(first.as_str(), ".") || contains_exec(first.as_str(), ":") {
                (concat("https://", first.as_str()), rest)
            } else {
                (owned("https://registry-1.docker.io"), owned(image))
            }
        },
        None => (owned("https://registry-1.docker.io"), owned(image)),
    };
    let (repo1, tag) = match rfind_char_exec(repo0.as_str(), ':') {
        Some(i) => {
            let v = chars_of(repo0.as_str());
            (string_of_range(&v, 0, i), string_of_range(&v, i + 1, v.len()))
        },
        None => (repo0, owned("latest")),
    };
    let hub = owned("https://registry-1.docker.io");
    let repo = if registry == hub && !contains_exec(repo1.as_str(), "/") {
        concat("library/", repo1.as_str())
    } else {
        repo1
    };
    ImageRef { registry, repository: repo, tag }
}

/// The directory name under which an image's metadata is cached:
/// `repository_tag` with every `/` and `:` turned into `_`.
pub open spec fn cache_dir_name(repository: Seq<char>, tag: Seq<char>) -> Seq<char> {
    replace_char(replace_char(repository + "_"@ + tag, '/', "_"@), ':', "_"@)
}

/// The directory name under which an image's metadata is cached.
pub fn image_cache_dir_name(repository: &str, tag: &str) -> (r: String)
    ensures
        r@ == cache_dir_name(repository@, tag@),
{
    let joined = concat3(repository, "_", tag);
    let a = replace_char_exec(joined.as_str(), '/', "_");
    replace_char_exec(a.as_str(), ':', "_")
}

/// The image name that `box.images` shows for a cached directory: every `_`
/// becomes `/`, and the last `/` separates repository and tag.
pub open spec fn image_name_of_dir(dir: Seq<char>) -> Option<Seq<char>> {
    let name = replace_char(dir, '_', "/"@);
    match rfind_char(name, '/') {
        Some(i) => Some(name.subrange(0, i) + ":"@ + name.subrange(i + 1, name.len() as int)),
        None => None,
    }
}

/// The image name that `box.images` shows for a cached directory, if it has one.
pub fn image_name_from_cache_dir(dir: &str) -> (r: Option<String>)
    ensures
        match image_name_of_dir(dir@) {
            Some(n) => r matches Some(x) && x@ == n,
            None => r is None,
        },
{
    let name = replace_char_exec(dir, '_', "/");
    match rfind_char_exec(name.as_str(), '/') {
        Some(i) => {
            let v = chars_of(name.as_str());
            let repo = string_of_range(&v, 0, i);
            let tag = string_of_range(&v, i + 1, v.len());
            Some(concat3(repo.as_str(), ":", tag.as_str()))
        },
        None => None,
    }
}

/// Replacing a character that does not occur leaves the text as it is.
pub proof fn lemma_replace_absent(s: Seq<char>, c: char, r: Seq<char>, i: int)
    requires
        0 <= i <= s.len(),
        !s.contains(c),
    ensures
        replace_from(s, c, r, i) == s.subrange(i, s.len() as int),
    decreases s.len() - i,
{
    if i < s.len() {
        lemma_replace_absent(s, c, r, i + 1);
        assert(s.subrange(i, s.len() as int) =~= seq![s[i]] + s.subrange(i + 1, s.len() as int));
    } else {
        assert(s.subrange(i, s.len() as int) =~= Seq::<char>::empty());
    }
}

/// Replacing characters distributes over concatenation.
pub proof fn lemma_replace_concat(a: Seq<char>, b: Seq<char>, c: char, r: Seq<char>, i: int)
    requires
        0 <= i <= a.len(),
    ensures
        replace_from(a + b, c, r, i) == replace_from(a, c, r, i) + replace_from(b, c, r, 0),
    decreases a.len() - i,
{
    if i < a.len() {
        lemma_replace_concat(a, b, c, r, i + 1);
        assert((a + b)[i] == a[i]);
        assert(replace_from(a + b, c, r, i) =~= replace_from(a, c, r, i) + replace_from(b, c, r, 0));
    } else {
        lemma_replace_shift(a, b, c, r, 0);
        assert(replace_from(a, c, r, i) =~= Seq::<char>::empty());
    }
}

/// Replacing in the tail of `a + b` is replacing in `b`.
proof fn lemma_replace_shift(a: Seq<char>, b: Seq<char>, c: char, r: Seq<char>, j: int)
    requires
        0 <= j <= b.len(),
    ensures
        replace_from(a + b, c, r, a.len() + j) == replace_from(b, c, r, j),
    decreases b.len() - j,
{
    if j < b.len() {
        lemma_replace_shift(a, b, c, r, j + 1);
        assert((a + b)[a.len() + j] == b[j]);
    }
}

/// Turning `c` into `d` and then `d` back into `c` gives the text back when `d`
/// did not occur in it.
proof fn lemma_replace_round_trip(s: Seq<char>, c: char, d: char, i: int)
    requires
        0 <= i <= s.len(),
        !s.contains(d),
        c != d,
    ensures
        replace_from(replace_char(s, c, seq![d]), d, seq![c], i) == s.subrange(i, s.len() as int),
        replace_char(s, c, seq![d]).len() == s.len(),
    decreases s.len() - i,
{
    lemma_replace_single_len(s, c, seq![d], 0);
    let t = replace_char(s, c, seq![d]);
    if i < s.len() {
        lemma_replace_round_trip(s, c, d, i + 1);
        lemma_replace_single_at(s, c, seq![d], 0, i);
        assert(s.subrange(i, s.len() as int) =~= seq![s[i]] + s.subrange(i + 1, s.len() as int));
        if s[i] == c {
            assert(t[i] == d);
        } else {
            assert(t[i] == s[i]);
            assert(s[i] != d) by {
                assert(s.contains(s[i]));
            }
        }
    } else {
        assert(s.subrange(i, s.len() as int) =~= Seq::<char>::empty());
    }
}

/// Replacing by a single character keeps the length.
proof fn lemma_replace_single_len(s: Seq<char>, c: char, r: Seq<char>, i: int)
    requires
        0 <= i <= s.len(),
        r.len() == 1,
    ensures
        replace_from(s, c, r, i).len() == s.len() - i,
    decreases s.len() - i,
{
    if i < s.len() {
        lemma_replace_single_len(s, c, r, i + 1);
    }
}

/// Replacing by a single character maps each position to itself.
proof fn lemma_replace_single_at(s: Seq<char>, c: char, r: Seq<char>, i: int, k: int)
    requires
        0 <= i <= k < s.len(),
        r.len() == 1,
    ensures
        replace_from(s, c, r, i)[k - i] == (if s[k] == c {
            r[0]
        } else {
            s[k]
        }),
    decreases k - i,
{
    lemma_replace_single_len(s, c, r, i + 1);
    if i < k {
        lemma_replace_single_at(s, c, r, i + 1, k);
    }
}

/// What `box.pull` caches, `box.images` lists under its name: for a repository
/// and tag without `_` or `:` (and a tag without `/`), the cache directory name
/// reads back as `repository:tag`.
pub proof fn law_cached_image_name_round_trip(repository: Seq<char>, tag: Seq<char>)
    requires
        !repository.contains('_'),
        !repository.contains(':'),
        !tag.contains('_'),
        !tag.contains(':'),
        !tag.contains('/'),
    ensures
        image_name_of_dir(cache_dir_name(repository, tag)) == Some(repository + ":"@ + tag),
{
    let joined = repository + "_"@ + tag;
    let slash = repository + "/"@ + tag;
    assert("_"@ == seq!['_']) by {
        reveal_strlit("_");
    }
    assert("/"@ == seq!['/']) by {
        reveal_strlit("/");
    }
    assert(":"@ == seq![':']) by {
        reveal_strlit(":");
    }
    // The slash form has no `_`; turning its `/` into `_` gives `joined`.
    assert(!slash.contains('_')) by {
        if slash.contains('_') {
            let k = choose|k: int| 0 <= k < slash.len() && slash[k] == '_';
            if k < repository.len() {
                assert(repository[k] == '_');
            } else if k > repository.len() {
                assert(tag[k - repository.len() - 1] == '_');
            }
        }
    }
    lemma_replace_single_len(slash, '/', "_"@, 0);
    assert(replace_char(slash, '/', "_"@) =~= replace_char(joined, '/', "_"@)) by {
        lemma_replace_single_len(joined, '/', "_"@, 0);
        assert forall|k: int| 0 <= k < slash.len() implies replace_char(slash, '/', "_"@)[k]
            == replace_char(joined, '/', "_"@)[k] by {
            lemma_replace_single_at(slash, '/', "_"@, 0, k);
            lemma_replace_single_at(joined, '/', "_"@, 0, k);
        }
    }
    let once = replace_char(joined, '/', "_"@);
    assert(!once.contains(':')) by {
        lemma_replace_single_len(joined, '/', "_"@, 0);
        if once.contains(':') {
            let k = choose|k: int| 0 <= k < once.len() && once[k] == ':';
            lemma_replace_single_at(joined, '/', "_"@, 0, k);
            if k < repository.len() {
                assert(repository[k] == ':');
            } else if k > repository.len() {
                assert(tag[k - repository.len() - 1] == ':');
            }
        }
    }
    lemma_replace_absent(once, ':', "_"@, 0);
    assert(cache_dir_name(repository, tag) =~= once);
    lemma_replace_round_trip(slash, '/', '_', 0);
    assert(replace_char(once, '_', "/"@) =~= slash);
    // The last `/` of `slash` is the one between repository and tag.
    let n: int = repository.len() as int;
    assert(slash[n as int] == '/');
    assert forall|j: int| n < j < slash.len() implies slash[j] != '/' by {
        assert(slash[j] == tag[j - n - 1]);
        assert(tag.contains(tag[j - n - 1]));
    }
    lemma_last_from_skips(slash, '/', n as int, slash.len() as int);
    assert(slash.subrange(0, n as int) =~= repository);
    assert(slash.subrange(n + 1, slash.len() as int) =~= tag);
}

/// Searching back from `j` over characters that are not `c` finds `c` at `n`.
proof fn lemma_last_from_skips(s: Seq<char>, c: char, n: int, j: int)
    requires
        0 <= n < j <= s.len(),
        s[n] == c,
        forall|k: int| n < k < s.len() ==> s[k] != c,
    ensures
        crate::text::last_from(s, c, j) == Some(n),
    decreases j,
{
    if j - 1 > n {
        lemma_last_from_skips(s, c, n, j - 1);
    }
}

/// The command that an image's configuration asks for: `Entrypoint` then `Cmd`,
/// with a bare `docker-entrypoint.sh` made absolute.
pub open spec fn default_command(entrypoint: Seq<Seq<char>>, cmd: Seq<Seq<char>>) -> Seq<Seq<char>> {
    let all = entrypoint + cmd;
    if all.len() > 0 && all[0] == "docker-entrypoint.sh"@ {
        all.update(0, "/usr/local/bin/docker-entrypoint.sh"@)
    } else {
        all
    }
}

/// The command that an image's configuration asks for.
pub fn resolve_default_cmd(entrypoint: Vec<String>, cmd: Vec<String>) -> (r: Vec<String>)
    ensures
        views(r@) == default_command(views(entrypoint@), views(cmd@)),
{
    let mut all = entrypoint;
    let ghost e = views(all@);
    let mut i: usize = 0;
    while i < cmd.len()
        invariant
            i <= cmd.len(),
            views(all@) == e + views(cmd@).take(i as int),
        decreases cmd.len() - i,
    {
        let c = cmd[i].clone();
        assert(c@ == views(cmd@)[i as int]);
        let ghost prev = all@;
        all.push(c);
        assert(all@ == prev.push(c));
        assert(views(all@) =~= views(prev).push(c@));
        i += 1;
        assert(views(all@) =~= e + views(cmd@).take(i as int));
    }
    assert(views(cmd@).take(cmd.len() as int) =~= views(cmd@));
    let entry = owned("docker-entrypoint.sh");
    if all.len() > 0 && all[0] == entry {
        let fixed = owned("/usr/local/bin/docker-entrypoint.sh");
        all.set(0, fixed);
        assert(views(all@) =~= default_command(e, views(cmd@)));
    }
    all
}

/// One entry of a manifest list: platform and digest, each as the manifest gives them
/// (an absent `os` or `architecture` reads as empty).
pub struct ManifestEntry {
    pub os: String,
    pub architecture: String,
    pub digest: Option<String>,
}

/// First entry at or after `i` for `linux`/`amd64`.
pub open spec fn first_linux_amd64(m: Seq<(Seq<char>, Seq<char>, Option<Seq<char>>)>, i: int) -> Option<
    int,
>
    decreases m.len() - i,
{
    if i < 0 || i >= m.len() {
        None
    } else if m[i].0 == "linux"@ && m[i].1 == "amd64"@ {
        Some(i)
    } else {
        first_linux_amd64(m, i + 1)
    }
}

/// The manifest that a pull resolves a manifest list to: the digest of the first
/// `linux`/`amd64` entry; when that gives none, the digest of the first entry.
pub open spec fn selected_digest(m: Seq<(Seq<char>, Seq<char>, Option<Seq<char>>)>) -> Option<Seq<char>> {
    let chosen = match first_linux_amd64(m, 0) {
        Some(k) => m[k].2,
        None => None,
    };
    if chosen is None && m.len() > 0 {
        m[0].2
    } else {
        chosen
    }
}

/// A manifest list entry as text.
pub open spec fn manifest_view(e: ManifestEntry) -> (Seq<char>, Seq<char>, Option<Seq<char>>) {
    (
        e.os@,
        e.architecture@,
        match e.digest {
            Some(d) => Some(d@),
            None => None,
        },
    )
}

/// Index of the first `linux`/`amd64` entry.
fn find_linux_amd64(manifests: &Vec<ManifestEntry>) -> (r: Option<usize>)
    ensures
        r matches Some(k) ==> k < manifests.len() && first_linux_amd64(
            manifests@.map_values(|e: ManifestEntry| manifest_view(e)),
            0,
        ) == Some(k as int),
        r is None ==> first_linux_amd64(manifests@.map_values(|e: ManifestEntry| manifest_view(e)), 0)
            is None,
{
    let ghost m = manifests@.map_values(|e: ManifestEntry| manifest_view(e));
    let linux = owned("linux");
    let amd64 = owned("amd64");
    let mut i: usize = 0;
    while i < manifests.len()
        invariant
            i <= manifests.len(),
            m == manifests@.map_values(|e: ManifestEntry| manifest_view(e)),
            linux@ == "linux"@,
            amd64@ == "amd64"@,
            first_linux_amd64(m, 0) == first_linux_amd64(m, i as int),
        decreases manifests.len() - i,
    {
        assert(m[i as int] == manifest_view(manifests@[i as int]));
        if manifests[i].os == linux && manifests[i].architecture == amd64 {
            return Some(i);
        }
        i += 1;
    }
    None
}

/// The digest that a pull resolves a manifest list to.
pub fn select_manifest_digest(manifests: &Vec<ManifestEntry>) -> (r: Option<String>)
    ensures
        match selected_digest(manifests@.map_values(|e: ManifestEntry| manifest_view(e))) {
            Some(d) => r matches Some(x) && x@ == d,
            None => r is None,
        },
{
    let ghost m = manifests@.map_values(|e: ManifestEntry| manifest_view(e));
    let chosen: Option<String> = match find_linux_amd64(manifests) {
        Some(k) => match &manifests[k].digest {
            Some(d) => Some(d.clone()),
            None => None,
        },
        None => None,
    };
    if chosen.is_none() && manifests.len() > 0 {
        assert(m[0] == manifest_view(manifests@[0]));
        match &manifests[0].digest {
            Some(d) => Some(d.clone()),
            None => None,
        }
    } else {
        chosen
    }
}

/// Whether a manifest response with this content type is a list of manifests.
pub fn is_manifest_list(content_type: &str) -> (b: bool)
    ensures
        b == (contains(content_type@, "manifest.list"@) || contains(content_type@, "image.index"@)),
{
    contains_exec(content_type, "manifest.list") || contains_exec(content_type, "image.index")
}

/// A layer digest without its `sha256:` prefix (every leading repetition removed).
pub fn layer_digest_clean(digest: &str) -> (r: String)
    ensures
        r@ == trim_start_matches(digest@, "sha256:"@),
{
    trim_start_matches_exec(digest, "sha256:")
}

/// A `key=value` parameter of a `WWW-Authenticate` challenge: trimmed key, and
/// trimmed value without surrounding quotes.
pub open spec fn challenge_param(part: Seq<char>) -> Option<(Seq<char>, Seq<char>)> {
    match split_once(part, "="@) {
        (k, Some(v)) => Some((trim(k), trim_char(trim(v), '"'))),
        (_, None) => None,
    }
}

/// The value of the last parameter named `key`.
pub open spec fn last_param(parts: Seq<Seq<char>>, key: Seq<char>) -> Option<Seq<char>>
    decreases parts.len(),
{
    if parts.len() == 0 {
        None
    } else {
        match challenge_param(parts.last()) {
            Some((k, v)) if k == key => Some(v),
            _ => last_param(parts.drop_last(), key),
        }
    }
}

/// What `parse_www_authenticate` reads from a `Bearer` challenge: realm,
/// service, and scope (empty when absent); realm and service are required.
pub open spec fn bearer_challenge(h: Seq<char>) -> Option<(Seq<char>, Seq<char>, Seq<char>)> {
    if !starts_with(h, "Bearer "@) {
        None
    } else {
        let parts = split(h.subrange(7, h.len() as int), ","@);
        match (last_param(parts, "realm"@), last_param(parts, "service"@)) {
            (Some(r), Some(s)) => Some(
                (
                    r,
                    s,
                    match last_param(parts, "scope"@) {
                        Some(sc) => sc,
                        None => Seq::empty(),
                    },
                ),
            ),
            _ => None,
        }
    }
}

/// Reads realm, service and scope from a registry's `WWW-Authenticate: Bearer ...` header.
pub fn parse_www_authenticate(header_val: &str) -> (r: Option<(String, String, String)>)
    ensures
        match bearer_challenge(header_val@) {
            Some((a, b, c)) => r matches Some(x) && x.0@ == a && x.1@ == b && x.2@ == c,
            None => r is None,
        },
{
    proof {
        reveal_strlit("Bearer ");
        reveal_strlit(",");
        reveal_strlit("realm");
        reveal_strlit("service");
        reveal_strlit("scope");
        assert("realm"@.len() != "service"@.len());
        assert("service"@.len() != "scope"@.len());
        assert("realm"@[0] != "scope"@[0]);
    }
    if !starts_with_exec(header_val, "Bearer ") {
        return None;
    }
    let v = chars_of(header_val);
    let params = string_of_range(&v, 7, v.len());
    let parts = split_exec(params.as_str(), ",");
    let realm_key = owned("realm");
    let service_key = owned("service");
    let scope_key = owned("scope");
    let mut realm: Option<String> = None;
    let mut service: Option<String> = None;
    let mut scope: Option<String> = None;
    let mut i: usize = 0;
    while i < parts.len()
        invariant
            i <= parts.len(),
            realm_key@ == "realm"@,
            service_key@ == "service"@,
            scope_key@ == "scope"@,
            "realm"@ != "service"@,
            "realm"@ != "scope"@,
            "service"@ != "scope"@,
            opt_view(realm) == last_param(views(parts@).take(i as int), "realm"@),
            opt_view(service) == last_param(views(parts@).take(i as int), "service"@),
            opt_view(scope) == last_param(views(parts@).take(i as int), "scope"@),
        decreases parts.len() - i,
    {
        let ghost taken = views(parts@).take((i + 1) as int);
        assert(taken.drop_last() =~= views(parts@).take(i as int));
        assert(taken.last() == parts@[i as int]@);
        let ghost cp = challenge_param(parts@[i as int]@);
        let (k0, rest) = split_once_exec(parts[i].as_str(), "=");
        match rest {
            Some(v0) => {
                let k = trim_exec(k0.as_str());
                let t = trim_exec(v0.as_str());
                let val = trim_char_exec(t.as_str(), '"');
                assert(cp == Some((k@, val@)));
                if k == realm_key {
                    realm = Some(val);
                } else if k == service_key {
                    service = Some(val);
                } else if k == scope_key {
                    scope = Some(val);
                }
            },
            None => {
                assert(cp is None);
            },
        }
        i += 1;
    }
    assert(views(parts@).take(parts.len() as int) =~= views(parts@));
    match (realm, service) {
        (Some(r), Some(s)) => {
            let sc = match scope {
                Some(sc) => sc,
                None => String::new(),
            };
            Some((r, s, sc))
        },
        _ => None,
    }
}

/// An optional string as text.
pub open spec fn opt_view(o: Option<String>) -> Option<Seq<char>> {
    match o {
        Some(s) => Some(s@),
        None => None,
    }
}

/// The `Authorization` header that a registry request carries for `token`:
/// none for an empty token, the token itself when it already names its scheme,
/// and a bearer token otherwise.
pub open spec fn auth_header_for(token: Seq<char>) -> Option<Seq<char>> {
    if token.len() == 0 {
        None
    } else if starts_with(token, "Bearer "@) || starts_with(token, "Basic "@) {
        Some(token)
    } else {
        Some("Bearer "@ + token)
    }
}

/// The `Authorization` header that a registry request carries for `token`.
pub fn auth_header_value(token: &str) -> (r: Option<String>)
    ensures
        opt_view(r) == auth_header_for(token@),
{
    if token.is_empty() {
        None
    } else if starts_with_exec(token, "Bearer ") || starts_with_exec(token, "Basic ") {
        Some(owned(token))
    } else {
        Some(concat("Bearer ", token))
    }
}

/// The registry host of a registry URL (scheme removed).
pub open spec fn registry_host_of(url: Seq<char>) -> Seq<char> {
    trim_start_matches(trim_start_matches(url, "https://"@), "http://"@)
}

/// The registry host of a registry URL.
pub fn registry_host(url: &str) -> (r: String)
    ensures
        r@ == registry_host_of(url@),
{
    let a = trim_start_matches_exec(url, "https://");
    trim_start_matches_exec(a.as_str(), "http://")
}

/// The token endpoint that Docker Hub is asked for a pull token of `repository`.
pub fn docker_hub_token_url(repository: &str) -> (r: String)
    ensures
        r@ == "https://auth.docker.io/token?service=registry.docker.io&scope=repository:"@
            + repository@ + ":pull"@,
{
    concat3(
        "https://auth.docker.io/token?service=registry.docker.io&scope=repository:",
        repository,
        ":pull",
    )
}

/// The scope asked of a token service: the challenge's own, or pull access to `repository`.
pub fn token_scope(challenge_scope: &str, repository: &str) -> (r: String)
    ensures
        r@ == if challenge_scope@.len() == 0 {
            "repository:"@ + repository@ + ":pull"@
        } else {
            challenge_scope@
        },
{
    if challenge_scope.is_empty() {
        concat3("repository:", repository, ":pull")
    } else {
        owned(challenge_scope)
    }
}

/// The token a token service answered with: `token`, or else `access_token`.
pub fn pick_token(token: Option<String>, access_token: Option<String>) -> (r: Option<String>)
    ensures
        r == (if token is Some {
            token
        } else {
            access_token
        }),
{
    match token {
        Some(t) => Some(t),
        None => access_token,
    }
}

/// Whether some image's layer list names `layer`.
pub open spec fn layer_in_use(used: Seq<Seq<Seq<char>>>, layer: Seq<char>) -> bool {
    exists|i: int| 0 <= i < used.len() && #[trigger] used[i].contains(layer)
}

/// The views of lists of texts.
pub open spec fn nested_views(v: Seq<Vec<String>>) -> Seq<Seq<Seq<char>>> {
    v.map_values(|l: Vec<String>| views(l@))
}

/// Whether `v` holds `x`.
fn holds_text(v: &Vec<String>, x: &String) -> (b: bool)
    ensures
        b == views(v@).contains(x@),
{
    let mut i: usize = 0;
    while i < v.len()
        invariant
            i <= v@.len(),
            forall|j: int| 0 <= j < i ==> views(v@)[j] != x@,
        decreases v@.len() - i,
    {
        if v[i] == *x {
            assert(views(v@)[i as int] == x@);
            return true;
        }
        i += 1;
    }
    false
}

/// Whether some list of `used` holds `layer`.
fn in_use(used: &Vec<Vec<String>>, layer: &String) -> (b: bool)
    ensures
        b == layer_in_use(nested_views(used@), layer@),
{
    let ghost u = nested_views(used@);
    let mut i: usize = 0;
    while i < used.len()
        invariant
            i <= used@.len(),
            u == nested_views(used@),
            forall|j: int| 0 <= j < i ==> !(#[trigger] u[j]).contains(layer@),
        decreases used@.len() - i,
    {
        if holds_text(&used[i], layer) {
            assert(u[i as int].contains(layer@));
            return true;
        }
        i += 1;
    }
    assert forall|j: int| 0 <= j < u.len() implies !(#[trigger] u[j]).contains(layer@) by {}
    false
}

/// The cached layers that no image uses any more, in the order in which they
/// were found: those of `present` that no list of `used` names.
pub fn unused_layers(used: &Vec<Vec<String>>, present: &Vec<String>) -> (r: Vec<String>)
    ensures
        views(r@) == views(present@).filter(|l: Seq<char>| !layer_in_use(nested_views(used@), l)),
{
    let ghost u = nested_views(used@);
    let ghost pv = views(present@);
    let mut r: Vec<String> = Vec::new();
    let mut i: usize = 0;
    while i < present.len()
        invariant
            i <= present@.len(),
            u == nested_views(used@),
            pv == views(present@),
            views(r@) == pv.take(i as int).filter(|l: Seq<char>| !layer_in_use(u, l)),
        decreases present@.len() - i,
    {
        let keep = !in_use(used, &present[i]);
        let ghost prev = views(r@);
        assert(pv.take(i + 1) =~= pv.take(i as int).push(present@[i as int]@));
        proof {
            pv.take(i as int).lemma_filter_push(present@[i as int]@, |l: Seq<char>| !layer_in_use(u, l));
        }
        if keep {
            r.push(present[i].clone());
            assert(views(r@) =~= prev.push(present@[i as int]@));
        }
        i += 1;
    }
    assert(pv.take(present@.len() as int) =~= pv);
    r
}

/// No layer that an image names is removed, and every layer removed was
/// found in the cache.
pub proof fn law_prune_keeps_used_layers(used: Seq<Seq<Seq<char>>>, present: Seq<Seq<char>>, layer: Seq<char>)
    ensures
        present.filter(|l: Seq<char>| !layer_in_use(used, l)).contains(layer) ==> present.contains(layer)
            && !layer_in_use(used, layer),
        present.contains(layer) && !layer_in_use(used, layer) ==> present.filter(
            |l: Seq<char>| !layer_in_use(used, l),
        ).contains(layer),
{
    let pred = |l: Seq<char>| !layer_in_use(used, l);
    let f = present.filter(pred);
    if f.contains(layer) {
        present.lemma_filter_contains_rev(pred, layer);
        let k = choose|k: int| 0 <= k < f.len() && f[k] == layer;
        present.lemma_filter_pred(pred, k);
    }
    if present.contains(layer) && !layer_in_use(used, layer) {
        let k = choose|k: int| 0 <= k < present.len() && present[k] == layer;
        present.lemma_filter_contains(pred, k);
    }
}

/// Text without the character `c` does not contain it as a pattern.
proof fn lemma_lacks_char(s: Seq<char>, c: char)
    requires
        !s.contains(c),
    ensures
        !contains(s, seq![c]),
        crate::text::last_from(s, c, s.len() as int) is None,
{
    assert forall|j: int| 0 <= j implies !#[trigger] crate::text::matches_at(s, seq![c], j) by {
        if crate::text::matches_at(s, seq![c], j) {
            assert(s.subrange(j, j + 1)[0] == s[j]);
            assert(s.contains(s[j]));
        }
    }
    crate::text::lemma_find_from_skip(s, seq![c], 0, s.len() as int);
    lemma_last_none(s, c, s.len() as int);
}

/// Searching back in text without `c` finds nothing.
proof fn lemma_last_none(s: Seq<char>, c: char, j: int)
    requires
        !s.contains(c),
        0 <= j <= s.len(),
    ensures
        crate::text::last_from(s, c, j) is None,
    decreases j,
{
    if j > 0 {
        assert(s.contains(s[j - 1]));
        lemma_last_none(s, c, j - 1);
    }
}

/// In `a:t` with no `:` in `t`, the last `:` is the one after `a`.
proof fn lemma_last_colon(a: Seq<char>, t: Seq<char>)
    requires
        !t.contains(':'),
    ensures
        rfind_char(a + ":"@ + t, ':') == Some(a.len() as int),
        (a + ":"@ + t).subrange(0, a.len() as int) == a,
        (a + ":"@ + t).subrange(a.len() + 1 as int, (a + ":"@ + t).len() as int) == t,
{
    reveal_strlit(":");
    let s = a + ":"@ + t;
    let n = a.len() as int;
    assert(s[n] == ':');
    assert forall|k: int| n < k < s.len() implies s[k] != ':' by {
        assert(s[k] == t[k - n - 1]);
        assert(t.contains(t[k - n - 1]));
    }
    lemma_last_from_skips(s, ':', n, s.len() as int);
    assert(s.subrange(0, n) =~= a);
    assert(s.subrange(n + 1, s.len() as int) =~= t);
}

/// An image named on Docker Hub without a registry or a user, such as
/// `nginx:1.25`, is the official repository `library/<name>` with the tag
/// after the last `:`; a name without a `:` has the tag `latest`.
pub proof fn law_hub_image_tag(name: Seq<char>, tag: Seq<char>)
    requires
        !name.contains('/'),
        !tag.contains('/'),
        !tag.contains(':'),
    ensures
        image_ref_of(name + ":"@ + tag) == (docker_hub(), "library/"@ + name, tag),
        !name.contains(':') ==> image_ref_of(name) == (docker_hub(), "library/"@ + name, "latest"@),
{
    reveal_strlit(":");
    reveal_strlit("/");
    let s = name + ":"@ + tag;
    assert(!s.contains('/')) by {
        if s.contains('/') {
            let k = choose|k: int| 0 <= k < s.len() && s[k] == '/';
            if k < name.len() {
                assert(name[k] == '/');
                assert(name.contains(name[k]));
            } else if k > name.len() {
                assert(tag[k - name.len() - 1] == '/');
                assert(tag.contains(tag[k - name.len() - 1]));
            }
        }
    }
    assert("/"@ =~= seq!['/']);
    lemma_lacks_char(s, '/');
    lemma_lacks_char(name, '/');
    if !name.contains(':') {
        lemma_lacks_char(name, ':');
    }
    lemma_last_colon(name, tag);
    assert(split_once(s, "/"@) == (s, None::<Seq<char>>));
    assert(split_once(name, "/"@) == (name, None::<Seq<char>>));
}

/// An image on another registry, such as `ghcr.io/user/app:1.2`, comes from
/// that host over `https`, with the path before the last `:` as its
/// repository and the text after it as its tag (`latest` when there is no `:`).
pub proof fn law_registry_image_tag(host: Seq<char>, path: Seq<char>, tag: Seq<char>)
    requires
        !host.contains('/'),
        contains(host, "."@),
        host != "registry-1.docker.io"@,
        !tag.contains(':'),
    ensures
        image_ref_of(host + "/"@ + path + ":"@ + tag) == ("https://"@ + host, path, tag),
        !path.contains(':') ==> image_ref_of(host + "/"@ + path) == ("https://"@ + host, path, "latest"@),
{
    reveal_strlit(":");
    reveal_strlit("/");
    reveal_strlit("https://");
    reveal_strlit("registry-1.docker.io");
    reveal_strlit("https://registry-1.docker.io");
    assert("/"@ =~= seq!['/']);
    lemma_lacks_char(host, '/');
    if !path.contains(':') {
        lemma_lacks_char(path, ':');
    }
    let s = host + "/"@ + path + ":"@ + tag;
    assert(s =~= host + "/"@ + (path + ":"@ + tag));
    crate::text::lemma_split_once_first(host, "/"@, path + ":"@ + tag);
    crate::text::lemma_split_once_first(host, "/"@, path);
    lemma_last_colon(path, tag);
    assert("https://"@ + host != docker_hub()) by {
        if "https://"@ + host == docker_hub() {
            assert(("https://"@ + host).subrange(8, ("https://"@ + host).len() as int) =~= host);
            assert(docker_hub().subrange(8, docker_hub().len() as int) =~= "registry-1.docker.io"@);
        }
    }
}

} // verus!
