//! Compose files: the YAML tree they are read into, the lenient forms their
//! fields take, and the order in which their services are brought up.
use vstd::prelude::*;
use crate::text::{concat, concat3, owned, split_once, split_once_exec, split_whitespace, split_whitespace_exec, views};

verus! {

/// A YAML value as a compose file holds it. A sequence or mapping also carries
/// its compact JSON text, which is what an environment value that is neither a
/// scalar nor null becomes.
pub enum YamlNode {
    Null,
    Bool(bool),
    Number(String),
    Str(String),
    List(Vec<YamlNode>, String),
    Mapping(Vec<(YamlNode, YamlNode)>, String),
}

/// The text of a scalar read as a string: a string itself, a number as written,
/// a boolean as `true` or `false`, null as `null`; nothing for sequences and
/// mappings.
pub open spec fn scalar_text(n: YamlNode) -> Option<Seq<char>> {
    match n {
        YamlNode::Null => Some("null"@),
        YamlNode::Str(s) => Some(s@),
        YamlNode::Number(t) => Some(t@),
        YamlNode::Bool(b) => Some(
            if b {
                "true"@
            } else {
                "false"@
            },
        ),
        _ => None,
    }
}

/// The text of a scalar read as a string.
pub fn scalar_text_exec(n: &YamlNode) -> (r: Option<String>)
    ensures
        match scalar_text(*n) {
            Some(t) => r matches Some(s) && s@ == t,
            None => r is None,
        },
{
    match n {
        YamlNode::Null => Some(owned("null")),
        YamlNode::Str(s) => Some(s.clone()),
        YamlNode::Number(t) => Some(t.clone()),
        YamlNode::Bool(b) => Some(
            if *b {
                owned("true")
            } else {
                owned("false")
            },
        ),
        _ => None,
    }
}

/// The texts of a sequence of scalars, or `None` when one item is not a scalar.
pub open spec fn scalar_texts(items: Seq<YamlNode>) -> Option<Seq<Seq<char>>>
    decreases items.len(),
{
    if items.len() == 0 {
        Some(Seq::empty())
    } else {
        match (scalar_texts(items.drop_last()), scalar_text(items.last())) {
            (Some(a), Some(t)) => Some(a.push(t)),
            _ => None,
        }
    }
}

/// Once a prefix holds a non-scalar, so does every longer prefix.
proof fn lemma_scalar_texts_none_extends(items: Seq<YamlNode>, i: int)
    requires
        0 <= i <= items.len(),
        scalar_texts(items.take(i)) is None,
    ensures
        scalar_texts(items) is None,
    decreases items.len() - i,
{
    if i < items.len() {
        assert(items.take(i + 1).drop_last() =~= items.take(i));
        lemma_scalar_texts_none_extends(items, i + 1);
    } else {
        assert(items.take(i) =~= items);
    }
}

/// The texts of a sequence of scalars.
pub fn scalar_texts_exec(items: &Vec<YamlNode>) -> (r: Option<Vec<String>>)
    ensures
        match scalar_texts(items@) {
            Some(t) => r matches Some(v) && views(v@) == t,
            None => r is None,
        },
{
    let mut out: Vec<String> = Vec::new();
    let mut i: usize = 0;
    while i < items.len()
        invariant
            i <= items.len(),
            scalar_texts(items@.take(i as int)) == Some(views(out@)),
        decreases items.len() - i,
    {
        assert(items@.take(i + 1).drop_last() =~= items@.take(i as int));
        assert(items@.take(i + 1).last() == items@[i as int]);
        let ghost prev = views(out@);
        match scalar_text_exec(&items[i]) {
            Some(t) => {
                out.push(t);
                assert(views(out@) =~= prev.push(t@));
            },
            None => {
                proof {
                    lemma_scalar_texts_none_extends(items@, i as int + 1);
                }
                return None;
            },
        }
        i += 1;
    }
    assert(items@.take(items.len() as int) =~= items@);
    Some(out)
}

/// A command line: a string split at whitespace, or a sequence of strings.
pub struct ComposeCommand(pub Vec<String>);

/// The words of a command line node, or `None` when the node has neither form.
pub open spec fn command_of(n: YamlNode) -> Option<Seq<Seq<char>>> {
    match n {
        YamlNode::Str(s) => Some(split_whitespace(s@)),
        YamlNode::List(items, _) => scalar_texts(items@),
        _ => None,
    }
}

impl ComposeCommand {
    /// Reads a command line: a string is split at whitespace, a sequence gives
    /// its strings in order; anything else is refused.
    pub fn deserialize(node: &YamlNode) -> (r: Result<ComposeCommand, String>)
        ensures
            match command_of(*node) {
                Some(c) => r matches Ok(x) && views(x.0@) == c,
                None => r matches Err(m) && m@ == "invalid type, expected a string or a sequence of strings"@,
            },
    {
        let words = match node {
            YamlNode::Str(s) => Some(split_whitespace_exec(s.as_str())),
            YamlNode::List(items, _) => scalar_texts_exec(items),
            _ => None,
        };
        match words {
            Some(w) => Ok(ComposeCommand(w)),
            None => Err(owned("invalid type, expected a string or a sequence of strings")),
        }
    }
}

/// Extra host entries: `host:ip` strings, from a sequence of strings or from a
/// mapping of host names to addresses.
pub struct ComposeExtraHosts(pub Vec<String>);

/// The `host:ip` entries of a mapping, or `None` when a key or value is not a scalar.
pub open spec fn host_pairs(entries: Seq<(YamlNode, YamlNode)>) -> Option<Seq<Seq<char>>>
    decreases entries.len(),
{
    if entries.len() == 0 {
        Some(Seq::empty())
    } else {
        match (host_pairs(entries.drop_last()), scalar_text(entries.last().0), scalar_text(entries.last().1)) {
            (Some(a), Some(k), Some(v)) => Some(a.push(k + ":"@ + v)),
            _ => None,
        }
    }
}

/// The entries of an extra hosts node, or `None` when it has neither form.
pub open spec fn extra_hosts_of(n: YamlNode) -> Option<Seq<Seq<char>>> {
    match n {
        YamlNode::List(items, _) => scalar_texts(items@),
        YamlNode::Mapping(entries, _) => host_pairs(entries@),
        _ => None,
    }
}

/// Once a prefix holds a non-scalar, so does every longer prefix.
proof fn lemma_host_pairs_none_extends(entries: Seq<(YamlNode, YamlNode)>, i: int)
    requires
        0 <= i <= entries.len(),
        host_pairs(entries.take(i)) is None,
    ensures
        host_pairs(entries) is None,
    decreases entries.len() - i,
{
    if i < entries.len() {
        assert(entries.take(i + 1).drop_last() =~= entries.take(i));
        lemma_host_pairs_none_extends(entries, i + 1);
    } else {
        assert(entries.take(i) =~= entries);
    }
}

/// The `host:ip` entries of a mapping.
fn host_pairs_exec(entries: &Vec<(YamlNode, YamlNode)>) -> (r: Option<Vec<String>>)
    ensures
        match host_pairs(entries@) {
            Some(t) => r matches Some(v) && views(v@) == t,
            None => r is None,
        },
{
    let mut out: Vec<String> = Vec::new();
    let mut i: usize = 0;
    while i < entries.len()
        invariant
            i <= entries.len(),
            host_pairs(entries@.take(i as int)) == Some(views(out@)),
        decreases entries.len() - i,
    {
        assert(entries@.take(i + 1).drop_last() =~= entries@.take(i as int));
        assert(entries@.take(i + 1).last() == entries@[i as int]);
        let ghost prev = views(out@);
        let (k, v) = (&entries[i].0, &entries[i].1);
        match (scalar_text_exec(k), scalar_text_exec(v)) {
            (Some(ks), Some(vs)) => {
                out.push(concat3(ks.as_str(), ":", vs.as_str()));
                assert(views(out@) =~= prev.push(ks@ + ":"@ + vs@));
            },
            _ => {
                proof {
                    lemma_host_pairs_none_extends(entries@, i as int + 1);
                }
                return None;
            },
        }
        i += 1;
    }
    assert(entries@.take(entries.len() as int) =~= entries@);
    Some(out)
}

impl ComposeExtraHosts {
    /// Reads extra hosts: a sequence of `host:ip` strings, or a mapping whose
    /// entries become `host:ip`; anything else is refused.
    pub fn deserialize(node: &YamlNode) -> (r: Result<ComposeExtraHosts, String>)
        ensures
            match extra_hosts_of(*node) {
                Some(c) => r matches Ok(x) && views(x.0@) == c,
                None => r matches Err(m) && m@
                    == "invalid type, expected a sequence of strings or a map of hostnames to IPs"@,
            },
    {
        let hosts = match node {
            YamlNode::List(items, _) => scalar_texts_exec(items),
            YamlNode::Mapping(entries, _) => host_pairs_exec(entries),
            _ => None,
        };
        match hosts {
            Some(h) => Ok(ComposeExtraHosts(h)),
            None => Err(owned("invalid type, expected a sequence of strings or a map of hostnames to IPs")),
        }
    }
}

/// Environment variables, each name once, with the value last given to it.
pub struct ComposeEnvironment(pub Vec<(String, String)>);

/// The views of name/value pairs.
pub open spec fn pairs_view(v: Seq<(String, String)>) -> Seq<(Seq<char>, Seq<char>)> {
    v.map_values(|p: (String, String)| (p.0@, p.1@))
}

/// The index of the first pair from `i` on named `k`.
pub open spec fn key_index_from(env: Seq<(Seq<char>, Seq<char>)>, k: Seq<char>, i: int) -> Option<int>
    decreases env.len() - i,
{
    if i < 0 || i >= env.len() {
        None
    } else if env[i].0 == k {
        Some(i)
    } else {
        key_index_from(env, k, i + 1)
    }
}

/// `env` with `k` set to `v`: the value of an existing `k` is replaced, else
/// the pair is added at the end.
pub open spec fn env_insert(env: Seq<(Seq<char>, Seq<char>)>, k: Seq<char>, v: Seq<char>) -> Seq<
    (Seq<char>, Seq<char>),
> {
    match key_index_from(env, k, 0) {
        Some(i) => env.update(i, (k, v)),
        None => env.push((k, v)),
    }
}

/// The value that `env` gives `k`.
pub open spec fn env_lookup(env: Seq<(Seq<char>, Seq<char>)>, k: Seq<char>) -> Option<Seq<char>> {
    match key_index_from(env, k, 0) {
        Some(i) => Some(env[i].1),
        None => None,
    }
}

/// What `key_index_from` finds: the first pair from `i` on named `k`.
pub proof fn lemma_key_index(env: Seq<(Seq<char>, Seq<char>)>, k: Seq<char>, i: int)
    requires
        0 <= i,
    ensures
        match key_index_from(env, k, i) {
            Some(j) => i <= j < env.len() && env[j].0 == k && forall|m: int| i <= m < j ==> env[m].0 != k,
            None => forall|m: int| i <= m < env.len() ==> env[m].0 != k,
        },
    decreases env.len() - i,
{
    if i < env.len() && env[i].0 != k {
        lemma_key_index(env, k, i + 1);
    }
}

/// `key_index_from` finds the first pair named `k`, whichever list it is.
pub proof fn lemma_key_index_is(env: Seq<(Seq<char>, Seq<char>)>, k: Seq<char>, j: Option<int>)
    requires
        match j {
            Some(j) => 0 <= j < env.len() && env[j].0 == k && forall|m: int| 0 <= m < j ==> env[m].0 != k,
            None => forall|m: int| 0 <= m < env.len() ==> env[m].0 != k,
        },
    ensures
        key_index_from(env, k, 0) == j,
{
    lemma_key_index(env, k, 0);
    match key_index_from(env, k, 0) {
        Some(a) => match j {
            Some(b) => {
                if a < b {
                    assert(env[a].0 != k);
                } else if b < a {
                    assert(env[b].0 != k);
                }
            },
            None => {
                assert(env[a].0 != k);
            },
        },
        None => match j {
            Some(b) => {
                assert(env[b].0 != k);
            },
            None => {},
        },
    }
}

/// Reading a name after setting it gives the value it was set to; every other
/// name keeps its value.
pub proof fn law_env_lookup_after_insert(env: Seq<(Seq<char>, Seq<char>)>, k: Seq<char>, v: Seq<char>, k2: Seq<char>)
    ensures
        env_lookup(env_insert(env, k, v), k2) == if k2 == k {
            Some(v)
        } else {
            env_lookup(env, k2)
        },
{
    let e2 = env_insert(env, k, v);
    lemma_key_index(env, k, 0);
    lemma_key_index(env, k2, 0);
    match key_index_from(env, k, 0) {
        Some(i) => {
            assert(e2 == env.update(i, (k, v)));
            if k2 == k {
                lemma_key_index_is(e2, k, Some(i));
            } else {
                lemma_key_index_is(e2, k2, key_index_from(env, k2, 0));
            }
        },
        None => {
            assert(e2 == env.push((k, v)));
            if k2 == k {
                lemma_key_index_is(e2, k, Some(env.len() as int));
            } else {
                lemma_key_index_is(e2, k2, key_index_from(env, k2, 0));
            }
        },
    }
}

/// The index of the first pair named `k`.
pub(crate) fn key_index_exec(env: &Vec<(String, String)>, k: &String) -> (r: Option<usize>)
    ensures
        match key_index_from(pairs_view(env@), k@, 0) {
            Some(i) => r matches Some(j) && j as int == i,
            None => r is None,
        },
        r matches Some(j) ==> j < env.len(),
{
    let mut i: usize = 0;
    while i < env.len()
        invariant
            i <= env.len(),
            key_index_from(pairs_view(env@), k@, 0) == key_index_from(pairs_view(env@), k@, i as int),
        decreases env.len() - i,
    {
        if env[i].0 == *k {
            return Some(i);
        }
        i += 1;
    }
    None
}

/// Sets `k` to `v` in `env`.
pub fn env_insert_exec(env: &mut Vec<(String, String)>, k: String, v: String)
    ensures
        pairs_view(final(env)@) == env_insert(pairs_view(old(env)@), k@, v@),
{
    let ghost before = pairs_view(env@);
    match key_index_exec(env, &k) {
        Some(i) => {
            env.set(i, (k, v));
            assert(pairs_view(env@) =~= before.update(i as int, (k@, v@)));
        },
        None => {
            env.push((k, v));
            assert(pairs_view(env@) =~= before.push((k@, v@)));
        },
    }
}

/// The value of an environment mapping entry: scalars as text, null as the
/// empty text, sequences and mappings as their JSON text.
pub open spec fn env_value(v: YamlNode) -> Seq<char> {
    match v {
        YamlNode::Null => Seq::empty(),
        YamlNode::List(_, j) => j@,
        YamlNode::Mapping(_, j) => j@,
        _ => scalar_text(v).unwrap(),
    }
}

/// The variables of an environment mapping, or `None` when a key is not a scalar.
pub open spec fn env_from_map(entries: Seq<(YamlNode, YamlNode)>) -> Option<Seq<(Seq<char>, Seq<char>)>>
    decreases entries.len(),
{
    if entries.len() == 0 {
        Some(Seq::empty())
    } else {
        match (env_from_map(entries.drop_last()), scalar_text(entries.last().0)) {
            (Some(env), Some(k)) => Some(env_insert(env, k, env_value(entries.last().1))),
            _ => None,
        }
    }
}

/// The variable that an item of an environment sequence sets: a string,
/// number or boolean `NAME=value` (split at the first `=`), or `NAME` for an
/// empty value; null and other items set nothing.
pub open spec fn env_item(n: YamlNode) -> Option<(Seq<char>, Seq<char>)> {
    if n is Null {
        None
    } else {
        match scalar_text(n) {
        Some(t) => match split_once(t, "="@) {
            (k, Some(v)) => Some((k, v)),
            (k, None) => Some((k, Seq::empty())),
        },
        None => None,
        }
    }
}

/// The variables of an environment sequence.
pub open spec fn env_from_list(items: Seq<YamlNode>) -> Seq<(Seq<char>, Seq<char>)>
    decreases items.len(),
{
    if items.len() == 0 {
        Seq::empty()
    } else {
        match env_item(items.last()) {
            Some((k, v)) => env_insert(env_from_list(items.drop_last()), k, v),
            None => env_from_list(items.drop_last()),
        }
    }
}

/// The variables of an environment node, or `None` when it is neither a
/// mapping nor a sequence.
pub open spec fn environment_of(n: YamlNode) -> Option<Seq<(Seq<char>, Seq<char>)>> {
    match n {
        YamlNode::Mapping(entries, _) => env_from_map(entries@),
        YamlNode::List(items, _) => Some(env_from_list(items@)),
        _ => None,
    }
}

/// Once a prefix holds a non-scalar key, so does every longer prefix.
proof fn lemma_env_from_map_none_extends(entries: Seq<(YamlNode, YamlNode)>, i: int)
    requires
        0 <= i <= entries.len(),
        env_from_map(entries.take(i)) is None,
    ensures
        env_from_map(entries) is None,
    decreases entries.len() - i,
{
    if i < entries.len() {
        assert(entries.take(i + 1).drop_last() =~= entries.take(i));
        lemma_env_from_map_none_extends(entries, i + 1);
    } else {
        assert(entries.take(i) =~= entries);
    }
}

/// The value of an environment mapping entry.
fn env_value_exec(v: &YamlNode) -> (r: String)
    ensures
        r@ == env_value(*v),
{
    match v {
        YamlNode::Null => String::new(),
        YamlNode::List(_, j) => j.clone(),
        YamlNode::Mapping(_, j) => j.clone(),
        _ => match scalar_text_exec(v) {
            Some(t) => t,
            None => String::new(),
        },
    }
}

/// The variables of an environment mapping.
fn env_from_map_exec(entries: &Vec<(YamlNode, YamlNode)>) -> (r: Option<Vec<(String, String)>>)
    ensures
        match env_from_map(entries@) {
            Some(e) => r matches Some(v) && pairs_view(v@) == e,
            None => r is None,
        },
{
    let mut env: Vec<(String, String)> = Vec::new();
    let mut i: usize = 0;
    while i < entries.len()
        invariant
            i <= entries.len(),
            env_from_map(entries@.take(i as int)) == Some(pairs_view(env@)),
        decreases entries.len() - i,
    {
        assert(entries@.take(i + 1).drop_last() =~= entries@.take(i as int));
        assert(entries@.take(i + 1).last() == entries@[i as int]);
        match scalar_text_exec(&entries[i].0) {
            Some(k) => {
                let v = env_value_exec(&entries[i].1);
                env_insert_exec(&mut env, k, v);
            },
            None => {
                proof {
                    lemma_env_from_map_none_extends(entries@, i as int + 1);
                }
                return None;
            },
        }
        i += 1;
    }
    assert(entries@.take(entries.len() as int) =~= entries@);
    Some(env)
}

/// The variables of an environment sequence.
fn env_from_list_exec(items: &Vec<YamlNode>) -> (r: Vec<(String, String)>)
    ensures
        pairs_view(r@) == env_from_list(items@),
{
    proof {
        reveal_strlit("=");
    }
    let mut env: Vec<(String, String)> = Vec::new();
    let mut i: usize = 0;
    while i < items.len()
        invariant
            i <= items.len(),
            env_from_list(items@.take(i as int)) == pairs_view(env@),
            "="@.len() == 1,
        decreases items.len() - i,
    {
        assert(items@.take(i + 1).drop_last() =~= items@.take(i as int));
        assert(items@.take(i + 1).last() == items@[i as int]);
        let text = match &items[i] {
            YamlNode::Null => None,
            other => scalar_text_exec(other),
        };
        match text {
            Some(t) => {
                let (k, rest) = split_once_exec(t.as_str(), "=");
                let v = match rest {
                    Some(v) => v,
                    None => String::new(),
                };
                env_insert_exec(&mut env, k, v);
            },
            None => {},
        }
        i += 1;
    }
    assert(items@.take(items.len() as int) =~= items@);
    env
}

impl ComposeEnvironment {
    /// Reads environment variables: a mapping of names to values (scalars as
    /// text, null as empty, other values as JSON text), or a sequence of
    /// `NAME=value` items; anything else is refused.
    pub fn deserialize(node: &YamlNode) -> (r: Result<ComposeEnvironment, String>)
        ensures
            match environment_of(*node) {
                Some(e) => r matches Ok(x) && pairs_view(x.0@) == e,
                None => r matches Err(m) && m@ == "invalid type, expected a map or a sequence of strings"@,
            },
    {
        let env = match node {
            YamlNode::Mapping(entries, _) => env_from_map_exec(entries),
            YamlNode::List(items, _) => Some(env_from_list_exec(items)),
            _ => None,
        };
        match env {
            Some(e) => Ok(ComposeEnvironment(e)),
            None => Err(owned("invalid type, expected a map or a sequence of strings")),
        }
    }

    /// The value of the variable `name`.
    pub fn get(&self, name: &str) -> (r: Option<String>)
        ensures
            match env_lookup(pairs_view(self.0@), name@) {
                Some(v) => r matches Some(x) && x@ == v,
                None => r is None,
            },
    {
        let k = owned(name);
        match key_index_exec(&self.0, &k) {
            Some(i) => Some(self.0[i].1.clone()),
            None => None,
        }
    }
}

/// Published ports, each in the short `[ip:][host:]container[/protocol]` form.
pub struct ComposePorts(pub Vec<String>);

/// The value of the first entry from `i` on whose key reads as `key`.
pub open spec fn lookup_from(entries: Seq<(YamlNode, YamlNode)>, key: Seq<char>, i: int) -> Option<YamlNode>
    decreases entries.len() - i,
{
    if i < 0 || i >= entries.len() {
        None
    } else if scalar_text(entries[i].0) == Some(key) {
        Some(entries[i].1)
    } else {
        lookup_from(entries, key, i + 1)
    }
}

/// The value under `key` in a mapping.
pub open spec fn lookup(entries: Seq<(YamlNode, YamlNode)>, key: Seq<char>) -> Option<YamlNode> {
    lookup_from(entries, key, 0)
}

/// A port number written as a number or a string; empty for anything else.
pub open spec fn port_text(v: YamlNode) -> Seq<char> {
    match v {
        YamlNode::Number(t) => t@,
        YamlNode::Str(s) => s@,
        _ => Seq::empty(),
    }
}

/// A string value; nothing for any other value.
pub open spec fn str_value(v: Option<YamlNode>) -> Option<Seq<char>> {
    match v {
        Some(YamlNode::Str(s)) => Some(s@),
        _ => None,
    }
}

/// The short form of a long-syntax port entry: `host_ip:` if given,
/// `published:` if given, the target, `/protocol` if given; nothing when the
/// target is missing or empty.
pub open spec fn port_of_object(entries: Seq<(YamlNode, YamlNode)>) -> Option<Seq<char>> {
    let target = match lookup(entries, "target"@) {
        Some(v) => port_text(v),
        None => Seq::empty(),
    };
    if target.len() == 0 {
        None
    } else {
        let ip_part = match str_value(lookup(entries, "host_ip"@)) {
            Some(ip) => ip + ":"@,
            None => Seq::empty(),
        };
        let pub_part = match lookup(entries, "published"@) {
            Some(v) => port_text(v) + ":"@,
            None => Seq::empty(),
        };
        let proto_part = match str_value(lookup(entries, "protocol"@)) {
            Some(p) => "/"@ + p,
            None => Seq::empty(),
        };
        Some(ip_part + pub_part + target + proto_part)
    }
}

/// The short form of one port entry: a string or number as written, a long
/// entry as above; other entries give none.
pub open spec fn port_item(n: YamlNode) -> Option<Seq<char>> {
    match n {
        YamlNode::Str(s) => Some(s@),
        YamlNode::Number(t) => Some(t@),
        YamlNode::Mapping(entries, _) => port_of_object(entries@),
        _ => None,
    }
}

/// The short forms of the port entries that give one, in order.
pub open spec fn ports_from(items: Seq<YamlNode>) -> Seq<Seq<char>>
    decreases items.len(),
{
    if items.len() == 0 {
        Seq::empty()
    } else {
        match port_item(items.last()) {
            Some(p) => ports_from(items.drop_last()).push(p),
            None => ports_from(items.drop_last()),
        }
    }
}

/// The ports of a ports node, or `None` when it is not a sequence.
pub open spec fn ports_of(n: YamlNode) -> Option<Seq<Seq<char>>> {
    match n {
        YamlNode::List(items, _) => Some(ports_from(items@)),
        _ => None,
    }
}

/// The value under `key` in a mapping.
pub fn lookup_exec<'a>(entries: &'a Vec<(YamlNode, YamlNode)>, key: &str) -> (r: Option<&'a YamlNode>)
    ensures
        match lookup(entries@, key@) {
            Some(v) => r matches Some(x) && *x == v,
            None => r is None,
        },
{
    let mut i: usize = 0;
    while i < entries.len()
        invariant
            i <= entries.len(),
            lookup(entries@, key@) == lookup_from(entries@, key@, i as int),
        decreases entries.len() - i,
    {
        match scalar_text_exec(&entries[i].0) {
            Some(t) => {
                let k = owned(key);
                if t == k {
                    return Some(&entries[i].1);
                }
            },
            None => {},
        }
        i += 1;
    }
    None
}

/// A port number written as a number or a string.
fn port_text_exec(v: &YamlNode) -> (r: String)
    ensures
        r@ == port_text(*v),
{
    match v {
        YamlNode::Number(t) => t.clone(),
        YamlNode::Str(s) => s.clone(),
        _ => String::new(),
    }
}

/// A string value.
fn str_value_exec(v: Option<&YamlNode>) -> (r: Option<String>)
    ensures
        match str_value(
            match v {
                Some(x) => Some(*x),
                None => None,
            },
        ) {
            Some(t) => r matches Some(s) && s@ == t,
            None => r is None,
        },
{
    match v {
        Some(YamlNode::Str(s)) => Some(s.clone()),
        _ => None,
    }
}

/// The short form of a long-syntax port entry.
fn port_of_object_exec(entries: &Vec<(YamlNode, YamlNode)>) -> (r: Option<String>)
    ensures
        match port_of_object(entries@) {
            Some(t) => r matches Some(s) && s@ == t,
            None => r is None,
        },
{
    let target = match lookup_exec(entries, "target") {
        Some(v) => port_text_exec(v),
        None => String::new(),
    };
    if target.as_str().is_empty() {
        return None;
    }
    let mut out = String::new();
    match str_value_exec(lookup_exec(entries, "host_ip")) {
        Some(ip) => {
            out = concat(ip.as_str(), ":");
        },
        None => {},
    }
    match lookup_exec(entries, "published") {
        Some(v) => {
            let p = port_text_exec(v);
            out = concat3(out.as_str(), p.as_str(), ":");
        },
        None => {},
    }
    out = concat(out.as_str(), target.as_str());
    match str_value_exec(lookup_exec(entries, "protocol")) {
        Some(proto) => {
            out = concat3(out.as_str(), "/", proto.as_str());
        },
        None => {},
    }
    Some(out)
}

/// The short form of one port entry.
fn port_item_exec(n: &YamlNode) -> (r: Option<String>)
    ensures
        match port_item(*n) {
            Some(t) => r matches Some(s) && s@ == t,
            None => r is None,
        },
{
    match n {
        YamlNode::Str(s) => Some(s.clone()),
        YamlNode::Number(t) => Some(t.clone()),
        YamlNode::Mapping(entries, _) => port_of_object_exec(entries),
        _ => None,
    }
}

impl ComposePorts {
    /// Reads published ports from a sequence of strings, numbers and long
    /// entries (`target`, `published`, `host_ip`, `protocol`); entries of other
    /// kinds, and long entries without a target, are skipped. Anything but a
    /// sequence is refused.
    pub fn deserialize(node: &YamlNode) -> (r: Result<ComposePorts, String>)
        ensures
            match ports_of(*node) {
                Some(p) => r matches Ok(x) && views(x.0@) == p,
                None => r matches Err(m) && m@
                    == "invalid type, expected a sequence of strings, integers, or objects mapping ports"@,
            },
    {
        let items = match node {
            YamlNode::List(items, _) => items,
            _ => {
                return Err(
                    owned("invalid type, expected a sequence of strings, integers, or objects mapping ports"),
                );
            },
        };
        let mut out: Vec<String> = Vec::new();
        let mut i: usize = 0;
        while i < items.len()
            invariant
                i <= items.len(),
                ports_from(items@.take(i as int)) == views(out@),
            decreases items.len() - i,
        {
            assert(items@.take(i + 1).drop_last() =~= items@.take(i as int));
            assert(items@.take(i + 1).last() == items@[i as int]);
            let ghost prev = views(out@);
            match port_item_exec(&items[i]) {
                Some(p) => {
                    out.push(p);
                    assert(views(out@) =~= prev.push(p@));
                },
                None => {},
            }
            i += 1;
        }
        assert(items@.take(items.len() as int) =~= items@);
        Ok(ComposePorts(out))
    }
}

/// How an optional field reads: absent or null is `None`, a value that `f`
/// reads is that, anything else fails with `<key>: <message>`.
pub open spec fn field_of<T>(v: Option<YamlNode>, f: spec_fn(YamlNode) -> Option<T>, key: Seq<char>, message: Seq<char>) -> Result<Option<T>, Seq<char>> {
    match v {
        None => Ok(None),
        Some(YamlNode::Null) => Ok(None),
        Some(n) => match f(n) {
            Some(x) => Ok(Some(x)),
            None => Err(key + ": "@ + message),
        },
    }
}

/// The failure message of an expected type.
pub open spec fn expected(what: Seq<char>) -> Seq<char> {
    "invalid type, expected "@ + what
}

/// A string field.
pub open spec fn string_field(entries: Seq<(YamlNode, YamlNode)>, key: Seq<char>) -> Result<Option<Seq<char>>, Seq<char>> {
    field_of(lookup(entries, key), |n: YamlNode| scalar_text(n), key, expected("a string"@))
}

/// A field holding a sequence of strings.
pub open spec fn strings_field(entries: Seq<(YamlNode, YamlNode)>, key: Seq<char>) -> Result<Option<Seq<Seq<char>>>, Seq<char>> {
    field_of(
        lookup(entries, key),
        |n: YamlNode|
            match n {
                YamlNode::List(items, _) => scalar_texts(items@),
                _ => None,
            },
        key,
        expected("a sequence of strings"@),
    )
}

/// The names of the env files that an `env_file` value lists: a string names
/// one; the string items of a sequence name the others; anything else names none.
pub open spec fn env_file_names(n: YamlNode) -> Seq<Seq<char>> {
    match n {
        YamlNode::Str(s) => seq![s@],
        YamlNode::List(items, _) => strings_among(items@),
        _ => Seq::empty(),
    }
}

/// The string items of a sequence, in order.
pub open spec fn strings_among(items: Seq<YamlNode>) -> Seq<Seq<char>>
    decreases items.len(),
{
    if items.len() == 0 {
        Seq::empty()
    } else {
        match items.last() {
            YamlNode::Str(s) => strings_among(items.drop_last()).push(s@),
            _ => strings_among(items.drop_last()),
        }
    }
}

/// An `i32` field: a number that parses as one.
pub open spec fn i32_field(entries: Seq<(YamlNode, YamlNode)>, key: Seq<char>) -> Result<Option<int>, Seq<char>> {
    field_of(
        lookup(entries, key),
        |n: YamlNode|
            match n {
                YamlNode::Number(t) => match crate::num::parse_i32(t@) {
                    Ok(x) => Some(x),
                    Err(_) => None,
                },
                _ => None,
            },
        key,
        expected("i32"@),
    )
}

/// A boolean field.
pub open spec fn bool_field(entries: Seq<(YamlNode, YamlNode)>, key: Seq<char>) -> Result<Option<bool>, Seq<char>> {
    field_of(
        lookup(entries, key),
        |n: YamlNode|
            match n {
                YamlNode::Bool(b) => Some(b),
                _ => None,
            },
        key,
        expected("a boolean"@),
    )
}

/// Whether a health check reads: a mapping with a `test` entry (of any
/// value), whose `interval` and `timeout` read as strings and `retries` as an
/// `i32`.
pub open spec fn healthcheck_reads(n: YamlNode) -> bool {
    match n {
        YamlNode::Mapping(e, _) => lookup(e@, "test"@) is Some && string_field(e@, "interval"@) is Ok && string_field(
            e@,
            "timeout"@,
        ) is Ok && i32_field(e@, "retries"@) is Ok,
        _ => false,
    }
}

/// The `healthcheck` field: read for its shape only.
pub open spec fn healthcheck_field(entries: Seq<(YamlNode, YamlNode)>) -> Result<Option<()>, Seq<char>> {
    field_of(
        lookup(entries, "healthcheck"@),
        |n: YamlNode|
            if healthcheck_reads(n) {
                Some(())
            } else {
                None
            },
        "healthcheck"@,
        expected("struct ComposeHealthCheck"@),
    )
}

/// The `cpus` field: a number, read for its shape only (its value is a
/// float).
pub open spec fn cpus_field(entries: Seq<(YamlNode, YamlNode)>) -> Result<Option<()>, Seq<char>> {
    field_of(
        lookup(entries, "cpus"@),
        |n: YamlNode|
            match n {
                YamlNode::Number(_) => Some(()),
                _ => None,
            },
        "cpus"@,
        expected("f64"@),
    )
}

/// The error of a field, if it has one.
pub open spec fn field_error<T>(r: Result<Option<T>, Seq<char>>) -> Option<Seq<char>> {
    match r {
        Ok(_) => None,
        Err(m) => Some(m),
    }
}

/// The value of a field that reads.
pub open spec fn field_value<T>(r: Result<Option<T>, Seq<char>>) -> Option<T> {
    match r {
        Ok(v) => v,
        Err(_) => None,
    }
}

/// The failure of field `key`, which expected `what`.
fn field_error_text(key: &str, what: &str) -> (r: String)
    ensures
        r@ == key@ + ": "@ + expected(what@),
{
    let m = concat("invalid type, expected ", what);
    let r = concat3(key, ": ", m.as_str());
    assert(r@ =~= key@ + ": "@ + expected(what@));
    r
}

/// A string field as read.
pub fn string_field_exec(entries: &Vec<(YamlNode, YamlNode)>, key: &str) -> (r: Result<Option<String>, String>)
    ensures
        match string_field(entries@, key@) {
            Ok(Some(t)) => r matches Ok(Some(s)) && s@ == t,
            Ok(None) => r matches Ok(None),
            Err(m) => r matches Err(e) && e@ == m,
        },
{
    match lookup_exec(entries, key) {
        None => Ok(None),
        Some(YamlNode::Null) => Ok(None),
        Some(n) => match scalar_text_exec(n) {
            Some(t) => Ok(Some(t)),
            None => Err(field_error_text(key, "a string")),
        },
    }
}

/// A field holding a sequence of strings, as read.
pub fn strings_field_exec(entries: &Vec<(YamlNode, YamlNode)>, key: &str) -> (r: Result<Option<Vec<String>>, String>)
    ensures
        match strings_field(entries@, key@) {
            Ok(Some(t)) => r matches Ok(Some(s)) && views(s@) == t,
            Ok(None) => r matches Ok(None),
            Err(m) => r matches Err(e) && e@ == m,
        },
{
    match lookup_exec(entries, key) {
        None => Ok(None),
        Some(YamlNode::Null) => Ok(None),
        Some(n) => {
            let texts = match n {
                YamlNode::List(items, _) => scalar_texts_exec(items),
                _ => None,
            };
            match texts {
                Some(t) => Ok(Some(t)),
                None => Err(field_error_text(key, "a sequence of strings")),
            }
        },
    }
}

/// The names of the env files that an `env_file` value lists.
pub fn env_file_names_exec(n: &YamlNode) -> (r: Vec<String>)
    ensures
        views(r@) == env_file_names(*n),
{
    match n {
        YamlNode::Str(s) => {
            let mut r: Vec<String> = Vec::new();
            r.push(s.clone());
            assert(views(r@) =~= seq![s@]);
            r
        },
        YamlNode::List(items, _) => {
            let mut r: Vec<String> = Vec::new();
            let mut i: usize = 0;
            while i < items.len()
                invariant
                    i <= items.len(),
                    strings_among(items@.take(i as int)) == views(r@),
                decreases items.len() - i,
            {
                assert(items@.take(i + 1).drop_last() =~= items@.take(i as int));
                assert(items@.take(i + 1).last() == items@[i as int]);
                let ghost prev = views(r@);
                match &items[i] {
                    YamlNode::Str(s) => {
                        r.push(s.clone());
                        assert(views(r@) =~= prev.push(s@));
                    },
                    _ => {},
                }
                i += 1;
            }
            assert(items@.take(items.len() as int) =~= items@);
            r
        },
        _ => Vec::new(),
    }
}

/// An `i32` field as read.
pub fn i32_field_exec(entries: &Vec<(YamlNode, YamlNode)>, key: &str) -> (r: Result<Option<i32>, String>)
    ensures
        match i32_field(entries@, key@) {
            Ok(Some(t)) => r matches Ok(Some(s)) && s as int == t,
            Ok(None) => r matches Ok(None),
            Err(m) => r matches Err(e) && e@ == m,
        },
{
    match lookup_exec(entries, key) {
        None => Ok(None),
        Some(YamlNode::Null) => Ok(None),
        Some(YamlNode::Number(t)) => match crate::num::parse_i32_exec(t.as_str()) {
            Ok(x) => Ok(Some(x)),
            Err(_) => Err(field_error_text(key, "i32")),
        },
        Some(_) => Err(field_error_text(key, "i32")),
    }
}

/// A boolean field as read.
pub fn bool_field_exec(entries: &Vec<(YamlNode, YamlNode)>, key: &str) -> (r: Result<Option<bool>, String>)
    ensures
        match bool_field(entries@, key@) {
            Ok(Some(t)) => r == Ok::<Option<bool>, String>(Some(t)),
            Ok(None) => r matches Ok(None),
            Err(m) => r matches Err(e) && e@ == m,
        },
{
    match lookup_exec(entries, key) {
        None => Ok(None),
        Some(YamlNode::Null) => Ok(None),
        Some(YamlNode::Bool(b)) => Ok(Some(*b)),
        Some(_) => Err(field_error_text(key, "a boolean")),
    }
}

/// The `healthcheck` field, checked.
fn healthcheck_field_exec(entries: &Vec<(YamlNode, YamlNode)>) -> (r: Result<(), String>)
    ensures
        match healthcheck_field(entries@) {
            Ok(_) => r is Ok,
            Err(m) => r matches Err(e) && e@ == m,
        },
{
    match lookup_exec(entries, "healthcheck") {
        None => Ok(()),
        Some(YamlNode::Null) => Ok(()),
        Some(YamlNode::Mapping(e, _)) => {
            let reads = lookup_exec(e, "test").is_some() && string_field_exec(e, "interval").is_ok()
                && string_field_exec(e, "timeout").is_ok() && i32_field_exec(e, "retries").is_ok();
            if reads {
                Ok(())
            } else {
                Err(field_error_text("healthcheck", "struct ComposeHealthCheck"))
            }
        },
        Some(_) => Err(field_error_text("healthcheck", "struct ComposeHealthCheck")),
    }
}

/// The `cpus` field, checked.
fn cpus_field_exec(entries: &Vec<(YamlNode, YamlNode)>) -> (r: Result<(), String>)
    ensures
        match cpus_field(entries@) {
            Ok(_) => r is Ok,
            Err(m) => r matches Err(e) && e@ == m,
        },
{
    match lookup_exec(entries, "cpus") {
        None => Ok(()),
        Some(YamlNode::Null) => Ok(()),
        Some(YamlNode::Number(_)) => Ok(()),
        Some(_) => Err(field_error_text("cpus", "f64")),
    }
}

/// A service of a compose file, as far as bringing it up reads it.
pub struct ComposeService {
    pub image: Option<String>,
    pub container_name: Option<String>,
    pub ports: Option<ComposePorts>,
    pub environment: Option<ComposeEnvironment>,
    pub env_file: Option<Vec<String>>,
    pub volumes: Option<Vec<String>>,
    pub entrypoint: Option<ComposeCommand>,
    pub command: Option<ComposeCommand>,
    pub depends_on: Option<Vec<String>>,
    pub networks: Option<Vec<String>>,
    pub restart: Option<String>,
    pub mem_limit: Option<String>,
    pub oom_score_adj: Option<i32>,
    pub read_only: Option<bool>,
    pub extra_hosts: Option<ComposeExtraHosts>,
}

/// What a service is: its fields as text.
pub struct ServiceView {
    pub image: Option<Seq<char>>,
    pub container_name: Option<Seq<char>>,
    pub ports: Option<Seq<Seq<char>>>,
    pub environment: Option<Seq<(Seq<char>, Seq<char>)>>,
    pub env_file: Option<Seq<Seq<char>>>,
    pub volumes: Option<Seq<Seq<char>>>,
    pub entrypoint: Option<Seq<Seq<char>>>,
    pub command: Option<Seq<Seq<char>>>,
    pub depends_on: Option<Seq<Seq<char>>>,
    pub networks: Option<Seq<Seq<char>>>,
    pub restart: Option<Seq<char>>,
    pub mem_limit: Option<Seq<char>>,
    pub oom_score_adj: Option<int>,
    pub read_only: Option<bool>,
    pub extra_hosts: Option<Seq<Seq<char>>>,
}

/// The view of an optional list of strings.
pub open spec fn opt_views(o: Option<Vec<String>>) -> Option<Seq<Seq<char>>> {
    match o {
        Some(v) => Some(views(v@)),
        None => None,
    }
}

/// The view of an optional string.
pub open spec fn opt_str(o: Option<String>) -> Option<Seq<char>> {
    match o {
        Some(v) => Some(v@),
        None => None,
    }
}

impl View for ComposeService {
    type V = ServiceView;

    open spec fn view(&self) -> ServiceView {
        ServiceView {
            image: opt_str(self.image),
            container_name: opt_str(self.container_name),
            ports: match self.ports {
                Some(p) => Some(views(p.0@)),
                None => None,
            },
            environment: match self.environment {
                Some(e) => Some(pairs_view(e.0@)),
                None => None,
            },
            env_file: opt_views(self.env_file),
            volumes: opt_views(self.volumes),
            entrypoint: match self.entrypoint {
                Some(c) => Some(views(c.0@)),
                None => None,
            },
            command: match self.command {
                Some(c) => Some(views(c.0@)),
                None => None,
            },
            depends_on: opt_views(self.depends_on),
            networks: opt_views(self.networks),
            restart: opt_str(self.restart),
            mem_limit: opt_str(self.mem_limit),
            oom_score_adj: match self.oom_score_adj {
                Some(x) => Some(x as int),
                None => None,
            },
            read_only: self.read_only,
            extra_hosts: match self.extra_hosts {
                Some(h) => Some(views(h.0@)),
                None => None,
            },
        }
    }
}

/// A command line field.
pub open spec fn command_field(entries: Seq<(YamlNode, YamlNode)>, key: Seq<char>) -> Result<Option<Seq<Seq<char>>>, Seq<char>> {
    field_of(lookup(entries, key), |n: YamlNode| command_of(n), key, "invalid type, expected a string or a sequence of strings"@)
}

/// The `ports` field.
pub open spec fn ports_field(entries: Seq<(YamlNode, YamlNode)>) -> Result<Option<Seq<Seq<char>>>, Seq<char>> {
    field_of(
        lookup(entries, "ports"@),
        |n: YamlNode| ports_of(n),
        "ports"@,
        "invalid type, expected a sequence of strings, integers, or objects mapping ports"@,
    )
}

/// The `environment` field.
pub open spec fn environment_field(entries: Seq<(YamlNode, YamlNode)>) -> Result<Option<Seq<(Seq<char>, Seq<char>)>>, Seq<char>> {
    field_of(
        lookup(entries, "environment"@),
        |n: YamlNode| environment_of(n),
        "environment"@,
        "invalid type, expected a map or a sequence of strings"@,
    )
}

/// The `extra_hosts` field.
pub open spec fn extra_hosts_field(entries: Seq<(YamlNode, YamlNode)>) -> Result<Option<Seq<Seq<char>>>, Seq<char>> {
    field_of(
        lookup(entries, "extra_hosts"@),
        |n: YamlNode| extra_hosts_of(n),
        "extra_hosts"@,
        "invalid type, expected a sequence of strings or a map of hostnames to IPs"@,
    )
}

/// The `env_file` field: the names it lists.
pub open spec fn env_file_field(entries: Seq<(YamlNode, YamlNode)>) -> Result<Option<Seq<Seq<char>>>, Seq<char>> {
    field_of(lookup(entries, "env_file"@), |n: YamlNode| Some(env_file_names(n)), "env_file"@, Seq::empty())
}

/// The first of the leading fields of a service that does not read.
pub open spec fn service_error_head(e: Seq<(YamlNode, YamlNode)>) -> Option<Seq<char>> {
    if field_error(string_field(e, "image"@)) is Some {
        field_error(string_field(e, "image"@))
    } else if field_error(string_field(e, "container_name"@)) is Some {
        field_error(string_field(e, "container_name"@))
    } else if field_error(ports_field(e)) is Some {
        field_error(ports_field(e))
    } else if field_error(environment_field(e)) is Some {
        field_error(environment_field(e))
    } else if field_error(strings_field(e, "volumes"@)) is Some {
        field_error(strings_field(e, "volumes"@))
    } else if field_error(command_field(e, "entrypoint"@)) is Some {
        field_error(command_field(e, "entrypoint"@))
    } else {
        field_error(command_field(e, "command"@))
    }
}

/// The first of the trailing fields of a service that does not read.
pub open spec fn service_error_tail(e: Seq<(YamlNode, YamlNode)>) -> Option<Seq<char>> {
    if field_error(strings_field(e, "depends_on"@)) is Some {
        field_error(strings_field(e, "depends_on"@))
    } else if field_error(strings_field(e, "networks"@)) is Some {
        field_error(strings_field(e, "networks"@))
    } else if field_error(string_field(e, "restart"@)) is Some {
        field_error(string_field(e, "restart"@))
    } else if field_error(healthcheck_field(e)) is Some {
        field_error(healthcheck_field(e))
    } else if field_error(string_field(e, "mem_limit"@)) is Some {
        field_error(string_field(e, "mem_limit"@))
    } else if field_error(cpus_field(e)) is Some {
        field_error(cpus_field(e))
    } else if field_error(i32_field(e, "oom_score_adj"@)) is Some {
        field_error(i32_field(e, "oom_score_adj"@))
    } else if field_error(bool_field(e, "read_only"@)) is Some {
        field_error(bool_field(e, "read_only"@))
    } else {
        field_error(extra_hosts_field(e))
    }
}

/// The first field of a service, in declaration order, that does not read.
pub open spec fn service_error(e: Seq<(YamlNode, YamlNode)>) -> Option<Seq<char>> {
    if service_error_head(e) is Some {
        service_error_head(e)
    } else {
        service_error_tail(e)
    }
}

/// The service that the entries of a service mapping describe.
pub open spec fn service_value(e: Seq<(YamlNode, YamlNode)>) -> ServiceView {
    ServiceView {
        image: field_value(string_field(e, "image"@)),
        container_name: field_value(string_field(e, "container_name"@)),
        ports: field_value(ports_field(e)),
        environment: field_value(environment_field(e)),
        env_file: field_value(env_file_field(e)),
        volumes: field_value(strings_field(e, "volumes"@)),
        entrypoint: field_value(command_field(e, "entrypoint"@)),
        command: field_value(command_field(e, "command"@)),
        depends_on: field_value(strings_field(e, "depends_on"@)),
        networks: field_value(strings_field(e, "networks"@)),
        restart: field_value(string_field(e, "restart"@)),
        mem_limit: field_value(string_field(e, "mem_limit"@)),
        oom_score_adj: field_value(i32_field(e, "oom_score_adj"@)),
        read_only: field_value(bool_field(e, "read_only"@)),
        extra_hosts: field_value(extra_hosts_field(e)),
    }
}

/// What a service node reads as: a mapping whose fields all read, or the first
/// failure.
pub open spec fn service_of(n: YamlNode) -> Result<ServiceView, Seq<char>> {
    match n {
        YamlNode::Mapping(e, _) => match service_error(e@) {
            Some(m) => Err(m),
            None => Ok(service_value(e@)),
        },
        _ => Err("invalid type, expected struct ComposeService"@),
    }
}

/// A field whose node a decoder reads, prefixed with the key on failure.
fn prefixed(key: &str, m: String) -> (r: String)
    ensures
        r@ == key@ + ": "@ + m@,
{
    concat3(key, ": ", m.as_str())
}

/// A command line field as read.
fn command_field_exec(e: &Vec<(YamlNode, YamlNode)>, key: &str) -> (r: Result<Option<ComposeCommand>, String>)
    ensures
        match command_field(e@, key@) {
            Ok(Some(t)) => r matches Ok(Some(c)) && views(c.0@) == t,
            Ok(None) => r matches Ok(None),
            Err(m) => r matches Err(x) && x@ == m,
        },
{
    match lookup_exec(e, key) {
        None => Ok(None),
        Some(YamlNode::Null) => Ok(None),
        Some(n) => match ComposeCommand::deserialize(n) {
            Ok(p) => Ok(Some(p)),
            Err(m) => Err(prefixed(key, m)),
        },
    }
}

/// The `ports` field as read.
fn ports_field_exec(e: &Vec<(YamlNode, YamlNode)>) -> (r: Result<Option<ComposePorts>, String>)
    ensures
        match ports_field(e@) {
            Ok(Some(t)) => r matches Ok(Some(c)) && views(c.0@) == t,
            Ok(None) => r matches Ok(None),
            Err(m) => r matches Err(x) && x@ == m,
        },
{
    match lookup_exec(e, "ports") {
        None => Ok(None),
        Some(YamlNode::Null) => Ok(None),
        Some(n) => match ComposePorts::deserialize(n) {
            Ok(p) => Ok(Some(p)),
            Err(m) => Err(prefixed("ports", m)),
        },
    }
}

/// The `environment` field as read.
fn environment_field_exec(e: &Vec<(YamlNode, YamlNode)>) -> (r: Result<Option<ComposeEnvironment>, String>)
    ensures
        match environment_field(e@) {
            Ok(Some(t)) => r matches Ok(Some(c)) && pairs_view(c.0@) == t,
            Ok(None) => r matches Ok(None),
            Err(m) => r matches Err(x) && x@ == m,
        },
{
    match lookup_exec(e, "environment") {
        None => Ok(None),
        Some(YamlNode::Null) => Ok(None),
        Some(n) => match ComposeEnvironment::deserialize(n) {
            Ok(p) => Ok(Some(p)),
            Err(m) => Err(prefixed("environment", m)),
        },
    }
}

/// The `extra_hosts` field as read.
fn extra_hosts_field_exec(e: &Vec<(YamlNode, YamlNode)>) -> (r: Result<Option<ComposeExtraHosts>, String>)
    ensures
        match extra_hosts_field(e@) {
            Ok(Some(t)) => r matches Ok(Some(c)) && views(c.0@) == t,
            Ok(None) => r matches Ok(None),
            Err(m) => r matches Err(x) && x@ == m,
        },
{
    match lookup_exec(e, "extra_hosts") {
        None => Ok(None),
        Some(YamlNode::Null) => Ok(None),
        Some(n) => match ComposeExtraHosts::deserialize(n) {
            Ok(p) => Ok(Some(p)),
            Err(m) => Err(prefixed("extra_hosts", m)),
        },
    }
}

/// The `env_file` field as read.
fn env_file_field_exec(e: &Vec<(YamlNode, YamlNode)>) -> (r: Option<Vec<String>>)
    ensures
        env_file_field(e@) == Ok::<Option<Seq<Seq<char>>>, Seq<char>>(opt_views(r)),
{
    match lookup_exec(e, "env_file") {
        None => None,
        Some(YamlNode::Null) => None,
        Some(n) => Some(env_file_names_exec(n)),
    }
}

/// The leading fields of a service.
struct ServiceHead {
    image: Option<String>,
    container_name: Option<String>,
    ports: Option<ComposePorts>,
    environment: Option<ComposeEnvironment>,
    volumes: Option<Vec<String>>,
    entrypoint: Option<ComposeCommand>,
    command: Option<ComposeCommand>,
}

/// Reads the leading fields of a service.
fn service_head(e: &Vec<(YamlNode, YamlNode)>) -> (r: Result<ServiceHead, String>)
    ensures
        match service_error_head(e@) {
            Some(m) => r matches Err(x) && x@ == m,
            None => r matches Ok(h) && opt_str(h.image) == field_value(string_field(e@, "image"@))
                && opt_str(h.container_name) == field_value(string_field(e@, "container_name"@))
                && (match h.ports {
                Some(p) => Some(views(p.0@)),
                None => None,
            }) == field_value(ports_field(e@)) && (match h.environment {
                Some(p) => Some(pairs_view(p.0@)),
                None => None,
            }) == field_value(environment_field(e@)) && opt_views(h.volumes) == field_value(
                strings_field(e@, "volumes"@),
            ) && (match h.entrypoint {
                Some(p) => Some(views(p.0@)),
                None => None,
            }) == field_value(command_field(e@, "entrypoint"@)) && (match h.command {
                Some(p) => Some(views(p.0@)),
                None => None,
            }) == field_value(command_field(e@, "command"@)),
        },
{
    let image = string_field_exec(e, "image")?;
    let container_name = string_field_exec(e, "container_name")?;
    let ports = ports_field_exec(e)?;
    let environment = environment_field_exec(e)?;
    let volumes = strings_field_exec(e, "volumes")?;
    let entrypoint = command_field_exec(e, "entrypoint")?;
    let command = command_field_exec(e, "command")?;
    Ok(ServiceHead { image, container_name, ports, environment, volumes, entrypoint, command })
}

/// The trailing fields of a service.
struct ServiceTail {
    depends_on: Option<Vec<String>>,
    networks: Option<Vec<String>>,
    restart: Option<String>,
    mem_limit: Option<String>,
    oom_score_adj: Option<i32>,
    read_only: Option<bool>,
    extra_hosts: Option<ComposeExtraHosts>,
}

/// Reads the trailing fields of a service.
fn service_tail(e: &Vec<(YamlNode, YamlNode)>) -> (r: Result<ServiceTail, String>)
    ensures
        match service_error_tail(e@) {
            Some(m) => r matches Err(x) && x@ == m,
            None => r matches Ok(t) && opt_views(t.depends_on) == field_value(strings_field(e@, "depends_on"@))
                && opt_views(t.networks) == field_value(strings_field(e@, "networks"@)) && opt_str(
                t.restart,
            ) == field_value(string_field(e@, "restart"@)) && opt_str(t.mem_limit) == field_value(
                string_field(e@, "mem_limit"@),
            ) && (match t.oom_score_adj {
                Some(x) => Some(x as int),
                None => None,
            }) == field_value(i32_field(e@, "oom_score_adj"@)) && t.read_only == field_value(
                bool_field(e@, "read_only"@),
            ) && (match t.extra_hosts {
                Some(p) => Some(views(p.0@)),
                None => None,
            }) == field_value(extra_hosts_field(e@)),
        },
{
    let depends_on = strings_field_exec(e, "depends_on")?;
    let networks = strings_field_exec(e, "networks")?;
    let restart = string_field_exec(e, "restart")?;
    healthcheck_field_exec(e)?;
    let mem_limit = string_field_exec(e, "mem_limit")?;
    cpus_field_exec(e)?;
    let oom_score_adj = i32_field_exec(e, "oom_score_adj")?;
    let read_only = bool_field_exec(e, "read_only")?;
    let extra_hosts = extra_hosts_field_exec(e)?;
    Ok(ServiceTail { depends_on, networks, restart, mem_limit, oom_score_adj, read_only, extra_hosts })
}

impl ComposeService {
    /// Reads a service: a mapping whose known fields each read (absent and null
    /// fields are `None`; unknown fields are ignored), or the first failure.
    pub fn deserialize(node: &YamlNode) -> (r: Result<ComposeService, String>)
        ensures
            match service_of(*node) {
                Ok(v) => r matches Ok(s) && s@ == v,
                Err(m) => r matches Err(e) && e@ == m,
            },
    {
        let e = match node {
            YamlNode::Mapping(e, _) => e,
            _ => {
                return Err(owned("invalid type, expected struct ComposeService"));
            },
        };
        let h = service_head(e)?;
        let env_file = env_file_field_exec(e);
        let t = service_tail(e)?;
        let svc = ComposeService {
            image: h.image,
            container_name: h.container_name,
            ports: h.ports,
            environment: h.environment,
            env_file,
            volumes: h.volumes,
            entrypoint: h.entrypoint,
            command: h.command,
            depends_on: t.depends_on,
            networks: t.networks,
            restart: t.restart,
            mem_limit: t.mem_limit,
            oom_score_adj: t.oom_score_adj,
            read_only: t.read_only,
            extra_hosts: t.extra_hosts,
        };
        assert(svc@ == service_value(e@));
        Ok(svc)
    }
}

/// A network declared by a compose file.
pub struct ComposeNetwork {
    pub driver: Option<String>,
}

/// A compose file: its version, its services by name, and the networks and
/// volumes it declares.
pub struct ComposeFile {
    pub version: Option<String>,
    pub services: Vec<(String, ComposeService)>,
    pub networks: Option<Vec<(String, ComposeNetwork)>>,
    pub volumes: Option<Vec<String>>,
}

/// What a compose file is: its parts as text.
pub struct ComposeFileView {
    pub version: Option<Seq<char>>,
    pub services: Seq<(Seq<char>, ServiceView)>,
    pub networks: Option<Seq<(Seq<char>, Option<Seq<char>>)>>,
    pub volumes: Option<Seq<Seq<char>>>,
}

/// The views of named services.
pub open spec fn services_view(s: Seq<(String, ComposeService)>) -> Seq<(Seq<char>, ServiceView)> {
    s.map_values(|p: (String, ComposeService)| (p.0@, p.1@))
}

/// The views of named networks.
pub open spec fn networks_view(s: Seq<(String, ComposeNetwork)>) -> Seq<(Seq<char>, Option<Seq<char>>)> {
    s.map_values(|p: (String, ComposeNetwork)| (p.0@, opt_str(p.1.driver)))
}

impl View for ComposeFile {
    type V = ComposeFileView;

    open spec fn view(&self) -> ComposeFileView {
        ComposeFileView {
            version: opt_str(self.version),
            services: services_view(self.services@),
            networks: match self.networks {
                Some(n) => Some(networks_view(n@)),
                None => None,
            },
            volumes: opt_views(self.volumes),
        }
    }
}

/// The services of a `services` mapping, in order, or the first failure.
pub open spec fn named_services(e: Seq<(YamlNode, YamlNode)>) -> Result<Seq<(Seq<char>, ServiceView)>, Seq<char>>
    decreases e.len(),
{
    if e.len() == 0 {
        Ok(Seq::empty())
    } else {
        match named_services(e.drop_last()) {
            Err(m) => Err(m),
            Ok(a) => match scalar_text(e.last().0) {
                None => Err("services: invalid type, expected a string key"@),
                Some(k) => match service_of(e.last().1) {
                    Err(m) => Err("services."@ + k + ": "@ + m),
                    Ok(v) => Ok(a.push((k, v))),
                },
            },
        }
    }
}

/// The driver of a network node.
pub open spec fn network_of(n: YamlNode) -> Result<Option<Seq<char>>, Seq<char>> {
    match n {
        YamlNode::Mapping(e, _) => string_field(e@, "driver"@),
        _ => Err("invalid type, expected struct ComposeNetwork"@),
    }
}

/// The networks of a `networks` mapping, in order, or the first failure.
pub open spec fn named_networks(e: Seq<(YamlNode, YamlNode)>) -> Result<Seq<(Seq<char>, Option<Seq<char>>)>, Seq<char>>
    decreases e.len(),
{
    if e.len() == 0 {
        Ok(Seq::empty())
    } else {
        match named_networks(e.drop_last()) {
            Err(m) => Err(m),
            Ok(a) => match scalar_text(e.last().0) {
                None => Err("networks: invalid type, expected a string key"@),
                Some(k) => match network_of(e.last().1) {
                    Err(m) => Err("networks."@ + k + ": "@ + m),
                    Ok(d) => Ok(a.push((k, d))),
                },
            },
        }
    }
}

/// The names of a `volumes` mapping, or `None` when a name is not a scalar.
pub open spec fn volume_names(e: Seq<(YamlNode, YamlNode)>) -> Option<Seq<Seq<char>>>
    decreases e.len(),
{
    if e.len() == 0 {
        Some(Seq::empty())
    } else {
        match (volume_names(e.drop_last()), scalar_text(e.last().0)) {
            (Some(a), Some(k)) => Some(a.push(k)),
            _ => None,
        }
    }
}

/// What a compose file node reads as, or the first failure: `version`,
/// `services` (required), `networks`, `volumes`.
pub open spec fn compose_file_of(n: YamlNode) -> Result<ComposeFileView, Seq<char>> {
    match n {
        YamlNode::Mapping(e, _) => {
            let version = string_field(e@, "version"@);
            let services = match lookup(e@, "services"@) {
                None => Err("missing field `services`"@),
                Some(YamlNode::Mapping(s, _)) => named_services(s@),
                Some(_) => Err("services: invalid type, expected a map"@),
            };
            let networks = match lookup(e@, "networks"@) {
                None => Ok(None),
                Some(YamlNode::Null) => Ok(None),
                Some(YamlNode::Mapping(s, _)) => match named_networks(s@) {
                    Ok(x) => Ok(Some(x)),
                    Err(m) => Err(m),
                },
                Some(_) => Err("networks: invalid type, expected a map"@),
            };
            let volumes = match lookup(e@, "volumes"@) {
                None => Ok(None),
                Some(YamlNode::Null) => Ok(None),
                Some(YamlNode::Mapping(s, _)) => match volume_names(s@) {
                    Some(x) => Ok(Some(x)),
                    None => Err("volumes: invalid type, expected a string key"@),
                },
                Some(_) => Err("volumes: invalid type, expected a map"@),
            };
            match (version, services, networks, volumes) {
                (Err(m), _, _, _) => Err(m),
                (_, Err(m), _, _) => Err(m),
                (_, _, Err(m), _) => Err(m),
                (_, _, _, Err(m)) => Err(m),
                (Ok(v), Ok(s), Ok(nw), Ok(vo)) => Ok(
                    ComposeFileView { version: v, services: s, networks: nw, volumes: vo },
                ),
            }
        },
        _ => Err("invalid type, expected struct ComposeFile"@),
    }
}

/// Reads the services of a `services` mapping.
fn named_services_exec(e: &Vec<(YamlNode, YamlNode)>) -> (r: Result<Vec<(String, ComposeService)>, String>)
    ensures
        match named_services(e@) {
            Ok(v) => r matches Ok(x) && services_view(x@) == v,
            Err(m) => r matches Err(x) && x@ == m,
        },
{
    let mut out: Vec<(String, ComposeService)> = Vec::new();
    let mut i: usize = 0;
    assert(services_view(out@) =~= Seq::<(Seq<char>, ServiceView)>::empty());
    assert(e@.take(0) =~= Seq::<(YamlNode, YamlNode)>::empty());
    while i < e.len()
        invariant
            i <= e.len(),
            named_services(e@.take(i as int)) == Ok::<Seq<(Seq<char>, ServiceView)>, Seq<char>>(services_view(out@)),
        decreases e.len() - i,
    {
        assert(e@.take(i + 1).drop_last() =~= e@.take(i as int));
        assert(e@.take(i + 1).last() == e@[i as int]);
        let k = match scalar_text_exec(&e[i].0) {
            Some(k) => k,
            None => {
                proof {
                    lemma_named_services_err_extends(e@, i as int + 1);
                }
                return Err(owned("services: invalid type, expected a string key"));
            },
        };
        match ComposeService::deserialize(&e[i].1) {
            Ok(svc) => {
                let ghost prev = services_view(out@);
                let ghost sv = svc@;
                out.push((k, svc));
                assert(services_view(out@) =~= prev.push((k@, sv)));
            },
            Err(m) => {
                proof {
                    lemma_named_services_err_extends(e@, i as int + 1);
                }
                let a = concat3("services.", k.as_str(), ": ");
                return Err(concat(a.as_str(), m.as_str()));
            },
        }
        i += 1;
    }
    assert(e@.take(e.len() as int) =~= e@);
    Ok(out)
}

/// Once a prefix fails, the whole mapping fails with the same message.
proof fn lemma_named_services_err_extends(e: Seq<(YamlNode, YamlNode)>, i: int)
    requires
        0 <= i <= e.len(),
        named_services(e.take(i)) is Err,
    ensures
        named_services(e) == named_services(e.take(i)),
    decreases e.len() - i,
{
    if i < e.len() {
        assert(e.take(i + 1).drop_last() =~= e.take(i));
        lemma_named_services_err_extends(e, i + 1);
    } else {
        assert(e.take(i) =~= e);
    }
}

/// Once a prefix fails, the whole mapping fails with the same message.
proof fn lemma_named_networks_err_extends(e: Seq<(YamlNode, YamlNode)>, i: int)
    requires
        0 <= i <= e.len(),
        named_networks(e.take(i)) is Err,
    ensures
        named_networks(e) == named_networks(e.take(i)),
    decreases e.len() - i,
{
    if i < e.len() {
        assert(e.take(i + 1).drop_last() =~= e.take(i));
        lemma_named_networks_err_extends(e, i + 1);
    } else {
        assert(e.take(i) =~= e);
    }
}

/// Once a prefix holds a non-scalar name, so does every longer prefix.
proof fn lemma_volume_names_none_extends(e: Seq<(YamlNode, YamlNode)>, i: int)
    requires
        0 <= i <= e.len(),
        volume_names(e.take(i)) is None,
    ensures
        volume_names(e) is None,
    decreases e.len() - i,
{
    if i < e.len() {
        assert(e.take(i + 1).drop_last() =~= e.take(i));
        lemma_volume_names_none_extends(e, i + 1);
    } else {
        assert(e.take(i) =~= e);
    }
}

/// Reads the networks of a `networks` mapping.
fn named_networks_exec(e: &Vec<(YamlNode, YamlNode)>) -> (r: Result<Vec<(String, ComposeNetwork)>, String>)
    ensures
        match named_networks(e@) {
            Ok(v) => r matches Ok(x) && networks_view(x@) == v,
            Err(m) => r matches Err(x) && x@ == m,
        },
{
    let mut out: Vec<(String, ComposeNetwork)> = Vec::new();
    let mut i: usize = 0;
    assert(networks_view(out@) =~= Seq::<(Seq<char>, Option<Seq<char>>)>::empty());
    assert(e@.take(0) =~= Seq::<(YamlNode, YamlNode)>::empty());
    while i < e.len()
        invariant
            i <= e.len(),
            named_networks(e@.take(i as int)) == Ok::<Seq<(Seq<char>, Option<Seq<char>>)>, Seq<char>>(
                networks_view(out@),
            ),
        decreases e.len() - i,
    {
        assert(e@.take(i + 1).drop_last() =~= e@.take(i as int));
        assert(e@.take(i + 1).last() == e@[i as int]);
        let k = match scalar_text_exec(&e[i].0) {
            Some(k) => k,
            None => {
                proof {
                    lemma_named_networks_err_extends(e@, i as int + 1);
                }
                return Err(owned("networks: invalid type, expected a string key"));
            },
        };
        let driver = match &e[i].1 {
            YamlNode::Mapping(fields, _) => string_field_exec(fields, "driver"),
            _ => Err(owned("invalid type, expected struct ComposeNetwork")),
        };
        match driver {
            Ok(d) => {
                let ghost prev = networks_view(out@);
                let ghost dv = opt_str(d);
                out.push((k, ComposeNetwork { driver: d }));
                assert(networks_view(out@) =~= prev.push((k@, dv)));
            },
            Err(m) => {
                proof {
                    lemma_named_networks_err_extends(e@, i as int + 1);
                }
                let a = concat3("networks.", k.as_str(), ": ");
                return Err(concat(a.as_str(), m.as_str()));
            },
        }
        i += 1;
    }
    assert(e@.take(e.len() as int) =~= e@);
    Ok(out)
}

/// Reads the names of a `volumes` mapping.
fn volume_names_exec(e: &Vec<(YamlNode, YamlNode)>) -> (r: Option<Vec<String>>)
    ensures
        match volume_names(e@) {
            Some(v) => r matches Some(x) && views(x@) == v,
            None => r is None,
        },
{
    let mut out: Vec<String> = Vec::new();
    let mut i: usize = 0;
    while i < e.len()
        invariant
            i <= e.len(),
            volume_names(e@.take(i as int)) == Some(views(out@)),
        decreases e.len() - i,
    {
        assert(e@.take(i + 1).drop_last() =~= e@.take(i as int));
        assert(e@.take(i + 1).last() == e@[i as int]);
        let ghost prev = views(out@);
        match scalar_text_exec(&e[i].0) {
            Some(k) => {
                out.push(k);
                assert(views(out@) =~= prev.push(k@));
            },
            None => {
                proof {
                    lemma_volume_names_none_extends(e@, i as int + 1);
                }
                return None;
            },
        }
        i += 1;
    }
    assert(e@.take(e.len() as int) =~= e@);
    Some(out)
}

impl ComposeFile {
    /// Reads a compose file from its YAML tree: `services` is required, the
    /// other parts are optional; the first part that does not read is the failure.
    pub fn deserialize(node: &YamlNode) -> (r: Result<ComposeFile, String>)
        ensures
            match compose_file_of(*node) {
                Ok(v) => r matches Ok(f) && f@ == v,
                Err(m) => r matches Err(x) && x@ == m,
            },
    {
        let e = match node {
            YamlNode::Mapping(e, _) => e,
            _ => {
                return Err(owned("invalid type, expected struct ComposeFile"));
            },
        };
        let version = string_field_exec(e, "version")?;
        let services = match lookup_exec(e, "services") {
            None => {
                return Err(owned("missing field `services`"));
            },
            Some(YamlNode::Mapping(s, _)) => named_services_exec(s)?,
            Some(_) => {
                return Err(owned("services: invalid type, expected a map"));
            },
        };
        let networks = match lookup_exec(e, "networks") {
            None => None,
            Some(YamlNode::Null) => None,
            Some(YamlNode::Mapping(s, _)) => Some(named_networks_exec(s)?),
            Some(_) => {
                return Err(owned("networks: invalid type, expected a map"));
            },
        };
        let volumes = match lookup_exec(e, "volumes") {
            None => None,
            Some(YamlNode::Null) => None,
            Some(YamlNode::Mapping(s, _)) => match volume_names_exec(s) {
                Some(v) => Some(v),
                None => {
                    return Err(owned("volumes: invalid type, expected a string key"));
                },
            },
            Some(_) => {
                return Err(owned("volumes: invalid type, expected a map"));
            },
        };
        Ok(ComposeFile { version, services, networks, volumes })
    }
}

} // verus!
