//! The order in which a compose file's services are brought up: a depth-first
//! walk over the services sorted by name, each service after its dependencies.
use vstd::prelude::*;
use crate::compose::ComposeService;
use crate::text::{chars_of, views};

verus! {

/// Lexicographic order on text by code point, as `String` compares.
pub open spec fn lex_lt(a: Seq<char>, b: Seq<char>) -> bool
    decreases a.len(),
{
    if b.len() == 0 {
        false
    } else if a.len() == 0 {
        true
    } else if a[0] != b[0] {
        a[0] < b[0]
    } else {
        lex_lt(a.drop_first(), b.drop_first())
    }
}

/// No text comes before itself.
pub proof fn lemma_lex_lt_irreflexive(a: Seq<char>)
    ensures
        !lex_lt(a, a),
    decreases a.len(),
{
    if a.len() > 0 {
        lemma_lex_lt_irreflexive(a.drop_first());
    }
}

/// The order is transitive.
pub proof fn lemma_lex_lt_transitive(a: Seq<char>, b: Seq<char>, c: Seq<char>)
    requires
        lex_lt(a, b),
        lex_lt(b, c),
    ensures
        lex_lt(a, c),
    decreases a.len(),
{
    if a.len() > 0 && b.len() > 0 && c.len() > 0 && a[0] == b[0] && b[0] == c[0] {
        lemma_lex_lt_transitive(a.drop_first(), b.drop_first(), c.drop_first());
    }
}

/// Two different texts are ordered one way or the other.
pub proof fn lemma_lex_lt_total(a: Seq<char>, b: Seq<char>)
    requires
        a != b,
    ensures
        lex_lt(a, b) || lex_lt(b, a),
    decreases a.len(),
{
    if a.len() > 0 && b.len() > 0 {
        if a[0] == b[0] {
            if a.drop_first() == b.drop_first() {
                assert(a =~= seq![a[0]] + a.drop_first());
                assert(b =~= seq![b[0]] + b.drop_first());
            }
            lemma_lex_lt_total(a.drop_first(), b.drop_first());
        }
    } else if a.len() == 0 && b.len() == 0 {
        assert(a =~= b);
    }
}

/// The order is asymmetric.
pub proof fn lemma_lex_lt_asymmetric(a: Seq<char>, b: Seq<char>)
    requires
        lex_lt(a, b),
    ensures
        !lex_lt(b, a),
{
    if lex_lt(b, a) {
        lemma_lex_lt_transitive(a, b, a);
        lemma_lex_lt_irreflexive(a);
    }
}

/// Whether `a` comes before `b`.
pub fn lex_lt_exec(a: &String, b: &String) -> (r: bool)
    ensures
        r == lex_lt(a@, b@),
{
    let va = chars_of(a.as_str());
    let vb = chars_of(b.as_str());
    let mut i: usize = 0;
    assert(va@.subrange(0, va@.len() as int) =~= va@);
    assert(vb@.subrange(0, vb@.len() as int) =~= vb@);
    while i < va.len() && i < vb.len() && va[i] == vb[i]
        invariant
            i <= va.len(),
            i <= vb.len(),
            va@.subrange(0, i as int) == vb@.subrange(0, i as int),
            lex_lt(a@, b@) == lex_lt(va@.subrange(i as int, va@.len() as int), vb@.subrange(i as int, vb@.len() as int)),
            va@ == a@,
            vb@ == b@,
        decreases va.len() - i,
    {
        let ghost sa = va@.subrange(i as int, va@.len() as int);
        let ghost sb = vb@.subrange(i as int, vb@.len() as int);
        assert(sa.drop_first() =~= va@.subrange(i + 1, va@.len() as int));
        assert(sb.drop_first() =~= vb@.subrange(i + 1, vb@.len() as int));
        assert(va@.subrange(0, i + 1) =~= va@.subrange(0, i as int).push(va@[i as int]));
        assert(vb@.subrange(0, i + 1) =~= vb@.subrange(0, i as int).push(vb@[i as int]));
        i += 1;
    }
    let ghost sa = va@.subrange(i as int, va@.len() as int);
    let ghost sb = vb@.subrange(i as int, vb@.len() as int);
    if i == vb.len() {
        false
    } else if i == va.len() {
        true
    } else {
        assert(sa[0] == va@[i as int] && sb[0] == vb@[i as int]);
        va[i] < vb[i]
    }
}

/// Whether `s` is in strictly increasing order.
pub open spec fn strictly_sorted(s: Seq<Seq<char>>) -> bool {
    forall|i: int, j: int| 0 <= i < j < s.len() ==> lex_lt(#[trigger] s[i], #[trigger] s[j])
}

/// Whether two lists hold the same texts.
pub open spec fn same_elements(a: Seq<Seq<char>>, b: Seq<Seq<char>>) -> bool {
    forall|x: Seq<char>| #[trigger] a.contains(x) <==> #[trigger] b.contains(x)
}

/// The texts of `names` once each, in increasing order.
pub fn sorted_unique(names: &Vec<String>) -> (r: Vec<String>)
    ensures
        strictly_sorted(views(r@)),
        same_elements(views(r@), views(names@)),
{
    let mut keys: Vec<String> = Vec::new();
    let mut n: usize = 0;
    while n < names.len()
        invariant
            n <= names.len(),
            strictly_sorted(views(keys@)),
            same_elements(views(keys@), views(names@).take(n as int)),
        decreases names.len() - n,
    {
        let x = &names[n];
        let ghost before = views(keys@);
        let ghost pre = views(names@).take(n as int);
        let ghost post = views(names@).take(n + 1);
        let mut p: usize = 0;
        while p < keys.len() && lex_lt_exec(&keys[p], x)
            invariant
                p <= keys.len(),
                views(keys@) == before,
                forall|i: int| 0 <= i < p ==> lex_lt(#[trigger] before[i], x@),
            decreases keys.len() - p,
        {
            p += 1;
        }
        assert(post =~= pre.push(x@));
        if p < keys.len() && keys[p] == *x {
            assert(before[p as int] == x@);
            assert forall|y: Seq<char>| #[trigger] before.contains(y) <==> post.contains(y) by {
                if y == x@ {
                    assert(before.contains(before[p as int]));
                }
                if pre.contains(y) {
                    let k = choose|k: int| 0 <= k < n && pre[k] == y;
                    assert(post[k] == y);
                }
                if post.contains(y) && y != x@ {
                    let k = choose|k: int| 0 <= k < n + 1 && post[k] == y;
                    assert(k < n);
                    assert(pre[k] == y);
                }
            }
        } else {
            if p < keys.len() {
                assert(before[p as int] != x@);
                assert(!lex_lt(before[p as int], x@));
                proof {
                    lemma_lex_lt_total(before[p as int], x@);
                }
            }
            keys.insert(p, x.clone());
            let ghost after = views(keys@);
            assert(after =~= before.insert(p as int, x@));
            assert forall|i: int, j: int| 0 <= i < j < after.len() implies lex_lt(#[trigger] after[i], #[trigger] after[j]) by {
                if j < p {
                    assert(after[i] == before[i] && after[j] == before[j]);
                } else if j == p {
                    assert(after[i] == before[i]);
                } else if i == p {
                    assert(after[j] == before[j - 1]);
                    if j - 1 > p {
                        assert(lex_lt(before[p as int], before[j - 1]));
                        lemma_lex_lt_transitive(x@, before[p as int], before[j - 1]);
                    }
                } else if i < p {
                    assert(after[i] == before[i] && after[j] == before[j - 1]);
                    if j - 1 > p {
                        assert(lex_lt(before[p as int], before[j - 1]));
                        lemma_lex_lt_transitive(x@, before[p as int], before[j - 1]);
                        lemma_lex_lt_transitive(before[i], x@, before[j - 1]);
                    } else {
                        lemma_lex_lt_transitive(before[i], x@, before[j - 1]);
                    }
                } else {
                    assert(after[i] == before[i - 1] && after[j] == before[j - 1]);
                }
            }
            assert forall|y: Seq<char>| #[trigger] after.contains(y) <==> post.contains(y) by {
                if after.contains(y) {
                    let k = choose|k: int| 0 <= k < after.len() && after[k] == y;
                    if k < p {
                        assert(before[k] == y);
                        assert(before.contains(y));
                    } else if k > p {
                        assert(before[k - 1] == y);
                        assert(before.contains(y));
                    }
                    if y != x@ {
                        assert(pre.contains(y));
                        let m = choose|m: int| 0 <= m < n && pre[m] == y;
                        assert(post[m] == y);
                    } else {
                        assert(post[n as int] == y);
                    }
                }
                if post.contains(y) {
                    let m = choose|m: int| 0 <= m < n + 1 && post[m] == y;
                    if m < n {
                        assert(pre[m] == y);
                        assert(pre.contains(y));
                        assert(before.contains(y));
                        let k = choose|k: int| 0 <= k < before.len() && before[k] == y;
                        if k < p {
                            assert(after[k] == y);
                        } else {
                            assert(after[k + 1] == y);
                        }
                    } else {
                        assert(after[p as int] == y);
                    }
                }
            }
        }
        n += 1;
    }
    assert(views(names@).take(names.len() as int) =~= views(names@));
    keys
}

/// The dependency graph of a compose file: each service's name with the
/// services it depends on (none when it lists none).
pub open spec fn dependency_graph(services: Seq<(String, ComposeService)>) -> Seq<(Seq<char>, Seq<Seq<char>>)> {
    services.map_values(
        |p: (String, ComposeService)|
            (
                p.0@,
                match p.1.depends_on {
                    Some(d) => views(d@),
                    None => Seq::empty(),
                },
            ),
    )
}

/// The names of the services of a graph.
pub open spec fn service_names(g: Seq<(Seq<char>, Seq<Seq<char>>)>) -> Seq<Seq<char>> {
    g.map_values(|e: (Seq<char>, Seq<Seq<char>>)| e.0)
}

/// Whether the graph has a service named `name`.
pub open spec fn has_service(g: Seq<(Seq<char>, Seq<Seq<char>>)>, name: Seq<char>) -> bool {
    exists|i: int| 0 <= i < g.len() && #[trigger] g[i].0 == name
}

/// The dependencies of the first service from `i` on named `name`.
pub open spec fn deps_from(g: Seq<(Seq<char>, Seq<Seq<char>>)>, name: Seq<char>, i: int) -> Seq<Seq<char>>
    decreases g.len() - i,
{
    if i < 0 || i >= g.len() {
        Seq::empty()
    } else if g[i].0 == name {
        g[i].1
    } else {
        deps_from(g, name, i + 1)
    }
}

/// The dependencies of the service named `name`.
pub open spec fn deps_of(g: Seq<(Seq<char>, Seq<Seq<char>>)>, name: Seq<char>) -> Seq<Seq<char>> {
    deps_from(g, name, 0)
}

/// The walk from `name`: nothing when it was already entered (or the walk is
/// out of depth); otherwise it is entered, its existing dependencies are walked
/// in the order listed, and it is emitted. The state is the entered names and
/// the emitted names.
pub open spec fn dfs_visit(
    g: Seq<(Seq<char>, Seq<Seq<char>>)>,
    depth: nat,
    name: Seq<char>,
    st: (Seq<Seq<char>>, Seq<Seq<char>>),
) -> (Seq<Seq<char>>, Seq<Seq<char>>)
    decreases depth, 0int,
{
    if depth == 0 || st.0.contains(name) {
        st
    } else {
        let after = dfs_deps(g, (depth - 1) as nat, deps_of(g, name), 0, (st.0.push(name), st.1));
        (after.0, after.1.push(name))
    }
}

/// The walks from the dependencies `deps` from index `i` on that name services.
pub open spec fn dfs_deps(
    g: Seq<(Seq<char>, Seq<Seq<char>>)>,
    depth: nat,
    deps: Seq<Seq<char>>,
    i: int,
    st: (Seq<Seq<char>>, Seq<Seq<char>>),
) -> (Seq<Seq<char>>, Seq<Seq<char>>)
    decreases depth, deps.len() - i + 1,
{
    if i < 0 || i >= deps.len() {
        st
    } else if has_service(g, deps[i]) {
        dfs_deps(g, depth, deps, i + 1, dfs_visit(g, depth, deps[i], st))
    } else {
        dfs_deps(g, depth, deps, i + 1, st)
    }
}

/// The walks from `keys` from index `j` on, in order.
pub open spec fn dfs_keys(
    g: Seq<(Seq<char>, Seq<Seq<char>>)>,
    keys: Seq<Seq<char>>,
    j: int,
    st: (Seq<Seq<char>>, Seq<Seq<char>>),
) -> (Seq<Seq<char>>, Seq<Seq<char>>)
    decreases keys.len() - j,
{
    if j < 0 || j >= keys.len() {
        st
    } else {
        dfs_keys(g, keys, j + 1, dfs_visit(g, (g.len() + 1) as nat, keys[j], st))
    }
}

/// The order of the services: the names emitted by walking from each of
/// `keys` in turn.
pub open spec fn service_order(g: Seq<(Seq<char>, Seq<Seq<char>>)>, keys: Seq<Seq<char>>) -> Seq<Seq<char>> {
    dfs_keys(g, keys, 0, (Seq::empty(), Seq::empty())).1
}

/// The number of services whose name was not entered.
pub open spec fn unvisited(g: Seq<(Seq<char>, Seq<Seq<char>>)>, visited: Seq<Seq<char>>) -> nat
    decreases g.len(),
{
    if g.len() == 0 {
        0
    } else {
        unvisited(g.drop_last(), visited) + if visited.contains(g.last().0) {
            0nat
        } else {
            1nat
        }
    }
}

/// Whether every name of `a` is in `b`.
pub open spec fn within(a: Seq<Seq<char>>, b: Seq<Seq<char>>) -> bool {
    forall|x: Seq<char>| #[trigger] a.contains(x) ==> b.contains(x)
}

/// Entering more names leaves fewer unvisited.
proof fn lemma_unvisited_mono(g: Seq<(Seq<char>, Seq<Seq<char>>)>, a: Seq<Seq<char>>, b: Seq<Seq<char>>)
    requires
        within(a, b),
    ensures
        unvisited(g, b) <= unvisited(g, a),
    decreases g.len(),
{
    if g.len() > 0 {
        lemma_unvisited_mono(g.drop_last(), a, b);
    }
}

/// At most every service is unvisited.
proof fn lemma_unvisited_bound(g: Seq<(Seq<char>, Seq<Seq<char>>)>, a: Seq<Seq<char>>)
    ensures
        unvisited(g, a) <= g.len(),
    decreases g.len(),
{
    if g.len() > 0 {
        lemma_unvisited_bound(g.drop_last(), a);
    }
}

/// Entering a service's name leaves one fewer unvisited, at least.
proof fn lemma_unvisited_enter(g: Seq<(Seq<char>, Seq<Seq<char>>)>, v: Seq<Seq<char>>, name: Seq<char>)
    requires
        has_service(g, name),
        !v.contains(name),
    ensures
        unvisited(g, v.push(name)) < unvisited(g, v),
    decreases g.len(),
{
    assert(within(v, v.push(name))) by {
        assert forall|x: Seq<char>| #[trigger] v.contains(x) implies v.push(name).contains(x) by {
            let k = choose|k: int| 0 <= k < v.len() && v[k] == x;
            assert(v.push(name)[k] == x);
        }
    }
    let i = choose|i: int| 0 <= i < g.len() && #[trigger] g[i].0 == name;
    if i == g.len() - 1 {
        lemma_unvisited_mono(g.drop_last(), v, v.push(name));
        assert(v.push(name)[v.len() as int] == name);
    } else {
        assert(g.drop_last()[i].0 == name);
        lemma_unvisited_enter(g.drop_last(), v, name);
        if !v.push(name).contains(g.last().0) {
            assert(!v.contains(g.last().0)) by {
                if v.contains(g.last().0) {
                    let k = choose|k: int| 0 <= k < v.len() && v[k] == g.last().0;
                    assert(v.push(name)[k] == g.last().0);
                }
            }
        }
    }
}

/// Whether `v` holds `s`.
fn contains_text(v: &Vec<String>, s: &String) -> (b: bool)
    ensures
        b == views(v@).contains(s@),
{
    let mut i: usize = 0;
    while i < v.len()
        invariant
            i <= v.len(),
            forall|k: int| 0 <= k < i ==> views(v@)[k] != s@,
        decreases v.len() - i,
    {
        if v[i] == *s {
            assert(views(v@)[i as int] == s@);
            return true;
        }
        i += 1;
    }
    false
}

/// The index of the first service named `name`.
fn find_service(services: &Vec<(String, ComposeService)>, name: &String) -> (r: Option<usize>)
    ensures
        r is Some <==> has_service(dependency_graph(services@), name@),
        r matches Some(i) ==> i < services.len() && deps_of(dependency_graph(services@), name@)
            == dependency_graph(services@)[i as int].1,
{
    let ghost g = dependency_graph(services@);
    let mut i: usize = 0;
    while i < services.len()
        invariant
            i <= services.len(),
            g == dependency_graph(services@),
            forall|k: int| 0 <= k < i ==> g[k].0 != name@,
            deps_of(g, name@) == deps_from(g, name@, i as int),
        decreases services.len() - i,
    {
        assert(g[i as int].0 == services@[i as int].0@);
        if services[i].0 == *name {
            return Some(i);
        }
        i += 1;
    }
    assert(!has_service(g, name@));
    None
}

/// Pushes a copy of `s`.
fn push_copy(v: &mut Vec<String>, s: &String)
    ensures
        views(final(v)@) == views(old(v)@).push(s@),
{
    v.push(s.clone());
    assert(views(v@) =~= views(old(v)@).push(s@));
}

/// Walks from `name`, entering it in `visited` and emitting names in `ordered`.
fn visit(
    services: &Vec<(String, ComposeService)>,
    name: &String,
    visited: &mut Vec<String>,
    ordered: &mut Vec<String>,
    Ghost(depth): Ghost<nat>,
)
    requires
        has_service(dependency_graph(services@), name@),
        unvisited(dependency_graph(services@), views(old(visited)@)) < depth,
    ensures
        (views(final(visited)@), views(final(ordered)@)) == dfs_visit(
            dependency_graph(services@),
            depth,
            name@,
            (views(old(visited)@), views(old(ordered)@)),
        ),
        within(views(old(visited)@), views(final(visited)@)),
    decreases depth,
{
    let ghost g = dependency_graph(services@);
    if contains_text(visited, name) {
        return;
    }
    let ghost v0 = views(visited@);
    push_copy(visited, name);
    proof {
        lemma_unvisited_enter(g, v0, name@);
        assert forall|x: Seq<char>| #[trigger] v0.contains(x) implies views(visited@).contains(x) by {
            let k = choose|k: int| 0 <= k < v0.len() && v0[k] == x;
            assert(views(visited@)[k] == x);
        }
    }
    let idx = find_service(services, name).unwrap();
    assert(g[idx as int].1 == match services@[idx as int].1.depends_on {
        Some(d) => views(d@),
        None => Seq::<Seq<char>>::empty(),
    });
    let ghost deps = deps_of(g, name@);
    let ghost st1 = (views(visited@), views(ordered@));
    match &services[idx].1.depends_on {
        Some(d) => {
            let mut i: usize = 0;
            while i < d.len()
                invariant
                    i <= d.len(),
                    g == dependency_graph(services@),
                    deps == views(d@),
                    depth > 0,
                    within(v0, views(visited@)),
                    unvisited(g, views(visited@)) < depth - 1,
                    dfs_deps(g, (depth - 1) as nat, deps, 0, st1) == dfs_deps(
                        g,
                        (depth - 1) as nat,
                        deps,
                        i as int,
                        (views(visited@), views(ordered@)),
                    ),
                decreases d.len() - i,
            {
                let dep = &d[i];
                assert(deps[i as int] == dep@);
                if find_service(services, dep).is_some() {
                    let ghost before = views(visited@);
                    visit(services, dep, visited, ordered, Ghost((depth - 1) as nat));
                    proof {
                        lemma_unvisited_mono(g, before, views(visited@));
                        assert forall|x: Seq<char>| #[trigger] v0.contains(x) implies views(visited@).contains(x) by {
                            assert(before.contains(x));
                        }
                    }
                }
                i += 1;
            }
        },
        None => {},
    }
    push_copy(ordered, name);
}

/// The order in which a compose file's services are brought up: the names,
/// sorted, are walked in turn; a walk enters a service once, walks first the
/// services it depends on (in the order listed, skipping names that are no
/// service) and then emits it.
pub fn order_services(services: &Vec<(String, ComposeService)>) -> (r: Vec<String>)
    ensures
        exists|keys: Seq<Seq<char>>|
            strictly_sorted(keys) && same_elements(keys, service_names(dependency_graph(services@))) && views(r@)
                == #[trigger] service_order(dependency_graph(services@), keys),
{
    let ghost g = dependency_graph(services@);
    let mut names: Vec<String> = Vec::new();
    let mut n: usize = 0;
    while n < services.len()
        invariant
            n <= services.len(),
            g == dependency_graph(services@),
            views(names@) == service_names(g).take(n as int),
        decreases services.len() - n,
    {
        push_copy(&mut names, &services[n].0);
        assert(service_names(g).take(n + 1) =~= service_names(g).take(n as int).push(services@[n as int].0@));
        n += 1;
    }
    assert(service_names(g).take(services.len() as int) =~= service_names(g));
    let keys = sorted_unique(&names);
    let ghost kv = views(keys@);
    let mut visited: Vec<String> = Vec::new();
    let mut ordered: Vec<String> = Vec::new();
    let mut j: usize = 0;
    assert(views(visited@) =~= Seq::<Seq<char>>::empty());
    assert(views(ordered@) =~= Seq::<Seq<char>>::empty());
    while j < keys.len()
        invariant
            j <= keys.len(),
            g == dependency_graph(services@),
            kv == views(keys@),
            same_elements(kv, service_names(g)),
            dfs_keys(g, kv, 0, (Seq::empty(), Seq::empty())) == dfs_keys(
                g,
                kv,
                j as int,
                (views(visited@), views(ordered@)),
            ),
        decreases keys.len() - j,
    {
        proof {
            let k = kv[j as int];
            assert(kv.contains(k));
            assert(service_names(g).contains(k));
            let m = choose|m: int| 0 <= m < service_names(g).len() && service_names(g)[m] == k;
            assert(g[m].0 == k);
            lemma_unvisited_bound(g, views(visited@));
        }
        visit(services, &keys[j], &mut visited, &mut ordered, Ghost((g.len() + 1) as nat));
        j += 1;
    }
    assert(views(ordered@) == service_order(g, kv));
    ordered
}

/// How a walk changes its state: names once entered stay entered, and the
/// names it emits are, once each, exactly the names it newly entered.
pub open spec fn grows(st: (Seq<Seq<char>>, Seq<Seq<char>>), st2: (Seq<Seq<char>>, Seq<Seq<char>>)) -> bool {
    &&& within(st.0, st2.0)
    &&& st2.1.len() >= st.1.len()
    &&& st2.1.subrange(0, st.1.len() as int) == st.1
    &&& st2.1.subrange(st.1.len() as int, st2.1.len() as int).no_duplicates()
    &&& forall|x: Seq<char>|
        #[trigger] st2.1.subrange(st.1.len() as int, st2.1.len() as int).contains(x) <==> (st2.0.contains(x)
            && !st.0.contains(x))
}

/// A walk's state does not change when nothing happens.
proof fn lemma_grows_refl(st: (Seq<Seq<char>>, Seq<Seq<char>>))
    ensures
        grows(st, st),
{
    assert(st.1.subrange(0, st.1.len() as int) =~= st.1);
    assert(st.1.subrange(st.1.len() as int, st.1.len() as int) =~= Seq::<Seq<char>>::empty());
}

/// Two walks in a row change the state as one does.
proof fn lemma_grows_trans(
    a: (Seq<Seq<char>>, Seq<Seq<char>>),
    b: (Seq<Seq<char>>, Seq<Seq<char>>),
    c: (Seq<Seq<char>>, Seq<Seq<char>>),
)
    requires
        grows(a, b),
        grows(b, c),
    ensures
        grows(a, c),
{
    let fa = b.1.subrange(a.1.len() as int, b.1.len() as int);
    let fb = c.1.subrange(b.1.len() as int, c.1.len() as int);
    let f = c.1.subrange(a.1.len() as int, c.1.len() as int);
    assert(f =~= fa + fb);
    assert(c.1.subrange(0, a.1.len() as int) =~= b.1.subrange(0, a.1.len() as int));
    assert forall|x: Seq<char>| #[trigger] f.contains(x) <==> (c.0.contains(x) && !a.0.contains(x)) by {
        if f.contains(x) {
            let k = choose|k: int| 0 <= k < f.len() && f[k] == x;
            if k < fa.len() {
                assert(fa[k] == x);
                assert(fa.contains(x));
            } else {
                assert(fb[k - fa.len()] == x);
                assert(fb.contains(x));
            }
        }
        if c.0.contains(x) && !a.0.contains(x) {
            if b.0.contains(x) {
                assert(fa.contains(x));
                let k = choose|k: int| 0 <= k < fa.len() && fa[k] == x;
                assert(f[k] == x);
            } else {
                assert(fb.contains(x));
                let k = choose|k: int| 0 <= k < fb.len() && fb[k] == x;
                assert(f[fa.len() + k] == x);
            }
        }
    }
    assert forall|i: int, j: int| 0 <= i < f.len() && 0 <= j < f.len() && i != j implies f[i] != f[j] by {
        if i < fa.len() && j < fa.len() {
        } else if i >= fa.len() && j >= fa.len() {
            assert(fb[i - fa.len()] == f[i] && fb[j - fa.len()] == f[j]);
        } else {
            let (p, q) = if i < fa.len() {
                (i, j)
            } else {
                (j, i)
            };
            assert(fa.contains(f[p]));
            assert(fb[q - fa.len()] == f[q]);
            assert(fb.contains(f[q]));
            assert(b.0.contains(f[p]));
        }
    }
}

/// Every walk grows its state.
proof fn lemma_visit_grows(
    g: Seq<(Seq<char>, Seq<Seq<char>>)>,
    depth: nat,
    name: Seq<char>,
    st: (Seq<Seq<char>>, Seq<Seq<char>>),
)
    ensures
        grows(st, dfs_visit(g, depth, name, st)),
        depth > 0 ==> dfs_visit(g, depth, name, st).0.contains(name),
    decreases depth, 0int,
{
    if depth == 0 || st.0.contains(name) {
        lemma_grows_refl(st);
    } else {
        let st1 = (st.0.push(name), st.1);
        let deps = deps_of(g, name);
        lemma_deps_grows(g, (depth - 1) as nat, deps, 0, st1);
        let st2 = dfs_deps(g, (depth - 1) as nat, deps, 0, st1);
        let res = (st2.0, st2.1.push(name));
        assert(st1.0[st.0.len() as int] == name);
        assert(within(st.0, st1.0)) by {
            assert forall|x: Seq<char>| #[trigger] st.0.contains(x) implies st1.0.contains(x) by {
                let k = choose|k: int| 0 <= k < st.0.len() && st.0[k] == x;
                assert(st1.0[k] == x);
            }
        }
        assert(st1.0.contains(name));
        assert(st2.0.contains(name));
        let f2 = st2.1.subrange(st.1.len() as int, st2.1.len() as int);
        let f = res.1.subrange(st.1.len() as int, res.1.len() as int);
        assert(f =~= f2.push(name));
        assert(res.1.subrange(0, st.1.len() as int) =~= st2.1.subrange(0, st.1.len() as int));
        assert(!f2.contains(name));
        assert forall|x: Seq<char>| #[trigger] f.contains(x) <==> (res.0.contains(x) && !st.0.contains(x)) by {
            if f.contains(x) && x != name {
                let k = choose|k: int| 0 <= k < f.len() && f[k] == x;
                assert(k < f2.len());
                assert(f2[k] == x);
                assert(f2.contains(x));
            }
            if res.0.contains(x) && !st.0.contains(x) {
                if x == name {
                    assert(f[f2.len() as int] == x);
                } else {
                    assert(!st1.0.contains(x)) by {
                        if st1.0.contains(x) {
                            let k = choose|k: int| 0 <= k < st1.0.len() && st1.0[k] == x;
                            if k < st.0.len() {
                                assert(st.0[k] == x);
                            }
                        }
                    }
                    assert(f2.contains(x));
                    let k = choose|k: int| 0 <= k < f2.len() && f2[k] == x;
                    assert(f[k] == x);
                }
            }
        }
        assert forall|i: int, j: int| 0 <= i < f.len() && 0 <= j < f.len() && i != j implies f[i] != f[j] by {
            if i < f2.len() && j < f2.len() {
            } else if i < f2.len() {
                assert(f2.contains(f2[i]));
            } else if j < f2.len() {
                assert(f2.contains(f2[j]));
            }
        }
        assert(within(st.0, res.0)) by {
            assert forall|x: Seq<char>| #[trigger] st.0.contains(x) implies res.0.contains(x) by {
                assert(st1.0.contains(x));
            }
        }
    }
}

/// Every walk over dependencies grows its state.
proof fn lemma_deps_grows(
    g: Seq<(Seq<char>, Seq<Seq<char>>)>,
    depth: nat,
    deps: Seq<Seq<char>>,
    i: int,
    st: (Seq<Seq<char>>, Seq<Seq<char>>),
)
    ensures
        grows(st, dfs_deps(g, depth, deps, i, st)),
    decreases depth, deps.len() - i + 1,
{
    if i < 0 || i >= deps.len() {
        lemma_grows_refl(st);
    } else if has_service(g, deps[i]) {
        let st1 = dfs_visit(g, depth, deps[i], st);
        lemma_visit_grows(g, depth, deps[i], st);
        lemma_deps_grows(g, depth, deps, i + 1, st1);
        lemma_grows_trans(st, st1, dfs_deps(g, depth, deps, i + 1, st1));
    } else {
        lemma_deps_grows(g, depth, deps, i + 1, st);
    }
}

/// The walks from keys `j` on grow the state and enter every key.
proof fn lemma_keys_grows(
    g: Seq<(Seq<char>, Seq<Seq<char>>)>,
    keys: Seq<Seq<char>>,
    j: int,
    st: (Seq<Seq<char>>, Seq<Seq<char>>),
)
    requires
        0 <= j <= keys.len(),
    ensures
        grows(st, dfs_keys(g, keys, j, st)),
        forall|k: int| j <= k < keys.len() ==> dfs_keys(g, keys, j, st).0.contains(#[trigger] keys[k]),
    decreases keys.len() - j,
{
    if j >= keys.len() {
        lemma_grows_refl(st);
    } else {
        let st1 = dfs_visit(g, (g.len() + 1) as nat, keys[j], st);
        lemma_visit_grows(g, (g.len() + 1) as nat, keys[j], st);
        lemma_keys_grows(g, keys, j + 1, st1);
        let fin = dfs_keys(g, keys, j + 1, st1);
        lemma_grows_trans(st, st1, fin);
        assert(fin.0.contains(keys[j]));
    }
}

/// Whether every name entered in a state is a service.
pub open spec fn entered_services(g: Seq<(Seq<char>, Seq<Seq<char>>)>, st: (Seq<Seq<char>>, Seq<Seq<char>>)) -> bool {
    forall|x: Seq<char>| #[trigger] st.0.contains(x) ==> has_service(g, x)
}

/// Every name a walk from a service enters is a service.
proof fn lemma_visit_enters_services(
    g: Seq<(Seq<char>, Seq<Seq<char>>)>,
    depth: nat,
    name: Seq<char>,
    st: (Seq<Seq<char>>, Seq<Seq<char>>),
)
    requires
        has_service(g, name),
        entered_services(g, st),
    ensures
        entered_services(g, dfs_visit(g, depth, name, st)),
    decreases depth, 0int,
{
    if depth > 0 && !st.0.contains(name) {
        let st1 = (st.0.push(name), st.1);
        assert forall|x: Seq<char>| #[trigger] st1.0.contains(x) implies has_service(g, x) by {
            let k = choose|k: int| 0 <= k < st1.0.len() && st1.0[k] == x;
            if k < st.0.len() {
                assert(st.0[k] == x);
                assert(st.0.contains(x));
            }
        }
        lemma_deps_enter_services(g, (depth - 1) as nat, deps_of(g, name), 0, st1);
        let after = dfs_deps(g, (depth - 1) as nat, deps_of(g, name), 0, st1);
        assert(dfs_visit(g, depth, name, st).0 == after.0);
    }
}

/// Every name a walk over dependencies enters is a service.
proof fn lemma_deps_enter_services(
    g: Seq<(Seq<char>, Seq<Seq<char>>)>,
    depth: nat,
    deps: Seq<Seq<char>>,
    i: int,
    st: (Seq<Seq<char>>, Seq<Seq<char>>),
)
    requires
        entered_services(g, st),
    ensures
        entered_services(g, dfs_deps(g, depth, deps, i, st)),
    decreases depth, deps.len() - i + 1,
{
    if 0 <= i < deps.len() {
        if has_service(g, deps[i]) {
            lemma_visit_enters_services(g, depth, deps[i], st);
            lemma_deps_enter_services(g, depth, deps, i + 1, dfs_visit(g, depth, deps[i], st));
        } else {
            lemma_deps_enter_services(g, depth, deps, i + 1, st);
        }
    }
}

/// Every name the walks from keys enter is a service, when every key is one.
proof fn lemma_keys_enter_services(
    g: Seq<(Seq<char>, Seq<Seq<char>>)>,
    keys: Seq<Seq<char>>,
    j: int,
    st: (Seq<Seq<char>>, Seq<Seq<char>>),
)
    requires
        forall|k: int| 0 <= k < keys.len() ==> has_service(g, #[trigger] keys[k]),
        entered_services(g, st),
    ensures
        entered_services(g, dfs_keys(g, keys, j, st)),
    decreases keys.len() - j,
{
    if 0 <= j < keys.len() {
        lemma_visit_enters_services(g, (g.len() + 1) as nat, keys[j], st);
        lemma_keys_enter_services(g, keys, j + 1, dfs_visit(g, (g.len() + 1) as nat, keys[j], st));
    }
}

/// The start order lists every service of the compose file, each once, and
/// nothing else.
pub proof fn law_order_lists_each_service_once(g: Seq<(Seq<char>, Seq<Seq<char>>)>, keys: Seq<Seq<char>>)
    requires
        same_elements(keys, service_names(g)),
    ensures
        service_order(g, keys).no_duplicates(),
        forall|n: Seq<char>| #[trigger] service_order(g, keys).contains(n) <==> has_service(g, n),
{
    let st0 = (Seq::<Seq<char>>::empty(), Seq::<Seq<char>>::empty());
    lemma_keys_grows(g, keys, 0, st0);
    assert forall|k: int| 0 <= k < keys.len() implies has_service(g, #[trigger] keys[k]) by {
        assert(keys.contains(keys[k]));
        assert(service_names(g).contains(keys[k]));
        let m = choose|m: int| 0 <= m < service_names(g).len() && service_names(g)[m] == keys[k];
        assert(g[m].0 == keys[k]);
    }
    lemma_keys_enter_services(g, keys, 0, st0);
    let fin = dfs_keys(g, keys, 0, st0);
    assert(fin.1.subrange(0, 0) =~= st0.1);
    assert(fin.1.subrange(0, fin.1.len() as int) =~= fin.1);
    assert forall|n: Seq<char>| #[trigger] fin.1.contains(n) <==> has_service(g, n) by {
        if has_service(g, n) {
            let i = choose|i: int| 0 <= i < g.len() && #[trigger] g[i].0 == n;
            assert(service_names(g)[i] == n);
            assert(service_names(g).contains(n));
            assert(keys.contains(n));
            let k = choose|k: int| 0 <= k < keys.len() && keys[k] == n;
            assert(fin.0.contains(keys[k]));
            assert(fin.1.subrange(0, fin.1.len() as int).contains(n));
        }
        if fin.1.contains(n) {
            assert(fin.1.subrange(0, fin.1.len() as int).contains(n));
            assert(fin.0.contains(n));
        }
    }
}

/// When no two services share a name, the start order has one entry per
/// service.
pub proof fn law_order_length(g: Seq<(Seq<char>, Seq<Seq<char>>)>, keys: Seq<Seq<char>>)
    requires
        same_elements(keys, service_names(g)),
        service_names(g).no_duplicates(),
    ensures
        service_order(g, keys).len() == g.len(),
{
    law_order_lists_each_service_once(g, keys);
    let o = service_order(g, keys);
    let n = service_names(g);
    assert forall|x: Seq<char>| o.to_set().contains(x) <==> n.to_set().contains(x) by {
        if has_service(g, x) {
            let i = choose|i: int| 0 <= i < g.len() && #[trigger] g[i].0 == x;
            assert(n[i] == x);
        }
        if n.contains(x) {
            let i = choose|i: int| 0 <= i < n.len() && n[i] == x;
            assert(g[i].0 == x);
        }
    }
    assert(o.to_set() =~= n.to_set());
    o.unique_seq_to_set();
    n.unique_seq_to_set();
}

/// A service without dependencies has none wherever the search for it stops.
proof fn lemma_no_deps(g: Seq<(Seq<char>, Seq<Seq<char>>)>, name: Seq<char>, i: int)
    requires
        forall|k: int| 0 <= k < g.len() ==> (#[trigger] g[k]).1.len() == 0,
    ensures
        deps_from(g, name, i).len() == 0,
    decreases g.len() - i,
{
    if 0 <= i < g.len() && g[i].0 != name {
        lemma_no_deps(g, name, i + 1);
    }
}

/// Without dependencies, the walks from keys `j` on emit those keys in order.
proof fn lemma_keys_without_deps(g: Seq<(Seq<char>, Seq<Seq<char>>)>, keys: Seq<Seq<char>>, j: int)
    requires
        0 <= j <= keys.len(),
        strictly_sorted(keys),
        forall|k: int| 0 <= k < g.len() ==> (#[trigger] g[k]).1.len() == 0,
    ensures
        dfs_keys(g, keys, j, (keys.take(j), keys.take(j))) == (keys, keys),
    decreases keys.len() - j,
{
    if j >= keys.len() {
        assert(keys.take(j) =~= keys);
    } else {
        let st = (keys.take(j), keys.take(j));
        let name = keys[j];
        assert(!st.0.contains(name)) by {
            if st.0.contains(name) {
                let i = choose|i: int| 0 <= i < j && st.0[i] == name;
                assert(lex_lt(keys[i], keys[j]));
                lemma_lex_lt_irreflexive(name);
            }
        }
        lemma_no_deps(g, name, 0);
        let depth = (g.len() + 1) as nat;
        let st1 = (st.0.push(name), st.1);
        assert(dfs_deps(g, (depth - 1) as nat, deps_of(g, name), 0, st1) == st1);
        assert(st.0.push(name) =~= keys.take(j + 1));
        assert(dfs_visit(g, depth, name, st) == (keys.take(j + 1), keys.take(j + 1)));
        lemma_keys_without_deps(g, keys, j + 1);
    }
}

/// When no service depends on another, services start in the order of their
/// names.
pub proof fn law_order_without_dependencies(g: Seq<(Seq<char>, Seq<Seq<char>>)>, keys: Seq<Seq<char>>)
    requires
        strictly_sorted(keys),
        forall|k: int| 0 <= k < g.len() ==> (#[trigger] g[k]).1.len() == 0,
    ensures
        service_order(g, keys) == keys,
{
    assert(keys.take(0) =~= Seq::<Seq<char>>::empty());
    lemma_keys_without_deps(g, keys, 0);
}

/// Whether a service's dependencies rank below it: `rank` witnesses that the
/// dependencies between services form no cycle.
pub open spec fn ranked(g: Seq<(Seq<char>, Seq<Seq<char>>)>, rank: spec_fn(Seq<char>) -> int) -> bool {
    forall|n: Seq<char>, k: int|
        has_service(g, n) && 0 <= k < deps_of(g, n).len() && has_service(g, #[trigger] deps_of(g, n)[k])
            ==> rank(deps_of(g, n)[k]) < rank(n)
}

/// Whether every service dependency of the name at `p` comes before it.
pub open spec fn dep_ok(g: Seq<(Seq<char>, Seq<Seq<char>>)>, order: Seq<Seq<char>>, p: int) -> bool {
    forall|k: int|
        0 <= k < deps_of(g, order[p]).len() && has_service(g, #[trigger] deps_of(g, order[p])[k])
            ==> order.subrange(0, p).contains(deps_of(g, order[p])[k])
}

/// Whether every name in `order` comes after the services it depends on.
pub open spec fn deps_first(g: Seq<(Seq<char>, Seq<Seq<char>>)>, order: Seq<Seq<char>>) -> bool {
    forall|p: int| 0 <= p < order.len() ==> #[trigger] dep_ok(g, order, p)
}

/// Whether a name was entered and not yet emitted: a walk from it is under way.
pub open spec fn in_progress(st: (Seq<Seq<char>>, Seq<Seq<char>>), x: Seq<char>) -> bool {
    st.0.contains(x) && !st.1.contains(x)
}

/// A walk that grows the state leaves the walks under way as they were.
proof fn lemma_grows_keeps_progress(st: (Seq<Seq<char>>, Seq<Seq<char>>), st2: (Seq<Seq<char>>, Seq<Seq<char>>))
    requires
        grows(st, st2),
        within(st.1, st.0),
    ensures
        within(st2.1, st2.0),
        within(st.1, st2.1),
        forall|x: Seq<char>| #[trigger] in_progress(st2, x) <==> in_progress(st, x),
{
    let f = st2.1.subrange(st.1.len() as int, st2.1.len() as int);
    assert(st2.1 =~= st.1 + f);
    assert forall|x: Seq<char>| #[trigger] st2.1.contains(x) <==> (st.1.contains(x) || f.contains(x)) by {
        if st2.1.contains(x) {
            let k = choose|k: int| 0 <= k < st2.1.len() && st2.1[k] == x;
            if k < st.1.len() {
                assert(st.1[k] == x);
            } else {
                assert(f[k - st.1.len()] == x);
            }
        }
        if st.1.contains(x) {
            let k = choose|k: int| 0 <= k < st.1.len() && st.1[k] == x;
            assert(st2.1[k] == x);
        }
        if f.contains(x) {
            let k = choose|k: int| 0 <= k < f.len() && f[k] == x;
            assert(st2.1[st.1.len() + k] == x);
        }
    }
    assert forall|x: Seq<char>| #[trigger] st2.1.contains(x) implies st2.0.contains(x) by {
        if st.1.contains(x) {
            assert(st.0.contains(x));
        }
    }
    assert forall|x: Seq<char>| #[trigger] in_progress(st2, x) <==> in_progress(st, x) by {
        if in_progress(st, x) {
            assert(st2.0.contains(x));
            assert(!f.contains(x));
        }
        if in_progress(st2, x) {
            assert(!f.contains(x));
            assert(!st.1.contains(x));
        }
    }
}

/// Emitting a name whose service dependencies were all emitted keeps the
/// order dependencies-first.
proof fn lemma_deps_first_push(g: Seq<(Seq<char>, Seq<Seq<char>>)>, o: Seq<Seq<char>>, x: Seq<char>)
    requires
        deps_first(g, o),
        forall|k: int| 0 <= k < deps_of(g, x).len() && has_service(g, #[trigger] deps_of(g, x)[k]) ==> o.contains(deps_of(g, x)[k]),
    ensures
        deps_first(g, o.push(x)),
{
    let o2 = o.push(x);
    assert forall|p: int| 0 <= p < o2.len() implies #[trigger] dep_ok(g, o2, p) by {
        if p < o.len() {
            assert(dep_ok(g, o, p));
            assert(o2[p] == o[p]);
            assert(o2.subrange(0, p) =~= o.subrange(0, p));
        } else {
            assert(o2[p] == x);
            assert(o2.subrange(0, p) =~= o);
        }
    }
}

/// With ranked dependencies, a walk from a service whose rank is below every
/// walk under way emits it after all its service dependencies.
proof fn lemma_visit_deps_first(
    g: Seq<(Seq<char>, Seq<Seq<char>>)>,
    rank: spec_fn(Seq<char>) -> int,
    depth: nat,
    name: Seq<char>,
    st: (Seq<Seq<char>>, Seq<Seq<char>>),
)
    requires
        ranked(g, rank),
        has_service(g, name),
        unvisited(g, st.0) < depth,
        deps_first(g, st.1),
        within(st.1, st.0),
        forall|x: Seq<char>| #[trigger] in_progress(st, x) ==> rank(x) > rank(name),
    ensures
        deps_first(g, dfs_visit(g, depth, name, st).1),
        dfs_visit(g, depth, name, st).1.contains(name),
    decreases depth, 0int,
{
    if st.0.contains(name) {
        if !st.1.contains(name) {
            assert(in_progress(st, name));
        }
    } else {
        let st1 = (st.0.push(name), st.1);
        let deps = deps_of(g, name);
        lemma_unvisited_enter(g, st.0, name);
        assert(st1.0[st.0.len() as int] == name);
        assert forall|x: Seq<char>| #[trigger] st.1.contains(x) implies st1.0.contains(x) by {
            assert(st.0.contains(x));
            let k = choose|k: int| 0 <= k < st.0.len() && st.0[k] == x;
            assert(st1.0[k] == x);
        }
        assert forall|x: Seq<char>| #[trigger] in_progress(st1, x) implies rank(x) >= rank(name) by {
            if x != name {
                let k = choose|k: int| 0 <= k < st1.0.len() && st1.0[k] == x;
                assert(st.0[k] == x);
                assert(in_progress(st, x));
            }
        }
        assert forall|k: int| 0 <= k < deps.len() && has_service(g, #[trigger] deps[k]) implies rank(deps[k]) < rank(name) by {
            assert(has_service(g, deps_of(g, name)[k]));
        }
        lemma_deps_deps_first(g, rank, (depth - 1) as nat, name, deps, 0, st1);
        let st2 = dfs_deps(g, (depth - 1) as nat, deps, 0, st1);
        lemma_deps_first_push(g, st2.1, name);
        assert(st2.1.push(name)[st2.1.len() as int] == name);
    }
}

/// With ranked dependencies, a walk over the dependencies of `parent` emits
/// each of them that is a service.
proof fn lemma_deps_deps_first(
    g: Seq<(Seq<char>, Seq<Seq<char>>)>,
    rank: spec_fn(Seq<char>) -> int,
    depth: nat,
    parent: Seq<char>,
    deps: Seq<Seq<char>>,
    i: int,
    st: (Seq<Seq<char>>, Seq<Seq<char>>),
)
    requires
        ranked(g, rank),
        0 <= i <= deps.len(),
        unvisited(g, st.0) < depth,
        deps_first(g, st.1),
        within(st.1, st.0),
        forall|x: Seq<char>| #[trigger] in_progress(st, x) ==> rank(x) >= rank(parent),
        forall|k: int| 0 <= k < deps.len() && has_service(g, #[trigger] deps[k]) ==> rank(deps[k]) < rank(parent),
    ensures
        deps_first(g, dfs_deps(g, depth, deps, i, st).1),
        within(dfs_deps(g, depth, deps, i, st).1, dfs_deps(g, depth, deps, i, st).0),
        forall|k: int|
            i <= k < deps.len() && has_service(g, #[trigger] deps[k]) ==> dfs_deps(g, depth, deps, i, st).1.contains(deps[k]),
        forall|x: Seq<char>| #[trigger] st.1.contains(x) ==> dfs_deps(g, depth, deps, i, st).1.contains(x),
    decreases depth, deps.len() - i + 1,
{
    if i < deps.len() {
        let next = if has_service(g, deps[i]) {
            dfs_visit(g, depth, deps[i], st)
        } else {
            st
        };
        if has_service(g, deps[i]) {
            assert(rank(deps[i]) < rank(parent));
            lemma_visit_deps_first(g, rank, depth, deps[i], st);
            lemma_visit_grows(g, depth, deps[i], st);
            lemma_grows_keeps_progress(st, next);
            lemma_unvisited_mono(g, st.0, next.0);
        } else {
            lemma_grows_refl(st);
            lemma_grows_keeps_progress(st, next);
        }
        lemma_deps_deps_first(g, rank, depth, parent, deps, i + 1, next);
        let fin = dfs_deps(g, depth, deps, i + 1, next);
        assert(fin == dfs_deps(g, depth, deps, i, st));
        if has_service(g, deps[i]) {
            assert(next.1.contains(deps[i]));
            assert(fin.1.contains(deps[i]));
        }
    } else {
        lemma_grows_refl(st);
    }
}

/// With ranked dependencies, the walks from keys keep the order dependencies-first.
proof fn lemma_keys_deps_first(
    g: Seq<(Seq<char>, Seq<Seq<char>>)>,
    rank: spec_fn(Seq<char>) -> int,
    keys: Seq<Seq<char>>,
    j: int,
    st: (Seq<Seq<char>>, Seq<Seq<char>>),
)
    requires
        ranked(g, rank),
        0 <= j <= keys.len(),
        forall|k: int| 0 <= k < keys.len() ==> has_service(g, #[trigger] keys[k]),
        deps_first(g, st.1),
        within(st.1, st.0),
        forall|x: Seq<char>| !(#[trigger] in_progress(st, x)),
    ensures
        deps_first(g, dfs_keys(g, keys, j, st).1),
    decreases keys.len() - j,
{
    if j < keys.len() {
        let depth = (g.len() + 1) as nat;
        lemma_unvisited_bound(g, st.0);
        lemma_visit_deps_first(g, rank, depth, keys[j], st);
        lemma_visit_grows(g, depth, keys[j], st);
        let next = dfs_visit(g, depth, keys[j], st);
        lemma_grows_keeps_progress(st, next);
        lemma_keys_deps_first(g, rank, keys, j + 1, next);
    }
}

/// When the services' dependencies form no cycle (some ranking puts every
/// service above the services it depends on), every service is started after
/// all the services it depends on.
pub proof fn law_order_dependencies_first(
    g: Seq<(Seq<char>, Seq<Seq<char>>)>,
    keys: Seq<Seq<char>>,
    rank: spec_fn(Seq<char>) -> int,
)
    requires
        same_elements(keys, service_names(g)),
        ranked(g, rank),
    ensures
        deps_first(g, service_order(g, keys)),
{
    let st0 = (Seq::<Seq<char>>::empty(), Seq::<Seq<char>>::empty());
    assert forall|k: int| 0 <= k < keys.len() implies has_service(g, #[trigger] keys[k]) by {
        assert(keys.contains(keys[k]));
        assert(service_names(g).contains(keys[k]));
        let m = choose|m: int| 0 <= m < service_names(g).len() && service_names(g)[m] == keys[k];
        assert(g[m].0 == keys[k]);
    }
    lemma_keys_deps_first(g, rank, keys, 0, st0);
}

} // verus!
