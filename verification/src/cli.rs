//! The arguments of the container command-line tool that the `container.*`
//! slots drive, and the reading of slot arguments that `box.create` shares.
use vstd::prelude::*;
use crate::network::{push_text, text_args};
use crate::text::{
    concat, concat3, lines, lines_exec, owned, split_whitespace, split_whitespace_exec, starts_with, starts_with_exec, trim,
    trim_exec, trim_start_matches, trim_start_matches_exec, views,
};

verus! {

/// Each value of `vals` preceded by `flag`.
pub open spec fn flag_pairs(flag: Seq<char>, vals: Seq<Seq<char>>) -> Seq<Seq<char>>
    decreases vals.len(),
{
    if vals.len() == 0 {
        Seq::empty()
    } else {
        flag_pairs(flag, vals.drop_last()) + seq![flag, vals.last()]
    }
}

/// Appends each of `vals`, preceded by `flag`.
fn push_flag_pairs(out: &mut Vec<String>, flag: &str, vals: &Vec<String>)
    ensures
        views(final(out)@) == views(old(out)@) + flag_pairs(flag@, views(vals@)),
{
    let ghost start = views(out@);
    let ghost vs = views(vals@);
    let mut i: usize = 0;
    while i < vals.len()
        invariant
            i <= vals@.len(),
            vs == views(vals@),
            views(out@) == start + flag_pairs(flag@, vs.take(i as int)),
        decreases vals@.len() - i,
    {
        push_text(out, flag);
        push_text(out, vals[i].as_str());
        assert(vs.take(i + 1).drop_last() =~= vs.take(i as int));
        assert(views(out@) =~= start + flag_pairs(flag@, vs.take(i + 1)));
        i += 1;
    }
    assert(vs.take(vals@.len() as int) =~= vs);
}

/// `key=value` for each environment pair.
pub open spec fn env_assignments(env: Seq<(Seq<char>, Seq<char>)>) -> Seq<Seq<char>> {
    env.map_values(|p: (Seq<char>, Seq<char>)| p.0 + "="@ + p.1)
}

/// The arguments that create a container: its name and image, then the
/// command when there is one, each port, volume and environment assignment
/// behind its flag, and `--host-net` when asked.
pub open spec fn create_args(
    name: Seq<char>,
    image: Seq<char>,
    cmd: Seq<char>,
    ports: Seq<Seq<char>>,
    volumes: Seq<Seq<char>>,
    env: Seq<(Seq<char>, Seq<char>)>,
    host_net: bool,
) -> Seq<Seq<char>> {
    seq!["create"@, name, "--image"@, image] + (if cmd.len() > 0 {
        seq!["--cmd"@, cmd]
    } else {
        Seq::empty()
    }) + flag_pairs("--port"@, ports) + flag_pairs("--volume"@, volumes) + flag_pairs(
        "--env"@,
        env_assignments(env),
    ) + (if host_net {
        seq!["--host-net"@]
    } else {
        Seq::empty()
    })
}

/// The arguments of `container.create`, or its refusal when the name or the
/// image is missing.
pub fn container_create_args(
    name: &str,
    image: &str,
    cmd: &str,
    ports: &Vec<String>,
    volumes: &Vec<String>,
    env: &Vec<(String, String)>,
    host_net: bool,
) -> (r: Result<Vec<String>, String>)
    ensures
        if name@.len() == 0 || image@.len() == 0 {
            r matches Err(m) && m@ == "name and image are required"@
        } else {
            r matches Ok(a) && views(a@) == create_args(
                name@,
                image@,
                cmd@,
                views(ports@),
                views(volumes@),
                crate::compose::pairs_view(env@),
                host_net,
            )
        },
{
    if name.is_empty() || image.is_empty() {
        return Err(owned("name and image are required"));
    }
    let mut out = text_args(&["create", name, "--image", image]);
    assert(views(out@) =~= seq!["create"@, name@, "--image"@, image@]);
    let ghost a0 = views(out@);
    if !cmd.is_empty() {
        push_text(&mut out, "--cmd");
        push_text(&mut out, cmd);
    }
    assert(views(out@) =~= a0 + (if cmd@.len() > 0 {
        seq!["--cmd"@, cmd@]
    } else {
        Seq::<Seq<char>>::empty()
    }));
    push_flag_pairs(&mut out, "--port", ports);
    push_flag_pairs(&mut out, "--volume", volumes);
    let mut assignments: Vec<String> = Vec::new();
    let mut i: usize = 0;
    while i < env.len()
        invariant
            i <= env@.len(),
            views(assignments@) == env_assignments(crate::compose::pairs_view(env@)).take(i as int),
        decreases env@.len() - i,
    {
        let a = concat3(env[i].0.as_str(), "=", env[i].1.as_str());
        let ghost before = views(assignments@);
        assignments.push(a);
        assert(views(assignments@) =~= before.push(a@));
        assert(env_assignments(crate::compose::pairs_view(env@)).take(i + 1) =~= env_assignments(
            crate::compose::pairs_view(env@),
        ).take(i as int).push(a@));
        i += 1;
    }
    assert(env_assignments(crate::compose::pairs_view(env@)).take(env@.len() as int)
        =~= env_assignments(crate::compose::pairs_view(env@)));
    push_flag_pairs(&mut out, "--env", &assignments);
    let ghost before_net = views(out@);
    if host_net {
        push_text(&mut out, "--host-net");
    }
    assert(views(out@) =~= before_net + (if host_net {
        seq!["--host-net"@]
    } else {
        Seq::<Seq<char>>::empty()
    }));
    Ok(out)
}

/// The arguments that show a container's logs: the last `tail` lines when
/// `tail` is positive, all of them otherwise.
pub fn container_logs_args(id: &str, tail: i64) -> (r: Vec<String>)
    ensures
        views(r@) == if tail > 0 {
            seq!["logs"@, id@, "--tail"@, crate::num::decimal(tail as int)]
        } else {
            seq!["logs"@, id@]
        },
{
    if tail > 0 {
        let t = crate::num::int_to_string(tail);
        let r = text_args(&["logs", id, "--tail", t.as_str()]);
        assert(views(r@) =~= seq!["logs"@, id@, "--tail"@, crate::num::decimal(tail as int)]);
        r
    } else {
        let r = text_args(&["logs", id]);
        assert(views(r@) =~= seq!["logs"@, id@]);
        r
    }
}

/// The full invocation of the tool: its data directory first, then `args`.
pub fn tool_invocation(data_dir: &str, args: &Vec<String>) -> (r: Vec<String>)
    ensures
        views(r@) == seq!["--data-dir"@, data_dir@] + views(args@),
{
    let mut r = text_args(&["--data-dir", data_dir]);
    assert(views(r@) =~= seq!["--data-dir"@, data_dir@]);
    let ghost start = views(r@);
    let mut i: usize = 0;
    while i < args.len()
        invariant
            i <= args@.len(),
            views(r@) == start + views(args@).take(i as int),
        decreases args@.len() - i,
    {
        push_text(&mut r, args[i].as_str());
        assert(views(args@).take(i + 1) =~= views(args@).take(i as int).push(args@[i as int]@));
        assert(views(r@) =~= start + views(args@).take(i + 1));
        i += 1;
    }
    assert(views(args@).take(args@.len() as int) =~= views(args@));
    r
}

/// The value a slot gives directly (`container.pull: 'nginx'`) counts when it
/// is neither empty nor an unresolved `$variable`.
pub fn direct_value(v: &str) -> (r: Option<String>)
    ensures
        match r {
            Some(x) => x@ == v@ && v@.len() > 0 && !starts_with(v@, "$"@),
            None => v@.len() == 0 || starts_with(v@, "$"@),
        },
{
    if v.is_empty() || starts_with_exec(v, "$") {
        None
    } else {
        Some(owned(v))
    }
}

/// The root file system of a container as the tool lays it out:
/// `<data_dir>/containers/<id>/bundle/rootfs`.
pub fn tool_rootfs_path(data_dir: &str, id: &str) -> (r: String)
    ensures
        r@ == data_dir@ + "/containers/"@ + id@ + "/bundle/rootfs"@,
{
    let a = concat3(data_dir, "/containers/", id);
    concat(a.as_str(), "/bundle/rootfs")
}

/// The value of a slot argument, as far as the slots read it: a list of
/// values, or a single value as text.
pub enum ArgValue {
    List(Vec<String>),
    Text(String),
}

/// A list argument (`ports`, `volumes`): a list as it is, a single non-empty
/// value as a list of one.
pub open spec fn list_arg(v: ArgValue) -> Seq<Seq<char>> {
    match v {
        ArgValue::List(l) => views(l@),
        ArgValue::Text(t) => if t@.len() == 0 {
            Seq::empty()
        } else {
            seq![t@]
        },
    }
}

/// The values of a list argument.
pub fn list_arg_values(v: &ArgValue) -> (r: Vec<String>)
    ensures
        views(r@) == list_arg(*v),
{
    match v {
        ArgValue::List(l) => l.clone(),
        ArgValue::Text(t) => {
            let mut r: Vec<String> = Vec::new();
            if !t.as_str().is_empty() {
                push_text(&mut r, t.as_str());
            }
            assert(views(r@) =~= list_arg(*v));
            r
        },
    }
}

/// A command argument: a list as it is, a single value split at whitespace.
pub open spec fn cmd_arg(v: ArgValue) -> Seq<Seq<char>> {
    match v {
        ArgValue::List(l) => views(l@),
        ArgValue::Text(t) => split_whitespace(t@),
    }
}

/// The words of a command argument.
pub fn cmd_arg_words(v: &ArgValue) -> (r: Vec<String>)
    ensures
        views(r@) == cmd_arg(*v),
{
    match v {
        ArgValue::List(l) => l.clone(),
        ArgValue::Text(t) => split_whitespace_exec(t.as_str()),
    }
}

/// Whether `box.create` falls back to the image's own command: when no
/// command was given, or it has no words.
pub fn uses_image_command(specified: bool, cmd: &Vec<String>) -> (b: bool)
    ensures
        b == (!specified || cmd@.len() == 0),
{
    !specified || cmd.len() == 0
}

/// The image named by one line of the tool's `images` listing: lines that
/// are empty or that start the listing's headings name none.
pub open spec fn listed_image(line: Seq<char>) -> Option<Seq<char>> {
    let t = trim(line);
    if t.len() == 0 || starts_with(t, "Cached"@) || starts_with(t, "No cached"@) {
        None
    } else {
        let name = trim(trim_start_matches(t, "• "@));
        if name.len() == 0 {
            None
        } else {
            Some(name)
        }
    }
}

/// The images of the listing lines `ls`, in order.
pub open spec fn listed_images(ls: Seq<Seq<char>>) -> Seq<Seq<char>>
    decreases ls.len(),
{
    if ls.len() == 0 {
        Seq::empty()
    } else {
        listed_images(ls.drop_last()) + match listed_image(ls.last()) {
            Some(n) => seq![n],
            None => Seq::empty(),
        }
    }
}

/// The images that the tool's `images` command printed.
pub fn image_listing(stdout: &str) -> (r: Vec<String>)
    ensures
        views(r@) == listed_images(lines(stdout@)),
{
    let ls = lines_exec(stdout);
    let ghost lv = views(ls@);
    let mut r: Vec<String> = Vec::new();
    let mut i: usize = 0;
    while i < ls.len()
        invariant
            i <= ls@.len(),
            lv == views(ls@),
            lv == lines(stdout@),
            views(r@) == listed_images(lv.take(i as int)),
        decreases ls@.len() - i,
    {
        assert(lv.take(i + 1).drop_last() =~= lv.take(i as int));
        assert(lv.take(i + 1).last() == ls@[i as int]@);
        let t = trim_exec(ls[i].as_str());
        let ghost prev = views(r@);
        if !t.as_str().is_empty() && !starts_with_exec(t.as_str(), "Cached") && !starts_with_exec(t.as_str(), "No cached") {
            let u = trim_start_matches_exec(t.as_str(), "• ");
            let name = trim_exec(u.as_str());
            if !name.as_str().is_empty() {
                push_text(&mut r, name.as_str());
                assert(views(r@) =~= prev + seq![name@]);
            } else {
                assert(views(r@) =~= prev + Seq::<Seq<char>>::empty());
            }
        } else {
            assert(views(r@) =~= prev + Seq::<Seq<char>>::empty());
        }
        i += 1;
    }
    assert(lv.take(ls@.len() as int) =~= lv);
    r
}

} // verus!
