//! Where a container's files live under the data directory, and the overlay
//! mount that stacks an image's layers under a container's root file system.
use vstd::prelude::*;
use crate::text::{
    concat, concat3, join, join_exec, starts_with, starts_with_exec, trim_start_matches,
    trim_start_matches_exec,
};

verus! {

/// `Path::join` on path text: an absolute `seg` replaces `base`; otherwise a `/`
/// separates the two unless `base` is empty or already ends with `/`.
pub open spec fn path_join(base: Seq<char>, seg: Seq<char>) -> Seq<char> {
    if seg.len() > 0 && seg[0] == '/' {
        seg
    } else if base.len() == 0 || base.last() == '/' {
        base + seg
    } else {
        base + "/"@ + seg
    }
}

/// Joins `seg` onto the path `base`.
pub fn join_path(base: &str, seg: &str) -> (r: String)
    ensures
        r@ == path_join(base@, seg@),
{
    let sv = crate::text::chars_of(seg);
    if sv.len() > 0 && sv[0] == '/' {
        return crate::text::owned(seg);
    }
    let bv = crate::text::chars_of(base);
    let ends_with_sep = bv.len() > 0 && bv[bv.len() - 1] == '/';
    if bv.len() == 0 || ends_with_sep {
        concat(base, seg)
    } else {
        concat3(base, "/", seg)
    }
}

/// `<data_dir>/containers/<id>`.
pub open spec fn container_dir_of(data_dir: Seq<char>, id: Seq<char>) -> Seq<char> {
    path_join(path_join(data_dir, "containers"@), id)
}

/// The directory that holds a container's files.
pub fn container_dir(data_dir: &str, id: &str) -> (r: String)
    ensures
        r@ == container_dir_of(data_dir@, id@),
{
    let c = join_path(data_dir, "containers");
    join_path(c.as_str(), id)
}

/// The OCI bundle of a container: `bundle` under its directory.
pub fn bundle_dir(data_dir: &str, id: &str) -> (r: String)
    ensures
        r@ == path_join(container_dir_of(data_dir@, id@), "bundle"@),
{
    let c = container_dir(data_dir, id);
    join_path(c.as_str(), "bundle")
}

/// The root file system of a container: `rootfs` under its bundle.
pub fn rootfs_dir(data_dir: &str, id: &str) -> (r: String)
    ensures
        r@ == path_join(path_join(container_dir_of(data_dir@, id@), "bundle"@), "rootfs"@),
{
    let b = bundle_dir(data_dir, id);
    join_path(b.as_str(), "rootfs")
}

/// The saved state of a container: `state.json` under its directory.
pub fn state_file(data_dir: &str, id: &str) -> (r: String)
    ensures
        r@ == path_join(container_dir_of(data_dir@, id@), "state.json"@),
{
    let c = container_dir(data_dir, id);
    join_path(c.as_str(), "state.json")
}

/// The console log of a container: `console.log` under its directory.
pub fn log_path(data_dir: &str, id: &str) -> (r: String)
    ensures
        r@ == path_join(container_dir_of(data_dir@, id@), "console.log"@),
{
    let c = container_dir(data_dir, id);
    join_path(c.as_str(), "console.log")
}

/// `<data_dir>/images/layers/<layer>/rootfs`: where a layer is unpacked.
pub open spec fn layer_rootfs_of(data_dir: Seq<char>, layer: Seq<char>) -> Seq<char> {
    path_join(path_join(path_join(path_join(data_dir, "images"@), "layers"@), layer), "rootfs"@)
}

/// Where a layer is unpacked.
pub fn layer_rootfs(data_dir: &str, layer: &str) -> (r: String)
    ensures
        r@ == layer_rootfs_of(data_dir@, layer@),
{
    let a = join_path(data_dir, "images");
    let b = join_path(a.as_str(), "layers");
    let c = join_path(b.as_str(), layer);
    join_path(c.as_str(), "rootfs")
}

/// The unpacked layers in overlay order: the last layer of the image first.
pub open spec fn lower_dirs(data_dir: Seq<char>, layers: Seq<Seq<char>>) -> Seq<Seq<char>> {
    Seq::new(layers.len(), |i: int| layer_rootfs_of(data_dir, layers[layers.len() - 1 - i]))
}

/// The options of the overlay mount of a container's root file system:
/// `lowerdir=<layers, last first, joined by :>,upperdir=<dir>/diff,workdir=<dir>/work`.
pub open spec fn overlay_options_of(data_dir: Seq<char>, id: Seq<char>, layers: Seq<Seq<char>>) -> Seq<
    char,
> {
    let dir = container_dir_of(data_dir, id);
    "lowerdir="@ + join(lower_dirs(data_dir, layers), ":"@) + ",upperdir="@ + path_join(
        dir,
        "diff"@,
    ) + ",workdir="@ + path_join(dir, "work"@)
}

/// The options of the overlay mount that stacks `layers` under a container.
pub fn overlay_options(data_dir: &str, id: &str, layers: &Vec<String>) -> (r: String)
    ensures
        r@ == overlay_options_of(data_dir@, id@, layers@.map_values(|l: String| l@)),
{
    let ghost lv = layers@.map_values(|l: String| l@);
    let mut lower: Vec<String> = Vec::new();
    let mut k: usize = layers.len();
    while k > 0
        invariant
            k <= layers.len(),
            lv == layers@.map_values(|l: String| l@),
            lower@.len() == layers.len() - k,
            forall|i: int|
                0 <= i < lower@.len() ==> #[trigger] lower@[i]@ == layer_rootfs_of(
                    data_dir@,
                    lv[layers.len() - 1 - i],
                ),
        decreases k,
    {
        k -= 1;
        let d = layer_rootfs(data_dir, layers[k].as_str());
        lower.push(d);
    }
    assert(lower@.map_values(|l: String| l@) =~= lower_dirs(data_dir@, lv));
    let lower_text = join_exec(&lower, ":");
    let dir = container_dir(data_dir, id);
    let upper = join_path(dir.as_str(), "diff");
    let work = join_path(dir.as_str(), "work");
    let a = concat3("lowerdir=", lower_text.as_str(), ",upperdir=");
    let b = concat3(a.as_str(), upper.as_str(), ",workdir=");
    concat(b.as_str(), work.as_str())
}

/// What to do with an entry of an unpacked layer while whiteouts are applied.
pub enum Whiteout {
    /// `.wh..wh..opq`: the marker itself is removed.
    Opaque,
    /// `.wh.<name>`: `<name>` is removed, then the marker.
    Remove(String),
    /// Any other entry stays.
    Keep,
}

/// The name that a whiteout marker hides.
pub open spec fn whiteout_target(name: Seq<char>) -> Seq<char> {
    trim_start_matches(name, ".wh."@)
}

/// What a whiteout pass does with the entry named `name`.
pub fn whiteout_action(name: &str) -> (r: Whiteout)
    ensures
        !starts_with(name@, ".wh."@) ==> r is Keep,
        starts_with(name@, ".wh."@) && name@ == ".wh..wh..opq"@ ==> r is Opaque,
        starts_with(name@, ".wh."@) && name@ != ".wh..wh..opq"@ ==> (r matches Whiteout::Remove(t)
            && t@ == whiteout_target(name@)),
{
    if !starts_with_exec(name, ".wh.") {
        return Whiteout::Keep;
    }
    let n = crate::text::owned(name);
    let opq = crate::text::owned(".wh..wh..opq");
    if n == opq {
        Whiteout::Opaque
    } else {
        Whiteout::Remove(trim_start_matches_exec(name, ".wh."))
    }
}

/// The program and arguments that run `cmd` with root rights: directly as root,
/// else through `sudo`.
pub fn privileged_command(is_root: bool, cmd: &str, args: &Vec<String>) -> (r: (String, Vec<String>))
    ensures
        is_root ==> r.0@ == cmd@ && r.1@ == args@,
        !is_root ==> r.0@ == "sudo"@ && r.1@.len() == args@.len() + 1 && r.1@[0]@ == cmd@
            && r.1@.subrange(1, r.1@.len() as int) == args@,
{
    if is_root {
        (crate::text::owned(cmd), args.clone())
    } else {
        let mut all: Vec<String> = Vec::new();
        all.push(crate::text::owned(cmd));
        let mut i: usize = 0;
        while i < args.len()
            invariant
                i <= args.len(),
                all@.len() == i + 1,
                all@[0]@ == cmd@,
                all@.subrange(1, i + 1) == args@.subrange(0, i as int),
            decreases args.len() - i,
        {
            all.push(args[i].clone());
            assert(all@.subrange(1, i + 2) =~= args@.subrange(0, i + 1));
            i += 1;
        }
        assert(args@.subrange(0, args.len() as int) =~= args@);
        (crate::text::owned("sudo"), all)
    }
}

} // verus!
