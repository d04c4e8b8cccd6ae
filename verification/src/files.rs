//! The rules of the file slots: which archive format a name asks for, which
//! files a production panel refuses to overwrite, and how a permission mode is
//! read.
use vstd::prelude::*;
use crate::memory::{lowercase, to_lowercase};
use crate::num::{decimal, int_error_message, int_error_text, int_to_string, parse_int, parse_int_exec, IntErrorKind};
use crate::text::{concat, concat3, contains, contains_exec, ends_with, ends_with_exec, trim, trim_exec, trim_start_matches, trim_start_matches_exec};

verus! {

/// Whether an archive name asks for a gzip-compressed tar (`.tar.gz` or
/// `.tgz`); any other name means zip.
pub fn is_tar_gz_name(name: &str) -> (b: bool)
    ensures
        b == (ends_with(name@, ".tar.gz"@) || ends_with(name@, ".tgz"@)),
{
    ends_with_exec(name, ".tar.gz") || ends_with_exec(name, ".tgz")
}

/// Whether a path names a file that only a development panel may overwrite:
/// script, Rust source and environment files, and anything under `.git`,
/// compared in lower case.
pub open spec fn sensitive_path(path: Seq<char>) -> bool {
    let l = lowercase(path);
    ends_with(l, ".zl"@) || ends_with(l, ".rs"@) || ends_with(l, ".env"@) || contains(l, ".git"@)
}

/// Why `io.file.write` refuses to write `path`, if it does: an empty path,
/// or a sensitive file outside development.
pub fn write_refusal(path: &str, development: bool) -> (r: Option<String>)
    ensures
        match r {
            Some(m) => if path@.len() == 0 {
                m@ == "io.file.write: path is required"@
            } else {
                !development && sensitive_path(path@) && m@ == "security violation: modifying sensitive file '"@
                    + path@ + "' is restricted in production"@
            },
            None => path@.len() > 0 && (development || !sensitive_path(path@)),
        },
{
    if path.is_empty() {
        return Some(crate::text::owned("io.file.write: path is required"));
    }
    if !development {
        let l = to_lowercase(path);
        let ls = l.as_str();
        if ends_with_exec(ls, ".zl") || ends_with_exec(ls, ".rs") || ends_with_exec(ls, ".env") || contains_exec(ls, ".git") {
            return Some(concat3("security violation: modifying sensitive file '", path, "' is restricted in production"));
        }
    }
    None
}

/// `u32::from_str_radix(s, 8)`.
pub open spec fn octal_u32(s: Seq<char>) -> Result<int, IntErrorKind> {
    parse_int(s, 8, 0, u32::MAX as int)
}

/// The mode of an integer `mode` argument: its decimal digits read as octal
/// (`755` is `0o755`), or the integer itself, truncated to 32 bits, when they
/// are not octal or too large.
pub open spec fn mode_of_int(mi: int) -> int {
    match octal_u32(decimal(mi)) {
        Ok(n) => n,
        Err(_) => (mi as u32) as int,
    }
}

/// The mode of an integer `mode` argument.
pub fn mode_from_int(mi: i64) -> (r: u32)
    ensures
        r == mode_of_int(mi as int),
{
    let t = int_to_string(mi);
    proof {
        crate::num::lemma_parse_int_range(t@, 8, 0, u32::MAX as int);
    }
    match parse_int_exec(t.as_str(), 8, 0, 0xffff_ffff) {
        Ok(n) => n as u32,
        Err(_) => mi as u32,
    }
}

/// The mode of a text `mode` argument: trimmed, without leading `0o`, read as
/// octal; refused with the parser's message.
pub fn mode_from_text(mode: &str) -> (r: Result<u32, String>)
    ensures
        match octal_u32(trim_start_matches(trim(mode@), "0o"@)) {
            Ok(n) => r matches Ok(x) && x == n,
            Err(e) => r matches Err(m) && m@ == "io.file.chmod: invalid mode '"@ + mode@ + "': "@
                + int_error_message(e),
        },
{
    let t = trim_exec(mode);
    let clean = trim_start_matches_exec(t.as_str(), "0o");
    proof {
        crate::num::lemma_parse_int_range(clean@, 8, 0, u32::MAX as int);
    }
    match parse_int_exec(clean.as_str(), 8, 0, 0xffff_ffff) {
        Ok(n) => Ok(n as u32),
        Err(e) => {
            let a = concat3("io.file.chmod: invalid mode '", mode, "': ");
            let msg = int_error_text(e);
            Err(concat(a.as_str(), msg.as_str()))
        },
    }
}

} // verus!
