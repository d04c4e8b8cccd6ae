//! The order in which a directory listing is shown: directories first, then
//! files, each group by name.
use vstd::prelude::*;
use vstd::multiset::Multiset;
use crate::image::opt_view;
use crate::num::{octal_string, radix_digits};
use crate::text::owned;
use crate::order::{lemma_lex_lt_asymmetric, lemma_lex_lt_transitive, lex_lt, lex_lt_exec};

verus! {

/// One entry of a directory listing.
pub struct DirEntryInfo {
    pub name: String,
    pub is_dir: bool,
    pub size: i64,
    pub mod_time: String,
    pub mode: String,
}

/// An entry as values: name, whether it is a directory, size, modification
/// time and mode.
pub type EntryView = (Seq<char>, bool, i64, Seq<char>, Seq<char>);

/// The values of an entry.
pub open spec fn entry_view(e: DirEntryInfo) -> EntryView {
    (e.name@, e.is_dir, e.size, e.mod_time@, e.mode@)
}

/// The values of a list of entries.
pub open spec fn entry_views(v: Seq<DirEntryInfo>) -> Seq<EntryView> {
    v.map_values(|e: DirEntryInfo| entry_view(e))
}

/// Whether `a` is shown before `b`: a directory before a file, and within
/// each kind the smaller name first.
pub open spec fn shown_before(a: EntryView, b: EntryView) -> bool {
    (a.1 && !b.1) || (a.1 == b.1 && lex_lt(a.0, b.0))
}

/// Whether no entry of `s` should be shown before one that precedes it.
pub open spec fn listing_sorted(s: Seq<EntryView>) -> bool {
    forall|i: int, j: int| 0 <= i < j < s.len() ==> !shown_before(#[trigger] s[j], #[trigger] s[i])
}

/// `shown_before` is transitive.
pub proof fn lemma_shown_before_transitive(a: EntryView, b: EntryView, c: EntryView)
    requires
        shown_before(a, b),
        shown_before(b, c),
    ensures
        shown_before(a, c),
{
    if a.1 == b.1 && b.1 == c.1 {
        lemma_lex_lt_transitive(a.0, b.0, c.0);
    }
}

/// `shown_before` is asymmetric.
pub proof fn lemma_shown_before_asymmetric(a: EntryView, b: EntryView)
    requires
        shown_before(a, b),
    ensures
        !shown_before(b, a),
{
    if a.1 == b.1 {
        lemma_lex_lt_asymmetric(a.0, b.0);
    }
}

/// Whether `a` is shown before `b`.
fn shown_before_exec(a: &DirEntryInfo, b: &DirEntryInfo) -> (r: bool)
    ensures
        r == shown_before(entry_view(*a), entry_view(*b)),
{
    (a.is_dir && !b.is_dir) || (a.is_dir == b.is_dir && lex_lt_exec(&a.name, &b.name))
}

/// Inserting `x` where every entry before it may precede it and the entry
/// after it (if any) is shown after it keeps a listing sorted.
proof fn lemma_insert_sorted(s: Seq<EntryView>, k: int, x: EntryView)
    requires
        listing_sorted(s),
        0 <= k <= s.len(),
        forall|m: int| 0 <= m < k ==> !shown_before(x, #[trigger] s[m]),
        k < s.len() ==> shown_before(x, s[k]),
    ensures
        listing_sorted(s.insert(k, x)),
{
    let t = s.insert(k, x);
    assert forall|i: int, j: int| 0 <= i < j < t.len() implies !shown_before(#[trigger] t[j], #[trigger] t[i]) by {
        if j < k {
            assert(t[i] == s[i] && t[j] == s[j]);
        } else if j == k {
            assert(t[j] == x && t[i] == s[i]);
        } else if i == k {
            assert(t[i] == x && t[j] == s[j - 1]);
            if shown_before(s[j - 1], x) {
                if j - 1 == k {
                    lemma_shown_before_asymmetric(x, s[k]);
                } else {
                    lemma_shown_before_transitive(s[j - 1], x, s[k]);
                    assert(!shown_before(s[j - 1], s[k]));
                }
            }
        } else if i < k {
            assert(t[i] == s[i] && t[j] == s[j - 1]);
        } else {
            assert(t[i] == s[i - 1] && t[j] == s[j - 1]);
        }
    }
}

/// The entries of a listing in the order in which they are shown:
/// directories first, then files, each group by name.
pub fn sort_listing(entries: Vec<DirEntryInfo>) -> (r: Vec<DirEntryInfo>)
    ensures
        listing_sorted(entry_views(r@)),
        entry_views(r@).to_multiset() == entry_views(entries@).to_multiset(),
{
    broadcast use vstd::seq_lib::group_to_multiset_ensures, vstd::multiset::group_multiset_axioms;

    let ghost original = entry_views(entries@);
    let mut rest = entries;
    let mut r: Vec<DirEntryInfo> = Vec::new();
    assert(entry_views(r@) =~= Seq::<EntryView>::empty());
    assert(entry_views(r@).to_multiset() =~= Multiset::<EntryView>::empty());
    while rest.len() > 0
        invariant
            listing_sorted(entry_views(r@)),
            entry_views(r@).to_multiset().add(entry_views(rest@).to_multiset()) == original.to_multiset(),
        decreases rest@.len(),
    {
        let ghost before_rest = entry_views(rest@);
        let x = rest.remove(0);
        assert(entry_views(rest@) =~= before_rest.remove(0));
        assert(before_rest[0] == entry_view(x));
        let ghost s = entry_views(r@);
        let mut k: usize = 0;
        while k < r.len() && !shown_before_exec(&x, &r[k])
            invariant
                k <= r@.len(),
                s == entry_views(r@),
                forall|m: int| 0 <= m < k ==> !shown_before(entry_view(x), #[trigger] s[m]),
            decreases r@.len() - k,
        {
            k += 1;
        }
        proof {
            lemma_insert_sorted(s, k as int, entry_view(x));
        }
        r.insert(k, x);
        assert(entry_views(r@) =~= s.insert(k as int, entry_view(x)));
        proof {
            vstd::seq_lib::to_multiset_insert(s, k as int, entry_view(x));
            vstd::seq_lib::to_multiset_remove(before_rest, 0);
            vstd::seq_lib::to_multiset_contains(before_rest, entry_view(x));
            assert(before_rest.to_multiset().count(entry_view(x)) > 0);
        }
        assert(entry_views(r@).to_multiset().add(entry_views(rest@).to_multiset()) =~= original.to_multiset());
    }
    assert(entry_views(rest@) =~= Seq::<EntryView>::empty());
    assert(entry_views(r@).to_multiset().add(entry_views(rest@).to_multiset()) =~= entry_views(r@).to_multiset());
    r
}

/// What chrono's `DateTime::<Utc>::from_timestamp(secs, nanos)` shows with
/// `to_rfc3339`; none where chrono has no such time.
pub uninterp spec fn rfc3339_utc(secs: int, nanos: int) -> Option<Seq<char>>;

/// `chrono::DateTime::<Utc>::from_timestamp`, shown with `to_rfc3339`: the
/// result is what the name above stands for; nothing more is claimed of it.
#[verifier::external_body]
fn utc_rfc3339(secs: i64, nanos: u32) -> (r: Option<String>)
    ensures
        opt_view(r) == rfc3339_utc(secs as int, nanos as int),
{
    match chrono::DateTime::from_timestamp(secs, nanos) {
        Some(d) => Some(d.to_rfc3339()),
        None => None,
    }
}

/// The modification time of a listing entry: empty when the file system gave
/// none (or one before 1970), else the UTC time in RFC 3339, the epoch where
/// chrono has no such time.
pub open spec fn mod_time_text(modified: Option<(u64, u32)>) -> Seq<char> {
    match modified {
        None => Seq::empty(),
        Some((secs, nanos)) => match rfc3339_utc((secs as i64) as int, nanos as int) {
            Some(t) => t,
            None => "1970-01-01T00:00:00+00:00"@,
        },
    }
}

/// A listing entry from what the file system says of a file: its name,
/// whether it is a directory, its length, its modification time as seconds
/// and nanoseconds since 1970, and its permission bits (shown in octal).
pub fn entry_info(name: String, is_dir: bool, len: u64, modified: Option<(u64, u32)>, mode: u32) -> (r: DirEntryInfo)
    ensures
        r.name == name,
        r.is_dir == is_dir,
        r.size == len as i64,
        r.mod_time@ == mod_time_text(modified),
        r.mode@ == radix_digits(mode as nat, 8),
{
    let mod_time = match modified {
        None => String::new(),
        Some((secs, nanos)) => match utc_rfc3339(secs as i64, nanos) {
            Some(t) => t,
            None => owned("1970-01-01T00:00:00+00:00"),
        },
    };
    DirEntryInfo { name, is_dir, size: len as i64, mod_time, mode: octal_string(mode) }
}

} // verus!
