//! The file API's path guard and directory listing order.

use vstd::prelude::*;
use crate::order::{is_stable_sort, stable_sort_order};
use crate::paths::{path_join, path_join_seq};
use crate::text::{
    trim_start_char, trim_start_char_seq,
    lemma_split_from_nonempty, split_char, split_seq, str_eq, to_chars, to_lowercase,
    unicode_lowercase, views,
};
use vstd::string::*;

verus! {

/// Why a requested path is refused.
#[derive(Debug, Clone, Copy, PartialEq, Eq, Structural)]
pub enum PathError {
    /// The path climbs out with `..` (HTTP 400).
    BadRequest,
}

impl PathError {
    /// The HTTP status the file API answers with.
    pub fn status_code(&self) -> (c: u16)
        ensures
            c == 400,
    {
        400
    }
}

/// The `/`-separated segments of a request path, leading slashes ignored.
pub open spec fn request_segments(rel: Seq<char>) -> Seq<Seq<char>> {
    split_seq(trim_start_char_seq(rel, '/'), '/')
}

/// Joins the segments onto `root`: empty and `.` segments are skipped,
/// a `..` segment refuses the whole path.
pub open spec fn safe_join(root: Seq<char>, segs: Seq<Seq<char>>) -> Option<Seq<char>>
    decreases segs.len(),
{
    if segs.len() == 0 {
        Some(root)
    } else {
        match safe_join(root, segs.drop_last()) {
            None => None,
            Some(p) => {
                let x = segs.last();
                if x == ".."@ {
                    None
                } else if x.len() == 0 || x == "."@ {
                    Some(p)
                } else {
                    Some(path_join_seq(p, x))
                }
            },
        }
    }
}

/// Resolves a request path under `root`: `Ok` with the joined path, or
/// `BadRequest` when a segment is `..`.
pub fn safe_path(root: &str, rel: &str) -> (r: Result<String, PathError>)
    ensures
        match safe_join(root@, request_segments(rel@)) {
            Some(p) => r matches Ok(s) && s@ == p,
            None => r == Err::<String, PathError>(PathError::BadRequest),
        },
{
    let trimmed = trim_start_char(rel, '/');
    let segs = split_char(trimmed.as_str(), '/');
    let ghost all = request_segments(rel@);
    let mut path = String::from_str(root);
    let mut i: usize = 0;
    assert(views(segs@).subrange(0, 0) =~= Seq::<Seq<char>>::empty());
    while i < segs.len()
        invariant
            views(segs@) == all,
            all == request_segments(rel@),
            i <= segs@.len(),
            safe_join(root@, all.subrange(0, i as int)) == Some(path@),
        decreases segs@.len() - i,
    {
        let ghost sub = all.subrange(0, i + 1);
        assert(sub.drop_last() =~= all.subrange(0, i as int));
        assert(sub.last() == segs@[i as int]@);
        let x = segs[i].as_str();
        if str_eq(x, "..") {
            proof {
                lemma_safe_join_none_extends(root@, all, i + 1);
            }
            return Err(PathError::BadRequest);
        } else if !(x.unicode_len() == 0 || str_eq(x, ".")) {
            path = path_join(path.as_str(), x);
        }
        i = i + 1;
    }
    assert(all.subrange(0, segs@.len() as int) =~= all);
    Ok(path)
}

proof fn lemma_safe_join_none_extends(root: Seq<char>, segs: Seq<Seq<char>>, k: int)
    requires
        0 <= k <= segs.len(),
        safe_join(root, segs.subrange(0, k)) is None,
    ensures
        safe_join(root, segs) is None,
    decreases segs.len() - k,
{
    if k < segs.len() {
        assert(segs.subrange(0, k + 1).drop_last() =~= segs.subrange(0, k));
        lemma_safe_join_none_extends(root, segs, k + 1);
    } else {
        assert(segs.subrange(0, k) =~= segs);
    }
}

proof fn lemma_safe_join(root: Seq<char>, segs: Seq<Seq<char>>)
    requires
        forall|i: int| 0 <= i < segs.len() ==> !(#[trigger] segs[i]).contains('/'),
    ensures
        safe_join(root, segs) is None <==> exists|i: int| 0 <= i < segs.len() && #[trigger] segs[i] == ".."@,
        safe_join(root, segs) matches Some(p) ==> crate::text::seq_starts_with(p, root),
    decreases segs.len(),
{
    assert(root.subrange(0, root.len() as int) =~= root);
    if segs.len() > 0 {
        let pre = segs.drop_last();
        assert forall|i: int| 0 <= i < pre.len() implies !(#[trigger] pre[i]).contains('/') by {
            assert(pre[i] == segs[i]);
        }
        lemma_safe_join(root, pre);
        if exists|i: int| 0 <= i < pre.len() && #[trigger] pre[i] == ".."@ {
            let i = choose|i: int| 0 <= i < pre.len() && #[trigger] pre[i] == ".."@;
            assert(segs[i] == ".."@);
        }
        if exists|i: int| 0 <= i < segs.len() && #[trigger] segs[i] == ".."@ {
            let i = choose|i: int| 0 <= i < segs.len() && #[trigger] segs[i] == ".."@;
            if i < pre.len() {
                assert(pre[i] == ".."@);
            }
        }
        match safe_join(root, pre) {
            Some(p) => {
                let x = segs.last();
                if !(x == ".."@) && !(x.len() == 0 || x == "."@) {
                    assert(!segs[segs.len() - 1].contains('/'));
                    assert(x[0] != '/');
                    let q = path_join_seq(p, x);
                    assert(q.subrange(0, p.len() as int) =~= p);
                    assert(q.subrange(0, root.len() as int) =~= p.subrange(0, root.len() as int));
                }
            },
            None => {},
        }
    }
}

/// The path guard refuses exactly the paths with a `..` segment, and every
/// path it accepts lies under the root.
pub proof fn law_safe_path_stays_under_root(root: Seq<char>, rel: Seq<char>)
    ensures
        safe_join(root, request_segments(rel)) is None <==> exists|i: int|
            0 <= i < request_segments(rel).len() && #[trigger] request_segments(rel)[i] == ".."@,
        safe_join(root, request_segments(rel)) matches Some(p) ==> crate::text::seq_starts_with(p, root),
{
    crate::text::lemma_split_pieces_lack_sep(trim_start_char_seq(rel, '/'), '/', Seq::empty());
    lemma_safe_join(root, request_segments(rel));
}


/// A request segment that names a directory entry: neither empty nor `.`.
pub open spec fn names_entry(x: Seq<char>) -> bool {
    x.len() > 0 && x != "."@
}

/// The segments that name directory entries, in order.
pub open spec fn entry_names(segs: Seq<Seq<char>>) -> Seq<Seq<char>> {
    segs.filter(|x: Seq<char>| names_entry(x))
}

/// `root` with each of `names` joined on in turn.
pub open spec fn join_each(root: Seq<char>, names: Seq<Seq<char>>) -> Seq<char>
    decreases names.len(),
{
    if names.len() == 0 {
        root
    } else {
        path_join_seq(join_each(root, names.drop_last()), names.last())
    }
}

proof fn lemma_safe_join_keeps_names(root: Seq<char>, segs: Seq<Seq<char>>)
    requires
        forall|i: int| 0 <= i < segs.len() ==> #[trigger] segs[i] != ".."@,
    ensures
        safe_join(root, segs) == Some(join_each(root, entry_names(segs))),
        (forall|i: int| 0 <= i < segs.len() ==> names_entry(#[trigger] segs[i])) ==> entry_names(segs) == segs,
    decreases segs.len(),
{
    reveal_with_fuel(Seq::filter, 1);
    if segs.len() > 0 {
        let pre = segs.drop_last();
        assert forall|i: int| 0 <= i < pre.len() implies #[trigger] pre[i] != ".."@ by {
            assert(pre[i] == segs[i]);
        }
        lemma_safe_join_keeps_names(root, pre);
        assert(segs.last() == segs[segs.len() - 1]);
        let x = segs.last();
        assert(x != ".."@);
        if names_entry(x) {
            assert(entry_names(segs) == entry_names(pre).push(x));
            assert(entry_names(segs).drop_last() =~= entry_names(pre));
        } else {
            assert(entry_names(segs) == entry_names(pre));
        }
        if forall|i: int| 0 <= i < segs.len() ==> names_entry(#[trigger] segs[i]) {
            assert forall|i: int| 0 <= i < pre.len() implies names_entry(#[trigger] pre[i]) by {
                assert(pre[i] == segs[i]);
            }
            assert(names_entry(segs[segs.len() - 1]));
            assert(entry_names(segs) =~= segs);
        }
    } else {
        assert(entry_names(segs) =~= segs);
    }
}

/// A request without `..` is accepted, and the path is the root with every
/// segment that names an entry (neither empty nor `.`) joined on, in order:
/// no such segment is dropped, reordered or altered. When every segment
/// names an entry, all of them are joined.
pub proof fn law_safe_path_joins_every_name(root: Seq<char>, rel: Seq<char>)
    requires
        forall|i: int|
            0 <= i < request_segments(rel).len() ==> #[trigger] request_segments(rel)[i] != ".."@,
    ensures
        safe_join(root, request_segments(rel)) == Some(join_each(root, entry_names(request_segments(rel)))),
        (forall|i: int|
            0 <= i < request_segments(rel).len() ==> names_entry(#[trigger] request_segments(rel)[i]))
            ==> safe_join(root, request_segments(rel)) == Some(join_each(root, request_segments(rel))),
{
    lemma_safe_join_keeps_names(root, request_segments(rel));
}

// ---------------------------------------------------------------------
// Directory listing
// ---------------------------------------------------------------------

/// One entry of a directory listing.
#[derive(Debug)]
pub struct ListEntry {
    pub name: String,
    pub is_dir: bool,
    pub size: u64,
}

impl ListEntry {
    pub fn duplicate(&self) -> (r: ListEntry)
        ensures
            r.name@ == self.name@ && r.is_dir == self.is_dir && r.size == self.size,
    {
        ListEntry { name: self.name.clone(), is_dir: self.is_dir, size: self.size }
    }
}

pub struct ListEntryView {
    pub name: Seq<char>,
    pub is_dir: bool,
    pub size: u64,
}

pub open spec fn entry_views(es: Seq<ListEntry>) -> Seq<ListEntryView> {
    es.map_values(|e: ListEntry| ListEntryView { name: e.name@, is_dir: e.is_dir, size: e.size })
}

/// The sort key of an entry: directories (`0`) before files (`1`), then the
/// lower-cased name.
pub open spec fn listing_key(e: ListEntryView) -> Seq<char> {
    seq![
        if e.is_dir {
            '0'
        } else {
            '1'
        },
    ] + unicode_lowercase(e.name)
}

pub open spec fn listing_keys(es: Seq<ListEntry>) -> Seq<Seq<char>> {
    entry_views(es).map_values(|e: ListEntryView| listing_key(e))
}

/// The listing key orders as the tuple `(!is_dir, lowercase(name))`.
pub proof fn lemma_listing_key_order(a: ListEntryView, b: ListEntryView)
    ensures
        crate::order::lex_le(listing_key(a), listing_key(b)) <==> ((a.is_dir && !b.is_dir) || (a.is_dir
            == b.is_dir && crate::order::lex_le(unicode_lowercase(a.name), unicode_lowercase(b.name)))),
{
    let ka = listing_key(a);
    let kb = listing_key(b);
    assert(ka.drop_first() =~= unicode_lowercase(a.name));
    assert(kb.drop_first() =~= unicode_lowercase(b.name));
}

/// In a sorted listing no file comes before a directory.
pub proof fn law_listing_directories_first(entries: Seq<ListEntry>, perm: Seq<usize>)
    requires
        is_stable_sort(listing_keys(entries), perm),
    ensures
        forall|a: int, b: int|
            0 <= a < b < perm.len() && #[trigger] entries[perm[b] as int].is_dir ==> #[trigger] entries[perm[a] as int].is_dir,
{
    assert forall|a: int, b: int|
        0 <= a < b < perm.len() && #[trigger] entries[perm[b] as int].is_dir implies #[trigger] entries[perm[a] as int].is_dir by {
        let ev = entry_views(entries);
        let pa = perm[a] as int;
        let pb = perm[b] as int;
        assert(crate::order::lex_le(listing_keys(entries)[pa], listing_keys(entries)[pb]));
        assert(listing_keys(entries)[pa] == listing_key(ev[pa]));
        assert(listing_keys(entries)[pb] == listing_key(ev[pb]));
        lemma_listing_key_order(ev[pa], ev[pb]);
    }
}

/// Orders a listing: directories first, then by case-insensitive name; the
/// sort is stable.
pub fn sort_listing(entries: Vec<ListEntry>) -> (r: Vec<ListEntry>)
    ensures
        exists|perm: Seq<usize>|
            #![trigger is_stable_sort(listing_keys(entries@), perm)]
            is_stable_sort(listing_keys(entries@), perm)
                && entry_views(r@) == perm.map_values(|i: usize| entry_views(entries@)[i as int]),
{
    let ghost ev = entry_views(entries@);
    let mut keys: Vec<Vec<char>> = Vec::new();
    let mut k: usize = 0;
    while k < entries.len()
        invariant
            ev == entry_views(entries@),
            k <= entries@.len(),
            keys@.len() == k,
            forall|m: int| 0 <= m < k ==> #[trigger] keys@[m]@ == listing_key(ev[m]),
        decreases entries@.len() - k,
    {
        let e = &entries[k];
        let mut key: Vec<char> = Vec::new();
        key.push(if e.is_dir {
            '0'
        } else {
            '1'
        });
        let lower = to_chars(to_lowercase(e.name.as_str()).as_str());
        let mut j: usize = 0;
        while j < lower.len()
            invariant
                j <= lower@.len(),
                key@ == seq![
                    if e.is_dir {
                        '0'
                    } else {
                        '1'
                    },
                ] + lower@.subrange(0, j as int),
            decreases lower@.len() - j,
        {
            key.push(lower[j]);
            j = j + 1;
        }
        assert(lower@.subrange(0, lower@.len() as int) =~= lower@);
        assert(key@ =~= listing_key(ev[k as int]));
        keys.push(key);
        k = k + 1;
    }
    assert(keys@.map_values(|kk: Vec<char>| kk@) =~= listing_keys(entries@));
    let perm = stable_sort_order(&keys);
    let mut out: Vec<ListEntry> = Vec::new();
    let mut j: usize = 0;
    while j < perm.len()
        invariant
            ev == entry_views(entries@),
            is_stable_sort(listing_keys(entries@), perm@),
            j <= perm@.len(),
            entry_views(out@) == perm@.subrange(0, j as int).map_values(|x: usize| ev[x as int]),
        decreases perm@.len() - j,
    {
        let idx = perm[j];
        assert(perm@[j as int] < ev.len());
        let e = entries[idx].duplicate();
        let ghost ve = ListEntryView { name: e.name@, is_dir: e.is_dir, size: e.size };
        assert(ve == ev[idx as int]);
        let ghost old_out = out@;
        out.push(e);
        assert(entry_views(out@) =~= entry_views(old_out).push(ve));
        assert(perm@.subrange(0, j + 1) =~= perm@.subrange(0, j as int).push(idx));
        assert(entry_views(out@) =~= perm@.subrange(0, j + 1).map_values(|x: usize| ev[x as int]));
        j = j + 1;
    }
    assert(perm@.subrange(0, perm@.len() as int) =~= perm@);
    out
}

} // verus!
