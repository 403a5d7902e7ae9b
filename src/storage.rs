//! The canonical record that every storage backend lists, and the
//! normalisation of native listings into it.

use crate::time::{
    before_yesterday, cutoff_secs, is_yesterday_before_at, lemma_before_yesterday_is_before_cutoff,
    parse_rfc3339, rfc3339_instant, Timestamp,
};
use crate::naming::{join_path, joined, key_under, lemma_key_under_prefix};
use crate::pattern::{glob_matches, GlobPattern};
use crate::workflow::BackupError;
use vstd::prelude::*;
use vstd::seq_lib::{to_multiset_build, to_multiset_insert};

verus! {

/// One stored object: its key, when it was last modified, and its size.
#[derive(Debug)]
pub struct CosItem {
    pub key: String,
    pub last_modified: Timestamp,
    pub size: u64,
}

/// What a `CosItem` denotes.
pub struct ObjectView {
    pub key: Seq<char>,
    pub last_modified: Timestamp,
    pub size: u64,
}

impl View for CosItem {
    type V = ObjectView;

    open spec fn view(&self) -> ObjectView {
        ObjectView { key: self.key@, last_modified: self.last_modified, size: self.size }
    }
}

impl CosItem {
    /// A copy of this record.
    pub fn duplicate(&self) -> (r: CosItem)
        ensures
            r@ == self@,
    {
        CosItem { key: self.key.clone(), last_modified: self.last_modified, size: self.size }
    }
}

pub open spec fn views(s: Seq<CosItem>) -> Seq<ObjectView> {
    s.map_values(|x: CosItem| x@)
}

/// Every object comes at or before each one that is older.
pub open spec fn newest_first(s: Seq<ObjectView>) -> bool {
    forall|i: int, j: int|
        0 <= i < j < s.len() ==> s[i].last_modified.key() >= s[j].last_modified.key()
}

/// Sorts records by modification time, newest first.
pub fn sort_newest_first(items: Vec<CosItem>) -> (r: Vec<CosItem>)
    ensures
        newest_first(views(r@)),
        views(r@).to_multiset() == views(items@).to_multiset(),
        forall|i: int| 0 <= i < r.len() ==> views(items@).contains(#[trigger] views(r@)[i]),
{
    broadcast use vstd::seq_lib::group_to_multiset_ensures;

    let ghost all = views(items@);
    let mut rest = items;
    let mut out: Vec<CosItem> = Vec::new();
    proof {
        assert(views(out@) =~= Seq::<ObjectView>::empty());
        assert(views(out@).to_multiset().add(views(rest@).to_multiset()) =~= all.to_multiset());
    }
    while rest.len() > 0
        invariant
            newest_first(views(out@)),
            views(out@).to_multiset().add(views(rest@).to_multiset()) == all.to_multiset(),
        decreases rest.len(),
    {
        let ghost before_rest = rest@;
        let x = rest.pop().unwrap();
        proof {
            assert(views(before_rest) =~= views(rest@).push(x@));
            to_multiset_build(views(rest@), x@);
        }
        let mut j: usize = 0;
        while j < out.len() && !x.last_modified.not_before(&out[j].last_modified)
            invariant
                0 <= j <= out.len(),
                forall|k: int|
                    0 <= k < j ==> out@[k].last_modified.key() > x.last_modified.key(),
            decreases out.len() - j,
        {
            j = j + 1;
        }
        let ghost before_out = views(out@);
        let ghost xv = x@;
        out.insert(j, x);
        proof {
            assert(views(out@) =~= before_out.insert(j as int, xv));
            to_multiset_insert(before_out, j as int, xv);
            let s = views(out@);
            assert forall|a: int, b: int|
                0 <= a < b < s.len() implies s[a].last_modified.key()
                >= s[b].last_modified.key() by {
                if b < j {
                } else if b == j {
                } else if a < j {
                    assert(s[a] == before_out[a]);
                    assert(s[b] == before_out[b - 1]);
                    if j < before_out.len() {
                        assert(before_out[j as int].last_modified.key() <= xv.last_modified.key());
                        assert(before_out[j as int].last_modified.key() >= before_out[b - 1].last_modified.key());
                    }
                } else if a == j {
                    assert(before_out[j as int].last_modified.key() <= xv.last_modified.key());
                    if b - 1 > j {
                        assert(before_out[j as int].last_modified.key() >= before_out[b - 1].last_modified.key());
                    }
                } else {
                    assert(s[a] == before_out[a - 1]);
                    assert(s[b] == before_out[b - 1]);
                }
            }
            assert(views(out@).to_multiset().add(views(rest@).to_multiset()) =~= all.to_multiset());
        }
    }
    proof {
        assert(views(rest@) =~= Seq::<ObjectView>::empty());
        assert(views(out@).to_multiset() =~= all.to_multiset());
        assert forall|i: int| 0 <= i < out.len() implies all.contains(#[trigger] views(out@)[i]) by {
            let x = views(out@)[i];
            assert(views(out@).contains(x));
            vstd::seq_lib::to_multiset_contains(views(out@), x);
            vstd::seq_lib::to_multiset_contains(all, x);
        }
    }
    out
}

/// Every record of `s` has a well-formed time.
pub open spec fn all_wf(s: Seq<ObjectView>) -> bool {
    forall|i: int| 0 <= i < s.len() ==> (#[trigger] s[i]).last_modified.wf()
}

proof fn lemma_sorted_keeps_wf(before: Seq<ObjectView>, after: Seq<ObjectView>)
    requires
        all_wf(before),
        forall|i: int| 0 <= i < after.len() ==> before.contains(#[trigger] after[i]),
    ensures
        all_wf(after),
{
    assert forall|i: int| 0 <= i < after.len() implies (#[trigger] after[i]).last_modified.wf() by {
        assert(before.contains(after[i]));
    }
}

/// One entry of a backend's native listing, before normalisation: its
/// modification time is still the text the backend sent.
#[derive(Debug)]
pub struct ListedObject {
    pub key: String,
    pub last_modified: String,
    pub size: u64,
}

/// The record for a native entry, or `None` where its time is not RFC 3339.
pub open spec fn record_of(o: ListedObject) -> Option<ObjectView> {
    match rfc3339_instant(o.last_modified@) {
        Some(p) => Some(
            ObjectView {
                key: o.key@,
                last_modified: Timestamp { secs: p.0 as i64, nanos: p.1 as u32 },
                size: o.size,
            },
        ),
        None => None,
    }
}

/// The records for the entries whose time parses, in order; the others are
/// dropped.
pub open spec fn readable(s: Seq<ListedObject>) -> Seq<ObjectView>
    decreases s.len(),
{
    if s.len() == 0 {
        Seq::empty()
    } else {
        match record_of(s.last()) {
            Some(v) => readable(s.drop_last()).push(v),
            None => readable(s.drop_last()),
        }
    }
}

/// The entries of all pages, page after page.
pub open spec fn all_entries(pages: Seq<Seq<ListedObject>>) -> Seq<ListedObject>
    decreases pages.len(),
{
    if pages.len() == 0 {
        Seq::empty()
    } else {
        all_entries(pages.drop_last()) + pages.last()
    }
}

pub open spec fn pages_view(pages: Seq<Vec<ListedObject>>) -> Seq<Seq<ListedObject>> {
    pages.map_values(|p: Vec<ListedObject>| p@)
}

/// The canonical listing of a backend's native pages: every page is read,
/// an entry whose time does not parse is dropped, and the records come
/// newest first.
pub fn normalize_listing(pages: &Vec<Vec<ListedObject>>) -> (r: Vec<CosItem>)
    ensures
        newest_first(views(r@)),
        views(r@).to_multiset() == readable(all_entries(pages_view(pages@))).to_multiset(),
        all_wf(views(r@)),
{
    let ghost pv = pages_view(pages@);
    let mut out: Vec<CosItem> = Vec::new();
    let mut i: usize = 0;
    while i < pages.len()
        invariant
            pv == pages_view(pages@),
            0 <= i <= pages.len(),
            views(out@) == readable(all_entries(pv.subrange(0, i as int))),
            all_wf(views(out@)),
        decreases pages.len() - i,
    {
        let page = &pages[i];
        proof {
            assert(pv[i as int] == page@);
        }
        let mut j: usize = 0;
        while j < page.len()
            invariant
                pv == pages_view(pages@),
                0 <= i < pages.len(),
                pv[i as int] == page@,
                0 <= j <= page.len(),
                views(out@) == readable(
                    all_entries(pv.subrange(0, i as int)) + page@.subrange(0, j as int),
                ),
                all_wf(views(out@)),
            decreases page.len() - j,
        {
            let o = &page[j];
            let ghost prefix = all_entries(pv.subrange(0, i as int)) + page@.subrange(0, j as int);
            proof {
                let next = all_entries(pv.subrange(0, i as int)) + page@.subrange(0, j + 1);
                assert(next.drop_last() =~= prefix);
                assert(next.last() == *o);
            }
            match parse_rfc3339(o.last_modified.as_str()) {
                Some(t) => {
                    out.push(CosItem { key: o.key.clone(), last_modified: t, size: o.size });
                    proof {
                        assert(views(out@) =~= readable(prefix).push(out@.last()@));
                    }
                },
                None => {},
            }
            j = j + 1;
        }
        proof {
            assert(pv.subrange(0, i + 1).drop_last() =~= pv.subrange(0, i as int));
            assert(page@.subrange(0, j as int) =~= page@);
        }
        i = i + 1;
    }
    proof {
        assert(pv.subrange(0, i as int) =~= pv);
    }
    let ghost unsorted = views(out@);
    let r = sort_newest_first(out);
    proof {
        lemma_sorted_keeps_wf(unsorted, views(r@));
    }
    r
}

/// Whether a paged listing goes on: the token of the next page where the
/// service says the listing was cut short and gave a token, else `None`.
pub fn next_page_token(is_truncated: bool, next_token: String) -> (r: Option<String>)
    ensures
        (is_truncated && next_token@.len() > 0) ==> (r matches Some(t) && t@ == next_token@),
        !(is_truncated && next_token@.len() > 0) ==> r is None,
{
    if is_truncated && next_token.as_str().unicode_len() > 0 {
        Some(next_token)
    } else {
        None
    }
}

/// One directory entry as the local backend sees it.
#[derive(Debug)]
pub struct LocalEntry {
    pub name: String,
    pub modified: Timestamp,
    pub size: u64,
    pub is_file: bool,
}

pub open spec fn local_record(e: LocalEntry) -> ObjectView {
    ObjectView { key: e.name@, last_modified: e.modified, size: e.size }
}

/// The entry is a regular file whose name matches `pattern`.
pub open spec fn listed_locally(pattern: Seq<char>, e: LocalEntry) -> bool {
    e.is_file && glob_matches(pattern, e.name@)
}

/// The records of the regular files among `s` whose names match `pattern`,
/// in order.
pub open spec fn file_records(pattern: Seq<char>, s: Seq<LocalEntry>) -> Seq<ObjectView>
    decreases s.len(),
{
    if s.len() == 0 {
        Seq::empty()
    } else if listed_locally(pattern, s.last()) {
        file_records(pattern, s.drop_last()).push(local_record(s.last()))
    } else {
        file_records(pattern, s.drop_last())
    }
}

/// The listing of the local backend: one record per regular file of the
/// base directory whose name matches `pattern`, keyed by its file name and
/// dated by its modification time, newest first.
pub fn local_listing(pattern: &GlobPattern, entries: &Vec<LocalEntry>) -> (r: Vec<CosItem>)
    requires
        forall|i: int| 0 <= i < entries.len() ==> (#[trigger] entries@[i]).modified.wf(),
    ensures
        newest_first(views(r@)),
        views(r@).to_multiset() == file_records(pattern@, entries@).to_multiset(),
        all_wf(views(r@)),
{
    let mut out: Vec<CosItem> = Vec::new();
    let mut i: usize = 0;
    while i < entries.len()
        invariant
            0 <= i <= entries.len(),
            views(out@) == file_records(pattern@, entries@.subrange(0, i as int)),
            all_wf(views(out@)),
            forall|i: int| 0 <= i < entries.len() ==> (#[trigger] entries@[i]).modified.wf(),
        decreases entries.len() - i,
    {
        let e = &entries[i];
        proof {
            assert(entries@.subrange(0, i + 1).drop_last() =~= entries@.subrange(0, i as int));
        }
        if e.is_file && pattern.matches(e.name.as_str()) {
            out.push(CosItem { key: e.name.clone(), last_modified: e.modified, size: e.size });
            proof {
                assert(views(out@) =~= file_records(pattern@, entries@.subrange(0, i as int)).push(
                    out@.last()@,
                ));
            }
        }
        i = i + 1;
    }
    proof {
        assert(entries@.subrange(0, i as int) =~= entries@);
    }
    let ghost unsorted = views(out@);
    let r = sort_newest_first(out);
    proof {
        lemma_sorted_keeps_wf(unsorted, views(r@));
    }
    r
}

/// An object is pruned when it is not empty and was last modified before
/// yesterday, as seen at `now`.
pub open spec fn is_stale(o: ObjectView, now: Timestamp) -> bool {
    o.size > 0 && before_yesterday(o.last_modified, now)
}

/// The stale objects of a listing, in order.
pub open spec fn stale_objects(s: Seq<ObjectView>, now: Timestamp) -> Seq<ObjectView>
    decreases s.len(),
{
    if s.len() == 0 {
        Seq::empty()
    } else if is_stale(s.last(), now) {
        stale_objects(s.drop_last(), now).push(s.last())
    } else {
        stale_objects(s.drop_last(), now)
    }
}

pub open spec fn keys_of(s: Seq<ObjectView>) -> Seq<Seq<char>> {
    s.map_values(|o: ObjectView| o.key)
}

pub open spec fn string_views(s: Seq<String>) -> Seq<Seq<char>> {
    s.map_values(|k: String| k@)
}

/// The keys that the remote prune deletes, in listing order: those of the
/// stale objects. Empty objects and those of yesterday or today stay.
pub fn stale_keys(items: &Vec<CosItem>, now: &Timestamp) -> (r: Vec<String>)
    requires
        now.wf(),
        forall|i: int| 0 <= i < items.len() ==> (#[trigger] items@[i]).last_modified.wf(),
    ensures
        string_views(r@) == keys_of(stale_objects(views(items@), *now)),
{
    let mut out: Vec<String> = Vec::new();
    let mut i: usize = 0;
    while i < items.len()
        invariant
            now.wf(),
            forall|i: int| 0 <= i < items.len() ==> (#[trigger] items@[i]).last_modified.wf(),
            0 <= i <= items.len(),
            string_views(out@) == keys_of(stale_objects(views(items@.subrange(0, i as int)), *now)),
        decreases items.len() - i,
    {
        let item = &items[i];
        let ghost before = stale_objects(views(items@.subrange(0, i as int)), *now);
        proof {
            assert(views(items@.subrange(0, i + 1)).drop_last() =~= views(
                items@.subrange(0, i as int),
            ));
            assert(views(items@.subrange(0, i + 1)).last() == item@);
        }
        if item.size > 0 && is_yesterday_before_at(&item.last_modified, now) {
            let ghost old_out = out@;
            let k = item.key.clone();
            out.push(k);
            proof {
                assert(stale_objects(views(items@.subrange(0, i + 1)), *now) == before.push(item@));
                assert(out@ == old_out.push(k));
                assert(string_views(out@) =~= string_views(old_out).push(k@));
                assert(keys_of(before.push(item@)) =~= keys_of(before).push(item@.key));
            }
        } else {
            proof {
                assert(stale_objects(views(items@.subrange(0, i + 1)), *now) == before);
            }
        }
        i = i + 1;
    }
    proof {
        assert(items@.subrange(0, i as int) =~= items@);
    }
    out
}

proof fn lemma_push_contains(s: Seq<ObjectView>, x: ObjectView, o: ObjectView)
    ensures
        s.push(x).contains(o) <==> (s.contains(o) || o == x),
{
    if s.push(x).contains(o) && o != x {
        let k = choose|k: int| 0 <= k < s.push(x).len() && s.push(x)[k] == o;
        assert(s[k] == o);
    }
    if s.contains(o) {
        let k = choose|k: int| 0 <= k < s.len() && s[k] == o;
        assert(s.push(x)[k] == o);
    }
    if o == x {
        assert(s.push(x)[s.len() as int] == o);
    }
}

proof fn lemma_stale_objects_contains(s: Seq<ObjectView>, now: Timestamp, o: ObjectView)
    ensures
        stale_objects(s, now).contains(o) <==> (s.contains(o) && is_stale(o, now)),
    decreases s.len(),
{
    if s.len() == 0 {
    } else {
        let rest = s.drop_last();
        let x = s.last();
        assert(s =~= rest.push(x));
        lemma_stale_objects_contains(rest, now, o);
        lemma_push_contains(rest, x, o);
        if is_stale(x, now) {
            lemma_push_contains(stale_objects(rest, now), x, o);
        }
    }
}

/// The remote prune deletes exactly the objects that are not empty and
/// were last modified before the start of yesterday; every empty object and
/// every object from the start of yesterday on is kept.
pub proof fn lemma_prune_selects_exactly_stale(s: Seq<ObjectView>, now: Timestamp)
    requires
        now.wf(),
        forall|i: int| 0 <= i < s.len() ==> (#[trigger] s[i]).last_modified.wf(),
    ensures
        forall|o: ObjectView|
            s.contains(o) ==> (stale_objects(s, now).contains(o) <==> (o.size > 0
                && o.last_modified.secs < cutoff_secs(now))),
        forall|o: ObjectView| #[trigger] stale_objects(s, now).contains(o) ==> s.contains(o),
{
    assert forall|o: ObjectView| s.contains(o) implies (stale_objects(s, now).contains(o) <==> (
    o.size > 0 && o.last_modified.secs < cutoff_secs(now))) by {
        let k = choose|k: int| 0 <= k < s.len() && s[k] == o;
        lemma_before_yesterday_is_before_cutoff(o.last_modified, now);
        lemma_stale_objects_contains(s, now, o);
    }
    assert forall|o: ObjectView| #[trigger] stale_objects(s, now).contains(o) implies s.contains(o) by {
        lemma_stale_objects_contains(s, now, o);
    }
}

proof fn lemma_readable_keeps(s: Seq<ListedObject>, i: int)
    requires
        0 <= i < s.len(),
        record_of(s[i]) is Some,
    ensures
        readable(s).contains(record_of(s[i])->0),
    decreases s.len(),
{
    let rest = s.drop_last();
    if i == s.len() - 1 {
        let r = readable(s);
        assert(r[r.len() - 1] == record_of(s[i])->0);
    } else {
        assert(rest[i] == s[i]);
        lemma_readable_keeps(rest, i);
        let x = record_of(s[i])->0;
        let k = choose|k: int| 0 <= k < readable(rest).len() && readable(rest)[k] == x;
        match record_of(s.last()) {
            Some(v) => {
                assert(readable(s)[k] == x);
            },
            None => {},
        }
    }
}

/// An upload can be listed again: where the backend's listing holds the
/// object that an upload of `name` under `prefix` wrote, with a readable
/// time, the canonical listing holds a record of it, whose key starts with
/// the prefix and ends with the file name and whose size is the object's.
pub proof fn lemma_uploaded_file_is_listed(
    prefix: Seq<char>,
    name: Seq<char>,
    entries: Seq<ListedObject>,
    i: int,
    listing: Seq<ObjectView>,
)
    requires
        0 <= i < entries.len(),
        entries[i].key@ == key_under(prefix, name),
        rfc3339_instant(entries[i].last_modified@) is Some,
        listing.to_multiset() == readable(entries).to_multiset(),
    ensures
        exists|o: ObjectView|
            #![trigger listing.contains(o)]
            listing.contains(o) && o.key == key_under(prefix, name) && o.size == entries[i].size,
        key_under(prefix, name).subrange(0, prefix.len() as int) == prefix,
        key_under(prefix, name).subrange(
            key_under(prefix, name).len() - name.len(),
            key_under(prefix, name).len() as int,
        ) == name,
{
    lemma_key_under_prefix(prefix, name);
    lemma_readable_keeps(entries, i);
    let o = record_of(entries[i])->0;
    vstd::seq_lib::to_multiset_contains(readable(entries), o);
    vstd::seq_lib::to_multiset_contains(listing, o);
    assert(listing.contains(o));
}

/// The local backend: archives are files of one base directory.
#[derive(Debug)]
pub struct LocalStorage {
    pub base_path: String,
}

impl LocalStorage {
    /// The file that `key` names under the base directory.
    pub fn target_path(&self, key: &str) -> (r: String)
        ensures
            r@ == joined(self.base_path@, key@),
    {
        join_path(self.base_path.as_str(), key)
    }

    /// A delete goes ahead only for a file that exists: unlike the remote
    /// backends, the local one reports a missing key as a storage error.
    pub fn check_delete(path: String, exists: bool) -> (r: Result<String, BackupError>)
        ensures
            exists ==> (r matches Ok(p) && p@ == path@),
            !exists ==> (r matches Err(BackupError::StorageError(m)) && m@ == "File not found: "@
                + path@),
    {
        if exists {
            Ok(path)
        } else {
            let mut m = String::from_str("File not found: ");
            m.append(path.as_str());
            Err(BackupError::StorageError(m))
        }
    }
}

} // verus!
