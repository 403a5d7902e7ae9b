//! Names of backup artifacts: dump files, archives and remote object keys.

use crate::text::{
    decimal, is_digit, lemma_padded, lemma_padded_injective, lemma_year_text_injective, padded, push_char, push_padded,
    push_year, year_text,
};
use crate::time::{utc_calendar, utc_now, CivilTime};
use vstd::prelude::*;

verus! {

/// `YYYYMMDD_HHMMSS`: the instant as chrono's `%Y%m%d_%H%M%S` writes it.
pub open spec fn stamp_text(t: CivilTime) -> Seq<char> {
    year_text(t.year as int) + padded(t.month as nat, 2) + padded(t.day as nat, 2) + seq!['_']
        + padded(t.hour as nat, 2) + padded(t.minute as nat, 2) + padded(t.second as nat, 2)
}

/// The dump file name `{database}_{stamp}.sql`.
pub open spec fn dump_name(database: Seq<char>, t: CivilTime) -> Seq<char> {
    database + seq!['_'] + stamp_text(t) + seq!['.', 's', 'q', 'l']
}

/// `name` under `dir`: an absolute name stands alone, an empty directory
/// adds nothing, and one separator is put between the two.
pub open spec fn joined(dir: Seq<char>, name: Seq<char>) -> Seq<char> {
    if name.len() > 0 && name[0] == '/' {
        name
    } else if dir.len() == 0 {
        name
    } else if dir.last() == '/' {
        dir + name
    } else {
        dir + seq!['/'] + name
    }
}

/// Index of the last `c` in `s`, or -1.
pub open spec fn last_index_of(s: Seq<char>, c: char) -> int
    decreases s.len(),
{
    if s.len() == 0 {
        -1
    } else if s.last() == c {
        s.len() - 1
    } else {
        last_index_of(s.drop_last(), c)
    }
}

/// The last path component has an extension: a dot that is not its first
/// character.
pub open spec fn has_extension(p: Seq<char>) -> bool {
    last_index_of(p, '.') > last_index_of(p, '/') + 1
}

/// The extension of the last path component (empty where it has none).
pub open spec fn extension(p: Seq<char>) -> Seq<char> {
    if has_extension(p) {
        p.subrange(last_index_of(p, '.') + 1, p.len() as int)
    } else {
        Seq::empty()
    }
}

/// The path with the extension of its last component set to `7z`.
pub open spec fn archive_of(p: Seq<char>) -> Seq<char> {
    if has_extension(p) {
        p.subrange(0, last_index_of(p, '.') + 1) + seq!['7', 'z']
    } else {
        p + seq!['.', '7', 'z']
    }
}

/// The remote key for a file name under a destination prefix.
pub open spec fn key_under(prefix: Seq<char>, name: Seq<char>) -> Seq<char> {
    if prefix.len() > 0 && prefix.last() == '/' {
        prefix + name
    } else {
        prefix + seq!['/'] + name
    }
}

/// The last component of a path: what follows the last `/`, where that is
/// a name (not empty, `.` or `..`).
pub open spec fn base_name(p: Seq<char>) -> Option<Seq<char>> {
    let b = p.subrange(last_index_of(p, '/') + 1, p.len() as int);
    if b.len() == 0 || b == seq!['.'] || b == seq!['.', '.'] {
        None
    } else {
        Some(b)
    }
}

proof fn lemma_last_index_bounds(s: Seq<char>, c: char)
    ensures
        -1 <= last_index_of(s, c) < s.len(),
        last_index_of(s, c) >= 0 ==> s[last_index_of(s, c)] == c,
        forall|j: int| last_index_of(s, c) < j < s.len() ==> s[j] != c,
    decreases s.len(),
{
    if s.len() > 0 && s.last() != c {
        lemma_last_index_bounds(s.drop_last(), c);
        assert forall|j: int| last_index_of(s, c) < j < s.len() implies s[j] != c by {
            if j < s.len() - 1 {
                assert(s.drop_last()[j] == s[j]);
            }
        }
    }
}

proof fn lemma_last_index_step(s: Seq<char>, c: char, i: int)
    requires
        0 <= i < s.len(),
    ensures
        last_index_of(s.subrange(0, i + 1), c) == if s[i] == c {
            i
        } else {
            last_index_of(s.subrange(0, i), c)
        },
{
    assert(s.subrange(0, i + 1).drop_last() =~= s.subrange(0, i));
}

proof fn lemma_two_digits(n: nat)
    requires
        n < 100,
    ensures
        padded(n, 2).len() == 2,
{
    if n >= 10 {
        assert(decimal(n / 10).len() == 1);
    }
}

proof fn lemma_stamp_len(t: CivilTime)
    requires
        t.wf(),
    ensures
        stamp_text(t).len() == year_text(t.year as int).len() + 11,
{
    lemma_two_digits(t.month as nat);
    lemma_two_digits(t.day as nat);
    lemma_two_digits(t.hour as nat);
    lemma_two_digits(t.minute as nat);
    lemma_two_digits(t.second as nat);
}

/// Dump names of one database are unique per second: two instants give
/// the same name exactly when all their calendar fields agree, so instants
/// a second or more apart never collide and two dumps in the same second do.
pub proof fn lemma_dump_name_unique_per_second(database: Seq<char>, t1: CivilTime, t2: CivilTime)
    requires
        t1.wf(),
        t2.wf(),
    ensures
        dump_name(database, t1) == dump_name(database, t2) <==> t1 == t2,
{
    if dump_name(database, t1) == dump_name(database, t2) {
        lemma_stamp_len(t1);
        lemma_stamp_len(t2);
        lemma_two_digits(t1.month as nat);
        lemma_two_digits(t1.day as nat);
        lemma_two_digits(t1.hour as nat);
        lemma_two_digits(t1.minute as nat);
        lemma_two_digits(t1.second as nat);
        lemma_two_digits(t2.month as nat);
        lemma_two_digits(t2.day as nat);
        lemma_two_digits(t2.hour as nat);
        lemma_two_digits(t2.minute as nat);
        lemma_two_digits(t2.second as nat);
        let n = dump_name(database, t1);
        let p: int = database.len() as int + 1;
        let y1 = year_text(t1.year as int);
        let y2 = year_text(t2.year as int);
        assert(dump_name(database, t1).len() == database.len() + 1 + stamp_text(t1).len() + 4);
        assert(dump_name(database, t2).len() == database.len() + 1 + stamp_text(t2).len() + 4);
        assert(y1.len() == y2.len());
        let e: int = p + y1.len() as int;
        assert(n.subrange(p, e) =~= y1);
        assert(dump_name(database, t2).subrange(p, e) =~= y2);
        lemma_year_text_injective(t1.year as int, t2.year as int);
        assert(n.subrange(e, e + 2) =~= padded(t1.month as nat, 2));
        assert(dump_name(database, t2).subrange(e, e + 2) =~= padded(t2.month as nat, 2));
        lemma_padded_injective(t1.month as nat, t2.month as nat, 2);
        assert(n.subrange(e + 2, e + 4) =~= padded(t1.day as nat, 2));
        assert(dump_name(database, t2).subrange(e + 2, e + 4) =~= padded(t2.day as nat, 2));
        lemma_padded_injective(t1.day as nat, t2.day as nat, 2);
        assert(n.subrange(e + 5, e + 7) =~= padded(t1.hour as nat, 2));
        assert(dump_name(database, t2).subrange(e + 5, e + 7) =~= padded(t2.hour as nat, 2));
        lemma_padded_injective(t1.hour as nat, t2.hour as nat, 2);
        assert(n.subrange(e + 7, e + 9) =~= padded(t1.minute as nat, 2));
        assert(dump_name(database, t2).subrange(e + 7, e + 9) =~= padded(t2.minute as nat, 2));
        lemma_padded_injective(t1.minute as nat, t2.minute as nat, 2);
        assert(n.subrange(e + 9, e + 11) =~= padded(t1.second as nat, 2));
        assert(dump_name(database, t2).subrange(e + 9, e + 11) =~= padded(t2.second as nat, 2));
        lemma_padded_injective(t1.second as nat, t2.second as nat, 2);
    }
}

/// The dump file name for `database_name` at calendar instant `at`.
pub fn dump_file_name(database_name: &str, at: &CivilTime) -> (r: String)
    ensures
        r@ == dump_name(database_name@, *at),
{
    let mut out = String::from_str(database_name);
    push_char(&mut out, '_');
    push_year(&mut out, at.year);
    push_padded(&mut out, at.month as u64, 2);
    push_padded(&mut out, at.day as u64, 2);
    push_char(&mut out, '_');
    push_padded(&mut out, at.hour as u64, 2);
    push_padded(&mut out, at.minute as u64, 2);
    push_padded(&mut out, at.second as u64, 2);
    push_char(&mut out, '.');
    push_char(&mut out, 's');
    push_char(&mut out, 'q');
    push_char(&mut out, 'l');
    assert(out@ =~= dump_name(database_name@, *at));
    out
}

/// `name` joined under `dir`, as a path.
pub fn join_path(dir: &str, name: &str) -> (r: String)
    ensures
        r@ == joined(dir@, name@),
{
    let name_len: usize = name.unicode_len();
    let dir_len: usize = dir.unicode_len();
    if name_len > 0 && name.get_char(0) == '/' {
        String::from_str(name)
    } else if dir_len == 0 {
        String::from_str(name)
    } else if dir.get_char(dir_len - 1) == '/' {
        let mut out = String::from_str(dir);
        out.append(name);
        out
    } else {
        let mut out = String::from_str(dir);
        push_char(&mut out, '/');
        out.append(name);
        assert(out@ =~= joined(dir@, name@));
        out
    }
}

/// The path of the dump of `database_name` taken at `at`, under `backup_dir`.
pub fn dump_path(backup_dir: &str, database_name: &str, at: &CivilTime) -> (r: String)
    ensures
        r@ == joined(backup_dir@, dump_name(database_name@, *at)),
{
    let name = dump_file_name(database_name, at);
    join_path(backup_dir, name.as_str())
}

/// The path of a dump of `database_name` taken now, under `backup_dir`;
/// the time is read from the system clock.
pub fn dump_path_now(backup_dir: &str, database_name: &str) -> (r: String)
    ensures
        exists|t: CivilTime| t.wf() && r@ == joined(backup_dir@, dump_name(database_name@, t)),
{
    let now = utc_now();
    let at = utc_calendar(&now);
    dump_path(backup_dir, database_name, &at)
}

/// The positions of the last `/` and the last `.` in `p`, or -1.
fn last_slash_and_dot(p: &str) -> (r: (i64, i64))
    requires
        p@.len() < 0x1_0000_0000,
    ensures
        r.0 == last_index_of(p@, '/'),
        r.1 == last_index_of(p@, '.'),
        -1 <= r.0 < p@.len(),
        -1 <= r.1 < p@.len(),
{
    proof {
        lemma_last_index_bounds(p@, '/');
        lemma_last_index_bounds(p@, '.');
    }
    let len: usize = p.unicode_len();
    let mut slash: i64 = -1;
    let mut dot: i64 = -1;
    let mut i: usize = 0;
    while i < len
        invariant
            len == p@.len(),
            len < 0x1_0000_0000,
            0 <= i <= len,
            slash == last_index_of(p@.subrange(0, i as int), '/'),
            dot == last_index_of(p@.subrange(0, i as int), '.'),
        decreases len - i,
    {
        proof {
            lemma_last_index_step(p@, '/', i as int);
            lemma_last_index_step(p@, '.', i as int);
        }
        let c = p.get_char(i);
        if c == '/' {
            slash = i as i64;
        } else if c == '.' {
            dot = i as i64;
        }
        i = i + 1;
    }
    assert(p@.subrange(0, len as int) =~= p@);
    (slash, dot)
}

/// The archive path for a dump: the dump path with the extension of its
/// last component replaced by `7z`, or `.7z` appended where it has none.
pub fn archive_path(dump_path: &str) -> (r: String)
    requires
        dump_path@.len() < 0x1_0000_0000,
    ensures
        r@ == archive_of(dump_path@),
{
    let (slash, dot) = last_slash_and_dot(dump_path);
    proof {
        lemma_last_index_bounds(dump_path@, '.');
        reveal_strlit("7z");
        reveal_strlit(".7z");
    }
    if dot > slash + 1 {
        let stem = dump_path.substring_char(0, (dot + 1) as usize);
        let mut out = String::from_str(stem);
        out.append("7z");
        assert(out@ =~= archive_of(dump_path@));
        out
    } else {
        let mut out = String::from_str(dump_path);
        out.append(".7z");
        assert(out@ =~= archive_of(dump_path@));
        out
    }
}

/// The archive path always ends in `.7z`, and it differs from the dump path
/// unless the dump's extension is already `7z`.
pub proof fn lemma_archive_replaces_extension(p: Seq<char>)
    ensures
        archive_of(p).len() >= 3,
        archive_of(p).subrange(archive_of(p).len() - 3, archive_of(p).len() as int) == seq![
            '.',
            '7',
            'z',
        ],
        extension(p) != seq!['7', 'z'] ==> archive_of(p) != p,
{
    lemma_last_index_bounds(p, '.');
    lemma_last_index_bounds(p, '/');
    let a = archive_of(p);
    assert(a.subrange(a.len() - 3, a.len() as int) =~= seq!['.', '7', 'z']);
    if has_extension(p) && a == p {
        let d = last_index_of(p, '.');
        assert(extension(p) =~= a.subrange(d + 1, a.len() as int));
        assert(extension(p) =~= seq!['7', 'z']);
    }
    if !has_extension(p) {
        assert(a.len() != p.len());
    }
}

proof fn lemma_sql_extension(p: Seq<char>)
    requires
        p.len() >= 5,
        p.subrange(p.len() - 4, p.len() as int) == seq!['.', 's', 'q', 'l'],
        p[p.len() - 5] != '/',
    ensures
        extension(p) == seq!['s', 'q', 'l'],
{
    let n: int = p.len() as int;
    assert(p[n - 4] == '.' && p[n - 3] == 's' && p[n - 2] == 'q' && p[n - 1] == 'l') by {
        assert(p.subrange(n - 4, n)[0] == p[n - 4]);
        assert(p.subrange(n - 4, n)[1] == p[n - 3]);
        assert(p.subrange(n - 4, n)[2] == p[n - 2]);
        assert(p.subrange(n - 4, n)[3] == p[n - 1]);
    }
    let p1 = p.drop_last();
    let p2 = p1.drop_last();
    let p3 = p2.drop_last();
    let p4 = p3.drop_last();
    assert(p1.last() == 'q');
    assert(p2.last() == 's');
    assert(p3.last() == '.');
    assert(last_index_of(p, '.') == last_index_of(p1, '.'));
    assert(last_index_of(p1, '.') == last_index_of(p2, '.'));
    assert(last_index_of(p2, '.') == last_index_of(p3, '.'));
    assert(last_index_of(p3, '.') == n - 4);
    assert(last_index_of(p, '/') == last_index_of(p1, '/'));
    assert(last_index_of(p1, '/') == last_index_of(p2, '/'));
    assert(last_index_of(p2, '/') == last_index_of(p3, '/'));
    assert(last_index_of(p3, '/') == last_index_of(p4, '/'));
    lemma_last_index_bounds(p4, '/');
    assert(p4.last() == p[n - 5]);
    assert(last_index_of(p4, '/') == last_index_of(p4.drop_last(), '/'));
    lemma_last_index_bounds(p4.drop_last(), '/');
    assert(has_extension(p));
    assert(extension(p) == p.subrange(n - 3, n));
    assert(p.subrange(n - 3, n) =~= seq!['s', 'q', 'l']);
}

proof fn lemma_dump_name_tail(database: Seq<char>, t: CivilTime)
    ensures
        dump_name(database, t).len() >= 5,
        is_digit(dump_name(database, t)[dump_name(database, t).len() - 5]),
        dump_name(database, t).subrange(
            dump_name(database, t).len() - 4,
            dump_name(database, t).len() as int,
        ) == seq!['.', 's', 'q', 'l'],
{
    let n = dump_name(database, t);
    let sec = padded(t.second as nat, 2);
    lemma_padded(t.second as nat, 2);
    let st = stamp_text(t);
    assert(st[st.len() - 1] == sec[sec.len() - 1]);
    assert(n[n.len() - 5] == st[st.len() - 1]);
    assert(n.subrange(n.len() - 4, n.len() as int) =~= seq!['.', 's', 'q', 'l']);
}

proof fn lemma_joined_suffix(dir: Seq<char>, name: Seq<char>, k: int)
    requires
        0 <= k <= name.len(),
    ensures
        joined(dir, name).len() >= name.len(),
        joined(dir, name).subrange(joined(dir, name).len() - k, joined(dir, name).len() as int)
            == name.subrange(name.len() - k, name.len() as int),
{
    let p = joined(dir, name);
    assert(p.subrange(p.len() - k, p.len() as int) =~= name.subrange(
        name.len() - k,
        name.len() as int,
    ));
}

/// The archive of a dump never overwrites it: the dump's extension is
/// `sql`, so its archive path is a different path.
pub proof fn lemma_archive_of_dump_differs(dir: Seq<char>, database: Seq<char>, t: CivilTime)
    ensures
        archive_of(joined(dir, dump_name(database, t))) != joined(dir, dump_name(database, t)),
{
    let n = dump_name(database, t);
    let p = joined(dir, n);
    lemma_dump_name_tail(database, t);
    lemma_joined_suffix(dir, n, 5);
    lemma_joined_suffix(dir, n, 4);
    assert(p[p.len() - 5] == p.subrange(p.len() - 5, p.len() as int)[0]);
    assert(n[n.len() - 5] == n.subrange(n.len() - 5, n.len() as int)[0]);
    lemma_sql_extension(p);
    lemma_archive_replaces_extension(p);
    assert(seq!['s', 'q', 'l'] != seq!['7', 'z']) by {
        assert(seq!['s', 'q', 'l'].len() != seq!['7', 'z'].len());
    }
}

/// The remote key for `file_name` under destination `prefix`: one `/` is
/// put between them where the prefix lacks a trailing one.
pub fn object_key(prefix: &str, file_name: &str) -> (r: String)
    ensures
        r@ == key_under(prefix@, file_name@),
{
    let len: usize = prefix.unicode_len();
    let mut out = String::from_str(prefix);
    if len > 0 && prefix.get_char(len - 1) == '/' {
        out.append(file_name);
    } else {
        push_char(&mut out, '/');
        out.append(file_name);
        assert(out@ =~= key_under(prefix@, file_name@));
    }
    out
}

/// The last component of `path`, or `None` where it names no file.
pub fn file_name_of(path: &str) -> (r: Option<String>)
    requires
        path@.len() < 0x1_0000_0000,
    ensures
        r matches Some(n) ==> base_name(path@) == Some(n@),
        r is None ==> base_name(path@) is None,
{
    let (slash, _dot) = last_slash_and_dot(path);
    proof {
        lemma_last_index_bounds(path@, '/');
    }
    let len: usize = path.unicode_len();
    let start: usize = (slash + 1) as usize;
    let b = path.substring_char(start, len);
    let blen: usize = b.unicode_len();
    if blen == 0 {
        None
    } else if blen == 1 && b.get_char(0) == '.' {
        assert(b@ =~= seq!['.']);
        None
    } else if blen == 2 && b.get_char(0) == '.' && b.get_char(1) == '.' {
        assert(b@ =~= seq!['.', '.']);
        None
    } else {
        assert(b@ != seq!['.']);
        assert(b@ != seq!['.', '.']);
        Some(String::from_str(b))
    }
}

/// The key an upload of `path` writes under `prefix`, or `None` where the
/// path names no file.
pub fn upload_key(path: &str, prefix: &str) -> (r: Option<String>)
    requires
        path@.len() < 0x1_0000_0000,
    ensures
        r matches Some(k) ==> base_name(path@) matches Some(b) && k@ == key_under(prefix@, b),
        r is None ==> base_name(path@) is None,
{
    match file_name_of(path) {
        Some(name) => Some(object_key(prefix, name.as_str())),
        None => None,
    }
}

/// An uploaded file can be found again: its key starts with the destination
/// prefix, so a listing of that prefix reaches it, and ends with the file's
/// base name.
pub proof fn lemma_key_under_prefix(prefix: Seq<char>, name: Seq<char>)
    ensures
        key_under(prefix, name).len() >= prefix.len() + name.len(),
        key_under(prefix, name).subrange(0, prefix.len() as int) == prefix,
        key_under(prefix, name).subrange(
            key_under(prefix, name).len() - name.len(),
            key_under(prefix, name).len() as int,
        ) == name,
{
    let k = key_under(prefix, name);
    assert(k.subrange(0, prefix.len() as int) =~= prefix);
    assert(k.subrange(k.len() - name.len(), k.len() as int) =~= name);
}

} // verus!
