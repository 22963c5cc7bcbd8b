//! The rules of a backup: which files are copied, how backup folders are
//! named, which folders count as versions and which are removed.
use vstd::prelude::*;
use crate::error::{BackupError, BackupResult};
use crate::paths::{file_name, file_name_of};
use crate::clock::{lemma_stamp_order, stamp_text, LocalTime};
use crate::text::{
    views,
    append_str, ends_with, ends_with_spec, eq_ignore_ascii_case, eq_ignore_ascii_case_spec,
    starts_with, starts_with_spec, str_lt, text_lt,
};

verus! {

// ---------------------------------------------------------------------------
// Files that are never copied
// ---------------------------------------------------------------------------

/// A file name that is never copied: the folder metadata that Windows and
/// macOS leave behind (`Thumbs.db`, `desktop.ini`, `.DS_Store`, `Icon\r`),
/// compared without regard to ASCII case.
pub open spec fn is_skip_name(name: Seq<char>) -> bool {
    ||| eq_ignore_ascii_case_spec(name, "Thumbs.db"@)
    ||| eq_ignore_ascii_case_spec(name, "desktop.ini"@)
    ||| eq_ignore_ascii_case_spec(name, ".DS_Store"@)
    ||| eq_ignore_ascii_case_spec(name, "Icon\r"@)
}

/// Whether a file name is one that is never copied.
pub fn is_skip_file_name(name: &str) -> (r: bool)
    ensures
        r == is_skip_name(name@),
{
    eq_ignore_ascii_case(name, "Thumbs.db") || eq_ignore_ascii_case(name, "desktop.ini")
        || eq_ignore_ascii_case(name, ".DS_Store") || eq_ignore_ascii_case(name, "Icon\r")
}

/// A walked path that the backup leaves out, together with everything below it.
pub open spec fn is_skip_path(path: Seq<char>) -> bool {
    match file_name_of(path) {
        Some(name) => is_skip_name(name),
        None => false,
    }
}

/// Whether the backup leaves out `path` (and, for a folder, its contents):
/// true exactly when its final component is a skipped file name.
pub fn is_skip_entry(path: &str) -> (r: bool)
    ensures
        r == is_skip_path(path@),
{
    match file_name(path) {
        Some(name) => is_skip_file_name(name.as_str()),
        None => false,
    }
}

proof fn lemma_ignore_case_is_lowered_equality(a: Seq<char>, b: Seq<char>)
    ensures
        eq_ignore_ascii_case_spec(a, b) <==> crate::text::ascii_lowered(a)
            == crate::text::ascii_lowered(b),
{
    let la = crate::text::ascii_lowered(a);
    let lb = crate::text::ascii_lowered(b);
    if eq_ignore_ascii_case_spec(a, b) {
        assert(la =~= lb);
    }
    assert(la.len() == a.len());
    assert(lb.len() == b.len());
    if la == lb {
        assert(a.len() == b.len());
        assert forall|i: int| 0 <= i < a.len() implies #[trigger] crate::text::ascii_lower(a[i])
            == crate::text::ascii_lower(b[i]) by {
            assert(la[i] == crate::text::ascii_lower(a[i]));
            assert(lb[i] == crate::text::ascii_lower(b[i]));
        }
        assert(eq_ignore_ascii_case_spec(a, b));
    }
}

/// The names that are never copied are exactly `Thumbs.db`, `desktop.ini`,
/// `.DS_Store` and `Icon\r` in any ASCII case: a name is skipped exactly
/// when its ASCII lower-case form is `thumbs.db`, `desktop.ini`,
/// `.ds_store` or `icon\r`. Every other name (`.gitignore`, `notes.txt`, a
/// name that only contains one of these) is copied.
pub proof fn lemma_skipped_names(name: Seq<char>)
    ensures
        is_skip_name(name) <==> {
            let low = crate::text::ascii_lowered(name);
            ||| low == "thumbs.db"@
            ||| low == "desktop.ini"@
            ||| low == ".ds_store"@
            ||| low == "icon\r"@
        },
{
    reveal_strlit("Thumbs.db");
    reveal_strlit("desktop.ini");
    reveal_strlit(".DS_Store");
    reveal_strlit("Icon\r");
    reveal_strlit("thumbs.db");
    reveal_strlit(".ds_store");
    reveal_strlit("icon\r");
    lemma_ignore_case_is_lowered_equality(name, "Thumbs.db"@);
    lemma_ignore_case_is_lowered_equality(name, "desktop.ini"@);
    lemma_ignore_case_is_lowered_equality(name, ".DS_Store"@);
    lemma_ignore_case_is_lowered_equality(name, "Icon\r"@);
    assert(crate::text::ascii_lowered("Thumbs.db"@) =~= "thumbs.db"@);
    assert(crate::text::ascii_lowered("desktop.ini"@) =~= "desktop.ini"@);
    assert(crate::text::ascii_lowered(".DS_Store"@) =~= ".ds_store"@);
    assert(crate::text::ascii_lowered("Icon\r"@) =~= "icon\r"@);
}

// ---------------------------------------------------------------------------
// Names of backup folders
// ---------------------------------------------------------------------------

/// The folder name of the backup taken at `stamp`.
pub open spec fn backup_folder_name_spec(stamp: Seq<char>) -> Seq<char> {
    "backup_"@ + stamp
}

/// The folder a backup is written into before it is complete.
pub open spec fn temp_folder_name_spec(stamp: Seq<char>) -> Seq<char> {
    backup_folder_name_spec(stamp) + ".tmp"@
}

/// A folder name that counts as a finished backup version: it starts with
/// `backup_` and does not end with `.tmp`.
pub open spec fn is_version_name(name: Seq<char>) -> bool {
    starts_with_spec(name, "backup_"@) && !ends_with_spec(name, ".tmp"@)
}

/// `format!("backup_{}", stamp)`.
pub fn backup_folder_name(stamp: &str) -> (r: String)
    ensures
        r@ == backup_folder_name_spec(stamp@),
{
    let mut r = String::new();
    append_str(&mut r, "backup_");
    append_str(&mut r, stamp);
    r
}

/// `format!("backup_{}.tmp", stamp)`.
pub fn temp_folder_name(stamp: &str) -> (r: String)
    ensures
        r@ == temp_folder_name_spec(stamp@),
{
    let mut r = backup_folder_name(stamp);
    append_str(&mut r, ".tmp");
    r
}

/// Whether a folder name is that of a finished backup version.
pub fn is_version_folder_name(name: &str) -> (r: bool)
    ensures
        r == is_version_name(name@),
{
    starts_with(name, "backup_") && !ends_with(name, ".tmp")
}

/// A folder name counts as a version exactly when its first seven
/// characters are `backup_` and its last four are not `.tmp`: a folder that
/// merely contains `backup_` further on (`old_backup_photos`) is never a
/// version, so it is neither listed nor removed by a cleanup.
pub proof fn lemma_version_name_shape(name: Seq<char>)
    ensures
        is_version_name(name) <==> {
            &&& name.len() >= 7
            &&& name.subrange(0, 7) == "backup_"@
            &&& !(name.len() >= 4 && name.subrange(name.len() - 4, name.len() as int) == ".tmp"@)
        },
{
    reveal_strlit("backup_");
    reveal_strlit(".tmp");
}

/// A finished backup's folder counts as a version exactly when its stamp
/// does not itself end in `.tmp`; the folder of a backup in progress never
/// counts as one.
pub proof fn lemma_version_names(stamp: Seq<char>)
    ensures
        is_version_name(backup_folder_name_spec(stamp)) <==> !ends_with_spec(stamp, ".tmp"@),
        !is_version_name(temp_folder_name_spec(stamp)),
{
    reveal_strlit("backup_");
    reveal_strlit(".tmp");
    let b = backup_folder_name_spec(stamp);
    let t = temp_folder_name_spec(stamp);
    assert(b.subrange(0, 7) =~= "backup_"@);
    assert(t.subrange(0, 7) =~= "backup_"@);
    assert(t.subrange(t.len() - 4, t.len() as int) =~= ".tmp"@);
    if ends_with_spec(stamp, ".tmp"@) {
        assert(b.subrange(b.len() - 4, b.len() as int) =~= stamp.subrange(
            stamp.len() - 4,
            stamp.len() as int,
        ));
    }
    if ends_with_spec(b, ".tmp"@) {
        let tail = b.subrange(b.len() - 4, b.len() as int);
        assert(tail[0] == '.');
        if stamp.len() < 4 {
            assert(b[b.len() - 4] == "backup_"@[b.len() - 4]);
        } else {
            assert(tail =~= stamp.subrange(stamp.len() - 4, stamp.len() as int));
        }
    }
}

// ---------------------------------------------------------------------------
// Listing versions
// ---------------------------------------------------------------------------

/// An entry of the destination folder, as the directory listing gives it.
pub struct DirEntry {
    pub path: String,
    pub is_dir: bool,
}

/// A backup version: its folder and the folder's name.
pub struct VersionFolder {
    pub path: String,
    pub name: String,
}

/// A version folder taken by its path and name.
pub open spec fn folder_view(v: VersionFolder) -> (Seq<char>, Seq<char>) {
    (v.path@, v.name@)
}

/// The version folders taken by their paths and names.
pub open spec fn folder_views(s: Seq<VersionFolder>) -> Seq<(Seq<char>, Seq<char>)> {
    s.map_values(|v: VersionFolder| folder_view(v))
}

/// The folders among the entries that are backup versions, by path and
/// name, in listing order: folders whose name is a version name.
pub open spec fn version_folders(entries: Seq<DirEntry>) -> Seq<(Seq<char>, Seq<char>)>
    decreases entries.len(),
{
    if entries.len() == 0 {
        Seq::empty()
    } else {
        let rest = version_folders(entries.drop_last());
        let e = entries.last();
        if e.is_dir {
            match file_name_of(e.path@) {
                Some(n) => if is_version_name(n) {
                    rest.push((e.path@, n))
                } else {
                    rest
                },
                None => rest,
            }
        } else {
            rest
        }
    }
}

/// Names in newest-first order: none is before an earlier one in text
/// order (stamps sort by time, so this is newest first).
pub open spec fn newest_first(s: Seq<(Seq<char>, Seq<char>)>) -> bool {
    forall|i: int, j: int| 0 <= i < j < s.len() ==> !text_lt(s[i].1, s[j].1)
}

/// Inserts `x` into the newest-first list `v` after every version that is
/// not older than it.
fn insert_newest_first(v: &mut Vec<VersionFolder>, x: VersionFolder)
    requires
        newest_first(folder_views(old(v)@)),
    ensures
        newest_first(folder_views(final(v)@)),
        folder_views(final(v)@).to_multiset() == folder_views(old(v)@).to_multiset().insert(
            folder_view(x),
        ),
{
    let ghost before = folder_views(v@);
    let mut p: usize = 0;
    while p < v.len() && !str_lt(v[p].name.as_str(), x.name.as_str())
        invariant
            p <= v.len(),
            v@ == old(v)@,
            forall|k: int| 0 <= k < p ==> !text_lt(#[trigger] v@[k].name@, x.name@),
        decreases v.len() - p,
    {
        p = p + 1;
    }
    proof {
        assert forall|k: int| p <= k < v@.len() implies text_lt(#[trigger] v@[k].name@, x.name@) by {
            if k > p {
                assert(text_lt(v@[p as int].name@, x.name@));
                assert(before[p as int] == folder_view(v@[p as int]) && before[k] == folder_view(v@[k]));
                assert(!text_lt(before[p as int].1, before[k].1));
                assert(!text_lt(v@[p as int].name@, v@[k].name@));
                crate::text::lemma_text_lt_total(v@[p as int].name@, v@[k].name@);
                if v@[p as int].name@ != v@[k].name@ {
                    crate::text::lemma_text_lt_transitive(v@[k].name@, v@[p as int].name@, x.name@);
                }
            }
        }
    }
    let ghost xv = folder_view(x);
    v.insert(p, x);
    proof {
        let after = folder_views(v@);
        assert(after =~= before.insert(p as int, xv));
        assert forall|i: int, j: int| 0 <= i < j < after.len() implies !text_lt(after[i].1, after[j].1) by {
            if i < p && j == p {
            } else if i == p && j > p {
                crate::text::lemma_text_lt_total(xv.1, after[j].1);
            } else if i < p && j > p {
                assert(after[j] == before[j - 1]);
            } else if i > p {
                assert(after[i] == before[i - 1]);
                assert(after[j] == before[j - 1]);
            }
        }
        assert(after.remove(p as int) =~= before);
        broadcast use vstd::seq_lib::group_to_multiset_ensures;
        assert(after.to_multiset().remove(xv) =~= before.to_multiset());
        assert(after.to_multiset().count(xv) > 0);
        assert(after.to_multiset() =~= before.to_multiset().insert(xv));
    }
}

/// The backup versions among the entries of a destination folder, newest
/// first: the folders whose names start with `backup_` and do not end with
/// `.tmp`, ordered by name from last to first (the entries of one folder
/// share their parent, so this is the order of their paths).
pub fn select_versions(entries: &Vec<DirEntry>) -> (r: Vec<VersionFolder>)
    ensures
        newest_first(folder_views(r@)),
        folder_views(r@).to_multiset() == version_folders(entries@).to_multiset(),
{
    let mut r: Vec<VersionFolder> = Vec::new();
    let mut i: usize = 0;
    assert(entries@.subrange(0, 0) =~= Seq::<DirEntry>::empty());
    assert(folder_views(r@) =~= Seq::<(Seq<char>, Seq<char>)>::empty());
    while i < entries.len()
        invariant
            i <= entries.len(),
            newest_first(folder_views(r@)),
            folder_views(r@).to_multiset() == version_folders(entries@.subrange(0, i as int)).to_multiset(),
        decreases entries.len() - i,
    {
        let e = &entries[i];
        let ghost prefix = entries@.subrange(0, i + 1);
        assert(prefix.drop_last() =~= entries@.subrange(0, i as int));
        if e.is_dir {
            match file_name(e.path.as_str()) {
                Some(name) => {
                    if is_version_folder_name(name.as_str()) {
                        insert_newest_first(&mut r, VersionFolder { path: e.path.clone(), name });
                        proof {
                            broadcast use vstd::seq_lib::group_to_multiset_ensures;
                        }
                    }
                },
                None => {},
            }
        }
        i = i + 1;
    }
    assert(entries@.subrange(0, entries.len() as int) =~= entries@);
    r
}

// ---------------------------------------------------------------------------
// Removing old versions
// ---------------------------------------------------------------------------

/// The versions that a cleanup keeping `keep` versions removes: all after
/// the first `keep` of the newest-first list.
pub open spec fn excess_versions<T>(versions: Seq<T>, keep: nat) -> Seq<T> {
    if versions.len() <= keep {
        Seq::empty()
    } else {
        versions.subrange(keep as int, versions.len() as int)
    }
}

/// The paths of the versions to delete so that only the `keep` newest remain.
pub fn versions_to_delete(versions: &Vec<VersionFolder>, keep: usize) -> (r: Vec<String>)
    ensures
        views(r@) == excess_versions(folder_views(versions@), keep as nat).map_values(
            |v: (Seq<char>, Seq<char>)| v.0,
        ),
{
    let mut r: Vec<String> = Vec::new();
    if versions.len() <= keep {
        assert(views(r@) =~= Seq::<Seq<char>>::empty());
        return r;
    }
    let mut i: usize = keep;
    while i < versions.len()
        invariant
            keep <= i <= versions.len(),
            views(r@) =~= folder_views(versions@).subrange(keep as int, i as int).map_values(
                |v: (Seq<char>, Seq<char>)| v.0,
            ),
        decreases versions.len() - i,
    {
        let ghost old_r = views(r@);
        r.push(versions[i].path.clone());
        assert(views(r@) =~= old_r.push(versions@[i as int].path@));
        i = i + 1;
    }
    r
}

/// A cleanup keeps exactly the `keep` newest versions: the versions kept,
/// followed by those removed, are the whole list, and no more than `keep`
/// are kept.
pub proof fn lemma_cleanup_keeps_newest<T>(versions: Seq<T>, keep: nat)
    ensures
        ({
            let kept = if versions.len() <= keep { versions } else { versions.subrange(0, keep as int) };
            &&& kept + excess_versions(versions, keep) =~= versions
            &&& kept.len() == if versions.len() <= keep { versions.len() } else { keep }
        }),
{
}

/// A cleanup removes the oldest versions: of two backups in the list, one
/// kept and one removed, the one kept was taken no earlier than the one
/// removed (for clock readings in the years 0 to 9999).
pub proof fn lemma_cleanup_removes_oldest(
    versions: Seq<(Seq<char>, Seq<char>)>,
    keep: nat,
    kept: int,
    removed: int,
    a: LocalTime,
    b: LocalTime,
)
    requires
        newest_first(versions),
        0 <= kept < keep,
        keep <= removed < versions.len(),
        versions[kept].1 == backup_folder_name_spec(stamp_text(a)),
        versions[removed].1 == backup_folder_name_spec(stamp_text(b)),
        a.valid() && b.valid(),
        0 <= a.year <= 9999 && 0 <= b.year <= 9999,
    ensures
        excess_versions(versions, keep).contains(versions[removed]),
        a.ordinal() >= b.ordinal(),
{
    assert(excess_versions(versions, keep)[removed - keep] == versions[removed]);
    assert(!text_lt(versions[kept].1, versions[removed].1));
    crate::text::lemma_text_lt_concat("backup_"@, stamp_text(a), "backup_"@, stamp_text(b));
    crate::text::lemma_text_lt_irreflexive("backup_"@);
    lemma_stamp_order(a, b);
}

// ---------------------------------------------------------------------------
// Room on the destination
// ---------------------------------------------------------------------------

/// Bytes in a mebibyte.
pub const MIB: u64 = 1048576;

/// The space check of a backup: an error carrying both sizes in MiB
/// (rounded down) exactly when the estimated size exceeds the free space.
pub fn check_space(estimated: u64, available: u64) -> (r: BackupResult<()>)
    ensures
        estimated <= available ==> r is Ok,
        estimated > available ==> (r matches Err(BackupError::InsufficientSpace { needed_mb, available_mb })
            && needed_mb == estimated / MIB && available_mb == available / MIB),
{
    let available_mb = available / MIB;
    let needed_mb = estimated / MIB;
    if estimated > available {
        return Err(BackupError::InsufficientSpace { needed_mb, available_mb });
    }
    Ok(())
}

} // verus!
