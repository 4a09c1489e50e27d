//! Reconciliation of a target directory with a resolved set of artifacts.
//!
//! The decisions are made here, over a listing of the directory; the caller
//! carries out the moves and deletions the plan names.

use vstd::prelude::*;
use crate::filters::strings_view;
use crate::resolve::DownloadData;

verus! {

/// A file to be copied into place rather than downloaded: `from` is already on
/// disk, and goes to the file `to_name` in the directory `to_dir`, relative to
/// the game directory.
pub struct InstallData {
    pub from: String,
    pub to_dir: String,
    pub to_name: String,
}

/// One entry of a directory listing.
pub struct DirEntry {
    pub name: String,
    pub is_file: bool,
}

/// What reconciliation does with a file of the target directory.
#[derive(Clone, Copy, Debug, PartialEq, Eq, Structural)]
pub enum Fate {
    /// The file stays: it is not a regular file, or it is one of the artifacts wanted.
    Untouched,
    /// The file is moved into the `.old` backup directory (and deleted if that fails).
    Archived,
    /// The file is deleted.
    Deleted,
}

/// The filesystem work a reconciliation calls for, in listing order.
pub struct CleanupPlan {
    /// Filenames of artifacts dropped because an earlier one has the same filename.
    pub evicted: Vec<String>,
    pub archive: Vec<String>,
    pub delete: Vec<String>,
}

/// No entry before `j` has the filename of entry `j`.
pub open spec fn first_with_filename(s: Seq<DownloadData>, j: int) -> bool {
    forall|k: int| 0 <= k < j ==> #[trigger] s[k].filename@ != s[j].filename@
}

/// The artifacts left once every later duplicate of a filename is dropped.
pub open spec fn dedup_by_filename(s: Seq<DownloadData>) -> Seq<DownloadData>
    decreases s.len(),
{
    if s.len() == 0 {
        Seq::empty()
    } else {
        let p = dedup_by_filename(s.drop_last());
        if first_with_filename(s, s.len() - 1) {
            p.push(s.last())
        } else {
            p
        }
    }
}

/// The filenames of the dropped duplicates, in order.
pub open spec fn evicted_filenames(s: Seq<DownloadData>) -> Seq<Seq<char>>
    decreases s.len(),
{
    if s.len() == 0 {
        Seq::empty()
    } else {
        let p = evicted_filenames(s.drop_last());
        if first_with_filename(s, s.len() - 1) {
            p
        } else {
            p.push(s.last().filename@)
        }
    }
}

pub open spec fn has_filename(s: Seq<DownloadData>, name: Seq<char>) -> bool {
    exists|i: int| 0 <= i < s.len() && #[trigger] s[i].filename@ == name
}

pub open spec fn has_target(s: Seq<InstallData>, name: Seq<char>) -> bool {
    exists|i: int| 0 <= i < s.len() && #[trigger] s[i].to_name@ == name
}

/// A partial download: the name ends in `part`.
pub open spec fn ends_in_part(n: Seq<char>) -> bool {
    &&& n.len() >= 4
    &&& n[n.len() - 4] == 'p'
    &&& n[n.len() - 3] == 'a'
    &&& n[n.len() - 2] == 'r'
    &&& n[n.len() - 1] == 't'
}

pub open spec fn fate(e: DirEntry, downloads: Seq<DownloadData>, installs: Seq<InstallData>, back_up: bool) -> Fate {
    if !e.is_file || has_filename(downloads, e.name@) || has_target(installs, e.name@) {
        Fate::Untouched
    } else if ends_in_part(e.name@) || !back_up {
        Fate::Deleted
    } else {
        Fate::Archived
    }
}

/// The names of the entries whose fate is `f`, in listing order.
pub open spec fn names_with_fate(
    entries: Seq<DirEntry>,
    downloads: Seq<DownloadData>,
    installs: Seq<InstallData>,
    back_up: bool,
    f: Fate,
) -> Seq<Seq<char>>
    decreases entries.len(),
{
    if entries.len() == 0 {
        Seq::empty()
    } else {
        let p = names_with_fate(entries.drop_last(), downloads, installs, back_up, f);
        if fate(entries.last(), downloads, installs, back_up) == f {
            p.push(entries.last().name@)
        } else {
            p
        }
    }
}

/// The names of the regular files of a listing.
pub open spec fn file_names(entries: Seq<DirEntry>) -> Set<Seq<char>> {
    Set::new(|n: Seq<char>| exists|i: int| 0 <= i < entries.len() && #[trigger] entries[i].is_file && entries[i].name@ == n)
}

/// The names of the regular files that no artifact of `downloads` accounts for.
pub open spec fn unclaimed_files(entries: Seq<DirEntry>, downloads: Seq<DownloadData>) -> Set<Seq<char>> {
    Set::new(|n: Seq<char>| file_names(entries).contains(n) && !has_filename(downloads, n))
}

/// The artifacts whose filename is not among `present`.
pub open spec fn absent_downloads(s: Seq<DownloadData>, present: Set<Seq<char>>) -> Seq<DownloadData>
    decreases s.len(),
{
    if s.len() == 0 {
        Seq::empty()
    } else {
        let p = absent_downloads(s.drop_last(), present);
        if present.contains(s.last().filename@) {
            p
        } else {
            p.push(s.last())
        }
    }
}

/// No entry before `j` has the target name of entry `j`.
pub open spec fn first_with_target(s: Seq<InstallData>, j: int) -> bool {
    forall|k: int| 0 <= k < j ==> #[trigger] s[k].to_name@ != s[j].to_name@
}

/// The placements left once, for each name in `placed`, the first placement
/// with that target name is dropped.
pub open spec fn remaining_installs(s: Seq<InstallData>, placed: Set<Seq<char>>) -> Seq<InstallData>
    decreases s.len(),
{
    if s.len() == 0 {
        Seq::empty()
    } else {
        let p = remaining_installs(s.drop_last(), placed);
        if placed.contains(s.last().to_name@) && first_with_target(s, s.len() - 1) {
            p
        } else {
            p.push(s.last())
        }
    }
}

fn has_filename_exec(s: &Vec<DownloadData>, name: &String) -> (r: bool)
    ensures
        r == has_filename(s@, name@),
{
    let mut i: usize = 0;
    while i < s.len()
        invariant
            i <= s.len(),
            forall|k: int| 0 <= k < i ==> #[trigger] s@[k].filename@ != name@,
        decreases s.len() - i,
    {
        if s[i].filename == *name {
            return true;
        }
        i = i + 1;
    }
    false
}

fn has_target_exec(s: &Vec<InstallData>, name: &String) -> (r: bool)
    ensures
        r == has_target(s@, name@),
{
    let mut i: usize = 0;
    while i < s.len()
        invariant
            i <= s.len(),
            forall|k: int| 0 <= k < i ==> #[trigger] s@[k].to_name@ != name@,
        decreases s.len() - i,
    {
        if s[i].to_name == *name {
            return true;
        }
        i = i + 1;
    }
    false
}

fn contains_string(s: &Vec<String>, name: &String) -> (r: bool)
    ensures
        r == strings_view(s@).contains(name@),
{
    let mut i: usize = 0;
    while i < s.len()
        invariant
            i <= s.len(),
            forall|k: int| 0 <= k < i ==> #[trigger] s@[k]@ != name@,
        decreases s.len() - i,
    {
        if s[i] == *name {
            assert(strings_view(s@)[i as int] == name@);
            return true;
        }
        i = i + 1;
    }
    proof {
        if strings_view(s@).contains(name@) {
            let k = choose|k: int| 0 <= k < strings_view(s@).len() && strings_view(s@)[k] == name@;
            assert(s@[k]@ == name@);
        }
    }
    false
}

/// Returns whether `name` ends in `part`, the mark of an unfinished download.
pub fn is_partial(name: &String) -> (r: bool)
    ensures
        r == ends_in_part(name@),
{
    let n = name.as_str().unicode_len();
    if n < 4 {
        return false;
    }
    let s = name.as_str();
    s.get_char(n - 4) == 'p' && s.get_char(n - 3) == 'a' && s.get_char(n - 2) == 'r' && s.get_char(n - 1) == 't'
}

/// Drops every artifact whose filename an earlier one already has, keeping the
/// first of each filename and the order of those kept; returns the filenames
/// of those dropped.
pub fn evict_duplicates(to_download: &mut Vec<DownloadData>) -> (evicted: Vec<String>)
    ensures
        final(to_download)@ == dedup_by_filename(old(to_download)@),
        strings_view(evicted@) == evicted_filenames(old(to_download)@),
{
    let ghost all = to_download@;
    let mut rest: Vec<DownloadData> = Vec::new();
    std::mem::swap(to_download, &mut rest);
    let mut seen: Vec<String> = Vec::new();
    let mut evicted: Vec<String> = Vec::new();
    let ghost mut i: int = 0;
    while rest.len() > 0
        invariant
            0 <= i <= all.len(),
            rest@ == all.skip(i),
            to_download@ == dedup_by_filename(all.subrange(0, i)),
            strings_view(evicted@) == evicted_filenames(all.subrange(0, i)),
            strings_view(seen@) == all.subrange(0, i).map_values(|d: DownloadData| d.filename@),
        decreases rest.len(),
    {
        let d = rest.remove(0);
        assert(d == all[i]);
        let ghost prefix = all.subrange(0, i + 1);
        assert(prefix.drop_last() =~= all.subrange(0, i));
        let dup = contains_string(&seen, &d.filename);
        assert(dup == !first_with_filename(prefix, i)) by {
            let names = all.subrange(0, i).map_values(|d: DownloadData| d.filename@);
            if dup {
                let k = choose|k: int| 0 <= k < names.len() && names[k] == d.filename@;
                assert(prefix[k].filename@ == prefix[i].filename@);
            } else {
                assert forall|k: int| 0 <= k < i implies #[trigger] prefix[k].filename@ != prefix[i].filename@ by {
                    assert(names[k] == prefix[k].filename@);
                }
            }
        }
        let ghost old_seen = seen@;
        seen.push(d.filename.clone());
        assert(strings_view(seen@) =~= prefix.map_values(|d: DownloadData| d.filename@)) by {
            assert(strings_view(seen@) =~= strings_view(old_seen).push(d.filename@));
        }
        if dup {
            let ghost old_evicted = evicted@;
            evicted.push(d.filename);
            assert(strings_view(evicted@) =~= strings_view(old_evicted).push(all[i].filename@));
        } else {
            to_download.push(d);
        }
        proof {
            i = i + 1;
        }
        assert(rest@ =~= all.skip(i));
    }
    assert(all.subrange(0, i) =~= all);
    evicted
}

/// Decides what reconciling the directory listed in `entries` takes. Later
/// duplicates among `to_download` are evicted first. Then, for each regular
/// file: one that an artifact of `to_download` has as its filename stays, and
/// that artifact is dropped; otherwise one that a placement of `to_install`
/// has as its target stays, and the first such placement is dropped;
/// otherwise the file is deleted if it is a partial download or `back_up` is
/// off, and archived if not.
pub fn plan_cleanup(
    entries: &Vec<DirEntry>,
    to_download: &mut Vec<DownloadData>,
    to_install: &mut Vec<InstallData>,
    back_up: bool,
) -> (plan: CleanupPlan)
    ensures
        final(to_download)@ == absent_downloads(dedup_by_filename(old(to_download)@), file_names(entries@)),
        final(to_install)@ == remaining_installs(
            old(to_install)@,
            unclaimed_files(entries@, dedup_by_filename(old(to_download)@)),
        ),
        strings_view(plan.evicted@) == evicted_filenames(old(to_download)@),
        strings_view(plan.archive@) == names_with_fate(
            entries@,
            dedup_by_filename(old(to_download)@),
            old(to_install)@,
            back_up,
            Fate::Archived,
        ),
        strings_view(plan.delete@) == names_with_fate(
            entries@,
            dedup_by_filename(old(to_download)@),
            old(to_install)@,
            back_up,
            Fate::Deleted,
        ),
{
    let evicted = evict_duplicates(to_download);
    let ghost deduped = to_download@;
    let ghost installs = to_install@;
    let mut archive: Vec<String> = Vec::new();
    let mut delete: Vec<String> = Vec::new();
    let mut present: Vec<String> = Vec::new();
    let mut unclaimed: Vec<String> = Vec::new();
    let mut i: usize = 0;
    while i < entries.len()
        invariant
            i <= entries.len(),
            to_download@ == deduped,
            to_install@ == installs,
            strings_view(archive@) == names_with_fate(entries@.subrange(0, i as int), deduped, installs, back_up, Fate::Archived),
            strings_view(delete@) == names_with_fate(entries@.subrange(0, i as int), deduped, installs, back_up, Fate::Deleted),
            forall|n: Seq<char>| strings_view(present@).contains(n) <==> #[trigger] file_names(entries@.subrange(0, i as int)).contains(n),
            forall|n: Seq<char>| strings_view(unclaimed@).contains(n) <==> #[trigger] unclaimed_files(entries@.subrange(0, i as int), deduped).contains(n),
        decreases entries.len() - i,
    {
        let e = &entries[i];
        let ghost prefix = entries@.subrange(0, i + 1);
        assert(prefix.drop_last() =~= entries@.subrange(0, i as int));
        assert(prefix.last() == *e);
        let ghost old_archive = archive@;
        let ghost old_delete = delete@;
        let ghost old_present = present@;
        let ghost old_unclaimed = unclaimed@;
        if e.is_file {
            let claimed = has_filename_exec(to_download, &e.name);
            present.push(e.name.clone());
            if !claimed {
                unclaimed.push(e.name.clone());
            }
            if claimed || has_target_exec(to_install, &e.name) {
            } else if is_partial(&e.name) || !back_up {
                delete.push(e.name.clone());
            } else {
                archive.push(e.name.clone());
            }
        }
        proof {
            assert(strings_view(archive@) =~= names_with_fate(prefix, deduped, installs, back_up, Fate::Archived)) by {
                if archive@.len() > old_archive.len() {
                    assert(strings_view(archive@) =~= strings_view(old_archive).push(e.name@));
                } else {
                    assert(archive@ == old_archive);
                }
            }
            assert(strings_view(delete@) =~= names_with_fate(prefix, deduped, installs, back_up, Fate::Deleted)) by {
                if delete@.len() > old_delete.len() {
                    assert(strings_view(delete@) =~= strings_view(old_delete).push(e.name@));
                } else {
                    assert(delete@ == old_delete);
                }
            }
            assert forall|n: Seq<char>| strings_view(present@).contains(n) <==> #[trigger] file_names(prefix).contains(n) by {
                lemma_file_names_extend(entries@.subrange(0, i as int), prefix, n);
                if e.is_file {
                    assert(strings_view(present@) =~= strings_view(old_present).push(e.name@));
                    lemma_push_contains(strings_view(old_present), e.name@, n);
                } else {
                    assert(present@ == old_present);
                }
            }
            assert forall|n: Seq<char>| strings_view(unclaimed@).contains(n) <==> #[trigger] unclaimed_files(prefix, deduped).contains(n) by {
                lemma_file_names_extend(entries@.subrange(0, i as int), prefix, n);
                if e.is_file && !has_filename(deduped, e.name@) {
                    assert(strings_view(unclaimed@) =~= strings_view(old_unclaimed).push(e.name@));
                    lemma_push_contains(strings_view(old_unclaimed), e.name@, n);
                    assert(unclaimed_files(prefix, deduped).contains(n) <==> (unclaimed_files(entries@.subrange(0, i as int), deduped).contains(n) || n == e.name@));
                } else {
                    assert(unclaimed@ == old_unclaimed);
                    assert(unclaimed_files(prefix, deduped).contains(n) <==> unclaimed_files(entries@.subrange(0, i as int), deduped).contains(n));
                }
            }
        }
        i = i + 1;
    }
    assert(entries@.subrange(0, entries@.len() as int) =~= entries@);
    let ghost present_set = file_names(entries@);
    let ghost unclaimed_set = unclaimed_files(entries@, deduped);

    let mut rest: Vec<DownloadData> = Vec::new();
    std::mem::swap(to_download, &mut rest);
    let ghost mut j: int = 0;
    while rest.len() > 0
        invariant
            0 <= j <= deduped.len(),
            rest@ == deduped.skip(j),
            to_download@ == absent_downloads(deduped.subrange(0, j), present_set),
            forall|n: Seq<char>| strings_view(present@).contains(n) <==> #[trigger] present_set.contains(n),
        decreases rest.len(),
    {
        let d = rest.remove(0);
        assert(d == deduped[j]);
        assert(deduped.subrange(0, j + 1).drop_last() =~= deduped.subrange(0, j));
        if !contains_string(&present, &d.filename) {
            to_download.push(d);
        }
        proof {
            j = j + 1;
        }
        assert(rest@ =~= deduped.skip(j));
    }
    assert(deduped.subrange(0, j) =~= deduped);

    let mut pending: Vec<InstallData> = Vec::new();
    std::mem::swap(to_install, &mut pending);
    let mut targets: Vec<String> = Vec::new();
    let ghost mut k: int = 0;
    while pending.len() > 0
        invariant
            0 <= k <= installs.len(),
            pending@ == installs.skip(k),
            to_install@ == remaining_installs(installs.subrange(0, k), unclaimed_set),
            strings_view(targets@) == installs.subrange(0, k).map_values(|t: InstallData| t.to_name@),
            forall|n: Seq<char>| strings_view(unclaimed@).contains(n) <==> #[trigger] unclaimed_set.contains(n),
        decreases pending.len(),
    {
        let t = pending.remove(0);
        assert(t == installs[k]);
        let ghost prefix = installs.subrange(0, k + 1);
        assert(prefix.drop_last() =~= installs.subrange(0, k));
        let repeated = contains_string(&targets, &t.to_name);
        assert(repeated == !first_with_target(prefix, k)) by {
            let names = installs.subrange(0, k).map_values(|t: InstallData| t.to_name@);
            if repeated {
                let m = choose|m: int| 0 <= m < names.len() && names[m] == t.to_name@;
                assert(prefix[m].to_name@ == prefix[k].to_name@);
            } else {
                assert forall|m: int| 0 <= m < k implies #[trigger] prefix[m].to_name@ != prefix[k].to_name@ by {
                    assert(names[m] == prefix[m].to_name@);
                }
            }
        }
        let ghost old_targets = targets@;
        targets.push(t.to_name.clone());
        assert(strings_view(targets@) =~= prefix.map_values(|t: InstallData| t.to_name@)) by {
            assert(strings_view(targets@) =~= strings_view(old_targets).push(t.to_name@));
        }
        if repeated || !contains_string(&unclaimed, &t.to_name) {
            to_install.push(t);
        }
        proof {
            k = k + 1;
        }
        assert(pending@ =~= installs.skip(k));
    }
    assert(installs.subrange(0, k) =~= installs);
    CleanupPlan { evicted, archive, delete }
}

proof fn lemma_push_contains(s: Seq<Seq<char>>, x: Seq<char>, n: Seq<char>)
    ensures
        s.push(x).contains(n) <==> (s.contains(n) || n == x),
{
    if s.push(x).contains(n) {
        let i = choose|i: int| 0 <= i < s.push(x).len() && s.push(x)[i] == n;
        if i < s.len() {
            assert(s[i] == n);
        }
    }
    if s.contains(n) {
        let i = choose|i: int| 0 <= i < s.len() && s[i] == n;
        assert(s.push(x)[i] == n);
    }
    if n == x {
        assert(s.push(x)[s.len() as int] == n);
    }
}

proof fn lemma_file_names_extend(prefix: Seq<DirEntry>, longer: Seq<DirEntry>, n: Seq<char>)
    requires
        longer.len() == prefix.len() + 1,
        longer.drop_last() == prefix,
    ensures
        file_names(longer).contains(n) <==> (file_names(prefix).contains(n) || (longer.last().is_file
            && longer.last().name@ == n)),
{
    if file_names(longer).contains(n) {
        let i = choose|i: int| 0 <= i < longer.len() && #[trigger] longer[i].is_file && longer[i].name@ == n;
        if i < prefix.len() {
            assert(prefix[i] == longer[i]);
        }
    }
    if file_names(prefix).contains(n) {
        let i = choose|i: int| 0 <= i < prefix.len() && #[trigger] prefix[i].is_file && prefix[i].name@ == n;
        assert(prefix[i] == longer[i]);
    }
}

/// The entries that a reconciliation leaves in place, in listing order.
pub open spec fn untouched(entries: Seq<DirEntry>, downloads: Seq<DownloadData>, installs: Seq<InstallData>, back_up: bool) -> Seq<DirEntry>
    decreases entries.len(),
{
    if entries.len() == 0 {
        Seq::empty()
    } else {
        let p = untouched(entries.drop_last(), downloads, installs, back_up);
        if fate(entries.last(), downloads, installs, back_up) == Fate::Untouched {
            p.push(entries.last())
        } else {
            p
        }
    }
}

proof fn lemma_untouched_members(entries: Seq<DirEntry>, downloads: Seq<DownloadData>, installs: Seq<InstallData>, back_up: bool, e: DirEntry)
    ensures
        untouched(entries, downloads, installs, back_up).contains(e) <==> (entries.contains(e) && fate(e, downloads, installs, back_up) == Fate::Untouched),
    decreases entries.len(),
{
    if entries.len() > 0 {
        let p = entries.drop_last();
        lemma_untouched_members(p, downloads, installs, back_up, e);
        let u = untouched(p, downloads, installs, back_up);
        if fate(entries.last(), downloads, installs, back_up) == Fate::Untouched {
            lemma_push_contains_entry(u, entries.last(), e);
        }
        lemma_push_contains_entry(p, entries.last(), e);
        assert(p.push(entries.last()) =~= entries);
    }
}

proof fn lemma_push_contains_entry(s: Seq<DirEntry>, x: DirEntry, e: DirEntry)
    ensures
        s.push(x).contains(e) <==> (s.contains(e) || e == x),
{
    if s.push(x).contains(e) {
        let i = choose|i: int| 0 <= i < s.push(x).len() && s.push(x)[i] == e;
        if i < s.len() {
            assert(s[i] == e);
        }
    }
    if s.contains(e) {
        let i = choose|i: int| 0 <= i < s.len() && s[i] == e;
        assert(s.push(x)[i] == e);
    }
    if e == x {
        assert(s.push(x)[s.len() as int] == e);
    }
}

proof fn lemma_no_fate_among_untouched(entries: Seq<DirEntry>, downloads: Seq<DownloadData>, installs: Seq<InstallData>, back_up: bool, f: Fate)
    requires
        f != Fate::Untouched,
        forall|i: int| 0 <= i < entries.len() ==> fate(#[trigger] entries[i], downloads, installs, back_up) == Fate::Untouched,
    ensures
        names_with_fate(entries, downloads, installs, back_up, f).len() == 0,
    decreases entries.len(),
{
    if entries.len() > 0 {
        let p = entries.drop_last();
        assert forall|i: int| 0 <= i < p.len() implies fate(#[trigger] p[i], downloads, installs, back_up) == Fate::Untouched by {
            assert(p[i] == entries[i]);
        }
        lemma_no_fate_among_untouched(p, downloads, installs, back_up, f);
        assert(fate(entries[entries.len() - 1], downloads, installs, back_up) == Fate::Untouched);
    }
}

proof fn lemma_absent_agree(s: Seq<DownloadData>, x: Set<Seq<char>>, y: Set<Seq<char>>)
    requires
        forall|i: int| 0 <= i < s.len() ==> (x.contains(#[trigger] s[i].filename@) <==> y.contains(s[i].filename@)),
    ensures
        absent_downloads(s, x) == absent_downloads(s, y),
    decreases s.len(),
{
    if s.len() > 0 {
        let p = s.drop_last();
        assert forall|i: int| 0 <= i < p.len() implies (x.contains(#[trigger] p[i].filename@) <==> y.contains(p[i].filename@)) by {
            assert(p[i] == s[i]);
        }
        lemma_absent_agree(p, x, y);
        assert(x.contains(s[s.len() - 1].filename@) <==> y.contains(s[s.len() - 1].filename@));
    }
}

proof fn lemma_remaining_agree(s: Seq<InstallData>, x: Set<Seq<char>>, y: Set<Seq<char>>)
    requires
        forall|i: int| 0 <= i < s.len() ==> (x.contains(#[trigger] s[i].to_name@) <==> y.contains(s[i].to_name@)),
    ensures
        remaining_installs(s, x) == remaining_installs(s, y),
    decreases s.len(),
{
    if s.len() > 0 {
        let p = s.drop_last();
        assert forall|i: int| 0 <= i < p.len() implies (x.contains(#[trigger] p[i].to_name@) <==> y.contains(p[i].to_name@)) by {
            assert(p[i] == s[i]);
        }
        lemma_remaining_agree(p, x, y);
        assert(x.contains(s[s.len() - 1].to_name@) <==> y.contains(s[s.len() - 1].to_name@));
    }
}

proof fn lemma_file_in_untouched(entries: Seq<DirEntry>, downloads: Seq<DownloadData>, installs: Seq<InstallData>, back_up: bool, n: Seq<char>)
    requires
        has_filename(downloads, n) || has_target(installs, n),
    ensures
        file_names(untouched(entries, downloads, installs, back_up)).contains(n) <==> file_names(entries).contains(n),
{
    let u = untouched(entries, downloads, installs, back_up);
    if file_names(entries).contains(n) {
        let i = choose|i: int| 0 <= i < entries.len() && #[trigger] entries[i].is_file && entries[i].name@ == n;
        lemma_untouched_members(entries, downloads, installs, back_up, entries[i]);
        assert(entries.contains(entries[i]));
        let j = choose|j: int| 0 <= j < u.len() && u[j] == entries[i];
        assert(u[j].is_file && u[j].name@ == n);
    }
    if file_names(u).contains(n) {
        let j = choose|j: int| 0 <= j < u.len() && #[trigger] u[j].is_file && u[j].name@ == n;
        assert(u.contains(u[j]));
        lemma_untouched_members(entries, downloads, installs, back_up, u[j]);
        let i = choose|i: int| 0 <= i < entries.len() && entries[i] == u[j];
        assert(entries[i].is_file && entries[i].name@ == n);
    }
}

/// Reconciling is idempotent: once the files that a reconciliation archives or
/// deletes are gone, reconciling the directory again against the same resolved
/// set leaves the same artifacts and placements to fetch and touches no file.
pub proof fn lemma_reconcile_idempotent(entries: Seq<DirEntry>, downloads: Seq<DownloadData>, installs: Seq<InstallData>, back_up: bool)
    ensures
        ({
            let d = dedup_by_filename(downloads);
            let after = untouched(entries, d, installs, back_up);
            &&& absent_downloads(d, file_names(after)) == absent_downloads(d, file_names(entries))
            &&& remaining_installs(installs, unclaimed_files(after, d)) == remaining_installs(
                installs,
                unclaimed_files(entries, d),
            )
            &&& names_with_fate(after, d, installs, back_up, Fate::Archived).len() == 0
            &&& names_with_fate(after, d, installs, back_up, Fate::Deleted).len() == 0
        }),
{
    let d = dedup_by_filename(downloads);
    let after = untouched(entries, d, installs, back_up);
    assert forall|i: int| 0 <= i < d.len() implies (file_names(after).contains(#[trigger] d[i].filename@) <==> file_names(entries).contains(d[i].filename@)) by {
        assert(has_filename(d, d[i].filename@));
        lemma_file_in_untouched(entries, d, installs, back_up, d[i].filename@);
    }
    lemma_absent_agree(d, file_names(after), file_names(entries));
    assert forall|i: int| 0 <= i < installs.len() implies (unclaimed_files(after, d).contains(#[trigger] installs[i].to_name@) <==> unclaimed_files(entries, d).contains(installs[i].to_name@)) by {
        assert(has_target(installs, installs[i].to_name@));
        lemma_file_in_untouched(entries, d, installs, back_up, installs[i].to_name@);
    }
    lemma_remaining_agree(installs, unclaimed_files(after, d), unclaimed_files(entries, d));
    assert forall|i: int| 0 <= i < after.len() implies fate(#[trigger] after[i], d, installs, back_up) == Fate::Untouched by {
        assert(after.contains(after[i]));
        lemma_untouched_members(entries, d, installs, back_up, after[i]);
    }
    lemma_no_fate_among_untouched(after, d, installs, back_up, Fate::Archived);
    lemma_no_fate_among_untouched(after, d, installs, back_up, Fate::Deleted);
}

/// Duplicate eviction keeps, for each filename, the artifact with the lowest
/// index: every kept artifact is the first of its filename, every first one is
/// kept, and no two kept artifacts share a filename. The outcome is a function
/// of the input alone, so the same artifact goes on every run.
pub proof fn lemma_eviction_keeps_first(s: Seq<DownloadData>)
    ensures
        forall|m: int| 0 <= m < dedup_by_filename(s).len() ==> exists|j: int|
            0 <= j < s.len() && first_with_filename(s, j) && #[trigger] dedup_by_filename(s)[m] == s[j],
        forall|j: int| 0 <= j < s.len() && #[trigger] first_with_filename(s, j) ==> dedup_by_filename(s).contains(s[j]),
        forall|a: int, b: int|
            0 <= a < b < dedup_by_filename(s).len() ==> #[trigger] dedup_by_filename(s)[a].filename@
                != #[trigger] dedup_by_filename(s)[b].filename@,
    decreases s.len(),
{
    if s.len() > 0 {
        let p = s.drop_last();
        let last = s.len() - 1;
        lemma_eviction_keeps_first(p);
        let dp = dedup_by_filename(p);
        let ds = dedup_by_filename(s);
        assert forall|j: int| 0 <= j < p.len() implies #[trigger] first_with_filename(p, j) == first_with_filename(s, j) by {
            assert forall|k: int| 0 <= k < j implies p[k] == s[k] by {}
            assert(p[j] == s[j]);
        }
        assert forall|m: int| 0 <= m < ds.len() implies exists|j: int|
            0 <= j < s.len() && first_with_filename(s, j) && #[trigger] ds[m] == s[j] by {
            if m < dp.len() {
                assert(ds[m] == dp[m]);
                let j = choose|j: int| 0 <= j < p.len() && first_with_filename(p, j) && #[trigger] dp[m] == p[j];
                assert(p[j] == s[j]);
            } else {
                assert(ds[m] == s[last]);
            }
        }
        assert forall|j: int| 0 <= j < s.len() && #[trigger] first_with_filename(s, j) implies ds.contains(s[j]) by {
            if j < last {
                assert(first_with_filename(p, j));
                assert(p[j] == s[j]);
                let m = choose|m: int| 0 <= m < dp.len() && dp[m] == p[j];
                assert(ds[m] == dp[m]);
            } else {
                assert(ds[ds.len() - 1] == s[last]);
            }
        }
        assert forall|a: int, b: int| 0 <= a < b < ds.len() implies #[trigger] ds[a].filename@ != #[trigger] ds[b].filename@ by {
            if b < dp.len() {
                assert(ds[a] == dp[a] && ds[b] == dp[b]);
            } else {
                assert(ds[b] == s[last]);
                assert(ds[a] == dp[a]);
                let j = choose|j: int| 0 <= j < p.len() && first_with_filename(p, j) && #[trigger] dp[a] == p[j];
                assert(p[j] == s[j]);
                assert(s[j].filename@ != s[last].filename@);
            }
        }
    }
}

} // verus!
