//! Which disk the agent reports: the one mounted at `/data` (internal
//! storage on Android), else the one mounted at `/`, else the first one.
use vstd::prelude::*;

verus! {

/// What the agent reads of a disk: its mount point (`None` when the path is
/// not valid Unicode), its available space and its total space, in bytes.
pub type DiskEntry = (Option<Seq<char>>, u64, u64);

/// A disk as plain values.
pub struct DiskInfo {
    pub mount_point: Option<String>,
    pub available_space: u64,
    pub total_space: u64,
}

impl View for DiskInfo {
    type V = DiskEntry;

    open spec fn view(&self) -> DiskEntry {
        (
            match self.mount_point {
                Some(m) => Some(m@),
                None => None,
            },
            self.available_space,
            self.total_space,
        )
    }
}

#[verifier::external_type_specification]
#[verifier::external_body]
pub struct ExDisks(sysinfo::Disks);

#[verifier::external_type_specification]
#[verifier::external_body]
pub struct ExDisk(sysinfo::Disk);

/// The disks that a `sysinfo::Disks` list holds, in its order, each as a
/// `DiskEntry`.
pub uninterp spec fn disk_entries(disks: sysinfo::Disks) -> Seq<DiskEntry>;

/// The number of disks in the list: the length of the slice that
/// `sysinfo::Disks` dereferences to.
#[verifier::external_body]
fn disk_count(disks: &sysinfo::Disks) -> (n: usize)
    ensures
        n == disk_entries(*disks).len(),
{
    let list: &[sysinfo::Disk] = disks;
    list.len()
}

/// The disk at position `i` of the list, read with `Disk::mount_point`
/// (turned into a string by `Path::to_str`), `Disk::available_space` and
/// `Disk::total_space`.
#[verifier::external_body]
fn disk_at(disks: &sysinfo::Disks, i: usize) -> (d: DiskInfo)
    requires
        i < disk_entries(*disks).len(),
    ensures
        d@ == disk_entries(*disks)[i as int],
{
    let list: &[sysinfo::Disk] = disks;
    let disk = &list[i];
    let mount_point = match disk.mount_point().to_str() {
        Some(m) => Some(m.to_string()),
        None => None,
    };
    DiskInfo {
        mount_point,
        available_space: disk.available_space(),
        total_space: disk.total_space(),
    }
}

pub open spec fn data_mount() -> Seq<char> {
    seq!['/', 'd', 'a', 't', 'a']
}

pub open spec fn root_mount() -> Seq<char> {
    seq!['/']
}

/// The available and total space of the first disk mounted at `target`.
pub open spec fn mount_usage(s: Seq<DiskEntry>, target: Seq<char>) -> Option<(u64, u64)>
    decreases s.len(),
{
    if s.len() == 0 {
        None
    } else if s[0].0 == Some(target) {
        Some((s[0].1, s[0].2))
    } else {
        mount_usage(s.drop_first(), target)
    }
}

/// The available and total space that the agent reports for the disks `s`:
/// those of `/data`, else of `/`, else of the first disk, else nothing.
pub open spec fn disk_usage(s: Seq<DiskEntry>) -> (u64, u64) {
    match mount_usage(s, data_mount()) {
        Some(u) => u,
        None => match mount_usage(s, root_mount()) {
            Some(u) => u,
            None => if s.len() > 0 {
                (s[0].1, s[0].2)
            } else {
                (0, 0)
            },
        },
    }
}

pub open spec fn disk_views(disks: Seq<DiskInfo>) -> Seq<DiskEntry> {
    disks.map_values(|d: DiskInfo| d@)
}

fn find_mount(disks: &[DiskInfo], target: &String) -> (r: Option<(u64, u64)>)
    ensures
        r == mount_usage(disk_views(disks@), target@),
{
    let n = disks.len();
    let ghost views = disk_views(disks@);
    let mut i: usize = 0;
    assert(views.subrange(0, n as int) =~= views);
    while i < n
        invariant
            n == disks@.len(),
            i <= n,
            views == disk_views(disks@),
            mount_usage(views, target@) == mount_usage(views.subrange(i as int, n as int), target@),
        decreases n - i,
    {
        let d = &disks[i];
        assert(views.subrange(i as int, n as int)[0] == d@);
        match &d.mount_point {
            Some(m) => {
                if m.eq(target) {
                    return Some((d.available_space, d.total_space));
                }
            },
            None => {},
        }
        assert(views.subrange(i as int, n as int).drop_first() =~= views.subrange(
            i + 1,
            n as int,
        ));
        i = i + 1;
    }
    None
}

/// The available and total space to report for the disks `disks`.
pub fn pick_disk_usage(disks: &[DiskInfo]) -> (r: (u64, u64))
    ensures
        r == disk_usage(disk_views(disks@)),
{
    let data = String::from_str("/data");
    let root = String::from_str("/");
    proof {
        reveal_strlit("/data");
        reveal_strlit("/");
        assert(data@ =~= data_mount());
        assert(root@ =~= root_mount());
    }
    if let Some(u) = find_mount(disks, &data) {
        return u;
    }
    if let Some(u) = find_mount(disks, &root) {
        return u;
    }
    if disks.len() > 0 {
        return (disks[0].available_space, disks[0].total_space);
    }
    (0, 0)
}

/// The available and total space to report for the disks that `disks` lists.
pub fn disk_usage_from(disks: &sysinfo::Disks) -> (r: (u64, u64))
    ensures
        r == disk_usage(disk_entries(*disks)),
{
    let n = disk_count(disks);
    let mut infos: Vec<DiskInfo> = Vec::new();
    let mut i: usize = 0;
    while i < n
        invariant
            n == disk_entries(*disks).len(),
            i <= n,
            disk_views(infos@) =~= disk_entries(*disks).take(i as int),
        decreases n - i,
    {
        let d = disk_at(disks, i);
        let ghost before = infos@;
        infos.push(d);
        assert(infos@ =~= before.push(d));
        assert(disk_views(infos@) =~= disk_views(before).push(d@));
        assert(disk_entries(*disks).take(i + 1) =~= disk_entries(*disks).take(i as int).push(
            disk_entries(*disks)[i as int],
        ));
        i = i + 1;
    }
    assert(disk_entries(*disks).take(n as int) =~= disk_entries(*disks));
    pick_disk_usage(infos.as_slice())
}

proof fn lemma_mount_usage_at(s: Seq<DiskEntry>, target: Seq<char>, k: int)
    requires
        0 <= k < s.len(),
        s[k].0 == Some(target),
        forall|j: int| 0 <= j < k ==> s[j].0 != Some(target),
    ensures
        mount_usage(s, target) == Some((s[k].1, s[k].2)),
    decreases k,
{
    if k > 0 {
        lemma_mount_usage_at(s.drop_first(), target, k - 1);
    }
}

proof fn lemma_mount_usage_absent(s: Seq<DiskEntry>, target: Seq<char>)
    requires
        forall|j: int| 0 <= j < s.len() ==> s[j].0 != Some(target),
    ensures
        mount_usage(s, target) is None,
    decreases s.len(),
{
    if s.len() > 0 {
        lemma_mount_usage_absent(s.drop_first(), target);
    }
}

/// The disk mounted at `/data` is reported whenever there is one, whatever
/// else is mounted: the first of them, when there are several.
pub proof fn data_disk_is_preferred(s: Seq<DiskEntry>, k: int)
    requires
        0 <= k < s.len(),
        s[k].0 == Some(data_mount()),
        forall|j: int| 0 <= j < k ==> s[j].0 != Some(data_mount()),
    ensures
        disk_usage(s) == (s[k].1, s[k].2),
{
    lemma_mount_usage_at(s, data_mount(), k);
}

/// Without a disk mounted at `/data`, the first disk mounted at `/` is
/// reported.
pub proof fn root_disk_is_the_fallback(s: Seq<DiskEntry>, k: int)
    requires
        forall|j: int| 0 <= j < s.len() ==> s[j].0 != Some(data_mount()),
        0 <= k < s.len(),
        s[k].0 == Some(root_mount()),
        forall|j: int| 0 <= j < k ==> s[j].0 != Some(root_mount()),
    ensures
        disk_usage(s) == (s[k].1, s[k].2),
{
    lemma_mount_usage_absent(s, data_mount());
    lemma_mount_usage_at(s, root_mount(), k);
}

/// With no disk mounted at `/data` or at `/`, the first disk is reported, and
/// with no disk at all, nothing: zero available out of zero.
pub proof fn first_disk_otherwise(s: Seq<DiskEntry>)
    requires
        forall|j: int| 0 <= j < s.len() ==> s[j].0 != Some(data_mount()),
        forall|j: int| 0 <= j < s.len() ==> s[j].0 != Some(root_mount()),
    ensures
        s.len() > 0 ==> disk_usage(s) == (s[0].1, s[0].2),
        s.len() == 0 ==> disk_usage(s) == (0u64, 0u64),
{
    lemma_mount_usage_absent(s, data_mount());
    lemma_mount_usage_absent(s, root_mount());
}

} // verus!
