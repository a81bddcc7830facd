//! The local artifact cache: where each artifact lives, when a download is
//! needed and which entries a cleanup sweep removes.
//!
//! The cache is a base directory with three partitions. An artifact is
//! present when its path exists; nothing else is checked.
//!
//! Paths are joined as directories are: a name goes behind the directory
//! with one slash between them, and with none where the directory is empty
//! or ends in a slash already. An entry always lies below the directory of
//! its partition, also where its key begins with a slash.

use crate::text::{after_last, joined};
use crate::time::{longer_than, Span};
use vstd::prelude::*;
use vstd::string::*;

verus! {

/// One of the three partitions of the cache.
#[derive(Clone, Copy, Debug, PartialEq, Eq, Structural)]
pub enum Partition {
    /// Model inputs, keyed by content identifier.
    Models,
    /// Dataset inputs, keyed by content identifier or by file name.
    Datasets,
    /// Task outputs, keyed by task identifier.
    Outputs,
}

/// The directory name of a partition.
pub open spec fn partition_name(p: Partition) -> Seq<char> {
    match p {
        Partition::Models => "models"@,
        Partition::Datasets => "datasets"@,
        Partition::Outputs => "outputs"@,
    }
}

/// The path of `name` in the directory `base`: `name` behind `base`, with
/// a slash between them unless `base` is empty or ends in one. In an empty
/// `base`, the working directory, the path is `name` alone.
pub open spec fn below(base: Seq<char>, name: Seq<char>) -> Seq<char> {
    if base.len() == 0 || base.last() == '/' {
        base + name
    } else {
        base + seq!['/'] + name
    }
}

/// The directory of partition `p` below `root`.
pub open spec fn partition_dir(root: Seq<char>, p: Partition) -> Seq<char> {
    below(root, partition_name(p))
}

/// The path of the entry `key` of partition `p` below `root`: the key in
/// the directory of the partition. The key is taken as it is; one that
/// begins with a slash names an entry below the partition all the same.
pub open spec fn entry_path(root: Seq<char>, p: Partition, key: Seq<char>) -> Seq<char> {
    below(partition_dir(root, p), key)
}

/// The directory of a partition ends in the name of the partition: it is
/// not empty and does not end in a slash.
pub proof fn lemma_partition_dir(root: Seq<char>, p: Partition)
    ensures
        partition_dir(root, p).len() >= partition_name(p).len() > 0,
        partition_dir(root, p).last() != '/',
        partition_dir(root, p).len() == root.len() + partition_name(p).len() + (if root.len() == 0
            || root.last() == '/' {
            0int
        } else {
            1int
        }),
{
    reveal_strlit("models");
    reveal_strlit("datasets");
    reveal_strlit("outputs");
}

/// `after_last` of text that ends in a piece without a separator, right
/// behind a separator, is that piece.
proof fn lemma_after_last_of_tail(front: Seq<char>, tail: Seq<char>, sep: char)
    requires
        !tail.contains(sep),
    ensures
        after_last(front.push(sep) + tail, sep) == tail,
    decreases tail.len(),
{
    let whole = front.push(sep) + tail;
    if tail.len() == 0 {
        assert(whole =~= front.push(sep));
        assert(after_last(whole, sep) =~= tail);
    } else {
        let init = tail.drop_last();
        assert(tail.contains(tail.last()));
        assert(!init.contains(sep)) by {
            if init.contains(sep) {
                let i = choose|i: int| 0 <= i < init.len() && init[i] == sep;
                assert(tail[i] == sep);
            }
        }
        lemma_after_last_of_tail(front, init, sep);
        assert(whole.drop_last() =~= front.push(sep) + init);
        assert(whole.last() == tail.last());
        assert(init.push(tail.last()) =~= tail);
    }
}

/// The path of an entry is the directory of its partition, a slash and
/// the key. Where the key holds no slash the path ends in that key: the
/// entry lies directly in the directory of its partition.
pub proof fn lemma_entry_lies_in_partition(root: Seq<char>, p: Partition, key: Seq<char>)
    ensures
        entry_path(root, p, key) == partition_dir(root, p) + seq!['/'] + key,
        !key.contains('/') ==> after_last(entry_path(root, p, key), '/') == key,
{
    lemma_partition_dir(root, p);
    if !key.contains('/') {
        lemma_after_last_of_tail(partition_dir(root, p), key, '/');
        assert(partition_dir(root, p).push('/') =~= partition_dir(root, p) + seq!['/']);
    }
}

/// The partitions are disjoint: entries of two partitions whose keys hold
/// no slash lie at different paths.
pub proof fn lemma_partitions_are_disjoint(
    root: Seq<char>,
    p: Partition,
    key: Seq<char>,
    q: Partition,
    other: Seq<char>,
)
    requires
        p != q,
        !key.contains('/'),
        !other.contains('/'),
    ensures
        entry_path(root, p, key) != entry_path(root, q, other),
{
    lemma_entry_lies_in_partition(root, p, key);
    lemma_entry_lies_in_partition(root, q, other);
    lemma_partition_dir(root, p);
    lemma_partition_dir(root, q);
    reveal_strlit("models");
    reveal_strlit("datasets");
    reveal_strlit("outputs");
    if entry_path(root, p, key) == entry_path(root, q, other) {
        assert(key == other);
        assert(entry_path(root, p, key).len() == partition_dir(root, p).len() + 1 + key.len());
        assert(entry_path(root, q, other).len() == partition_dir(root, q).len() + 1
            + other.len());
    }
}

/// The cache rooted at one base directory.
pub struct CacheManager {
    cache_dir: String,
}

impl View for CacheManager {
    type V = Seq<char>;

    /// The base directory.
    closed spec fn view(&self) -> Seq<char> {
        self.cache_dir@
    }
}

/// The path of `name` in the directory `base`.
pub fn path_below(base: &str, name: &str) -> (r: String)
    ensures
        r@ == below(base@, name@),
{
    let len = base.unicode_len();
    if len == 0 || base.get_char(len - 1) == '/' {
        joined(base, name)
    } else {
        proof {
            reveal_strlit("/");
        }
        let mut r = joined(base, "/");
        r.append(name);
        assert(r@ =~= base@ + seq!['/'] + name@);
        r
    }
}

impl Partition {
    /// The directory name of this partition.
    pub fn name(self) -> (r: &'static str)
        ensures
            r@ == partition_name(self),
    {
        match self {
            Partition::Models => "models",
            Partition::Datasets => "datasets",
            Partition::Outputs => "outputs",
        }
    }
}

impl CacheManager {
    /// A cache below `cache_dir`.
    pub fn new(cache_dir: String) -> (r: Self)
        ensures
            r@ == cache_dir@,
    {
        CacheManager { cache_dir }
    }

    /// The base directory.
    pub fn cache_dir(&self) -> (r: &str)
        ensures
            r@ == self@,
    {
        self.cache_dir.as_str()
    }

    /// The directory of partition `p`.
    pub fn partition_path(&self, p: Partition) -> (r: String)
        ensures
            r@ == partition_dir(self@, p),
    {
        path_below(self.cache_dir.as_str(), p.name())
    }

    /// The path of entry `key` in partition `p`.
    pub fn path_in(&self, p: Partition, key: &str) -> (r: String)
        ensures
            r@ == entry_path(self@, p, key@),
    {
        path_below(self.partition_path(p).as_str(), key)
    }

    /// Where the model with content identifier `cid` is cached.
    pub fn model_path(&self, cid: &str) -> (r: String)
        ensures
            r@ == entry_path(self@, Partition::Models, cid@),
    {
        self.path_in(Partition::Models, cid)
    }

    /// Where the dataset with content identifier or file name `cid` is
    /// cached.
    pub fn dataset_path(&self, cid: &str) -> (r: String)
        ensures
            r@ == entry_path(self@, Partition::Datasets, cid@),
    {
        self.path_in(Partition::Datasets, cid)
    }

    /// The output directory of the task `task_id`.
    pub fn output_path(&self, task_id: &str) -> (r: String)
        ensures
            r@ == entry_path(self@, Partition::Outputs, task_id@),
    {
        self.path_in(Partition::Outputs, task_id)
    }
}

/// An entry found directly below a partition directory.
#[derive(Debug)]
pub struct CacheEntry {
    /// Path of the entry.
    pub path: String,
    /// Whether the entry is a directory.
    pub is_dir: bool,
    /// Time since the last modification; `None` where the filesystem does
    /// not tell it or the modification time lies in the future.
    pub age: Option<Span>,
}

/// One removal that a cleanup sweep asks for.
#[derive(Debug)]
pub struct Removal {
    /// Path to remove.
    pub path: String,
    /// Whether the path is a directory, to be removed with all it holds.
    pub recursive: bool,
}

/// Seconds in a day.
pub const SECS_PER_DAY: u64 = 86_400;

/// What a lookup of an entry leads to.
#[derive(Debug)]
pub enum Lookup {
    /// The entry is in the cache at this path; nothing is downloaded.
    Cached { path: String },
    /// The entry is missing: it is to be downloaded to this path.
    Fetch { dest: String },
}

/// `Lookup` over mathematical text.
pub enum LookupView {
    Cached { path: Seq<char> },
    Fetch { dest: Seq<char> },
}

impl View for Lookup {
    type V = LookupView;

    open spec fn view(&self) -> LookupView {
        match self {
            Lookup::Cached { path } => LookupView::Cached { path: path@ },
            Lookup::Fetch { dest } => LookupView::Fetch { dest: dest@ },
        }
    }
}

/// What the lookup of entry `key` of partition `p` leads to, where
/// `present` says whether the path of the entry exists.
pub open spec fn looked_up(
    root: Seq<char>,
    p: Partition,
    key: Seq<char>,
    present: bool,
) -> LookupView {
    if present {
        LookupView::Cached { path: entry_path(root, p, key) }
    } else {
        LookupView::Fetch { dest: entry_path(root, p, key) }
    }
}

/// What the lookup of entry `key` of partition `p` leads to on a disk that
/// holds the paths `disk`.
pub open spec fn lookup_on(
    root: Seq<char>,
    p: Partition,
    key: Seq<char>,
    disk: Set<Seq<char>>,
) -> LookupView {
    looked_up(root, p, key, disk.contains(entry_path(root, p, key)))
}

/// The disk after the lookup `found`, where the download that it asks for,
/// if it asks for one, succeeded.
pub open spec fn disk_after(disk: Set<Seq<char>>, found: LookupView) -> Set<Seq<char>> {
    match found {
        LookupView::Cached { .. } => disk,
        LookupView::Fetch { dest } => disk.insert(dest),
    }
}

/// The disk after successful lookups of the entries `entries`, one after
/// the other.
pub open spec fn disk_after_all(
    root: Seq<char>,
    disk: Set<Seq<char>>,
    entries: Seq<(Partition, Seq<char>)>,
) -> Set<Seq<char>>
    decreases entries.len(),
{
    if entries.len() == 0 {
        disk
    } else {
        let before = disk_after_all(root, disk, entries.drop_last());
        disk_after(before, lookup_on(root, entries.last().0, entries.last().1, before))
    }
}

/// After one successful lookup of an entry every further lookup of it
/// returns the cached path and asks for no download, whatever else was
/// looked up in between.
pub proof fn lemma_no_fetch_after_fetch(
    root: Seq<char>,
    p: Partition,
    key: Seq<char>,
    disk: Set<Seq<char>>,
    others: Seq<(Partition, Seq<char>)>,
)
    ensures
        lookup_on(
            root,
            p,
            key,
            disk_after_all(root, disk_after(disk, lookup_on(root, p, key, disk)), others),
        ) == (LookupView::Cached { path: entry_path(root, p, key) }),
    decreases others.len(),
{
    if others.len() > 0 {
        lemma_no_fetch_after_fetch(root, p, key, disk, others.drop_last());
    }
}

impl CacheManager {
    /// Looks the entry `key` of partition `p` up. `present` says whether
    /// the path of the entry exists; an existing path is served as it is,
    /// without a look at what it holds.
    pub fn lookup(&self, p: Partition, key: &str, present: bool) -> (r: Lookup)
        ensures
            r@ == looked_up(self@, p, key@, present),
    {
        let path = self.path_in(p, key);
        if present {
            Lookup::Cached { path }
        } else {
            Lookup::Fetch { dest: path }
        }
    }
}

/// Whether `age` is more than `max_age_days` days.
pub open spec fn older_than(age: Span, max_age_days: u64) -> bool {
    longer_than(age, max_age_days as int * SECS_PER_DAY as int)
}

/// Whether a sweep with limit `max_age_days` removes `entry`.
pub open spec fn expired(entry: CacheEntry, max_age_days: u64) -> bool {
    entry.age matches Some(age) && older_than(age, max_age_days)
}

/// Whether `entry` is known to have been modified a positive time ago.
pub open spec fn has_positive_age(entry: CacheEntry) -> bool {
    entry.age matches Some(age) && (age.secs > 0 || age.nanos > 0)
}

/// The removal of `entry`.
pub open spec fn removal_of(entry: CacheEntry) -> Removal {
    Removal { path: entry.path, recursive: entry.is_dir }
}

/// The removals of a sweep over `entries`: one for each expired entry, in
/// the order of the entries.
pub open spec fn sweep(entries: Seq<CacheEntry>, max_age_days: u64) -> Seq<Removal>
    decreases entries.len(),
{
    if entries.len() == 0 {
        Seq::empty()
    } else {
        let earlier = sweep(entries.drop_last(), max_age_days);
        if expired(entries.last(), max_age_days) {
            earlier.push(removal_of(entries.last()))
        } else {
            earlier
        }
    }
}

/// Whether `age` is more than `max_age_days` days.
pub fn is_older_than(age: &Span, max_age_days: u64) -> (r: bool)
    ensures
        r == older_than(*age, max_age_days),
{
    assert(max_age_days as int * SECS_PER_DAY as int <= u64::MAX as int * 86_400) by {
        assert(SECS_PER_DAY == 86_400);
    }
    let limit: u128 = max_age_days as u128 * SECS_PER_DAY as u128;
    age.exceeds(limit)
}

impl CacheEntry {
    /// Whether a sweep with limit `max_age_days` removes this entry.
    pub fn is_expired(&self, max_age_days: u64) -> (r: bool)
        ensures
            r == expired(*self, max_age_days),
    {
        match &self.age {
            Some(age) => is_older_than(age, max_age_days),
            None => false,
        }
    }
}

/// Plans a cleanup sweep: the entries last modified more than
/// `max_age_days` days ago are removed, directories with all they hold.
pub fn cleanup_plan(entries: &Vec<CacheEntry>, max_age_days: u64) -> (plan: Vec<Removal>)
    ensures
        plan@ == sweep(entries@, max_age_days),
{
    let mut plan: Vec<Removal> = Vec::new();
    let mut i: usize = 0;
    while i < entries.len()
        invariant
            i <= entries.len(),
            plan@ == sweep(entries@.take(i as int), max_age_days),
        decreases entries.len() - i,
    {
        assert(entries@.take(i + 1).drop_last() =~= entries@.take(i as int));
        if entries[i].is_expired(max_age_days) {
            plan.push(Removal { path: entries[i].path.clone(), recursive: entries[i].is_dir });
        }
        i += 1;
    }
    assert(entries@.take(i as int) =~= entries@);
    plan
}

/// A sweep removes exactly the expired entries.
pub proof fn lemma_sweep_members(entries: Seq<CacheEntry>, max_age_days: u64, r: Removal)
    ensures
        sweep(entries, max_age_days).contains(r) <==> exists|i: int|
            0 <= i < entries.len() && expired(#[trigger] entries[i], max_age_days) && r
                == removal_of(entries[i]),
    decreases entries.len(),
{
    if entries.len() > 0 {
        let init = entries.drop_last();
        let last = entries.last();
        let earlier = sweep(init, max_age_days);
        lemma_sweep_members(init, max_age_days, r);
        if sweep(entries, max_age_days).contains(r) {
            if earlier.contains(r) {
                let i = choose|i: int|
                    0 <= i < init.len() && expired(#[trigger] init[i], max_age_days) && r
                        == removal_of(init[i]);
                assert(entries[i] == init[i]);
            } else {
                let j = choose|j: int|
                    0 <= j < sweep(entries, max_age_days).len() && sweep(
                        entries,
                        max_age_days,
                    )[j] == r;
                if j < earlier.len() {
                    assert(earlier[j] == r);
                    assert(earlier.contains(r));
                }
                assert(expired(entries[entries.len() - 1], max_age_days));
            }
        }
        if exists|i: int|
            0 <= i < entries.len() && expired(#[trigger] entries[i], max_age_days) && r
                == removal_of(entries[i]) {
            let i = choose|i: int|
                0 <= i < entries.len() && expired(#[trigger] entries[i], max_age_days) && r
                    == removal_of(entries[i]);
            if i < init.len() {
                assert(init[i] == entries[i]);
                assert(earlier.contains(r));
                let j = choose|j: int| 0 <= j < earlier.len() && earlier[j] == r;
                assert(sweep(entries, max_age_days)[j] == r);
            } else {
                let full = sweep(entries, max_age_days);
                assert(full[full.len() - 1] == r);
            }
        }
    }
}

/// With a limit of zero days a sweep removes every entry that was modified
/// a positive time ago.
pub proof fn lemma_sweep_zero_limit(entries: Seq<CacheEntry>)
    requires
        forall|i: int| 0 <= i < entries.len() ==> has_positive_age(#[trigger] entries[i]),
    ensures
        sweep(entries, 0) == entries.map_values(|e: CacheEntry| removal_of(e)),
    decreases entries.len(),
{
    if entries.len() > 0 {
        let init = entries.drop_last();
        assert forall|i: int| 0 <= i < init.len() implies has_positive_age(#[trigger] init[i]) by {
            assert(init[i] == entries[i]);
        }
        lemma_sweep_zero_limit(init);
        assert(has_positive_age(entries[entries.len() - 1]));
    }
    assert(sweep(entries, 0) =~= entries.map_values(|e: CacheEntry| removal_of(e)));
}

/// With a limit of more days than any age can reach a sweep removes
/// nothing.
pub proof fn lemma_sweep_unbounded_limit(entries: Seq<CacheEntry>, max_age_days: u64)
    requires
        max_age_days as int * SECS_PER_DAY as int > u64::MAX,
    ensures
        sweep(entries, max_age_days) == Seq::<Removal>::empty(),
    decreases entries.len(),
{
    if entries.len() > 0 {
        lemma_sweep_unbounded_limit(entries.drop_last(), max_age_days);
    }
}

} // verus!
