//! Disks, the space that the home folders take, and the rule that decides
//! when a stored scan of those folders is still fresh.

use vstd::prelude::*;
use crate::command::{followed, owned, CommandRun};
use crate::fixed::{share, Fixed};
use crate::numeral::{kilobytes, numeral_u64, read_u64, to_bytes};
use crate::order::{descending, descending_order, lemma_descending, positions};
use crate::text::{chars_of, same, split_tokens, texts, tokens};

verus! {

/// One disk.
#[derive(Debug, Clone)]
pub struct DiskInfo {
    pub name: String,
    pub mount_point: String,
    pub total_bytes: u64,
    pub available_bytes: u64,
    /// What is not available of the total.
    pub used_bytes: u64,
    /// `used_bytes` as a percentage of `total_bytes`; zero for an empty disk.
    pub used_percentage: Fixed,
    pub file_system: String,
    pub is_removable: bool,
}

/// All disks, and the sums over those that are built in.
#[derive(Debug, Clone)]
pub struct DisksOverview {
    /// The disk mounted at `/`, or else the largest.
    pub primary: Option<DiskInfo>,
    /// Every disk, the largest first.
    pub all_disks: Vec<DiskInfo>,
    pub total_space_bytes: u64,
    pub total_available_bytes: u64,
    pub total_used_bytes: u64,
    pub total_used_percentage: Fixed,
}

/// What the system tells of one disk.
#[derive(Debug, Clone)]
pub struct DiskReading {
    pub name: String,
    pub mount_point: String,
    pub total_space: u64,
    pub available_space: u64,
    pub file_system: String,
    pub is_removable: bool,
}

/// What a `DiskReading` holds, as mathematical values.
pub struct Reading {
    pub name: Seq<char>,
    pub mount_point: Seq<char>,
    pub total_space: u64,
    pub available_space: u64,
    pub file_system: Seq<char>,
    pub is_removable: bool,
}

/// What a `DiskInfo` holds, as mathematical values.
pub struct Disk {
    pub name: Seq<char>,
    pub mount_point: Seq<char>,
    pub total_bytes: u64,
    pub available_bytes: u64,
    pub used_bytes: u64,
    pub used_percentage: int,
    pub file_system: Seq<char>,
    pub is_removable: bool,
}

/// What a `DisksOverview` holds, as mathematical values.
pub struct Overview {
    pub primary: Option<Disk>,
    pub all_disks: Seq<Disk>,
    pub total_space_bytes: u64,
    pub total_available_bytes: u64,
    pub total_used_bytes: u64,
    pub total_used_percentage: int,
}

impl View for DiskReading {
    type V = Reading;

    open spec fn view(&self) -> Reading {
        Reading {
            name: self.name@,
            mount_point: self.mount_point@,
            total_space: self.total_space,
            available_space: self.available_space,
            file_system: self.file_system@,
            is_removable: self.is_removable,
        }
    }
}

impl View for DiskInfo {
    type V = Disk;

    open spec fn view(&self) -> Disk {
        Disk {
            name: self.name@,
            mount_point: self.mount_point@,
            total_bytes: self.total_bytes,
            available_bytes: self.available_bytes,
            used_bytes: self.used_bytes,
            used_percentage: self.used_percentage.value(),
            file_system: self.file_system@,
            is_removable: self.is_removable,
        }
    }
}

/// What each of `v` holds.
pub open spec fn disk_views(v: Seq<DiskInfo>) -> Seq<Disk> {
    Seq::new(v.len(), |i: int| v[i]@)
}

/// What each of `v` holds.
pub open spec fn reading_views(v: Seq<DiskReading>) -> Seq<Reading> {
    Seq::new(v.len(), |i: int| v[i]@)
}

impl View for DisksOverview {
    type V = Overview;

    open spec fn view(&self) -> Overview {
        Overview {
            primary: match self.primary {
                Some(d) => Some(d@),
                None => None,
            },
            all_disks: disk_views(self.all_disks@),
            total_space_bytes: self.total_space_bytes,
            total_available_bytes: self.total_available_bytes,
            total_used_bytes: self.total_used_bytes,
            total_used_percentage: self.total_used_percentage.value(),
        }
    }
}

/// One of the three sizes that are summed over the disks.
#[derive(Debug, Clone, Copy, PartialEq, Eq, Structural)]
pub enum Tally {
    Space,
    Available,
    Used,
}

/// `x` where it fits into 64 bits, else the largest number of 64 bits.
pub open spec fn capped(x: int) -> u64 {
    if x <= u64::MAX {
        x as u64
    } else {
        u64::MAX
    }
}

/// The disk that a reading describes: its use is what is not available of the
/// total.
pub open spec fn disk_of(r: Reading) -> Disk {
    let used: u64 = if r.available_space <= r.total_space {
        (r.total_space - r.available_space) as u64
    } else {
        0
    };
    Disk {
        name: r.name,
        mount_point: r.mount_point,
        total_bytes: r.total_space,
        available_bytes: r.available_space,
        used_bytes: used,
        used_percentage: share(used as int, r.total_space as int),
        file_system: r.file_system,
        is_removable: r.is_removable,
    }
}

/// The disks that the readings describe, in the order of the readings.
pub open spec fn disks_of(readings: Seq<Reading>) -> Seq<Disk> {
    Seq::new(readings.len(), |i: int| disk_of(readings[i]))
}

/// The total size of each of `disks`.
pub open spec fn sizes(disks: Seq<Disk>) -> Seq<u64> {
    Seq::new(disks.len(), |i: int| disks[i].total_bytes)
}

/// `disks` with the largest first; disks of one size stay in their order.
pub open spec fn largest_first(disks: Seq<Disk>) -> Seq<Disk> {
    Seq::new(disks.len(), |i: int| disks[descending(sizes(disks))[i]])
}

/// How many of `disks` come before the first that is mounted at `/`.
pub open spec fn before_root(disks: Seq<Disk>) -> nat
    decreases disks.len(),
{
    if disks.len() > 0 && disks[0].mount_point != "/"@ {
        1 + before_root(disks.drop_first())
    } else {
        0
    }
}

/// The first of `disks` that is mounted at `/`; without one, the first of
/// all; of no disks, none.
pub open spec fn primary_of(disks: Seq<Disk>) -> Option<Disk> {
    if before_root(disks) < disks.len() {
        Some(disks[before_root(disks) as int])
    } else if disks.len() > 0 {
        Some(disks[0])
    } else {
        None
    }
}

/// The size `which` of the disk `d`.
pub open spec fn tally(d: Disk, which: Tally) -> u64 {
    match which {
        Tally::Space => d.total_bytes,
        Tally::Available => d.available_bytes,
        Tally::Used => d.used_bytes,
    }
}

/// The sum of the size `which` over those of `disks` that are not removable.
pub open spec fn total_of(disks: Seq<Disk>, which: Tally) -> int
    decreases disks.len(),
{
    if disks.len() == 0 {
        0
    } else {
        total_of(disks.drop_last(), which) + if disks.last().is_removable {
            0
        } else {
            tally(disks.last(), which) as int
        }
    }
}

/// The overview of the disks that the readings describe. A sum beyond 64 bits
/// is held as the largest number of 64 bits.
pub open spec fn overview_of(readings: Seq<Reading>) -> Overview {
    let all = largest_first(disks_of(readings));
    let space = capped(total_of(all, Tally::Space));
    let used = capped(total_of(all, Tally::Used));
    Overview {
        primary: primary_of(all),
        all_disks: all,
        total_space_bytes: space,
        total_available_bytes: capped(total_of(all, Tally::Available)),
        total_used_bytes: used,
        total_used_percentage: share(used as int, space as int),
    }
}

/// Sorting keeps every disk, and no disk is smaller than one that follows it.
pub proof fn lemma_largest_first_sorted(disks: Seq<Disk>)
    ensures
        largest_first(disks).len() == disks.len(),
        forall|i: int, j: int|
            0 <= i < j < disks.len() ==> (#[trigger] largest_first(disks)[i]).total_bytes >= (
            #[trigger] largest_first(disks)[j]).total_bytes,
        forall|p: int|
            0 <= p < disks.len() ==> largest_first(disks).contains(#[trigger] disks[p]),
{
    let keys = sizes(disks);
    let order = descending(keys);
    lemma_descending(keys);
    assert forall|i: int, j: int| 0 <= i < j < disks.len() implies (#[trigger] largest_first(
        disks,
    )[i]).total_bytes >= (#[trigger] largest_first(disks)[j]).total_bytes by {
        assert(keys[order[i]] >= keys[order[j]]);
    }
    assert forall|p: int| 0 <= p < disks.len() implies largest_first(disks).contains(
        #[trigger] disks[p],
    ) by {
        assert(order.contains(p));
        let i = choose|i: int| 0 <= i < order.len() && order[i] == p;
        assert(largest_first(disks)[i] == disks[p]);
    }
}

/// A removable disk adds nothing to a sum.
pub proof fn lemma_removable_adds_nothing(disks: Seq<Disk>, d: Disk, which: Tally)
    requires
        d.is_removable,
    ensures
        total_of(disks.push(d), which) == total_of(disks, which),
{
    assert(disks.push(d).drop_last() =~= disks);
}

/// A disk that is not removable adds its size to a sum.
pub proof fn lemma_fixed_adds_its_size(disks: Seq<Disk>, d: Disk, which: Tally)
    requires
        !d.is_removable,
    ensures
        total_of(disks.push(d), which) == total_of(disks, which) + tally(d, which),
{
    assert(disks.push(d).drop_last() =~= disks);
}

/// No sum is negative.
pub proof fn lemma_total_not_negative(disks: Seq<Disk>, which: Tally)
    ensures
        total_of(disks, which) >= 0,
    decreases disks.len(),
{
    if disks.len() > 0 {
        lemma_total_not_negative(disks.drop_last(), which);
    }
}

/// In every overview the used total is the sum of the use of the disks that
/// are not removable, where that sum fits into 64 bits; and where the total
/// space is zero, so is the percentage.
pub proof fn lemma_overview_totals(readings: Seq<Reading>)
    ensures
        total_of(overview_of(readings).all_disks, Tally::Used) <= u64::MAX ==> overview_of(
            readings,
        ).total_used_bytes == total_of(overview_of(readings).all_disks, Tally::Used),
        total_of(overview_of(readings).all_disks, Tally::Space) <= u64::MAX ==> overview_of(
            readings,
        ).total_space_bytes == total_of(overview_of(readings).all_disks, Tally::Space),
        overview_of(readings).total_space_bytes == 0 ==> overview_of(
            readings,
        ).total_used_percentage == 0,
{
    let all = overview_of(readings).all_disks;
    lemma_total_not_negative(all, Tally::Used);
    lemma_total_not_negative(all, Tally::Space);
}

/// Two overviews of the same readings list the same disks in the same order
/// and agree on every total.
pub proof fn lemma_overview_repeats(readings: Seq<Reading>, first: Overview, second: Overview)
    requires
        first == overview_of(readings),
        second == overview_of(readings),
    ensures
        first.all_disks == second.all_disks,
        first.total_space_bytes == second.total_space_bytes,
        first.total_available_bytes == second.total_available_bytes,
        first.total_used_bytes == second.total_used_bytes,
        first.total_used_percentage == second.total_used_percentage,
        first.primary == second.primary,
{
}

impl DiskInfo {
    /// A second record that holds the same.
    pub fn duplicate(&self) -> (r: DiskInfo)
        ensures
            r@ == self@,
    {
        DiskInfo {
            name: self.name.clone(),
            mount_point: self.mount_point.clone(),
            total_bytes: self.total_bytes,
            available_bytes: self.available_bytes,
            used_bytes: self.used_bytes,
            used_percentage: self.used_percentage,
            file_system: self.file_system.clone(),
            is_removable: self.is_removable,
        }
    }

    /// The disk that the reading describes.
    pub fn from_reading(reading: &DiskReading) -> (r: DiskInfo)
        ensures
            r@ == disk_of(reading@),
    {
        let used_bytes = if reading.available_space <= reading.total_space {
            reading.total_space - reading.available_space
        } else {
            0
        };
        DiskInfo {
            name: reading.name.clone(),
            mount_point: reading.mount_point.clone(),
            total_bytes: reading.total_space,
            available_bytes: reading.available_space,
            used_bytes,
            used_percentage: Fixed::share_of(used_bytes, reading.total_space),
            file_system: reading.file_system.clone(),
            is_removable: reading.is_removable,
        }
    }
}

/// Adds up the size `which` over the disks that are not removable.
fn sum_up(disks: &Vec<DiskInfo>, which: Tally) -> (r: u64)
    ensures
        r == capped(total_of(disk_views(disks@), which)),
{
    let ghost all = disk_views(disks@);
    let mut acc: u64 = 0;
    let mut i: usize = 0;
    assert(all.take(0) =~= Seq::<Disk>::empty());
    while i < disks.len()
        invariant
            i <= disks@.len(),
            all == disk_views(disks@),
            acc == capped(total_of(all.take(i as int), which)),
        decreases disks@.len() - i,
    {
        proof {
            assert(all.take(i + 1).drop_last() =~= all.take(i as int));
            assert(all.take(i + 1).last() == disks@[i as int]@);
            lemma_total_not_negative(all.take(i as int), which);
        }
        let d = &disks[i];
        if !d.is_removable {
            let x = match which {
                Tally::Space => d.total_bytes,
                Tally::Available => d.available_bytes,
                Tally::Used => d.used_bytes,
            };
            acc = if acc > u64::MAX - x {
                u64::MAX
            } else {
                acc + x
            };
        }
        i += 1;
    }
    proof {
        assert(all.take(disks@.len() as int) =~= all);
    }
    acc
}

/// The disk that stands for the machine.
fn pick_primary(disks: &Vec<DiskInfo>) -> (r: Option<DiskInfo>)
    ensures
        match primary_of(disk_views(disks@)) {
            Some(d) => r is Some && r->Some_0@ == d,
            None => r is None,
        },
{
    let ghost all = disk_views(disks@);
    let root = chars_of("/");
    let mut i: usize = 0;
    assert(all.skip(0) =~= all);
    while i < disks.len()
        invariant
            i <= disks@.len(),
            all == disk_views(disks@),
            root@ == "/"@,
            before_root(all) == i + before_root(all.skip(i as int)),
        decreases disks@.len() - i,
    {
        let at = chars_of(disks[i].mount_point.as_str());
        proof {
            assert(all.skip(i as int)[0] == disks@[i as int]@);
            assert(all.skip(i as int).drop_first() =~= all.skip(i + 1));
        }
        if same(at.as_slice(), root.as_slice()) {
            return Some(disks[i].duplicate());
        }
        i += 1;
    }
    if disks.len() > 0 {
        Some(disks[0].duplicate())
    } else {
        None
    }
}

/// Assembles the overview from what the system tells of each disk.
pub fn get_disk_info(readings: &Vec<DiskReading>) -> (r: Result<DisksOverview, String>)
    ensures
        r is Ok,
        r->Ok_0@ == overview_of(reading_views(readings@)),
{
    let ghost seen = reading_views(readings@);
    let mut found: Vec<DiskInfo> = Vec::new();
    let mut keys: Vec<u64> = Vec::new();
    let mut i: usize = 0;
    while i < readings.len()
        invariant
            i <= readings@.len(),
            seen == reading_views(readings@),
            found@.len() == i,
            keys@.len() == i,
            forall|a: int| 0 <= a < i ==> (#[trigger] found@[a])@ == disk_of(seen[a]),
            forall|a: int| 0 <= a < i ==> #[trigger] keys@[a] == seen[a].total_space,
        decreases readings@.len() - i,
    {
        let d = DiskInfo::from_reading(&readings[i]);
        keys.push(d.total_bytes);
        found.push(d);
        i += 1;
    }
    let ghost plain = disks_of(seen);
    proof {
        assert(disk_views(found@) =~= plain);
        assert(keys@ =~= sizes(plain));
    }
    let order = descending_order(&keys);
    let mut all_disks: Vec<DiskInfo> = Vec::new();
    let mut j: usize = 0;
    let ghost want = largest_first(plain);
    while j < found.len()
        invariant
            j <= found@.len(),
            order@.len() == found@.len(),
            forall|a: int| 0 <= a < order@.len() ==> #[trigger] order@[a] < found@.len(),
            plain == disk_views(found@),
            positions(order@) == descending(sizes(plain)),
            want == largest_first(plain),
            all_disks@.len() == j,
            forall|a: int| 0 <= a < j ==> (#[trigger] all_disks@[a])@ == want[a],
        decreases found@.len() - j,
    {
        proof {
            assert(positions(order@)[j as int] == order@[j as int] as int);
        }
        let d = found[order[j]].duplicate();
        all_disks.push(d);
        j += 1;
    }
    proof {
        assert(disk_views(all_disks@) =~= want);
    }
    let primary = pick_primary(&all_disks);
    let total_space_bytes = sum_up(&all_disks, Tally::Space);
    let total_available_bytes = sum_up(&all_disks, Tally::Available);
    let total_used_bytes = sum_up(&all_disks, Tally::Used);
    let total_used_percentage = Fixed::share_of(total_used_bytes, total_space_bytes);
    Ok(
        DisksOverview {
            primary,
            all_disks,
            total_space_bytes,
            total_available_bytes,
            total_used_bytes,
            total_used_percentage,
        },
    )
}


/// One folder and the space it takes.
#[derive(Debug, Clone)]
pub struct StorageCategory {
    pub name: String,
    pub bytes: u64,
    /// The colour in which the category is drawn.
    pub color: String,
}

/// The folders that were measured, and the sum of their sizes.
#[derive(Debug, Clone)]
pub struct StorageCategories {
    pub categories: Vec<StorageCategory>,
    pub total_categorized: u64,
}

/// A stored scan, with the second since the epoch at which it was made.
#[derive(Debug, Clone)]
pub struct CachedStorageCategories {
    pub categories: StorageCategories,
    pub timestamp: u64,
}

/// A folder that is measured.
#[derive(Debug, Clone)]
pub struct CategoryPlace {
    pub name: String,
    /// The folder: a name below the home folder, or else a full path.
    pub folder: String,
    pub under_home: bool,
    pub color: String,
}

/// What a `StorageCategory` holds, as mathematical values.
pub struct Category {
    pub name: Seq<char>,
    pub bytes: u64,
    pub color: Seq<char>,
}

/// What a `StorageCategories` holds, as mathematical values.
pub struct Categories {
    pub categories: Seq<Category>,
    pub total_categorized: u64,
}

/// What a `CategoryPlace` holds, as mathematical values.
pub struct Place {
    pub name: Seq<char>,
    pub folder: Seq<char>,
    pub under_home: bool,
    pub color: Seq<char>,
}

impl View for StorageCategory {
    type V = Category;

    open spec fn view(&self) -> Category {
        Category { name: self.name@, bytes: self.bytes, color: self.color@ }
    }
}

/// What each of `v` holds.
pub open spec fn category_views(v: Seq<StorageCategory>) -> Seq<Category> {
    Seq::new(v.len(), |i: int| v[i]@)
}

impl View for StorageCategories {
    type V = Categories;

    open spec fn view(&self) -> Categories {
        Categories {
            categories: category_views(self.categories@),
            total_categorized: self.total_categorized,
        }
    }
}

impl View for CategoryPlace {
    type V = Place;

    open spec fn view(&self) -> Place {
        Place {
            name: self.name@,
            folder: self.folder@,
            under_home: self.under_home,
            color: self.color@,
        }
    }
}

/// What each of `v` holds.
pub open spec fn place_views(v: Seq<CategoryPlace>) -> Seq<Place> {
    Seq::new(v.len(), |i: int| v[i]@)
}

/// A folder below the home folder, under its own name.
pub open spec fn home_place(name: Seq<char>, color: Seq<char>) -> Place {
    Place { name, folder: name, under_home: true, color }
}

/// The seven folders that are measured, in the order in which they are
/// listed.
pub open spec fn places() -> Seq<Place> {
    seq![
        Place {
            name: "Applications"@,
            folder: "/Applications"@,
            under_home: false,
            color: "#3b82f6"@,
        },
        home_place("Documents"@, "#22c55e"@),
        home_place("Downloads"@, "#14b8a6"@),
        home_place("Pictures"@, "#f59e0b"@),
        home_place("Music"@, "#ec4899"@),
        home_place("Movies"@, "#8b5cf6"@),
        home_place("Desktop"@, "#6366f1"@),
    ]
}

/// The size that a scan of one folder gives. A folder that is missing is not
/// scanned at all and counts as empty, as does one whose scan did not start
/// or failed, or printed no number first. The number is in kilobytes.
pub open spec fn dir_size(scan: Option<CommandRun>) -> u64 {
    match scan {
        Some(CommandRun::Finished { success, stdout, stderr }) => {
            let words = tokens(stdout@);
            if success && words.len() > 0 {
                match numeral_u64(words[0]) {
                    Some(kb) => kilobytes(kb),
                    None => 0,
                }
            } else {
                0
            }
        },
        _ => 0,
    }
}

/// The size that the scan of place `i` gave, and zero where that scan did not
/// come back.
pub open spec fn scanned(sizes: Seq<Option<u64>>, i: int) -> u64 {
    if 0 <= i < sizes.len() {
        match sizes[i] {
            Some(bytes) => bytes,
            None => 0,
        }
    } else {
        0
    }
}

/// The categories for the first `n` places, in the order of the places.
pub open spec fn gathered(sizes: Seq<Option<u64>>, n: nat) -> Seq<Category> {
    Seq::new(
        n,
        |i: int| Category { name: places()[i].name, bytes: scanned(sizes, i), color: places()[i].color },
    )
}

/// The sum of the sizes of the categories.
pub open spec fn sum_bytes(c: Seq<Category>) -> int
    decreases c.len(),
{
    if c.len() == 0 {
        0
    } else {
        sum_bytes(c.drop_last()) + c.last().bytes
    }
}

/// The categories for the scans `sizes`, one scan for each place, and their
/// sum. A scan that did not come back counts as a size of zero. A sum beyond
/// 64 bits is held as the largest number of 64 bits.
pub open spec fn categories_of(sizes: Seq<Option<u64>>) -> Categories {
    let c = gathered(sizes, places().len());
    Categories { categories: c, total_categorized: capped(sum_bytes(c)) }
}

/// How old a stored scan may be, in seconds, to be used as it is.
pub const FRESH_SECONDS: u64 = 300;

/// The seconds from `stamp` to `now`, and zero where the clock went back.
pub open spec fn age(now: u64, stamp: u64) -> int {
    if now >= stamp {
        now - stamp
    } else {
        0
    }
}

/// Nothing measured.
pub open spec fn no_categories() -> Categories {
    Categories { categories: Seq::empty(), total_categorized: 0 }
}

/// What a read of the store at second `now` returns, and whether a new scan
/// is to be started in the background: with nothing stored, nothing and a
/// scan; with a scan younger than five minutes, that scan and nothing more;
/// with an older one, that scan all the same, and a new scan.
pub open spec fn cache_read(stored: Option<(Categories, u64)>, now: u64) -> (Categories, bool) {
    match stored {
        None => (no_categories(), true),
        Some((found, stamp)) => (found, age(now, stamp) >= FRESH_SECONDS),
    }
}

/// What is stored, as mathematical values.
pub open spec fn stored_view(stored: Option<CachedStorageCategories>) -> Option<(Categories, u64)> {
    match stored {
        Some(c) => Some((c.categories@, c.timestamp)),
        None => None,
    }
}

/// What a read of the store hands back.
#[derive(Debug, Clone)]
pub struct CacheRead {
    /// What the caller gets at once.
    pub categories: StorageCategories,
    /// Whether the caller starts a new scan in the background and stores it.
    pub refresh: bool,
}

/// A scan that was stored at second `stamp` is returned as it is, with no new
/// scan, by every read before it is five minutes old; from then on a read
/// still returns it, but asks for a new scan, and whatever that scan stores
/// at the time of the read or later has a later stamp.
pub proof fn lemma_read_after_store(found: Categories, stamp: u64, now: u64, later: u64)
    ensures
        age(now, stamp) < 300 ==> cache_read(Some((found, stamp)), now) == (found, false),
        age(now, stamp) >= 300 ==> cache_read(Some((found, stamp)), now) == (found, true),
        age(now, stamp) >= 300 && later >= now ==> later > stamp,
{
}

impl StorageCategory {
    /// A second record that holds the same.
    pub fn duplicate(&self) -> (r: StorageCategory)
        ensures
            r@ == self@,
    {
        StorageCategory { name: self.name.clone(), bytes: self.bytes, color: self.color.clone() }
    }
}

/// A folder below the home folder.
fn at_home(name: &str, color: &str) -> (r: CategoryPlace)
    ensures
        r@ == home_place(name@, color@),
{
    CategoryPlace { name: owned(name), folder: owned(name), under_home: true, color: owned(color) }
}

/// Lists the folders that are measured.
pub fn category_places() -> (r: Vec<CategoryPlace>)
    ensures
        place_views(r@) == places(),
{
    let mut r: Vec<CategoryPlace> = Vec::new();
    r.push(
        CategoryPlace {
            name: owned("Applications"),
            folder: owned("/Applications"),
            under_home: false,
            color: owned("#3b82f6"),
        },
    );
    r.push(at_home("Documents", "#22c55e"));
    r.push(at_home("Downloads", "#14b8a6"));
    r.push(at_home("Pictures", "#f59e0b"));
    r.push(at_home("Music", "#ec4899"));
    r.push(at_home("Movies", "#8b5cf6"));
    r.push(at_home("Desktop", "#6366f1"));
    proof {
        assert(place_views(r@) =~= places());
    }
    r
}

/// Reads the size of a folder from a run of `du -sk` on it; `None` stands for
/// a folder that is not there and was not scanned.
pub fn get_dir_size(scan: &Option<CommandRun>) -> (r: u64)
    ensures
        r == dir_size(*scan),
{
    match scan {
        Some(CommandRun::Finished { success, stdout, stderr }) => {
            if !*success {
                return 0;
            }
            let text = chars_of(stdout.as_str());
            let words = split_tokens(text.as_slice());
            if words.len() == 0 {
                return 0;
            }
            assert(texts(words@)[0] == words@[0]@);
            match read_u64(words[0]) {
                Some(kb) => to_bytes(kb),
                None => 0,
            }
        },
        _ => 0,
    }
}

/// Assembles the categories from the scans of the seven places, in their
/// order; `None` stands for a scan that did not come back, and counts as a
/// size of zero.
pub fn calculate_categories(sizes: &Vec<Option<u64>>) -> (r: StorageCategories)
    ensures
        r@ == categories_of(sizes@),
{
    let listed = category_places();
    let mut categories: Vec<StorageCategory> = Vec::new();
    let mut total: u64 = 0;
    let mut i: usize = 0;
    assert(category_views(categories@) =~= gathered(sizes@, 0));
    while i < listed.len()
        invariant
            i <= listed@.len(),
            place_views(listed@) == places(),
            category_views(categories@) == gathered(sizes@, i as nat),
            total == capped(sum_bytes(category_views(categories@))),
        decreases listed@.len() - i,
    {
        let ghost before = category_views(categories@);
        proof {
            assert(place_views(listed@)[i as int] == listed@[i as int]@);
            lemma_sum_not_negative(before);
        }
        let bytes: u64 = if i < sizes.len() {
            match sizes[i] {
                Some(b) => b,
                None => 0,
            }
        } else {
            0
        };
        let c = StorageCategory {
            name: listed[i].name.clone(),
            bytes,
            color: listed[i].color.clone(),
        };
        let ghost cv = c@;
        categories.push(c);
        total = if total > u64::MAX - bytes {
            u64::MAX
        } else {
            total + bytes
        };
        proof {
            assert(category_views(categories@) =~= before.push(cv));
            assert(before.push(cv).drop_last() =~= before);
            assert(before.push(cv) =~= gathered(sizes@, (i + 1) as nat));
        }
        i += 1;
    }
    StorageCategories { categories, total_categorized: total }
}

/// No sum of sizes is negative.
pub proof fn lemma_sum_not_negative(c: Seq<Category>)
    ensures
        sum_bytes(c) >= 0,
    decreases c.len(),
{
    if c.len() > 0 {
        lemma_sum_not_negative(c.drop_last());
    }
}

/// The record that is stored for a scan that ended at second `now`.
pub fn cache_record(categories: StorageCategories, now: u64) -> (r: CachedStorageCategories)
    ensures
        r.categories == categories,
        r.timestamp == now,
{
    CachedStorageCategories { categories, timestamp: now }
}

/// Answers a read of the stored scan at second `now` without waiting for
/// anything: what is stored is handed back whatever its age, and `refresh`
/// tells whether it is missing or five minutes old and a new scan is due.
pub fn get_storage_categories(stored: Option<CachedStorageCategories>, now: u64) -> (r: CacheRead)
    ensures
        (r.categories@, r.refresh) == cache_read(stored_view(stored), now),
{
    match stored {
        Some(c) => {
            let age_secs = if now >= c.timestamp {
                now - c.timestamp
            } else {
                0
            };
            CacheRead { categories: c.categories, refresh: age_secs >= FRESH_SECONDS }
        },
        None => {
            let empty = StorageCategories { categories: Vec::new(), total_categorized: 0 };
            assert(empty@.categories =~= Seq::<Category>::empty());
            CacheRead { categories: empty, refresh: true }
        },
    }
}

/// The address of the settings panel `panel`, if there is such a panel.
pub open spec fn settings_url(panel: Seq<char>) -> Option<Seq<char>> {
    if panel == "storage"@ {
        Some("x-apple.systempreferences:com.apple.settings.Storage"@)
    } else if panel == "privacy"@ {
        Some("x-apple.systempreferences:com.apple.preference.security?Privacy"@)
    } else if panel == "accessibility"@ {
        Some("x-apple.systempreferences:com.apple.preference.security?Privacy_Accessibility"@)
    } else if panel == "full-disk-access"@ {
        Some("x-apple.systempreferences:com.apple.preference.security?Privacy_AllFiles"@)
    } else {
        None
    }
}

/// Whether `panel` is the name `name`.
fn named(panel: &[char], name: &str) -> (r: bool)
    ensures
        r == (panel@ == name@),
{
    let n = chars_of(name);
    same(panel, n.as_slice())
}

/// Finds the address to open for the settings panel `panel`; a name that is
/// no panel is an error.
pub fn open_system_settings(panel: &str) -> (r: Result<String, String>)
    ensures
        match settings_url(panel@) {
            Some(url) => r is Ok && r->Ok_0@ == url,
            None => r is Err && r->Err_0@ == "Unknown panel: "@ + panel@,
        },
{
    let p = chars_of(panel);
    if named(p.as_slice(), "storage") {
        Ok(owned("x-apple.systempreferences:com.apple.settings.Storage"))
    } else if named(p.as_slice(), "privacy") {
        Ok(owned("x-apple.systempreferences:com.apple.preference.security?Privacy"))
    } else if named(p.as_slice(), "accessibility") {
        Ok(owned("x-apple.systempreferences:com.apple.preference.security?Privacy_Accessibility"))
    } else if named(p.as_slice(), "full-disk-access") {
        Ok(owned("x-apple.systempreferences:com.apple.preference.security?Privacy_AllFiles"))
    } else {
        Err(followed("Unknown panel: ", panel))
    }
}

} // verus!
