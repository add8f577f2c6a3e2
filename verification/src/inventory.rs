//! What Windows reports about disks, partitions and BitLocker volumes.
use vstd::prelude::*;

use crate::text;

verus! {

/// A floating-point number of the IEEE 754 format binary64, by its bits.
#[derive(Debug, Clone, Copy)]
pub struct Binary64 {
    pub bits: u64,
}

impl Binary64 {
    /// The bits without the sign bit.
    pub open spec fn magnitude(self) -> u64 {
        self.bits % 0x8000_0000_0000_0000
    }

    /// Whether this is no number: the exponent is all ones and the fraction is
    /// not zero.
    pub open spec fn is_nan(self) -> bool {
        self.magnitude() > 0x7ff0_0000_0000_0000
    }

    /// Equality of floating-point numbers: what is no number equals nothing,
    /// and the two zeros are equal.
    pub open spec fn equals(self, other: Binary64) -> bool {
        &&& !self.is_nan()
        &&& !other.is_nan()
        &&& self.bits == other.bits || (self.magnitude() == 0 && other.magnitude() == 0)
    }

    /// Whether two numbers are equal.
    pub fn same_number(&self, other: &Binary64) -> (r: bool)
        ensures
            r == self.equals(*other),
    {
        let a: u64 = self.bits % 0x8000_0000_0000_0000;
        let b: u64 = other.bits % 0x8000_0000_0000_0000;
        a <= 0x7ff0_0000_0000_0000 && b <= 0x7ff0_0000_0000_0000 && (self.bits == other.bits || (a
            == 0 && b == 0))
    }
}

/// A physical disk, as `Get-Disk` reports it.
#[derive(Debug)]
pub struct PhysicalDisk {
    pub number: u32,
    pub friendly_name: String,
    pub serial_number: Option<String>,
    pub health_status: String,
    pub operational_status: String,
    pub is_boot: bool,
    pub is_system: bool,
    /// The size in gigabytes, rounded to two decimals for display.
    pub size_gb: Binary64,
    /// The exact size. A write path must cover the real capacity and not one
    /// reconstructed from a rounded display value.
    pub size_bytes: u64,
    /// Absent on virtual and exotic disks.
    pub bus_type: Option<String>,
    pub media_type: Option<String>,
    /// Absent on some real disks.
    pub is_removable: Option<bool>,
}

/// A partition, as `Get-Partition` reports it.
#[derive(Debug)]
pub struct Partition {
    pub disk_number: u32,
    pub drive_letter: Option<char>,
    pub partition_type: String,
    /// Every mount point of the partition: the drive root, the volume GUID root
    /// and any folder mount point. This is what ties a path to a physical disk.
    pub access_paths: Option<Vec<String>>,
}

/// A volume, as `Get-BitLockerVolume` reports it.
#[derive(Debug)]
pub struct BitLockerVolume {
    pub mount_point: String,
    pub volume_status: Option<String>,
    pub protection_status: String,
    pub encryption_percentage: Option<u32>,
    pub volume_type: String,
    pub capacity_gb: Binary64,
}

/// The characters of a text that may be absent.
pub open spec fn optional_str(o: Option<&str>) -> Option<Seq<char>> {
    match o {
        Some(s) => Some(s@),
        None => None,
    }
}

/// The characters of a string that may be absent.
pub open spec fn optional_text(o: Option<String>) -> Option<Seq<char>> {
    match o {
        Some(s) => Some(s@),
        None => None,
    }
}

/// A borrowed view of a string that may be absent.
pub fn as_text(o: &Option<String>) -> (r: Option<&str>)
    ensures
        optional_str(r) == optional_text(*o),
{
    match o {
        Some(s) => Some(s.as_str()),
        None => None,
    }
}

/// A text, or a stand-in where it is absent.
pub open spec fn shown(value: Option<Seq<char>>, absent: Seq<char>) -> Seq<char> {
    match value {
        Some(v) => v,
        None => absent,
    }
}

/// A text, or a stand-in where it is absent.
pub fn text_or<'a>(value: Option<&'a str>, absent: &'a str) -> (r: &'a str)
    ensures
        r@ == shown(optional_str(value), absent@),
{
    match value {
        Some(v) => v,
        None => absent,
    }
}

/// Windows boots from this disk or runs from it.
pub open spec fn system_disk(disk: PhysicalDisk) -> bool {
    disk.is_boot || disk.is_system
}

/// Whether Windows boots from this disk or runs from it.
pub fn is_system_disk(disk: &PhysicalDisk) -> (r: bool)
    ensures
        r == system_disk(*disk),
{
    disk.is_boot || disk.is_system
}

/// The partition types of the EFI system partition, the Microsoft reserved
/// partition and the recovery partition.
pub open spec fn bare_system_partition(partition_type: Seq<char>) -> bool {
    let t = text::trimmed(partition_type);
    ||| text::same_ignoring_ascii_case(t, "System"@)
    ||| text::same_ignoring_ascii_case(t, "Reserved"@)
    ||| text::same_ignoring_ascii_case(t, "Recovery"@)
}

/// Whether a partition of this type legitimately has no drive letter and holds
/// no user data. Any other partition without a letter counts as a data volume,
/// whose protection has to be proven and not assumed.
pub fn is_bare_system_partition(partition_type: &str) -> (r: bool)
    ensures
        r == bare_system_partition(partition_type@),
{
    let t = text::trim(partition_type);
    text::eq_ignore_ascii_case(t, "System") || text::eq_ignore_ascii_case(t, "Reserved")
        || text::eq_ignore_ascii_case(t, "Recovery")
}

/// The serial number of a disk, where it has one that is not blank.
pub open spec fn usable_serial(disk: PhysicalDisk) -> Option<Seq<char>> {
    match disk.serial_number {
        Some(serial) => if text::trimmed(serial@).len() > 0 {
            Some(serial@)
        } else {
            None
        },
        None => None,
    }
}

/// The serial number by which a disk can be identified, if it has one.
pub fn usable_serial_of(disk: &PhysicalDisk) -> (r: Option<&str>)
    ensures
        optional_str(r) == usable_serial(*disk),
{
    match &disk.serial_number {
        Some(serial) => if text::trim(serial.as_str()).is_empty() {
            None
        } else {
            Some(serial.as_str())
        },
        None => None,
    }
}

// --- Looking up by disk number -----------------------------------------------

/// The disks with number `n`.
pub open spec fn numbered(disks: Seq<PhysicalDisk>, n: u32) -> Seq<PhysicalDisk> {
    disks.filter(|d: PhysicalDisk| d.number == n)
}

/// What a search by disk number found.
pub enum Found<'a> {
    Absent,
    One(&'a PhysicalDisk),
    Several,
}

/// The filter of a sequence is no shorter than that of its front.
proof fn lemma_filter_grows<A>(s: Seq<A>, k: int, pred: spec_fn(A) -> bool)
    requires
        0 <= k <= s.len(),
    ensures
        s.take(k).filter(pred).len() <= s.filter(pred).len(),
{
    assert(s.take(k) + s.skip(k) =~= s);
    Seq::filter_distributes_over_add(s.take(k), s.skip(k), pred);
}

/// Searches `disks` for the one with number `n`.
pub fn find_numbered<'a>(disks: &'a [PhysicalDisk], n: u32) -> (r: Found<'a>)
    ensures
        match r {
            Found::Absent => numbered(disks@, n).len() == 0,
            Found::One(disk) => numbered(disks@, n) == seq![*disk],
            Found::Several => numbered(disks@, n).len() > 1,
        },
{
    let ghost pred = |d: PhysicalDisk| d.number == n;
    let mut found: Option<usize> = None;
    let mut i: usize = 0;
    assert(disks@.take(0).filter(pred) =~= Seq::empty()) by {
        reveal(Seq::filter);
    }
    while i < disks.len()
        invariant
            i <= disks.len(),
            pred == (|d: PhysicalDisk| d.number == n),
            match found {
                None => disks@.take(i as int).filter(pred) == Seq::<PhysicalDisk>::empty(),
                Some(k) => k < i && disks@.take(i as int).filter(pred) == seq![disks@[k as int]],
            },
        decreases disks.len() - i,
    {
        proof {
            reveal(Seq::filter);
            assert(disks@.take(i + 1).drop_last() =~= disks@.take(i as int));
            assert(disks@.take(i + 1).last() == disks@[i as int]);
        }
        if disks[i].number == n {
            if found.is_some() {
                proof {
                    lemma_filter_grows(disks@, i + 1, pred);
                }
                return Found::Several;
            }
            found = Some(i);
            assert(disks@.take(i + 1).filter(pred) =~= seq![disks@[i as int]]);
        }
        i += 1;
    }
    assert(disks@.take(i as int) =~= disks@);
    match found {
        None => Found::Absent,
        Some(k) => Found::One(&disks[k]),
    }
}

/// The first disk with number `n`, if there is one.
pub fn find_first<'a>(disks: &'a [PhysicalDisk], n: u32) -> (r: Option<&'a PhysicalDisk>)
    ensures
        match r {
            Some(disk) => numbered(disks@, n).len() > 0 && *disk == numbered(disks@, n)[0],
            None => numbered(disks@, n).len() == 0,
        },
{
    let ghost pred = |d: PhysicalDisk| d.number == n;
    let mut i: usize = 0;
    assert(disks@.take(0).filter(pred) =~= Seq::empty()) by {
        reveal(Seq::filter);
    }
    while i < disks.len()
        invariant
            i <= disks.len(),
            pred == (|d: PhysicalDisk| d.number == n),
            disks@.take(i as int).filter(pred) == Seq::<PhysicalDisk>::empty(),
        decreases disks.len() - i,
    {
        proof {
            reveal(Seq::filter);
            assert(disks@.take(i + 1).drop_last() =~= disks@.take(i as int));
            assert(disks@.take(i + 1).last() == disks@[i as int]);
        }
        if disks[i].number == n {
            proof {
                assert(disks@.take(i + 1) + disks@.skip(i + 1) =~= disks@);
                Seq::filter_distributes_over_add(disks@.take(i + 1), disks@.skip(i + 1), pred);
                assert(disks@.take(i + 1).filter(pred) =~= seq![disks@[i as int]]);
            }
            return Some(&disks[i]);
        }
        i += 1;
    }
    assert(disks@.take(i as int) =~= disks@);
    None
}

/// The partitions of disk `n`, in order.
pub open spec fn partitions_on(partitions: Seq<Partition>, n: u32) -> Seq<Partition> {
    partitions.filter(|p: Partition| p.disk_number == n)
}

/// The partitions of disk `n`, in order.
pub fn partitions_of_disk<'a>(partitions: &'a [Partition], n: u32) -> (r: Vec<&'a Partition>)
    ensures
        r@.unref() == partitions_on(partitions@, n),
{
    let ghost pred = |p: Partition| p.disk_number == n;
    let mut out: Vec<&'a Partition> = Vec::new();
    let mut i: usize = 0;
    assert(partitions@.take(0).filter(pred) =~= Seq::empty()) by {
        reveal(Seq::filter);
    }
    while i < partitions.len()
        invariant
            i <= partitions.len(),
            pred == (|p: Partition| p.disk_number == n),
            out@.unref() == partitions@.take(i as int).filter(pred),
        decreases partitions.len() - i,
    {
        proof {
            reveal(Seq::filter);
            assert(partitions@.take(i + 1).drop_last() =~= partitions@.take(i as int));
        }
        if partitions[i].disk_number == n {
            let ghost before = out@;
            out.push(&partitions[i]);
            assert(out@.unref() =~= before.unref().push(partitions@[i as int]));
        }
        i += 1;
    }
    assert(partitions@.take(i as int) =~= partitions@);
    out
}

// --- Laws --------------------------------------------------------------------

/// Equality of numbers, by their bits: it is symmetric; a number equals itself
/// unless its exponent is all ones and its fraction is not zero; the two zeros
/// are equal; and nothing else with other bits is.
pub proof fn law_equal_numbers(a: Binary64, b: Binary64)
    ensures
        a.equals(b) == b.equals(a),
        a.is_nan() <==> 0x7ff0_0000_0000_0000 < a.bits < 0x8000_0000_0000_0000
            || 0xfff0_0000_0000_0000 < a.bits,
        a.equals(a) <==> !a.is_nan(),
        (a.is_nan() || b.is_nan()) ==> !a.equals(b),
        a.bits != b.bits ==> (a.equals(b) <==> (a.bits == 0 || a.bits == 0x8000_0000_0000_0000)
            && (b.bits == 0 || b.bits == 0x8000_0000_0000_0000)),
{
}

/// Only the boot and the system flag make a system disk, and either does.
pub proof fn law_either_flag_makes_a_system_disk(disk: PhysicalDisk)
    ensures
        disk.is_boot ==> system_disk(disk),
        disk.is_system ==> system_disk(disk),
        !disk.is_boot && !disk.is_system ==> !system_disk(disk),
{
}

/// A partition legitimately has no letter exactly when its type, without white
/// space around it and in small letters, is one of three words.
pub proof fn law_three_partition_types_are_bare(partition_type: Seq<char>)
    ensures
        bare_system_partition(partition_type) <==> {
            let small = text::trimmed(partition_type).map_values(|c: char| text::ascii_lower(c));
            small == "system"@ || small == "reserved"@ || small == "recovery"@
        },
{
    reveal_strlit("System");
    reveal_strlit("Reserved");
    reveal_strlit("Recovery");
    reveal_strlit("system");
    reveal_strlit("reserved");
    reveal_strlit("recovery");
    let t = text::trimmed(partition_type);
    text::lemma_same_as_small(t, "System"@, "system"@);
    text::lemma_same_as_small(t, "Reserved"@, "reserved"@);
    text::lemma_same_as_small(t, "Recovery"@, "recovery"@);
}

/// A serial number is usable exactly when it holds anything but white space, and
/// is then used as it stands, with the white space around it.
pub proof fn law_usable_serials(disk: PhysicalDisk)
    ensures
        disk.serial_number is None ==> usable_serial(disk) is None,
        disk.serial_number matches Some(serial) ==> {
            &&& (exists|i: int| 0 <= i < serial@.len() && !text::white_space(#[trigger] serial@[i]))
                ==> usable_serial(disk) == Some(serial@)
            &&& (forall|i: int| 0 <= i < serial@.len() ==> text::white_space(#[trigger] serial@[i]))
                ==> usable_serial(disk) is None
        },
{
    if disk.serial_number is Some {
        text::lemma_trimmed_of_blank(disk.serial_number->Some_0@);
    }
}

/// The disks of a number, by their places: the first of them is the first disk
/// with that number; a disk that is the only one with its number is the only one
/// among them; two are more than one; and there are none where no disk has the
/// number.
pub proof fn law_disks_of_a_number(disks: Seq<PhysicalDisk>, n: u32, i: int, j: int)
    ensures
        0 <= i < disks.len() && disks[i].number == n && (forall|k: int|
            0 <= k < i ==> (#[trigger] disks[k]).number != n) ==> numbered(disks, n).len() > 0
            && numbered(disks, n)[0] == disks[i],
        0 <= i < disks.len() && disks[i].number == n && (forall|k: int|
            0 <= k < disks.len() && k != i ==> (#[trigger] disks[k]).number != n) ==> numbered(
            disks,
            n,
        ) == seq![disks[i]],
        0 <= i < j < disks.len() && disks[i].number == n && disks[j].number == n ==> numbered(
            disks,
            n,
        ).len() > 1,
        (forall|k: int| 0 <= k < disks.len() ==> (#[trigger] disks[k]).number != n) ==> numbered(
            disks,
            n,
        ).len() == 0,
    decreases disks.len(),
{
    reveal(Seq::filter);
    if disks.len() > 0 {
        let front = disks.drop_last();
        law_disks_of_a_number(front, n, i, j);
        let here = numbered(disks, n);
        let before = numbered(front, n);
        assert(forall|k: int| 0 <= k < front.len() ==> #[trigger] front[k] == disks[k]);
        assert(disks.last() == disks[disks.len() - 1]);
        if 0 <= i < front.len() && disks[i].number == n {
            assert(front[i] == disks[i]);
            lemma_kept(front, n, i);
        }
        if (0 <= i < disks.len() && forall|k: int|
            0 <= k < disks.len() && k != i ==> (#[trigger] disks[k]).number != n) && i
            == disks.len() - 1 {
            assert(before.len() == 0);
            assert(here =~= before.push(disks[i]) || here.len() == 0);
        }
    }
}

/// A disk is among those of its number.
proof fn lemma_kept(disks: Seq<PhysicalDisk>, n: u32, i: int)
    requires
        0 <= i < disks.len(),
        disks[i].number == n,
    ensures
        numbered(disks, n).len() > 0,
{
    disks.lemma_filter_contains(|d: PhysicalDisk| d.number == n, i);
}

/// Where a single disk has a number, the disks with that number are one alone;
/// the result is its place.
pub proof fn law_a_single_disk_has_a_place(disks: Seq<PhysicalDisk>, n: u32) -> (i: int)
    requires
        numbered(disks, n).len() == 1,
    ensures
        0 <= i < disks.len(),
        disks[i].number == n,
        numbered(disks, n)[0] == disks[i],
        forall|k: int| 0 <= k < disks.len() && k != i ==> (#[trigger] disks[k]).number != n,
{
    let pred = |d: PhysicalDisk| d.number == n;
    let found = disks.filter(pred);
    disks.lemma_filter_pred(pred, 0);
    assert(found.contains(found[0]));
    disks.lemma_filter_contains_rev(pred, found[0]);
    let i = choose|i: int| 0 <= i < disks.len() && disks[i] == found[0];
    assert forall|k: int| 0 <= k < disks.len() && k != i implies (#[trigger] disks[k]).number
        != n by {
        law_disks_of_a_number(disks, n, i, k);
        law_disks_of_a_number(disks, n, k, i);
    }
    i
}

/// The partitions of a disk, one by one: another partition joins those of the
/// disk, behind them, exactly when it is on the disk, whatever else it has; and
/// without partitions there are none.
pub proof fn law_partitions_of_a_disk(partitions: Seq<Partition>, more: Partition, n: u32)
    ensures
        partitions_on(Seq::empty(), n) == Seq::<Partition>::empty(),
        more.disk_number == n ==> partitions_on(partitions.push(more), n) == partitions_on(
            partitions,
            n,
        ).push(more),
        more.disk_number != n ==> partitions_on(partitions.push(more), n) == partitions_on(
            partitions,
            n,
        ),
{
    reveal(Seq::filter);
    assert(partitions.push(more).drop_last() =~= partitions);
}

/// Every partition of a disk is among those of the disk, and only they are. The
/// result is where partition `i` stands among them, and which partition stands
/// at place `k`.
pub proof fn law_every_partition_of_a_disk(
    partitions: Seq<Partition>,
    n: u32,
    i: int,
    k: int,
) -> (r: (int, int))
    ensures
        0 <= i < partitions.len() && partitions[i].disk_number == n ==> 0 <= r.0 < partitions_on(
            partitions,
            n,
        ).len() && partitions_on(partitions, n)[r.0] == partitions[i],
        0 <= k < partitions_on(partitions, n).len() ==> 0 <= r.1 < partitions.len()
            && partitions[r.1] == partitions_on(partitions, n)[k] && partitions[r.1].disk_number
            == n,
{
    let pred = |p: Partition| p.disk_number == n;
    let kept = partitions.filter(pred);
    let a = if 0 <= i < partitions.len() && partitions[i].disk_number == n {
        partitions.lemma_filter_contains(pred, i);
        choose|a: int| 0 <= a < kept.len() && kept[a] == partitions[i]
    } else {
        0
    };
    let b = if 0 <= k < kept.len() {
        partitions.lemma_filter_pred(pred, k);
        assert(kept.contains(kept[k]));
        partitions.lemma_filter_contains_rev(pred, kept[k]);
        choose|b: int| 0 <= b < partitions.len() && partitions[b] == kept[k]
    } else {
        0
    };
    (a, b)
}

} // verus!
