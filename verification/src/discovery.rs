//! DeviceDiscovery: assemble card-reader records from a snapshot of the
//! OS disk tree.  The caller queries the disk-management subsystem and
//! hands over, per physical disk, the detailed disk metadata (or nothing,
//! when that query could not be parsed) and the disk's partitions, each
//! with its mount point, its detailed metadata and the eligible-file count
//! under its mount point.  Assembly keeps only removable disks, and builds
//! one record per mounted partition whose metadata parsed.
use vstd::prelude::*;
use vstd::string::StringExecFns;

verus! {

/// Detailed per-disk metadata, each field as the disk-management query
/// reports it (absent fields stay absent).
pub struct DiskDetail {
    /// Hardware-topology identifier; stable across reinsertion.
    pub device_tree_path: Option<String>,
    pub bus_protocol: Option<String>,
    pub internal: Option<bool>,
    pub removable: Option<bool>,
    pub removable_media: Option<bool>,
}

/// Detailed per-partition metadata.
pub struct PartitionDetail {
    pub volume_name: Option<String>,
}

/// One partition of a disk, as the snapshot hands it over.  `detail` is
/// `None` when the per-partition metadata query could not be parsed; such
/// a partition is skipped.  `file_count` is the eligible-file count under
/// the mount point, counted by the caller's read-only walk.
pub struct PartitionSnapshot {
    pub mount_point: Option<String>,
    pub volume_name: Option<String>,
    pub detail: Option<PartitionDetail>,
    pub file_count: u32,
}

/// One physical disk of the snapshot.  `detail` is `None` when the
/// per-disk metadata query could not be parsed; such a disk is skipped.
pub struct DiskSnapshot {
    pub device_identifier: String,
    pub detail: Option<DiskDetail>,
    pub partitions: Vec<PartitionSnapshot>,
}

/// One discovered reader: a removable disk joined with one of its mounted
/// partitions.
pub struct CardReaderInfo {
    /// The disk's device-tree path when available, else its device
    /// identifier: the stable correlation key for a physical reader.
    pub reader_id: String,
    pub display_name: String,
    pub mount_point: String,
    pub volume_name: String,
    pub bus_protocol: String,
    pub is_internal: bool,
    pub disk_id: String,
    pub file_count: u32,
}

/// The mathematical image of one reader record.
pub ghost struct ReaderView {
    pub reader_id: Seq<char>,
    pub display_name: Seq<char>,
    pub mount_point: Seq<char>,
    pub volume_name: Seq<char>,
    pub bus_protocol: Seq<char>,
    pub is_internal: bool,
    pub disk_id: Seq<char>,
    pub file_count: u32,
}

impl View for CardReaderInfo {
    type V = ReaderView;

    open spec fn view(&self) -> ReaderView {
        ReaderView {
            reader_id: self.reader_id@,
            display_name: self.display_name@,
            mount_point: self.mount_point@,
            volume_name: self.volume_name@,
            bus_protocol: self.bus_protocol@,
            is_internal: self.is_internal,
            disk_id: self.disk_id@,
            file_count: self.file_count,
        }
    }
}

/// An absent flag counts as false.
pub open spec fn spec_flag(o: Option<bool>) -> bool {
    o is Some && o->0
}

/// A disk is kept iff either removability flag is set.
pub open spec fn spec_disk_removable(det: DiskDetail) -> bool {
    spec_flag(det.removable) || spec_flag(det.removable_media)
}

/// The reader identifier: the device-tree path when the disk reports one,
/// else the disk's device identifier.
pub open spec fn spec_reader_id(disk_id: Seq<char>, det: DiskDetail) -> Seq<char> {
    match det.device_tree_path {
        Some(t) => t@,
        None => disk_id,
    }
}

/// The bus protocol, with a placeholder when the disk reports none.
pub open spec fn spec_bus_protocol(det: DiskDetail) -> Seq<char> {
    match det.bus_protocol {
        Some(b) => b@,
        None => "Unknown"@,
    }
}

/// The display name: the internal flag picks the wording, around the bus
/// protocol.
pub open spec fn spec_display_name(det: DiskDetail) -> Seq<char> {
    (if spec_flag(det.internal) {
        "Built-in "@
    } else {
        "External "@
    }) + spec_bus_protocol(det) + " Reader"@
}

/// The volume name: the partition listing's name, falling back to the
/// detailed metadata's name, falling back to a placeholder.
pub open spec fn spec_volume_name(p: PartitionSnapshot, pd: PartitionDetail) -> Seq<char> {
    match p.volume_name {
        Some(v) => v@,
        None => match pd.volume_name {
            Some(v) => v@,
            None => "Untitled"@,
        },
    }
}

/// The reader built from one partition of a kept disk: none when the
/// partition is unmounted or its metadata query did not parse.
pub open spec fn spec_partition_reader(
    disk_id: Seq<char>,
    det: DiskDetail,
    p: PartitionSnapshot,
) -> Option<ReaderView> {
    match p.mount_point {
        None => None,
        Some(mp) => match p.detail {
            None => None,
            Some(pd) => Some(
                ReaderView {
                    reader_id: spec_reader_id(disk_id, det),
                    display_name: spec_display_name(det),
                    mount_point: mp@,
                    volume_name: spec_volume_name(p, pd),
                    bus_protocol: spec_bus_protocol(det),
                    is_internal: spec_flag(det.internal),
                    disk_id: disk_id,
                    file_count: p.file_count,
                },
            ),
        },
    }
}

/// The readers of a kept disk's partitions, in partition order.
pub open spec fn spec_partition_readers(
    disk_id: Seq<char>,
    det: DiskDetail,
    parts: Seq<PartitionSnapshot>,
) -> Seq<ReaderView>
    decreases parts.len(),
{
    if parts.len() == 0 {
        Seq::empty()
    } else {
        spec_partition_readers(disk_id, det, parts.drop_last()) + match spec_partition_reader(
            disk_id,
            det,
            parts.last(),
        ) {
            Some(rv) => seq![rv],
            None => Seq::empty(),
        }
    }
}

/// The readers one disk contributes: none unless its metadata parsed and
/// flags it removable.
pub open spec fn spec_disk_readers(d: DiskSnapshot) -> Seq<ReaderView> {
    match d.detail {
        None => Seq::empty(),
        Some(det) => if !spec_disk_removable(det) {
            Seq::empty()
        } else {
            spec_partition_readers(d.device_identifier@, det, d.partitions@)
        },
    }
}

/// All readers of a disk-tree snapshot, in disk order.
pub open spec fn spec_all_readers(disks: Seq<DiskSnapshot>) -> Seq<ReaderView>
    decreases disks.len(),
{
    if disks.len() == 0 {
        Seq::empty()
    } else {
        spec_all_readers(disks.drop_last()) + spec_disk_readers(disks.last())
    }
}

/// The views of a list of reader records.
pub open spec fn spec_reader_views(readers: Seq<CardReaderInfo>) -> Seq<ReaderView> {
    readers.map_values(|r: CardReaderInfo| r@)
}

/// An absent flag counts as false.
fn flag_set(o: &Option<bool>) -> (r: bool)
    ensures
        r == spec_flag(*o),
{
    match o {
        Some(b) => *b,
        None => false,
    }
}

/// A disk is kept iff either removability flag is set.
pub fn disk_is_removable(det: &DiskDetail) -> (r: bool)
    ensures
        r == spec_disk_removable(*det),
{
    flag_set(&det.removable) || flag_set(&det.removable_media)
}

/// Build the reader record of one partition of a kept disk, or nothing
/// when the partition is unmounted or its metadata did not parse.
fn partition_reader(
    disk_id: &String,
    det: &DiskDetail,
    p: &PartitionSnapshot,
) -> (r: Option<CardReaderInfo>)
    ensures
        match r {
            Some(ri) => spec_partition_reader(disk_id@, *det, *p) == Some(ri@),
            None => spec_partition_reader(disk_id@, *det, *p) is None,
        },
{
    let mount_point = match &p.mount_point {
        Some(mp) => mp.clone(),
        None => {
            return None;
        },
    };
    let pd = match &p.detail {
        Some(pd) => pd,
        None => {
            return None;
        },
    };
    let reader_id = match &det.device_tree_path {
        Some(t) => t.clone(),
        None => disk_id.clone(),
    };
    let volume_name = match &p.volume_name {
        Some(v) => v.clone(),
        None => match &pd.volume_name {
            Some(v) => v.clone(),
            None => String::from_str("Untitled"),
        },
    };
    let bus_protocol = match &det.bus_protocol {
        Some(b) => b.clone(),
        None => String::from_str("Unknown"),
    };
    let is_internal = flag_set(&det.internal);
    let display_name = if is_internal {
        String::from_str("Built-in ")
    } else {
        String::from_str("External ")
    };
    let display_name = display_name.concat(bus_protocol.as_str()).concat(" Reader");
    Some(
        CardReaderInfo {
            reader_id,
            display_name,
            mount_point,
            volume_name,
            bus_protocol,
            is_internal,
            disk_id: disk_id.clone(),
            file_count: p.file_count,
        },
    )
}

/// The reader records one disk contributes.
fn disk_readers(d: &DiskSnapshot) -> (readers: Vec<CardReaderInfo>)
    ensures
        spec_reader_views(readers@) == spec_disk_readers(*d),
{
    let mut readers: Vec<CardReaderInfo> = Vec::new();
    let det = match &d.detail {
        Some(det) => det,
        None => {
            proof {
                assert(spec_reader_views(readers@) =~= spec_disk_readers(*d));
            }
            return readers;
        },
    };
    if !disk_is_removable(det) {
        proof {
            assert(spec_reader_views(readers@) =~= spec_disk_readers(*d));
        }
        return readers;
    }
    let mut i: usize = 0;
    proof {
        assert(d.partitions@.take(0) =~= Seq::<PartitionSnapshot>::empty());
    }
    while i < d.partitions.len()
        invariant
            0 <= i <= d.partitions@.len(),
            d.detail == Some(*det),
            spec_disk_removable(*det),
            spec_reader_views(readers@) == spec_partition_readers(
                d.device_identifier@,
                *det,
                d.partitions@.take(i as int),
            ),
        decreases d.partitions@.len() - i,
    {
        proof {
            assert(d.partitions@.take(i + 1).drop_last() =~= d.partitions@.take(i as int));
            assert(d.partitions@.take(i + 1).last() == d.partitions@[i as int]);
        }
        match partition_reader(&d.device_identifier, det, &d.partitions[i]) {
            Some(ri) => {
                readers.push(ri);
                proof {
                    assert(spec_reader_views(readers@) =~= spec_partition_readers(
                        d.device_identifier@,
                        *det,
                        d.partitions@.take(i + 1),
                    ));
                }
            },
            None => {
                proof {
                    assert(spec_reader_views(readers@) =~= spec_partition_readers(
                        d.device_identifier@,
                        *det,
                        d.partitions@.take(i + 1),
                    ));
                }
            },
        }
        i = i + 1;
    }
    proof {
        assert(d.partitions@.take(d.partitions@.len() as int) =~= d.partitions@);
    }
    readers
}

/// Assemble the reader records of a whole disk-tree snapshot: one record
/// per mounted, parsed partition of each removable disk, in snapshot
/// order.
pub fn assemble_readers(disks: &Vec<DiskSnapshot>) -> (readers: Vec<CardReaderInfo>)
    ensures
        spec_reader_views(readers@) == spec_all_readers(disks@),
{
    let mut readers: Vec<CardReaderInfo> = Vec::new();
    let mut i: usize = 0;
    proof {
        assert(disks@.take(0) =~= Seq::<DiskSnapshot>::empty());
        assert(spec_reader_views(readers@) =~= spec_all_readers(disks@.take(0)));
    }
    while i < disks.len()
        invariant
            0 <= i <= disks@.len(),
            spec_reader_views(readers@) == spec_all_readers(disks@.take(i as int)),
        decreases disks@.len() - i,
    {
        proof {
            assert(disks@.take(i + 1).drop_last() =~= disks@.take(i as int));
            assert(disks@.take(i + 1).last() == disks@[i as int]);
        }
        let mut more = disk_readers(&disks[i]);
        let ghost prev = readers@;
        let ghost added = more@;
        readers.append(&mut more);
        proof {
            assert(spec_reader_views(prev + added) =~= spec_reader_views(prev) + spec_reader_views(
                added,
            ));
            assert(spec_reader_views(readers@) =~= spec_all_readers(disks@.take(i + 1)));
        }
        i = i + 1;
    }
    proof {
        assert(disks@.take(disks@.len() as int) =~= disks@);
    }
    readers
}

/// A disk whose metadata did not parse, or whose flags do not mark it
/// removable, contributes no reader, however many partitions it has
/// mounted.
pub proof fn lemma_non_removable_disk_contributes_nothing(d: DiskSnapshot)
    requires
        d.detail is None || !spec_disk_removable(d.detail->0),
    ensures
        spec_disk_readers(d) == Seq::<ReaderView>::empty(),
{
}

/// Dropping a non-removable disk from the snapshot leaves the assembled
/// readers unchanged: such a disk never appears in the output.
pub proof fn lemma_non_removable_disk_invisible(disks: Seq<DiskSnapshot>, i: int)
    requires
        0 <= i < disks.len(),
        disks[i].detail is None || !spec_disk_removable(disks[i].detail->0),
    ensures
        spec_all_readers(disks) == spec_all_readers(disks.remove(i)),
    decreases disks.len(),
{
    if i == disks.len() - 1 {
        lemma_non_removable_disk_contributes_nothing(disks[i]);
        assert(disks.remove(i) =~= disks.drop_last());
        assert(spec_all_readers(disks) =~= spec_all_readers(disks.drop_last()));
    } else {
        lemma_non_removable_disk_invisible(disks.drop_last(), i);
        assert(disks.remove(i).drop_last() =~= disks.drop_last().remove(i));
        assert(disks.remove(i).last() == disks.last());
    }
}

} // verus!
