use photo_ingest::discovery::assemble_readers;
use photo_ingest::discovery::DiskDetail;
use photo_ingest::discovery::DiskSnapshot;
use photo_ingest::discovery::PartitionDetail;
use photo_ingest::discovery::PartitionSnapshot;
use photo_ingest::listing::build_directory_listing;
use photo_ingest::listing::str_lex_leq;
use photo_ingest::listing::DirectoryEntry;
use photo_ingest::paths::renamed_sibling_path;
use photo_ingest::volumes::classify_volume;
use photo_ingest::volumes::classify_volumes;

fn usb_detail(removable: bool) -> DiskDetail {
    DiskDetail {
        device_tree_path: Some(String::from("IODeviceTree:/arm-io/usb-drd1")),
        bus_protocol: Some(String::from("USB")),
        internal: Some(false),
        removable: Some(removable),
        removable_media: Some(false),
    }
}

fn mounted_partition(volume_name: Option<&str>) -> PartitionSnapshot {
    PartitionSnapshot {
        mount_point: Some(String::from("/Volumes/SDCARD")),
        volume_name: volume_name.map(String::from),
        detail: Some(PartitionDetail { volume_name: None }),
        file_count: 12,
    }
}

#[test]
fn one_removable_disk_yields_one_external_reader() {
    let disks = vec![DiskSnapshot {
        device_identifier: String::from("disk4"),
        detail: Some(usb_detail(true)),
        partitions: vec![mounted_partition(Some("SDCARD"))],
    }];
    let readers = assemble_readers(&disks);
    assert_eq!(readers.len(), 1);
    let r = &readers[0];
    assert_eq!(r.display_name, String::from("External USB Reader"));
    assert_eq!(r.volume_name, String::from("SDCARD"));
    assert_eq!(r.bus_protocol, String::from("USB"));
    assert_eq!(r.reader_id, String::from("IODeviceTree:/arm-io/usb-drd1"));
    assert_eq!(r.mount_point, String::from("/Volumes/SDCARD"));
    assert_eq!(r.disk_id, String::from("disk4"));
    assert!(!r.is_internal);
    assert_eq!(r.file_count, 12);
}

#[test]
fn non_removable_disk_never_appears() {
    let disks = vec![DiskSnapshot {
        device_identifier: String::from("disk0"),
        detail: Some(DiskDetail {
            device_tree_path: Some(String::from("IODeviceTree:/arm-io/ans")),
            bus_protocol: Some(String::from("Apple Fabric")),
            internal: Some(true),
            removable: Some(false),
            removable_media: Some(false),
        }),
        partitions: vec![mounted_partition(Some("Data")), mounted_partition(Some("System"))],
    }];
    assert_eq!(assemble_readers(&disks).len(), 0);
}

#[test]
fn removable_media_flag_alone_keeps_the_disk() {
    let mut detail = usb_detail(false);
    detail.removable_media = Some(true);
    let disks = vec![DiskSnapshot {
        device_identifier: String::from("disk5"),
        detail: Some(detail),
        partitions: vec![mounted_partition(Some("CARD"))],
    }];
    assert_eq!(assemble_readers(&disks).len(), 1);
}

#[test]
fn unparsed_disk_metadata_skips_the_disk() {
    let disks = vec![DiskSnapshot {
        device_identifier: String::from("disk6"),
        detail: None,
        partitions: vec![mounted_partition(Some("CARD"))],
    }];
    assert_eq!(assemble_readers(&disks).len(), 0);
}

#[test]
fn unmounted_or_unparsed_partitions_are_skipped() {
    let unmounted = PartitionSnapshot {
        mount_point: None,
        volume_name: Some(String::from("GHOSTLY")),
        detail: Some(PartitionDetail { volume_name: None }),
        file_count: 0,
    };
    let unparsed = PartitionSnapshot {
        mount_point: Some(String::from("/Volumes/RAW")),
        volume_name: Some(String::from("RAW")),
        detail: None,
        file_count: 0,
    };
    let disks = vec![DiskSnapshot {
        device_identifier: String::from("disk4"),
        detail: Some(usb_detail(true)),
        partitions: vec![unmounted, unparsed, mounted_partition(Some("KEPT"))],
    }];
    let readers = assemble_readers(&disks);
    assert_eq!(readers.len(), 1);
    assert_eq!(readers[0].volume_name, String::from("KEPT"));
}

#[test]
fn reader_id_falls_back_to_the_disk_identifier() {
    let mut detail = usb_detail(true);
    detail.device_tree_path = None;
    let disks = vec![DiskSnapshot {
        device_identifier: String::from("disk7"),
        detail: Some(detail),
        partitions: vec![mounted_partition(Some("CARD"))],
    }];
    let readers = assemble_readers(&disks);
    assert_eq!(readers[0].reader_id, String::from("disk7"));
}

#[test]
fn volume_name_falls_back_to_metadata_then_placeholder() {
    let mut with_detail_name = mounted_partition(None);
    with_detail_name.detail = Some(PartitionDetail { volume_name: Some(String::from("NIKON")) });
    let nameless = mounted_partition(None);
    let disks = vec![DiskSnapshot {
        device_identifier: String::from("disk4"),
        detail: Some(usb_detail(true)),
        partitions: vec![with_detail_name, nameless],
    }];
    let readers = assemble_readers(&disks);
    assert_eq!(readers[0].volume_name, String::from("NIKON"));
    assert_eq!(readers[1].volume_name, String::from("Untitled"));
}

#[test]
fn internal_reader_and_missing_bus_wording() {
    let disks = vec![DiskSnapshot {
        device_identifier: String::from("disk8"),
        detail: Some(DiskDetail {
            device_tree_path: None,
            bus_protocol: None,
            internal: Some(true),
            removable: Some(true),
            removable_media: None,
        }),
        partitions: vec![mounted_partition(Some("CF"))],
    }];
    let readers = assemble_readers(&disks);
    assert_eq!(readers[0].display_name, String::from("Built-in Unknown Reader"));
    assert_eq!(readers[0].bus_protocol, String::from("Unknown"));
    assert!(readers[0].is_internal);
}

#[test]
fn system_volume_is_not_removable() {
    let v = classify_volume(String::from("Macintosh HD"), String::from("/Volumes/Macintosh HD"));
    assert!(!v.is_removable);
    let v = classify_volume(String::from("SDCARD"), String::from("/Volumes/SDCARD"));
    assert!(v.is_removable);
}

#[test]
fn volumes_keep_listing_order_and_fields() {
    let vols = classify_volumes(vec![
        (String::from("SDCARD"), String::from("/Volumes/SDCARD")),
        (String::from("Macintosh HD"), String::from("/Volumes/Macintosh HD")),
    ]);
    assert_eq!(vols.len(), 2);
    assert_eq!(vols[0].name, String::from("SDCARD"));
    assert_eq!(vols[0].path, String::from("/Volumes/SDCARD"));
    assert!(vols[0].is_removable);
    assert_eq!(vols[1].name, String::from("Macintosh HD"));
    assert!(!vols[1].is_removable);
}

fn entry(name: &str, is_directory: bool, file_count: u32) -> DirectoryEntry {
    DirectoryEntry {
        name: String::from(name),
        path: format!("/cards/{}", name),
        is_directory,
        file_count,
    }
}

#[test]
fn listing_drops_hidden_entries_and_sorts_by_name() {
    let entries = vec![
        entry("zeta", true, 3),
        entry(".Trashes", true, 0),
        entry("DCIM", true, 9),
        entry("alpha.jpg", false, 0),
        entry(".DS_Store", false, 0),
    ];
    let listed = build_directory_listing(entries);
    let names: Vec<&str> = listed.iter().map(|e| e.name.as_str()).collect();
    assert_eq!(names, vec!["DCIM", "alpha.jpg", "zeta"]);
    assert_eq!(listed[0].file_count, 9);
    assert_eq!(listed[0].path, String::from("/cards/DCIM"));
    assert!(listed[0].is_directory);
}

#[test]
fn listing_keeps_duplicate_names() {
    let entries = vec![entry("b", false, 0), entry("a", false, 0), entry("b", true, 2)];
    let listed = build_directory_listing(entries);
    let names: Vec<&str> = listed.iter().map(|e| e.name.as_str()).collect();
    assert_eq!(names, vec!["a", "b", "b"]);
}

#[test]
fn name_order_is_lexicographic() {
    assert!(str_lex_leq("DCIM", "DCIM"));
    assert!(str_lex_leq("DCIM", "DCIM2"));
    assert!(!str_lex_leq("DCIM2", "DCIM"));
    assert!(str_lex_leq("ABC", "abc"));
    assert!(str_lex_leq("", "a"));
}

#[test]
fn renamed_folder_stays_in_its_parent() {
    assert_eq!(
        renamed_sibling_path("/Volumes/SDCARD/100APPLE", "Trip 00"),
        String::from("/Volumes/SDCARD/Trip 00")
    );
    assert_eq!(renamed_sibling_path("bare", "renamed"), String::from("renamed"));
}
