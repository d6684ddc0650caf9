use nm_monitor::json::Json;
use nm_monitor::ovsdb_fuse::{data_from, entries_from, EntityType, FileKind, OvsdbCache, OvsdbFuse};
use nm_monitor::ovsdb_cache::OvsdbCache as DiskCache;

fn s(t: &str) -> String {
    t.to_string()
}

fn uuid_ref(u: &str) -> Json {
    Json::Array(vec![Json::Str(s("uuid")), Json::Str(s(u))])
}

fn bridge_record() -> Json {
    Json::Object(vec![
        (s("_uuid"), uuid_ref("b-1")),
        (s("_version"), uuid_ref("v-1")),
        (s("name"), Json::Str(s("ovsbr0"))),
        (s("datapath_type"), Json::Str(s("system"))),
        (s("ports"), Json::Array(vec![uuid_ref("p-1"), uuid_ref("p-2"), Json::Str(s("junk"))])),
    ])
}

fn port_record() -> Json {
    Json::Object(vec![
        (s("_uuid"), uuid_ref("p-1")),
        (s("name"), Json::Str(s("eth0"))),
        (s("interfaces"), Json::Array(vec![uuid_ref("i-1")])),
    ])
}

fn loaded() -> OvsdbFuse {
    let mut fs = OvsdbFuse::new();
    fs.cache.add_from_json(EntityType::Bridge, "ovsbr0", bridge_record());
    fs.cache.add_from_json(EntityType::Port, "eth0", port_record());
    fs
}

#[test]
fn fixed_directories_have_fixed_inodes() {
    let cache = OvsdbCache::new();
    assert_eq!(cache.get_inode("/"), Some(1));
    assert_eq!(cache.get_inode("/by-uuid"), Some(2));
    assert_eq!(cache.get_inode("/by-name/interfaces"), Some(10));
    assert_eq!(cache.get_path(9), Some("/by-uuid/interfaces"));
    assert_eq!(cache.get_path(11), None);
    assert_eq!(cache.next_inode, 100);
}

#[test]
fn allocation_is_stable_and_invertible() {
    let mut cache = OvsdbCache::new();
    let a = cache.allocate_inode("/by-uuid/bridges/x");
    let b = cache.allocate_inode("/by-uuid/bridges/y");
    let again = cache.allocate_inode("/by-uuid/bridges/x");
    assert_eq!(a, 100);
    assert_eq!(b, 101);
    assert_eq!(again, 100);
    assert_eq!(cache.get_path(a), Some("/by-uuid/bridges/x"));
    assert_eq!(cache.get_inode("/by-uuid/bridges/y"), Some(101));
    assert_eq!(cache.next_inode, 102);
}

#[test]
fn records_become_entities_with_attributes_and_relations() {
    let fs = loaded();
    let e = fs.cache.entity_by_uuid(EntityType::Bridge, "b-1").unwrap();
    assert_eq!(e.uuid, "b-1");
    assert_eq!(e.name, "ovsbr0");
    let keys: Vec<&str> = e.attributes.iter().map(|a| a.0.as_str()).collect();
    assert_eq!(keys, vec!["name", "datapath_type", "ports"]);
    assert_eq!(e.relationships.len(), 1);
    assert_eq!(e.relationships[0].0, "ports");
    assert_eq!(e.relationships[0].1, vec![s("p-1"), s("p-2")]);
    let by_name = fs.cache.entity_by_name(EntityType::Bridge, "ovsbr0").unwrap();
    assert_eq!(by_name.uuid, "b-1");
    let p = fs.cache.entity_by_uuid(EntityType::Port, "p-1").unwrap();
    assert_eq!(p.relationships[0].0, "interfaces");
    assert_eq!(p.relationships[0].1, vec![s("i-1")]);
    assert!(fs.cache.entity_by_uuid(EntityType::Interface, "p-1").is_none());
    // both paths of each entity were given inodes
    assert_eq!(fs.cache.get_inode("/by-uuid/bridges/b-1"), Some(100));
    assert_eq!(fs.cache.get_inode("/by-name/bridges/ovsbr0"), Some(101));
    assert_eq!(fs.cache.get_inode("/by-name/ports/eth0"), Some(103));
}

#[test]
fn record_without_uuid_changes_nothing() {
    let mut fs = OvsdbFuse::new();
    fs.cache.add_from_json(EntityType::Bridge, "x", Json::Object(vec![(s("name"), Json::Str(s("x")))]));
    fs.cache.add_from_json(EntityType::Bridge, "y", Json::Null);
    assert!(fs.cache.bridges.is_empty());
    assert!(fs.cache.bridge_names.is_empty());
    assert_eq!(fs.cache.next_inode, 100);
}

#[test]
fn lookup_finds_entities_and_fixed_directories() {
    let mut fs = loaded();
    // under the root the joined path starts with two slashes, which names nothing
    assert!(fs.lookup(1, "by-uuid").is_none());
    assert!(fs.lookup(2, "bridges") == Some((5, FileKind::Directory)));
    assert!(fs.lookup(7, "ovsbr0") == Some((101, FileKind::Symlink)));
    assert!(fs.lookup(5, "b-1") == Some((100, FileKind::Directory)));
    assert!(fs.lookup(5, "nope").is_none());
    assert!(fs.lookup(999, "b-1").is_none());
}

#[test]
fn getattr_classifies_nodes() {
    let mut fs = loaded();
    assert!(fs.getattr(4) == Some(FileKind::Directory));
    assert!(fs.getattr(101) == Some(FileKind::Symlink));
    assert!(fs.getattr(100) == Some(FileKind::Directory));
    assert!(fs.getattr(5000).is_none());
    let entries = fs.dir_entries(100);
    // attribute files live under /by-uuid, so they are reported as directories too
    assert!(fs.getattr(entries[0].0) == Some(FileKind::Directory));
    let attr = OvsdbFuse::get_attr(7, FileKind::Directory);
    assert_eq!(attr.perm, 0o755);
    assert_eq!(attr.blksize, 512);
    assert_eq!(OvsdbFuse::get_attr(7, FileKind::Symlink).perm, 0o644);
}

#[test]
fn readdir_lists_and_pages() {
    let mut fs = loaded();
    let root = fs.readdir(1, 0);
    let names: Vec<&str> = root.iter().map(|e| e.3.as_str()).collect();
    assert_eq!(names, vec!["by-uuid", "by-name", "aliases"]);
    assert_eq!(root[0].0, 2);
    assert_eq!(root[2].1, 3);
    let bridges = fs.readdir(5, 0);
    assert_eq!(bridges.len(), 1);
    assert_eq!(bridges[0].3, "b-1");
    assert!(bridges[0].2 == FileKind::Directory);
    let names_dir = fs.readdir(7, 0);
    assert!(names_dir[0].2 == FileKind::Symlink);
    let attrs = fs.readdir(100, 1);
    let attr_names: Vec<&str> = attrs.iter().map(|e| e.3.as_str()).collect();
    assert_eq!(attr_names, vec!["datapath_type", "ports"]);
    assert_eq!(attrs[0].1, 2);
    assert_eq!(fs.cache.get_path(attrs[0].0), Some("/by-uuid/bridges/b-1/datapath_type"));
    assert!(fs.readdir(100, -1).is_empty());
    assert!(fs.readdir(100, 7).is_empty());
    assert!(fs.readdir(4, 0).is_empty());
}

#[test]
fn readlink_points_at_uuid_directory() {
    let fs = loaded();
    assert_eq!(fs.readlink(101), Some(s("../../by-uuid/bridges/b-1")));
    assert_eq!(fs.readlink(100), None);
}

#[test]
fn read_serves_attribute_values() {
    let mut fs = loaded();
    let entries = fs.dir_entries(100);
    let dt = entries.iter().find(|e| e.2 == "datapath_type").unwrap().0;
    match fs.read(dt) {
        Some(Json::Str(v)) => assert_eq!(v, "system"),
        _ => panic!("no value"),
    }
    assert!(fs.read(100).is_none());
    let data = vec![1u8, 2, 3, 4];
    assert_eq!(data_from(&data, 1), vec![2, 3, 4]);
    assert!(data_from(&data, 4).is_empty());
    assert!(data_from(&data, -2).is_empty());
}

#[test]
fn entries_from_numbers_offsets() {
    let entries = vec![(10u64, FileKind::Directory, s("a")), (11, FileKind::Symlink, s("b"))];
    let r = entries_from(&entries, 1);
    assert_eq!(r.len(), 1);
    assert_eq!(r[0].0, 11);
    assert_eq!(r[0].1, 2);
    assert_eq!(r[0].3, "b");
}

#[test]
fn disk_cache_paths_and_links() {
    let cache = DiskCache::new();
    assert_eq!(cache.bridge_dir("test-uuid-123"), "/var/lib/ovsdb-cache/by-uuid/bridges/test-uuid-123");
    assert_eq!(cache.name_link("test-bridge"), "/var/lib/ovsdb-cache/by-name/bridges/test-bridge");
    let target = DiskCache::link_target("test-uuid-123");
    assert_eq!(target, "../../by-uuid/bridges/test-uuid-123");
    assert_eq!(DiskCache::uuid_from_target(&target), Some(s("test-uuid-123")));
    let dirs = cache.init_dirs();
    assert_eq!(dirs.len(), 6);
    assert_eq!(dirs[5], "/var/lib/ovsdb-cache/aliases");
    let entity = nm_monitor::ovsdb_cache::OvsdbEntity {
        uuid: s("test-uuid-123"),
        name: s("test-bridge"),
        attributes: vec![(s("datapath_type"), s("system"))],
        relationships: Vec::new(),
    };
    let files = cache.bridge_files(&entity);
    assert_eq!(files[0], (s("/var/lib/ovsdb-cache/by-uuid/bridges/test-uuid-123/name"), s("test-bridge")));
    assert_eq!(files[2], (s("/var/lib/ovsdb-cache/by-uuid/bridges/test-uuid-123/datapath_type"), s("system")));
}
