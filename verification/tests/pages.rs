use serverbox::disk::{
    docker_usage, fullest_mounts, parse_directories, parse_disk_scan, parse_docker_size,
    parse_largest_files, parse_mounts, parse_usage_rows, path_depth, KindUsage, RankedMount,
    MAX_MOUNTS,
};
use serverbox::paging::{keep_first, page, page_limit, MAX_PAGE_SIZE};
use serverbox::paths::{
    file_name, parent, remote_path, resolve_local_path, with_file_name, LocalPath,
};
use serverbox::sections::{find_keyed, parse_keyed_section, parse_sections};
use serverbox::text::chars_of;

#[test]
fn pages_are_bounded() {
    let items: Vec<String> = (0..5).map(|n| n.to_string()).collect();
    assert_eq!(keep_first(items.clone(), 2).len(), 2);
    let first = page(items.clone(), 3);
    assert_eq!(first.items, vec!["0", "1", "2"]);
    assert!(first.has_more);
    assert!(!page(items.clone(), 5).has_more);
    assert_eq!(page_limit(0), 1);
    assert_eq!(page_limit(30), 30);
    assert_eq!(page_limit(usize::MAX), MAX_PAGE_SIZE);
}

#[test]
fn paths_are_taken_apart_as_std_does() {
    for text in ["/a/b", "/a/b/", "a", "/", "", ".", "..", "/a/..", "a/./b", "a//b", "/a/b//", "./x", "a/."] {
        let path = std::path::Path::new(text);
        assert_eq!(
            file_name(text),
            path.file_name().map(|name| name.to_str().unwrap().to_string()),
            "{text:?}"
        );
        assert_eq!(
            parent(text),
            path.parent().map(|above| above.to_str().unwrap().to_string()),
            "{text:?}"
        );
        assert_eq!(
            with_file_name(text, "new"),
            path.with_file_name("new").to_str().unwrap(),
            "{text:?}"
        );
    }
}

#[test]
fn asked_paths_are_trimmed() {
    assert_eq!(remote_path("  "), ".");
    assert_eq!(remote_path(" /var "), "/var");
    assert_eq!(resolve_local_path(" ~ ", true), LocalPath::Home);
    assert_eq!(resolve_local_path("~", false), LocalPath::Plain("~".to_string()));
    assert_eq!(resolve_local_path("~/x", true), LocalPath::BelowHome("x".to_string()));
    assert_eq!(resolve_local_path("~\\x", true), LocalPath::BelowHome("x".to_string()));
    assert_eq!(resolve_local_path("~/x", false), LocalPath::Plain("~/x".to_string()));
    assert_eq!(resolve_local_path(" /x", true), LocalPath::Plain("/x".to_string()));
}

#[test]
fn sections_are_found_by_name() {
    let text = "before\n@@one\na\nb\n@@two\n\n@@one\nc";
    let sections = parse_sections(text, "@@");
    assert_eq!(sections.section("two"), "\n");
    assert_eq!(sections.section("none"), "");
    assert!(sections.section("one").contains('c'));
    assert_eq!(find_keyed("x\t1\ny\t2", "y"), Some("2".to_string()));
    assert_eq!(find_keyed("x\t1", "z"), None);
    let keyed = parse_keyed_section("x\t1\nnothing\ny\ta\tb");
    assert_eq!(keyed.get("y"), Some(&"a\tb".to_string()));
    assert!(!keyed.has("nothing"));
}

#[test]
fn mounts_carry_their_inodes() {
    let table = "Filesystem 1024-blocks Used Available Capacity Mounted on\n/dev/sda1 1000 400 600 40% /\ntmpfs 10 0 10 0% /run\n/dev/sdb1 2000 1000 1000 50% /mnt/my disk\nbroken line\n";
    let inodes = "inode\t/dev/sda1\t100\t7\t7%\t/\ninode\t/dev/sdb1\t5\t1\t20%\t/elsewhere\nother\t/dev/sdb1\t5\t1\t20%\t/mnt/my disk\n";
    let mounts = parse_mounts(table, inodes);
    let root = mounts.iter().find(|mount| mount.mount == "/").unwrap();
    assert_eq!(root.filesystem, "/dev/sda1");
    assert_eq!((root.total_bytes, root.used_bytes, root.available_bytes), (1024000, 409600, 614400));
    assert_eq!((root.inode_total, root.inode_used), (Some(100), Some(7)));
    assert_eq!((root.percent.as_str(), root.inode_percent.as_deref()), ("40", Some("7")));
    assert_eq!(mounts.len(), 3);
    let disk = mounts.iter().find(|mount| mount.mount == "/mnt/my disk").unwrap();
    assert_eq!(disk.inode_total, None);
}

#[test]
fn the_fullest_mounts_come_first() {
    let table = "Filesystem 1024-blocks Used Available Capacity Mounted on\n/dev/a 10 1 9 10% /a\n/dev/b 10 9 1 90% /b\n";
    let mounts = parse_mounts(table, "");
    let ranked: Vec<RankedMount> = mounts
        .into_iter()
        .map(|mount| {
            let rank = mount.used_bytes as i64;
            RankedMount { mount, rank }
        })
        .collect();
    let sorted = fullest_mounts(ranked);
    assert_eq!(sorted[0].mount, "/b");
    assert!(sorted.len() <= MAX_MOUNTS);
}

#[test]
fn depth_counts_what_lies_below_the_top() {
    assert_eq!(path_depth(&chars_of("/var/log")), 1);
    assert_eq!(path_depth(&chars_of("/var")), 0);
    assert_eq!(path_depth(&chars_of("/")), 0);
    assert_eq!(path_depth(&chars_of("/a/b/c/")), 2);
}

#[test]
fn usage_is_summed_by_kind() {
    let row = |kind: &str, size: u64, reclaimable: u64| KindUsage {
        kind: kind.to_string(),
        size,
        reclaimable,
    };
    assert_eq!(docker_usage(&[]), None);
    let usage = docker_usage(&[
        row("Images", 100, 40),
        row("Containers", 10, 10),
        row("Local Volumes", 5, 9),
        row("Build Cache", 3, 0),
        row("Other", 2, 1),
    ])
    .unwrap();
    assert_eq!(usage.images_bytes, 100);
    assert_eq!(usage.containers_bytes, 10);
    assert_eq!(usage.volumes_bytes, 5);
    assert_eq!(usage.build_cache_bytes, 3);
    assert_eq!(usage.other_bytes, 2);
    assert_eq!(usage.total_bytes, 120);
    assert_eq!(usage.reclaimable_bytes, 60);
    assert_eq!(docker_usage(&[row("Images", 1, 5)]).unwrap().reclaimable_bytes, 1);
}

#[test]
fn sizes_have_the_units_of_docker() {
    for (text, number, multiplier) in [
        ("897B", "897", 1),
        ("12.34kB", "12.34", 1_000),
        ("208.4MB (45%)", "208.4", 1_000_000),
        ("2 TB", "2", 1_000_000_000_000),
        ("1 KiB", "1", 1024),
        ("3GiB", "3", 1_073_741_824),
        ("7", "7", 1),
        ("7 bogus", "7", 1),
        ("n/a", "", 1),
    ] {
        let size = parse_docker_size(&chars_of(text));
        assert_eq!((size.number.as_str(), size.multiplier), (number, multiplier), "{text}");
    }
}

#[test]
fn files_and_directories_keep_their_order() {
    let files = parse_largest_files(
        "2048\t1700000000.123\t/var/log/big file\nnot a file\n7\t0\t/x\n1\t\t \nx\t1\t/y\n",
    );
    assert_eq!(files.len(), 2);
    assert_eq!(
        (files[0].path.as_str(), files[0].size_bytes, files[0].modified_at),
        ("/var/log/big file", 2048, Some(1700000000))
    );
    assert_eq!(files[1].modified_at, None);
    let directories = parse_directories("9\t/var\n9\t/var\n5\t/var/log\nx\t/y\n3\t\n2\t/var\n");
    let found: Vec<(&str, u64, u32)> = directories
        .iter()
        .map(|entry| (entry.path.as_str(), entry.size_bytes, entry.depth))
        .collect();
    assert_eq!(found, vec![("/var", 9216, 0), ("/var/log", 5120, 1), ("/var", 2048, 0)]);
}

#[test]
fn scans_are_read_in_sections() {
    let scan = parse_disk_scan("");
    assert!(scan.mounts.is_empty() && scan.largest_files.is_empty() && scan.docker_usage.is_empty());
    let scan = parse_disk_scan(
        "\n__SERVERBOX_DISK_V1__mounts\nhead\n/dev/a 10 5 5 50% /\n\n__SERVERBOX_DISK_V1__largest_files\n1\t2\t/f\n\n__SERVERBOX_DISK_V1__largest_dirs\n4\t/d\n\n__SERVERBOX_DISK_V1__docker_usage\nImages\t3\t1\t1GB\t500MB (50%)\nshort\t1\n",
    );
    assert_eq!(scan.mounts[0].mount, "/");
    assert_eq!(scan.largest_files[0].path, "/f");
    assert_eq!(scan.largest_dirs[0].size_bytes, 4096);
    assert_eq!(scan.docker_usage.len(), 1);
    assert_eq!(scan.docker_usage[0].kind, "Images");
    assert_eq!(scan.docker_usage[0].reclaimable.number, "500");
    assert_eq!(parse_usage_rows("Images\t1GB\t500MB").len(), 0);
}

#[test]
fn opened_sections_are_there() {
    let output = "noise\n__SERVERBOX_DISK_V1__mounts \na\n\n__SERVERBOX_DISK_V1__inodes\n__SERVERBOX_DISK_V1__mounts\nb";
    let sections = parse_sections(output, "__SERVERBOX_DISK_V1__");
    assert_eq!(sections.texts.get("mounts"), Some(&"a\n\nb\n".to_string()));
    assert_eq!(sections.texts.get("inodes"), Some(&String::new()));
    assert_eq!(sections.texts.get("noise"), None);
    assert_eq!(sections.texts.names().len(), 2);
}
