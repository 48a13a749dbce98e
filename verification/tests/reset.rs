use backuptool::error::BackupError;
use backuptool::platform::Platform;
use backuptool::reset::{
    base_block_device, build_clone_command, clone_candidates, detect_clone_tools, df_command,
    factory_reset_command, instructions, secure_erase_advice, storage_device, storage_info,
    storage_query, storage_type, windows_freespace_wipe_command, StorageKind, StorageQuery,
};

/// Where a program is installed, looked up in the usual system directories.
fn locate(prog: &str) -> Option<String> {
    for dir in ["/usr/local/sbin", "/usr/local/bin", "/usr/sbin", "/usr/bin", "/sbin", "/bin"] {
        let cand = std::path::Path::new(dir).join(prog);
        if cand.is_file() {
            return Some(cand.to_string_lossy().into_owned());
        }
    }
    None
}

#[test]
fn dd_command_is_well_formed() {
    let cmd = build_clone_command("dd", "/dev/disk2", "/mnt/img.raw").unwrap();
    assert_eq!(cmd[0], "dd");
    assert!(cmd.contains(&"if=/dev/disk2".to_string()));
    assert!(cmd.contains(&"of=/mnt/img.raw".to_string()));
}

#[test]
fn unknown_clone_tool_errors() {
    assert!(build_clone_command("bogus", "a", "b").is_err());
}

#[test]
fn detection_lists_candidates() {
    let located: Vec<Option<String>> =
        clone_candidates(Platform::Linux).iter().map(|(name, _)| locate(name)).collect();
    let tools = detect_clone_tools(Platform::Linux, located);
    assert!(!tools.is_empty());
    assert!(tools.iter().any(|t| t.name == "dd" && t.available()));
}

#[test]
fn macos_reset_is_manual() {
    assert!(factory_reset_command(Platform::MacOs).is_none());
}

#[test]
fn storage_type_detects_root() {
    let df = "Filesystem     512-blocks      Used Available Capacity iused ifree %iused  Mounted on\n/dev/disk3s1s1  965595304  19870144 511420184     4%  403670 2557100920    0%   /\n";
    let dev = storage_device(Platform::MacOs, "/", Some(df));
    let k = storage_type(Platform::MacOs, dev, Some("   Device Node:              /dev/disk3s1s1\n   Solid State:              Yes\n"));
    assert_ne!(k, StorageKind::Unknown);
}

#[test]
fn storage_info_names_partition() {
    let df = "Filesystem 512-blocks Used Available Capacity Mounted on\n/dev/disk3s1s1 965595304 19870144 511420184 4% /\n";
    let dev = storage_device(Platform::MacOs, "/", Some(df));
    let (dev, kind) = storage_info(Platform::MacOs, dev, Some("   Solid State:   No\n"));
    assert!(!dev.is_empty(), "expected a partition device for /");
    assert_ne!(kind, StorageKind::Unknown);
    assert_eq!(dev, "/dev/disk3s1s1");
    assert_eq!(kind, StorageKind::Hdd);
}

#[test]
fn advice_mentions_a_tool_for_ssd() {
    let a = secure_erase_advice(StorageKind::Ssd, Platform::Linux);
    assert!(a.to_lowercase().contains("cipher")
        || a.to_lowercase().contains("blkdiscard")
        || a.to_lowercase().contains("diskutil"));
    assert!(secure_erase_advice(StorageKind::Hdd, Platform::Linux).to_lowercase().contains("overwrite"));
}

#[test]
fn clone_commands_of_every_tool() {
    assert_eq!(build_clone_command("dd", "s", "t").unwrap(), vec!["dd", "if=s", "of=t", "bs=1048576", "conv=noerror,sync"]);
    assert_eq!(build_clone_command("ddrescue", "s", "t").unwrap(), vec!["ddrescue", "-f", "s", "t", "t.mapfile"]);
    assert_eq!(build_clone_command("asr", "s", "t").unwrap(), vec!["asr", "restore", "--source", "s", "--target", "t", "--erase", "--noprompt"]);
    assert_eq!(build_clone_command("partclone.dd", "s", "t").unwrap(), vec!["partclone.dd", "-s", "s", "-o", "t"]);
    assert_eq!(build_clone_command("ntfsclone", "s", "t").unwrap(), vec!["ntfsclone", "--save-image", "-o", "t", "s"]);
    assert_eq!(build_clone_command("e2image", "s", "t").unwrap(), vec!["e2image", "-r", "s", "t"]);
    assert_eq!(build_clone_command("wbadmin", "C:", "E:").unwrap(), vec!["wbadmin", "start", "backup", "-backupTarget:E:", "-include:C:", "-quiet"]);
    match build_clone_command("bogus", "a", "b") {
        Err(BackupError::UnknownCloneTool(t)) => assert_eq!(t, "bogus"),
        _ => panic!("expected an unknown-tool error"),
    }
}

#[test]
fn clone_candidates_per_platform() {
    let names = |p| clone_candidates(p).iter().map(|(n, _)| n.to_string()).collect::<Vec<_>>();
    assert_eq!(names(Platform::MacOs), vec!["asr", "dd", "ddrescue"]);
    assert_eq!(names(Platform::Linux), vec!["dd", "ddrescue", "partclone.dd", "ntfsclone", "e2image"]);
    assert_eq!(names(Platform::Windows), vec!["wbadmin", "dd"]);
    assert!(names(Platform::Other).is_empty());
    let tools = detect_clone_tools(Platform::Windows, vec![None, Some("C:\\dd.exe".into())]);
    assert!(!tools[0].available());
    assert!(tools[1].available());
}

#[test]
fn reset_and_wipe_commands_are_windows_only() {
    assert_eq!(factory_reset_command(Platform::Windows).unwrap(), vec!["systemreset.exe", "--factoryreset"]);
    assert!(factory_reset_command(Platform::Linux).is_none());
    assert_eq!(windows_freespace_wipe_command(Platform::Windows, "D:").unwrap(), vec!["cipher", "/w:D:"]);
    assert!(windows_freespace_wipe_command(Platform::Linux, "/").is_none());
}

#[test]
fn instructions_per_platform() {
    assert!(instructions(Platform::MacOs).starts_with("macOS: a factory reset cannot be scripted"));
    assert!(instructions(Platform::Windows).contains("systemreset.exe --factoryreset"));
    assert!(instructions(Platform::Linux).starts_with("Linux: there is no universal factory reset."));
    assert_eq!(instructions(Platform::Other), "Factory reset is platform-specific; consult your device documentation.");
}

#[test]
fn storage_kind_names_and_advice() {
    assert_eq!(StorageKind::Ssd.as_str(), "ssd");
    assert_eq!(StorageKind::Hdd.as_str(), "hdd");
    assert_eq!(StorageKind::Unknown.as_str(), "unknown");
    assert_eq!(secure_erase_advice(StorageKind::Hdd, Platform::Windows), "HDD detected — multi-pass overwrite reliably destroys the data.");
    assert!(secure_erase_advice(StorageKind::Ssd, Platform::Windows).contains("cipher /w:<volume>"));
    assert!(secure_erase_advice(StorageKind::Unknown, Platform::MacOs).contains("diskutil secureErase"));
}

#[test]
fn block_device_of_partition() {
    assert_eq!(base_block_device("nvme0n1p2"), "nvme0n1");
    assert_eq!(base_block_device("mmcblk0p1"), "mmcblk0");
    assert_eq!(base_block_device("sda1"), "sda");
    assert_eq!(base_block_device("vdb12"), "vdb");
}

#[test]
fn linux_storage_detection() {
    assert_eq!(df_command(Platform::Linux, "/").unwrap(), vec!["df", "--output=source", "/"]);
    assert_eq!(df_command(Platform::MacOs, "/").unwrap(), vec!["df", "/"]);
    assert!(df_command(Platform::Windows, "C:\\").is_none());
    let dev = storage_device(Platform::Linux, "/", Some("Filesystem\n/dev/nvme0n1p2 \n"));
    assert_eq!(dev.as_deref(), Some("/dev/nvme0n1p2"));
    match storage_query(Platform::Linux, "/dev/nvme0n1p2") {
        Some(StorageQuery::ReadFile(f)) => assert_eq!(f, "/sys/block/nvme0n1/queue/rotational"),
        _ => panic!("expected a file to read"),
    }
    assert_eq!(storage_info(Platform::Linux, dev.clone(), Some("0\n")), ("/dev/nvme0n1p2".to_string(), StorageKind::Ssd));
    assert_eq!(storage_info(Platform::Linux, dev.clone(), Some("1\n")), ("/dev/nvme0n1p2".to_string(), StorageKind::Hdd));
    assert_eq!(storage_info(Platform::Linux, dev, None), ("/dev/nvme0n1p2".to_string(), StorageKind::Unknown));
    assert_eq!(storage_info(Platform::Linux, None, Some("1")), (String::new(), StorageKind::Unknown));
    assert_eq!(storage_info(Platform::Linux, Some(String::new()), Some("0\n")), (String::new(), StorageKind::Unknown));
    assert!(storage_device(Platform::Linux, "/", Some("Filesystem\n")).is_none());
}

#[test]
fn windows_storage_detection() {
    let dev = storage_device(Platform::Windows, "D:\\data", None);
    assert_eq!(dev.as_deref(), Some("D:"));
    match storage_query(Platform::Windows, "D:") {
        Some(StorageQuery::Run(argv)) => {
            assert_eq!(argv[0], "powershell");
            assert!(argv[3].contains("-DriveLetter 'D'"));
        }
        _ => panic!("expected a command"),
    }
    assert_eq!(storage_type(Platform::Windows, dev.clone(), Some("SSD\r\n")), StorageKind::Ssd);
    assert_eq!(storage_type(Platform::Windows, dev.clone(), Some("HDD")), StorageKind::Hdd);
    assert_eq!(storage_type(Platform::Windows, dev.clone(), Some("Unspecified")), StorageKind::Unknown);
    assert_eq!(storage_info(Platform::Windows, dev, None), (String::new(), StorageKind::Unknown));
    assert!(storage_query(Platform::Other, "x").is_none());
}

#[test]
fn storage_type_is_kind_of_storage_info() {
    for (dev, ans) in [
        (Some("/dev/sda1".to_string()), Some("1\n")),
        (Some("/dev/sda1".to_string()), None),
        (Some(String::new()), Some("0")),
        (None, Some("0")),
    ] {
        for p in [Platform::Linux, Platform::MacOs, Platform::Windows, Platform::Other] {
            assert_eq!(storage_type(p, dev.clone(), ans), storage_info(p, dev.clone(), ans).1);
        }
    }
}
