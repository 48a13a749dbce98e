use backuptool::discover::{
    account_home, dedup_candidates, default_destination, detect_destinations, mount_entries, parse_mount_line,
    passwd_candidate, removable_block_name, removable_flag, user_data_sources, Candidate, SourceProbe,
};
use backuptool::platform::Platform;

const PASSWD: &str = "root:x:0:0:root:/root:/bin/bash\n\
daemon:x:1:1:daemon:/usr/sbin:/usr/sbin/nologin\n\
www-data:x:33:33:www-data:/var/www:/bin/sh\n\
alice:x:1000:1000:Alice:/home/alice:/bin/bash\n\
nobody:x:65534:65534:nobody:/nonexistent:/usr/sbin/nologin\n";

const MOUNTS: &str = "/dev/sda1 / ext4 rw 0 0\n\
server:/export /mnt/nfs nfs4 rw 0 0\n\
/dev/sdb1 /media/usb\\040stick vfat rw 0 0\n\
/dev/sdc1 /mnt/backup ext4 rw 0 0\n\
tmpfs /run tmpfs rw 0 0\n";

fn resolve(cands: &[Candidate]) -> Vec<Candidate> {
    let resolved: Vec<String> = cands
        .iter()
        .map(|c| {
            std::path::Path::new(&c.path)
                .canonicalize()
                .map(|p| p.to_string_lossy().into_owned())
                .unwrap_or_else(|_| c.path.clone())
        })
        .collect();
    let is_dir: Vec<bool> = resolved.iter().map(|p| std::path::Path::new(p).is_dir()).collect();
    dedup_candidates(cands, &resolved, &is_dir)
}

fn probe() -> SourceProbe {
    SourceProbe { passwd: Some(PASSWD.to_string()), user_names: vec![], system_drive: None, program_data: None }
}

#[test]
fn sources_are_real_dirs() {
    for c in resolve(&user_data_sources(Platform::Linux, &probe())) {
        assert!(std::path::Path::new(&c.path).is_dir(), "not a dir: {}", c.path);
        assert!(!c.label.is_empty());
    }
}

#[test]
fn destinations_have_valid_kind() {
    let mounts = mount_entries(MOUNTS);
    let removable = vec![false, false, true, false, false];
    for c in detect_destinations(Platform::Linux, &mounts, &removable, &[]) {
        assert!(["usb", "external", "network"].contains(&c.kind.as_str()));
    }
}

#[test]
fn default_destination_is_optional() {
    let _ = default_destination(&[]);
}

#[test]
fn passwd_lines_give_users_and_services() {
    let v = user_data_sources(Platform::Linux, &probe());
    let got: Vec<(String, String, String)> = v.iter().map(|c| (c.label.clone(), c.path.clone(), c.kind.clone())).collect();
    let t = |a: &str, b: &str, c: &str| (a.to_string(), b.to_string(), c.to_string());
    assert_eq!(got, vec![
        t("Service: www-data", "/var/www", "service"),
        t("User: alice", "/home/alice", "user"),
        t("root", "/root", "user"),
        t("/srv", "/srv", "data"),
        t("/var/www", "/var/www", "data"),
        t("/opt", "/opt", "data"),
        t("System config (/etc)", "/etc", "config"),
    ]);
    assert!(passwd_candidate("short:line").is_none());
    assert!(passwd_candidate("bob:x:notanumber:1:b:/home/bob:/bin/sh").is_none());
}

#[test]
fn dedup_keeps_first_existing_path() {
    let c = |l: &str, p: &str| Candidate { label: l.into(), path: p.into(), kind: "data".into() };
    let cands = vec![c("a", "/x"), c("b", "/y"), c("c", "/z")];
    let resolved = vec!["/r".to_string(), "/r".to_string(), "/q".to_string()];
    let kept = dedup_candidates(&cands, &resolved, &[true, true, false]);
    assert_eq!(kept.len(), 1);
    assert_eq!(kept[0].label, "a");
    assert_eq!(kept[0].path, "/r");
}

#[test]
fn mounts_give_destinations() {
    let mounts = mount_entries(MOUNTS);
    assert_eq!(mounts.len(), 5);
    assert_eq!(mounts[2].mount_point, "/media/usb stick");
    let removable = vec![false, false, true, false, false];
    let d = detect_destinations(Platform::Linux, &mounts, &removable, &[]);
    let got: Vec<(String, String)> = d.iter().map(|c| (c.label.clone(), c.kind.clone())).collect();
    assert_eq!(got, vec![
        ("Network: /mnt/nfs".to_string(), "network".to_string()),
        ("USB: /media/usb stick".to_string(), "usb".to_string()),
        ("Disk: /mnt/backup".to_string(), "external".to_string()),
    ]);
    assert_eq!(default_destination(&d).unwrap(), "/media/usb stick");
    assert!(parse_mount_line("only two").is_none());
    assert_eq!(removable_block_name("/dev/sdb1"), "sdb");
}

#[test]
fn default_destination_prefers_usb_then_external_then_network() {
    let c = |p: &str, k: &str| Candidate { label: p.into(), path: p.into(), kind: k.into() };
    assert_eq!(default_destination(&[c("/n", "network"), c("/e", "external")]).unwrap(), "/e");
    assert_eq!(default_destination(&[c("/n", "network")]).unwrap(), "/n");
    assert_eq!(default_destination(&[c("/e", "external"), c("/u", "usb")]).unwrap(), "/u");
    assert!(default_destination(&[c("/x", "data")]).is_none());
}

#[test]
fn macos_and_windows_candidates() {
    let mac = SourceProbe {
        passwd: None,
        user_names: vec!["alice".into(), "Shared".into(), ".localized".into()],
        system_drive: None,
        program_data: None,
    };
    let v = user_data_sources(Platform::MacOs, &mac);
    assert_eq!(v[0].path, "/Users/alice");
    assert_eq!(v.len(), 6);
    let d = detect_destinations(Platform::MacOs, &[], &[], &["Stick".to_string()]);
    assert_eq!(d[0].path, "/Volumes/Stick");
    assert_eq!(d[0].kind, "external");
    let win = SourceProbe {
        passwd: None,
        user_names: vec!["Bob".into(), "Public".into(), "Default User".into()],
        system_drive: Some("D:".into()),
        program_data: Some("D:\\ProgramData".into()),
    };
    let w = user_data_sources(Platform::Windows, &win);
    assert_eq!(w.len(), 2);
    assert_eq!(w[0].path, "D:\\Users\\Bob");
    assert_eq!(w[1].kind, "data");
    assert!(detect_destinations(Platform::Windows, &[], &[], &[]).is_empty());
    assert!(user_data_sources(Platform::Other, &win).is_empty());
}

#[test]
fn account_home_by_name_or_uid() {
    assert_eq!(account_home(PASSWD, "alice").as_deref(), Some("/home/alice"));
    assert_eq!(account_home(PASSWD, "33").as_deref(), Some("/var/www"));
    assert!(account_home(PASSWD, "mallory").is_none());
    assert!(account_home("odd::7:7:::\n", "odd").is_none());
}

#[test]
fn removable_flag_is_a_trimmed_one() {
    assert!(removable_flag(Some("1\n")));
    assert!(!removable_flag(Some("0\n")));
    assert!(!removable_flag(Some("10")));
    assert!(!removable_flag(None));
}
