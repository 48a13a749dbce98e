use backuptool::error::BackupError;
use backuptool::platform::Platform;
use backuptool::vss::{create, create_command, prepare, remove, snapshot_volumes, volume_of, ScriptOutput, Shadow};

fn shadow(n: u32, vol: &str) -> Shadow {
    Shadow {
        id: format!("{{id-{n}}}"),
        device: format!(r"\\?\GLOBALROOT\Device\HarddiskVolumeShadowCopy{n}"),
        volume: vol.to_string(),
    }
}

#[test]
fn volumes_of_paths() {
    assert_eq!(volume_of(r"C:\Users").as_deref(), Some("C:"));
    assert_eq!(volume_of("d:").as_deref(), Some("d:"));
    assert!(volume_of("/home").is_none());
    assert!(volume_of("1:").is_none());
    assert!(volume_of("C").is_none());
}

#[test]
fn each_volume_is_snapshotted_once() {
    let srcs = vec![r"C:\Users\a".to_string(), "/x".to_string(), r"D:\data".to_string(), r"C:\ProgramData".to_string()];
    assert_eq!(snapshot_volumes(&srcs), vec!["C:".to_string(), "D:".to_string()]);
    let p = prepare(&srcs, vec![shadow(1, "C:"), shadow(2, "D:")]);
    assert_eq!(p.sources, vec![
        r"\\?\GLOBALROOT\Device\HarddiskVolumeShadowCopy1\Users\a".to_string(),
        "/x".to_string(),
        r"\\?\GLOBALROOT\Device\HarddiskVolumeShadowCopy2\data".to_string(),
        r"\\?\GLOBALROOT\Device\HarddiskVolumeShadowCopy1\ProgramData".to_string(),
    ]);
    assert_eq!(p.vss_map, vec![
        (r"\\?\GLOBALROOT\Device\HarddiskVolumeShadowCopy1\".to_string(), "C:".to_string()),
        (r"\\?\GLOBALROOT\Device\HarddiskVolumeShadowCopy2\".to_string(), "D:".to_string()),
    ]);
    assert_eq!(p.shadows.len(), 2);
}

#[test]
fn snapshot_output_is_parsed() {
    let ok = ScriptOutput {
        success: true,
        stdout: "\r\n{ABC}|\\\\?\\GLOBALROOT\\Device\\HarddiskVolumeShadowCopy7\r\n".to_string(),
        stderr: String::new(),
    };
    let s = create(Platform::Windows, "C:\\", &ok).unwrap();
    assert_eq!(s.id, "{ABC}");
    assert_eq!(s.device, r"\\?\GLOBALROOT\Device\HarddiskVolumeShadowCopy7");
    assert_eq!(s.volume, "C:");
    let failed = ScriptOutput { success: false, stdout: String::new(), stderr: "  Access denied \n".to_string() };
    match create(Platform::Windows, "C:", &failed) {
        Err(BackupError::VssFailed { volume, detail }) => {
            assert_eq!(volume, "C:");
            assert_eq!(detail, "Access denied");
        }
        _ => panic!("expected a failed snapshot"),
    }
    let odd = ScriptOutput { success: true, stdout: " nothing here \n".to_string(), stderr: String::new() };
    match create(Platform::Windows, "C:", &odd) {
        Err(BackupError::VssUnexpectedOutput(t)) => assert_eq!(t, "nothing here"),
        _ => panic!("expected unexpected output"),
    }
    let empty = ScriptOutput { success: true, stdout: "|dev\n".to_string(), stderr: String::new() };
    assert!(matches!(create(Platform::Windows, "C:", &empty), Err(BackupError::VssUnparsable)));
    assert!(matches!(create(Platform::Linux, "C:", &ok), Err(BackupError::VssUnsupported)));
}

#[test]
fn snapshot_commands_only_on_windows() {
    let c = create_command(Platform::Windows, "C:\\").unwrap();
    assert_eq!(&c[..4], &["powershell", "-NoProfile", "-NonInteractive", "-Command"]);
    assert!(c[4].contains(".Create('C:\\','ClientAccessible')"));
    assert!(create_command(Platform::MacOs, "C:").is_none());
    let r = remove(Platform::Windows, "{ABC}").unwrap();
    assert_eq!(r[4], "(Get-WmiObject Win32_ShadowCopy | Where-Object { $_.ID -eq '{ABC}' }).Delete()");
    assert!(remove(Platform::Linux, "{ABC}").is_none());
}
