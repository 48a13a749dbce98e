use backuptool::platform::Platform;
use backuptool::procs::{blockers, close_plan, running_blockers, token_running};

#[test]
fn running_blockers_does_not_panic() {
    let _ = running_blockers(Platform::Linux, "systemd\nbash\n");
}

#[test]
fn blockers_are_found_once_and_in_order() {
    let ps = "systemd\nFirefox\nfirefox-bin\nspotify\nchrome\n";
    assert_eq!(
        running_blockers(Platform::Linux, ps),
        vec!["Firefox".to_string(), "Google Chrome".to_string(), "Spotify".to_string()]
    );
    assert!(running_blockers(Platform::Linux, "bash\nsshd\n").is_empty());
}

#[test]
fn windows_matches_exe_names() {
    assert!(token_running(Platform::Windows, "winword.exe 1234", "winword"));
    assert!(!token_running(Platform::Windows, "winword 1234", "winword"));
    assert!(token_running(Platform::Linux, "winword 1234", "winword"));
    assert_eq!(running_blockers(Platform::Windows, "EXCEL.EXE   99 Console"), vec!["Excel".to_string()]);
}

#[test]
fn close_plan_signals_each_running_app() {
    let plan = close_plan(Platform::Linux, "thunderbird\n");
    assert_eq!(plan.names, vec!["Thunderbird".to_string()]);
    assert_eq!(plan.commands, vec![vec!["pkill".to_string(), "-i".to_string(), "thunderbird".to_string()]]);
    let plan = close_plan(Platform::Windows, "dropbox.exe\n");
    assert_eq!(plan.commands, vec![vec!["taskkill".to_string(), "/IM".to_string(), "dropbox.exe".to_string()]]);
    let plan = close_plan(Platform::Linux, "chromium\nopera\n");
    assert_eq!(plan.names, vec!["Chromium".to_string(), "Opera".to_string()]);
    assert_eq!(plan.commands.len(), 2);
}

#[test]
fn blocker_table() {
    let b = blockers();
    assert_eq!(b.len(), 24);
    assert_eq!(b[0], ("firefox", "Firefox"));
    assert_eq!(b[23], ("spotify", "Spotify"));
}
