use backuptool::dbdump::{
    default_port, default_sockets, detect_databases, dump_all, dump_plan, generic_database, native,
    probe_targets, select_databases, dump_log_line,
    DbConn, DbSpec, DbTools, DumpOutcome, DumpPlan,
};
use backuptool::platform::Platform;

fn tools() -> DbTools {
    DbTools { pg_dumpall: true, mysqldump: true, mariadb_dump: false, redis_cli: false, mongodump: true, sudo: true }
}

#[test]
fn default_ports_and_sockets() {
    assert_eq!(default_port("postgresql"), Some(5432));
    assert_eq!(default_port("mysql"), Some(3306));
    assert_eq!(default_port("redis"), Some(6379));
    assert_eq!(default_port("mongodb"), Some(27017));
    assert_eq!(default_port("oracle"), None);
    assert_eq!(default_sockets("mongodb"), vec!["/tmp/mongodb-27017.sock".to_string()]);
    assert!(default_sockets("generic").is_empty());
}

#[test]
fn probe_uses_given_settings_first() {
    let conn = DbConn { host: Some("db".into()), port: Some("6000".into()), user: None, password: None, socket: Some("/s".into()) };
    let p = probe_targets("postgresql", &conn);
    assert_eq!(p.host, "db");
    assert_eq!(p.port, Some(6000));
    assert_eq!(p.sockets[0], "/s");
    let q = probe_targets("redis", &DbConn::default());
    assert_eq!(q.host, "127.0.0.1");
    assert_eq!(q.port, Some(6379));
}

#[test]
fn databases_follow_installed_tools() {
    let found = detect_databases(&tools());
    let kinds: Vec<String> = found.iter().map(|d| d.kind.clone()).collect();
    assert_eq!(kinds, vec!["postgresql".to_string(), "mysql".to_string(), "mongodb".to_string()]);
    assert!(found.iter().all(|d| !d.running && d.shell.is_none()));
}

#[test]
fn native_commands() {
    let conn = DbConn { user: Some("admin".into()), ..DbConn::default() };
    let (argv, out) = native(Platform::Linux, "postgresql", "/out", &conn, false, &tools()).unwrap();
    assert_eq!(argv, vec!["sudo", "-n", "-u", "postgres", "pg_dumpall", "-U", "admin"]);
    assert_eq!(out.as_deref(), Some("/out/postgresql-all.sql"));
    let (argv, out) = native(Platform::Linux, "mongodb", "/out", &DbConn::default(), true, &tools()).unwrap();
    assert_eq!(argv, vec!["mongodump", "--out", "/out/mongodb"]);
    assert!(out.is_none());
    assert!(native(Platform::Linux, "oracle", "/out", &conn, false, &tools()).is_none());
}

#[test]
fn dump_plans() {
    let shell = DbSpec { name: "demo".into(), kind: "generic".into(), shell: Some("exit 3".into()), running: false };
    match dump_plan(Platform::Linux, &shell, "/out", &DbConn::default(), false, &tools()) {
        DumpPlan::Shell { command, env, log, err } => {
            assert_eq!(command, "exit 3");
            assert_eq!(env, vec![("BACKUPTOOL_DB_OUT".to_string(), "/out".to_string())]);
            assert_eq!(log, "/out/demo.log");
            assert_eq!(err, "/out/demo.err");
        }
        _ => panic!("expected a shell plan"),
    }
    let pg = DbSpec { name: "pg".into(), kind: "postgresql".into(), shell: None, running: true };
    let conn = DbConn { password: Some("pw".into()), ..DbConn::default() };
    match dump_plan(Platform::Linux, &pg, "/out", &conn, true, &tools()) {
        DumpPlan::Native { argv, env, stdout, err } => {
            assert_eq!(argv[0], "runuser");
            assert_eq!(env, vec![("PGPASSWORD".to_string(), "pw".to_string()), ("MYSQL_PWD".to_string(), "pw".to_string())]);
            assert_eq!(stdout.as_deref(), Some("/out/postgresql-all.sql"));
            assert_eq!(err, "/out/pg.err");
        }
        _ => panic!("expected a native plan"),
    }
    let none = DbSpec { name: "x".into(), kind: "oracle".into(), shell: None, running: false };
    assert!(matches!(dump_plan(Platform::Linux, &none, "/out", &DbConn::default(), false, &tools()), DumpPlan::NoAdapter { .. }));
    assert_eq!(dump_all(&[true, false, true]), 2);
}

#[test]
fn databases_are_selected_by_name_kind_or_all() {
    let mut found = detect_databases(&tools());
    found[1].running = true;
    let pick = |w: &[&str]| -> Vec<String> {
        let wanted: Vec<String> = w.iter().map(|s| s.to_string()).collect();
        select_databases(&found, &wanted).into_iter().map(|d| d.name).collect()
    };
    assert_eq!(pick(&["all"]), vec!["mysql".to_string()]);
    assert_eq!(pick(&["mongodb", "postgresql"]), vec!["mongodb".to_string(), "postgresql".to_string()]);
    assert!(pick(&["redis"]).is_empty());
    assert!(pick(&[]).is_empty());
}

#[test]
fn generic_database_arguments() {
    let d = generic_database("oracle=expdp a=b").unwrap();
    assert_eq!(d.name, "oracle");
    assert_eq!(d.kind, "generic");
    assert_eq!(d.shell.as_deref(), Some("expdp a=b"));
    assert!(d.running);
    assert!(generic_database("no-equals").is_none());
    assert_eq!(generic_database("=x").unwrap().name, "");
}

#[test]
fn dump_log_lines() {
    assert_eq!(dump_log_line("pg", &DumpOutcome::Succeeded), "  DB pg: ok");
    assert_eq!(dump_log_line("redis", &DumpOutcome::NoAdapter), "  DB redis: no adapter");
    let failed = DumpOutcome::Failed { status: "exit status: 2".to_string(), err_path: "/tmp/d/pg.err".to_string() };
    assert_eq!(dump_log_line("pg", &failed), "  DB pg: FAILED (exit status: 2); see /tmp/d/pg.err");
    assert_eq!(dump_log_line("my", &DumpOutcome::Error("not found".to_string())), "  DB my: error not found");
}
