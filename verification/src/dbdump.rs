//! Database dump adapters: which databases can be dumped, and the command
//! lines and output files of a dump. Native adapters (run as root via the
//! local socket): PostgreSQL, MySQL/MariaDB, Redis, MongoDB. Anything else
//! uses a generic adapter: a user-supplied shell command that runs with
//! `BACKUPTOOL_DB_OUT` pointing at the output folder.
use vstd::prelude::*;

use crate::platform::{path_join, path_join_spec, Platform};
use crate::text::{concat2, concat3, opt_string, str_eq, texts_of};

verus! {

/// Folder of a backup set that receives database dumps.
pub const DB_DIR: &'static str = ".backuptool-db";

/// A database to dump.
#[derive(Clone, Debug)]
pub struct DbSpec {
    pub name: String,
    /// `postgresql`, `mysql`, `redis`, `mongodb` or `generic`.
    pub kind: String,
    /// The generic adapter's shell command (Oracle, MS SQL, ...).
    pub shell: Option<String>,
    pub running: bool,
}

/// Optional connection settings applied to the native dump commands.
#[derive(Clone, Debug)]
pub struct DbConn {
    pub host: Option<String>,
    pub port: Option<String>,
    pub user: Option<String>,
    pub password: Option<String>,
    pub socket: Option<String>,
}

impl Default for DbConn {
    fn default() -> (c: DbConn)
        ensures
            c.host is None && c.port is None && c.user is None && c.password is None && c.socket is None,
    {
        DbConn { host: None, port: None, user: None, password: None, socket: None }
    }
}

/// The default TCP port of a database kind.
pub open spec fn default_port_spec(kind: Seq<char>) -> Option<u16> {
    if kind == "postgresql"@ {
        Some(5432)
    } else if kind == "mysql"@ {
        Some(3306)
    } else if kind == "redis"@ {
        Some(6379)
    } else if kind == "mongodb"@ {
        Some(27017)
    } else {
        None
    }
}

/// The default TCP port of a database kind.
pub fn default_port(kind: &str) -> (r: Option<u16>)
    ensures
        r == default_port_spec(kind@),
{
    if str_eq(kind, "postgresql") {
        Some(5432)
    } else if str_eq(kind, "mysql") {
        Some(3306)
    } else if str_eq(kind, "redis") {
        Some(6379)
    } else if str_eq(kind, "mongodb") {
        Some(27017)
    } else {
        None
    }
}

/// The default unix-socket files of a database kind.
pub open spec fn default_sockets_spec(kind: Seq<char>) -> Seq<Seq<char>> {
    if kind == "postgresql"@ {
        seq!["/var/run/postgresql/.s.PGSQL.5432"@, "/tmp/.s.PGSQL.5432"@]
    } else if kind == "mysql"@ {
        seq!["/run/mysqld/mysqld.sock"@, "/var/run/mysqld/mysqld.sock"@, "/tmp/mysql.sock"@]
    } else if kind == "redis"@ {
        seq!["/var/run/redis/redis-server.sock"@, "/run/redis/redis-server.sock"@]
    } else if kind == "mongodb"@ {
        seq!["/tmp/mongodb-27017.sock"@]
    } else {
        Seq::empty()
    }
}

/// The default unix-socket files of a database kind.
pub fn default_sockets(kind: &str) -> (r: Vec<String>)
    ensures
        texts_of(r@) == default_sockets_spec(kind@),
{
    let mut r: Vec<String> = Vec::new();
    if str_eq(kind, "postgresql") {
        r.push("/var/run/postgresql/.s.PGSQL.5432".to_owned());
        r.push("/tmp/.s.PGSQL.5432".to_owned());
    } else if str_eq(kind, "mysql") {
        r.push("/run/mysqld/mysqld.sock".to_owned());
        r.push("/var/run/mysqld/mysqld.sock".to_owned());
        r.push("/tmp/mysql.sock".to_owned());
    } else if str_eq(kind, "redis") {
        r.push("/var/run/redis/redis-server.sock".to_owned());
        r.push("/run/redis/redis-server.sock".to_owned());
    } else if str_eq(kind, "mongodb") {
        r.push("/tmp/mongodb-27017.sock".to_owned());
    }
    assert(texts_of(r@) =~= default_sockets_spec(kind@));
    r
}

/// Where a liveness probe of a database looks: a host and TCP port, and the
/// socket files (an explicit one first).
pub struct Probe {
    pub host: String,
    pub port: Option<u16>,
    pub sockets: Vec<String>,
}

/// What a liveness probe checks: the given host (default `127.0.0.1`), the
/// given port when it parses as a `u16` (else the kind's default port), and
/// the given socket file before the kind's default ones.
pub fn probe_targets(kind: &str, conn: &DbConn) -> (r: Probe)
    ensures
        r.host@ == match opt_string(conn.host) { Some(h) => h, None => "127.0.0.1"@ },
        r.port == match conn.port {
            Some(p) => match crate::text::parse_u32_spec(p@) {
                Some(v) => if v <= 0xFFFF { Some(v as u16) } else { default_port_spec(kind@) },
                None => default_port_spec(kind@),
            },
            None => default_port_spec(kind@),
        },
        texts_of(r.sockets@) == match opt_string(conn.socket) {
            Some(s) => seq![s] + default_sockets_spec(kind@),
            None => default_sockets_spec(kind@),
        },
{
    let host = match &conn.host {
        Some(h) => h.clone(),
        None => "127.0.0.1".to_owned(),
    };
    let port = match &conn.port {
        Some(p) => match crate::text::parse_u32(p.as_str()) {
            Some(v) => if v <= 0xFFFF { Some(v as u16) } else { default_port(kind) },
            None => default_port(kind),
        },
        None => default_port(kind),
    };
    let defaults = default_sockets(kind);
    let mut sockets: Vec<String> = Vec::new();
    if let Some(s) = &conn.socket {
        sockets.push(s.clone());
    }
    let ghost head = texts_of(sockets@);
    let mut i: usize = 0;
    while i < defaults.len()
        invariant
            i <= defaults@.len(),
            texts_of(sockets@) == head + texts_of(defaults@).take(i as int),
        decreases defaults@.len() - i,
    {
        let ghost before = sockets@;
        sockets.push(defaults[i].clone());
        assert(texts_of(sockets@) =~= texts_of(before).push(defaults@[i as int]@));
        assert(texts_of(defaults@).take(i + 1) =~= texts_of(defaults@).take(i as int).push(defaults@[i as int]@));
        i = i + 1;
    }
    assert(texts_of(defaults@).take(defaults@.len() as int) == texts_of(defaults@));
    assert(texts_of(sockets@) =~= match opt_string(conn.socket) {
        Some(s) => seq![s] + default_sockets_spec(kind@),
        None => default_sockets_spec(kind@),
    });
    Probe { host, port, sockets }
}

/// Which dump tools were found on `PATH`.
pub struct DbTools {
    pub pg_dumpall: bool,
    pub mysqldump: bool,
    pub mariadb_dump: bool,
    pub redis_cli: bool,
    pub mongodump: bool,
    pub sudo: bool,
}

/// The databases whose dump tool is installed, in the order PostgreSQL,
/// MySQL/MariaDB, Redis, MongoDB (not yet probed: `running` is false).
pub open spec fn detected_kinds(t: DbTools) -> Seq<Seq<char>> {
    (if t.pg_dumpall { seq!["postgresql"@] } else { Seq::empty() })
        + (if t.mysqldump || t.mariadb_dump { seq!["mysql"@] } else { Seq::empty() })
        + (if t.redis_cli { seq!["redis"@] } else { Seq::empty() })
        + (if t.mongodump { seq!["mongodb"@] } else { Seq::empty() })
}

/// The databases that can be dumped with the installed tools; each is named
/// after its kind and is not yet probed.
pub fn detect_databases(t: &DbTools) -> (r: Vec<DbSpec>)
    ensures
        r@.len() == detected_kinds(*t).len(),
        forall|i: int| 0 <= i < r@.len() ==> {
            &&& (#[trigger] r@[i]).name@ == detected_kinds(*t)[i]
            &&& r@[i].kind@ == detected_kinds(*t)[i]
            &&& r@[i].shell is None
            &&& !r@[i].running
        },
{
    let mut r: Vec<DbSpec> = Vec::new();
    if t.pg_dumpall {
        r.push(DbSpec { name: "postgresql".to_owned(), kind: "postgresql".to_owned(), shell: None, running: false });
    }
    if t.mysqldump || t.mariadb_dump {
        r.push(DbSpec { name: "mysql".to_owned(), kind: "mysql".to_owned(), shell: None, running: false });
    }
    if t.redis_cli {
        r.push(DbSpec { name: "redis".to_owned(), kind: "redis".to_owned(), shell: None, running: false });
    }
    if t.mongodump {
        r.push(DbSpec { name: "mongodb".to_owned(), kind: "mongodb".to_owned(), shell: None, running: false });
    }
    assert(r@.map_values(|s: DbSpec| s.kind@) =~= detected_kinds(*t));
    assert(r@.map_values(|s: DbSpec| s.name@) =~= detected_kinds(*t));
    assert forall|i: int| 0 <= i < r@.len() implies (#[trigger] r@[i]).name@ == detected_kinds(*t)[i] && r@[i].kind@ == detected_kinds(*t)[i] by {
        assert(r@.map_values(|s: DbSpec| s.kind@)[i] == r@[i].kind@);
        assert(r@.map_values(|s: DbSpec| s.name@)[i] == r@[i].name@);
    }
    r
}

/// `argv` followed by `flag value` when a value is given.
pub open spec fn with_flag(argv: Seq<Seq<char>>, flag: Seq<char>, val: Option<Seq<char>>) -> Seq<Seq<char>> {
    match val {
        Some(v) => argv + seq![flag, v],
        None => argv,
    }
}

fn push_flag(argv: &mut Vec<String>, flag: &str, val: &Option<String>)
    ensures
        texts_of(final(argv)@) == with_flag(texts_of(old(argv)@), flag@, opt_string(*val)),
{
    if let Some(v) = val {
        let ghost before = texts_of(argv@);
        argv.push(flag.to_owned());
        argv.push(v.clone());
        assert(texts_of(argv@) =~= before + seq![flag@, v@]);
    }
}

/// The native dump of a database kind: the command line, and the file that
/// receives its standard output (if the tool does not write its own). The
/// PostgreSQL dump runs as the `postgres` user (`runuser` as root, else
/// `sudo -n` when available); MySQL prefers `mariadb-dump`.
pub open spec fn native_spec(p: Platform, kind: Seq<char>, out_dir: Seq<char>, conn: DbConn, am_root: bool, t: DbTools) -> Option<(Seq<Seq<char>>, Option<Seq<char>>)> {
    let host = opt_string(conn.host);
    let port = opt_string(conn.port);
    let user = opt_string(conn.user);
    let sock = opt_string(conn.socket);
    let pw = opt_string(conn.password);
    if kind == "postgresql"@ {
        let pre = if am_root {
            seq!["runuser"@, "-u"@, "postgres"@, "--"@]
        } else if t.sudo {
            seq!["sudo"@, "-n"@, "-u"@, "postgres"@]
        } else {
            Seq::empty()
        };
        let argv = with_flag(with_flag(with_flag(pre + seq!["pg_dumpall"@], "-h"@, host), "-p"@, port), "-U"@, user);
        Some((argv, Some(path_join_spec(p, out_dir, "postgresql-all.sql"@))))
    } else if kind == "mysql"@ {
        let dump = if t.mariadb_dump { "mariadb-dump"@ } else { "mysqldump"@ };
        let argv0 = seq![dump, "--all-databases"@, "--single-transaction"@, "--routines"@, "--events"@];
        let argv = with_flag(with_flag(with_flag(with_flag(argv0, "-h"@, host), "-P"@, port), "-u"@, user), "--socket"@, sock);
        Some((argv, Some(path_join_spec(p, out_dir, "mysql-all.sql"@))))
    } else if kind == "redis"@ {
        let argv = with_flag(with_flag(with_flag(with_flag(seq!["redis-cli"@], "-h"@, host), "-p"@, port), "-s"@, sock), "-a"@, pw);
        Some((argv + seq!["--rdb"@, path_join_spec(p, out_dir, "redis-dump.rdb"@)], None))
    } else if kind == "mongodb"@ {
        let argv = with_flag(with_flag(with_flag(with_flag(seq!["mongodump"@], "--host"@, host), "--port"@, port), "-u"@, user), "-p"@, pw);
        Some((argv + seq!["--out"@, path_join_spec(p, out_dir, "mongodb"@)], None))
    } else {
        None
    }
}

/// Adding an option keeps what came before it, and adds the flag and its
/// value right after.
pub proof fn lemma_with_flag_extends(argv: Seq<Seq<char>>, flag: Seq<char>, val: Option<Seq<char>>)
    ensures
        with_flag(argv, flag, val).len() >= argv.len(),
        forall|i: int| 0 <= i < argv.len() ==> #[trigger] with_flag(argv, flag, val)[i] == argv[i],
        val matches Some(v) ==> with_flag(argv, flag, val).len() == argv.len() + 2
            && with_flag(argv, flag, val)[argv.len() as int] == flag && with_flag(argv, flag, val)[argv.len() + 1int] == v,
{
}

/// What the native dumps do, whatever the connection options: MySQL runs
/// `mariadb-dump` when available, else `mysqldump`, always over every
/// database (`--all-databases` right after the program) in one consistent
/// transaction with routines and events, into `mysql-all.sql` in the output
/// folder. PostgreSQL runs `pg_dumpall` (as the `postgres` user when root)
/// into `postgresql-all.sql`. Redis asks `redis-cli` for an RDB snapshot in
/// `redis-dump.rdb`, MongoDB runs `mongodump` into the `mongodb` folder.
/// Other kinds have no native dump.
pub proof fn lemma_native_dumps(p: Platform, kind: Seq<char>, out_dir: Seq<char>, conn: DbConn, am_root: bool, t: DbTools)
    ensures
        native_spec(p, "mysql"@, out_dir, conn, am_root, t) matches Some((argv, out)) && {
            &&& argv.len() >= 5
            &&& argv[0] == (if t.mariadb_dump { "mariadb-dump"@ } else { "mysqldump"@ })
            &&& argv[1] == "--all-databases"@
            &&& argv[2] == "--single-transaction"@
            &&& argv[3] == "--routines"@
            &&& argv[4] == "--events"@
            &&& out == Some(path_join_spec(p, out_dir, "mysql-all.sql"@))
        },
        native_spec(p, "postgresql"@, out_dir, conn, am_root, t) matches Some((argv, out)) && {
            &&& am_root ==> argv.len() >= 5 && argv[0] == "runuser"@ && argv[2] == "postgres"@ && argv[4] == "pg_dumpall"@
            &&& !am_root && !t.sudo ==> argv.len() >= 1 && argv[0] == "pg_dumpall"@
            &&& out == Some(path_join_spec(p, out_dir, "postgresql-all.sql"@))
        },
        native_spec(p, "redis"@, out_dir, conn, am_root, t) matches Some((argv, out)) && {
            &&& argv.len() >= 3
            &&& argv[0] == "redis-cli"@
            &&& argv[argv.len() - 2] == "--rdb"@
            &&& argv[argv.len() - 1] == path_join_spec(p, out_dir, "redis-dump.rdb"@)
            &&& out is None
        },
        native_spec(p, "mongodb"@, out_dir, conn, am_root, t) matches Some((argv, out)) && {
            &&& argv.len() >= 3
            &&& argv[0] == "mongodump"@
            &&& argv[argv.len() - 2] == "--out"@
            &&& argv[argv.len() - 1] == path_join_spec(p, out_dir, "mongodb"@)
            &&& out is None
        },
        kind != "mysql"@ && kind != "postgresql"@ && kind != "redis"@ && kind != "mongodb"@
            ==> native_spec(p, kind, out_dir, conn, am_root, t) is None,
{
    reveal_strlit("mysql");
    reveal_strlit("postgresql");
    reveal_strlit("redis");
    reveal_strlit("mongodb");
    assert("mysql"@.len() != "postgresql"@.len() && "redis"@.len() != "postgresql"@.len()
        && "mongodb"@.len() != "postgresql"@.len());
    assert("mysql"@ != "postgresql"@ && "redis"@ != "postgresql"@ && "mongodb"@ != "postgresql"@);
    assert("mysql"@[1] != "redis"@[1] && "mysql"@[1] != "mongodb"@[1] && "redis"@[0] != "mongodb"@[0]);
    assert("mysql"@ != "redis"@ && "mysql"@ != "mongodb"@ && "redis"@ != "mongodb"@);
    let host = opt_string(conn.host);
    let port = opt_string(conn.port);
    let user = opt_string(conn.user);
    let sock = opt_string(conn.socket);
    let pw = opt_string(conn.password);
    // MySQL
    let dump = if t.mariadb_dump { "mariadb-dump"@ } else { "mysqldump"@ };
    let a0 = seq![dump, "--all-databases"@, "--single-transaction"@, "--routines"@, "--events"@];
    let a1 = with_flag(a0, "-h"@, host);
    let a2 = with_flag(a1, "-P"@, port);
    let a3 = with_flag(a2, "-u"@, user);
    lemma_with_flag_extends(a0, "-h"@, host);
    lemma_with_flag_extends(a1, "-P"@, port);
    lemma_with_flag_extends(a2, "-u"@, user);
    lemma_with_flag_extends(a3, "--socket"@, sock);
    // PostgreSQL
    let pre = if am_root {
        seq!["runuser"@, "-u"@, "postgres"@, "--"@]
    } else if t.sudo {
        seq!["sudo"@, "-n"@, "-u"@, "postgres"@]
    } else {
        Seq::empty()
    };
    let g0 = pre + seq!["pg_dumpall"@];
    let g1 = with_flag(g0, "-h"@, host);
    let g2 = with_flag(g1, "-p"@, port);
    lemma_with_flag_extends(g0, "-h"@, host);
    lemma_with_flag_extends(g1, "-p"@, port);
    lemma_with_flag_extends(g2, "-U"@, user);
    // Redis
    let r0 = seq!["redis-cli"@];
    let r1 = with_flag(r0, "-h"@, host);
    let r2 = with_flag(r1, "-p"@, port);
    let r3 = with_flag(r2, "-s"@, sock);
    lemma_with_flag_extends(r0, "-h"@, host);
    lemma_with_flag_extends(r1, "-p"@, port);
    lemma_with_flag_extends(r2, "-s"@, sock);
    lemma_with_flag_extends(r3, "-a"@, pw);
    // MongoDB
    let m0 = seq!["mongodump"@];
    let m1 = with_flag(m0, "--host"@, host);
    let m2 = with_flag(m1, "--port"@, port);
    let m3 = with_flag(m2, "-u"@, user);
    lemma_with_flag_extends(m0, "--host"@, host);
    lemma_with_flag_extends(m1, "--port"@, port);
    lemma_with_flag_extends(m2, "-u"@, user);
    lemma_with_flag_extends(m3, "-p"@, pw);
}

/// The native dump command of a database kind (see `native_spec`); `None`
/// for kinds without a native adapter.
pub fn native(p: Platform, kind: &str, out_dir: &str, conn: &DbConn, am_root: bool, t: &DbTools) -> (r: Option<(Vec<String>, Option<String>)>)
    ensures
        match native_spec(p, kind@, out_dir@, *conn, am_root, *t) {
            Some((argv, out)) => r matches Some((a, o)) && texts_of(a@) == argv && opt_string(o) == out,
            None => r is None,
        },
{
    let mut argv: Vec<String> = Vec::new();
    if str_eq(kind, "postgresql") {
        if am_root {
            argv.push("runuser".to_owned());
            argv.push("-u".to_owned());
            argv.push("postgres".to_owned());
            argv.push("--".to_owned());
        } else if t.sudo {
            argv.push("sudo".to_owned());
            argv.push("-n".to_owned());
            argv.push("-u".to_owned());
            argv.push("postgres".to_owned());
        }
        argv.push("pg_dumpall".to_owned());
        proof {
            let pre = if am_root {
                seq!["runuser"@, "-u"@, "postgres"@, "--"@]
            } else if t.sudo {
                seq!["sudo"@, "-n"@, "-u"@, "postgres"@]
            } else {
                Seq::<Seq<char>>::empty()
            };
            assert(texts_of(argv@) =~= pre + seq!["pg_dumpall"@]);
        }
        push_flag(&mut argv, "-h", &conn.host);
        push_flag(&mut argv, "-p", &conn.port);
        push_flag(&mut argv, "-U", &conn.user);
        Some((argv, Some(path_join(p, out_dir, "postgresql-all.sql"))))
    } else if str_eq(kind, "mysql") {
        let dump = if t.mariadb_dump { "mariadb-dump" } else { "mysqldump" };
        argv.push(dump.to_owned());
        argv.push("--all-databases".to_owned());
        argv.push("--single-transaction".to_owned());
        argv.push("--routines".to_owned());
        argv.push("--events".to_owned());
        assert(texts_of(argv@) =~= seq![dump@, "--all-databases"@, "--single-transaction"@, "--routines"@, "--events"@]);
        push_flag(&mut argv, "-h", &conn.host);
        push_flag(&mut argv, "-P", &conn.port);
        push_flag(&mut argv, "-u", &conn.user);
        push_flag(&mut argv, "--socket", &conn.socket);
        Some((argv, Some(path_join(p, out_dir, "mysql-all.sql"))))
    } else if str_eq(kind, "redis") {
        argv.push("redis-cli".to_owned());
        assert(texts_of(argv@) =~= seq!["redis-cli"@]);
        push_flag(&mut argv, "-h", &conn.host);
        push_flag(&mut argv, "-p", &conn.port);
        push_flag(&mut argv, "-s", &conn.socket);
        push_flag(&mut argv, "-a", &conn.password);
        let ghost before = texts_of(argv@);
        argv.push("--rdb".to_owned());
        argv.push(path_join(p, out_dir, "redis-dump.rdb"));
        assert(texts_of(argv@) =~= before + seq!["--rdb"@, path_join_spec(p, out_dir@, "redis-dump.rdb"@)]);
        Some((argv, None))
    } else if str_eq(kind, "mongodb") {
        argv.push("mongodump".to_owned());
        assert(texts_of(argv@) =~= seq!["mongodump"@]);
        push_flag(&mut argv, "--host", &conn.host);
        push_flag(&mut argv, "--port", &conn.port);
        push_flag(&mut argv, "-u", &conn.user);
        push_flag(&mut argv, "-p", &conn.password);
        let ghost before = texts_of(argv@);
        argv.push("--out".to_owned());
        argv.push(path_join(p, out_dir, "mongodb"));
        assert(texts_of(argv@) =~= before + seq!["--out"@, path_join_spec(p, out_dir@, "mongodb"@)]);
        Some((argv, None))
    } else {
        None
    }
}

/// What a dump runs and where its output goes.
pub enum DumpPlan {
    /// The generic adapter: `sh -c <command>` with the environment `env`
    /// (`BACKUPTOOL_DB_OUT` set to the output folder); standard output to `log`.
    Shell { command: String, env: Vec<(String, String)>, log: String, err: String },
    /// A native adapter: the command line, its environment (the password, when
    /// one is given, as `PGPASSWORD` and `MYSQL_PWD`), the file for its
    /// standard output (`None`: discarded), and the file for its standard error.
    Native { argv: Vec<String>, env: Vec<(String, String)>, stdout: Option<String>, err: String },
    /// No adapter for this kind.
    NoAdapter { err: String },
}

/// The file that receives a dump's error output: `<out_dir>/<name>.err`.
pub open spec fn err_path_spec(p: Platform, out_dir: Seq<char>, name: Seq<char>) -> Seq<char> {
    path_join_spec(p, out_dir, name + ".err"@)
}

/// The environment that hands a password to the native dump tools.
pub open spec fn password_env(pw: Option<Seq<char>>) -> Seq<(Seq<char>, Seq<char>)> {
    match pw {
        Some(p) => seq![("PGPASSWORD"@, p), ("MYSQL_PWD"@, p)],
        None => Seq::empty(),
    }
}

/// The plan of one dump: the generic shell command when one is given, else
/// the native adapter of the kind.
pub fn dump_plan(p: Platform, spec: &DbSpec, out_dir: &str, conn: &DbConn, am_root: bool, t: &DbTools) -> (r: DumpPlan)
    ensures
        spec.shell matches Some(cmd) ==> (r matches DumpPlan::Shell { command, env, log, err }
            && command@ == cmd@
            && crate::engine::pair_texts(env@) == seq![("BACKUPTOOL_DB_OUT"@, out_dir@)]
            && log@ == path_join_spec(p, out_dir@, spec.name@ + ".log"@)
            && err@ == err_path_spec(p, out_dir@, spec.name@)),
        spec.shell is None ==> match native_spec(p, spec.kind@, out_dir@, *conn, am_root, *t) {
            Some((argv, out)) => r matches DumpPlan::Native { argv: a, env, stdout, err } && texts_of(a@) == argv
                && crate::engine::pair_texts(env@) == password_env(opt_string(conn.password))
                && opt_string(stdout) == out && err@ == err_path_spec(p, out_dir@, spec.name@),
            None => r matches DumpPlan::NoAdapter { err } && err@ == err_path_spec(p, out_dir@, spec.name@),
        },
{
    let err = path_join(p, out_dir, concat2(spec.name.as_str(), ".err").as_str());
    match &spec.shell {
        Some(cmd) => {
            let log = path_join(p, out_dir, concat2(spec.name.as_str(), ".log").as_str());
            let mut env: Vec<(String, String)> = Vec::new();
            env.push(("BACKUPTOOL_DB_OUT".to_owned(), out_dir.to_owned()));
            assert(crate::engine::pair_texts(env@) =~= seq![("BACKUPTOOL_DB_OUT"@, out_dir@)]);
            DumpPlan::Shell { command: cmd.clone(), env, log, err }
        },
        None => match native(p, spec.kind.as_str(), out_dir, conn, am_root, t) {
            Some((argv, stdout)) => {
                let mut env: Vec<(String, String)> = Vec::new();
                if let Some(pw) = &conn.password {
                    env.push(("PGPASSWORD".to_owned(), pw.clone()));
                    env.push(("MYSQL_PWD".to_owned(), pw.clone()));
                }
                assert(crate::engine::pair_texts(env@) =~= password_env(opt_string(conn.password)));
                DumpPlan::Native { argv, env, stdout, err }
            },
            None => DumpPlan::NoAdapter { err },
        },
    }
}

/// How one dump ended.
pub enum DumpOutcome {
    /// The tool exited successfully.
    Succeeded,
    /// No tool can dump this kind of database here.
    NoAdapter,
    /// The tool exited unsuccessfully: its exit status as text, and the file
    /// that holds its error output.
    Failed { status: String, err_path: String },
    /// The tool could not be started: the error as text.
    Error(String),
}

/// The log line for one dump.
pub open spec fn dump_log_line_spec(name: Seq<char>, outcome: DumpOutcome) -> Seq<char> {
    "  DB "@ + name + match outcome {
        DumpOutcome::Succeeded => ": ok"@,
        DumpOutcome::NoAdapter => ": no adapter"@,
        DumpOutcome::Failed { status, err_path } => ": FAILED ("@ + status@ + "); see "@ + err_path@,
        DumpOutcome::Error(e) => ": error "@ + e@,
    }
}

/// The log line that reports how the dump of database `name` ended.
pub fn dump_log_line(name: &str, outcome: &DumpOutcome) -> (r: String)
    ensures
        r@ == dump_log_line_spec(name@, *outcome),
{
    let head = concat2("  DB ", name);
    let tail = match outcome {
        DumpOutcome::Succeeded => ": ok".to_owned(),
        DumpOutcome::NoAdapter => ": no adapter".to_owned(),
        DumpOutcome::Failed { status, err_path } => {
            let a = concat3(": FAILED (", status.as_str(), "); see ");
            concat2(a.as_str(), err_path.as_str())
        },
        DumpOutcome::Error(e) => concat2(": error ", e.as_str()),
    };
    let r = concat2(head.as_str(), tail.as_str());
    proof {
        assert(r@ =~= dump_log_line_spec(name@, *outcome));
    }
    r
}

/// Number of successful dumps.
pub fn dump_all(outcomes: &[bool]) -> (n: usize)
    ensures
        n == outcomes@.filter(|b: bool| b).len(),
{
    let mut n: usize = 0;
    let mut i: usize = 0;
    while i < outcomes.len()
        invariant
            i <= outcomes@.len(),
            n == outcomes@.take(i as int).filter(|b: bool| b).len(),
            n <= i,
        decreases outcomes@.len() - i,
    {
        proof {
            reveal_with_fuel(Seq::filter, 1);
            assert(outcomes@.take(i + 1).drop_last() == outcomes@.take(i as int));
        }
        if outcomes[i] {
            n = n + 1;
        }
        i = i + 1;
    }
    assert(outcomes@.take(outcomes@.len() as int) == outcomes@);
    n
}


/// The fields of a database spec: name, kind, shell command, running.
pub open spec fn db_view(d: DbSpec) -> (Seq<char>, Seq<char>, Option<Seq<char>>, bool) {
    (d.name@, d.kind@, opt_string(d.shell), d.running)
}

fn copy_db(d: &DbSpec) -> (r: DbSpec)
    ensures
        db_view(r) == db_view(*d),
{
    DbSpec {
        name: d.name.clone(),
        kind: d.kind.clone(),
        shell: match &d.shell {
            Some(s) => Some(s.clone()),
            None => None,
        },
        running: d.running,
    }
}

/// The detected databases that match one wanted name or kind, in order.
pub open spec fn matching_dbs(detected: Seq<DbSpec>, want: Seq<char>) -> Seq<(Seq<char>, Seq<char>, Option<Seq<char>>, bool)> {
    detected.filter(|d: DbSpec| d.name@ == want || d.kind@ == want).map_values(|d: DbSpec| db_view(d))
}

/// The databases chosen by the wanted names: with `all`, every detected one
/// that is running; otherwise, for each wanted name in turn, the detected
/// ones whose name or kind it is.
pub open spec fn select_spec(detected: Seq<DbSpec>, wanted: Seq<Seq<char>>) -> Seq<(Seq<char>, Seq<char>, Option<Seq<char>>, bool)>
    decreases wanted.len(),
{
    if wanted.contains("all"@) {
        detected.filter(|d: DbSpec| d.running).map_values(|d: DbSpec| db_view(d))
    } else if wanted.len() == 0 {
        Seq::empty()
    } else {
        select_spec(detected, wanted.drop_last()) + matching_dbs(detected, wanted.last())
    }
}

fn push_filtered(out: &mut Vec<DbSpec>, detected: &[DbSpec], want: &str, running_only: bool)
    ensures
        final(out)@.map_values(|d: DbSpec| db_view(d)) == old(out)@.map_values(|d: DbSpec| db_view(d)) + (if running_only {
            detected@.filter(|d: DbSpec| d.running).map_values(|d: DbSpec| db_view(d))
        } else {
            matching_dbs(detected@, want@)
        }),
{
    let ghost start = old(out)@.map_values(|d: DbSpec| db_view(d));
    let ghost pred = if running_only {
        |d: DbSpec| d.running
    } else {
        |d: DbSpec| d.name@ == want@ || d.kind@ == want@
    };
    let mut i: usize = 0;
    while i < detected.len()
        invariant
            i <= detected@.len(),
            pred == (if running_only {
                |d: DbSpec| d.running
            } else {
                |d: DbSpec| d.name@ == want@ || d.kind@ == want@
            }),
            out@.map_values(|d: DbSpec| db_view(d)) == start + detected@.take(i as int).filter(pred).map_values(
                |d: DbSpec| db_view(d),
            ),
        decreases detected@.len() - i,
    {
        proof {
            reveal_with_fuel(Seq::filter, 1);
            assert(detected@.take(i + 1).drop_last() =~= detected@.take(i as int));
            assert(detected@.take(i + 1).last() == detected@[i as int]);
        }
        let d = &detected[i];
        let keep = if running_only {
            d.running
        } else {
            str_eq(d.name.as_str(), want) || str_eq(d.kind.as_str(), want)
        };
        let ghost f_old = detected@.take(i as int).filter(pred);
        let ghost o_old = out@;
        if keep {
            out.push(copy_db(d));
            assert(detected@.take(i + 1).filter(pred) == f_old.push(detected@[i as int]));
            assert(f_old.push(detected@[i as int]).map_values(|d: DbSpec| db_view(d)) =~= f_old.map_values(
                |d: DbSpec| db_view(d),
            ).push(db_view(detected@[i as int])));
            assert(out@.map_values(|d: DbSpec| db_view(d)) =~= o_old.map_values(|d: DbSpec| db_view(d)).push(
                db_view(detected@[i as int]),
            ));
        }
        i = i + 1;
    }
    assert(detected@.take(detected@.len() as int) =~= detected@);
    assert(start + detected@.filter(pred).map_values(|d: DbSpec| db_view(d)) =~= start + (if running_only {
        detected@.filter(|d: DbSpec| d.running).map_values(|d: DbSpec| db_view(d))
    } else {
        matching_dbs(detected@, want@)
    }));
}

/// The databases to dump for the wanted names (see `select_spec`).
pub fn select_databases(detected: &[DbSpec], wanted: &[String]) -> (r: Vec<DbSpec>)
    ensures
        r@.map_values(|d: DbSpec| db_view(d)) == select_spec(detected@, texts_of(wanted@)),
{
    let mut r: Vec<DbSpec> = Vec::new();
    if crate::text::contains_text(wanted, "all") {
        assert(crate::text::texts_of(wanted@) == texts_of(wanted@));
        push_filtered(&mut r, detected, "all", true);
        assert(r@.map_values(|d: DbSpec| db_view(d)) =~= select_spec(detected@, texts_of(wanted@)));
        return r;
    }
    assert(crate::text::texts_of(wanted@) == texts_of(wanted@));
    let ghost w = texts_of(wanted@);
    let mut i: usize = 0;
    assert(r@.map_values(|d: DbSpec| db_view(d)) =~= Seq::<(Seq<char>, Seq<char>, Option<Seq<char>>, bool)>::empty());
    while i < wanted.len()
        invariant
            i <= wanted@.len(),
            w == texts_of(wanted@),
            !w.contains("all"@),
            r@.map_values(|d: DbSpec| db_view(d)) == select_spec(detected@, w.take(i as int)),
        decreases wanted@.len() - i,
    {
        proof {
            assert(w.take(i + 1).drop_last() =~= w.take(i as int));
            assert(w.take(i + 1).last() == wanted@[i as int]@);
            assert(!w.take(i + 1).contains("all"@)) by {
                if w.take(i + 1).contains("all"@) {
                    let j = choose|j: int| 0 <= j < w.take(i + 1).len() && #[trigger] w.take(i + 1)[j] == "all"@;
                    assert(w[j] == "all"@);
                }
            }
            assert(!w.take(i as int).contains("all"@)) by {
                if w.take(i as int).contains("all"@) {
                    let j = choose|j: int| 0 <= j < w.take(i as int).len() && #[trigger] w.take(i as int)[j] == "all"@;
                    assert(w[j] == "all"@);
                }
            }
        }
        push_filtered(&mut r, detected, wanted[i].as_str(), false);
        i = i + 1;
    }
    assert(w.take(wanted@.len() as int) =~= w);
    r
}

/// The generic database of a `NAME=command` argument: named `NAME`, run
/// with the shell command after the first `=`, counted as running; `None`
/// without a `=`.
pub open spec fn generic_db_spec(item: Seq<char>) -> Option<(Seq<char>, Seq<char>, Option<Seq<char>>, bool)> {
    if item.contains('=') {
        let k = crate::vss::char_pos(item, '=');
        Some((item.take(k), "generic"@, Some(item.skip(k + 1)), true))
    } else {
        None
    }
}

/// The generic database of a `NAME=command` argument.
pub fn generic_database(item: &str) -> (r: Option<DbSpec>)
    ensures
        match generic_db_spec(item@) {
            Some(v) => r matches Some(d) && db_view(d) == v,
            None => r is None,
        },
{
    let c = crate::text::chars_of(item);
    let mut k: usize = 0;
    while k < c.len() && c[k] != '='
        invariant
            k <= c@.len(),
            c@ == item@,
            forall|j: int| 0 <= j < k ==> c@[j] != '=',
        decreases c@.len() - k,
    {
        k = k + 1;
    }
    if k == c.len() {
        assert(!item@.contains('=')) by {
            if item@.contains('=') {
                let j = choose|j: int| 0 <= j < item@.len() && item@[j] == '=';
                assert(c@[j] != '=');
            }
        }
        return None;
    }
    proof {
        crate::vss::lemma_char_pos(c@, '=', k as int);
        assert(item@.contains('=')) by {
            assert(item@[k as int] == '=');
        }
    }
    let mut name: Vec<char> = Vec::new();
    let mut i: usize = 0;
    while i < k
        invariant
            i <= k < c@.len(),
            name@ == c@.take(i as int),
        decreases k - i,
    {
        name.push(c[i]);
        assert(c@.take(i + 1) == c@.take(i as int).push(c@[i as int]));
        i = i + 1;
    }
    let mut cmd: Vec<char> = Vec::new();
    let mut j: usize = k + 1;
    while j < c.len()
        invariant
            k + 1 <= j <= c@.len(),
            cmd@ == c@.subrange(k + 1, j as int),
        decreases c@.len() - j,
    {
        cmd.push(c[j]);
        assert(c@.subrange(k + 1, j + 1) == c@.subrange(k + 1, j as int).push(c@[j as int]));
        j = j + 1;
    }
    assert(cmd@ == c@.skip(k + 1));
    Some(DbSpec {
        name: crate::text::string_of(name.as_slice()),
        kind: "generic".to_owned(),
        shell: Some(crate::text::string_of(cmd.as_slice())),
        running: true,
    })
}

} // verus!
