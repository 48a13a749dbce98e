//! Discovery: candidate sources (user and service data) and destinations
//! (USB, external and network mounts), decided from what the system reports.
use vstd::prelude::*;

use crate::platform::Platform;
use crate::text::{
    opt_string, opt_text,
    concat2, lines, lines_spec, parse_u32, parse_u32_spec, replace_spec, replace_str, split_char,
    split_spec, starts_with_spec, starts_with_str, str_eq, texts_of, words, words_spec,
};

verus! {

/// A candidate backup source or destination.
#[derive(Clone, Debug)]
pub struct Candidate {
    pub label: String,
    pub path: String,
    /// Sources: `user`, `service`, `data` or `config`; destinations: `usb`,
    /// `external` or `network`.
    pub kind: String,
}

/// The texts of a candidate: label, path, kind.
pub open spec fn cand_view(c: Candidate) -> (Seq<char>, Seq<char>, Seq<char>) {
    (c.label@, c.path@, c.kind@)
}

/// The texts of a list of candidates.
pub open spec fn cands_view(v: Seq<Candidate>) -> Seq<(Seq<char>, Seq<char>, Seq<char>)> {
    v.map_values(|c: Candidate| cand_view(c))
}

fn candidate(label: String, path: String, kind: &str) -> (c: Candidate)
    ensures
        c.label@ == label@,
        c.path@ == path@,
        c.kind@ == kind@,
{
    Candidate { label, path, kind: kind.to_owned() }
}

/// Login shells that mark an account as not interactive.
pub open spec fn no_login_shell(shell: Seq<char>) -> bool {
    shell == "/usr/sbin/nologin"@ || shell == "/sbin/nologin"@ || shell == "/bin/false"@
        || shell == "/usr/bin/false"@ || shell == ""@
}

/// Home directories that hold no data of their own.
pub open spec fn trivial_home(home: Seq<char>) -> bool {
    home == "/"@ || home == "/nonexistent"@ || home == "/dev/null"@ || home == "/bin"@
        || home == "/sbin"@ || home == "/usr/sbin"@ || home == "/var/empty"@
}

/// The candidate an `/etc/passwd` line gives: a regular user (uid 1000 to
/// 65533) with a home under `/home`, or a service account (uid below 1000, a
/// login shell, a non-trivial home under `/var`, `/srv` or `/opt`). An
/// unparsable uid counts as `u32::MAX`.
pub open spec fn passwd_candidate_spec(line: Seq<char>) -> Option<(Seq<char>, Seq<char>, Seq<char>)> {
    let f = split_spec(line, ':');
    if f.len() < 7 {
        None
    } else {
        let name = f[0];
        let home = f[5];
        let shell = f[6];
        let uid: u32 = match parse_u32_spec(f[2]) {
            Some(u) => u,
            None => u32::MAX,
        };
        if 1000 <= uid < 65534 && starts_with_spec(home, "/home"@) {
            Some(("User: "@ + name, home, "user"@))
        } else if uid < 1000 && !no_login_shell(shell) && !trivial_home(home)
            && (starts_with_spec(home, "/var"@) || starts_with_spec(home, "/srv"@) || starts_with_spec(home, "/opt"@)) {
            Some(("Service: "@ + name, home, "service"@))
        } else {
            None
        }
    }
}

/// A home under `/opt`, `/srv` or `/var` (other than `/var/empty`) is none of
/// the homes that hold no data.
proof fn lemma_service_home_not_trivial(home: Seq<char>)
    requires
        starts_with_spec(home, "/opt"@) || starts_with_spec(home, "/srv"@)
            || (starts_with_spec(home, "/var"@) && home != "/var/empty"@),
    ensures
        !trivial_home(home),
{
    reveal_strlit("/opt");
    reveal_strlit("/srv");
    reveal_strlit("/var");
    reveal_strlit("/");
    reveal_strlit("/nonexistent");
    reveal_strlit("/dev/null");
    reveal_strlit("/bin");
    reveal_strlit("/sbin");
    reveal_strlit("/usr/sbin");
    reveal_strlit("/var/empty");
    assert(home.len() >= 4);
    assert(home[1] == home.take(4)[1] && home[2] == home.take(4)[2]);
    assert(home != "/"@ && home != "/nonexistent"@ && home != "/dev/null"@ && home != "/bin"@ && home != "/usr/sbin"@) by {
        assert("/nonexistent"@[1] == 'n' && "/dev/null"@[1] == 'd' && "/bin"@[1] == 'b' && "/usr/sbin"@[1] == 'u');
        assert("/"@.len() == 1);
    }
    assert(home != "/sbin"@) by {
        assert("/sbin"@[1] == 's' && "/sbin"@[2] == 'b');
    }
    assert(home != "/var/empty"@) by {
        assert("/var/empty"@[1] == 'v');
    }
}

/// Which `/etc/passwd` lines give a source (fields
/// `name:password:uid:gid:gecos:home:shell`): a user with uid 1000 to 65533
/// and a home under `/home` gives that home; an account with uid below 1000,
/// a login shell and a home under `/var`, `/srv` or `/opt` (other than
/// `/var/empty`) gives a service source with that home; an account whose home
/// is under none of `/home`, `/var`, `/srv` and `/opt` gives nothing, and so
/// does a line with fewer than seven fields or an account without a login
/// shell and outside the user range.
pub proof fn lemma_passwd_rules(line: Seq<char>)
    ensures
        ({
            let f = split_spec(line, ':');
            let uid = parse_u32_spec(f[2]);
            &&& f.len() < 7 ==> passwd_candidate_spec(line) is None
            &&& f.len() >= 7 && uid is Some && 1000 <= uid->0 < 65534 && starts_with_spec(f[5], "/home"@)
                ==> passwd_candidate_spec(line) == Some(("User: "@ + f[0], f[5], "user"@))
            &&& f.len() >= 7 && uid is Some && uid->0 < 1000
                && f[6] != "/usr/sbin/nologin"@ && f[6] != "/sbin/nologin"@ && f[6] != "/bin/false"@
                && f[6] != "/usr/bin/false"@ && f[6] != ""@
                && (starts_with_spec(f[5], "/opt"@) || starts_with_spec(f[5], "/srv"@)
                    || (starts_with_spec(f[5], "/var"@) && f[5] != "/var/empty"@))
                ==> passwd_candidate_spec(line) == Some(("Service: "@ + f[0], f[5], "service"@))
            &&& f.len() >= 7 && !starts_with_spec(f[5], "/home"@) && !starts_with_spec(f[5], "/var"@)
                && !starts_with_spec(f[5], "/srv"@) && !starts_with_spec(f[5], "/opt"@)
                ==> passwd_candidate_spec(line) is None
            &&& f.len() >= 7 && (f[6] == "/usr/sbin/nologin"@ || f[6] == "/bin/false"@) && !(uid is Some && 1000 <= uid->0)
                ==> passwd_candidate_spec(line) is None
        }),
{
    let f = split_spec(line, ':');
    if f.len() >= 7 {
        let home = f[5];
        if starts_with_spec(home, "/opt"@) || starts_with_spec(home, "/srv"@)
            || (starts_with_spec(home, "/var"@) && home != "/var/empty"@) {
            lemma_service_home_not_trivial(home);
        }
    }
}

/// The candidate source an `/etc/passwd` line gives, if any.
pub fn passwd_candidate(line: &str) -> (r: Option<Candidate>)
    ensures
        match passwd_candidate_spec(line@) {
            Some(v) => r matches Some(c) && cand_view(c) == v,
            None => r is None,
        },
{
    let f = split_char(line, ':');
    if f.len() < 7 {
        return None;
    }
    let name = &f[0];
    let home = &f[5];
    let shell = &f[6];
    let uid: u32 = match parse_u32(f[2].as_str()) {
        Some(u) => u,
        None => u32::MAX,
    };
    let sh = shell.as_str();
    let ho = home.as_str();
    if 1000 <= uid && uid < 65534 && starts_with_str(ho, "/home") {
        Some(candidate(concat2("User: ", name.as_str()), home.clone(), "user"))
    } else if uid < 1000
        && !(str_eq(sh, "/usr/sbin/nologin") || str_eq(sh, "/sbin/nologin") || str_eq(sh, "/bin/false")
            || str_eq(sh, "/usr/bin/false") || str_eq(sh, ""))
        && !(str_eq(ho, "/") || str_eq(ho, "/nonexistent") || str_eq(ho, "/dev/null") || str_eq(ho, "/bin")
            || str_eq(ho, "/sbin") || str_eq(ho, "/usr/sbin") || str_eq(ho, "/var/empty"))
        && (starts_with_str(ho, "/var") || starts_with_str(ho, "/srv") || starts_with_str(ho, "/opt")) {
        Some(candidate(concat2("Service: ", name.as_str()), home.clone(), "service"))
    } else {
        None
    }
}

/// The fixed Linux source candidates that follow the accounts.
pub open spec fn linux_fixed_sources() -> Seq<(Seq<char>, Seq<char>, Seq<char>)> {
    seq![
        ("root"@, "/root"@, "user"@),
        ("/srv"@, "/srv"@, "data"@),
        ("/var/www"@, "/var/www"@, "data"@),
        ("/opt"@, "/opt"@, "data"@),
        ("System config (/etc)"@, "/etc"@, "config"@),
    ]
}

/// The candidates the accounts of a passwd file give, in file order.
pub open spec fn passwd_candidates_spec(text: Seq<char>) -> Seq<(Seq<char>, Seq<char>, Seq<char>)> {
    lines_spec(text).filter(|l: Seq<char>| passwd_candidate_spec(l) is Some).map_values(|l: Seq<char>| passwd_candidate_spec(l)->0)
}

/// Linux source candidates before the existence check: the accounts of
/// `/etc/passwd` (when it could be read), then root's home, `/srv`,
/// `/var/www`, `/opt` and `/etc`.
pub fn linux_source_candidates(passwd: Option<&str>) -> (r: Vec<Candidate>)
    ensures
        cands_view(r@) == (match passwd { Some(t) => passwd_candidates_spec(t@), None => Seq::empty() }) + linux_fixed_sources(),
{
    let mut r: Vec<Candidate> = Vec::new();
    if let Some(text) = passwd {
        let ls = lines(text);
        let ghost lv = texts_of(ls@);
        let mut i: usize = 0;
        while i < ls.len()
            invariant
                i <= ls@.len(),
                lv == texts_of(ls@),
                lv == lines_spec(text@),
                cands_view(r@) == lv.take(i as int).filter(|l: Seq<char>| passwd_candidate_spec(l) is Some)
                    .map_values(|l: Seq<char>| passwd_candidate_spec(l)->0),
            decreases ls@.len() - i,
        {
            proof {
                reveal_with_fuel(Seq::filter, 1);
                assert(lv.take(i + 1).drop_last() == lv.take(i as int));
                assert(lv.take(i + 1).last() == ls@[i as int]@);
            }
            let ghost f_old = lv.take(i as int).filter(|l: Seq<char>| passwd_candidate_spec(l) is Some);
            let ghost r_old = r@;
            match passwd_candidate(ls[i].as_str()) {
                Some(c) => {
                    r.push(c);
                    assert(lv.take(i + 1).filter(|l: Seq<char>| passwd_candidate_spec(l) is Some) == f_old.push(lv[i as int]));
                    assert(f_old.push(lv[i as int]).map_values(|l: Seq<char>| passwd_candidate_spec(l)->0)
                        =~= f_old.map_values(|l: Seq<char>| passwd_candidate_spec(l)->0).push(passwd_candidate_spec(lv[i as int])->0));
                    assert(cands_view(r@) =~= cands_view(r_old).push(cand_view(c)));
                },
                None => {},
            }
            i = i + 1;
        }
        assert(lv.take(ls@.len() as int) == lv);
    }
    let ghost head = cands_view(r@);
    r.push(candidate("root".to_owned(), "/root".to_owned(), "user"));
    r.push(candidate("/srv".to_owned(), "/srv".to_owned(), "data"));
    r.push(candidate("/var/www".to_owned(), "/var/www".to_owned(), "data"));
    r.push(candidate("/opt".to_owned(), "/opt".to_owned(), "data"));
    r.push(candidate("System config (/etc)".to_owned(), "/etc".to_owned(), "config"));
    assert(cands_view(r@) =~= head + linux_fixed_sources());
    r
}

/// Whether candidate `i` is kept: its resolved path is a directory and no
/// earlier kept-able candidate resolved to the same path.
pub open spec fn first_dir(resolved: Seq<Seq<char>>, is_dir: Seq<bool>, i: int) -> bool {
    is_dir[i] && forall|j: int| 0 <= j < i ==> !(#[trigger] is_dir[j] && resolved[j] == resolved[i])
}

/// Whether `p` is one of the resolved paths that is a directory.
pub open spec fn names_dir(resolved: Seq<Seq<char>>, is_dir: Seq<bool>, p: Seq<char>) -> bool {
    dir_among(resolved, is_dir, resolved.len() as int, p)
}

/// Whether `p` is one of the first `n` resolved paths that is a directory.
pub open spec fn dir_among(resolved: Seq<Seq<char>>, is_dir: Seq<bool>, n: int, p: Seq<char>) -> bool {
    exists|j: int| 0 <= j < n && is_dir[j] && resolved[j] == p
}

/// Keeps the candidates whose resolved path (`resolved[i]`) is a directory
/// (`is_dir[i]`), each resolved path once (the first wins), with the path
/// replaced by the resolved one.
pub fn dedup_candidates(cands: &[Candidate], resolved: &[String], is_dir: &[bool]) -> (r: Vec<Candidate>)
    requires
        cands@.len() == resolved@.len(),
        cands@.len() == is_dir@.len(),
    ensures
        cands_view(r@) == Seq::new(cands@.len(), |i: int| i)
            .filter(|i: int| first_dir(texts_of(resolved@), is_dir@, i))
            .map_values(|i: int| (cands@[i].label@, resolved@[i]@, cands@[i].kind@)),
        forall|k: int| 0 <= k < r@.len() ==> names_dir(texts_of(resolved@), is_dir@, (#[trigger] r@[k]).path@),
        forall|k: int, l: int| 0 <= k < l < r@.len() ==> (#[trigger] r@[k]).path@ != (#[trigger] r@[l]).path@,
{
    let ghost idx = Seq::new(cands@.len(), |i: int| i);
    let ghost rs = texts_of(resolved@);
    let mut r: Vec<Candidate> = Vec::new();
    let mut i: usize = 0;
    while i < cands.len()
        invariant
            i <= cands@.len(),
            cands@.len() == resolved@.len(),
            cands@.len() == is_dir@.len(),
            idx == Seq::new(cands@.len(), |i: int| i),
            rs == texts_of(resolved@),
            cands_view(r@) == idx.take(i as int).filter(|i: int| first_dir(rs, is_dir@, i))
                .map_values(|i: int| (cands@[i].label@, resolved@[i]@, cands@[i].kind@)),
            forall|k: int| 0 <= k < r@.len() ==> dir_among(rs, is_dir@, i as int, (#[trigger] r@[k]).path@),
            forall|k: int, l: int| 0 <= k < l < r@.len() ==> (#[trigger] r@[k]).path@ != (#[trigger] r@[l]).path@,
        decreases cands@.len() - i,
    {
        let ghost r_before = r@;
        let mut keep = is_dir[i];
        if keep {
            let mut j: usize = 0;
            while j < i
                invariant
                    j <= i,
                    i < cands@.len(),
                    cands@.len() == resolved@.len(),
                    cands@.len() == is_dir@.len(),
                    rs == texts_of(resolved@),
                    keep == forall|m: int| 0 <= m < j ==> !(#[trigger] is_dir@[m] && rs[m] == rs[i as int]),
                decreases i - j,
            {
                if is_dir[j] && str_eq(resolved[j].as_str(), resolved[i].as_str()) {
                    keep = false;
                }
                j = j + 1;
            }
        }
        proof {
            reveal_with_fuel(Seq::filter, 1);
            assert(idx.take(i + 1).drop_last() == idx.take(i as int));
            assert(idx.take(i + 1).last() == i as int);
            assert(keep == first_dir(rs, is_dir@, i as int));
        }
        if keep {
            let ghost f_old = idx.take(i as int).filter(|i: int| first_dir(rs, is_dir@, i));
            let ghost r_old = r@;
            let c = Candidate { label: cands[i].label.clone(), path: resolved[i].clone(), kind: cands[i].kind.clone() };
            assert(rs[i as int] == resolved@[i as int]@);
            assert forall|k: int| 0 <= k < r_old.len() implies (#[trigger] r_old[k]).path@ != c.path@ by {
                assert(dir_among(rs, is_dir@, i as int, r_old[k].path@));
                let m = choose|m: int| 0 <= m < i && is_dir@[m] && rs[m] == r_old[k].path@;
                assert(!(is_dir@[m] && rs[m] == rs[i as int]));
            }
            r.push(c);
            assert(idx.take(i + 1).filter(|i: int| first_dir(rs, is_dir@, i)) == f_old.push(i as int));
            assert(f_old.push(i as int).map_values(|i: int| (cands@[i].label@, resolved@[i]@, cands@[i].kind@))
                =~= f_old.map_values(|i: int| (cands@[i].label@, resolved@[i]@, cands@[i].kind@))
                    .push((cands@[i as int].label@, resolved@[i as int]@, cands@[i as int].kind@)));
            assert(cands_view(r@) =~= cands_view(r_old).push(cand_view(c)));
        }
        proof {
            assert forall|k: int| 0 <= k < r@.len() implies dir_among(rs, is_dir@, i + 1, (#[trigger] r@[k]).path@) by {
                if k < r_before.len() {
                    assert(r@[k] == r_before[k]);
                    assert(dir_among(rs, is_dir@, i as int, r_before[k].path@));
                    let m = choose|m: int| 0 <= m < i && is_dir@[m] && rs[m] == r_before[k].path@;
                    assert(0 <= m < i + 1 && is_dir@[m] && rs[m] == r@[k].path@);
                } else {
                    assert(0 <= i < i + 1 && is_dir@[i as int] && rs[i as int] == r@[k].path@);
                }
            }
        }
        i = i + 1;
    }
    assert(idx.take(cands@.len() as int) == idx);
    proof {
        assert forall|k: int| 0 <= k < r@.len() implies names_dir(rs, is_dir@, (#[trigger] r@[k]).path@) by {
            assert(dir_among(rs, is_dir@, i as int, r@[k].path@));
        }
    }
    r
}

} // verus!

verus! {

/// Entries of `/Users` that are not user homes.
pub open spec fn macos_skipped_user(name: Seq<char>) -> bool {
    name == "Shared"@ || name == "Guest"@ || name == ".localized"@
}

/// The fixed macOS source candidates that follow the users.
pub open spec fn macos_fixed_sources() -> Seq<(Seq<char>, Seq<char>, Seq<char>)> {
    seq![
        ("/usr/local/var"@, "/usr/local/var"@, "data"@),
        ("/opt/homebrew/var"@, "/opt/homebrew/var"@, "data"@),
        ("/Library"@, "/Library"@, "data"@),
        ("/srv"@, "/srv"@, "data"@),
        ("System config (/etc)"@, "/etc"@, "config"@),
    ]
}

/// macOS source candidates before the existence check: a user candidate for
/// each entry of `/Users` (except `Shared`, `Guest`, `.localized`), then the
/// data folders and `/etc`.
pub fn macos_source_candidates(user_names: &[String]) -> (r: Vec<Candidate>)
    ensures
        cands_view(r@) == texts_of(user_names@).filter(|n: Seq<char>| !macos_skipped_user(n))
            .map_values(|n: Seq<char>| ("User: "@ + n, "/Users/"@ + n, "user"@)) + macos_fixed_sources(),
{
    let ghost ns = texts_of(user_names@);
    let mut r: Vec<Candidate> = Vec::new();
    let mut i: usize = 0;
    while i < user_names.len()
        invariant
            i <= user_names@.len(),
            ns == texts_of(user_names@),
            cands_view(r@) == ns.take(i as int).filter(|n: Seq<char>| !macos_skipped_user(n))
                .map_values(|n: Seq<char>| ("User: "@ + n, "/Users/"@ + n, "user"@)),
        decreases user_names@.len() - i,
    {
        proof {
            reveal_with_fuel(Seq::filter, 1);
            assert(ns.take(i + 1).drop_last() == ns.take(i as int));
            assert(ns.take(i + 1).last() == user_names@[i as int]@);
        }
        let n = user_names[i].as_str();
        if !(str_eq(n, "Shared") || str_eq(n, "Guest") || str_eq(n, ".localized")) {
            let ghost f_old = ns.take(i as int).filter(|n: Seq<char>| !macos_skipped_user(n));
            let ghost r_old = r@;
            let c = candidate(concat2("User: ", n), concat2("/Users/", n), "user");
            r.push(c);
            assert(ns.take(i + 1).filter(|n: Seq<char>| !macos_skipped_user(n)) == f_old.push(ns[i as int]));
            assert(f_old.push(ns[i as int]).map_values(|n: Seq<char>| ("User: "@ + n, "/Users/"@ + n, "user"@))
                =~= f_old.map_values(|n: Seq<char>| ("User: "@ + n, "/Users/"@ + n, "user"@)).push(("User: "@ + ns[i as int], "/Users/"@ + ns[i as int], "user"@)));
            assert(cands_view(r@) =~= cands_view(r_old).push(cand_view(c)));
        }
        i = i + 1;
    }
    assert(ns.take(user_names@.len() as int) == ns);
    let ghost head = cands_view(r@);
    r.push(candidate("/usr/local/var".to_owned(), "/usr/local/var".to_owned(), "data"));
    r.push(candidate("/opt/homebrew/var".to_owned(), "/opt/homebrew/var".to_owned(), "data"));
    r.push(candidate("/Library".to_owned(), "/Library".to_owned(), "data"));
    r.push(candidate("/srv".to_owned(), "/srv".to_owned(), "data"));
    r.push(candidate("System config (/etc)".to_owned(), "/etc".to_owned(), "config"));
    assert(cands_view(r@) =~= head + macos_fixed_sources());
    r
}

/// macOS destination candidates: every entry of `/Volumes`.
pub fn macos_destination_candidates(volume_names: &[String]) -> (r: Vec<Candidate>)
    ensures
        cands_view(r@) == texts_of(volume_names@).map_values(|n: Seq<char>| ("Volume: "@ + n, "/Volumes/"@ + n, "external"@)),
{
    let mut r: Vec<Candidate> = Vec::new();
    let mut i: usize = 0;
    while i < volume_names.len()
        invariant
            i <= volume_names@.len(),
            r@.len() == i,
            forall|j: int| 0 <= j < i ==> #[trigger] cand_view(r@[j]) == ("Volume: "@ + volume_names@[j]@, "/Volumes/"@ + volume_names@[j]@, "external"@),
        decreases volume_names@.len() - i,
    {
        let n = volume_names[i].as_str();
        r.push(candidate(concat2("Volume: ", n), concat2("/Volumes/", n), "external"));
        i = i + 1;
    }
    assert(cands_view(r@) =~= texts_of(volume_names@).map_values(|n: Seq<char>| ("Volume: "@ + n, "/Volumes/"@ + n, "external"@)));
    r
}

/// The best default destination among detected ones: the first USB one, else
/// the first external disk, else the first network mount.
pub open spec fn default_destination_spec(dests: Seq<(Seq<char>, Seq<char>, Seq<char>)>) -> Option<Seq<char>> {
    if exists|i: int| 0 <= i < dests.len() && #[trigger] dests[i].2 == "usb"@ {
        Some(dests[choose|i: int| 0 <= i < dests.len() && dests[i].2 == "usb"@ && forall|j: int| 0 <= j < i ==> #[trigger] dests[j].2 != "usb"@].1)
    } else if exists|i: int| 0 <= i < dests.len() && #[trigger] dests[i].2 == "external"@ {
        Some(dests[choose|i: int| 0 <= i < dests.len() && dests[i].2 == "external"@ && forall|j: int| 0 <= j < i ==> #[trigger] dests[j].2 != "external"@].1)
    } else if exists|i: int| 0 <= i < dests.len() && #[trigger] dests[i].2 == "network"@ {
        Some(dests[choose|i: int| 0 <= i < dests.len() && dests[i].2 == "network"@ && forall|j: int| 0 <= j < i ==> #[trigger] dests[j].2 != "network"@].1)
    } else {
        None
    }
}

/// The path of the first candidate of a kind.
fn first_of_kind(dests: &[Candidate], kind: &str) -> (r: Option<String>)
    ensures
        r is Some <==> exists|i: int| 0 <= i < dests@.len() && #[trigger] dests@[i].kind@ == kind@,
        r matches Some(p) ==> exists|i: int| 0 <= i < dests@.len() && dests@[i].kind@ == kind@
            && (forall|j: int| 0 <= j < i ==> #[trigger] dests@[j].kind@ != kind@) && dests@[i].path@ == p@,
{
    let mut i: usize = 0;
    while i < dests.len()
        invariant
            i <= dests@.len(),
            forall|j: int| 0 <= j < i ==> #[trigger] dests@[j].kind@ != kind@,
        decreases dests@.len() - i,
    {
        if str_eq(dests[i].kind.as_str(), kind) {
            return Some(dests[i].path.clone());
        }
        i = i + 1;
    }
    None
}

/// Best default destination: USB first, then an external disk, then a network mount.
pub fn default_destination(dests: &[Candidate]) -> (r: Option<String>)
    ensures
        match default_destination_spec(cands_view(dests@)) {
            Some(p) => r matches Some(s) && s@ == p,
            None => r is None,
        },
{
    let ghost d = cands_view(dests@);
    proof {
        assert forall|i: int| 0 <= i < dests@.len() implies #[trigger] d[i] == cand_view(dests@[i]) by {}
    }
    if let Some(p) = first_of_kind(dests, "usb") {
        proof {
            let i = choose|i: int| 0 <= i < dests@.len() && dests@[i].kind@ == "usb"@
                && (forall|j: int| 0 <= j < i ==> #[trigger] dests@[j].kind@ != "usb"@) && dests@[i].path@ == p@;
            assert(d[i].2 == "usb"@);
            let c = choose|i: int| 0 <= i < d.len() && d[i].2 == "usb"@ && forall|j: int| 0 <= j < i ==> #[trigger] d[j].2 != "usb"@;
            assert(forall|j: int| 0 <= j < i ==> #[trigger] d[j].2 != "usb"@);
            if c < i {
                assert(d[c].2 == "usb"@);
            } else if c > i {
                assert(d[i].2 != "usb"@);
            }
        }
        return Some(p);
    }
    if let Some(p) = first_of_kind(dests, "external") {
        proof {
            assert(!exists|i: int| 0 <= i < d.len() && #[trigger] d[i].2 == "usb"@);
            let i = choose|i: int| 0 <= i < dests@.len() && dests@[i].kind@ == "external"@
                && (forall|j: int| 0 <= j < i ==> #[trigger] dests@[j].kind@ != "external"@) && dests@[i].path@ == p@;
            assert(d[i].2 == "external"@);
            let c = choose|i: int| 0 <= i < d.len() && d[i].2 == "external"@ && forall|j: int| 0 <= j < i ==> #[trigger] d[j].2 != "external"@;
            assert(forall|j: int| 0 <= j < i ==> #[trigger] d[j].2 != "external"@);
            if c < i {
                assert(d[c].2 == "external"@);
            } else if c > i {
                assert(d[i].2 != "external"@);
            }
        }
        return Some(p);
    }
    if let Some(p) = first_of_kind(dests, "network") {
        proof {
            assert(!exists|i: int| 0 <= i < d.len() && #[trigger] d[i].2 == "usb"@);
            assert(!exists|i: int| 0 <= i < d.len() && #[trigger] d[i].2 == "external"@);
            let i = choose|i: int| 0 <= i < dests@.len() && dests@[i].kind@ == "network"@
                && (forall|j: int| 0 <= j < i ==> #[trigger] dests@[j].kind@ != "network"@) && dests@[i].path@ == p@;
            assert(d[i].2 == "network"@);
            let c = choose|i: int| 0 <= i < d.len() && d[i].2 == "network"@ && forall|j: int| 0 <= j < i ==> #[trigger] d[j].2 != "network"@;
            assert(forall|j: int| 0 <= j < i ==> #[trigger] d[j].2 != "network"@);
            if c < i {
                assert(d[c].2 == "network"@);
            } else if c > i {
                assert(d[i].2 != "network"@);
            }
        }
        return Some(p);
    }
    proof {
        assert(!exists|i: int| 0 <= i < d.len() && #[trigger] d[i].2 == "usb"@);
        assert(!exists|i: int| 0 <= i < d.len() && #[trigger] d[i].2 == "external"@);
        assert(!exists|i: int| 0 <= i < d.len() && #[trigger] d[i].2 == "network"@);
    }
    None
}

} // verus!

verus! {

/// Entries of the Windows users folder that are not user homes (compared in
/// lower case).
pub open spec fn windows_skipped_user(lower: Seq<char>) -> bool {
    lower == "public"@ || lower == "default"@ || lower == "default user"@ || lower == "all users"@
}

/// Windows source candidates before the existence check: a user candidate
/// for each entry of `<SystemDrive>\\Users` (`C:` when the drive is not set),
/// except the shared profiles, then `ProgramData` when it is set.
pub open spec fn windows_sources_spec(
    system_drive: Option<Seq<char>>,
    user_names: Seq<Seq<char>>,
    program_data: Option<Seq<char>>,
) -> Seq<(Seq<char>, Seq<char>, Seq<char>)> {
    let base = (match system_drive { Some(d) => d, None => "C:"@ }) + "\\Users"@;
    user_names.filter(|n: Seq<char>| !windows_skipped_user(crate::text::lowercased(n)))
        .map_values(|n: Seq<char>| ("User: "@ + n, base + "\\"@ + n, "user"@)) + match program_data {
        Some(pd) => seq![("ProgramData"@, pd, "data"@)],
        None => Seq::empty(),
    }
}

/// Windows source candidates before the existence check: a user candidate for
/// each entry of `<SystemDrive>\Users` (except the shared profiles), then
/// `ProgramData` when it is set.
pub fn windows_source_candidates(system_drive: Option<&str>, user_names: &[String], program_data: Option<&str>) -> (r: Vec<Candidate>)
    ensures
        cands_view(r@) == windows_sources_spec(opt_text(system_drive), texts_of(user_names@), opt_text(program_data)),
{
    let mut base = match system_drive {
        Some(d) => d.to_owned(),
        None => "C:".to_owned(),
    };
    base.append("\\Users");
    let ghost ns = texts_of(user_names@);
    let ghost pred = |n: Seq<char>| !windows_skipped_user(crate::text::lowercased(n));
    let mut r: Vec<Candidate> = Vec::new();
    let mut i: usize = 0;
    while i < user_names.len()
        invariant
            i <= user_names@.len(),
            ns == texts_of(user_names@),
            pred == (|n: Seq<char>| !windows_skipped_user(crate::text::lowercased(n))),
            cands_view(r@) == ns.take(i as int).filter(pred).map_values(|n: Seq<char>| ("User: "@ + n, base@ + "\\"@ + n, "user"@)),
        decreases user_names@.len() - i,
    {
        proof {
            reveal_with_fuel(Seq::filter, 1);
            assert(ns.take(i + 1).drop_last() == ns.take(i as int));
            assert(ns.take(i + 1).last() == user_names@[i as int]@);
        }
        let n = user_names[i].as_str();
        let lower = crate::text::to_lowercase(n);
        let l = lower.as_str();
        if !(str_eq(l, "public") || str_eq(l, "default") || str_eq(l, "default user") || str_eq(l, "all users")) {
            let ghost f_old = ns.take(i as int).filter(pred);
            let ghost r_old = r@;
            let c = candidate(concat2("User: ", n), crate::text::concat3(base.as_str(), "\\", n), "user");
            r.push(c);
            assert(ns.take(i + 1).filter(pred) == f_old.push(ns[i as int]));
            assert(f_old.push(ns[i as int]).map_values(|n: Seq<char>| ("User: "@ + n, base@ + "\\"@ + n, "user"@))
                =~= f_old.map_values(|n: Seq<char>| ("User: "@ + n, base@ + "\\"@ + n, "user"@)).push(("User: "@ + ns[i as int], base@ + "\\"@ + ns[i as int], "user"@)));
            assert(cands_view(r@) =~= cands_view(r_old).push(cand_view(c)));
        }
        i = i + 1;
    }
    assert(ns.take(user_names@.len() as int) == ns);
    let ghost head = cands_view(r@);
    if let Some(pd) = program_data {
        r.push(candidate("ProgramData".to_owned(), pd.to_owned(), "data"));
        assert(cands_view(r@) =~= head + seq![("ProgramData"@, pd@, "data"@)]);
    } else {
        assert(cands_view(r@) =~= head + Seq::<(Seq<char>, Seq<char>, Seq<char>)>::empty());
    }
    r
}

/// One line of `/proc/mounts`: device, mount point (with `\040` decoded to a
/// space) and file-system type.
pub struct MountLine {
    pub device: String,
    pub mount_point: String,
    pub fs_type: String,
}

/// The mount line a `/proc/mounts` line gives: at least three words.
pub fn parse_mount_line(line: &str) -> (r: Option<MountLine>)
    ensures
        words_spec(line@).len() < 3 ==> r is None,
        words_spec(line@).len() >= 3 ==> (r matches Some(m) && m.device@ == words_spec(line@)[0]
            && m.mount_point@ == replace_spec(words_spec(line@)[1], "\\040"@, " "@)
            && m.fs_type@ == words_spec(line@)[2]),
{
    let w = words(line);
    if w.len() < 3 {
        return None;
    }
    assert(texts_of(w@)[0] == w@[0]@);
    assert(texts_of(w@)[1] == w@[1]@);
    assert(texts_of(w@)[2] == w@[2]@);
    proof {
        reveal_strlit("\\040");
    }
    let mnt = replace_str(w[1].as_str(), "\\040", " ");
    Some(MountLine { device: w[0].clone(), mount_point: mnt, fs_type: w[2].clone() })
}

/// Network file-system types.
pub open spec fn network_fs(t: Seq<char>) -> bool {
    t == "nfs"@ || t == "nfs4"@ || t == "cifs"@ || t == "smbfs"@ || t == "smb3"@ || t == "fuse.sshfs"@
        || t == "ncpfs"@ || t == "afs"@ || t == "9p"@
}

/// The destination a mount gives: a network mount; or a device under `/dev/`
/// mounted below `/media/`, `/run/media/` or `/mnt/` (USB when `removable`,
/// else an external disk).
pub open spec fn classify_mount_spec(dev: Seq<char>, mnt: Seq<char>, fs: Seq<char>, removable: bool) -> Option<(Seq<char>, Seq<char>, Seq<char>)> {
    if network_fs(fs) {
        Some(("Network: "@ + mnt, mnt, "network"@))
    } else if (starts_with_spec(mnt, "/media/"@) || starts_with_spec(mnt, "/run/media/"@) || starts_with_spec(mnt, "/mnt/"@))
        && starts_with_spec(dev, "/dev/"@) {
        if removable {
            Some(("USB: "@ + mnt, mnt, "usb"@))
        } else {
            Some(("Disk: "@ + mnt, mnt, "external"@))
        }
    } else {
        None
    }
}

/// The destination candidate of a mount, if it is one.
pub fn classify_mount(m: &MountLine, removable: bool) -> (r: Option<Candidate>)
    ensures
        match classify_mount_spec(m.device@, m.mount_point@, m.fs_type@, removable) {
            Some(v) => r matches Some(c) && cand_view(c) == v,
            None => r is None,
        },
{
    let fs = m.fs_type.as_str();
    let mnt = m.mount_point.as_str();
    if str_eq(fs, "nfs") || str_eq(fs, "nfs4") || str_eq(fs, "cifs") || str_eq(fs, "smbfs") || str_eq(fs, "smb3")
        || str_eq(fs, "fuse.sshfs") || str_eq(fs, "ncpfs") || str_eq(fs, "afs") || str_eq(fs, "9p") {
        Some(candidate(concat2("Network: ", mnt), m.mount_point.clone(), "network"))
    } else if (starts_with_str(mnt, "/media/") || starts_with_str(mnt, "/run/media/") || starts_with_str(mnt, "/mnt/"))
        && starts_with_str(m.device.as_str(), "/dev/") {
        if removable {
            Some(candidate(concat2("USB: ", mnt), m.mount_point.clone(), "usb"))
        } else {
            Some(candidate(concat2("Disk: ", mnt), m.mount_point.clone(), "external"))
        }
    } else {
        None
    }
}

/// `s` without trailing ASCII digits.
pub open spec fn trim_trailing_digits(s: Seq<char>) -> Seq<char>
    decreases s.len(),
{
    if s.len() > 0 && '0' <= s.last() && s.last() <= '9' {
        trim_trailing_digits(s.drop_last())
    } else {
        s
    }
}

/// The block device whose `removable` flag describes a partition device path:
/// the text after its last `/`, without trailing digits (`/dev/sdb1` → `sdb`).
pub fn removable_block_name(dev: &str) -> (r: String)
    ensures
        ({
            let c = dev@;
            let last = if exists|i: int| 0 <= i < c.len() && c[i] == '/' {
                c.skip((choose|i: int| 0 <= i < c.len() && c[i] == '/' && forall|j: int| i < j < c.len() ==> #[trigger] c[j] != '/') + 1)
            } else {
                c
            };
            r@ == trim_trailing_digits(last)
        }),
{
    let c = crate::text::chars_of(dev);
    let mut k: usize = c.len();
    while k > 0 && c[k - 1] != '/'
        invariant
            k <= c@.len(),
            c@ == dev@,
            forall|j: int| k <= j < c@.len() ==> #[trigger] c@[j] != '/',
        decreases k,
    {
        k = k - 1;
    }
    let found = k > 0;
    let start = k;
    let ghost last = c@.skip(start as int);
    proof {
        if found {
            assert(c@[start - 1] == '/');
            let i = choose|i: int| 0 <= i < c@.len() && c@[i] == '/' && forall|j: int| i < j < c@.len() ==> #[trigger] c@[j] != '/';
            if i < start - 1 {
                assert(c@[start - 1] != '/');
            } else if i > start - 1 {
                assert(c@[i] != '/');
            }
        } else {
            assert(k == 0);
            assert(!exists|i: int| 0 <= i < c@.len() && c@[i] == '/');
            assert(c@.skip(0) == c@);
        }
    }
    let mut end: usize = c.len();
    while end > start && '0' <= c[end - 1] && c[end - 1] <= '9'
        invariant
            start <= end <= c@.len(),
            trim_trailing_digits(last) == trim_trailing_digits(c@.subrange(start as int, end as int)),
            last == c@.skip(start as int),
        decreases end,
    {
        assert(c@.subrange(start as int, end as int).drop_last() == c@.subrange(start as int, end - 1));
        end = end - 1;
    }
    assert(c@.skip(start as int) == c@.subrange(start as int, c@.len() as int));
    let mut out: Vec<char> = Vec::new();
    let mut i: usize = start;
    while i < end
        invariant
            start <= i <= end <= c@.len(),
            out@ == c@.subrange(start as int, i as int),
        decreases end - i,
    {
        out.push(c[i]);
        assert(c@.subrange(start as int, i + 1) == c@.subrange(start as int, i as int).push(c@[i as int]));
        i = i + 1;
    }
    crate::text::string_of(out.as_slice())
}


// ------------------------------------------------------------- per platform

/// What the system reports that source discovery reads: the passwd file
/// (Linux; `None` when it could not be read), the entries of the users folder
/// (macOS `/Users`, Windows `<SystemDrive>\\Users`), and the `SystemDrive`
/// and `ProgramData` settings (Windows).
pub struct SourceProbe {
    pub passwd: Option<String>,
    pub user_names: Vec<String>,
    pub system_drive: Option<String>,
    pub program_data: Option<String>,
}

/// The source candidates of a platform before the existence check.
pub open spec fn user_data_sources_spec(p: Platform, probe: SourceProbe) -> Seq<(Seq<char>, Seq<char>, Seq<char>)> {
    match p {
        Platform::Linux => (match opt_string(probe.passwd) {
            Some(t) => passwd_candidates_spec(t),
            None => Seq::empty(),
        }) + linux_fixed_sources(),
        Platform::MacOs => texts_of(probe.user_names@).filter(|n: Seq<char>| !macos_skipped_user(n))
            .map_values(|n: Seq<char>| ("User: "@ + n, "/Users/"@ + n, "user"@)) + macos_fixed_sources(),
        Platform::Windows => windows_sources_spec(
            opt_string(probe.system_drive),
            texts_of(probe.user_names@),
            opt_string(probe.program_data),
        ),
        Platform::Other => Seq::empty(),
    }
}

/// Candidate sources (user and service data) of a platform, before the
/// existence check that `dedup_candidates` makes.
pub fn user_data_sources(p: Platform, probe: &SourceProbe) -> (r: Vec<Candidate>)
    ensures
        cands_view(r@) == user_data_sources_spec(p, *probe),
{
    match p {
        Platform::Linux => {
            let passwd: Option<&str> = match &probe.passwd {
                Some(t) => Some(t.as_str()),
                None => None,
            };
            linux_source_candidates(passwd)
        },
        Platform::MacOs => macos_source_candidates(probe.user_names.as_slice()),
        Platform::Windows => {
            let drive: Option<&str> = match &probe.system_drive {
                Some(t) => Some(t.as_str()),
                None => None,
            };
            let pd: Option<&str> = match &probe.program_data {
                Some(t) => Some(t.as_str()),
                None => None,
            };
            windows_source_candidates(drive, probe.user_names.as_slice(), pd)
        },
        Platform::Other => Vec::new(),
    }
}

/// Whether a disk's `removable` flag (the text of its sysfs file, `None` when
/// it could not be read) marks it removable: the trimmed text is `1`.
pub fn removable_flag(flag: Option<&str>) -> (r: bool)
    ensures
        r == match flag {
            Some(t) => crate::text::trim_spec(t@) == "1"@,
            None => false,
        },
{
    match flag {
        Some(t) => {
            let c = crate::text::chars_of(t);
            let trimmed = crate::text::string_of(crate::text::trim_chars(c.as_slice()).as_slice());
            str_eq(trimmed.as_str(), "1")
        },
        None => false,
    }
}

/// The fields of a mount line: device, mount point, file-system type.
pub open spec fn mount_view(m: MountLine) -> (Seq<char>, Seq<char>, Seq<char>) {
    (m.device@, m.mount_point@, m.fs_type@)
}

/// The mount line of a `/proc/mounts` line with at least three words.
pub open spec fn mount_of(l: Seq<char>) -> (Seq<char>, Seq<char>, Seq<char>) {
    (words_spec(l)[0], replace_spec(words_spec(l)[1], "\\040"@, " "@), words_spec(l)[2])
}

/// The mount lines of a `/proc/mounts` text: its lines of three words or more.
pub open spec fn mount_entries_spec(text: Seq<char>) -> Seq<(Seq<char>, Seq<char>, Seq<char>)> {
    lines_spec(text).filter(|l: Seq<char>| words_spec(l).len() >= 3).map_values(|l: Seq<char>| mount_of(l))
}

/// The mount lines of a `/proc/mounts` text.
pub fn mount_entries(text: &str) -> (r: Vec<MountLine>)
    ensures
        r@.map_values(|m: MountLine| mount_view(m)) == mount_entries_spec(text@),
{
    let ls = lines(text);
    let ghost lv = texts_of(ls@);
    let ghost pred = |l: Seq<char>| words_spec(l).len() >= 3;
    let mut r: Vec<MountLine> = Vec::new();
    let mut i: usize = 0;
    while i < ls.len()
        invariant
            i <= ls@.len(),
            lv == texts_of(ls@),
            lv == lines_spec(text@),
            pred == (|l: Seq<char>| words_spec(l).len() >= 3),
            r@.map_values(|m: MountLine| mount_view(m)) == lv.take(i as int).filter(pred).map_values(
                |l: Seq<char>| mount_of(l),
            ),
        decreases ls@.len() - i,
    {
        proof {
            reveal_with_fuel(Seq::filter, 1);
            assert(lv.take(i + 1).drop_last() == lv.take(i as int));
            assert(lv.take(i + 1).last() == ls@[i as int]@);
        }
        let ghost f_old = lv.take(i as int).filter(pred);
        let ghost r_old = r@;
        match parse_mount_line(ls[i].as_str()) {
            Some(m) => {
                r.push(m);
                assert(lv.take(i + 1).filter(pred) == f_old.push(lv[i as int]));
                assert(f_old.push(lv[i as int]).map_values(|l: Seq<char>| mount_of(l)) =~= f_old.map_values(
                    |l: Seq<char>| mount_of(l),
                ).push(mount_of(lv[i as int])));
                assert(r@.map_values(|m: MountLine| mount_view(m)) =~= r_old.map_values(
                    |m: MountLine| mount_view(m),
                ).push(mount_view(m)));
            },
            None => {},
        }
        i = i + 1;
    }
    assert(lv.take(ls@.len() as int) == lv);
    r
}

/// The destinations that mounts give, in order (`removable[i]` is the
/// removable flag of mount `i`'s disk).
pub open spec fn mount_destinations(mounts: Seq<(Seq<char>, Seq<char>, Seq<char>)>, removable: Seq<bool>) -> Seq<(Seq<char>, Seq<char>, Seq<char>)>
    decreases mounts.len(),
{
    if mounts.len() == 0 {
        Seq::empty()
    } else {
        let prev = mount_destinations(mounts.drop_last(), removable.take(mounts.len() - 1));
        let m = mounts.last();
        match classify_mount_spec(m.0, m.1, m.2, removable[mounts.len() - 1]) {
            Some(c) => prev.push(c),
            None => prev,
        }
    }
}

/// The destination candidates of a platform before the existence check.
pub open spec fn detect_destinations_spec(
    p: Platform,
    mounts: Seq<(Seq<char>, Seq<char>, Seq<char>)>,
    removable: Seq<bool>,
    volume_names: Seq<Seq<char>>,
) -> Seq<(Seq<char>, Seq<char>, Seq<char>)> {
    match p {
        Platform::Linux => mount_destinations(mounts, removable),
        Platform::MacOs => volume_names.map_values(|n: Seq<char>| ("Volume: "@ + n, "/Volumes/"@ + n, "external"@)),
        _ => Seq::empty(),
    }
}

/// Whether a kind is a destination kind.
pub open spec fn destination_kind(k: Seq<char>) -> bool {
    k == "usb"@ || k == "external"@ || k == "network"@
}

proof fn lemma_mount_destination_kinds(mounts: Seq<(Seq<char>, Seq<char>, Seq<char>)>, removable: Seq<bool>)
    requires
        mounts.len() == removable.len(),
    ensures
        forall|i: int|
            0 <= i < mount_destinations(mounts, removable).len() ==> destination_kind(
                (#[trigger] mount_destinations(mounts, removable)[i]).2,
            ),
    decreases mounts.len(),
{
    if mounts.len() > 0 {
        let prev = mount_destinations(mounts.drop_last(), removable.take(mounts.len() - 1));
        lemma_mount_destination_kinds(mounts.drop_last(), removable.take(mounts.len() - 1));
        let full = mount_destinations(mounts, removable);
        assert forall|i: int| 0 <= i < full.len() implies destination_kind((#[trigger] full[i]).2) by {
            if i < prev.len() {
                assert(full[i] == prev[i]);
            }
        }
    }
}

/// Candidate destinations (USB, external disks, network mounts) of a
/// platform, before the existence check that `dedup_candidates` makes: on
/// Linux from the mounts (`removable[i]` is the removable flag of mount `i`'s
/// disk), on macOS every entry of `/Volumes`; none elsewhere. Every one has
/// the kind `usb`, `external` or `network`.
pub fn detect_destinations(p: Platform, mounts: &[MountLine], removable: &[bool], volume_names: &[String]) -> (r: Vec<Candidate>)
    requires
        mounts@.len() == removable@.len(),
    ensures
        cands_view(r@) == detect_destinations_spec(
            p,
            mounts@.map_values(|m: MountLine| mount_view(m)),
            removable@,
            texts_of(volume_names@),
        ),
        forall|i: int| 0 <= i < r@.len() ==> destination_kind((#[trigger] r@[i]).kind@),
{
    let ghost mv = mounts@.map_values(|m: MountLine| mount_view(m));
    match p {
        Platform::Linux => {
            let mut r: Vec<Candidate> = Vec::new();
            let mut i: usize = 0;
            while i < mounts.len()
                invariant
                    i <= mounts@.len(),
                    mounts@.len() == removable@.len(),
                    mv == mounts@.map_values(|m: MountLine| mount_view(m)),
                    cands_view(r@) == mount_destinations(mv.take(i as int), removable@.take(i as int)),
                decreases mounts@.len() - i,
            {
                proof {
                    assert(mv.take(i + 1).drop_last() =~= mv.take(i as int));
                    assert(removable@.take(i + 1).take(i as int) =~= removable@.take(i as int));
                    assert(mv.take(i + 1).last() == mount_view(mounts@[i as int]));
                }
                let ghost r_old = r@;
                match classify_mount(&mounts[i], removable[i]) {
                    Some(c) => {
                        r.push(c);
                        assert(cands_view(r@) =~= cands_view(r_old).push(cand_view(c)));
                    },
                    None => {},
                }
                i = i + 1;
            }
            proof {
                assert(mv.take(mounts@.len() as int) =~= mv);
                assert(removable@.take(mounts@.len() as int) =~= removable@);
                lemma_mount_destination_kinds(mv, removable@);
                assert forall|i: int| 0 <= i < r@.len() implies destination_kind((#[trigger] r@[i]).kind@) by {
                    assert(cands_view(r@)[i] == cand_view(r@[i]));
                }
            }
            r
        },
        Platform::MacOs => {
            let r = macos_destination_candidates(volume_names);
            proof {
                assert forall|i: int| 0 <= i < r@.len() implies destination_kind((#[trigger] r@[i]).kind@) by {
                    assert(cands_view(r@)[i] == cand_view(r@[i]));
                    let n = texts_of(volume_names@)[i];
                    assert(cands_view(r@).len() == r@.len());
                    assert(texts_of(volume_names@).len() == volume_names@.len());
                    assert(cands_view(r@)[i] == ("Volume: "@ + n, "/Volumes/"@ + n, "external"@));
                }
            }
            r
        },
        _ => {
            let r: Vec<Candidate> = Vec::new();
            assert(cands_view(r@) =~= Seq::<(Seq<char>, Seq<char>, Seq<char>)>::empty());
            r
        },
    }
}


/// The home directory of the first `/etc/passwd` account (a line of at least
/// seven fields) whose name or numeric uid is `who`, when it names one.
pub open spec fn account_home_spec(lines: Seq<Seq<char>>, who: Seq<char>) -> Option<Seq<char>>
    decreases lines.len(),
{
    if lines.len() == 0 {
        None
    } else {
        let f = split_spec(lines[0], ':');
        if f.len() >= 7 && (f[0] == who || f[2] == who) {
            if f[5].len() > 0 {
                Some(f[5])
            } else {
                None
            }
        } else {
            account_home_spec(lines.drop_first(), who)
        }
    }
}

/// The home directory of the account named `who` (a user name or a numeric
/// uid) in the text of `/etc/passwd`.
pub fn account_home(passwd: &str, who: &str) -> (r: Option<String>)
    ensures
        match account_home_spec(lines_spec(passwd@), who@) {
            Some(h) => r matches Some(s) && s@ == h,
            None => r is None,
        },
{
    let ls = lines(passwd);
    let ghost t = texts_of(ls@);
    let mut i: usize = 0;
    assert(t.skip(0) =~= t);
    while i < ls.len()
        invariant
            i <= ls@.len(),
            t == texts_of(ls@),
            t == lines_spec(passwd@),
            account_home_spec(t, who@) == account_home_spec(t.skip(i as int), who@),
        decreases ls@.len() - i,
    {
        assert(t.skip(i as int)[0] == ls@[i as int]@);
        assert(t.skip(i as int).drop_first() =~= t.skip(i + 1));
        let f = split_char(ls[i].as_str(), ':');
        if f.len() >= 7 && (str_eq(f[0].as_str(), who) || str_eq(f[2].as_str(), who)) {
            assert(texts_of(f@)[0] == f@[0]@);
            assert(texts_of(f@)[2] == f@[2]@);
            assert(texts_of(f@)[5] == f@[5]@);
            if f[5].as_str().unicode_len() > 0 {
                return Some(f[5].clone());
            } else {
                return None;
            }
        }
        proof {
            if texts_of(f@).len() >= 7 {
                assert(texts_of(f@)[0] == f@[0]@);
                assert(texts_of(f@)[2] == f@[2]@);
            }
        }
        i = i + 1;
    }
    assert(t.skip(i as int).len() == 0);
    None
}

} // verus!
