//! Engine: relative paths, exclusion patterns, the incremental diff, key
//! handling of a run, verification of restored contents and the decisions of
//! an evacuation. Reading and writing files is left to the caller; what is
//! decided from what was read stands here.
use vstd::prelude::*;

use crate::stream::decrypt_blob_spec;
use crate::crypto::{derive_key, derive_key_spec, random_salt, Cipher};
use crate::error::BackupError;
use crate::manifest::{FileMap, FileMeta, KdfParams, Kind, Manifest};
use crate::platform::Platform;
use crate::textmap::TextMap;
use crate::reset::{storage_kind_name, StorageKind};
use crate::order::{compare_keys, key_lt};
use crate::text::{
    chars_of, contains_str, decimal_text, opt_text, str_eq, string_of, texts_of, trim_chars, trim_spec,
};

verus! {

/// A file, symbolic link or directory found by a scan.
pub struct Entry {
    /// Destination-relative path (see [`to_rel`]).
    pub rel: String,
    /// Absolute path it was read from.
    pub abspath: String,
    pub meta: FileMeta,
}

/// Counters of a run.
#[derive(Debug)]
pub struct Stats {
    pub copied: u64,
    pub skipped: u64,
    pub bytes: u64,
    pub deleted: u64,
    pub errors: u64,
}

impl Stats {
    /// All counters zero.
    pub fn zero() -> (s: Stats)
        ensures
            s.copied == 0 && s.skipped == 0 && s.bytes == 0 && s.deleted == 0 && s.errors == 0,
    {
        Stats { copied: 0, skipped: 0, bytes: 0, deleted: 0, errors: 0 }
    }
}

// ------------------------------------------------------------- paths

/// `s` without a leading `\\?\` (Windows verbatim prefix).
pub open spec fn strip_verbatim(s: Seq<char>) -> Seq<char> {
    if s.len() >= 4 && s[0] == '\\' && s[1] == '\\' && s[2] == '?' && s[3] == '\\' {
        s.skip(4)
    } else {
        s
    }
}

/// Whether `c` is an ASCII letter.
pub open spec fn is_ascii_alpha(c: char) -> bool {
    ('a' <= c && c <= 'z') || ('A' <= c && c <= 'Z')
}

/// `s` with the colon of a leading drive (`C:`) removed.
pub open spec fn drop_drive_colon(s: Seq<char>) -> Seq<char> {
    if s.len() >= 2 && s[1] == ':' && is_ascii_alpha(s[0]) {
        seq![s[0]] + s.skip(2)
    } else {
        s
    }
}

/// `s` without its leading `/` and `\` characters.
pub open spec fn trim_leading_separators(s: Seq<char>) -> Seq<char>
    decreases s.len(),
{
    if s.len() > 0 && (s[0] == '/' || s[0] == '\\') {
        trim_leading_separators(s.drop_first())
    } else {
        s
    }
}

/// The destination-relative form of a source path.
pub open spec fn to_rel_spec(path: Seq<char>) -> Seq<char> {
    trim_leading_separators(drop_drive_colon(strip_verbatim(path)))
}

/// Destination-relative path for a source file: strips a leading `\\?\`, turns
/// a drive `C:` into a folder `C`, and strips leading `/` and `\`, so the file
/// lands under the destination instead of escaping it.
pub fn to_rel(path: &str) -> (r: String)
    ensures
        r@ == to_rel_spec(path@),
{
    let c = chars_of(path);
    let mut start: usize = 0;
    if c.len() >= 4 && c[0] == '\\' && c[1] == '\\' && c[2] == '?' && c[3] == '\\' {
        start = 4;
    }
    let ghost s1 = c@.skip(start as int);
    assert(s1 == strip_verbatim(path@));
    let mut out: Vec<char> = Vec::new();
    let mut i: usize = start;
    if c.len() >= start + 2 && c[start + 1] == ':' && (('a' <= c[start] && c[start] <= 'z') || ('A' <= c[start] && c[start] <= 'Z')) {
        out.push(c[start]);
        i = start + 2;
        assert(drop_drive_colon(s1) == seq![c@[start as int]] + c@.skip(i as int));
    } else {
        assert(drop_drive_colon(s1) == c@.skip(i as int));
    }
    let ghost prefix = out@;
    let ghost s2 = drop_drive_colon(s1);
    // leading separators are stripped from the drive-less text only when no
    // drive letter was kept in front of them
    if out.len() == 0 {
        assert(c@.skip(i as int) == s2);
        while i < c.len() && (c[i] == '/' || c[i] == '\\')
            invariant
                i <= c@.len(),
                trim_leading_separators(s2) == trim_leading_separators(c@.skip(i as int)),
            decreases c@.len() - i,
        {
            assert(c@.skip(i as int).drop_first() == c@.skip(i + 1));
            i = i + 1;
        }
        assert(trim_leading_separators(c@.skip(i as int)) == c@.skip(i as int));
    } else {
        assert(trim_leading_separators(s2) == s2);
    }
    let ghost before = out@;
    let start_rest = i;
    while i < c.len()
        invariant
            start_rest <= i <= c@.len(),
            out@ == before + c@.subrange(start_rest as int, i as int),
        decreases c@.len() - i,
    {
        out.push(c[i]);
        assert(c@.subrange(start_rest as int, i + 1) == c@.subrange(start_rest as int, i as int).push(c@[i as int]));
        i = i + 1;
    }
    assert(c@.subrange(start_rest as int, c@.len() as int) == c@.skip(start_rest as int));
    string_of(out.as_slice())
}

proof fn lemma_trim_leading_separators(s: Seq<char>)
    ensures
        trim_leading_separators(s).len() > 0 ==> trim_leading_separators(s)[0] != '/'
            && trim_leading_separators(s)[0] != '\\',
    decreases s.len(),
{
    if s.len() > 0 && (s[0] == '/' || s[0] == '\\') {
        lemma_trim_leading_separators(s.drop_first());
    }
}

/// A destination-relative path never starts with a separator, so joined to a
/// set's folder it stays inside it.
pub proof fn lemma_to_rel_is_relative(path: Seq<char>)
    ensures
        to_rel_spec(path).len() > 0 ==> to_rel_spec(path)[0] != '/' && to_rel_spec(path)[0] != '\\',
{
    lemma_trim_leading_separators(drop_drive_colon(strip_verbatim(path)));
}

} // verus!

verus! {

/// Whether `s` names a whole volume or drive root: `/`, `C:`, `C:\`, `C:/`
/// or one of these behind `\\?\` (white space around it is ignored).
pub open spec fn is_volume_root_spec(s: Seq<char>) -> bool {
    let t = trim_spec(s);
    let u = strip_verbatim(t);
    ||| t == seq!['/']
    ||| (u.len() == 2 && u[1] == ':' && (u[0] as u32) < 128)
    ||| (u.len() == 3 && u[1] == ':' && (u[2] == '\\' || u[2] == '/') && (u[0] as u32) < 128)
}

/// Whether `s` names a whole volume/drive root (`/`, `C:`, `C:\`, `\\?\C:\`).
pub fn is_volume_root(s: &str) -> (r: bool)
    ensures
        r == is_volume_root_spec(s@),
{
    let c = chars_of(s);
    let t = trim_chars(c.as_slice());
    if t.len() == 1 && t[0] == '/' {
        assert(t@ == seq!['/']);
        return true;
    }
    assert(t@ != seq!['/']);
    let mut start: usize = 0;
    if t.len() >= 4 && t[0] == '\\' && t[1] == '\\' && t[2] == '?' && t[3] == '\\' {
        start = 4;
    }
    let n = t.len() - start;
    assert(strip_verbatim(t@) == t@.skip(start as int));
    (n == 2 && t[start + 1] == ':' && (t[start] as u32) < 128)
        || (n == 3 && t[start + 1] == ':' && (t[start + 2] == '\\' || t[start + 2] == '/') && (t[start] as u32) < 128)
}

/// The hash of a file as text, when one was recorded.
pub open spec fn hash_view(h: Option<String>) -> Option<Seq<char>> {
    match h {
        Some(s) => Some(s@),
        None => None,
    }
}

/// Whether a scanned file must be copied, given what the previous run recorded.
pub open spec fn needs_copy_spec(meta: FileMeta, prev: Option<FileMeta>, use_checksum: bool) -> bool {
    match prev {
        None => true,
        Some(p) => if meta.kind != p.kind {
            true
        } else if meta.kind == Kind::Dir {
            false
        } else if meta.kind == Kind::Symlink {
            meta.target@ != p.target@
        } else if use_checksum {
            hash_view(meta.blake3) != hash_view(p.blake3)
        } else {
            meta.size != p.size || meta.mtime != p.mtime
        },
    }
}

fn same_hash(a: &Option<String>, b: &Option<String>) -> (r: bool)
    ensures
        r == (hash_view(*a) == hash_view(*b)),
{
    match (a, b) {
        (Some(x), Some(y)) => str_eq(x.as_str(), y.as_str()),
        (None, None) => true,
        _ => false,
    }
}

/// Whether a file must be copied: new files always; a changed kind always; a
/// directory that was recorded before never (it exists in the set already); a
/// link whose target changed; with checksums, a changed BLAKE3; otherwise a
/// changed size or modification time.
pub fn needs_copy(meta: &FileMeta, prev: Option<&FileMeta>, use_checksum: bool) -> (r: bool)
    ensures
        r == needs_copy_spec(*meta, match prev { Some(p) => Some(*p), None => None }, use_checksum),
{
    match prev {
        None => true,
        Some(p) => {
            if meta.kind != p.kind {
                return true;
            }
            if meta.kind == Kind::Dir {
                return false;
            }
            if meta.kind == Kind::Symlink {
                return !str_eq(meta.target.as_str(), p.target.as_str());
            }
            if use_checksum {
                return !same_hash(&meta.blake3, &p.blake3);
            }
            meta.size != p.size || meta.mtime != p.mtime
        },
    }
}

/// A file compared with the record of itself never needs a copy.
pub proof fn lemma_unchanged_not_copied(meta: FileMeta, use_checksum: bool)
    ensures
        !needs_copy_spec(meta, Some(meta), use_checksum),
{
}

/// Which scanned entries are copied, rule by rule: a path the previous run
/// did not record is always copied; so is one whose kind changed. A link is
/// copied exactly when its target changed (a re-pointed link is never counted
/// unchanged). A recorded directory is never copied again. A file is copied,
/// with checksums, exactly when its BLAKE3 differs, and otherwise exactly
/// when its size or modification time differs.
pub proof fn lemma_copy_rules(meta: FileMeta, prev: FileMeta, use_checksum: bool)
    ensures
        needs_copy_spec(meta, None, use_checksum),
        meta.kind != prev.kind ==> needs_copy_spec(meta, Some(prev), use_checksum),
        meta.kind == Kind::Symlink && prev.kind == Kind::Symlink
            ==> (needs_copy_spec(meta, Some(prev), use_checksum) <==> meta.target@ != prev.target@),
        meta.kind == Kind::Dir && prev.kind == Kind::Dir ==> !needs_copy_spec(meta, Some(prev), use_checksum),
        meta.kind == Kind::File && prev.kind == Kind::File && use_checksum
            ==> (needs_copy_spec(meta, Some(prev), use_checksum) <==> hash_view(meta.blake3) != hash_view(prev.blake3)),
        meta.kind == Kind::File && prev.kind == Kind::File && !use_checksum
            ==> (needs_copy_spec(meta, Some(prev), use_checksum) <==> (meta.size != prev.size || meta.mtime != prev.mtime)),
{
}

/// Owned copies of a list of text.
fn owned_list(items: &[&str]) -> (r: Vec<String>)
    ensures
        r@.map_values(|s: String| s@) == items@.map_values(|s: &str| s@),
{
    let mut r: Vec<String> = Vec::new();
    let mut i: usize = 0;
    while i < items.len()
        invariant
            i <= items@.len(),
            r@.len() == i,
            forall|j: int| 0 <= j < i ==> #[trigger] r@[j]@ == items@[j]@,
        decreases items@.len() - i,
    {
        let item: &str = items[i];
        let o = item.to_owned();
        r.push(o);
        i = i + 1;
    }
    assert(r@.map_values(|s: String| s@) =~= items@.map_values(|s: &str| s@));
    r
}

/// Exclusion patterns applied to every backup.
pub open spec fn default_excludes_spec() -> Seq<Seq<char>> {
    seq![
        "**/.cache/**"@, "**/.local/share/Trash/**"@, "**/.thumbnails/**"@,
        "**/Cache/**"@, "**/cache2/**"@, "**/lost+found"@,
        "**/.Spotlight-V100/**"@, "**/.Trashes/**"@, "**/.fseventsd/**"@, "**/.DS_Store"@,
        "**/Code Cache/**"@, "**/GPUCache/**"@, "**/DawnGraphiteCache/**"@, "**/DawnWebGPUCache/**"@,
        "**/AppData/Local/Temp/**"@, "**/AppData/Local/Microsoft/WindowsApps/**"@,
    ]
}

/// Exclusion patterns applied to every backup: caches, trash, system junk and
/// (mainly Windows) volatile, always-locked folders.
pub fn default_excludes() -> (r: Vec<String>)
    ensures
        texts_of(r@) == default_excludes_spec(),
{
    let items: [&str; 16] = [
        "**/.cache/**", "**/.local/share/Trash/**", "**/.thumbnails/**",
        "**/Cache/**", "**/cache2/**", "**/lost+found",
        "**/.Spotlight-V100/**", "**/.Trashes/**", "**/.fseventsd/**", "**/.DS_Store",
        "**/Code Cache/**", "**/GPUCache/**", "**/DawnGraphiteCache/**", "**/DawnWebGPUCache/**",
        "**/AppData/Local/Temp/**", "**/AppData/Local/Microsoft/WindowsApps/**",
    ];
    let r = owned_list(&items);
    assert(texts_of(r@) =~= default_excludes_spec());
    r
}

} // verus!

verus! {

/// Glob patterns protecting OS/system locations when a whole disk is evacuated.
pub open spec fn disk_excludes_spec(p: Platform) -> Seq<Seq<char>> {
    match p {
        Platform::MacOs => seq![
            "/System/**"@, "/usr/**"@, "/bin/**"@, "/sbin/**"@, "/private/**"@, "/Library/**"@,
            "/Applications/**"@, "/Volumes/**"@, "/dev/**"@, "/cores/**"@, "/.vol/**"@, "/.fseventsd/**"@,
        ],
        Platform::Linux => seq![
            "/usr/**"@, "/bin/**"@, "/sbin/**"@, "/lib/**"@, "/lib64/**"@, "/boot/**"@, "/proc/**"@,
            "/sys/**"@, "/dev/**"@, "/run/**"@, "/var/**"@, "/etc/**"@, "/tmp/**"@, "/snap/**"@,
            "/mnt/**"@, "/media/**"@, "/lost+found"@,
        ],
        Platform::Windows => seq![
            "**/Windows"@, "**/Windows/**"@,
            "**/Program Files"@, "**/Program Files/**"@,
            "**/Program Files (x86)"@, "**/Program Files (x86)/**"@,
            "**/ProgramData"@, "**/ProgramData/**"@,
            "**/$Recycle.Bin"@, "**/$Recycle.Bin/**"@,
            "**/System Volume Information"@, "**/System Volume Information/**"@,
            "**/Recovery"@, "**/Recovery/**"@,
            "**/PerfLogs"@, "**/PerfLogs/**"@,
            "**/$WinREAgent"@, "**/$WinREAgent/**"@,
            "**/Windows.old"@, "**/Windows.old/**"@,
            "**/Config.Msi"@, "**/Config.Msi/**"@,
            "**/pagefile.sys"@, "**/hiberfil.sys"@, "**/swapfile.sys"@,
        ],
        Platform::Other => Seq::empty(),
    }
}

/// The system locations a whole-disk backup leaves out. On Linux these cover
/// the programs and libraries (`/usr`, `/bin`, `/sbin`, `/lib`, `/lib64`),
/// the boot files, the kernel's pseudo-filesystems (`/proc`, `/sys`, `/dev`,
/// `/run`), system state and configuration (`/var`, `/etc`), temporary and
/// snap files, other mounts (`/mnt`, `/media`) and `lost+found`. On macOS
/// they cover the system, its programs, libraries and devices; on Windows the
/// system and program folders, the recycle bin and the paging files.
pub proof fn lemma_disk_excludes_cover_system()
    ensures
        ({
            let l = disk_excludes_spec(Platform::Linux);
            &&& l.contains("/proc/**"@) && l.contains("/sys/**"@) && l.contains("/dev/**"@) && l.contains("/run/**"@)
            &&& l.contains("/usr/**"@) && l.contains("/bin/**"@) && l.contains("/sbin/**"@)
            &&& l.contains("/lib/**"@) && l.contains("/lib64/**"@) && l.contains("/boot/**"@)
            &&& l.contains("/var/**"@) && l.contains("/etc/**"@) && l.contains("/tmp/**"@) && l.contains("/snap/**"@)
            &&& l.contains("/mnt/**"@) && l.contains("/media/**"@) && l.contains("/lost+found"@)
        }),
        ({
            let m = disk_excludes_spec(Platform::MacOs);
            &&& m.contains("/System/**"@) && m.contains("/usr/**"@) && m.contains("/bin/**"@) && m.contains("/sbin/**"@)
            &&& m.contains("/private/**"@) && m.contains("/Library/**"@) && m.contains("/Applications/**"@)
            &&& m.contains("/Volumes/**"@) && m.contains("/dev/**"@)
        }),
        ({
            let w = disk_excludes_spec(Platform::Windows);
            &&& w.contains("**/Windows"@) && w.contains("**/Windows/**"@)
            &&& w.contains("**/Program Files/**"@) && w.contains("**/Program Files (x86)/**"@)
            &&& w.contains("**/ProgramData/**"@) && w.contains("**/$Recycle.Bin/**"@)
            &&& w.contains("**/System Volume Information/**"@)
            &&& w.contains("**/pagefile.sys"@) && w.contains("**/hiberfil.sys"@) && w.contains("**/swapfile.sys"@)
        }),
{
    let l = disk_excludes_spec(Platform::Linux);
    assert(l[0] == "/usr/**"@ && l[1] == "/bin/**"@ && l[2] == "/sbin/**"@ && l[3] == "/lib/**"@);
    assert(l[4] == "/lib64/**"@ && l[5] == "/boot/**"@ && l[6] == "/proc/**"@ && l[7] == "/sys/**"@);
    assert(l[8] == "/dev/**"@ && l[9] == "/run/**"@ && l[10] == "/var/**"@ && l[11] == "/etc/**"@);
    assert(l[12] == "/tmp/**"@ && l[13] == "/snap/**"@ && l[14] == "/mnt/**"@ && l[15] == "/media/**"@);
    assert(l[16] == "/lost+found"@);
    let m = disk_excludes_spec(Platform::MacOs);
    assert(m[0] == "/System/**"@ && m[1] == "/usr/**"@ && m[2] == "/bin/**"@ && m[3] == "/sbin/**"@);
    assert(m[4] == "/private/**"@ && m[5] == "/Library/**"@ && m[6] == "/Applications/**"@);
    assert(m[7] == "/Volumes/**"@ && m[8] == "/dev/**"@);
    let w = disk_excludes_spec(Platform::Windows);
    assert(w[0] == "**/Windows"@ && w[1] == "**/Windows/**"@ && w[3] == "**/Program Files/**"@);
    assert(w[5] == "**/Program Files (x86)/**"@ && w[7] == "**/ProgramData/**"@ && w[9] == "**/$Recycle.Bin/**"@);
    assert(w[11] == "**/System Volume Information/**"@);
    assert(w[22] == "**/pagefile.sys"@ && w[23] == "**/hiberfil.sys"@ && w[24] == "**/swapfile.sys"@);
}

/// Glob patterns protecting OS/system locations when evacuating a whole disk
/// (on Windows they keep user data such as `C:\Users`).
pub fn disk_excludes(p: Platform) -> (r: Vec<String>)
    ensures
        texts_of(r@) == disk_excludes_spec(p),
{
    match p {
        Platform::MacOs => {
            let items: [&str; 12] = [
                "/System/**", "/usr/**", "/bin/**", "/sbin/**", "/private/**", "/Library/**",
                "/Applications/**", "/Volumes/**", "/dev/**", "/cores/**", "/.vol/**", "/.fseventsd/**",
            ];
            let r = owned_list(&items);
            assert(texts_of(r@) =~= disk_excludes_spec(p));
            r
        },
        Platform::Linux => {
            let items: [&str; 17] = [
                "/usr/**", "/bin/**", "/sbin/**", "/lib/**", "/lib64/**", "/boot/**", "/proc/**",
                "/sys/**", "/dev/**", "/run/**", "/var/**", "/etc/**", "/tmp/**", "/snap/**",
                "/mnt/**", "/media/**", "/lost+found",
            ];
            let r = owned_list(&items);
            assert(texts_of(r@) =~= disk_excludes_spec(p));
            r
        },
        Platform::Windows => {
            let items: [&str; 25] = [
                "**/Windows", "**/Windows/**",
                "**/Program Files", "**/Program Files/**",
                "**/Program Files (x86)", "**/Program Files (x86)/**",
                "**/ProgramData", "**/ProgramData/**",
                "**/$Recycle.Bin", "**/$Recycle.Bin/**",
                "**/System Volume Information", "**/System Volume Information/**",
                "**/Recovery", "**/Recovery/**",
                "**/PerfLogs", "**/PerfLogs/**",
                "**/$WinREAgent", "**/$WinREAgent/**",
                "**/Windows.old", "**/Windows.old/**",
                "**/Config.Msi", "**/Config.Msi/**",
                "**/pagefile.sys", "**/hiberfil.sys", "**/swapfile.sys",
            ];
            let r = owned_list(&items);
            assert(texts_of(r@) =~= disk_excludes_spec(p));
            r
        },
        Platform::Other => {
            let r: Vec<String> = Vec::new();
            assert(texts_of(r@) =~= disk_excludes_spec(p));
            r
        },
    }
}

/// System directories worth backing up on a platform (the caller keeps the
/// ones that exist).
pub open spec fn system_dir_candidates_spec(p: Platform) -> Seq<Seq<char>> {
    match p {
        Platform::MacOs => seq!["/etc"@, "/usr/local/etc"@, "/opt"@],
        Platform::Linux => seq!["/etc"@, "/usr/local/etc"@, "/opt"@, "/srv"@, "/root"@, "/var/spool/cron"@],
        _ => Seq::empty(),
    }
}

/// Curated system directories worth backing up (e.g. /etc), before checking
/// which of them exist.
pub fn system_dir_candidates(p: Platform) -> (r: Vec<String>)
    ensures
        texts_of(r@) == system_dir_candidates_spec(p),
{
    match p {
        Platform::MacOs => {
            let items: [&str; 3] = ["/etc", "/usr/local/etc", "/opt"];
            let r = owned_list(&items);
            assert(texts_of(r@) =~= system_dir_candidates_spec(p));
            r
        },
        Platform::Linux => {
            let items: [&str; 6] = ["/etc", "/usr/local/etc", "/opt", "/srv", "/root", "/var/spool/cron"];
            let r = owned_list(&items);
            assert(texts_of(r@) =~= system_dir_candidates_spec(p));
            r
        },
        _ => {
            let r: Vec<String> = Vec::new();
            assert(texts_of(r@) =~= system_dir_candidates_spec(p));
            r
        },
    }
}

/// The directories that hold users' homes, given the `SystemDrive` setting on
/// Windows.
pub open spec fn home_roots_spec(p: Platform, system_drive: Option<Seq<char>>) -> Seq<Seq<char>> {
    match p {
        Platform::MacOs => seq!["/Users"@],
        Platform::Linux => seq!["/home"@],
        Platform::Windows => match system_drive {
            Some(d) => seq![d + "\\Users"@],
            None => seq!["C:\\Users"@],
        },
        Platform::Other => Seq::empty(),
    }
}

/// The directories that hold users' homes.
pub fn home_roots(p: Platform, system_drive: Option<&str>) -> (r: Vec<String>)
    ensures
        texts_of(r@) == home_roots_spec(p, opt_text(system_drive)),
{
    let mut r: Vec<String> = Vec::new();
    match p {
        Platform::MacOs => r.push("/Users".to_owned()),
        Platform::Linux => r.push("/home".to_owned()),
        Platform::Windows => match system_drive {
            Some(d) => {
                let mut s = d.to_owned();
                s.append("\\Users");
                r.push(s);
            },
            None => r.push("C:\\Users".to_owned()),
        },
        Platform::Other => {},
    }
    assert(texts_of(r@) =~= home_roots_spec(p, opt_text(system_drive)));
    r
}

/// The root of the system disk, given the `SystemDrive` setting on Windows.
pub open spec fn disk_root_spec(p: Platform, system_drive: Option<Seq<char>>) -> Seq<char> {
    if p == Platform::Windows {
        match system_drive {
            Some(d) => d + "\\"@,
            None => "C:\\"@,
        }
    } else {
        "/"@
    }
}

/// The root of the system disk.
pub fn disk_root(p: Platform, system_drive: Option<&str>) -> (r: String)
    ensures
        r@ == disk_root_spec(p, opt_text(system_drive)),
{
    if p == Platform::Windows {
        match system_drive {
            Some(d) => {
                let mut s = d.to_owned();
                s.append("\\");
                s
            },
            None => "C:\\".to_owned(),
        }
    } else {
        "/".to_owned()
    }
}

/// Copies of a list of strings.
pub fn copy_strings(v: &[String]) -> (r: Vec<String>)
    ensures
        texts_of(r@) == texts_of(v@),
{
    let mut r: Vec<String> = Vec::new();
    let mut i: usize = 0;
    while i < v.len()
        invariant
            i <= v@.len(),
            r@.len() == i,
            forall|j: int| 0 <= j < i ==> #[trigger] r@[j]@ == v@[j]@,
        decreases v@.len() - i,
    {
        r.push(v[i].clone());
        i = i + 1;
    }
    assert(texts_of(r@) =~= texts_of(v@));
    r
}

/// What `scope_sources` returns.
pub open spec fn scope_sources_spec(
    scope: Seq<char>,
    explicit: Seq<Seq<char>>,
    p: Platform,
    system_drive: Option<Seq<char>>,
    auto: Seq<Seq<char>>,
) -> Result<Seq<Seq<char>>, ()> {
    if scope == "config"@ {
        if explicit.len() == 0 { Err(()) } else { Ok(explicit) }
    } else if scope == "home"@ {
        if home_roots_spec(p, system_drive).len() == 0 { Err(()) } else { Ok(home_roots_spec(p, system_drive)) }
    } else if scope == "disk"@ {
        if explicit.len() == 0 { Ok(seq![disk_root_spec(p, system_drive)]) } else { Ok(explicit) }
    } else if scope == "auto"@ {
        if auto.len() == 0 { Err(()) } else { Ok(auto) }
    } else {
        Err(())
    }
}

/// How each scope resolves: `disk` with explicit paths takes exactly those
/// paths (the system root only when none is given); `config` takes exactly
/// the explicit paths and needs at least one; `auto` takes exactly the folders
/// found and needs at least one; `home` takes the users' data root; any other
/// keyword is refused.
pub proof fn lemma_scope_rules(
    explicit: Seq<Seq<char>>,
    p: Platform,
    system_drive: Option<Seq<char>>,
    auto: Seq<Seq<char>>,
    other: Seq<char>,
)
    ensures
        explicit.len() > 0 ==> scope_sources_spec("disk"@, explicit, p, system_drive, auto) == Ok::<Seq<Seq<char>>, ()>(explicit),
        explicit.len() == 0 ==> scope_sources_spec("disk"@, explicit, p, system_drive, auto)
            == Ok::<Seq<Seq<char>>, ()>(seq![disk_root_spec(p, system_drive)]),
        explicit.len() > 0 ==> scope_sources_spec("config"@, explicit, p, system_drive, auto) == Ok::<Seq<Seq<char>>, ()>(explicit),
        explicit.len() == 0 ==> scope_sources_spec("config"@, explicit, p, system_drive, auto) is Err,
        auto.len() > 0 ==> scope_sources_spec("auto"@, explicit, p, system_drive, auto) == Ok::<Seq<Seq<char>>, ()>(auto),
        auto.len() == 0 ==> scope_sources_spec("auto"@, explicit, p, system_drive, auto) is Err,
        scope_sources_spec("home"@, explicit, p, system_drive, auto) is Ok
            ==> scope_sources_spec("home"@, explicit, p, system_drive, auto) == Ok::<Seq<Seq<char>>, ()>(home_roots_spec(p, system_drive)),
        other != "disk"@ && other != "config"@ && other != "auto"@ && other != "home"@
            ==> scope_sources_spec(other, explicit, p, system_drive, auto) is Err,
{
    reveal_strlit("disk");
    reveal_strlit("config");
    reveal_strlit("auto");
    reveal_strlit("home");
    assert("disk"@.len() != "config"@.len() && "auto"@.len() != "config"@.len() && "home"@.len() != "config"@.len());
    assert("disk"@[0] != "home"@[0] && "auto"@[0] != "home"@[0] && "auto"@[0] != "disk"@[0]);
    assert("disk"@ != "config"@ && "disk"@ != "home"@ && "auto"@ != "config"@ && "auto"@ != "home"@);
    assert("auto"@ != "disk"@ && "home"@ != "config"@);
}

/// Resolves a scope keyword to source paths: `home` the users' data root,
/// `config` the explicit paths, `disk` the system root (or the explicit mount
/// points), `auto` the user-data folders found for this user (`auto`).
pub fn scope_sources(scope: &str, explicit: &[String], p: Platform, system_drive: Option<&str>, auto: &[String]) -> (r: Result<Vec<String>, BackupError>)
    ensures
        match scope_sources_spec(scope@, texts_of(explicit@), p, opt_text(system_drive), texts_of(auto@)) {
            Ok(v) => r matches Ok(w) && texts_of(w@) == v,
            Err(_) => r is Err,
        },
        r matches Err(BackupError::UnknownScope(s)) ==> s@ == scope@,
{
    if str_eq(scope, "config") {
        if explicit.len() == 0 {
            return Err(BackupError::ScopeNeedsPaths);
        }
        Ok(copy_strings(explicit))
    } else if str_eq(scope, "home") {
        let roots = home_roots(p, system_drive);
        if roots.len() == 0 {
            return Err(BackupError::NoHomeRoot);
        }
        Ok(roots)
    } else if str_eq(scope, "disk") {
        if explicit.len() == 0 {
            let mut v: Vec<String> = Vec::new();
            v.push(disk_root(p, system_drive));
            assert(texts_of(v@) =~= seq![disk_root_spec(p, opt_text(system_drive))]);
            Ok(v)
        } else {
            Ok(copy_strings(explicit))
        }
    } else if str_eq(scope, "auto") {
        if auto.len() == 0 {
            return Err(BackupError::NoAutoSources);
        }
        Ok(copy_strings(auto))
    } else {
        Err(BackupError::UnknownScope(scope.to_owned()))
    }
}

/// Sub-folders of a home directory that hold the user's data on a platform.
pub open spec fn user_data_subdirs(p: Platform) -> Seq<Seq<char>> {
    match p {
        Platform::Windows => seq![
            "Documents"@, "Desktop"@, "Downloads"@, "Pictures"@, "Music"@, "Videos"@,
            "Favorites"@, "Saved Games"@, "OneDrive"@, "AppData\\Roaming"@,
        ],
        Platform::MacOs => seq![
            "Documents"@, "Desktop"@, "Downloads"@, "Pictures"@, "Music"@, "Movies"@,
            "Library/Application Support"@, "Library/Preferences"@, "Library/Mail"@,
        ],
        _ => seq![
            "Documents"@, "Desktop"@, "Downloads"@, "Pictures"@, "Music"@, "Videos"@,
            ".config"@, ".local/share"@, ".mozilla"@, ".thunderbird"@, ".ssh"@, ".gnupg"@,
        ],
    }
}

/// The candidate user-data folders under `home` (the caller keeps the ones
/// that exist).
pub fn auto_source_candidates(p: Platform, home: &str) -> (r: Vec<String>)
    ensures
        r@.len() == user_data_subdirs(p).len(),
        forall|i: int| 0 <= i < r@.len() ==> #[trigger] r@[i]@ == crate::platform::path_join_spec(p, home@, user_data_subdirs(p)[i]),
{
    let subs: Vec<String> = match p {
        Platform::Windows => {
            let items: [&str; 10] = [
                "Documents", "Desktop", "Downloads", "Pictures", "Music", "Videos",
                "Favorites", "Saved Games", "OneDrive", "AppData\\Roaming",
            ];
            owned_list(&items)
        },
        Platform::MacOs => {
            let items: [&str; 9] = [
                "Documents", "Desktop", "Downloads", "Pictures", "Music", "Movies",
                "Library/Application Support", "Library/Preferences", "Library/Mail",
            ];
            owned_list(&items)
        },
        _ => {
            let items: [&str; 12] = [
                "Documents", "Desktop", "Downloads", "Pictures", "Music", "Videos",
                ".config", ".local/share", ".mozilla", ".thunderbird", ".ssh", ".gnupg",
            ];
            owned_list(&items)
        },
    };
    assert(texts_of(subs@) =~= user_data_subdirs(p));
    let mut r: Vec<String> = Vec::new();
    let mut i: usize = 0;
    while i < subs.len()
        invariant
            i <= subs@.len(),
            texts_of(subs@) == user_data_subdirs(p),
            r@.len() == i,
            forall|j: int| 0 <= j < i ==> #[trigger] r@[j]@ == crate::platform::path_join_spec(p, home@, user_data_subdirs(p)[j]),
        decreases subs@.len() - i,
    {
        assert(subs@[i as int]@ == texts_of(subs@)[i as int]);
        r.push(crate::platform::path_join(p, home, subs[i].as_str()));
        i = i + 1;
    }
    r
}

/// The user-data folders to back up: the candidates that exist, or the home
/// directory itself when none does; nothing without a home directory.
pub fn pick_auto_sources(home: Option<&str>, candidates: &[String], exists: &[bool]) -> (r: Vec<String>)
    requires
        candidates@.len() == exists@.len(),
    ensures
        home is None ==> r@.len() == 0,
        home matches Some(h) ==> {
            let kept = texts_of(candidates@).zip_with(exists@).filter(|e: (Seq<char>, bool)| e.1).map_values(|e: (Seq<char>, bool)| e.0);
            if kept.len() == 0 { texts_of(r@) == seq![h@] } else { texts_of(r@) == kept }
        },
{
    let mut r: Vec<String> = Vec::new();
    match home {
        None => r,
        Some(h) => {
            let ghost pairs = texts_of(candidates@).zip_with(exists@);
            let mut i: usize = 0;
            while i < candidates.len()
                invariant
                    i <= candidates@.len(),
                    candidates@.len() == exists@.len(),
                    pairs == texts_of(candidates@).zip_with(exists@),
                    texts_of(r@) == pairs.take(i as int).filter(|e: (Seq<char>, bool)| e.1).map_values(|e: (Seq<char>, bool)| e.0),
                decreases candidates@.len() - i,
            {
                proof {
                    reveal_with_fuel(Seq::filter, 1);
                    assert(pairs.take(i + 1).drop_last() == pairs.take(i as int));
                    assert(pairs[i as int] == (candidates@[i as int]@, exists@[i as int]));
                }
                if exists[i] {
                    let ghost f_old = pairs.take(i as int).filter(|e: (Seq<char>, bool)| e.1);
                    let ghost r_old = r@;
                    let c = candidates[i].clone();
                    r.push(c);
                    assert(pairs.take(i + 1).filter(|e: (Seq<char>, bool)| e.1) == f_old.push(pairs[i as int]));
                    assert(f_old.push(pairs[i as int]).map_values(|e: (Seq<char>, bool)| e.0)
                        =~= f_old.map_values(|e: (Seq<char>, bool)| e.0).push(pairs[i as int].0));
                    assert(texts_of(r@) =~= texts_of(r_old).push(c@));
                    assert(texts_of(r@) =~= pairs.take(i + 1).filter(|e: (Seq<char>, bool)| e.1).map_values(|e: (Seq<char>, bool)| e.0));
                } else {
                    assert(texts_of(r@) =~= pairs.take(i + 1).filter(|e: (Seq<char>, bool)| e.1).map_values(|e: (Seq<char>, bool)| e.0));
                }
                i = i + 1;
            }
            assert(pairs.take(candidates@.len() as int) == pairs);
            if r.len() == 0 {
                r.push(h.to_owned());
                assert(texts_of(r@) =~= seq![h@]);
            }
            r
        },
    }
}

} // verus!

verus! {

/// The metadata a map records for a key, if any.
pub open spec fn lookup(m: Map<Seq<char>, FileMeta>, k: Seq<char>) -> Option<FileMeta> {
    if m.contains_key(k) {
        Some(m[k])
    } else {
        None
    }
}

/// The manifest map of a scan: each entry recorded under its relative path,
/// a later entry replacing an earlier one with the same path.
pub open spec fn files_of(entries: Seq<Entry>) -> Map<Seq<char>, FileMeta>
    decreases entries.len(),
{
    if entries.len() == 0 {
        Map::empty()
    } else {
        files_of(entries.drop_last()).insert(entries.last().rel@, entries.last().meta)
    }
}

/// Whether entry `i` must be copied, against the previous run's map.
pub open spec fn entry_needs_copy(entries: Seq<Entry>, prev: Map<Seq<char>, FileMeta>, use_checksum: bool, i: int) -> bool {
    needs_copy_spec(entries[i].meta, lookup(prev, entries[i].rel@), use_checksum)
}

/// The indices of the entries that must be copied, in scan order.
pub open spec fn todo_spec(entries: Seq<Entry>, prev: Map<Seq<char>, FileMeta>, use_checksum: bool) -> Seq<usize> {
    Seq::new(entries.len(), |i: int| i as usize).filter(|i: usize| entry_needs_copy(entries, prev, use_checksum, i as int))
}

/// How many of the entries, counting files and links only, need no copy.
pub open spec fn unchanged_files(entries: Seq<Entry>, prev: Map<Seq<char>, FileMeta>, use_checksum: bool) -> nat
    decreases entries.len(),
{
    if entries.len() == 0 {
        0
    } else {
        unchanged_files(entries.drop_last(), prev, use_checksum) + if !needs_copy_spec(
            entries.last().meta,
            lookup(prev, entries.last().rel@),
            use_checksum,
        ) && entries.last().meta.kind != Kind::Dir {
            1nat
        } else {
            0nat
        }
    }
}

/// What a backup run does: which entries to copy, how many are unchanged,
/// which recorded paths have disappeared from the sources, and the new
/// manifest map.
pub struct BackupPlan {
    /// Indices of the entries to copy, in scan order.
    pub todo: Vec<usize>,
    /// Number of files and links that need no copy (directories are not
    /// counted in a run's report).
    pub unchanged: u64,
    /// Paths of the previous manifest that no entry has any more, in key order.
    pub deletions: Vec<String>,
    /// The manifest map of this run.
    pub files: FileMap,
}

/// Every path scanned is in the new manifest, and every path in it was scanned.
pub proof fn lemma_files_of_keys(entries: Seq<Entry>, k: Seq<char>)
    ensures
        files_of(entries).contains_key(k) <==> exists|i: int| 0 <= i < entries.len() && #[trigger] entries[i].rel@ == k,
    decreases entries.len(),
{
    if entries.len() > 0 {
        lemma_files_of_keys(entries.drop_last(), k);
        if files_of(entries.drop_last()).contains_key(k) {
            let i = choose|i: int| 0 <= i < entries.drop_last().len() && #[trigger] entries.drop_last()[i].rel@ == k;
            assert(entries[i].rel@ == k);
        }
        if exists|i: int| 0 <= i < entries.len() && #[trigger] entries[i].rel@ == k {
            let i = choose|i: int| 0 <= i < entries.len() && #[trigger] entries[i].rel@ == k;
            if i < entries.len() - 1 {
                assert(entries.drop_last()[i].rel@ == k);
            }
        }
    }
}

/// Compares a scan with the previous manifest: the entries to copy are those
/// `needs_copy` selects, the others are unchanged, and the recorded paths
/// that were not scanned again are deletions.
pub fn plan_backup(entries: &[Entry], prev: &FileMap, use_checksum: bool) -> (plan: BackupPlan)
    requires
        prev.wf(),
    ensures
        plan.files.wf(),
        plan.files.view() == files_of(entries@),
        plan.todo@ == todo_spec(entries@, prev.view(), use_checksum),
        plan.unchanged == unchanged_files(entries@, prev.view(), use_checksum),
        texts_of(plan.deletions@) == prev.key_seq().filter(|k: Seq<char>| !files_of(entries@).contains_key(k)),
{
    let mut todo: Vec<usize> = Vec::new();
    let mut unchanged: u64 = 0;
    let mut files = FileMap::new();
    let ghost idx = Seq::new(entries@.len(), |i: int| i as usize);
    let mut i: usize = 0;
    while i < entries.len()
        invariant
            prev.wf(),
            files.wf(),
            i <= entries@.len(),
            idx == Seq::new(entries@.len(), |i: int| i as usize),
            files.view() == files_of(entries@.take(i as int)),
            todo@ == idx.take(i as int).filter(|j: usize| entry_needs_copy(entries@, prev.view(), use_checksum, j as int)),
            todo@.len() <= i,
            unchanged == unchanged_files(entries@.take(i as int), prev.view(), use_checksum),
            unchanged <= i,
        decreases entries@.len() - i,
    {
        let e = &entries[i];
        let p = prev.get(e.rel.as_str());
        let need = needs_copy(&e.meta, p, use_checksum);
        proof {
            reveal_with_fuel(Seq::filter, 1);
            assert(idx.take(i + 1).drop_last() == idx.take(i as int));
            assert(idx.take(i + 1).last() == i as usize);
            assert(need == entry_needs_copy(entries@, prev.view(), use_checksum, i as int));
            assert(entries@.take(i + 1).drop_last() == entries@.take(i as int));
            assert(entries@.take(i + 1).last() == entries@[i as int]);
        }
        if need {
            todo.push(i);
        } else if e.meta.kind != Kind::Dir {
            unchanged = unchanged + 1;
        }
        files.insert(e.rel.clone(), e.meta.duplicate());
        i = i + 1;
    }
    proof {
        assert(idx.take(entries@.len() as int) == idx);
        assert(entries@.take(entries@.len() as int) == entries@);
        prev.lemma_view();
    }
    let keys = prev.keys();
    let mut deletions: Vec<String> = Vec::new();
    let mut j: usize = 0;
    while j < keys.len()
        invariant
            files.wf(),
            files.view() == files_of(entries@),
            j <= keys@.len(),
            texts_of(keys@) == prev.key_seq(),
            texts_of(deletions@) == prev.key_seq().take(j as int).filter(|k: Seq<char>| !files_of(entries@).contains_key(k)),
        decreases keys@.len() - j,
    {
        let present = files.contains_key(keys[j].as_str());
        proof {
            reveal_with_fuel(Seq::filter, 1);
            assert(prev.key_seq().take(j + 1).drop_last() == prev.key_seq().take(j as int));
            assert(prev.key_seq()[j as int] == keys@[j as int]@);
            assert(prev.key_seq().take(j + 1).last() == keys@[j as int]@);
        }
        if !present {
            let ghost before = deletions@;
            deletions.push(keys[j].clone());
            assert(texts_of(deletions@) =~= texts_of(before).push(keys@[j as int]@));
        }
        j = j + 1;
    }
    proof {
        assert(prev.key_seq().take(keys@.len() as int) == prev.key_seq());
    }
    BackupPlan { todo, unchanged, deletions, files }
}

} // verus!

verus! {

/// The key that KDF parameters and a password give.
pub open spec fn kdf_key_spec(kdf: KdfParams, pass: Seq<char>) -> Result<Seq<u8>, BackupError> {
    match crate::manifest::base64_decoded(kdf.salt_b64@) {
        None => Err(BackupError::SaltEncoding),
        Some(s) => derive_key_spec(pass, s, kdf.m_cost, kdf.t_cost, kdf.p_cost),
    }
}

/// The key of an encrypted run and the parameters recorded for it.
pub struct RunKey {
    pub kdf: KdfParams,
    pub key: [u8; 32],
}

/// Whether a previous manifest's salt and costs are reused: it used the same
/// cipher and recorded KDF parameters.
pub open spec fn reuses_kdf(cipher: Cipher, prev: Option<&Manifest>) -> bool {
    match prev {
        Some(pm) => pm.cipher@ == crate::crypto::cipher_name(cipher) && pm.kdf is Some,
        None => false,
    }
}

/// The key of a backup run. Without encryption there is none. Otherwise the
/// password is required; the salt and costs of the previous manifest are
/// reused when it used the same cipher, else a fresh random salt and the
/// default costs are used (drawing the salt fails with `BackupError::Random`
/// when the operating system has no randomness to give). The recorded
/// parameters re-derive the key.
pub fn backup_key(cipher: Cipher, passphrase: Option<&str>, prev: Option<&Manifest>) -> (r: Result<Option<RunKey>, BackupError>)
    ensures
        cipher == Cipher::Plain ==> r matches Ok(None),
        cipher != Cipher::Plain && passphrase is None ==> r matches Err(BackupError::PasswordMissing),
        cipher != Cipher::Plain && passphrase is Some ==> !(r matches Ok(None)),
        r matches Ok(Some(rk)) ==> {
            &&& rk.kdf.algo@ == "argon2id"@
            &&& kdf_key_spec(rk.kdf, passphrase->0@) == Ok::<Seq<u8>, BackupError>(rk.key@)
        },
        cipher != Cipher::Plain && passphrase is Some && reuses_kdf(cipher, prev) ==> {
            let old = prev->0.kdf->0;
            match kdf_key_spec(old, passphrase->0@) {
                Ok(k) => r matches Ok(Some(rk)) && rk.key@ == k && rk.kdf.m_cost == old.m_cost
                    && rk.kdf.t_cost == old.t_cost && rk.kdf.p_cost == old.p_cost
                    && rk.kdf.salt_b64@ == old.salt_b64@,
                Err(e) => r matches Err(e2) && e2 == e,
            }
        },
        cipher != Cipher::Plain && passphrase is Some && !reuses_kdf(cipher, prev) ==> {
            &&& r matches Ok(Some(rk)) ==> rk.kdf.m_cost == crate::crypto::DEFAULT_M_COST
                && rk.kdf.t_cost == crate::crypto::DEFAULT_T_COST && rk.kdf.p_cost == crate::crypto::DEFAULT_P_COST
                && (crate::manifest::base64_decoded(rk.kdf.salt_b64@) matches Some(s) && s.len() == 16)
            &&& vstd::utf8::encode_utf8(passphrase->0@).len() <= 0xFFFF_FFFF
                ==> (r is Ok && r->Ok_0 is Some) || (r is Err && r->Err_0 is Random)
            &&& r is Err ==> (r->Err_0 is Kdf || r->Err_0 is Random)
        },
{
    if cipher == Cipher::Plain {
        return Ok(None);
    }
    let pass = match passphrase {
        Some(p) => p,
        None => return Err(BackupError::PasswordMissing),
    };
    let mut reuse: Option<&KdfParams> = None;
    if let Some(pm) = prev {
        if str_eq(pm.cipher.as_str(), cipher.name()) {
            if let Some(k) = &pm.kdf {
                reuse = Some(k);
            }
        }
    }
    assert(reuse is Some <==> reuses_kdf(cipher, prev));
    match reuse {
        Some(k) => {
            // the recorded salt (canonical base64) is kept as it is
            let salt = k.salt()?;
            let key = derive_key(pass, salt.as_slice(), k.m_cost, k.t_cost, k.p_cost)?;
            let kdf = KdfParams {
                algo: "argon2id".to_owned(),
                salt_b64: k.salt_b64.clone(),
                m_cost: k.m_cost,
                t_cost: k.t_cost,
                p_cost: k.p_cost,
            };
            Ok(Some(RunKey { kdf, key }))
        },
        None => {
            let salt = random_salt()?;
            assert(salt@.len() == 16);
            let m = crate::crypto::DEFAULT_M_COST;
            let t = crate::crypto::DEFAULT_T_COST;
            let p = crate::crypto::DEFAULT_P_COST;
            let key = derive_key(pass, &salt, m, t, p)?;
            let kdf = KdfParams::argon2id(&salt, m, t, p);
            Ok(Some(RunKey { kdf, key }))
        },
    }
}

} // verus!

verus! {

/// What the cipher name, KDF parameters and password of a set give when it is
/// restored or verified: the cipher and its key, or `None` when that fails.
pub open spec fn set_key_spec(name: Seq<char>, kdf: Option<KdfParams>, pass: Option<Seq<char>>) -> Option<(Cipher, Option<Seq<u8>>)> {
    match crate::crypto::cipher_of_name(crate::crypto::normalized_name(name)) {
        None => None,
        Some(Cipher::Plain) => Some((Cipher::Plain, None)),
        Some(c) => match (kdf, pass) {
            (Some(k), Some(p)) => match kdf_key_spec(k, p) {
                Ok(key) => Some((c, Some(key))),
                Err(_) => None,
            },
            _ => None,
        },
    }
}

/// The key bytes of an optional key.
pub open spec fn key_view(k: Option<[u8; 32]>) -> Option<Seq<u8>> {
    match k {
        Some(a) => Some(a@),
        None => None,
    }
}

/// The cipher of a set and, when it is encrypted, its key re-derived from the
/// recorded KDF parameters and the password.
pub fn set_key(cipher_name: &str, kdf: Option<&KdfParams>, passphrase: Option<&str>) -> (r: Result<(Cipher, Option<[u8; 32]>), BackupError>)
    ensures
        match set_key_spec(cipher_name@, match kdf { Some(k) => Some(*k), None => None }, opt_text(passphrase)) {
            Some((c, k)) => r matches Ok((c2, k2)) && c2 == c && key_view(k2) == k,
            None => r is Err,
        },
        r matches Ok((c, k)) ==> (c == Cipher::Plain <==> k is None),
        (crate::crypto::cipher_of_name(crate::crypto::normalized_name(cipher_name@)) matches Some(c)
            && c != Cipher::Plain && kdf is None) ==> (r matches Err(BackupError::KdfMissing)),
        (crate::crypto::cipher_of_name(crate::crypto::normalized_name(cipher_name@)) matches Some(c)
            && c != Cipher::Plain && kdf is Some && passphrase is None) ==> (r matches Err(BackupError::PasswordMissing)),
{
    let cipher = Cipher::parse(cipher_name)?;
    if cipher == Cipher::Plain {
        return Ok((cipher, None));
    }
    let k = match kdf {
        Some(k) => k,
        None => return Err(BackupError::KdfMissing),
    };
    let pass = match passphrase {
        Some(p) => p,
        None => return Err(BackupError::PasswordMissing),
    };
    let salt = k.salt()?;
    let key = derive_key(pass, salt.as_slice(), k.m_cost, k.t_cost, k.p_cost)?;
    Ok((cipher, Some(key)))
}

/// A set written with a cipher and KDF parameters that derive a key is read
/// back with that cipher and the same key, given the same password.
pub proof fn lemma_restore_key_matches_backup(c: Cipher, kdf: KdfParams, pass: Seq<char>, key: Seq<u8>)
    requires
        c != Cipher::Plain,
        kdf_key_spec(kdf, pass) == Ok::<Seq<u8>, BackupError>(key),
    ensures
        set_key_spec(crate::crypto::cipher_name(c), Some(kdf), Some(pass)) == Some((c, Some(key))),
{
    crate::crypto::lemma_parse_name_roundtrip(c);
}

/// A restore reads back what a backup stored: when a run's recorded KDF
/// parameters derive its key from the password (as `backup_key` ensures) and
/// a file was stored as a blob that decrypts under that key to its contents
/// (as `encrypt` and `seal_chunk` ensure), the cipher and key that a restore takes from the
/// manifest and the same password decrypt that blob to those contents.
pub proof fn lemma_restore_reads_back(
    c: Cipher,
    kdf: KdfParams,
    pass: Seq<char>,
    key: Seq<u8>,
    data: Seq<u8>,
    blob: Seq<u8>,
)
    requires
        c != Cipher::Plain,
        kdf_key_spec(kdf, pass) == Ok::<Seq<u8>, BackupError>(key),
        decrypt_blob_spec(c, key, blob) == Ok::<Seq<u8>, BackupError>(data),
    ensures
        set_key_spec(crate::crypto::cipher_name(c), Some(kdf), Some(pass)) matches Some((c2, Some(k2)))
            && decrypt_blob_spec(c2, k2, blob) == Ok::<Seq<u8>, BackupError>(data),
{
    lemma_restore_key_matches_backup(c, kdf, pass, key);
}

/// An unencrypted set needs no key, whatever else is recorded.
pub proof fn lemma_plain_set_needs_no_key(kdf: Option<KdfParams>, pass: Option<Seq<char>>)
    ensures
        set_key_spec(crate::crypto::cipher_name(Cipher::Plain), kdf, pass) == Some((Cipher::Plain, None::<Seq<u8>>)),
{
    crate::crypto::lemma_parse_name_roundtrip(Cipher::Plain);
}

/// BLAKE3 of a byte sequence, as 64 lower-case hex digits.
pub uninterp spec fn blake3_hex_spec(data: Seq<u8>) -> Seq<char>;

/// Hashes with `blake3::hash(data).to_hex()`; the result is `blake3_hex_spec`
/// of the data.
#[verifier::external_body]
fn blake3_hex(data: &[u8]) -> (r: String)
    ensures
        r@ == blake3_hex_spec(data@),
{
    blake3::hash(data).to_hex().to_string()
}

/// What checking a stored file against its manifest record gives.
pub open spec fn verify_contents_spec(meta: FileMeta, cipher: Cipher, key: Seq<u8>, blob: Seq<u8>) -> Result<(), BackupError> {
    let data = if cipher == Cipher::Plain { Ok(blob) } else { decrypt_blob_spec(cipher, key, blob) };
    match data {
        Err(e) => Err(e),
        Ok(d) => match meta.blake3 {
            Some(h) => if blake3_hex_spec(d) == h@ { Ok(()) } else { Err(BackupError::HashMismatch) },
            None => if d.len() == meta.size { Ok(()) } else { Err(BackupError::SizeMismatch) },
        },
    }
}

/// A stored copy verifies: when the blob holds the file's contents (as they
/// are, or as `encrypt` sealed them with the set's cipher and key) and the
/// manifest records their BLAKE3 (or, without one, their size), the check of
/// `verify_contents` passes.
pub proof fn lemma_copy_verifies(meta: FileMeta, cipher: Cipher, key: Seq<u8>, data: Seq<u8>, blob: Seq<u8>)
    requires
        cipher == Cipher::Plain ==> blob == data,
        cipher != Cipher::Plain ==> decrypt_blob_spec(cipher, key, blob) == Ok::<Seq<u8>, BackupError>(data),
        match meta.blake3 {
            Some(h) => h@ == blake3_hex_spec(data),
            None => meta.size == data.len(),
        },
    ensures
        verify_contents_spec(meta, cipher, key, blob) == Ok::<(), BackupError>(()),
{
}

/// Whether a stored blob holds some contents as a set with `cipher` and `key`
/// stores them: as they are, or sealed so that they decrypt back.
pub open spec fn holds_contents(cipher: Cipher, key: Seq<u8>, blob: Seq<u8>, data: Seq<u8>) -> bool {
    if cipher == Cipher::Plain {
        blob == data
    } else {
        decrypt_blob_spec(cipher, key, blob) == Ok::<Seq<u8>, BackupError>(data)
    }
}

/// Whether a record describes some contents: by their BLAKE3 when one was
/// recorded, otherwise by their size.
pub open spec fn records_contents(meta: FileMeta, data: Seq<u8>) -> bool {
    match meta.blake3 {
        Some(h) => h@ == blake3_hex_spec(data),
        None => meta.size == data.len(),
    }
}

/// What a finished backup leaves: every regular file of the manifest is stored
/// under its key, holding the contents that were read from its source, and its
/// record describes those contents.
pub open spec fn set_stored(
    files: Map<Seq<char>, FileMeta>,
    cipher: Cipher,
    key: Seq<u8>,
    contents: Map<Seq<char>, Seq<u8>>,
    stored: Map<Seq<char>, Seq<u8>>,
) -> bool {
    forall|k: Seq<char>| #[trigger] files.contains_key(k) && files[k].kind == Kind::File ==> {
        &&& contents.contains_key(k)
        &&& stored.contains_key(k)
        &&& records_contents(files[k], contents[k])
        &&& holds_contents(cipher, key, stored[k], contents[k])
    }
}

/// A set verifies after the backup that wrote it: when every regular file of
/// the manifest is stored as the backup stores it, the check of every one of
/// them passes, so `verify_set` counts no error for the files.
pub proof fn lemma_backup_then_verify(
    files: Map<Seq<char>, FileMeta>,
    cipher: Cipher,
    key: Seq<u8>,
    contents: Map<Seq<char>, Seq<u8>>,
    stored: Map<Seq<char>, Seq<u8>>,
)
    requires
        set_stored(files, cipher, key, contents, stored),
    ensures
        forall|k: Seq<char>| #[trigger] files.contains_key(k) && files[k].kind == Kind::File
            ==> verify_contents_spec(files[k], cipher, key, stored[k]) == Ok::<(), BackupError>(()),
{
    assert forall|k: Seq<char>| #[trigger] files.contains_key(k) && files[k].kind == Kind::File
        implies verify_contents_spec(files[k], cipher, key, stored[k]) == Ok::<(), BackupError>(()) by {
        lemma_copy_verifies(files[k], cipher, key, contents[k], stored[k]);
    }
}

/// A restore gives back what the backup read: when an encrypted set's
/// recorded KDF parameters derive its key from the password and every regular
/// file is stored as the backup stores it, the cipher and key that a restore
/// takes from the manifest and that password decrypt every stored file to the
/// contents read from its source.
pub proof fn lemma_backup_then_restore(
    files: Map<Seq<char>, FileMeta>,
    c: Cipher,
    kdf: KdfParams,
    pass: Seq<char>,
    key: Seq<u8>,
    contents: Map<Seq<char>, Seq<u8>>,
    stored: Map<Seq<char>, Seq<u8>>,
)
    requires
        c != Cipher::Plain,
        kdf_key_spec(kdf, pass) == Ok::<Seq<u8>, BackupError>(key),
        set_stored(files, c, key, contents, stored),
    ensures
        set_key_spec(crate::crypto::cipher_name(c), Some(kdf), Some(pass)) == Some((c, Some(key))),
        forall|k: Seq<char>| #[trigger] files.contains_key(k) && files[k].kind == Kind::File
            ==> decrypt_blob_spec(c, key, stored[k]) == Ok::<Seq<u8>, BackupError>(contents[k]),
{
    lemma_restore_key_matches_backup(c, kdf, pass, key);
}

/// An unencrypted set is restored as it is: the restore needs no key and each
/// stored regular file holds the contents read from its source.
pub proof fn lemma_plain_backup_then_restore(
    files: Map<Seq<char>, FileMeta>,
    kdf: Option<KdfParams>,
    pass: Option<Seq<char>>,
    contents: Map<Seq<char>, Seq<u8>>,
    stored: Map<Seq<char>, Seq<u8>>,
)
    requires
        set_stored(files, Cipher::Plain, Seq::empty(), contents, stored),
    ensures
        set_key_spec(crate::crypto::cipher_name(Cipher::Plain), kdf, pass) == Some((Cipher::Plain, None::<Seq<u8>>)),
        forall|k: Seq<char>| #[trigger] files.contains_key(k) && files[k].kind == Kind::File
            ==> stored[k] == contents[k],
{
    lemma_plain_set_needs_no_key(kdf, pass);
}

/// Checks the stored contents of a file against its manifest record: decrypts
/// an encrypted set's blob, then compares BLAKE3 when one was recorded,
/// otherwise the size.
pub fn verify_contents(meta: &FileMeta, cipher: Cipher, key: Option<&[u8; 32]>, blob: &[u8]) -> (r: Result<(), BackupError>)
    requires
        cipher != Cipher::Plain ==> key is Some,
        crate::stream::is_chunked(blob@) || crate::crypto::decrypt_len_ok(cipher, blob@.len() as int),
    ensures
        match verify_contents_spec(*meta, cipher, match key { Some(k) => k@, None => Seq::empty() }, blob@) {
            Ok(()) => r is Ok,
            Err(e) => r matches Err(e2) && e2 == e,
        },
{
    let decrypted: Vec<u8>;
    let data: &[u8] = if cipher == Cipher::Plain {
        blob
    } else {
        let k = match key {
            Some(k) => k,
            None => return Err(BackupError::KdfMissing),
        };
        decrypted = crate::stream::decrypt_blob(cipher, k, blob)?;
        decrypted.as_slice()
    };
    match &meta.blake3 {
        Some(h) => {
            let got = blake3_hex(data);
            if str_eq(got.as_str(), h.as_str()) {
                Ok(())
            } else {
                Err(BackupError::HashMismatch)
            }
        },
        None => {
            if data.len() as u64 == meta.size {
                Ok(())
            } else {
                Err(BackupError::SizeMismatch)
            }
        },
    }
}

/// Checks that a stored symbolic link points where the manifest says.
pub fn verify_symlink(meta: &FileMeta, target: &str) -> (r: Result<(), BackupError>)
    ensures
        r is Ok <==> target@ == meta.target@,
        r matches Err(e) ==> e == BackupError::SymlinkMismatch,
{
    if str_eq(target, meta.target.as_str()) {
        Ok(())
    } else {
        Err(BackupError::SymlinkMismatch)
    }
}

} // verus!

verus! {

/// How a failed copy is counted in the summary of a run.
#[derive(Clone, Copy, PartialEq, Eq, Structural, Debug)]
pub enum FailureClass {
    /// The file is locked by another process.
    InUse,
    /// Access was denied.
    Denied,
    /// The file vanished.
    NotFound,
    Other,
}

/// The class of a failure message (checked in this order): in use, denied,
/// not found, other.
pub open spec fn failure_class_spec(msg: Seq<char>) -> FailureClass {
    if crate::text::contains_spec(msg, "(os error 32)"@) || crate::text::contains_spec(msg, "being used by another process"@) {
        FailureClass::InUse
    } else if crate::text::contains_spec(msg, "(os error 5)"@) || crate::text::contains_spec(msg, "(os error 13)"@)
        || crate::text::contains_spec(msg, "Access is denied"@) || crate::text::contains_spec(msg, "denied"@) {
        FailureClass::Denied
    } else if crate::text::contains_spec(msg, "(os error 2)"@) || crate::text::contains_spec(msg, "(os error 3)"@)
        || crate::text::contains_spec(msg, "cannot find"@) || crate::text::contains_spec(msg, "No such file"@) {
        FailureClass::NotFound
    } else {
        FailureClass::Other
    }
}

/// Classifies the message of a failed copy for the end-of-run summary.
pub fn classify_failure(msg: &str) -> (r: FailureClass)
    ensures
        r == failure_class_spec(msg@),
{
    if contains_str(msg, "(os error 32)") || contains_str(msg, "being used by another process") {
        FailureClass::InUse
    } else if contains_str(msg, "(os error 5)") || contains_str(msg, "(os error 13)")
        || contains_str(msg, "Access is denied") || contains_str(msg, "denied") {
        FailureClass::Denied
    } else if contains_str(msg, "(os error 2)") || contains_str(msg, "(os error 3)")
        || contains_str(msg, "cannot find") || contains_str(msg, "No such file") {
        FailureClass::NotFound
    } else {
        FailureClass::Other
    }
}

/// Cap on individual error lines logged per run; the rest are summarized.
pub const ERROR_LOG_CAP: u64 = 200;

/// What is logged for the failure with this zero-based number.
#[derive(Clone, Copy, PartialEq, Eq, Structural, Debug)]
pub enum FailureLog {
    /// The failure's own line.
    Line,
    /// One line saying that further failures are suppressed.
    Suppressed,
    /// Nothing.
    Silent,
}

/// The first `ERROR_LOG_CAP` failures get a line each, the next one a notice,
/// the rest nothing.
pub fn failure_log(n: u64) -> (r: FailureLog)
    ensures
        n < ERROR_LOG_CAP ==> r == FailureLog::Line,
        n == ERROR_LOG_CAP ==> r == FailureLog::Suppressed,
        n > ERROR_LOG_CAP ==> r == FailureLog::Silent,
{
    if n < ERROR_LOG_CAP {
        FailureLog::Line
    } else if n == ERROR_LOG_CAP {
        FailureLog::Suppressed
    } else {
        FailureLog::Silent
    }
}

/// Whether some path names a whole volume root.
pub open spec fn any_volume_root(sources: Seq<Seq<char>>) -> bool {
    exists|i: int| 0 <= i < sources.len() && is_volume_root_spec(#[trigger] sources[i])
}

/// The exclusion patterns of a backup: the given ones, plus the system
/// directories of the platform when a whole volume root is selected and system
/// directories are not wanted. The flag tells whether those were added.
pub fn backup_excludes(excludes: &[String], include_system: bool, sources: &[String], p: Platform) -> (r: (Vec<String>, bool))
    ensures
        r.1 == (!include_system && any_volume_root(texts_of(sources@))),
        texts_of(r.0@) == texts_of(excludes@) + (if r.1 { disk_excludes_spec(p) } else { Seq::empty() }),
{
    let mut out = copy_strings(excludes);
    let mut any_root = false;
    let mut i: usize = 0;
    while i < sources.len()
        invariant
            i <= sources@.len(),
            any_root == exists|j: int| 0 <= j < i && is_volume_root_spec(#[trigger] texts_of(sources@)[j]),
        decreases sources@.len() - i,
    {
        let v = is_volume_root(sources[i].as_str());
        assert(texts_of(sources@)[i as int] == sources@[i as int]@);
        if v {
            any_root = true;
        }
        i = i + 1;
    }
    let add = !include_system && any_root;
    if add {
        let extra = disk_excludes(p);
        let ghost before = out@;
        let mut k: usize = 0;
        while k < extra.len()
            invariant
                k <= extra@.len(),
                texts_of(out@) == texts_of(before) + texts_of(extra@).take(k as int),
            decreases extra@.len() - k,
        {
            let ghost mid = out@;
            out.push(extra[k].clone());
            assert(texts_of(out@) =~= texts_of(mid).push(extra@[k as int]@));
            assert(texts_of(extra@).take(k + 1) =~= texts_of(extra@).take(k as int).push(extra@[k as int]@));
            k = k + 1;
        }
        assert(texts_of(extra@).take(extra@.len() as int) == texts_of(extra@));
    } else {
        assert(texts_of(out@) =~= texts_of(excludes@) + Seq::<Seq<char>>::empty());
    }
    (out, add)
}

#[verifier::external_type_specification]
#[verifier::external_body]
pub struct ExGlob(globset::Glob);

#[verifier::external_type_specification]
#[verifier::external_body]
pub struct ExGlobSet(globset::GlobSet);

#[verifier::external_type_specification]
#[verifier::external_body]
pub struct ExGlobError(globset::Error);

/// Whether globset accepts a pattern (with or without case folding). As
/// globset's source shows, this depends on the target the program is built
/// for (a backslash escapes only where `/` is the path separator), not on a
/// `Platform` argument.
pub uninterp spec fn glob_compiles(pattern: Seq<char>, case_insensitive: bool) -> bool;

/// Whether `globset::GlobSet::new` accepts the compiled patterns, each given
/// with its case flag, in order (on the target the program is built for).
pub uninterp spec fn glob_set_builds(patterns: Seq<(Seq<char>, bool)>) -> bool;

/// Whether the set that globset builds from patterns (each with its case
/// flag) matches a path. As globset's source shows, this depends on the
/// target the program is built for (paths are normalised on Windows builds),
/// not on a `Platform` argument.
pub uninterp spec fn globset_matches(patterns: Seq<(Seq<char>, bool)>, path: Seq<char>) -> bool;

/// One compiled pattern, with the text and the case flag it was compiled from.
struct CompiledGlob {
    glob: globset::Glob,
    pattern: String,
    case_insensitive: bool,
}

/// The patterns and case flags of compiled patterns.
spec fn sources_of(globs: Seq<CompiledGlob>) -> Seq<(Seq<char>, bool)> {
    globs.map_values(|g: CompiledGlob| (g.pattern@, g.case_insensitive))
}

/// Each pattern paired with one case flag.
pub open spec fn with_flag(patterns: Seq<Seq<char>>, case_insensitive: bool) -> Seq<(Seq<char>, bool)> {
    patterns.map_values(|s: Seq<char>| (s, case_insensitive))
}

/// Compiles one pattern with `globset::GlobBuilder::new(p).case_insensitive(ci).build()`;
/// it succeeds exactly when `glob_compiles` holds of the pattern, and the
/// result keeps the pattern's text and flag beside the compiled glob.
#[verifier::external_body]
fn compile_glob(pattern: &str, case_insensitive: bool) -> (r: Result<CompiledGlob, globset::Error>)
    ensures
        r is Ok <==> glob_compiles(pattern@, case_insensitive),
        r matches Ok(g) ==> g.pattern@ == pattern@ && g.case_insensitive == case_insensitive,
{
    let glob = globset::GlobBuilder::new(pattern).case_insensitive(case_insensitive).build()?;
    Ok(CompiledGlob { glob, pattern: pattern.to_string(), case_insensitive })
}

/// A compiled set of exclusion patterns, with the text and case flag of each
/// pattern it was built from.
pub struct ExcludeSet {
    sources: Vec<(String, bool)>,
    matcher: globset::GlobSet,
}

/// Combines compiled patterns with `globset::GlobSet::new`; it succeeds
/// exactly when `glob_set_builds` holds of their texts and flags, and the set
/// it returns records those texts and flags beside the matcher built from
/// their globs.
#[verifier::external_body]
fn glob_set(globs: Vec<CompiledGlob>) -> (r: Result<ExcludeSet, globset::Error>)
    ensures
        r is Ok <==> glob_set_builds(sources_of(globs@)),
        r matches Ok(set) ==> set.sources() == sources_of(globs@),
{
    let sources: Vec<(String, bool)> = globs.iter().map(|g| (g.pattern.clone(), g.case_insensitive)).collect();
    let matcher = globset::GlobSet::new(globs.into_iter().map(|g| g.glob))?;
    Ok(ExcludeSet { sources, matcher })
}

/// Asks the compiled set with `globset::GlobSet::is_match`; the answer is
/// `globset_matches` of the patterns the set records and the path.
#[verifier::external_body]
fn globset_is_match(set: &ExcludeSet, path: &str) -> (r: bool)
    ensures
        r == globset_matches(set.sources(), path@),
{
    set.matcher.is_match(path)
}

impl ExcludeSet {
    /// The patterns the set was built from, each with its case flag, in order.
    pub closed spec fn sources(&self) -> Seq<(Seq<char>, bool)> {
        self.sources@.map_values(|e: (String, bool)| (e.0@, e.1))
    }

    /// Whether some pattern of the set matches the path.
    pub fn is_match(&self, path: &str) -> (r: bool)
        ensures
            r == globset_matches(self.sources(), path@),
    {
        globset_is_match(self, path)
    }
}

/// Whether a path is left out of a backup: it, or one of the directories
/// above it (from the source down), matches an exclusion pattern, since an
/// excluded directory is not entered.
pub open spec fn excluded_spec(pats: Seq<(Seq<char>, bool)>, ancestors: Seq<Seq<char>>, path: Seq<char>) -> bool {
    globset_matches(pats, path) || exists|i: int| 0 <= i < ancestors.len() && globset_matches(pats, #[trigger] ancestors[i])
}

/// Whether a scanned path is left out, given the directories above it from
/// the source down.
pub fn is_excluded(set: &ExcludeSet, ancestors: &[String], path: &str) -> (r: bool)
    ensures
        r == excluded_spec(set.sources(), texts_of(ancestors@), path@),
{
    if set.is_match(path) {
        return true;
    }
    let mut i: usize = 0;
    while i < ancestors.len()
        invariant
            i <= ancestors@.len(),
            forall|j: int| 0 <= j < i ==> !globset_matches(set.sources(), #[trigger] texts_of(ancestors@)[j]),
        decreases ancestors@.len() - i,
    {
        assert(texts_of(ancestors@)[i as int] == ancestors@[i as int]@);
        if set.is_match(ancestors[i].as_str()) {
            return true;
        }
        i = i + 1;
    }
    false
}

/// Whether item `i` is the first with its text.
pub open spec fn first_occurrence(rels: Seq<Seq<char>>, i: int) -> bool {
    forall|j: int| 0 <= j < i ==> rels[j] != rels[i]
}

/// For each relative path, whether it is the first with its text, so that
/// overlapping sources (a folder and one inside it) are copied once.
pub fn first_occurrences(rels: &[String]) -> (keep: Vec<bool>)
    ensures
        keep@.len() == rels@.len(),
        forall|i: int| 0 <= i < rels@.len() ==> (keep@[i] <==> first_occurrence(texts_of(rels@), i)),
{
    let ghost t = texts_of(rels@);
    let mut seen: TextMap<bool> = TextMap::new();
    let mut keep: Vec<bool> = Vec::new();
    let mut i: usize = 0;
    while i < rels.len()
        invariant
            i <= rels@.len(),
            t == texts_of(rels@),
            seen.wf(),
            keep@.len() == i,
            forall|k: Seq<char>| seen.view().contains_key(k) ==> exists|j: int| 0 <= j < i && #[trigger] t[j] == k,
            forall|j: int| 0 <= j < i ==> seen.view().contains_key(#[trigger] t[j]),
            forall|m: int| 0 <= m < i ==> (#[trigger] keep@[m] <==> first_occurrence(t, m)),
        decreases rels@.len() - i,
    {
        let r: &String = &rels[i];
        assert(t[i as int] == r@);
        if seen.contains_key(r.as_str()) {
            proof {
                let j = choose|j: int| 0 <= j < i && #[trigger] t[j] == r@;
                assert(!first_occurrence(t, i as int));
            }
            keep.push(false);
        } else {
            assert(first_occurrence(t, i as int));
            keep.push(true);
            seen.insert(r.clone(), true);
        }
        i = i + 1;
    }
    keep
}

/// Whether a character separates path components (`/` or `\`).
pub open spec fn is_separator(c: char) -> bool {
    c == '/' || c == '\\'
}

/// Whether a path is absolute: it starts with a separator or a drive `X:`.
pub open spec fn is_absolute_spec(s: Seq<char>) -> bool {
    (s.len() > 0 && is_separator(s[0])) || (s.len() >= 2 && is_ascii_alpha(s[0]) && s[1] == ':')
}

/// Whether `..` is one of the path's components.
pub open spec fn has_parent_component(s: Seq<char>) -> bool {
    exists|i: int| 0 <= i && i + 2 <= s.len() && #[trigger] s[i] == '.' && s[i + 1] == '.'
        && (i == 0 || is_separator(s[i - 1])) && (i + 2 == s.len() || is_separator(s[i + 2]))
}

/// Whether a manifest key may be joined under a restore target: it is
/// relative and never climbs with `..`.
pub fn safe_rel(rel: &str) -> (r: bool)
    ensures
        r <==> !is_absolute_spec(rel@) && !has_parent_component(rel@),
{
    let c = chars_of(rel);
    let n = c.len();
    if n > 0 && (c[0] == '/' || c[0] == '\\') {
        return false;
    }
    if n >= 2 && c[1] == ':' && (('a' <= c[0] && c[0] <= 'z') || ('A' <= c[0] && c[0] <= 'Z')) {
        return false;
    }
    let mut i: usize = 0;
    while i < n && n - i >= 2
        invariant
            i <= n,
            n == c@.len(),
            c@ == rel@,
            forall|j: int| 0 <= j < i && j + 2 <= n ==> !(#[trigger] c@[j] == '.' && c@[j + 1] == '.'
                && (j == 0 || is_separator(c@[j - 1])) && (j + 2 == n || is_separator(c@[j + 2]))),
        decreases n - i,
    {
        if c[i] == '.' && c[i + 1] == '.' && (i == 0 || c[i - 1] == '/' || c[i - 1] == '\\')
            && (i + 2 == n || c[i + 2] == '/' || c[i + 2] == '\\') {
            return false;
        }
        i = i + 1;
    }
    true
}

/// What a restore does with one manifest entry.
#[derive(Clone, Copy, PartialEq, Eq, Structural, Debug)]
pub enum RestoreStep {
    /// The key is absolute or climbs out of the target: it is skipped.
    Skip,
    /// A directory is created.
    MakeDir,
    /// A symbolic link is recreated with its recorded target.
    MakeLink,
    /// A file's contents are written back.
    WriteFile,
}

/// What a restore does with an entry: skip an unsafe key, else recreate the
/// entry by its kind.
pub open spec fn restore_step_spec(rel: Seq<char>, kind: Kind) -> RestoreStep {
    if is_absolute_spec(rel) || has_parent_component(rel) {
        RestoreStep::Skip
    } else {
        match kind {
            Kind::Dir => RestoreStep::MakeDir,
            Kind::Symlink => RestoreStep::MakeLink,
            Kind::File => RestoreStep::WriteFile,
        }
    }
}

/// What a restore does with the entry recorded under `rel`.
pub fn restore_step(rel: &str, kind: Kind) -> (r: RestoreStep)
    ensures
        r == restore_step_spec(rel@, kind),
{
    if !safe_rel(rel) {
        return RestoreStep::Skip;
    }
    match kind {
        Kind::Dir => RestoreStep::MakeDir,
        Kind::Symlink => RestoreStep::MakeLink,
        Kind::File => RestoreStep::WriteFile,
    }
}

/// The default exclusion patterns followed by `extra`.
pub open spec fn all_patterns(extra: Seq<Seq<char>>) -> Seq<Seq<char>> {
    default_excludes_spec() + extra
}

/// A matcher for the default exclusion patterns followed by `extra`; patterns
/// are matched without case on Windows. The first pattern that does not
/// compile is reported.
pub fn build_globset(extra: &[String], p: Platform) -> (r: Result<ExcludeSet, BackupError>)
    ensures
        ({
            let all = all_patterns(texts_of(extra@));
            let ci = p == Platform::Windows;
            &&& (forall|i: int| 0 <= i < all.len() ==> glob_compiles(#[trigger] all[i], ci)) && glob_set_builds(with_flag(all, ci))
                ==> r is Ok
            &&& r matches Ok(set) ==> set.sources() == with_flag(all, ci) && glob_set_builds(with_flag(all, ci))
                && forall|i: int| 0 <= i < all.len() ==> glob_compiles(#[trigger] all[i], ci)
            &&& r matches Err(BackupError::BadPattern(pat)) ==> exists|i: int| 0 <= i < all.len()
                && all[i] == pat@ && !glob_compiles(pat@, ci)
                && forall|j: int| 0 <= j < i ==> glob_compiles(#[trigger] all[j], ci)
            &&& r matches Err(BackupError::PatternSet) ==> !glob_set_builds(with_flag(all, ci))
                && forall|i: int| 0 <= i < all.len() ==> glob_compiles(#[trigger] all[i], ci)
            &&& r matches Err(e) ==> (e matches BackupError::BadPattern(_) || e == BackupError::PatternSet)
        }),
{
    let ci = p == Platform::Windows;
    let defaults = default_excludes();
    let ghost all = all_patterns(texts_of(extra@));
    let mut globs: Vec<CompiledGlob> = Vec::new();
    let n = defaults.len();
    let mut i: usize = 0;
    while i < n
        invariant
            n == defaults@.len(),
            texts_of(defaults@) == default_excludes_spec(),
            all == all_patterns(texts_of(extra@)),
            ci == (p == Platform::Windows),
            i <= n,
            forall|j: int| 0 <= j < i ==> glob_compiles(#[trigger] all[j], ci),
            globs@.len() == i,
            forall|j: int| 0 <= j < i ==> (#[trigger] globs@[j]).pattern@ == all[j] && globs@[j].case_insensitive == ci,
        decreases n - i,
    {
        let pat: &String = &defaults[i];
        assert(pat@ == all[i as int]);
        match compile_glob(pat.as_str(), ci) {
            Ok(g) => {
                globs.push(g);
            },
            Err(_) => return Err(BackupError::BadPattern(pat.clone())),
        }
        i = i + 1;
    }
    let mut k: usize = 0;
    while k < extra.len()
        invariant
            n == defaults@.len(),
            n == default_excludes_spec().len(),
            all == all_patterns(texts_of(extra@)),
            all.len() == n + extra@.len(),
            ci == (p == Platform::Windows),
            k <= extra@.len(),
            forall|j: int| 0 <= j < n + k ==> glob_compiles(#[trigger] all[j], ci),
            globs@.len() == n + k,
            forall|j: int| 0 <= j < n + k ==> (#[trigger] globs@[j]).pattern@ == all[j] && globs@[j].case_insensitive == ci,
        decreases extra@.len() - k,
    {
        let pat: &String = &extra[k];
        assert(pat@ == all[n + k]);
        match compile_glob(pat.as_str(), ci) {
            Ok(g) => {
                globs.push(g);
            },
            Err(_) => return Err(BackupError::BadPattern(pat.clone())),
        }
        k = k + 1;
    }
    assert(sources_of(globs@) =~= with_flag(all, ci));
    match glob_set(globs) {
        Ok(set) => Ok(set),
        Err(_) => Err(BackupError::PatternSet),
    }
}

} // verus!

verus! {

/// Whether path `a` names a directory above path `b`: `b` goes on from `a`
/// after a separator.
pub open spec fn is_ancestor(a: Seq<char>, b: Seq<char>) -> bool {
    a.len() < b.len() && b.take(a.len() as int) == a && is_separator(b[a.len() as int])
}

/// The positions of a manifest's directories, deepest first: in reverse key
/// order, so that no directory comes before one below it and the times set
/// on a directory are not changed by work inside it afterwards.
pub fn dirs_deepest_first(files: &FileMap) -> (r: Vec<usize>)
    requires
        files.wf(),
    ensures
        forall|a: int| 0 <= a < r@.len() ==> #[trigger] r@[a] < files.key_seq().len()
            && files.value_seq()[r@[a] as int].kind == Kind::Dir,
        forall|i: int| 0 <= i < files.key_seq().len() && #[trigger] files.value_seq()[i].kind == Kind::Dir
            ==> exists|a: int| 0 <= a < r@.len() && r@[a] == i,
        forall|a: int, b: int| 0 <= a < b < r@.len() ==> #[trigger] r@[a] > #[trigger] r@[b],
        forall|a: int, b: int| 0 <= a < b < r@.len()
            ==> !is_ancestor(files.key_seq()[#[trigger] r@[a] as int], files.key_seq()[#[trigger] r@[b] as int]),
{
    let n = files.len();
    proof {
        files.lemma_view();
    }
    let mut r: Vec<usize> = Vec::new();
    let mut i: usize = n;
    while i > 0
        invariant
            files.wf(),
            n == files.key_seq().len(),
            n == files.value_seq().len(),
            i <= n,
            forall|a: int| 0 <= a < r@.len() ==> #[trigger] r@[a] < n && r@[a] >= i
                && files.value_seq()[r@[a] as int].kind == Kind::Dir,
            forall|j: int| i <= j < n && #[trigger] files.value_seq()[j].kind == Kind::Dir
                ==> exists|a: int| 0 <= a < r@.len() && r@[a] == j,
            forall|a: int, b: int| 0 <= a < b < r@.len() ==> #[trigger] r@[a] > #[trigger] r@[b],
        decreases i,
    {
        i = i - 1;
        if files.value_at(i).kind == Kind::Dir {
            let ghost before = r@;
            r.push(i);
            proof {
                assert forall|j: int| i <= j < n && #[trigger] files.value_seq()[j].kind == Kind::Dir
                    implies exists|a: int| 0 <= a < r@.len() && r@[a] == j by {
                    if j == i {
                        assert(r@[before.len() as int] == j);
                    } else {
                        let a = choose|a: int| 0 <= a < before.len() && before[a] == j;
                        assert(r@[a] == j);
                    }
                }
            }
        }
    }
    proof {
        assert forall|a: int, b: int| 0 <= a < b < r@.len()
            implies !is_ancestor(files.key_seq()[#[trigger] r@[a] as int], files.key_seq()[#[trigger] r@[b] as int]) by {
            let ka = files.key_seq()[r@[a] as int];
            let kb = files.key_seq()[r@[b] as int];
            assert(key_lt(kb, ka));
            if is_ancestor(ka, kb) {
                crate::order::lemma_key_lt_prefix(ka, kb);
                crate::order::lemma_key_order(ka, kb, ka);
            }
        }
    }
    r
}

/// Directories in the order to remove them once emptied: the same
/// directories, none before one below it (reverse key order).
pub fn removal_order(dirs: Vec<String>) -> (r: Vec<String>)
    ensures
        r@.to_multiset() == dirs@.to_multiset(),
        forall|i: int, j: int| 0 <= i < j < r@.len() ==> !is_ancestor(#[trigger] r@[i]@, #[trigger] r@[j]@),
{
    broadcast use vstd::seq_lib::group_to_multiset_ensures;
    broadcast use vstd::multiset::group_multiset_axioms;
    let mut s = crate::order::sort_texts(dirs);
    let ghost sorted = s@;
    let mut r: Vec<String> = Vec::new();
    proof {
        assert(r@.to_multiset() =~= vstd::multiset::Multiset::<String>::empty());
        assert(sorted.take(sorted.len() as int) =~= sorted);
    }
    while s.len() > 0
        invariant
            crate::order::texts_sorted(sorted),
            sorted.to_multiset() == dirs@.to_multiset(),
            s@ == sorted.take(s@.len() as int),
            r@.len() + s@.len() == sorted.len(),
            forall|i: int| 0 <= i < r@.len() ==> #[trigger] r@[i] == sorted[sorted.len() - 1 - i],
            r@.to_multiset().add(s@.to_multiset()) == sorted.to_multiset(),
        decreases s@.len(),
    {
        let ghost s0 = s@;
        let x = s.pop().unwrap();
        proof {
            assert(s0 =~= s@.push(x));
            assert(s@ =~= sorted.take(s@.len() as int));
        }
        let ghost r0 = r@;
        r.push(x);
        proof {
            assert(r@ =~= r0.push(x));
            vstd::seq_lib::to_multiset_build(r0, x);
            vstd::seq_lib::to_multiset_build(s@, x);
            assert(r@.to_multiset() == r0.to_multiset().insert(x));
            assert(s0.to_multiset() == s@.to_multiset().insert(x));
            assert(r@.to_multiset().add(s@.to_multiset()) =~= r0.to_multiset().add(s0.to_multiset()));
        }
    }
    proof {
        assert(s@.to_multiset() =~= vstd::multiset::Multiset::<String>::empty());
        assert(r@.to_multiset().add(s@.to_multiset()) =~= r@.to_multiset());
        assert forall|i: int, j: int| 0 <= i < j < r@.len() implies !is_ancestor(#[trigger] r@[i]@, #[trigger] r@[j]@) by {
            let n = sorted.len();
            assert(r@[i] == sorted[n - 1 - i]);
            assert(r@[j] == sorted[n - 1 - j]);
            assert(!key_lt(sorted[n - 1 - i]@, sorted[n - 1 - j]@));
            if is_ancestor(r@[i]@, r@[j]@) {
                crate::order::lemma_key_lt_prefix(r@[i]@, r@[j]@);
            }
        }
    }
    r
}

/// Whether an entry of a kind counts in a run's report: files and links do;
/// directories are recreated but not counted.
pub fn counts_in_report(kind: Kind) -> (r: bool)
    ensures
        r == (kind != Kind::Dir),
{
    kind != Kind::Dir
}

/// How many of some scanned entries are files or links.
pub open spec fn entry_file_count_spec(entries: Seq<Entry>) -> nat
    decreases entries.len(),
{
    if entries.len() == 0 {
        0
    } else {
        entry_file_count_spec(entries.drop_last()) + if entries.last().meta.kind == Kind::Dir { 0nat } else { 1nat }
    }
}

/// The number of files and links among scanned entries, as an evacuation
/// reports it.
pub fn entry_file_count(entries: &[Entry]) -> (r: u64)
    ensures
        r == entry_file_count_spec(entries@),
{
    let mut c: u64 = 0;
    let mut i: usize = 0;
    while i < entries.len()
        invariant
            i <= entries@.len(),
            c == entry_file_count_spec(entries@.take(i as int)),
            c <= i,
        decreases entries@.len() - i,
    {
        assert(entries@.take(i + 1).drop_last() == entries@.take(i as int));
        if entries[i].meta.kind != Kind::Dir {
            c = c + 1;
        }
        i = i + 1;
    }
    assert(entries@.take(entries@.len() as int) == entries@);
    c
}

/// How many of some records are not directories.
pub open spec fn non_dir_count_spec(metas: Seq<FileMeta>) -> nat
    decreases metas.len(),
{
    if metas.len() == 0 {
        0
    } else {
        non_dir_count_spec(metas.drop_last()) + if metas.last().kind == Kind::Dir { 0nat } else { 1nat }
    }
}

/// The number of files and links a manifest records (directories are not
/// counted), as the set listing shows it.
pub fn manifest_file_count(files: &FileMap) -> (r: usize)
    requires
        files.wf(),
    ensures
        r == non_dir_count_spec(files.value_seq()),
{
    let n = files.len();
    proof {
        files.lemma_view();
    }
    let mut c: usize = 0;
    let mut i: usize = 0;
    while i < n
        invariant
            files.wf(),
            n == files.key_seq().len(),
            n == files.value_seq().len(),
            i <= n,
            c == non_dir_count_spec(files.value_seq().take(i as int)),
            c <= i,
        decreases n - i,
    {
        assert(files.value_seq().take(i + 1).drop_last() == files.value_seq().take(i as int));
        if files.value_at(i).kind != Kind::Dir {
            c = c + 1;
        }
        i = i + 1;
    }
    assert(files.value_seq().take(n as int) == files.value_seq());
    c
}

/// Total size of the regular files among some entries.
pub open spec fn file_bytes_spec(entries: Seq<Entry>) -> int
    decreases entries.len(),
{
    if entries.len() == 0 {
        0
    } else {
        file_bytes_spec(entries.drop_last()) + if entries.last().meta.kind == Kind::File {
            entries.last().meta.size as int
        } else {
            0
        }
    }
}

proof fn lemma_file_bytes_monotone(entries: Seq<Entry>, i: int)
    requires
        0 <= i <= entries.len(),
    ensures
        0 <= file_bytes_spec(entries.take(i)) <= file_bytes_spec(entries),
    decreases entries.len(),
{
    if entries.len() > 0 {
        if i == entries.len() {
            assert(entries.take(i) == entries);
            lemma_file_bytes_monotone(entries.drop_last(), entries.len() - 1);
            assert(entries.drop_last().take(entries.len() - 1) == entries.drop_last());
        } else {
            lemma_file_bytes_monotone(entries.drop_last(), i);
            assert(entries.drop_last().take(i) == entries.take(i));
        }
    }
}

/// Total size, in bytes, of the regular files among the entries.
pub fn file_bytes(entries: &[Entry]) -> (r: u64)
    requires
        file_bytes_spec(entries@) <= u64::MAX,
    ensures
        r == file_bytes_spec(entries@),
{
    let mut total: u64 = 0;
    let mut i: usize = 0;
    while i < entries.len()
        invariant
            i <= entries@.len(),
            file_bytes_spec(entries@) <= u64::MAX,
            total == file_bytes_spec(entries@.take(i as int)),
        decreases entries@.len() - i,
    {
        proof {
            assert(entries@.take(i + 1).drop_last() == entries@.take(i as int));
            lemma_file_bytes_monotone(entries@, i + 1);
        }
        if entries[i].meta.kind == Kind::File {
            total = total + entries[i].meta.size;
        }
        i = i + 1;
    }
    assert(entries@.take(entries@.len() as int) == entries@);
    total
}

/// Safety checks before an evacuation: unless allowed, no source may be on the
/// destination's device (`same_device[i]` for source `i`, when known); and the
/// destination must have room for `need` bytes when its free space is known.
pub fn evacuate_preflight(sources: &[String], same_device: &[Option<bool>], allow_same_device: bool, free: Option<u64>, need: u64) -> (r: Result<(), BackupError>)
    requires
        sources@.len() == same_device@.len(),
    ensures
        r is Ok <==> ((allow_same_device || forall|i: int| 0 <= i < sources@.len() ==> #[trigger] same_device@[i] != Some(true))
            && (free matches Some(f) ==> f >= need)),
        r matches Err(BackupError::SameDevice(s)) ==> !allow_same_device && exists|i: int| 0 <= i < sources@.len()
            && #[trigger] same_device@[i] == Some(true) && sources@[i]@ == s@,
        r matches Err(BackupError::NotEnoughSpace { need: n, have: h }) ==> n == need && free == Some(h) && h < need,
        r matches Err(e) ==> (e matches BackupError::SameDevice(_) || e matches BackupError::NotEnoughSpace { .. }),
{
    if !allow_same_device {
        let mut i: usize = 0;
        while i < sources.len()
            invariant
                !allow_same_device,
                i <= sources@.len(),
                sources@.len() == same_device@.len(),
                forall|j: int| 0 <= j < i ==> #[trigger] same_device@[j] != Some(true),
            decreases sources@.len() - i,
        {
            let d: Option<bool> = same_device[i];
            match d {
                Some(b) => {
                    if b {
                        assert(same_device@[i as int] == Some(true));
                        let s = sources[i].clone();
                        assert(s@ == sources@[i as int]@);
                        return Err(BackupError::SameDevice(s));
                    }
                },
                None => {},
            }
            i = i + 1;
        }
    }
    if let Some(f) = free {
        if f < need {
            return Err(BackupError::NotEnoughSpace { need, have: f });
        }
    }
    Ok(())
}

/// The copy phase of an evacuation passes only without errors.
pub fn copy_phase_gate(errors: u64) -> (r: Result<(), BackupError>)
    ensures
        errors == 0 ==> r is Ok,
        errors > 0 ==> (r matches Err(BackupError::CopyErrors(n)) && n == errors),
{
    if errors > 0 { Err(BackupError::CopyErrors(errors)) } else { Ok(()) }
}

/// The verify phase of an evacuation passes only without failures.
pub fn verify_phase_gate(errors: u64) -> (r: Result<(), BackupError>)
    ensures
        errors == 0 ==> r is Ok,
        errors > 0 ==> (r matches Err(BackupError::VerifyErrors(n)) && n == errors),
{
    if errors > 0 { Err(BackupError::VerifyErrors(errors)) } else { Ok(()) }
}

/// Where an evacuation stands.
#[derive(Clone, Copy, PartialEq, Eq, Structural, Debug)]
pub enum EvacStage {
    /// Nothing copied yet.
    Start,
    /// Every file was copied without an error.
    Copied,
    /// Every copy was read back and matched the manifest.
    Verified,
    /// Over: stopped, failed, or the sources were deleted.
    Finished,
}

/// What an evacuation does next.
#[derive(Clone, Copy, PartialEq, Eq, Structural, Debug)]
pub enum EvacStep {
    Copy,
    Verify,
    Delete,
    Stop,
}

/// The course of one evacuation: copy, then verify, and only after a copy
/// and a verification without a single error, delete the sources (when that
/// was asked for). A dry run stops before copying.
pub struct Evacuation {
    stage: EvacStage,
    delete_source: bool,
    dry_run: bool,
    copy_errors: Option<u64>,
    verify_errors: Option<u64>,
}

impl Evacuation {
    pub closed spec fn stage(&self) -> EvacStage {
        self.stage
    }

    pub closed spec fn delete_source(&self) -> bool {
        self.delete_source
    }

    pub closed spec fn dry_run(&self) -> bool {
        self.dry_run
    }

    /// The errors the copy phase reported, once it ran.
    pub closed spec fn copy_errors(&self) -> Option<u64> {
        self.copy_errors
    }

    /// The failures the verify phase reported, once it ran.
    pub closed spec fn verify_errors(&self) -> Option<u64> {
        self.verify_errors
    }

    /// Each stage holds only after the phases before it succeeded.
    pub closed spec fn wf(&self) -> bool {
        match self.stage {
            EvacStage::Start => self.copy_errors is None && self.verify_errors is None,
            EvacStage::Copied => self.copy_errors == Some(0u64) && self.verify_errors is None && !self.dry_run,
            EvacStage::Verified => self.copy_errors == Some(0u64) && self.verify_errors == Some(0u64) && !self.dry_run,
            EvacStage::Finished => true,
        }
    }

    /// An evacuation that has not started.
    pub fn new(delete_source: bool, dry_run: bool) -> (e: Evacuation)
        ensures
            e.wf(),
            e.stage() == EvacStage::Start,
            e.delete_source() == delete_source,
            e.dry_run() == dry_run,
            e.copy_errors() is None,
            e.verify_errors() is None,
    {
        Evacuation { stage: EvacStage::Start, delete_source, dry_run, copy_errors: None, verify_errors: None }
    }

    /// The next step: copy (unless it is a dry run), then verify, then
    /// delete the sources when asked to, else stop. The sources are deleted
    /// only after a copy and a verification without errors, outside a dry run.
    pub fn next(&self) -> (r: EvacStep)
        requires
            self.wf(),
        ensures
            r == match self.stage() {
                EvacStage::Start => if self.dry_run() { EvacStep::Stop } else { EvacStep::Copy },
                EvacStage::Copied => EvacStep::Verify,
                EvacStage::Verified => if self.delete_source() { EvacStep::Delete } else { EvacStep::Stop },
                EvacStage::Finished => EvacStep::Stop,
            },
            r == EvacStep::Delete ==> self.copy_errors() == Some(0u64) && self.verify_errors() == Some(0u64)
                && self.delete_source() && !self.dry_run(),
    {
        match self.stage {
            EvacStage::Start => if self.dry_run { EvacStep::Stop } else { EvacStep::Copy },
            EvacStage::Copied => EvacStep::Verify,
            EvacStage::Verified => if self.delete_source { EvacStep::Delete } else { EvacStep::Stop },
            EvacStage::Finished => EvacStep::Stop,
        }
    }

    /// Records the errors of the copy phase: with none the copies are
    /// verified next; with any the evacuation is over and deletes nothing.
    pub fn copied(&mut self, errors: u64) -> (r: Result<(), BackupError>)
        requires
            old(self).wf(),
            old(self).stage() == EvacStage::Start,
            !old(self).dry_run(),
        ensures
            final(self).wf(),
            final(self).copy_errors() == Some(errors),
            final(self).verify_errors() is None,
            final(self).delete_source() == old(self).delete_source(),
            final(self).dry_run() == old(self).dry_run(),
            errors == 0 ==> r is Ok && final(self).stage() == EvacStage::Copied,
            errors > 0 ==> (r matches Err(BackupError::CopyErrors(n)) && n == errors)
                && final(self).stage() == EvacStage::Finished,
    {
        self.copy_errors = Some(errors);
        let r = copy_phase_gate(errors);
        if errors == 0 {
            self.stage = EvacStage::Copied;
        } else {
            self.stage = EvacStage::Finished;
        }
        r
    }

    /// Records the failures of the verify phase: with none the sources may
    /// be deleted next; with any the evacuation is over and deletes nothing.
    pub fn verified(&mut self, errors: u64) -> (r: Result<(), BackupError>)
        requires
            old(self).wf(),
            old(self).stage() == EvacStage::Copied,
        ensures
            final(self).wf(),
            final(self).copy_errors() == old(self).copy_errors(),
            final(self).verify_errors() == Some(errors),
            final(self).delete_source() == old(self).delete_source(),
            final(self).dry_run() == old(self).dry_run(),
            errors == 0 ==> r is Ok && final(self).stage() == EvacStage::Verified,
            errors > 0 ==> (r matches Err(BackupError::VerifyErrors(n)) && n == errors)
                && final(self).stage() == EvacStage::Finished,
    {
        self.verify_errors = Some(errors);
        let r = verify_phase_gate(errors);
        if errors == 0 {
            self.stage = EvacStage::Verified;
        } else {
            self.stage = EvacStage::Finished;
        }
        r
    }

    /// Ends the evacuation (after the deletion, or to stop early).
    pub fn finish(&mut self)
        ensures
            final(self).wf(),
            final(self).stage() == EvacStage::Finished,
            final(self).copy_errors() == old(self).copy_errors(),
            final(self).verify_errors() == old(self).verify_errors(),
    {
        self.stage = EvacStage::Finished;
    }
}

/// The indices of the entries an evacuation may delete: the files and links
/// recorded in the manifest that was written and verified, in scan order
/// (directories are left in place).
pub fn deletable_entries(entries: &[Entry], confirmed: &FileMap) -> (r: Vec<usize>)
    requires
        confirmed.wf(),
    ensures
        r@ == Seq::new(entries@.len(), |i: int| i as usize).filter(|i: usize| confirmed.view().contains_key(entries@[i as int].rel@) && entries@[i as int].meta.kind != Kind::Dir),
        forall|k: int| 0 <= k < r@.len() ==> #[trigger] r@[k] < entries@.len()
            && confirmed.view().contains_key(entries@[r@[k] as int].rel@) && entries@[r@[k] as int].meta.kind != Kind::Dir,
{
    let ghost idx = Seq::new(entries@.len(), |i: int| i as usize);
    let ghost pred = |i: usize| confirmed.view().contains_key(entries@[i as int].rel@) && entries@[i as int].meta.kind != Kind::Dir;
    let mut r: Vec<usize> = Vec::new();
    let mut i: usize = 0;
    while i < entries.len()
        invariant
            confirmed.wf(),
            i <= entries@.len(),
            idx == Seq::new(entries@.len(), |i: int| i as usize),
            pred == (|i: usize| confirmed.view().contains_key(entries@[i as int].rel@) && entries@[i as int].meta.kind != Kind::Dir),
            r@ == idx.take(i as int).filter(pred),
            forall|k: int| 0 <= k < r@.len() ==> #[trigger] r@[k] < i && pred(r@[k]),
        decreases entries@.len() - i,
    {
        proof {
            reveal_with_fuel(Seq::filter, 1);
            assert(idx.take(i + 1).drop_last() == idx.take(i as int));
            assert(idx.take(i + 1).last() == i as usize);
        }
        if entries[i].meta.kind != Kind::Dir && confirmed.contains_key(entries[i].rel.as_str()) {
            r.push(i);
        }
        i = i + 1;
    }
    assert(idx.take(entries@.len() as int) == idx);
    r
}

} // verus!

verus! {

/// What secure wiping found about one partition.
pub struct Partition {
    /// The partition (device, or the path's volume when unknown).
    pub label: String,
    /// The storage kind detected for the partition's first file.
    pub kind: StorageKind,
    /// Number of files wiped on it.
    pub files: u64,
    /// The first file seen on it, used to address an SSD partition.
    pub first_path: String,
}

/// The partitions secure wiping went through, in the order first seen.
pub struct PartitionTally {
    parts: Vec<Partition>,
}

/// Whether a partition with this label is in the list.
pub open spec fn has_label(parts: Seq<Partition>, label: Seq<char>) -> bool {
    exists|i: int| 0 <= i < parts.len() && #[trigger] parts[i].label@ == label
}

impl PartitionTally {
    /// The partitions, in the order first seen.
    pub closed spec fn view(&self) -> Seq<Partition> {
        self.parts@
    }

    /// Each label occurs once.
    pub closed spec fn wf(&self) -> bool {
        forall|i: int, j: int| 0 <= i < j < self.parts@.len() ==> #[trigger] self.parts@[i].label@ != #[trigger] self.parts@[j].label@
    }

    /// No partitions yet.
    pub fn new() -> (t: PartitionTally)
        ensures
            t.wf(),
            t.view().len() == 0,
    {
        PartitionTally { parts: Vec::new() }
    }

    /// The partitions, in the order first seen.
    pub fn parts(&self) -> (r: &Vec<Partition>)
        ensures
            r@ == self.view(),
    {
        &self.parts
    }

    /// Counts one file on a partition; a partition seen for the first time
    /// keeps this kind and path.
    pub fn record(&mut self, label: &str, kind: StorageKind, path: &str)
        requires
            old(self).wf(),
        ensures
            final(self).wf(),
            has_label(old(self).view(), label@) ==> {
                let i = choose|i: int| 0 <= i < old(self).view().len() && #[trigger] old(self).view()[i].label@ == label@;
                &&& final(self).view().len() == old(self).view().len()
                &&& forall|j: int| 0 <= j < final(self).view().len() && j != i ==> #[trigger] final(self).view()[j] == old(self).view()[j]
                &&& final(self).view()[i].label == old(self).view()[i].label
                &&& final(self).view()[i].kind == old(self).view()[i].kind
                &&& final(self).view()[i].first_path == old(self).view()[i].first_path
                &&& final(self).view()[i].files == if old(self).view()[i].files < u64::MAX { old(self).view()[i].files + 1 } else { old(self).view()[i].files as int }
            },
            !has_label(old(self).view(), label@) ==> {
                &&& final(self).view().len() == old(self).view().len() + 1
                &&& final(self).view().take(old(self).view().len() as int) == old(self).view()
                &&& final(self).view().last().label@ == label@
                &&& final(self).view().last().kind == kind
                &&& final(self).view().last().files == 1
                &&& final(self).view().last().first_path@ == path@
            },
    {
        let mut i: usize = 0;
        while i < self.parts.len()
            invariant
                self.parts@ == old(self).parts@,
                old(self).wf(),
                i <= self.parts@.len(),
                forall|j: int| 0 <= j < i ==> #[trigger] self.parts@[j].label@ != label@,
            decreases self.parts@.len() - i,
        {
            if str_eq(self.parts[i].label.as_str(), label) {
                proof {
                    assert forall|j: int| 0 <= j < old(self).parts@.len() && #[trigger] old(self).parts@[j].label@ == label@ implies j == i by {
                        if j != i {
                            if j < i {
                                assert(old(self).parts@[j].label@ != old(self).parts@[i as int].label@);
                            } else {
                                assert(old(self).parts@[i as int].label@ != old(self).parts@[j].label@);
                            }
                        }
                    }
                }
                let old_part = self.parts.remove(i);
                let files = if old_part.files < u64::MAX { old_part.files + 1 } else { old_part.files };
                let updated = Partition { label: old_part.label, kind: old_part.kind, files, first_path: old_part.first_path };
                self.parts.insert(i, updated);
                proof {
                    assert forall|a: int, b: int| 0 <= a < b < self.parts@.len() implies #[trigger] self.parts@[a].label@ != #[trigger] self.parts@[b].label@ by {
                        assert(old(self).parts@[a].label@ != old(self).parts@[b].label@);
                    }
                }
                return;
            }
            i = i + 1;
        }
        self.parts.push(Partition { label: label.to_owned(), kind, files: 1, first_path: path.to_owned() });
        proof {
            assert forall|a: int, b: int| 0 <= a < b < self.parts@.len() implies #[trigger] self.parts@[a].label@ != #[trigger] self.parts@[b].label@ by {
                if b < old(self).parts@.len() {
                    assert(old(self).parts@[a].label@ != old(self).parts@[b].label@);
                }
            }
            assert(self.parts@.take(old(self).parts@.len() as int) =~= old(self).parts@);
        }
    }
}

} // verus!

verus! {

/// Whether all partitions have the same storage kind.
pub open spec fn same_kind(parts: Seq<Partition>) -> bool {
    forall|i: int| 0 <= i < parts.len() ==> #[trigger] parts[i].kind == parts[0].kind
}

/// Whether some partition has this storage kind.
pub open spec fn some_kind(parts: Seq<Partition>, k: StorageKind) -> bool {
    exists|i: int| 0 <= i < parts.len() && #[trigger] parts[i].kind == k
}

/// The storage kind whose secure-erase advice applies to a set of partitions:
/// an HDD only when every partition is one; otherwise SSD when any is one,
/// else unknown.
pub open spec fn advice_kind_spec(parts: Seq<Partition>) -> StorageKind {
    if forall|i: int| 0 <= i < parts.len() ==> #[trigger] parts[i].kind == StorageKind::Hdd {
        StorageKind::Hdd
    } else if some_kind(parts, StorageKind::Ssd) {
        StorageKind::Ssd
    } else {
        StorageKind::Unknown
    }
}

/// The first partition with this label.
pub open spec fn part_with_label(parts: Seq<Partition>, label: Seq<char>) -> Partition
    decreases parts.len(),
{
    if parts.len() == 0 {
        parts[0]
    } else if parts[0].label@ == label {
        parts[0]
    } else {
        part_with_label(parts.drop_first(), label)
    }
}

/// The report line of a partition: `  <label>  [<kind>]  <files> file(s)`.
pub open spec fn partition_line(p: Partition) -> Seq<char> {
    "  "@ + p.label@ + "  ["@ + storage_kind_name(p.kind) + "]  "@ + decimal_text(p.files as nat) + " file(s)"@
}

impl PartitionTally {
    /// The storage kind reported for the evacuated source: the common kind of
    /// all partitions, `"mixed"` when they differ, nothing when none was seen.
    pub fn storage_label(&self) -> (r: Option<String>)
        ensures
            self.view().len() == 0 ==> r is None,
            self.view().len() > 0 && same_kind(self.view()) ==> (r matches Some(s) && s@ == storage_kind_name(self.view()[0].kind)),
            self.view().len() > 0 && !same_kind(self.view()) ==> (r matches Some(s) && s@ == "mixed"@),
    {
        if self.parts.len() == 0 {
            return None;
        }
        let first = self.parts[0].kind;
        let mut i: usize = 1;
        while i < self.parts.len()
            invariant
                1 <= i <= self.parts@.len(),
                first == self.parts@[0].kind,
                forall|j: int| 0 <= j < i ==> #[trigger] self.parts@[j].kind == first,
            decreases self.parts@.len() - i,
        {
            if self.parts[i].kind != first {
                return Some("mixed".to_owned());
            }
            i = i + 1;
        }
        Some(first.as_str().to_owned())
    }

    /// The storage kind whose secure-erase advice applies (see `advice_kind_spec`).
    pub fn advice_kind(&self) -> (r: StorageKind)
        ensures
            r == advice_kind_spec(self.view()),
    {
        let mut all_hdd = true;
        let mut any_ssd = false;
        let mut i: usize = 0;
        while i < self.parts.len()
            invariant
                i <= self.parts@.len(),
                all_hdd == forall|j: int| 0 <= j < i ==> #[trigger] self.parts@[j].kind == StorageKind::Hdd,
                any_ssd == exists|j: int| 0 <= j < i && #[trigger] self.parts@[j].kind == StorageKind::Ssd,
            decreases self.parts@.len() - i,
        {
            if self.parts[i].kind != StorageKind::Hdd {
                all_hdd = false;
            }
            if self.parts[i].kind == StorageKind::Ssd {
                any_ssd = true;
            }
            i = i + 1;
        }
        if all_hdd {
            StorageKind::Hdd
        } else if any_ssd {
            StorageKind::Ssd
        } else {
            StorageKind::Unknown
        }
    }

    /// The report line of each partition, in the key order of the labels
    /// (see `partition_line`).
    pub fn report_lines(&self) -> (r: Vec<String>)
        requires
            self.wf(),
        ensures
            exists|ls: Seq<String>, c: Seq<String>| {
                &&& ls.len() == self.view().len()
                &&& forall|i: int| 0 <= i < ls.len() ==> (#[trigger] ls[i])@ == self.view()[i].label@
                &&& crate::order::texts_sorted(c)
                &&& c.to_multiset() == ls.to_multiset()
                &&& texts_of(r@) == c.map_values(|l: String| partition_line(part_with_label(self.view(), l@)))
            },
    {
        broadcast use vstd::seq_lib::group_to_multiset_ensures;
        let mut labels: Vec<String> = Vec::new();
        let mut i: usize = 0;
        while i < self.parts.len()
            invariant
                i <= self.parts@.len(),
                labels@.len() == i,
                forall|j: int| 0 <= j < i ==> (#[trigger] labels@[j])@ == self.parts@[j].label@,
            decreases self.parts@.len() - i,
        {
            labels.push(self.parts[i].label.clone());
            i = i + 1;
        }
        let ghost ls = labels@;
        let c = crate::order::sort_texts(labels);
        let mut r: Vec<String> = Vec::new();
        let mut k: usize = 0;
        while k < c.len()
            invariant
                self.wf(),
                k <= c@.len(),
                r@.len() == k,
                c@.to_multiset() == ls.to_multiset(),
                ls.len() == self.parts@.len(),
                forall|j: int| 0 <= j < ls.len() ==> (#[trigger] ls[j])@ == self.parts@[j].label@,
                forall|j: int| 0 <= j < k ==> #[trigger] r@[j]@ == partition_line(part_with_label(self.parts@, c@[j]@)),
            decreases c@.len() - k,
        {
            proof {
                assert(c@.contains(c@[k as int]));
                vstd::seq_lib::to_multiset_contains(c@, c@[k as int]);
                vstd::seq_lib::to_multiset_contains(ls, c@[k as int]);
                assert(ls.contains(c@[k as int]));
                let j = choose|j: int| 0 <= j < ls.len() && ls[j] == c@[k as int];
                assert(self.parts@[j].label@ == c@[k as int]@);
            }
            let line = self.line_of(c[k].as_str());
            r.push(line);
            k = k + 1;
        }
        proof {
            assert(texts_of(r@) =~= c@.map_values(|l: String| partition_line(part_with_label(self.view(), l@))));
        }
        r
    }

    /// The report line of the partition labelled `label`.
    fn line_of(&self, label: &str) -> (r: String)
        requires
            self.wf(),
            has_label(self.view(), label@),
        ensures
            r@ == partition_line(part_with_label(self.view(), label@)),
    {
        let ghost parts = self.parts@;
        let mut i: usize = 0;
        proof {
            assert(parts.skip(0) =~= parts);
        }
        while i < self.parts.len()
            invariant
                i <= parts.len(),
                parts == self.parts@,
                has_label(parts.skip(i as int), label@),
                part_with_label(parts, label@) == part_with_label(parts.skip(i as int), label@),
            decreases parts.len() - i,
        {
            assert(parts.skip(i as int)[0] == parts[i as int]);
            if str_eq(self.parts[i].label.as_str(), label) {
                let p = &self.parts[i];
                let mut line = crate::text::concat3("  ", p.label.as_str(), "  [");
                line.append(p.kind.as_str());
                line.append("]  ");
                line.append(crate::text::decimal(p.files).as_str());
                line.append(" file(s)");
                return line;
            }
            proof {
                assert(parts.skip(i as int).drop_first() =~= parts.skip(i + 1));
                let j = choose|j: int| 0 <= j < parts.skip(i as int).len() && #[trigger] parts.skip(i as int)[j].label@ == label@;
                assert(j != 0);
                assert(parts.skip(i + 1)[j - 1].label@ == label@);
            }
            i = i + 1;
        }
        proof {
            let j = choose|j: int| 0 <= j < parts.skip(i as int).len() && #[trigger] parts.skip(i as int)[j].label@ == label@;
        }
        String::new()
    }

    /// One file of each SSD partition, for wiping its free space.
    pub fn ssd_representatives(&self) -> (r: Vec<String>)
        ensures
            texts_of(r@) == self.view().filter(|p: Partition| p.kind == StorageKind::Ssd).map_values(|p: Partition| p.first_path@),
    {
        let mut r: Vec<String> = Vec::new();
        let mut i: usize = 0;
        while i < self.parts.len()
            invariant
                i <= self.parts@.len(),
                texts_of(r@) == self.parts@.take(i as int).filter(|p: Partition| p.kind == StorageKind::Ssd).map_values(|p: Partition| p.first_path@),
            decreases self.parts@.len() - i,
        {
            proof {
                reveal_with_fuel(Seq::filter, 1);
                assert(self.parts@.take(i + 1).drop_last() == self.parts@.take(i as int));
            }
            if self.parts[i].kind == StorageKind::Ssd {
                let ghost f_old = self.parts@.take(i as int).filter(|p: Partition| p.kind == StorageKind::Ssd);
                let ghost r_old = r@;
                r.push(self.parts[i].first_path.clone());
                assert(self.parts@.take(i + 1).filter(|p: Partition| p.kind == StorageKind::Ssd) == f_old.push(self.parts@[i as int]));
                assert(f_old.push(self.parts@[i as int]).map_values(|p: Partition| p.first_path@)
                    =~= f_old.map_values(|p: Partition| p.first_path@).push(self.parts@[i as int].first_path@));
                assert(texts_of(r@) =~= texts_of(r_old).push(self.parts@[i as int].first_path@));
            }
            i = i + 1;
        }
        assert(self.parts@.take(self.parts@.len() as int) == self.parts@);
        r
    }
}

} // verus!

verus! {

/// The texts of a list of string pairs.
pub open spec fn pair_texts(v: Seq<(String, String)>) -> Seq<(Seq<char>, Seq<char>)> {
    v.map_values(|e: (String, String)| (e.0@, e.1@))
}

/// The relative path recorded for a file read from a shadow copy: the first
/// `(shadow prefix, original prefix)` pair whose shadow prefix starts the
/// path maps it back under the original prefix.
pub open spec fn vss_rel_spec(path: Seq<char>, map: Seq<(Seq<char>, Seq<char>)>) -> Option<Seq<char>>
    decreases map.len(),
{
    if map.len() == 0 {
        None
    } else if crate::text::starts_with_spec(path, map[0].0) {
        Some(to_rel_spec(map[0].1 + path.skip(map[0].0.len() as int)))
    } else {
        vss_rel_spec(path, map.drop_first())
    }
}

/// Records a file read from a volume shadow copy under its original path.
pub fn vss_remap(e: &mut Entry, map: &[(String, String)])
    ensures
        final(e).abspath == old(e).abspath,
        final(e).meta == old(e).meta,
        final(e).rel@ == match vss_rel_spec(old(e).abspath@, pair_texts(map@)) {
            Some(r) => r,
            None => old(e).rel@,
        },
{
    let ghost m = pair_texts(map@);
    let mut i: usize = 0;
    assert(m.skip(0) == m);
    while i < map.len()
        invariant
            i <= map@.len(),
            m == pair_texts(map@),
            e.abspath == old(e).abspath,
            e.meta == old(e).meta,
            e.rel == old(e).rel,
            vss_rel_spec(e.abspath@, m) == vss_rel_spec(e.abspath@, m.skip(i as int)),
        decreases map@.len() - i,
    {
        let shadow = &map[i].0;
        let orig = &map[i].1;
        assert(m.skip(i as int)[0] == (shadow@, orig@));
        if crate::text::starts_with_str(e.abspath.as_str(), shadow.as_str()) {
            let c = chars_of(e.abspath.as_str());
            let n = chars_of(shadow.as_str()).len();
            let mut rest: Vec<char> = Vec::new();
            let mut k: usize = n;
            while k < c.len()
                invariant
                    n <= k <= c@.len(),
                    rest@ == c@.subrange(n as int, k as int),
                decreases c@.len() - k,
            {
                rest.push(c[k]);
                assert(c@.subrange(n as int, k + 1) == c@.subrange(n as int, k as int).push(c@[k as int]));
                k = k + 1;
            }
            assert(rest@ == e.abspath@.skip(n as int));
            let rest_s = string_of(rest.as_slice());
            let joined = crate::text::concat2(orig.as_str(), rest_s.as_str());
            e.rel = to_rel(joined.as_str());
            return;
        }
        assert(m.skip(i as int).drop_first() == m.skip(i + 1));
        i = i + 1;
    }
}

/// A suggested destination: a dated, per-user folder on a volume, e.g.
/// `/Volumes/Stick/backuptool-20260613-alice`.
pub fn suggested_dest_in(p: Platform, volume: &str, date: &str, user: &str) -> (r: String)
    ensures
        r@ == crate::platform::path_join_spec(p, volume@, "backuptool-"@ + date@ + "-"@ + user@),
{
    let mut name = "backuptool-".to_owned();
    name.append(date);
    name.append("-");
    name.append(user);
    crate::platform::path_join(p, volume, name.as_str())
}

} // verus!

verus! {

/// One backup set found at a destination.
pub struct SetSummary {
    pub set: String,
    pub host: String,
    pub created: String,
    pub files: usize,
}

/// The order of set summaries: by set name, then host, then creation time,
/// then number of files.
pub open spec fn summary_lt(a: SetSummary, b: SetSummary) -> bool {
    ||| key_lt(a.set@, b.set@)
    ||| (a.set@ == b.set@ && key_lt(a.host@, b.host@))
    ||| (a.set@ == b.set@ && a.host@ == b.host@ && key_lt(a.created@, b.created@))
    ||| (a.set@ == b.set@ && a.host@ == b.host@ && a.created@ == b.created@ && a.files < b.files)
}

proof fn lemma_summary_order(a: SetSummary, b: SetSummary, c: SetSummary)
    ensures
        summary_lt(a, b) ==> !summary_lt(b, a),
        summary_lt(a, b) && summary_lt(b, c) ==> summary_lt(a, c),
{
    crate::order::lemma_key_order(a.set@, b.set@, c.set@);
    crate::order::lemma_key_order(a.host@, b.host@, c.host@);
    crate::order::lemma_key_order(a.created@, b.created@, c.created@);
    crate::order::lemma_key_order(b.set@, a.set@, c.set@);
    crate::order::lemma_key_order(b.host@, a.host@, c.host@);
    crate::order::lemma_key_order(b.created@, a.created@, c.created@);
}

/// Whether summaries are in order.
pub open spec fn summaries_sorted(s: Seq<SetSummary>) -> bool {
    forall|i: int, j: int| 0 <= i < j < s.len() ==> !summary_lt(#[trigger] s[j], #[trigger] s[i])
}

fn summary_less(a: &SetSummary, b: &SetSummary) -> (r: bool)
    ensures
        r == summary_lt(*a, *b),
{
    let c = compare_keys(a.set.as_str(), b.set.as_str());
    if c != 0 {
        return c < 0;
    }
    let c = compare_keys(a.host.as_str(), b.host.as_str());
    if c != 0 {
        return c < 0;
    }
    let c = compare_keys(a.created.as_str(), b.created.as_str());
    if c != 0 {
        return c < 0;
    }
    a.files < b.files
}

/// The backup sets found at a destination, in order (by set, host, creation
/// time, number of files).
pub fn sort_set_summaries(v: Vec<SetSummary>) -> (r: Vec<SetSummary>)
    ensures
        summaries_sorted(r@),
        r@.to_multiset() == v@.to_multiset(),
{
    broadcast use vstd::seq_lib::to_multiset_insert;
    broadcast use vstd::seq_lib::group_to_multiset_ensures;
    broadcast use vstd::multiset::group_multiset_axioms;
    broadcast use vstd::multiset::group_multiset_properties;
    let mut r: Vec<SetSummary> = Vec::new();
    let mut src = v;
    let ghost orig = src@;
    proof {
        vstd::multiset::lemma_multiset_empty_len(r@.to_multiset());
        assert(r@.to_multiset() =~= vstd::multiset::Multiset::<SetSummary>::empty());
        assert(r@.to_multiset().add(src@.to_multiset()) =~= orig.to_multiset());
    }
    while src.len() > 0
        invariant
            summaries_sorted(r@),
            r@.to_multiset().add(src@.to_multiset()) == orig.to_multiset(),
        decreases src@.len(),
    {
        let ghost before_src = src@;
        let x = src.pop().unwrap();
        proof {
            assert(before_src == src@.push(x));
            vstd::seq_lib::to_multiset_build(src@, x);
        }
        let ghost r_before = r@;
        let mut p: usize = 0;
        while p < r.len() && !summary_less(&x, &r[p])
            invariant
                p <= r@.len(),
                forall|k: int| 0 <= k < p ==> !summary_lt(x, #[trigger] r@[k]),
            decreases r@.len() - p,
        {
            p = p + 1;
        }
        let ghost before = r@;
        r.insert(p, x);
        proof {
            assert(r@ == before.insert(p as int, x));
            vstd::seq_lib::to_multiset_insert(before, p as int, x);
            assert(r@.to_multiset().add(src@.to_multiset()) =~= orig.to_multiset());
            assert forall|i: int, j: int| 0 <= i < j < r@.len() implies !summary_lt(#[trigger] r@[j], #[trigger] r@[i]) by {
                if i < p && j < p {
                    assert(!summary_lt(before[j], before[i]));
                } else if i < p && j == p {
                } else if i < p && j > p {
                    assert(!summary_lt(before[j - 1], before[i]));
                } else if i == p {
                    // r[j] = before[j-1]; x < before[p] <= before[j-1]
                    let y = before[j - 1];
                    if summary_lt(y, x) {
                        lemma_summary_order(y, x, before[p as int]);
                        if j - 1 == p {
                            lemma_summary_order(x, y, y);
                        } else {
                            assert(!summary_lt(before[j - 1], before[p as int]));
                        }
                    }
                } else {
                    assert(!summary_lt(before[j - 1], before[i - 1]));
                }
            }
        }
    }
    proof {
        assert(src@.len() == 0);
        vstd::multiset::lemma_multiset_empty_len(src@.to_multiset());
        assert(r@.to_multiset() =~= r@.to_multiset().add(src@.to_multiset()));
    }
    r
}

} // verus!

verus! {

// ------------------------------------------------------------- run log

/// The folder of a set that holds the per-run logs.
pub const LOG_DIR: &'static str = ".backuptool-logs";

/// The time stamp of a run log's name: the creation time without `:` and
/// `-`, with `T` turned into `-` (`2026-06-13T10:20:30` → `20260613-102030`).
pub open spec fn log_stamp_spec(created: Seq<char>) -> Seq<char>
    decreases created.len(),
{
    if created.len() == 0 {
        Seq::empty()
    } else {
        let prev = log_stamp_spec(created.drop_last());
        let c = created.last();
        if c == ':' || c == '-' {
            prev
        } else if c == 'T' {
            prev.push('-')
        } else {
            prev.push(c)
        }
    }
}

fn log_stamp(created: &str) -> (r: String)
    ensures
        r@ == log_stamp_spec(created@),
{
    let c = chars_of(created);
    let mut out: Vec<char> = Vec::new();
    let mut i: usize = 0;
    while i < c.len()
        invariant
            i <= c@.len(),
            c@ == created@,
            out@ == log_stamp_spec(c@.take(i as int)),
        decreases c@.len() - i,
    {
        assert(c@.take(i + 1).drop_last() =~= c@.take(i as int));
        let ch = c[i];
        if ch == ':' || ch == '-' {
        } else if ch == 'T' {
            out.push('-');
        } else {
            out.push(ch);
        }
        i = i + 1;
    }
    assert(c@.take(c@.len() as int) =~= c@);
    string_of(out.as_slice())
}

/// One line per path, each `tag` + path + a line break.
pub open spec fn tagged_lines(tag: Seq<char>, paths: Seq<String>) -> Seq<char>
    decreases paths.len(),
{
    if paths.len() == 0 {
        Seq::empty()
    } else {
        tagged_lines(tag, paths.drop_last()) + tag + paths.last()@ + "\n"@
    }
}

fn push_tagged(out: &mut String, tag: &str, paths: &Vec<String>)
    ensures
        final(out)@ == old(out)@ + tagged_lines(tag@, paths@),
{
    let mut i: usize = 0;
    while i < paths.len()
        invariant
            i <= paths@.len(),
            out@ == old(out)@ + tagged_lines(tag@, paths@.take(i as int)),
        decreases paths@.len() - i,
    {
        assert(paths@.take(i + 1).drop_last() =~= paths@.take(i as int));
        out.append(tag);
        out.append(paths[i].as_str());
        out.append("\n");
        i = i + 1;
    }
    assert(paths@.take(paths@.len() as int) =~= paths@);
}

/// The two header lines of a run log.
pub open spec fn run_log_head(set: Seq<char>, host: Seq<char>, created: Seq<char>, st: Stats) -> Seq<char> {
    "# backuptool  set="@ + set + "  host="@ + host + "  "@ + created + "\n"@
        + "# changed/new="@ + decimal_text(st.copied as nat) + " unchanged="@ + decimal_text(st.skipped as nat)
        + " deleted="@ + decimal_text(st.deleted as nat) + " errors="@ + decimal_text(st.errors as nat) + "\n"@
}

/// The log of one backup run: its file name inside `LOG_DIR` and its text.
pub struct RunLog {
    pub name: String,
    pub text: String,
}

/// The log of a backup run: named `backup-<stamp>.log` after the creation
/// time; two header lines (set, host, time; the counts), then a `CHANGED`
/// line for each copied path and a `DELETED` line for each path gone from
/// the sources, each group in key order.
pub fn run_log(set: &str, host: &str, created: &str, st: &Stats, changed: Vec<String>, deleted: Vec<String>) -> (r: RunLog)
    ensures
        r.name@ == "backup-"@ + log_stamp_spec(created@) + ".log"@,
        exists|c: Seq<String>, d: Seq<String>| {
            &&& crate::order::texts_sorted(c)
            &&& c.to_multiset() == changed@.to_multiset()
            &&& crate::order::texts_sorted(d)
            &&& d.to_multiset() == deleted@.to_multiset()
            &&& r.text@ == run_log_head(set@, host@, created@, *st) + tagged_lines("CHANGED\t/"@, c)
                + tagged_lines("DELETED\t/"@, d)
        },
{
    let stamp = log_stamp(created);
    let name = crate::text::concat3("backup-", stamp.as_str(), ".log");
    let mut text = crate::text::concat3("# backuptool  set=", set, "  host=");
    text.append(host);
    text.append("  ");
    text.append(created);
    text.append("\n# changed/new=");
    text.append(crate::text::decimal(st.copied).as_str());
    text.append(" unchanged=");
    text.append(crate::text::decimal(st.skipped).as_str());
    text.append(" deleted=");
    text.append(crate::text::decimal(st.deleted).as_str());
    text.append(" errors=");
    text.append(crate::text::decimal(st.errors).as_str());
    text.append("\n");
    proof {
        reveal_strlit("\n# changed/new=");
        reveal_strlit("\n");
        reveal_strlit("# changed/new=");
        assert(text@ =~= run_log_head(set@, host@, created@, *st));
    }
    let c = crate::order::sort_texts(changed);
    let d = crate::order::sort_texts(deleted);
    push_tagged(&mut text, "CHANGED\t/", &c);
    push_tagged(&mut text, "DELETED\t/", &d);
    RunLog { name, text }
}

} // verus!
