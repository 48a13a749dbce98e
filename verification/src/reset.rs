//! Factory-reset guidance and the commands around it: disk-clone tools and
//! their command lines, the platform's automatable reset, storage kinds and
//! secure-erase advice.
use vstd::prelude::*;

use crate::error::BackupError;
use crate::platform::Platform;
use crate::discover::trim_trailing_digits;
use crate::text::{
    opt_string, opt_text, texts_of,
    chars_of, concat3, contains_spec, contains_str, first_line_containing,
    first_line_containing_spec, lines, lines_spec, lowercased, owned, starts_with_spec,
    starts_with_str, str_eq, string_of, to_lowercase, trim_chars, trim_spec, words, words_spec,
};

verus! {

/// A disk-clone utility candidate and where it is installed, if it is.
#[derive(Debug)]
pub struct CloneTool {
    pub name: &'static str,
    pub description: &'static str,
    pub path: Option<String>,
}

impl CloneTool {
    /// Whether the tool is installed.
    pub fn available(&self) -> (r: bool)
        ensures
            r == self.path is Some,
    {
        self.path.is_some()
    }
}

/// The clone tools considered on a platform: names and descriptions.
pub open spec fn clone_candidates_spec(p: Platform) -> Seq<(Seq<char>, Seq<char>)> {
    match p {
        Platform::MacOs => seq![
            ("asr"@, "Apple Software Restore — block-copy/restore a volume"@),
            ("dd"@, "raw byte copy of a device or file"@),
            ("ddrescue"@, "GNU ddrescue — robust copy, retries bad sectors"@),
        ],
        Platform::Linux => seq![
            ("dd"@, "raw byte copy of a device or file"@),
            ("ddrescue"@, "GNU ddrescue — robust copy, retries bad sectors"@),
            ("partclone.dd"@, "partclone — filesystem-aware partition clone"@),
            ("ntfsclone"@, "clone NTFS partitions"@),
            ("e2image"@, "clone ext2/3/4 partitions"@),
        ],
        Platform::Windows => seq![
            ("wbadmin"@, "Windows Server Backup — system image"@),
            ("dd"@, "raw byte copy (if a dd port is installed)"@),
        ],
        Platform::Other => Seq::empty(),
    }
}

/// The texts of a list of name/description pairs.
pub open spec fn pair_texts(v: Seq<(&'static str, &'static str)>) -> Seq<(Seq<char>, Seq<char>)> {
    v.map_values(|e: (&'static str, &'static str)| (e.0@, e.1@))
}

/// The clone tools considered on a platform (name, description).
pub fn clone_candidates(p: Platform) -> (r: Vec<(&'static str, &'static str)>)
    ensures
        pair_texts(r@) == clone_candidates_spec(p),
{
    let mut r: Vec<(&'static str, &'static str)> = Vec::new();
    match p {
        Platform::MacOs => {
            r.push(("asr", "Apple Software Restore — block-copy/restore a volume"));
            r.push(("dd", "raw byte copy of a device or file"));
            r.push(("ddrescue", "GNU ddrescue — robust copy, retries bad sectors"));
        },
        Platform::Linux => {
            r.push(("dd", "raw byte copy of a device or file"));
            r.push(("ddrescue", "GNU ddrescue — robust copy, retries bad sectors"));
            r.push(("partclone.dd", "partclone — filesystem-aware partition clone"));
            r.push(("ntfsclone", "clone NTFS partitions"));
            r.push(("e2image", "clone ext2/3/4 partitions"));
        },
        Platform::Windows => {
            r.push(("wbadmin", "Windows Server Backup — system image"));
            r.push(("dd", "raw byte copy (if a dd port is installed)"));
        },
        Platform::Other => {},
    }
    assert(pair_texts(r@) =~= clone_candidates_spec(p));
    r
}

/// The clone tools of a platform with where each was found on `PATH`
/// (`located[i]` for the `i`-th candidate).
pub fn detect_clone_tools(p: Platform, located: Vec<Option<String>>) -> (r: Vec<CloneTool>)
    requires
        located@.len() == clone_candidates_spec(p).len(),
    ensures
        r@.len() == clone_candidates_spec(p).len(),
        forall|i: int| 0 <= i < r@.len() ==> {
            &&& (#[trigger] r@[i]).name@ == clone_candidates_spec(p)[i].0
            &&& r@[i].description@ == clone_candidates_spec(p)[i].1
            &&& r@[i].path == located@[i]
        },
{
    let cands = clone_candidates(p);
    let mut r: Vec<CloneTool> = Vec::new();
    let mut i: usize = 0;
    while i < cands.len()
        invariant
            i <= cands@.len(),
            pair_texts(cands@) == clone_candidates_spec(p),
            located@.len() == cands@.len(),
            r@.len() == i,
            forall|j: int| 0 <= j < i ==> {
                &&& (#[trigger] r@[j]).name@ == clone_candidates_spec(p)[j].0
                &&& r@[j].description@ == clone_candidates_spec(p)[j].1
                &&& r@[j].path == located@[j]
            },
        decreases cands@.len() - i,
    {
        let (name, description) = cands[i];
        assert(pair_texts(cands@)[i as int] == (cands@[i as int].0@, cands@[i as int].1@));
        let path = match &located[i] {
            Some(s) => Some(s.clone()),
            None => None,
        };
        r.push(CloneTool { name, description, path });
        i = i + 1;
    }
    r
}

/// The command line `build_clone_command` gives for a known tool.
pub open spec fn clone_command_spec(tool: Seq<char>, source: Seq<char>, target: Seq<char>) -> Option<Seq<Seq<char>>> {
    if tool == "dd"@ {
        Some(seq!["dd"@, "if="@ + source, "of="@ + target, "bs=1048576"@, "conv=noerror,sync"@])
    } else if tool == "ddrescue"@ {
        Some(seq!["ddrescue"@, "-f"@, source, target, target + ".mapfile"@])
    } else if tool == "asr"@ {
        Some(seq!["asr"@, "restore"@, "--source"@, source, "--target"@, target, "--erase"@, "--noprompt"@])
    } else if tool == "partclone.dd"@ {
        Some(seq!["partclone.dd"@, "-s"@, source, "-o"@, target])
    } else if tool == "ntfsclone"@ {
        Some(seq!["ntfsclone"@, "--save-image"@, "-o"@, target, source])
    } else if tool == "e2image"@ {
        Some(seq!["e2image"@, "-r"@, source, target])
    } else if tool == "wbadmin"@ {
        Some(seq!["wbadmin"@, "start"@, "backup"@, "-backupTarget:"@ + target, "-include:"@ + source, "-quiet"@])
    } else {
        None
    }
}

/// The command line for cloning `source` to `target` (devices or image files)
/// with the named tool; an unknown tool is an error.
pub fn build_clone_command(tool: &str, source: &str, target: &str) -> (r: Result<Vec<String>, BackupError>)
    ensures
        match clone_command_spec(tool@, source@, target@) {
            Some(v) => r matches Ok(w) && texts_of(w@) == v,
            None => r matches Err(BackupError::UnknownCloneTool(t)) && t@ == tool@,
        },
{
    let mut v: Vec<String> = Vec::new();
    if str_eq(tool, "dd") {
        v.push("dd".to_owned());
        v.push(crate::text::concat2("if=", source));
        v.push(crate::text::concat2("of=", target));
        v.push("bs=1048576".to_owned());
        v.push("conv=noerror,sync".to_owned());
    } else if str_eq(tool, "ddrescue") {
        v.push("ddrescue".to_owned());
        v.push("-f".to_owned());
        v.push(source.to_owned());
        v.push(target.to_owned());
        v.push(crate::text::concat2(target, ".mapfile"));
    } else if str_eq(tool, "asr") {
        v.push("asr".to_owned());
        v.push("restore".to_owned());
        v.push("--source".to_owned());
        v.push(source.to_owned());
        v.push("--target".to_owned());
        v.push(target.to_owned());
        v.push("--erase".to_owned());
        v.push("--noprompt".to_owned());
    } else if str_eq(tool, "partclone.dd") {
        v.push("partclone.dd".to_owned());
        v.push("-s".to_owned());
        v.push(source.to_owned());
        v.push("-o".to_owned());
        v.push(target.to_owned());
    } else if str_eq(tool, "ntfsclone") {
        v.push("ntfsclone".to_owned());
        v.push("--save-image".to_owned());
        v.push("-o".to_owned());
        v.push(target.to_owned());
        v.push(source.to_owned());
    } else if str_eq(tool, "e2image") {
        v.push("e2image".to_owned());
        v.push("-r".to_owned());
        v.push(source.to_owned());
        v.push(target.to_owned());
    } else if str_eq(tool, "wbadmin") {
        v.push("wbadmin".to_owned());
        v.push("start".to_owned());
        v.push("backup".to_owned());
        v.push(crate::text::concat2("-backupTarget:", target));
        v.push(crate::text::concat2("-include:", source));
        v.push("-quiet".to_owned());
    } else {
        return Err(BackupError::UnknownCloneTool(tool.to_owned()));
    }
    assert(clone_command_spec(tool@, source@, target@) matches Some(w) && texts_of(v@) =~= w);
    Ok(v)
}

/// The platform's automatable factory-reset command, or `None` when a reset
/// can only be done by hand (see [`instructions`]).
pub fn factory_reset_command(p: Platform) -> (r: Option<Vec<String>>)
    ensures
        p == Platform::Windows ==> (r matches Some(v) && texts_of(v@) == seq!["systemreset.exe"@, "--factoryreset"@]),
        p != Platform::Windows ==> r is None,
{
    if p == Platform::Windows {
        let mut v: Vec<String> = Vec::new();
        v.push("systemreset.exe".to_owned());
        v.push("--factoryreset".to_owned());
        assert(texts_of(v@) =~= seq!["systemreset.exe"@, "--factoryreset"@]);
        Some(v)
    } else {
        None
    }
}

/// Whether a path lives on flash (SSD) or a rotational disk (HDD).
#[derive(Debug, Clone, Copy, PartialEq, Eq, Structural)]
pub enum StorageKind {
    Ssd,
    Hdd,
    Unknown,
}

/// The name of a storage kind.
pub open spec fn storage_kind_name(k: StorageKind) -> Seq<char> {
    match k {
        StorageKind::Ssd => "ssd"@,
        StorageKind::Hdd => "hdd"@,
        StorageKind::Unknown => "unknown"@,
    }
}

impl StorageKind {
    /// `"ssd"`, `"hdd"` or `"unknown"`.
    pub fn as_str(&self) -> (r: &'static str)
        ensures
            r@ == storage_kind_name(*self),
    {
        match self {
            StorageKind::Ssd => "ssd",
            StorageKind::Hdd => "hdd",
            StorageKind::Unknown => "unknown",
        }
    }
}

// ------------------------------------------------------------- storage kind

/// The command that names the partition behind `path`: `df --output=source`
/// on Linux, `df` on macOS; other platforms need none.
pub open spec fn df_command_spec(p: Platform, path: Seq<char>) -> Option<Seq<Seq<char>>> {
    match p {
        Platform::Linux => Some(seq!["df"@, "--output=source"@, path]),
        Platform::MacOs => Some(seq!["df"@, path]),
        _ => None,
    }
}

/// The command that names the partition behind `path`, where one is needed.
pub fn df_command(p: Platform, path: &str) -> (r: Option<Vec<String>>)
    ensures
        match r {
            Some(v) => df_command_spec(p, path@) == Some(texts_of(v@)),
            None => df_command_spec(p, path@) is None,
        },
{
    let mut v: Vec<String> = Vec::new();
    match p {
        Platform::Linux => {
            v.push(owned("df"));
            v.push(owned("--output=source"));
            v.push(owned(path));
            assert(texts_of(v@) =~= seq!["df"@, "--output=source"@, path@]);
            Some(v)
        },
        Platform::MacOs => {
            v.push(owned("df"));
            v.push(owned(path));
            assert(texts_of(v@) =~= seq!["df"@, path@]);
            Some(v)
        },
        _ => None,
    }
}

/// The partition behind `path`: on Linux the second line of the `df` output,
/// trimmed; on macOS the first word of that line; on Windows the path's drive
/// letter and a colon. `None` where the output has no such line or word, or
/// `df` could not run.
pub open spec fn storage_device_spec(p: Platform, path: Seq<char>, df: Option<Seq<char>>) -> Option<Seq<char>> {
    match p {
        Platform::Linux => match df {
            Some(t) => if lines_spec(t).len() >= 2 {
                Some(trim_spec(lines_spec(t)[1]))
            } else {
                None
            },
            None => None,
        },
        Platform::MacOs => match df {
            Some(t) => if lines_spec(t).len() >= 2 && words_spec(lines_spec(t)[1]).len() >= 1 {
                Some(words_spec(lines_spec(t)[1])[0])
            } else {
                None
            },
            None => None,
        },
        Platform::Windows => if path.len() >= 1 {
            Some(seq![path[0], ':'])
        } else {
            None
        },
        Platform::Other => None,
    }
}

/// The partition behind `path`, from what `df_command` printed (`None` when
/// it could not run).
pub fn storage_device(p: Platform, path: &str, df_output: Option<&str>) -> (r: Option<String>)
    ensures
        match r {
            Some(d) => storage_device_spec(p, path@, opt_text(df_output)) == Some(d@),
            None => storage_device_spec(p, path@, opt_text(df_output)) is None,
        },
{
    match p {
        Platform::Linux | Platform::MacOs => {
            let t = match df_output {
                Some(t) => t,
                None => {
                    return None;
                },
            };
            let ls = lines(t);
            if ls.len() < 2 {
                return None;
            }
            let line = ls[1].as_str();
            assert(lines_spec(t@)[1] == line@);
            if p == Platform::Linux {
                let c = chars_of(line);
                Some(string_of(trim_chars(c.as_slice()).as_slice()))
            } else {
                let w = words(line);
                if w.len() < 1 {
                    None
                } else {
                    assert(words_spec(line@)[0] == w@[0]@);
                    Some(owned(w[0].as_str()))
                }
            }
        },
        Platform::Windows => {
            let c = chars_of(path);
            if c.len() < 1 {
                None
            } else {
                let v = vec![c[0], ':'];
                assert(v@ =~= seq![path@[0], ':']);
                Some(string_of(v.as_slice()))
            }
        },
        Platform::Other => None,
    }
}

/// The position of the last `c` in `s`, or -1.
pub open spec fn last_pos(s: Seq<char>, c: char) -> int
    decreases s.len(),
{
    if s.len() == 0 {
        -1
    } else if s.last() == c {
        s.len() - 1
    } else {
        last_pos(s.drop_last(), c)
    }
}

/// The whole disk of a partition name: `nvme0n1p2` → `nvme0n1`,
/// `mmcblk0p1` → `mmcblk0` (the text before the last `p` of a name that
/// starts with `nvme` or `mmcblk`), `sda1` → `sda` (trailing digits dropped).
pub open spec fn base_block_device_spec(name: Seq<char>) -> Seq<char> {
    if (starts_with_spec(name, "nvme"@) || starts_with_spec(name, "mmcblk"@)) && name.contains('p') {
        name.take(last_pos(name, 'p'))
    } else {
        trim_trailing_digits(name)
    }
}

/// The whole disk of a partition name (`nvme0n1p2` → `nvme0n1`, `sda1` → `sda`).
pub fn base_block_device(name: &str) -> (r: String)
    ensures
        r@ == base_block_device_spec(name@),
{
    let c = chars_of(name);
    let mut k: usize = c.len();
    assert(c@.take(k as int) =~= c@);
    while k > 0 && c[k - 1] != 'p'
        invariant
            k <= c@.len(),
            c@ == name@,
            last_pos(c@, 'p') == last_pos(c@.take(k as int), 'p'),
            forall|j: int| k <= j < c@.len() ==> c@[j] != 'p',
        decreases k,
    {
        assert(c@.take(k as int).drop_last() == c@.take(k - 1));
        k = k - 1;
    }
    proof {
        if k > 0 {
            assert(c@.take(k as int).last() == 'p');
            assert(name@.contains('p')) by {
                assert(c@[k - 1] == 'p');
            }
        } else {
            assert(!name@.contains('p')) by {
                if name@.contains('p') {
                    let j = choose|j: int| 0 <= j < name@.len() && name@[j] == 'p';
                    assert(c@[j] != 'p');
                }
            }
        }
    }
    let prefixed = starts_with_str(name, "nvme") || starts_with_str(name, "mmcblk");
    let mut end: usize;
    if prefixed && k > 0 {
        end = k - 1;
    } else {
        end = c.len();
        assert(c@.take(end as int) =~= c@);
        while end > 0 && '0' <= c[end - 1] && c[end - 1] <= '9'
            invariant
                end <= c@.len(),
                c@ == name@,
                trim_trailing_digits(name@) == trim_trailing_digits(c@.take(end as int)),
            decreases end,
        {
            assert(c@.take(end as int).drop_last() == c@.take(end - 1));
            end = end - 1;
        }
        assert(trim_trailing_digits(c@.take(end as int)) == c@.take(end as int));
    }
    let mut out: Vec<char> = Vec::new();
    let mut i: usize = 0;
    while i < end
        invariant
            i <= end <= c@.len(),
            out@ == c@.take(i as int),
        decreases end - i,
    {
        out.push(c[i]);
        assert(c@.take(i + 1) == c@.take(i as int).push(c@[i as int]));
        i = i + 1;
    }
    string_of(out.as_slice())
}

/// How the storage kind of a partition is found out: a file to read, or a
/// command to run.
pub enum StorageQuery {
    ReadFile(String),
    Run(Vec<String>),
}

/// The partition name without a leading `/dev/`.
pub open spec fn dev_name(device: Seq<char>) -> Seq<char> {
    if starts_with_spec(device, "/dev/"@) {
        device.skip(5)
    } else {
        device
    }
}

/// The PowerShell script that prints the media type behind a drive letter.
pub open spec fn media_type_script(drive: char) -> Seq<char> {
    "$ErrorActionPreference='SilentlyContinue';(Get-Partition -DriveLetter '"@ + seq![drive]
        + "' | Get-Disk | Get-PhysicalDisk).MediaType"@
}

/// How the kind of `device` is found out: on Linux the disk's
/// `queue/rotational` flag under `/sys/block`; on macOS `diskutil info`; on
/// Windows the physical disk's media type through PowerShell.
pub open spec fn storage_query_spec(p: Platform, device: Seq<char>) -> Option<(bool, Seq<Seq<char>>)> {
    match p {
        Platform::Linux => Some(
            (true, seq!["/sys/block/"@ + base_block_device_spec(dev_name(device)) + "/queue/rotational"@]),
        ),
        Platform::MacOs => Some((false, seq!["diskutil"@, "info"@, device])),
        Platform::Windows => if device.len() >= 1 {
            Some((false, seq!["powershell"@, "-NoProfile"@, "-Command"@, media_type_script(device[0])]))
        } else {
            None
        },
        Platform::Other => None,
    }
}

/// The view of a storage query: whether it reads a file, and the file or the
/// command line.
pub open spec fn query_view(q: StorageQuery) -> (bool, Seq<Seq<char>>) {
    match q {
        StorageQuery::ReadFile(f) => (true, seq![f@]),
        StorageQuery::Run(v) => (false, texts_of(v@)),
    }
}

/// How the kind of `device` is found out on this platform, if it can be.
pub fn storage_query(p: Platform, device: &str) -> (r: Option<StorageQuery>)
    ensures
        match r {
            Some(q) => storage_query_spec(p, device@) == Some(query_view(q)),
            None => storage_query_spec(p, device@) is None,
        },
{
    match p {
        Platform::Linux => {
            let c = chars_of(device);
            let name: String = if starts_with_str(device, "/dev/") {
                proof {
                    reveal_strlit("/dev/");
                }
                let mut v: Vec<char> = Vec::new();
                let mut i: usize = 5;
                while i < c.len()
                    invariant
                        5 <= i <= c@.len(),
                        v@ == c@.subrange(5, i as int),
                    decreases c@.len() - i,
                {
                    v.push(c[i]);
                    assert(c@.subrange(5, i + 1) == c@.subrange(5, i as int).push(c@[i as int]));
                    i = i + 1;
                }
                assert(v@ == device@.skip(5));
                string_of(v.as_slice())
            } else {
                owned(device)
            };
            let base = base_block_device(name.as_str());
            let file = concat3("/sys/block/", base.as_str(), "/queue/rotational");
            let q = StorageQuery::ReadFile(file);
            assert(query_view(q).1 =~= seq![file@]);
            Some(q)
        },
        Platform::MacOs => {
            let mut v: Vec<String> = Vec::new();
            v.push(owned("diskutil"));
            v.push(owned("info"));
            v.push(owned(device));
            assert(texts_of(v@) =~= seq!["diskutil"@, "info"@, device@]);
            Some(StorageQuery::Run(v))
        },
        Platform::Windows => {
            let c = chars_of(device);
            if c.len() < 1 {
                return None;
            }
            let d = vec![c[0]];
            let drive = string_of(d.as_slice());
            let script = concat3(
                "$ErrorActionPreference='SilentlyContinue';(Get-Partition -DriveLetter '",
                drive.as_str(),
                "' | Get-Disk | Get-PhysicalDisk).MediaType",
            );
            let mut v: Vec<String> = Vec::new();
            v.push(owned("powershell"));
            v.push(owned("-NoProfile"));
            v.push(owned("-Command"));
            v.push(script);
            assert(d@ =~= seq![device@[0]]);
            assert(texts_of(v@) =~= seq!["powershell"@, "-NoProfile"@, "-Command"@, media_type_script(device@[0])]);
            Some(StorageQuery::Run(v))
        },
        Platform::Other => None,
    }
}

/// The storage kind that the answer to a storage query gives: on Linux a
/// rotational flag of `1` (trimmed) is an HDD and anything else an SSD; on
/// macOS the first `solid state` line of the lower-cased `diskutil` output
/// says `yes` for an SSD and otherwise an HDD, and no such line leaves it
/// unknown; on Windows a lower-cased media type holding `ssd` is an SSD,
/// else one holding `hdd` an HDD, else unknown.
pub open spec fn storage_kind_spec(p: Platform, answer: Seq<char>) -> StorageKind {
    match p {
        Platform::Linux => if trim_spec(answer) == "1"@ {
            StorageKind::Hdd
        } else {
            StorageKind::Ssd
        },
        Platform::MacOs => match first_line_containing_spec(lines_spec(lowercased(answer)), "solid state"@) {
            Some(l) => if contains_spec(l, "yes"@) {
                StorageKind::Ssd
            } else {
                StorageKind::Hdd
            },
            None => StorageKind::Unknown,
        },
        Platform::Windows => if contains_spec(lowercased(answer), "ssd"@) {
            StorageKind::Ssd
        } else if contains_spec(lowercased(answer), "hdd"@) {
            StorageKind::Hdd
        } else {
            StorageKind::Unknown
        },
        Platform::Other => StorageKind::Unknown,
    }
}

/// The partition and storage kind behind a path, from the partition found
/// (`None`, or an empty name, when it could not be) and the answer to its storage query (`None`
/// when the file could not be read or the command could not run). On Linux
/// an unreadable flag still names the partition, with an unknown kind; on
/// macOS and Windows a command that could not run names nothing.
pub open spec fn storage_info_spec(p: Platform, device: Option<Seq<char>>, answer: Option<Seq<char>>) -> (Seq<char>, StorageKind) {
    match device {
        None => (Seq::empty(), StorageKind::Unknown),
        Some(d) => if d.len() == 0 {
            (Seq::empty(), StorageKind::Unknown)
        } else {
            match p {
            Platform::Linux => match answer {
                Some(a) => (d, storage_kind_spec(p, a)),
                None => (d, StorageKind::Unknown),
            },
            Platform::MacOs | Platform::Windows => match answer {
                Some(a) => (d, storage_kind_spec(p, a)),
                None => (Seq::empty(), StorageKind::Unknown),
            },
            Platform::Other => (Seq::empty(), StorageKind::Unknown),
            }
        },
    }
}

fn storage_kind_of(p: Platform, answer: &str) -> (r: StorageKind)
    ensures
        r == storage_kind_spec(p, answer@),
{
    match p {
        Platform::Linux => {
            let c = chars_of(answer);
            let t = trim_chars(c.as_slice());
            let ts = string_of(t.as_slice());
            if str_eq(ts.as_str(), "1") {
                StorageKind::Hdd
            } else {
                StorageKind::Ssd
            }
        },
        Platform::MacOs => {
            let low = to_lowercase(answer);
            match first_line_containing(low.as_str(), "solid state") {
                Some(l) => if contains_str(l.as_str(), "yes") {
                    StorageKind::Ssd
                } else {
                    StorageKind::Hdd
                },
                None => StorageKind::Unknown,
            }
        },
        Platform::Windows => {
            let low = to_lowercase(answer);
            if contains_str(low.as_str(), "ssd") {
                StorageKind::Ssd
            } else if contains_str(low.as_str(), "hdd") {
                StorageKind::Hdd
            } else {
                StorageKind::Unknown
            }
        },
        Platform::Other => StorageKind::Unknown,
    }
}

/// The partition (`device`) and storage kind behind a path, as `(device,
/// kind)`, so that callers can group files per partition on machines with
/// several disks; `("", Unknown)` when nothing could be found out.
pub fn storage_info(p: Platform, device: Option<String>, answer: Option<&str>) -> (r: (String, StorageKind))
    ensures
        (r.0@, r.1) == storage_info_spec(
            p,
            match device {
                Some(d) => Some(d@),
                None => None,
            },
            opt_text(answer),
        ),
{
    let d = match device {
        Some(d) => d,
        None => {
            return (String::new(), StorageKind::Unknown);
        },
    };
    if d.as_str().unicode_len() == 0 {
        return (String::new(), StorageKind::Unknown);
    }
    match p {
        Platform::Linux => match answer {
            Some(a) => {
                let k = storage_kind_of(p, a);
                (d, k)
            },
            None => (d, StorageKind::Unknown),
        },
        Platform::MacOs | Platform::Windows => match answer {
            Some(a) => {
                let k = storage_kind_of(p, a);
                (d, k)
            },
            None => (String::new(), StorageKind::Unknown),
        },
        Platform::Other => (String::new(), StorageKind::Unknown),
    }
}

/// The storage kind behind a path: unknown without a partition or without an
/// answer to its storage query, else what the answer says.
pub open spec fn storage_type_spec(p: Platform, device: Option<Seq<char>>, answer: Option<Seq<char>>) -> StorageKind {
    match device {
        None => StorageKind::Unknown,
        Some(d) => if d.len() == 0 {
            StorageKind::Unknown
        } else {
            match answer {
                None => StorageKind::Unknown,
                Some(a) => storage_kind_spec(p, a),
            }
        },
    }
}

/// `storage_type` gives the kind that `storage_info` gives for the same
/// partition and answer.
pub proof fn lemma_storage_type_is_info_kind(p: Platform, device: Option<Seq<char>>, answer: Option<Seq<char>>)
    ensures
        storage_type_spec(p, device, answer) == storage_info_spec(p, device, answer).1,
{
}

/// The storage kind behind a path (the kind of `storage_info`).
pub fn storage_type(p: Platform, device: Option<String>, answer: Option<&str>) -> (r: StorageKind)
    ensures
        r == storage_type_spec(
            p,
            match device {
                Some(d) => Some(d@),
                None => None,
            },
            opt_text(answer),
        ),
{
    proof {
        lemma_storage_type_is_info_kind(p, opt_string(device), opt_text(answer));
    }
    storage_info(p, device, answer).1
}

/// The first line of the secure-erase advice for a storage kind.
pub open spec fn advice_head(k: StorageKind) -> Seq<char> {
    match k {
        StorageKind::Hdd => "HDD detected — multi-pass overwrite reliably destroys the data."@,
        StorageKind::Ssd => "SSD/flash detected — per-file overwrite is NOT reliable (wear-leveling keeps old copies)."@,
        StorageKind::Unknown => "Storage type unknown — treat overwrite as best-effort only."@,
    }
}

/// The platform's own secure-erase tools.
pub open spec fn advice_tool(p: Platform) -> Seq<char> {
    match p {
        Platform::Windows => "Windows: run 'cipher /w:<volume>' to wipe free space, turn on BitLocker (crypto-erase),\n  or use the drive vendor's ATA Secure Erase utility."@,
        Platform::Linux => "Linux: use 'blkdiscard' (TRIM), 'hdparm --security-erase', or 'nvme format -s2' on the whole device;\n  or full-disk encryption (LUKS) + key destruction."@,
        Platform::MacOs => "macOS: use 'diskutil secureErase', or rely on FileVault crypto-erase ('Erase All Content and Settings')."@,
        Platform::Other => "Use your platform's hardware secure-erase tool."@,
    }
}

/// Advice on how to erase securely: overwriting suffices on an HDD; otherwise
/// the platform's own tool is named.
pub fn secure_erase_advice(kind: StorageKind, p: Platform) -> (r: String)
    ensures
        kind == StorageKind::Hdd ==> r@ == advice_head(kind),
        kind != StorageKind::Hdd ==> r@ == advice_head(kind) + "\n  "@ + advice_tool(p),
{
    let head: &str = match kind {
        StorageKind::Hdd => "HDD detected — multi-pass overwrite reliably destroys the data.",
        StorageKind::Ssd => "SSD/flash detected — per-file overwrite is NOT reliable (wear-leveling keeps old copies).",
        StorageKind::Unknown => "Storage type unknown — treat overwrite as best-effort only.",
    };
    if kind == StorageKind::Hdd {
        return head.to_owned();
    }
    let tool: &str = match p {
        Platform::Windows => "Windows: run 'cipher /w:<volume>' to wipe free space, turn on BitLocker (crypto-erase),\n  or use the drive vendor's ATA Secure Erase utility.",
        Platform::Linux => "Linux: use 'blkdiscard' (TRIM), 'hdparm --security-erase', or 'nvme format -s2' on the whole device;\n  or full-disk encryption (LUKS) + key destruction.",
        Platform::MacOs => "macOS: use 'diskutil secureErase', or rely on FileVault crypto-erase ('Erase All Content and Settings').",
        Platform::Other => "Use your platform's hardware secure-erase tool.",
    };
    crate::text::concat3(head, "\n  ", tool)
}

/// On Windows, the command that overwrites a volume's free space
/// (`cipher /w:<path>`); other platforms have their own tools.
pub fn windows_freespace_wipe_command(p: Platform, path: &str) -> (r: Option<Vec<String>>)
    ensures
        p == Platform::Windows ==> (r matches Some(v) && texts_of(v@) == seq!["cipher"@, "/w:"@ + path@]),
        p != Platform::Windows ==> r is None,
{
    if p == Platform::Windows {
        let mut v: Vec<String> = Vec::new();
        v.push("cipher".to_owned());
        v.push(crate::text::concat2("/w:", path));
        assert(texts_of(v@) =~= seq!["cipher"@, "/w:"@ + path@]);
        Some(v)
    } else {
        None
    }
}

/// The manual factory-reset instructions of a platform.
pub open spec fn instructions_spec(p: Platform) -> Seq<char> {
    match p {
        Platform::MacOs => "macOS: a factory reset cannot be scripted by third-party tools.\nDo it manually:\n- Apple silicon / T2 Macs: System Settings > General > Transfer or Reset\n  > Erase All Content and Settings.\n- Older Macs: reboot into Recovery (hold Cmd-R), use Disk Utility to erase\n  the system volume, then reinstall macOS."@,
        Platform::Linux => "Linux: there is no universal factory reset.\nTypical options:\n- Appliance/immutable systems: trigger the vendor reset (e.g. reset an\n  OverlayFS upper layer, or re-flash the factory image).\n- Desktop installs: reinstall from your installation medium, or remove\n  user data (/home, /root) and reset configuration to defaults."@,
        Platform::Windows => "Windows: use the built-in reset.\n- GUI: Settings > System > Recovery > Reset this PC > Remove everything.\n- CLI (elevated): systemreset.exe --factoryreset"@,
        Platform::Other => "Factory reset is platform-specific; consult your device documentation."@,
    }
}

/// Human-readable, platform-specific factory-reset instructions.
pub fn instructions(p: Platform) -> (r: String)
    ensures
        r@ == instructions_spec(p),
{
    match p {
        Platform::MacOs => "macOS: a factory reset cannot be scripted by third-party tools.\nDo it manually:\n- Apple silicon / T2 Macs: System Settings > General > Transfer or Reset\n  > Erase All Content and Settings.\n- Older Macs: reboot into Recovery (hold Cmd-R), use Disk Utility to erase\n  the system volume, then reinstall macOS.".to_owned(),
        Platform::Linux => "Linux: there is no universal factory reset.\nTypical options:\n- Appliance/immutable systems: trigger the vendor reset (e.g. reset an\n  OverlayFS upper layer, or re-flash the factory image).\n- Desktop installs: reinstall from your installation medium, or remove\n  user data (/home, /root) and reset configuration to defaults.".to_owned(),
        Platform::Windows => "Windows: use the built-in reset.\n- GUI: Settings > System > Recovery > Reset this PC > Remove everything.\n- CLI (elevated): systemreset.exe --factoryreset".to_owned(),
        Platform::Other => "Factory reset is platform-specific; consult your device documentation.".to_owned(),
    }
}

} // verus!
