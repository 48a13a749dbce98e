//! Windows Volume Shadow Copy planning: snapshot each source volume so that
//! the file backup can read files that other processes hold open, and read
//! the sources from the snapshots' device paths
//! (`\\?\GLOBALROOT\Device\HarddiskVolumeShadowCopyN`). Creating a snapshot
//! needs Administrator rights; other platforms have no snapshots.
use vstd::prelude::*;

use crate::engine::{is_ascii_alpha, pair_texts, trim_leading_separators};
use crate::error::BackupError;
use crate::platform::Platform;
use crate::text::{
    chars_of, concat2, concat3, contains_text, first_line_containing, first_line_containing_spec,
    lines_spec, owned, string_of, texts_of, trim_chars, trim_spec, str_eq,
};

verus! {

/// A volume snapshot.
#[derive(Debug)]
pub struct Shadow {
    pub id: String,
    /// Device path of the snapshot, e.g. `\\?\GLOBALROOT\Device\HarddiskVolumeShadowCopy3`.
    pub device: String,
    /// The original volume, e.g. `C:`.
    pub volume: String,
}

// ------------------------------------------------------------- volumes

/// The drive-letter volume of a path (`C:\Users` gives `C:`).
pub open spec fn volume_of_spec(path: Seq<char>) -> Option<Seq<char>> {
    if path.len() >= 2 && path[1] == ':' && is_ascii_alpha(path[0]) {
        Some(seq![path[0], ':'])
    } else {
        None
    }
}

/// Drive-letter volume of a path (`C:\Users` gives `C:`), or `None`.
pub fn volume_of(path: &str) -> (r: Option<String>)
    ensures
        match r {
            Some(v) => volume_of_spec(path@) == Some(v@),
            None => volume_of_spec(path@) is None,
        },
{
    let c = chars_of(path);
    if c.len() >= 2 && c[1] == ':' && (('a' <= c[0] && c[0] <= 'z') || ('A' <= c[0] && c[0] <= 'Z')) {
        let v = vec![c[0], ':'];
        assert(v@ =~= seq![path@[0], ':']);
        Some(string_of(v.as_slice()))
    } else {
        None
    }
}

/// The distinct volumes of the sources, in the order they first appear.
pub open spec fn snapshot_volumes_spec(sources: Seq<Seq<char>>) -> Seq<Seq<char>>
    decreases sources.len(),
{
    if sources.len() == 0 {
        Seq::empty()
    } else {
        let prev = snapshot_volumes_spec(sources.drop_last());
        match volume_of_spec(sources.last()) {
            Some(v) => if prev.contains(v) {
                prev
            } else {
                prev.push(v)
            },
            None => prev,
        }
    }
}

/// Each volume is snapshotted once.
pub proof fn lemma_snapshot_volumes_distinct(sources: Seq<Seq<char>>)
    ensures
        snapshot_volumes_spec(sources).no_duplicates(),
    decreases sources.len(),
{
    if sources.len() > 0 {
        let prev = snapshot_volumes_spec(sources.drop_last());
        lemma_snapshot_volumes_distinct(sources.drop_last());
        if let Some(v) = volume_of_spec(sources.last()) {
            if !prev.contains(v) {
                let r = prev.push(v);
                assert forall|i: int, j: int| 0 <= i < r.len() && 0 <= j < r.len() && i != j implies r[i] != r[j] by {
                    if i < prev.len() && j < prev.len() {
                    } else if i == prev.len() {
                        assert(r[j] == prev[j]);
                    } else {
                        assert(r[i] == prev[i]);
                    }
                }
            }
        }
    }
}

/// The volumes that need a snapshot: the distinct drive volumes of the
/// sources, in the order they first appear.
pub fn snapshot_volumes(sources: &[String]) -> (r: Vec<String>)
    ensures
        texts_of(r@) == snapshot_volumes_spec(texts_of(sources@)),
        texts_of(r@).no_duplicates(),
{
    proof {
        lemma_snapshot_volumes_distinct(texts_of(sources@));
    }
    let ghost src = texts_of(sources@);
    let mut r: Vec<String> = Vec::new();
    let mut i: usize = 0;
    while i < sources.len()
        invariant
            i <= sources@.len(),
            src == texts_of(sources@),
            texts_of(r@) == snapshot_volumes_spec(src.take(i as int)),
        decreases sources@.len() - i,
    {
        proof {
            assert(src.take(i + 1).drop_last() =~= src.take(i as int));
            assert(src.take(i + 1).last() == sources@[i as int]@);
        }
        match volume_of(sources[i].as_str()) {
            Some(v) => {
                if !contains_text(r.as_slice(), v.as_str()) {
                    r.push(v);
                }
            },
            None => {},
        }
        proof {
            assert(texts_of(r@) =~= snapshot_volumes_spec(src.take(i + 1)));
        }
        i = i + 1;
    }
    proof {
        assert(src.take(sources@.len() as int) =~= src);
    }
    r
}

/// Every volume of a source is among the snapshot volumes.
pub proof fn lemma_volume_listed(sources: Seq<Seq<char>>, i: int)
    requires
        0 <= i < sources.len(),
        volume_of_spec(sources[i]) is Some,
    ensures
        snapshot_volumes_spec(sources).contains(volume_of_spec(sources[i])->0),
    decreases sources.len(),
{
    let v = volume_of_spec(sources[i])->0;
    let prev = snapshot_volumes_spec(sources.drop_last());
    if i < sources.len() - 1 {
        lemma_volume_listed(sources.drop_last(), i);
        let k = choose|k: int| 0 <= k < prev.len() && prev[k] == v;
        assert(snapshot_volumes_spec(sources)[k] == v);
    } else if !prev.contains(v) {
        assert(snapshot_volumes_spec(sources)[prev.len() as int] == v);
    }
}

/// The position of the first `v` in `vs` (the length of `vs` when there is none).
pub open spec fn first_index(vs: Seq<Seq<char>>, v: Seq<char>) -> int
    decreases vs.len(),
{
    if vs.len() == 0 {
        0
    } else if vs[0] == v {
        0
    } else {
        1 + first_index(vs.drop_first(), v)
    }
}

proof fn lemma_first_index(vs: Seq<Seq<char>>, v: Seq<char>, j: int)
    requires
        0 <= j < vs.len(),
        vs[j] == v,
        forall|k: int| 0 <= k < j ==> vs[k] != v,
    ensures
        first_index(vs, v) == j,
    decreases j,
{
    if j > 0 {
        lemma_first_index(vs.drop_first(), v, j - 1);
    }
}

fn position(vs: &[String], v: &str) -> (r: usize)
    requires
        texts_of(vs@).contains(v@),
    ensures
        r < vs@.len(),
        r == first_index(texts_of(vs@), v@),
{
    let ghost t = texts_of(vs@);
    let mut j: usize = 0;
    while j < vs.len()
        invariant
            j <= vs@.len(),
            t == texts_of(vs@),
            t.contains(v@),
            forall|k: int| 0 <= k < j ==> t[k] != v@,
        decreases vs@.len() - j,
    {
        if str_eq(vs[j].as_str(), v) {
            proof {
                lemma_first_index(t, v@, j as int);
            }
            return j;
        }
        j = j + 1;
    }
    proof {
        let k = choose|k: int| 0 <= k < t.len() && t[k] == v@;
        assert(t[k] != v@);
    }
    0
}

// ------------------------------------------------------------- prepare

/// The sources to scan, the map from snapshot prefixes back to volumes, and
/// the snapshots that were made.
pub struct Prepared {
    pub sources: Vec<String>,
    /// `(snapshot device + "\", volume)` for each snapshot.
    pub vss_map: Vec<(String, String)>,
    pub shadows: Vec<Shadow>,
}

/// The devices of a list of snapshots.
pub open spec fn shadow_devices(v: Seq<Shadow>) -> Seq<Seq<char>> {
    v.map_values(|s: Shadow| s.device@)
}

/// Where a source is read from: a source on a volume is read from that
/// volume's snapshot, the rest of its path kept without leading separators;
/// any other source stays as it is.
pub open spec fn remap_source(s: Seq<char>, vols: Seq<Seq<char>>, devices: Seq<Seq<char>>) -> Seq<char> {
    match volume_of_spec(s) {
        Some(v) => devices[first_index(vols, v)] + "\\"@ + trim_leading_separators(s.skip(2)),
        None => s,
    }
}

/// The sources remapped onto their volumes' snapshots, and the map of
/// snapshot prefixes back to volumes. `shadows[k]` is the snapshot of the
/// `k`-th volume of `snapshot_volumes(sources)`.
pub fn prepare(sources: &[String], shadows: Vec<Shadow>) -> (r: Prepared)
    requires
        shadows@.len() == snapshot_volumes_spec(texts_of(sources@)).len(),
    ensures
        texts_of(r.sources@) == texts_of(sources@).map_values(
            |s: Seq<char>|
                remap_source(s, snapshot_volumes_spec(texts_of(sources@)), shadow_devices(shadows@)),
        ),
        pair_texts(r.vss_map@) == Seq::new(
            shadows@.len(),
            |k: int|
                (shadows@[k].device@ + "\\"@, snapshot_volumes_spec(texts_of(sources@))[k]),
        ),
        r.shadows@ == shadows@,
{
    let ghost src = texts_of(sources@);
    let vols = snapshot_volumes(sources);
    let ghost vs = texts_of(vols@);
    let ghost devs = shadow_devices(shadows@);
    let mut out: Vec<String> = Vec::new();
    let mut i: usize = 0;
    while i < sources.len()
        invariant
            i <= sources@.len(),
            src == texts_of(sources@),
            vs == texts_of(vols@),
            vs == snapshot_volumes_spec(src),
            devs == shadow_devices(shadows@),
            shadows@.len() == vs.len(),
            out@.len() == i,
            forall|j: int| 0 <= j < i ==> #[trigger] out@[j]@ == remap_source(src[j], vs, devs),
        decreases sources@.len() - i,
    {
        let s = sources[i].as_str();
        assert(src[i as int] == s@);
        match volume_of(s) {
            Some(v) => {
                proof {
                    lemma_volume_listed(src, i as int);
                }
                let k = position(vols.as_slice(), v.as_str());
                let c = chars_of(s);
                let mut rest: Vec<char> = Vec::new();
                let mut j: usize = 2;
                while j < c.len() && (c[j] == '/' || c[j] == '\\')
                    invariant
                        2 <= j <= c@.len(),
                        c@ == s@,
                        trim_leading_separators(c@.skip(2)) == trim_leading_separators(c@.skip(j as int)),
                    decreases c@.len() - j,
                {
                    assert(c@.skip(j as int).drop_first() == c@.skip(j + 1));
                    j = j + 1;
                }
                assert(trim_leading_separators(c@.skip(j as int)) == c@.skip(j as int));
                let start = j;
                while j < c.len()
                    invariant
                        start <= j <= c@.len(),
                        rest@ == c@.subrange(start as int, j as int),
                    decreases c@.len() - j,
                {
                    rest.push(c[j]);
                    assert(c@.subrange(start as int, j + 1) == c@.subrange(start as int, j as int).push(c@[j as int]));
                    j = j + 1;
                }
                assert(rest@ == c@.skip(start as int));
                let tail = string_of(rest.as_slice());
                let mapped = concat3(shadows[k].device.as_str(), "\\", tail.as_str());
                assert(devs[k as int] == shadows@[k as int].device@);
                out.push(mapped);
            },
            None => {
                out.push(owned(s));
            },
        }
        i = i + 1;
    }
    let mut map: Vec<(String, String)> = Vec::new();
    let mut k: usize = 0;
    while k < shadows.len()
        invariant
            k <= shadows@.len(),
            shadows@.len() == vs.len(),
            vs == texts_of(vols@),
            map@.len() == k,
            forall|j: int|
                0 <= j < k ==> (#[trigger] map@[j]).0@ == shadows@[j].device@ + "\\"@ && map@[j].1@
                    == vs[j],
        decreases shadows@.len() - k,
    {
        let prefix = concat2(shadows[k].device.as_str(), "\\");
        let vol = owned(vols[k].as_str());
        map.push((prefix, vol));
        k = k + 1;
    }
    proof {
        assert(texts_of(out@) =~= src.map_values(|s: Seq<char>| remap_source(s, vs, devs)));
        assert(pair_texts(map@) =~= Seq::new(
            shadows@.len(),
            |k: int| (shadows@[k].device@ + "\\"@, vs[k]),
        ));
    }
    Prepared { sources: out, vss_map: map, shadows }
}

// ------------------------------------------------------------- create / remove

/// `s` without its trailing `/` and `\` characters.
pub open spec fn trim_trailing_separators(s: Seq<char>) -> Seq<char>
    decreases s.len(),
{
    if s.len() > 0 && (s.last() == '/' || s.last() == '\\') {
        trim_trailing_separators(s.drop_last())
    } else {
        s
    }
}

fn drive_of(volume: &str) -> (r: String)
    ensures
        r@ == trim_trailing_separators(volume@),
{
    let c = chars_of(volume);
    let mut n: usize = c.len();
    assert(c@.take(n as int) =~= c@);
    while n > 0 && (c[n - 1] == '/' || c[n - 1] == '\\')
        invariant
            n <= c@.len(),
            c@ == volume@,
            trim_trailing_separators(volume@) == trim_trailing_separators(c@.take(n as int)),
        decreases n,
    {
        assert(c@.take(n as int).drop_last() == c@.take(n - 1));
        n = n - 1;
    }
    let mut v: Vec<char> = Vec::new();
    let mut i: usize = 0;
    while i < n
        invariant
            i <= n <= c@.len(),
            v@ == c@.take(i as int),
        decreases n - i,
    {
        v.push(c[i]);
        assert(c@.take(i + 1) == c@.take(i as int).push(c@[i as int]));
        i = i + 1;
    }
    string_of(v.as_slice())
}

/// The PowerShell script that snapshots `drive` and prints `ID|DeviceObject`.
pub open spec fn create_script_spec(drive: Seq<char>) -> Seq<char> {
    "$ErrorActionPreference='Stop';$r=([wmiclass]'Win32_ShadowCopy').Create('"@ + drive
        + "\\','ClientAccessible');$s=Get-WmiObject Win32_ShadowCopy | Where-Object { $_.ID -eq $r.ShadowID };Write-Output ($s.ID + '|' + $s.DeviceObject)"@
}

/// The PowerShell command line that runs `script`.
pub open spec fn powershell_spec(script: Seq<char>) -> Seq<Seq<char>> {
    seq!["powershell"@, "-NoProfile"@, "-NonInteractive"@, "-Command"@, script]
}

fn powershell(script: String) -> (r: Vec<String>)
    ensures
        texts_of(r@) == powershell_spec(script@),
{
    let mut r: Vec<String> = Vec::new();
    r.push(owned("powershell"));
    r.push(owned("-NoProfile"));
    r.push(owned("-NonInteractive"));
    r.push(owned("-Command"));
    r.push(script);
    assert(texts_of(r@) =~= powershell_spec(script@));
    r
}

/// The command line that snapshots `volume`: a PowerShell script on Windows;
/// `None` elsewhere, where there are no snapshots.
pub fn create_command(p: Platform, volume: &str) -> (r: Option<Vec<String>>)
    ensures
        p == Platform::Windows ==> r is Some && texts_of(r->0@) == powershell_spec(
            create_script_spec(trim_trailing_separators(volume@)),
        ),
        p != Platform::Windows ==> r is None,
{
    if p != Platform::Windows {
        return None;
    }
    let drive = drive_of(volume);
    let script = concat3(
        "$ErrorActionPreference='Stop';$r=([wmiclass]'Win32_ShadowCopy').Create('",
        drive.as_str(),
        "\\','ClientAccessible');$s=Get-WmiObject Win32_ShadowCopy | Where-Object { $_.ID -eq $r.ShadowID };Write-Output ($s.ID + '|' + $s.DeviceObject)",
    );
    Some(powershell(script))
}

/// What a finished command reported.
pub struct ScriptOutput {
    pub success: bool,
    pub stdout: String,
    pub stderr: String,
}

/// The position of the first `c` in `s` (the length of `s` when there is none).
pub open spec fn char_pos(s: Seq<char>, c: char) -> int
    decreases s.len(),
{
    if s.len() == 0 {
        0
    } else if s[0] == c {
        0
    } else {
        1 + char_pos(s.drop_first(), c)
    }
}

pub proof fn lemma_char_pos(s: Seq<char>, c: char, i: int)
    requires
        0 <= i <= s.len(),
        forall|j: int| 0 <= j < i ==> s[j] != c,
        i < s.len() ==> s[i] == c,
    ensures
        char_pos(s, c) == i,
    decreases i,
{
    if i > 0 {
        lemma_char_pos(s.drop_first(), c, i - 1);
    }
}

/// The snapshot id of a `ID|DEVICE` line (trimmed): the text before the first `|`.
pub open spec fn bar_id(line: Seq<char>) -> Seq<char> {
    let t = trim_spec(line);
    t.take(char_pos(t, '|'))
}

/// The snapshot device of a `ID|DEVICE` line (trimmed): the text after the
/// first `|`, empty when there is none.
pub open spec fn bar_device(line: Seq<char>) -> Seq<char> {
    let t = trim_spec(line);
    if char_pos(t, '|') < t.len() {
        t.skip(char_pos(t, '|') + 1)
    } else {
        Seq::empty()
    }
}

fn split_bar(line: &str) -> (r: (String, String))
    ensures
        r.0@ == bar_id(line@),
        r.1@ == bar_device(line@),
{
    let c = chars_of(line);
    let t = trim_chars(c.as_slice());
    let mut k: usize = 0;
    while k < t.len() && t[k] != '|'
        invariant
            k <= t@.len(),
            forall|j: int| 0 <= j < k ==> t@[j] != '|',
        decreases t@.len() - k,
    {
        k = k + 1;
    }
    proof {
        lemma_char_pos(t@, '|', k as int);
    }
    let mut id: Vec<char> = Vec::new();
    let mut i: usize = 0;
    while i < k
        invariant
            i <= k <= t@.len(),
            id@ == t@.take(i as int),
        decreases k - i,
    {
        id.push(t[i]);
        assert(t@.take(i + 1) == t@.take(i as int).push(t@[i as int]));
        i = i + 1;
    }
    let mut dev: Vec<char> = Vec::new();
    if k < t.len() {
        let mut j: usize = k + 1;
        while j < t.len()
            invariant
                k + 1 <= j <= t@.len(),
                dev@ == t@.subrange(k + 1, j as int),
            decreases t@.len() - j,
        {
            dev.push(t[j]);
            assert(t@.subrange(k + 1, j + 1) == t@.subrange(k + 1, j as int).push(t@[j as int]));
            j = j + 1;
        }
        assert(dev@ == t@.skip(k + 1));
    } else {
        assert(dev@ == Seq::<char>::empty());
    }
    (string_of(id.as_slice()), string_of(dev.as_slice()))
}

/// The snapshot that the script run on `volume` reported: on Windows, from
/// the first output line that holds a `|`, split at it into id and device.
/// The errors: not Windows; the script failed (the drive and its trimmed
/// error output are kept); no such line (the trimmed output is kept); an
/// empty id or device.
pub fn create(p: Platform, volume: &str, out: &ScriptOutput) -> (r: Result<Shadow, BackupError>)
    ensures
        p != Platform::Windows ==> r matches Err(BackupError::VssUnsupported),
        p == Platform::Windows && !out.success ==> (r matches Err(
            BackupError::VssFailed { volume: v, detail: d },
        ) && v@ == trim_trailing_separators(volume@) && d@ == trim_spec(out.stderr@)),
        p == Platform::Windows && out.success ==> match first_line_containing_spec(lines_spec(out.stdout@), "|"@) {
            None => (r matches Err(BackupError::VssUnexpectedOutput(t)) && t@ == trim_spec(
                out.stdout@,
            )),
            Some(l) => if bar_id(l).len() == 0 || bar_device(l).len() == 0 {
                r matches Err(BackupError::VssUnparsable)
            } else {
                (r matches Ok(s) && s.id@ == bar_id(l) && s.device@ == bar_device(l) && s.volume@
                    == trim_trailing_separators(volume@))
            },
        },
{
    if p != Platform::Windows {
        return Err(BackupError::VssUnsupported);
    }
    let drive = drive_of(volume);
    if !out.success {
        let e = chars_of(out.stderr.as_str());
        let detail = string_of(trim_chars(e.as_slice()).as_slice());
        return Err(BackupError::VssFailed { volume: drive, detail });
    }
    match first_line_containing(out.stdout.as_str(), "|") {
        None => {
            let o = chars_of(out.stdout.as_str());
            Err(BackupError::VssUnexpectedOutput(string_of(trim_chars(o.as_slice()).as_slice())))
        },
        Some(line) => {
            let (id, device) = split_bar(line.as_str());
            if id.as_str().unicode_len() == 0 || device.as_str().unicode_len() == 0 {
                Err(BackupError::VssUnparsable)
            } else {
                Ok(Shadow { id, device, volume: drive })
            }
        },
    }
}

/// The PowerShell script that deletes the snapshot `id`.
pub open spec fn remove_script_spec(id: Seq<char>) -> Seq<char> {
    "(Get-WmiObject Win32_ShadowCopy | Where-Object { $_.ID -eq '"@ + id + "' }).Delete()"@
}

/// The command line that deletes the snapshot `id`: a PowerShell script on
/// Windows; `None` elsewhere, where there is nothing to delete.
pub fn remove(p: Platform, id: &str) -> (r: Option<Vec<String>>)
    ensures
        p == Platform::Windows ==> r is Some && texts_of(r->0@) == powershell_spec(
            remove_script_spec(id@),
        ),
        p != Platform::Windows ==> r is None,
{
    if p != Platform::Windows {
        return None;
    }
    let script = concat3("(Get-WmiObject Win32_ShadowCopy | Where-Object { $_.ID -eq '", id, "' }).Delete()");
    Some(powershell(script))
}

} // verus!
