//! Running applications that commonly hold user files open, found in the
//! system's process list, so that a file-level backup can warn about them or
//! ask them to close first.
use vstd::prelude::*;

use crate::platform::Platform;
use crate::reset::pair_texts;
use crate::text::{
    concat2, contains_spec, contains_str, contains_text, owned, texts_of, to_lowercase, lowercased,
};

verus! {

/// The applications looked for: process token and friendly name. A token is
/// matched against the lower-cased process list, as `<token>.exe` on Windows
/// and as a substring elsewhere.
pub open spec fn blockers_spec() -> Seq<(Seq<char>, Seq<char>)> {
    seq![
        ("firefox"@, "Firefox"@),
        ("chrome"@, "Google Chrome"@),
        ("msedge"@, "Microsoft Edge"@),
        ("chromium"@, "Chromium"@),
        ("brave"@, "Brave"@),
        ("opera"@, "Opera"@),
        ("vivaldi"@, "Vivaldi"@),
        ("safari"@, "Safari"@),
        ("thunderbird"@, "Thunderbird"@),
        ("photoshop"@, "Photoshop"@),
        ("illustrator"@, "Illustrator"@),
        ("indesign"@, "InDesign"@),
        ("lightroom"@, "Lightroom"@),
        ("figma"@, "Figma"@),
        ("acrobat"@, "Acrobat"@),
        ("acrord32"@, "Acrobat Reader"@),
        ("winword"@, "Word"@),
        ("excel"@, "Excel"@),
        ("powerpnt"@, "PowerPoint"@),
        ("outlook"@, "Outlook"@),
        ("onenote"@, "OneNote"@),
        ("onedrive"@, "OneDrive"@),
        ("dropbox"@, "Dropbox"@),
        ("spotify"@, "Spotify"@),
    ]
}

/// The applications looked for (token, friendly name).
pub fn blockers() -> (r: Vec<(&'static str, &'static str)>)
    ensures
        pair_texts(r@) == blockers_spec(),
{
    let mut r: Vec<(&'static str, &'static str)> = Vec::new();
    r.push(("firefox", "Firefox"));
    r.push(("chrome", "Google Chrome"));
    r.push(("msedge", "Microsoft Edge"));
    r.push(("chromium", "Chromium"));
    r.push(("brave", "Brave"));
    r.push(("opera", "Opera"));
    r.push(("vivaldi", "Vivaldi"));
    r.push(("safari", "Safari"));
    r.push(("thunderbird", "Thunderbird"));
    r.push(("photoshop", "Photoshop"));
    r.push(("illustrator", "Illustrator"));
    r.push(("indesign", "InDesign"));
    r.push(("lightroom", "Lightroom"));
    r.push(("figma", "Figma"));
    r.push(("acrobat", "Acrobat"));
    r.push(("acrord32", "Acrobat Reader"));
    r.push(("winword", "Word"));
    r.push(("excel", "Excel"));
    r.push(("powerpnt", "PowerPoint"));
    r.push(("outlook", "Outlook"));
    r.push(("onenote", "OneNote"));
    r.push(("onedrive", "OneDrive"));
    r.push(("dropbox", "Dropbox"));
    r.push(("spotify", "Spotify"));
    assert(pair_texts(r@) =~= blockers_spec());
    r
}

/// Whether the process named by `token` is in the lower-cased process list.
pub open spec fn token_running_spec(p: Platform, list: Seq<char>, token: Seq<char>) -> bool {
    if p == Platform::Windows {
        contains_spec(list, token + ".exe"@)
    } else {
        contains_spec(list, token)
    }
}

/// Whether the process named by `token` is in the lower-cased process list
/// `list`.
pub fn token_running(p: Platform, list: &str, token: &str) -> (r: bool)
    ensures
        r == token_running_spec(p, list@, token@),
{
    if p == Platform::Windows {
        let needle = concat2(token, ".exe");
        contains_str(list, needle.as_str())
    } else {
        contains_str(list, token)
    }
}

/// The friendly names of the first `n` entries of `entries` whose token runs,
/// each name once, in the order of the entries.
pub open spec fn running_names(
    p: Platform,
    list: Seq<char>,
    entries: Seq<(Seq<char>, Seq<char>)>,
) -> Seq<Seq<char>>
    decreases entries.len(),
{
    if entries.len() == 0 {
        Seq::empty()
    } else {
        let prev = running_names(p, list, entries.drop_last());
        let e = entries.last();
        if token_running_spec(p, list, e.0) && !prev.contains(e.1) {
            prev.push(e.1)
        } else {
            prev
        }
    }
}

/// The blockers whose token runs in the lower-cased process list `list`
/// (names, each once); the tokens in the same order, each running entry once.
fn running_entries(p: Platform, list: &str) -> (r: (Vec<String>, Vec<String>))
    ensures
        texts_of(r.0@) == running_names(p, list@, blockers_spec()),
        texts_of(r.1@) == running_tokens(p, list@, blockers_spec()),
{
    let b = blockers();
    let mut names: Vec<String> = Vec::new();
    let mut tokens: Vec<String> = Vec::new();
    let mut i: usize = 0;
    while i < b.len()
        invariant
            i <= b@.len(),
            pair_texts(b@) == blockers_spec(),
            texts_of(names@) == running_names(p, list@, blockers_spec().take(i as int)),
            texts_of(tokens@) == running_tokens(p, list@, blockers_spec().take(i as int)),
        decreases b@.len() - i,
    {
        let (tok, name) = b[i];
        proof {
            assert(blockers_spec().take(i + 1).drop_last() =~= blockers_spec().take(i as int));
            assert(blockers_spec()[i as int] == (tok@, name@));
        }
        if token_running(p, list, tok) {
            tokens.push(owned(tok));
            if !contains_text(names.as_slice(), name) {
                names.push(owned(name));
            }
        }
        proof {
            assert(texts_of(names@) =~= running_names(p, list@, blockers_spec().take(i + 1)));
            assert(texts_of(tokens@) =~= running_tokens(p, list@, blockers_spec().take(i + 1)));
        }
        i = i + 1;
    }
    proof {
        assert(blockers_spec().take(b@.len() as int) =~= blockers_spec());
    }
    (names, tokens)
}

/// The tokens of the first entries of `entries` that run, in order.
pub open spec fn running_tokens(
    p: Platform,
    list: Seq<char>,
    entries: Seq<(Seq<char>, Seq<char>)>,
) -> Seq<Seq<char>>
    decreases entries.len(),
{
    if entries.len() == 0 {
        Seq::empty()
    } else {
        let prev = running_tokens(p, list, entries.drop_last());
        let e = entries.last();
        if token_running_spec(p, list, e.0) {
            prev.push(e.0)
        } else {
            prev
        }
    }
}

/// No friendly name is reported twice.
pub proof fn lemma_running_names_distinct(p: Platform, list: Seq<char>, entries: Seq<(Seq<char>, Seq<char>)>)
    ensures
        running_names(p, list, entries).no_duplicates(),
    decreases entries.len(),
{
    if entries.len() > 0 {
        let prev = running_names(p, list, entries.drop_last());
        lemma_running_names_distinct(p, list, entries.drop_last());
        let e = entries.last();
        if token_running_spec(p, list, e.0) && !prev.contains(e.1) {
            let r = prev.push(e.1);
            assert forall|i: int, j: int| 0 <= i < r.len() && 0 <= j < r.len() && i != j implies r[i] != r[j] by {
                if i < prev.len() && j < prev.len() {
                } else if i == prev.len() {
                    assert(r[j] == prev[j]);
                } else {
                    assert(r[i] == prev[i]);
                }
            }
        }
    }
}

/// Friendly names of the running applications likely to lock files, each
/// once, given the process list the system reports (matched lower-cased).
pub fn running_blockers(p: Platform, process_list: &str) -> (r: Vec<String>)
    ensures
        texts_of(r@) == running_names(p, lowercased(process_list@), blockers_spec()),
        texts_of(r@).no_duplicates(),
{
    let low = to_lowercase(process_list);
    let (names, _tokens) = running_entries(p, low.as_str());
    proof {
        lemma_running_names_distinct(p, low@, blockers_spec());
    }
    names
}

/// The command that asks the application `token` to close gracefully (so it
/// can prompt to save): `taskkill /IM <token>.exe` on Windows, `pkill -i
/// <token>` elsewhere.
pub open spec fn close_command_spec(p: Platform, token: Seq<char>) -> Seq<Seq<char>> {
    if p == Platform::Windows {
        seq!["taskkill"@, "/IM"@, token + ".exe"@]
    } else {
        seq!["pkill"@, "-i"@, token]
    }
}

fn close_command(p: Platform, token: &str) -> (r: Vec<String>)
    ensures
        texts_of(r@) == close_command_spec(p, token@),
{
    let mut r: Vec<String> = Vec::new();
    if p == Platform::Windows {
        r.push(owned("taskkill"));
        r.push(owned("/IM"));
        r.push(concat2(token, ".exe"));
    } else {
        r.push(owned("pkill"));
        r.push(owned("-i"));
        r.push(owned(token));
    }
    assert(texts_of(r@) =~= close_command_spec(p, token@));
    r
}

/// What closing the running blockers takes: one close command per running
/// entry, and the friendly names signalled, each once.
pub struct ClosePlan {
    pub commands: Vec<Vec<String>>,
    pub names: Vec<String>,
}

/// The close commands and names for the process list the system reports
/// (matched lower-cased).
pub fn close_plan(p: Platform, process_list: &str) -> (r: ClosePlan)
    ensures
        texts_of(r.names@) == running_names(p, lowercased(process_list@), blockers_spec()),
        texts_of(r.names@).no_duplicates(),
        r.commands@.len() == running_tokens(p, lowercased(process_list@), blockers_spec()).len(),
        forall|i: int|
            0 <= i < r.commands@.len() ==> texts_of(#[trigger] r.commands@[i]@) == close_command_spec(
                p,
                running_tokens(p, lowercased(process_list@), blockers_spec())[i],
            ),
{
    let low = to_lowercase(process_list);
    let (names, tokens) = running_entries(p, low.as_str());
    proof {
        lemma_running_names_distinct(p, low@, blockers_spec());
    }
    let mut commands: Vec<Vec<String>> = Vec::new();
    let mut i: usize = 0;
    while i < tokens.len()
        invariant
            i <= tokens@.len(),
            commands@.len() == i,
            forall|j: int|
                0 <= j < i ==> texts_of(#[trigger] commands@[j]@) == close_command_spec(
                    p,
                    tokens@[j]@,
                ),
        decreases tokens@.len() - i,
    {
        commands.push(close_command(p, tokens[i].as_str()));
        i = i + 1;
    }
    proof {
        assert forall|j: int| 0 <= j < commands@.len() implies texts_of(#[trigger] commands@[j]@)
            == close_command_spec(p, running_tokens(p, low@, blockers_spec())[j]) by {
            assert(texts_of(tokens@)[j] == tokens@[j]@);
        }
    }
    ClosePlan { commands, names }
}

} // verus!
