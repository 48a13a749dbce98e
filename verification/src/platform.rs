use vstd::prelude::*;

use crate::text::str_eq;

verus! {

/// The operating system that platform-dependent decisions are made for.
#[derive(Clone, Copy, PartialEq, Eq, Structural, Debug)]
pub enum Platform {
    Linux,
    MacOs,
    Windows,
    Other,
}

impl Platform {
    /// The platform named by Rust's target OS name (`"linux"`, `"macos"`,
    /// `"windows"`); any other name is `Other`.
    pub fn from_os_name(name: &str) -> (p: Platform)
        ensures
            p == (if name@ == "linux"@ {
                Platform::Linux
            } else if name@ == "macos"@ {
                Platform::MacOs
            } else if name@ == "windows"@ {
                Platform::Windows
            } else {
                Platform::Other
            }),
    {
        if str_eq(name, "linux") {
            Platform::Linux
        } else if str_eq(name, "macos") {
            Platform::MacOs
        } else if str_eq(name, "windows") {
            Platform::Windows
        } else {
            Platform::Other
        }
    }

    /// Whether the platform is a Unix (Linux or macOS).
    pub fn is_unix(&self) -> (r: bool)
        ensures
            r == (*self == Platform::Linux || *self == Platform::MacOs),
    {
        match self {
            Platform::Linux | Platform::MacOs => true,
            _ => false,
        }
    }
}

} // verus!

verus! {

/// The path separator a platform writes.
pub open spec fn separator(p: Platform) -> char {
    if p == Platform::Windows {
        '\\'
    } else {
        '/'
    }
}

/// Whether `c` separates path components on a platform.
pub open spec fn is_separator(p: Platform, c: char) -> bool {
    c == '/' || (p == Platform::Windows && c == '\\')
}

/// `dir` joined with a relative `name`, as `Path::join` forms it: a separator
/// is put between them unless `dir` is empty or already ends with one.
pub open spec fn path_join_spec(p: Platform, dir: Seq<char>, name: Seq<char>) -> Seq<char> {
    if dir.len() == 0 || is_separator(p, dir.last()) {
        dir + name
    } else {
        dir + seq![separator(p)] + name
    }
}

/// Joins a directory and a relative name with the platform's separator.
pub fn path_join(p: Platform, dir: &str, name: &str) -> (r: String)
    ensures
        r@ == path_join_spec(p, dir@, name@),
{
    let d = crate::text::chars_of(dir);
    let mut r = dir.to_owned();
    if d.len() == 0 || d[d.len() - 1] == '/' || (p == Platform::Windows && d[d.len() - 1] == '\\') {
        r.append(name);
    } else {
        if p == Platform::Windows {
            crate::text::push_char(&mut r, '\\');
        } else {
            crate::text::push_char(&mut r, '/');
        }
        r.append(name);
    }
    r
}

} // verus!
