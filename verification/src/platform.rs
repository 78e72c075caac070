//! What differs from one operating system to the next.

use vstd::prelude::*;
use vstd::string::StringExecFns;
use crate::text::{same_text, to_chars, to_lower};

verus! {

/// The families of operating systems that the search tells apart.
#[derive(Debug, Clone, Copy, PartialEq, Eq, Structural)]
pub enum OsFamily {
    Linux,
    MacOs,
    FreeBsd,
    Windows,
    Other,
}

/// Platform-specific choices.
#[derive(Debug, Clone, Copy)]
pub struct Platform {
    pub os: OsFamily,
}

/// The root directory of a family: `/` on the Unix-like ones, `C:\` on
/// Windows, the current directory elsewhere.
pub open spec fn root_of(os: OsFamily) -> Seq<char> {
    match os {
        OsFamily::Windows => "C:\\"@,
        OsFamily::Other => "."@,
        _ => "/"@,
    }
}

/// Whether `path` names the root directory of a family.
pub open spec fn names_root(os: OsFamily, path: Seq<char>) -> bool {
    match os {
        OsFamily::Windows => crate::text::lower_seq(path) == "c:\\"@ || path == "\\"@,
        OsFamily::Other => false,
        _ => path == "/"@,
    }
}

/// The directories that are worth searching on a family.
pub open spec fn common_paths_of(os: OsFamily) -> Seq<Seq<char>> {
    match os {
        OsFamily::Linux => seq!["/etc"@, "/usr"@, "/var"@, "/home"@, "/opt"@],
        OsFamily::MacOs => seq![
            "/Applications"@,
            "/Library"@,
            "/System"@,
            "/Users"@,
            "/usr"@,
            "/etc"@,
        ],
        OsFamily::Windows => seq![
            "C:\\Program Files"@,
            "C:\\Program Files (x86)"@,
            "C:\\Users"@,
            "C:\\Windows"@,
        ],
        _ => seq!["."@],
    }
}

impl Platform {
    pub fn new(os: OsFamily) -> (p: Platform)
        ensures
            p.os == os,
    {
        Platform { os }
    }

    /// The root directory of the platform.
    pub fn root_directory(&self) -> (path: String)
        ensures
            path@ == root_of(self.os),
    {
        match self.os {
            OsFamily::Windows => String::from_str("C:\\"),
            OsFamily::Other => String::from_str("."),
            _ => String::from_str("/"),
        }
    }

    /// Whether `path` is the root directory of the platform.
    pub fn is_root_path(&self, path: &str) -> (r: bool)
        ensures
            r == names_root(self.os, path@),
    {
        let given = to_chars(path);
        match self.os {
            OsFamily::Windows => {
                let drive = to_chars("c:\\");
                let bare = to_chars("\\");
                same_text(&to_lower(&given), &drive) || same_text(&given, &bare)
            },
            OsFamily::Other => false,
            _ => {
                let root = to_chars("/");
                same_text(&given, &root)
            },
        }
    }

    /// The directories that are worth searching on the platform.
    pub fn common_search_paths(&self) -> (paths: Vec<String>)
        ensures
            crate::text::texts(paths@) == common_paths_of(self.os),
    {
        let mut paths: Vec<String> = Vec::new();
        match self.os {
            OsFamily::Linux => {
                paths.push(String::from_str("/etc"));
                paths.push(String::from_str("/usr"));
                paths.push(String::from_str("/var"));
                paths.push(String::from_str("/home"));
                paths.push(String::from_str("/opt"));
            },
            OsFamily::MacOs => {
                paths.push(String::from_str("/Applications"));
                paths.push(String::from_str("/Library"));
                paths.push(String::from_str("/System"));
                paths.push(String::from_str("/Users"));
                paths.push(String::from_str("/usr"));
                paths.push(String::from_str("/etc"));
            },
            OsFamily::Windows => {
                paths.push(String::from_str("C:\\Program Files"));
                paths.push(String::from_str("C:\\Program Files (x86)"));
                paths.push(String::from_str("C:\\Users"));
                paths.push(String::from_str("C:\\Windows"));
            },
            _ => {
                paths.push(String::from_str("."));
            },
        }
        assert(crate::text::texts(paths@) =~= common_paths_of(self.os));
        paths
    }
}

} // verus!
