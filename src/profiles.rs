//! Choice of Firefox's default profile from the sections of its
//! `profiles.ini` file.
use crate::text::{starts_with, str_eq, str_starts_with};
use vstd::prelude::*;
use vstd::string::*;

verus! {

/// One section of an INI file: its name and its `key=value` entries, in file
/// order.
pub struct IniSection {
    pub name: String,
    pub entries: Vec<(String, String)>,
}

/// The value of the first entry of `entries[from..]` with key `key`.
pub open spec fn lookup_from(entries: Seq<(String, String)>, key: Seq<char>, from: int) -> Option<Seq<char>>
    decreases entries.len() - from,
{
    if from < 0 || from >= entries.len() {
        None
    } else if entries[from].0@ == key {
        Some(entries[from].1@)
    } else {
        lookup_from(entries, key, from + 1)
    }
}

pub open spec fn lookup(entries: Seq<(String, String)>, key: Seq<char>) -> Option<Seq<char>> {
    lookup_from(entries, key, 0)
}

/// Whether a section records an installation's default profile.
pub open spec fn is_install_section(s: IniSection) -> bool {
    starts_with(s.name@, "Install"@)
}

/// Whether a section is a profile marked `Default=1`.
pub open spec fn is_default_profile_section(s: IniSection) -> bool {
    starts_with(s.name@, "Profile"@) && lookup(s.entries@, "Default"@) == Some("1"@)
}

/// Index of the first section of `secs[from..]` that records an
/// installation, or -1.
pub open spec fn first_install_from(secs: Seq<IniSection>, from: int) -> int
    decreases secs.len() - from,
{
    if from < 0 || from >= secs.len() {
        -1
    } else if is_install_section(secs[from]) {
        from
    } else {
        first_install_from(secs, from + 1)
    }
}

/// Index of the first section of `secs[from..]` that is a default profile,
/// or -1.
pub open spec fn first_default_profile_from(secs: Seq<IniSection>, from: int) -> int
    decreases secs.len() - from,
{
    if from < 0 || from >= secs.len() {
        -1
    } else if is_default_profile_section(secs[from]) {
        from
    } else {
        first_default_profile_from(secs, from + 1)
    }
}

/// The path of the default profile: the `Default` entry of the first
/// `Install...` section, or, where there is none, the `Path` entry of the
/// first `Profile...` section with `Default=1`.
pub open spec fn default_profile_path_of(secs: Seq<IniSection>) -> Option<Seq<char>> {
    let i = first_install_from(secs, 0);
    if i >= 0 {
        lookup(secs[i].entries@, "Default"@)
    } else {
        let j = first_default_profile_from(secs, 0);
        if j >= 0 {
            lookup(secs[j].entries@, "Path"@)
        } else {
            None
        }
    }
}

/// The value of the first entry with key `key`.
pub fn lookup_entry(entries: &Vec<(String, String)>, key: &str) -> (r: Option<String>)
    ensures
        match r {
            Some(v) => lookup(entries@, key@) == Some(v@),
            None => lookup(entries@, key@) is None,
        },
{
    let mut i: usize = 0;
    while i < entries.len()
        invariant
            i <= entries@.len(),
            lookup_from(entries@, key@, i as int) == lookup(entries@, key@),
        decreases entries.len() - i,
    {
        if str_eq(entries[i].0.as_str(), key) {
            return Some(entries[i].1.as_str().to_owned());
        }
        i = i + 1;
    }
    None
}

/// Choose the default profile's path from the sections of `profiles.ini`.
pub fn default_profile_path(sections: &Vec<IniSection>) -> (r: Option<String>)
    ensures
        match r {
            Some(v) => default_profile_path_of(sections@) == Some(v@),
            None => default_profile_path_of(sections@) is None,
        },
{
    let mut i: usize = 0;
    while i < sections.len()
        invariant
            i <= sections@.len(),
            first_install_from(sections@, i as int) == first_install_from(sections@, 0),
        decreases sections.len() - i,
    {
        if str_starts_with(sections[i].name.as_str(), "Install") {
            return lookup_entry(&sections[i].entries, "Default");
        }
        i = i + 1;
    }
    let mut j: usize = 0;
    while j < sections.len()
        invariant
            j <= sections@.len(),
            first_install_from(sections@, 0) == -1,
            first_default_profile_from(sections@, j as int) == first_default_profile_from(sections@, 0),
        decreases sections.len() - j,
    {
        if str_starts_with(sections[j].name.as_str(), "Profile") {
            let flag = lookup_entry(&sections[j].entries, "Default");
            let is_default = match &flag {
                Some(v) => str_eq(v.as_str(), "1"),
                None => false,
            };
            if is_default {
                return lookup_entry(&sections[j].entries, "Path");
            }
        }
        j = j + 1;
    }
    None
}

} // verus!
