//! Where the build system keeps the artifacts of an application.
//!
//! The artifacts of all applications stand in one base directory, one
//! directory per build of an application, named by the application's name,
//! a hyphen and a hash.

use crate::errors::AcknowledgementsError;
use crate::text::{chars_of, starts_with, string_of_range, trim, trim_bounds};
use vstd::prelude::*;

verus! {

/// `base` with `child` below it: the two joined by a slash, unless `base`
/// is empty or ends in one.
pub open spec fn join_path(base: Seq<char>, child: Seq<char>) -> Seq<char> {
    if base.len() == 0 || base.last() == '/' {
        base + child
    } else {
        base + seq!['/'] + child
    }
}

/// The path of `child` below `base`.
pub fn joined_path(base: &str, child: &str) -> (out: String)
    ensures
        out@ == join_path(base@, child@),
{
    let chars = chars_of(base);
    let n = chars.len();
    let out = String::from_str(base);
    if n == 0 || chars[n - 1] == '/' {
        out.concat(child)
    } else {
        proof {
            reveal_strlit("/");
        }
        out.concat("/").concat(child)
    }
}

/// The place that the user configured for the artifacts, as the
/// preference store printed it: the output without the white space around
/// it, unless nothing was printed or nothing is left.
pub open spec fn configured_base(preference_output: Option<Seq<char>>) -> Option<Seq<char>> {
    match preference_output {
        Some(text) => if trim(text).len() == 0 {
            None
        } else {
            Some(trim(text))
        },
        None => None,
    }
}

/// The base directory that the user configured, from what the preference
/// store printed, if it could be asked.
pub fn get_user_configured_derived_data_base(preference_output: Option<&str>) -> (out: Option<
    String,
>)
    ensures
        match out {
            Some(path) => configured_base(
                match preference_output {
                    Some(text) => Some(text@),
                    None => None,
                },
            ) == Some(path@),
            None => configured_base(
                match preference_output {
                    Some(text) => Some(text@),
                    None => None,
                },
            ) is None,
        },
{
    let text = match preference_output {
        None => return None,
        Some(text) => text,
    };
    let chars = chars_of(text);
    assert(chars@.subrange(0, chars@.len() as int) =~= chars@);
    let (a, b) = trim_bounds(&chars, 0, chars.len());
    if a == b {
        return None;
    }
    Some(string_of_range(&chars, a, b))
}

/// The default base directory below the home directory.
pub open spec fn default_base(home: Seq<char>) -> Seq<char> {
    join_path(home, "Library/Developer/Xcode/DerivedData"@)
}

/// The default base directory, given the home directory where it is
/// known.
pub fn get_default_derived_data_base(home: Option<&str>) -> (out: Result<
    String,
    AcknowledgementsError,
>)
    ensures
        match out {
            Ok(path) => home is Some && path@ == default_base(home->0@),
            Err(e) => home is None && e is HomeDirectoryUnavailable,
        },
{
    match home {
        Some(home) => Ok(joined_path(home, "Library/Developer/Xcode/DerivedData")),
        None => Err(AcknowledgementsError::HomeDirectoryUnavailable),
    }
}

/// The base directory of the artifacts: the configured one where there is
/// one, else the default below the home directory.
pub fn get_xcode_derived_data_base(preference_output: Option<&str>, home: Option<&str>) -> (out:
    Result<String, AcknowledgementsError>)
    ensures
        match configured_base(
            match preference_output {
                Some(text) => Some(text@),
                None => None,
            },
        ) {
            Some(path) => out is Ok && out->Ok_0@ == path,
            None => match out {
                Ok(path) => home is Some && path@ == default_base(home->0@),
                Err(e) => home is None && e is HomeDirectoryUnavailable,
            },
        },
{
    if let Some(configured) = get_user_configured_derived_data_base(preference_output) {
        return Ok(configured);
    }
    get_default_derived_data_base(home)
}

/// What the base directory holds under one name: whether it is a
/// directory, and when it was last modified, in nanoseconds since the
/// epoch, where that could be read.
#[derive(Debug, Clone)]
pub struct DirectoryEntry {
    pub name: String,
    pub is_dir: bool,
    pub modified: Option<i128>,
}

impl DirectoryEntry {
    /// When the entry was last modified; the epoch where that is not known.
    pub open spec fn modified_or_epoch(self) -> int {
        match self.modified {
            Some(t) => t as int,
            None => 0,
        }
    }

    /// Whether the entry holds artifacts of the application `app_name`: it
    /// is a directory named by the application's name, a hyphen, and more.
    pub open spec fn is_candidate(self, app_name: Seq<char>) -> bool {
        self.is_dir && (app_name + seq!['-']).is_prefix_of(self.name@)
    }
}

/// Whether the entry at `i` is the one to take: a candidate that was
/// modified no earlier than any other, and the first of those modified
/// that late.
pub open spec fn is_latest(app_name: Seq<char>, entries: Seq<DirectoryEntry>, i: int) -> bool {
    &&& 0 <= i < entries.len()
    &&& entries[i].is_candidate(app_name)
    &&& forall|j: int|
        0 <= j < entries.len() && (#[trigger] entries[j]).is_candidate(app_name) ==> {
            &&& entries[j].modified_or_epoch() <= entries[i].modified_or_epoch()
            &&& j < i ==> entries[j].modified_or_epoch() < entries[i].modified_or_epoch()
        }
}

/// Finds the entry that holds the latest artifacts of the application.
pub fn latest_candidate(app_name: &str, entries: &Vec<DirectoryEntry>) -> (out: Option<usize>)
    ensures
        match out {
            Some(i) => is_latest(app_name@, entries@, i as int),
            None => forall|j: int|
                0 <= j < entries.len() ==> !(#[trigger] entries@[j]).is_candidate(app_name@),
        },
{
    let mut prefix = chars_of(app_name);
    prefix.push('-');
    let mut best: Option<usize> = None;
    let mut best_time: i128 = 0;
    let mut i: usize = 0;
    while i < entries.len()
        invariant
            i <= entries.len(),
            prefix@ == app_name@ + seq!['-'],
            match best {
                Some(b) => b < i && is_latest(app_name@, entries@.take(i as int), b as int)
                    && best_time == entries@[b as int].modified_or_epoch(),
                None => forall|j: int|
                    0 <= j < i ==> !(#[trigger] entries@[j]).is_candidate(app_name@),
            },
        decreases entries.len() - i,
    {
        let entry = &entries[i];
        let name = chars_of(entry.name.as_str());
        let candidate = entry.is_dir && starts_with(&name, &prefix);
        let time: i128 = match entry.modified {
            Some(t) => t,
            None => 0,
        };
        let better = candidate && match best {
            Some(_) => time > best_time,
            None => true,
        };
        if better {
            best = Some(i);
            best_time = time;
        }
        i += 1;
    }
    assert(entries@.take(entries.len() as int) =~= entries@);
    best
}

/// The directory with the latest artifacts of the application `app_name`
/// among the entries of the base directory `base`.
pub fn find_derived_data_for_app(base: &str, app_name: &str, entries: &Vec<DirectoryEntry>) -> (out:
    Result<String, AcknowledgementsError>)
    ensures
        match out {
            Ok(path) => exists|i: int|
                is_latest(app_name@, entries@, i) && path@ == join_path(
                    base@,
                    (#[trigger] entries@[i]).name@,
                ),
            Err(e) => e is NoArtifactsFound && forall|j: int|
                0 <= j < entries.len() ==> !(#[trigger] entries@[j]).is_candidate(app_name@),
        },
{
    match latest_candidate(app_name, entries) {
        Some(i) => Ok(joined_path(base, entries[i].name.as_str())),
        None => Err(AcknowledgementsError::NoArtifactsFound),
    }
}

} // verus!
