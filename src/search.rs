//! The decisions around the search: which directories to look in, what a
//! failed look-up means, which flag to try next on a candidate, and which
//! candidates take part in the ranking.
use vstd::prelude::*;
use vstd::string::StrSliceExecFns;
use vstd::string::StringExecFns;
use crate::extract::{extract_version, extracted};
use crate::rank::{find_latest_version, leader_index, versions_of};
use crate::{ExecutableInfo, LatestVersionError};

verus! {

/// A segment, unless it is empty.
pub open spec fn keep_segment(seg: Seq<char>) -> Seq<Seq<char>> {
    if seg.len() == 0 {
        Seq::empty()
    } else {
        seq![seg]
    }
}

/// The non-empty segments of `s` between separators, scanning from `i`
/// within a segment that began at `start`.
pub open spec fn segments_from(s: Seq<char>, sep: char, start: int, i: int) -> Seq<Seq<char>>
    decreases s.len() - i,
{
    if i >= s.len() {
        keep_segment(s.subrange(start, s.len() as int))
    } else if s[i] == sep {
        keep_segment(s.subrange(start, i)) + segments_from(s, sep, i + 1, i + 1)
    } else {
        segments_from(s, sep, start, i + 1)
    }
}

/// The directories that a search-path value lists, in order.
pub open spec fn search_dirs_of(s: Seq<char>, sep: char) -> Seq<Seq<char>> {
    segments_from(s, sep, 0, 0)
}

pub open spec fn views_of(v: Seq<String>) -> Seq<Seq<char>> {
    v.map_values(|x: String| x@)
}

/// Splits a search-path value on `separator`, skipping empty segments.
pub fn search_dirs(path_var: &str, separator: char) -> (r: Vec<String>)
    ensures
        views_of(r@) == search_dirs_of(path_var@, separator),
{
    let n = path_var.unicode_len();
    let mut dirs: Vec<String> = Vec::new();
    let mut start: usize = 0;
    let mut i: usize = 0;
    while i < n
        invariant
            n == path_var@.len(),
            start <= i <= n,
            views_of(dirs@) + segments_from(path_var@, separator, start as int, i as int)
                == search_dirs_of(path_var@, separator),
        decreases n - i,
    {
        let ghost d0 = views_of(dirs@);
        let ghost seg = path_var@.subrange(start as int, i as int);
        if path_var.get_char(i) == separator {
            if start < i {
                dirs.push(String::from_str(path_var.substring_char(start, i)));
                assert(views_of(dirs@) =~= d0 + keep_segment(seg));
            } else {
                assert(views_of(dirs@) =~= d0 + keep_segment(seg));
            }
            assert(d0 + (keep_segment(seg) + segments_from(
                path_var@,
                separator,
                i + 1,
                i + 1,
            )) =~= views_of(dirs@) + segments_from(path_var@, separator, i + 1, i + 1));
            start = i + 1;
        }
        i = i + 1;
    }
    let ghost d0 = views_of(dirs@);
    if start < n {
        dirs.push(String::from_str(path_var.substring_char(start, n)));
        assert(views_of(dirs@) =~= d0 + keep_segment(path_var@.subrange(start as int, n as int)));
    } else {
        assert(views_of(dirs@) =~= d0 + keep_segment(path_var@.subrange(start as int, n as int)));
    }
    dirs
}

/// The candidates of a search: those found in the listed directories, else
/// the one that the system's own resolution found, else none at all.
pub fn executables_or_fallback(command: &str, found: Vec<String>, fallback: Option<String>) -> (r:
    Result<Vec<String>, LatestVersionError>)
    ensures
        found@.len() > 0 ==> r == Ok::<Vec<String>, LatestVersionError>(found),
        found@.len() == 0 ==> match fallback {
            Some(p) => r matches Ok(v) && v@ == seq![p],
            None => r matches Err(e) && e matches LatestVersionError::CommandNotFound(c) && c@
                == command@,
        },
{
    if found.len() > 0 {
        return Ok(found);
    }
    match fallback {
        Some(p) => {
            let mut v: Vec<String> = Vec::new();
            v.push(p);
            assert(v@ =~= seq![p]);
            Ok(v)
        },
        None => Err(LatestVersionError::CommandNotFound(String::from_str(command))),
    }
}

/// How many flags a candidate is probed with.
pub const PROBE_ATTEMPTS: usize = 4;

/// The flag of each attempt: `--version`, then `-v`, `-V`, `version`.
pub open spec fn flag_of(attempt: int) -> Seq<char> {
    if attempt == 0 {
        "--version"@
    } else if attempt == 1 {
        "-v"@
    } else if attempt == 2 {
        "-V"@
    } else {
        "version"@
    }
}

/// The flag that attempt `attempt` runs a candidate with.
pub fn version_flag(attempt: usize) -> (r: &'static str)
    requires
        attempt < PROBE_ATTEMPTS,
    ensures
        r@ == flag_of(attempt as int),
{
    if attempt == 0 {
        "--version"
    } else if attempt == 1 {
        "-v"
    } else if attempt == 2 {
        "-V"
    } else {
        "version"
    }
}

/// What follows one run of a candidate.
pub enum ProbeStep {
    /// A version was read: the candidate is done.
    Found(ExecutableInfo),
    /// Run the candidate again, with the flag of this attempt.
    Retry(usize),
    /// The candidate is dropped, for this reason.
    GiveUp(LatestVersionError),
}

/// Decides what follows attempt `attempt` on the executable at `path`:
/// `run` holds what the run printed (standard output, then standard error),
/// or why it could not be started.
///
/// Text with a version ends the probe. A candidate that cannot be started on
/// its first attempt is given up with an execution error; any other miss
/// moves to the next flag, and after the last one the probe gives up with an
/// extraction error.
pub fn next_probe(path: &str, attempt: usize, run: Result<String, String>) -> (r: ProbeStep)
    requires
        attempt < PROBE_ATTEMPTS,
    ensures
        match run {
            Ok(text) if extracted(text@) is Some => r matches ProbeStep::Found(info) && info.path@
                == path@ && info.version@ == extracted(text@)->0,
            Err(why) if attempt == 0 => r matches ProbeStep::GiveUp(e)
                && e matches LatestVersionError::CommandExecutionError(p, w) && p@ == path@ && w@
                == why@,
            _ => if attempt + 1 < PROBE_ATTEMPTS {
                r == ProbeStep::Retry((attempt + 1) as usize)
            } else {
                r matches ProbeStep::GiveUp(e) && e matches LatestVersionError::VersionExtractionError(
                    d,
                ) && d@ == "No version information found"@
            },
        },
{
    match run {
        Ok(text) => {
            if let Some(v) = extract_version(text.as_str()) {
                return ProbeStep::Found(ExecutableInfo { path: String::from_str(path), version: v });
            }
        },
        Err(why) => {
            if attempt == 0 {
                return ProbeStep::GiveUp(
                    LatestVersionError::CommandExecutionError(String::from_str(path), why),
                );
            }
        },
    }
    if attempt + 1 < PROBE_ATTEMPTS {
        ProbeStep::Retry(attempt + 1)
    } else {
        ProbeStep::GiveUp(
            LatestVersionError::VersionExtractionError(
                String::from_str("No version information found"),
            ),
        )
    }
}

/// The candidates whose probe read a version, in order.
pub open spec fn probed_infos(probed: Seq<Option<ExecutableInfo>>) -> Seq<ExecutableInfo>
    decreases probed.len(),
{
    if probed.len() == 0 {
        Seq::empty()
    } else {
        probed_infos(probed.drop_last()) + match probed.last() {
            Some(info) => seq![info],
            None => Seq::empty(),
        }
    }
}

/// Picks the newest of the probed candidates of `command`; `probed` holds,
/// for each candidate in search order, what its probe read, if anything.
/// Candidates without a version are passed over; with none left the search
/// fails with an extraction error that names the command.
pub fn find_latest_command(command: &str, probed: Vec<Option<ExecutableInfo>>) -> (r: Result<
    ExecutableInfo,
    LatestVersionError,
>)
    ensures
        probed_infos(probed@).len() == 0 ==> (r matches Err(e)
            && e matches LatestVersionError::VersionExtractionError(d) && d@
            == "No version information found for command '"@ + command@ + "'"@),
        probed_infos(probed@).len() > 0 ==> r == Ok::<ExecutableInfo, LatestVersionError>(
            probed_infos(probed@)[leader_index(
                versions_of(probed_infos(probed@)),
                probed_infos(probed@).len() as int,
            )],
        ),
{
    let mut info_list: Vec<ExecutableInfo> = Vec::new();
    let mut i: usize = 0;
    while i < probed.len()
        invariant
            i <= probed.len(),
            info_list@ == probed_infos(probed@.subrange(0, i as int)),
        decreases probed.len() - i,
    {
        assert(probed@.subrange(0, i + 1).drop_last() =~= probed@.subrange(0, i as int));
        match &probed[i] {
            Some(info) => {
                info_list.push(
                    ExecutableInfo { path: info.path.clone(), version: info.version.clone() },
                );
            },
            None => {},
        }
        i = i + 1;
    }
    assert(probed@.subrange(0, probed@.len() as int) =~= probed@);
    if info_list.len() == 0 {
        let mut d = String::from_str("No version information found for command '");
        d.append(command);
        d.append("'");
        return Err(LatestVersionError::VersionExtractionError(d));
    }
    find_latest_version(info_list)
}

} // verus!
