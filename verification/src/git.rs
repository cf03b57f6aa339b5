//! Source-control helpers: deriving the clone directory from a repository
//! URL, and interpreting a clone's exit status.

use vstd::prelude::*;

verus! {

use vstd::string::StrSliceExecFns;
use vstd::string::StringExecFns;
use crate::hub_api::Error;
use crate::text::{str_seqs, str_eq};

/// The slash-separated path segments of a URL string, or `None` when the
/// string does not parse as an absolute URL whose path has segments.
pub uninterp spec fn url_segments_of(s: Seq<char>) -> Option<Seq<Seq<char>>>;

/// Relies on `url::Url::parse` and `url::Url::path_segments`: for a given
/// URL string both depend on the characters alone; `path_segments` is `None`
/// exactly when the parsed URL cannot be a base, and otherwise yields the
/// slash-separated segments of the path.
#[verifier::external_body]
fn url_path_segments(repo: &str) -> (r: Option<Vec<String>>)
    ensures
        (r matches Some(v) ==> url_segments_of(repo@) == Some(str_seqs(v@))),
        (r is None ==> url_segments_of(repo@) is None),
{
    match url::Url::parse(repo) {
        Ok(u) => u.path_segments().map(|segs| segs.map(|s| s.to_owned()).collect()),
        Err(_) => None,
    }
}

/// `s` without a trailing `.git`, when it has one.
pub open spec fn strip_git_suffix(s: Seq<char>) -> Seq<char> {
    if s.len() >= 4 && s.subrange(s.len() - 4, s.len() as int) == ".git"@ {
        s.subrange(0, s.len() - 4)
    } else {
        s
    }
}

/// The clone directory a repository URL determines: the last path segment
/// with a `.git` suffix stripped, or `None` when the URL yields no segment
/// or only an empty name.
pub open spec fn derived_clone_dir(repo: Seq<char>) -> Option<Seq<char>> {
    match url_segments_of(repo) {
        Some(segs) => if segs.len() > 0 && strip_git_suffix(segs.last()).len() > 0 {
            Some(strip_git_suffix(segs.last()))
        } else {
            None
        },
        None => None,
    }
}

/// Derives the local directory a clone of `repo` lands in. The derivation is
/// a function of the URL text alone; failure to produce a name is fatal.
pub fn clone_dir(repo: &str) -> (r: Result<String, Error>)
    ensures
        (match derived_clone_dir(repo@) {
            Some(d) => r matches Ok(s) && s@ == d,
            None => r matches Err(e) && (e matches Error::MissingLocatorData(m) && m@ == repo@),
        }),
{
    match url_path_segments(repo) {
        Some(segs) => {
            if segs.len() > 0 {
                let last = &segs[segs.len() - 1];
                proof {
                    assert(str_seqs(segs@)[segs@.len() - 1] == last@);
                }
                let l = last.as_str().unicode_len();
                let name = if l >= 4 && str_eq(last.as_str().substring_char(l - 4, l), ".git") {
                    String::from_str(last.as_str().substring_char(0, l - 4))
                } else {
                    last.clone()
                };
                if name.as_str().is_empty() {
                    Err(Error::MissingLocatorData(String::from_str(repo)))
                } else {
                    Ok(name)
                }
            } else {
                Err(Error::MissingLocatorData(String::from_str(repo)))
            }
        },
        None => Err(Error::MissingLocatorData(String::from_str(repo))),
    }
}

/// Interprets the exit of a source-control clone: an unsuccessful exit is a
/// hard failure of the acquisition.
pub fn clone_outcome(success: bool) -> (r: Result<(), Error>)
    ensures
        r is Ok <==> success,
        (r matches Err(e) ==> (e matches Error::ExternalProcessFailed(m) && m@
            == "git clone failed - see output for details"@)),
{
    if success {
        Ok(())
    } else {
        Err(Error::ExternalProcessFailed(String::from_str("git clone failed - see output for details")))
    }
}

} // verus!
