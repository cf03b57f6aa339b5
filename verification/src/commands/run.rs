//! The run command: pick one Sample entry by search terms, clone it, and
//! drive the companion tool against its manifest — running or deploying.

use vstd::prelude::*;

verus! {

use vstd::string::StringExecFns;
use crate::hub_api::{
    IndexEntry,
    IndexEntryV,
    Error,
    Category,
    cat_eq,
    category_is,
    recognized_category,
    terms_match,
    terms_match_exec,
};
use crate::text::{str_seqs, lower_of};
use crate::selection::{views, sorted_by_title, sort_by_title, sort_by_title_spec};

/// Clones a sample and runs or deploys it.
pub struct RunCommand {
    pub terms: Vec<String>,
    pub deploy: bool,
}

/// What the run command matches: every term, and the Sample category.
pub open spec fn run_matches(terms: Seq<Seq<char>>, e: IndexEntryV) -> bool {
    terms_match(terms, e) && category_is(e.category, "sample"@)
}

/// The subsequence of `s` the run command's search keeps.
pub open spec fn run_filtered(terms: Seq<Seq<char>>, s: Seq<IndexEntryV>) -> Seq<IndexEntryV>
    decreases s.len(),
{
    if s.len() == 0 {
        Seq::empty()
    } else if run_matches(terms, s.last()) {
        run_filtered(terms, s.drop_last()).push(s.last())
    } else {
        run_filtered(terms, s.drop_last())
    }
}

impl RunCommand {
    pub fn is_match(&self, index_entry: &IndexEntry) -> (r: bool)
        ensures
            r == run_matches(str_seqs(self.terms@), index_entry@),
    {
        self.is_terms_match(index_entry) && self.is_category_match(index_entry)
    }

    pub fn is_terms_match(&self, index_entry: &IndexEntry) -> (r: bool)
        ensures
            r == terms_match(str_seqs(self.terms@), index_entry@),
    {
        terms_match_exec(&self.terms, index_entry)
    }

    pub fn is_category_match(&self, index_entry: &IndexEntry) -> (r: bool)
        ensures
            r == category_is(index_entry@.category, "sample"@),
    {
        let c = index_entry.category();
        let r = c == Category::Sample;
        proof {
            if cat_eq(c, Category::Sample) && !recognized_category(
                lower_of(index_entry@.category),
            ) {
                assert(c matches Category::Other(_));
            }
        }
        r
    }

    /// The entries the command's search matches, stably sorted by title: the
    /// result is exactly the stable sort of the matching entries in catalog
    /// order.
    pub fn matching_entries(&self, entries: Vec<IndexEntry>) -> (r: Vec<IndexEntry>)
        ensures
            sorted_by_title(r@),
            views(r@) == sort_by_title_spec(
                run_filtered(str_seqs(self.terms@), views(entries@)),
            ),
    {
        let ghost ts = str_seqs(self.terms@);
        let ghost all = views(entries@);
        let mut rest = entries;
        let total = rest.len();
        let mut kept: Vec<IndexEntry> = Vec::new();
        let mut i: usize = 0;
        proof {
            assert(views(rest@) =~= all.skip(0));
            assert(all.take(0) =~= Seq::<IndexEntryV>::empty());
            assert(views(kept@) =~= run_filtered(ts, all.take(0)));
        }
        while rest.len() > 0
            invariant
                ts == str_seqs(self.terms@),
                all == views(entries@),
                total == all.len(),
                i + rest@.len() == total,
                views(rest@) == all.skip(i as int),
                views(kept@) == run_filtered(ts, all.take(i as int)),
            decreases rest@.len(),
        {
            let ghost rest_old = rest@;
            let ghost kept_old = kept@;
            let e = rest.remove(0);
            proof {
                rest_old.remove_ensures(0);
                assert(views(rest_old)[0] == e@);
                assert(e@ == all[i as int]);
                assert forall|j: int|
                    0 <= j < views(rest@).len() implies views(rest@)[j] == all.skip(i + 1)[j] by {
                    assert(rest@[j] == rest_old[j + 1]);
                    assert(views(rest_old)[j + 1] == all.skip(i as int)[j + 1]);
                }
                assert(views(rest@) =~= all.skip(i + 1));
                assert(all.take(i + 1).drop_last() =~= all.take(i as int));
                assert(all.take(i + 1).last() == all[i as int]);
            }
            if self.is_match(&e) {
                kept.push(e);
                proof {
                    assert(views(kept@) =~= views(kept_old).push(e@));
                    assert(views(kept@) == run_filtered(ts, all.take(i + 1)));
                }
            } else {
                proof {
                    assert(views(kept@) == run_filtered(ts, all.take(i + 1)));
                }
            }
            i += 1;
        }
        proof {
            assert(all.take(total as int) =~= all);
        }
        sort_by_title(kept)
    }

    /// The companion tool's verb for this invocation: deploying or running.
    pub fn verb(&self) -> (r: &str)
        ensures
            self.deploy ==> r@ == "deploy"@,
            !self.deploy ==> r@ == "up"@,
    {
        if self.deploy {
            "deploy"
        } else {
            "up"
        }
    }
}

/// The repository URL a runnable sample must carry, and the fixed manifest
/// filename the companion tool is pointed at.
pub fn get_repo_and_manifest_path(index_entry: &IndexEntry) -> (r: Result<(String, String), Error>)
    ensures
        (match index_entry@.repo_url {
            Some(u) => r matches Ok(p) && p.0@ == u && p.1@ == "spin.toml"@,
            None => r matches Err(e) && (e matches Error::MissingLocatorData(t) && t@
                == index_entry@.title),
        }),
{
    match index_entry.repo_url() {
        Some(u) => Ok((u.clone(), String::from_str("spin.toml"))),
        None => Err(Error::MissingLocatorData(String::from_str(index_entry.title()))),
    }
}

/// The manifest location inside the clone directory.
pub fn manifest_in_dir(dir: &str, manifest: &str) -> (r: String)
    ensures
        r@ == dir@ + "/"@ + manifest@,
{
    String::from_str(dir).concat("/").concat(manifest)
}

} // verus!
