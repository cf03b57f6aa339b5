//! The new command: pick one Template entry by search terms and scaffold an
//! application from it.

use vstd::prelude::*;

verus! {

use vstd::string::StringExecFns;
use crate::hub_api::{
    IndexEntry,
    IndexEntryV,
    Error,
    Category,
    cat_eq,
    category_is,
    recognized_category,
    terms_match,
    terms_match_exec,
};
use crate::text::{str_seqs, lower_of};
use crate::selection::{views, sorted_by_title, sort_by_title, sort_by_title_spec};

/// Creates an application from a hub template.
pub struct NewCommand {
    pub terms: Vec<String>,
    pub name: Option<String>,
}

/// What the new command matches: every term, and the Template category.
pub open spec fn new_matches(terms: Seq<Seq<char>>, e: IndexEntryV) -> bool {
    terms_match(terms, e) && category_is(e.category, "template"@)
}

/// The subsequence of `s` the new command's search keeps.
pub open spec fn new_filtered(terms: Seq<Seq<char>>, s: Seq<IndexEntryV>) -> Seq<IndexEntryV>
    decreases s.len(),
{
    if s.len() == 0 {
        Seq::empty()
    } else if new_matches(terms, s.last()) {
        new_filtered(terms, s.drop_last()).push(s.last())
    } else {
        new_filtered(terms, s.drop_last())
    }
}

impl NewCommand {
    pub fn is_match(&self, index_entry: &IndexEntry) -> (r: bool)
        ensures
            r == new_matches(str_seqs(self.terms@), index_entry@),
    {
        self.is_terms_match(index_entry) && self.is_category_match(index_entry)
    }

    pub fn is_terms_match(&self, index_entry: &IndexEntry) -> (r: bool)
        ensures
            r == terms_match(str_seqs(self.terms@), index_entry@),
    {
        terms_match_exec(&self.terms, index_entry)
    }

    pub fn is_category_match(&self, index_entry: &IndexEntry) -> (r: bool)
        ensures
            r == category_is(index_entry@.category, "template"@),
    {
        let c = index_entry.category();
        let r = c == Category::Template;
        proof {
            if cat_eq(c, Category::Template) && !recognized_category(
                lower_of(index_entry@.category),
            ) {
                assert(c matches Category::Other(_));
            }
        }
        r
    }

    /// The entries the command's search matches, stably sorted by title: the
    /// result is exactly the stable sort of the matching entries in catalog
    /// order.
    pub fn matching_entries(&self, entries: Vec<IndexEntry>) -> (r: Vec<IndexEntry>)
        ensures
            sorted_by_title(r@),
            views(r@) == sort_by_title_spec(
                new_filtered(str_seqs(self.terms@), views(entries@)),
            ),
    {
        let ghost ts = str_seqs(self.terms@);
        let ghost all = views(entries@);
        let mut rest = entries;
        let total = rest.len();
        let mut kept: Vec<IndexEntry> = Vec::new();
        let mut i: usize = 0;
        proof {
            assert(views(rest@) =~= all.skip(0));
            assert(all.take(0) =~= Seq::<IndexEntryV>::empty());
            assert(views(kept@) =~= new_filtered(ts, all.take(0)));
        }
        while rest.len() > 0
            invariant
                ts == str_seqs(self.terms@),
                all == views(entries@),
                total == all.len(),
                i + rest@.len() == total,
                views(rest@) == all.skip(i as int),
                views(kept@) == new_filtered(ts, all.take(i as int)),
            decreases rest@.len(),
        {
            let ghost rest_old = rest@;
            let ghost kept_old = kept@;
            let e = rest.remove(0);
            proof {
                rest_old.remove_ensures(0);
                assert(views(rest_old)[0] == e@);
                assert(e@ == all[i as int]);
                assert forall|j: int|
                    0 <= j < views(rest@).len() implies views(rest@)[j] == all.skip(i + 1)[j] by {
                    assert(rest@[j] == rest_old[j + 1]);
                    assert(views(rest_old)[j + 1] == all.skip(i as int)[j + 1]);
                }
                assert(views(rest@) =~= all.skip(i + 1));
                assert(all.take(i + 1).drop_last() =~= all.take(i as int));
                assert(all.take(i + 1).last() == all[i as int]);
            }
            if self.is_match(&e) {
                kept.push(e);
                proof {
                    assert(views(kept@) =~= views(kept_old).push(e@));
                    assert(views(kept@) == new_filtered(ts, all.take(i + 1)));
                }
            } else {
                proof {
                    assert(views(kept@) == new_filtered(ts, all.take(i + 1)));
                }
            }
            i += 1;
        }
        proof {
            assert(all.take(total as int) =~= all);
        }
        sort_by_title(kept)
    }
}

/// The repository URL and template identifier a Template entry must carry;
/// either one missing is the entry's missing locator data.
pub fn get_repo_and_id(index_entry: &IndexEntry) -> (r: Result<(String, String), Error>)
    ensures
        (match index_entry@.template_id {
            Some(id) => match index_entry@.repo_url {
                Some(u) => r matches Ok(p) && p.0@ == u && p.1@ == id,
                None => r matches Err(e) && (e matches Error::MissingLocatorData(t) && t@ == id),
            },
            None => r matches Err(e) && (e matches Error::MissingLocatorData(t) && t@
                == index_entry@.title),
        }),
{
    let id = match index_entry.template_id() {
        Some(id) => id.clone(),
        None => {
            return Err(Error::MissingLocatorData(String::from_str(index_entry.title())));
        },
    };
    match index_entry.repo_url() {
        Some(u) => Ok((u.clone(), id)),
        None => Err(Error::MissingLocatorData(id)),
    }
}

/// The scaffold target policy: creating the application directory is refused
/// exactly when it already exists and overwriting is not allowed.
pub fn check_scaffold_target(name: &str, dir_exists: bool, allow_overwrite: bool) -> (r: Result<
    (),
    Error,
>)
    ensures
        r is Ok <==> (!dir_exists || allow_overwrite),
        (r matches Err(e) ==> (e matches Error::DirectoryAlreadyExists(n) && n@ == name@)),
{
    if dir_exists && !allow_overwrite {
        Err(Error::DirectoryAlreadyExists(String::from_str(name)))
    } else {
        Ok(())
    }
}

/// The template lookup policy: absence of the identified template in the
/// installed source is a fatal condition.
pub fn template_found<T>(found: Option<T>) -> (r: Result<T, Error>)
    ensures
        (match found {
            Some(t) => r matches Ok(x) && x == t,
            None => r matches Err(e) && (e matches Error::TemplateNotFound),
        }),
{
    match found {
        Some(t) => Ok(t),
        None => Err(Error::TemplateNotFound),
    }
}

} // verus!
