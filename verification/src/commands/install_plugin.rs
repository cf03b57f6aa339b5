//! The plugin-install command: pick one Plugin entry by search terms and
//! derive the companion tool's install arguments.

use vstd::prelude::*;

verus! {

use vstd::string::StringExecFns;
use crate::hub_api::{
    IndexEntry,
    IndexEntryV,
    Category,
    cat_eq,
    category_is,
    recognized_category,
    terms_match,
    terms_match_exec,
};
use crate::text::{str_seqs, lower_of};
use crate::selection::{views, sorted_by_title, sort_by_title, sort_by_title_spec};

/// Installs a plugin from the hub.
pub struct InstallPluginCommand {
    pub terms: Vec<String>,
}

/// What the plugin-install command matches: every term, and the Plugin
/// category.
pub open spec fn plugin_matches(terms: Seq<Seq<char>>, e: IndexEntryV) -> bool {
    terms_match(terms, e) && category_is(e.category, "plugin"@)
}

/// The subsequence of `s` the plugin-install command's search keeps.
pub open spec fn plugin_filtered(terms: Seq<Seq<char>>, s: Seq<IndexEntryV>) -> Seq<IndexEntryV>
    decreases s.len(),
{
    if s.len() == 0 {
        Seq::empty()
    } else if plugin_matches(terms, s.last()) {
        plugin_filtered(terms, s.drop_last()).push(s.last())
    } else {
        plugin_filtered(terms, s.drop_last())
    }
}

impl InstallPluginCommand {
    pub fn is_match(&self, index_entry: &IndexEntry) -> (r: bool)
        ensures
            r == plugin_matches(str_seqs(self.terms@), index_entry@),
    {
        self.is_terms_match(index_entry) && self.is_category_match(index_entry)
    }

    pub fn is_terms_match(&self, index_entry: &IndexEntry) -> (r: bool)
        ensures
            r == terms_match(str_seqs(self.terms@), index_entry@),
    {
        terms_match_exec(&self.terms, index_entry)
    }

    pub fn is_category_match(&self, index_entry: &IndexEntry) -> (r: bool)
        ensures
            r == category_is(index_entry@.category, "plugin"@),
    {
        let c = index_entry.category();
        let r = c == Category::Plugin;
        proof {
            if cat_eq(c, Category::Plugin) && !recognized_category(
                lower_of(index_entry@.category),
            ) {
                assert(c matches Category::Other(_));
            }
        }
        r
    }

    /// The entries the command's search matches, stably sorted by title: the
    /// result is exactly the stable sort of the matching entries in catalog
    /// order.
    pub fn matching_entries(&self, entries: Vec<IndexEntry>) -> (r: Vec<IndexEntry>)
        ensures
            sorted_by_title(r@),
            views(r@) == sort_by_title_spec(
                plugin_filtered(str_seqs(self.terms@), views(entries@)),
            ),
    {
        let ghost ts = str_seqs(self.terms@);
        let ghost all = views(entries@);
        let mut rest = entries;
        let total = rest.len();
        let mut kept: Vec<IndexEntry> = Vec::new();
        let mut i: usize = 0;
        proof {
            assert(views(rest@) =~= all.skip(0));
            assert(all.take(0) =~= Seq::<IndexEntryV>::empty());
            assert(views(kept@) =~= plugin_filtered(ts, all.take(0)));
        }
        while rest.len() > 0
            invariant
                ts == str_seqs(self.terms@),
                all == views(entries@),
                total == all.len(),
                i + rest@.len() == total,
                views(rest@) == all.skip(i as int),
                views(kept@) == plugin_filtered(ts, all.take(i as int)),
            decreases rest@.len(),
        {
            let ghost rest_old = rest@;
            let ghost kept_old = kept@;
            let e = rest.remove(0);
            proof {
                rest_old.remove_ensures(0);
                assert(views(rest_old)[0] == e@);
                assert(e@ == all[i as int]);
                assert forall|j: int|
                    0 <= j < views(rest@).len() implies views(rest@)[j] == all.skip(i + 1)[j] by {
                    assert(rest@[j] == rest_old[j + 1]);
                    assert(views(rest_old)[j + 1] == all.skip(i as int)[j + 1]);
                }
                assert(views(rest@) =~= all.skip(i + 1));
                assert(all.take(i + 1).drop_last() =~= all.take(i as int));
                assert(all.take(i + 1).last() == all[i as int]);
            }
            if self.is_match(&e) {
                kept.push(e);
                proof {
                    assert(views(kept@) =~= views(kept_old).push(e@));
                    assert(views(kept@) == plugin_filtered(ts, all.take(i + 1)));
                }
            } else {
                proof {
                    assert(views(kept@) == plugin_filtered(ts, all.take(i + 1)));
                }
            }
            i += 1;
        }
        proof {
            assert(all.take(total as int) =~= all);
        }
        sort_by_title(kept)
    }
}

/// The companion tool's plugin-install arguments an entry determines: an
/// explicit manifest URL when the entry carries one, else the plugin's name
/// taken from the entry's title.
pub fn get_install_args(index_entry: &IndexEntry) -> (r: Vec<String>)
    ensures
        (match index_entry@.repo_url {
            Some(u) => r@.len() == 2 && r@[0]@ == "--url"@ && r@[1]@ == u,
            None => r@.len() == 1 && r@[0]@ == index_entry@.title,
        }),
{
    match index_entry.repo_url() {
        Some(u) => vec![String::from_str("--url"), u.clone()],
        None => vec![String::from_str(index_entry.title())],
    }
}

} // verus!
