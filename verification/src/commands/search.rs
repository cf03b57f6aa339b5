//! The search command: list every entry matching the search terms and the
//! optional language and category filters.

use vstd::prelude::*;

verus! {

use crate::hub_api::{
    IndexEntry,
    IndexEntryV,
    Category,
    cat_eq,
    category_matches,
    recognized_category,
    known_language,
    lang_matches,
    lang_is_match,
    terms_match,
    terms_match_exec,
};
use crate::text::{str_seqs, opt_view, lower_of};
use crate::selection::{views, sorted_by_title, sort_by_title, sort_by_title_spec};

/// Searches the hub for content.
pub struct SearchCommand {
    pub terms: Vec<String>,
    pub language: Option<String>,
    pub category: Option<String>,
}

/// What the search command matches: every term, the language filter when
/// present, and the category filter when present.
pub open spec fn search_matches(
    terms: Seq<Seq<char>>,
    language: Option<Seq<char>>,
    category: Option<Seq<char>>,
    e: IndexEntryV,
) -> bool {
    terms_match(terms, e) && (match language {
        None => true,
        Some(f) => lang_matches(e.language, f),
    }) && (match category {
        None => true,
        Some(f) => category_matches(e.category, f),
    })
}

/// The subsequence of `s` the search keeps.
pub open spec fn search_filtered(
    terms: Seq<Seq<char>>,
    language: Option<Seq<char>>,
    category: Option<Seq<char>>,
    s: Seq<IndexEntryV>,
) -> Seq<IndexEntryV>
    decreases s.len(),
{
    if s.len() == 0 {
        Seq::empty()
    } else if search_matches(terms, language, category, s.last()) {
        search_filtered(terms, language, category, s.drop_last()).push(s.last())
    } else {
        search_filtered(terms, language, category, s.drop_last())
    }
}

impl SearchCommand {
    pub fn is_match(&self, index_entry: &IndexEntry) -> (r: bool)
        ensures
            r == search_matches(
                str_seqs(self.terms@),
                opt_view(self.language),
                opt_view(self.category),
                index_entry@,
            ),
    {
        self.is_terms_match(index_entry) && self.is_lang_match(index_entry)
            && self.is_category_match(index_entry)
    }

    pub fn is_terms_match(&self, index_entry: &IndexEntry) -> (r: bool)
        ensures
            r == terms_match(str_seqs(self.terms@), index_entry@),
    {
        terms_match_exec(&self.terms, index_entry)
    }

    pub fn is_lang_match(&self, index_entry: &IndexEntry) -> (r: bool)
        ensures
            r == (match opt_view(self.language) {
                None => true,
                Some(f) => lang_matches(index_entry@.language, f),
            }),
    {
        match &self.language {
            None => true,
            Some(lang) => {
                let classified = index_entry.language();
                let result = classified.is_match(lang.as_str());
                proof {
                    assert(lang_is_match(classified, lang@) == lang_matches(
                        index_entry@.language,
                        lang@,
                    ));
                }
                result
            },
        }
    }

    pub fn is_category_match(&self, index_entry: &IndexEntry) -> (r: bool)
        ensures
            r == (match opt_view(self.category) {
                None => true,
                Some(f) => category_matches(index_entry@.category, f),
            }),
    {
        match &self.category {
            None => true,
            Some(cat) => {
                let entry_cat = index_entry.category();
                let filter_cat = Category::parse(cat.as_str());
                let result = entry_cat == filter_cat;
                proof {
                    if !recognized_category(lower_of(index_entry@.category)) {
                        assert(entry_cat matches Category::Other(_));
                    }
                    if !recognized_category(lower_of(cat@)) {
                        assert(filter_cat matches Category::Other(_));
                    }
                    assert(cat_eq(entry_cat, filter_cat) == category_matches(
                        index_entry@.category,
                        cat@,
                    ));
                }
                result
            },
        }
    }

    /// The entries the search matches, stably sorted by title: the result
    /// is exactly the stable sort of the matching entries in catalog order.
    pub fn matching_entries(&self, entries: Vec<IndexEntry>) -> (r: Vec<IndexEntry>)
        ensures
            sorted_by_title(r@),
            views(r@) == sort_by_title_spec(
                search_filtered(
                    str_seqs(self.terms@),
                    opt_view(self.language),
                    opt_view(self.category),
                    views(entries@),
                ),
            ),
    {
        let ghost ts = str_seqs(self.terms@);
        let ghost lf = opt_view(self.language);
        let ghost cf = opt_view(self.category);
        let ghost all = views(entries@);
        let mut rest = entries;
        let total = rest.len();
        let mut kept: Vec<IndexEntry> = Vec::new();
        let mut i: usize = 0;
        proof {
            assert(views(rest@) =~= all.skip(0));
            assert(all.take(0) =~= Seq::<IndexEntryV>::empty());
            assert(views(kept@) =~= search_filtered(ts, lf, cf, all.take(0)));
        }
        while rest.len() > 0
            invariant
                ts == str_seqs(self.terms@),
                lf == opt_view(self.language),
                cf == opt_view(self.category),
                all == views(entries@),
                total == all.len(),
                i + rest@.len() == total,
                views(rest@) == all.skip(i as int),
                views(kept@) == search_filtered(ts, lf, cf, all.take(i as int)),
            decreases rest@.len(),
        {
            let ghost rest_old = rest@;
            let ghost kept_old = kept@;
            let e = rest.remove(0);
            proof {
                rest_old.remove_ensures(0);
                assert(views(rest_old)[0] == e@);
                assert(e@ == all[i as int]);
                assert forall|j: int|
                    0 <= j < views(rest@).len() implies views(rest@)[j] == all.skip(i + 1)[j] by {
                    assert(rest@[j] == rest_old[j + 1]);
                    assert(views(rest_old)[j + 1] == all.skip(i as int)[j + 1]);
                }
                assert(views(rest@) =~= all.skip(i + 1));
                assert(all.take(i + 1).drop_last() =~= all.take(i as int));
                assert(all.take(i + 1).last() == all[i as int]);
            }
            if self.is_match(&e) {
                kept.push(e);
                proof {
                    assert(views(kept@) =~= views(kept_old).push(e@));
                    assert(views(kept@) == search_filtered(ts, lf, cf, all.take(i + 1)));
                }
            } else {
                proof {
                    assert(views(kept@) == search_filtered(ts, lf, cf, all.take(i + 1)));
                }
            }
            i += 1;
        }
        proof {
            assert(all.take(total as int) =~= all);
        }
        sort_by_title(kept)
    }
}

} // verus!
