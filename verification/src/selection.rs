//! The selector: deterministic ordering of matched entries and the
//! count-based disambiguation policy.

use vstd::prelude::*;

verus! {

use crate::hub_api::{IndexEntry, IndexEntryV};
use crate::text::{lex_le, str_lex_le, lemma_lex_le_total, lemma_lex_le_trans};

/// The views of a sequence of entries.
pub open spec fn views(s: Seq<IndexEntry>) -> Seq<IndexEntryV> {
    s.map_values(|e: IndexEntry| e@)
}

/// Entry views stand in nondecreasing title order.
pub open spec fn sorted_titles(s: Seq<IndexEntryV>) -> bool {
    forall|i: int, j: int| 0 <= i < j < s.len() ==> #[trigger] lex_le(s[i].title, s[j].title)
}

/// Entries stand in nondecreasing title order.
pub open spec fn sorted_by_title(s: Seq<IndexEntry>) -> bool {
    sorted_titles(views(s))
}

/// Where the stable sort places `e` into the already-sorted `s`: after every
/// entry whose title is no greater than `e`'s, so an entry with an equal
/// title keeps its earlier place.
pub open spec fn insert_by_title_spec(s: Seq<IndexEntryV>, e: IndexEntryV) -> Seq<IndexEntryV>
    decreases s.len(),
{
    if s.len() == 0 {
        seq![e]
    } else if lex_le(s.last().title, e.title) {
        s.push(e)
    } else {
        insert_by_title_spec(s.drop_last(), e).push(s.last())
    }
}

/// The stable sort of entry views by title: entries are inserted in input
/// order, each after all earlier entries with no greater title, so entries
/// with equal titles keep their relative input order.
pub open spec fn sort_by_title_spec(s: Seq<IndexEntryV>) -> Seq<IndexEntryV>
    decreases s.len(),
{
    if s.len() == 0 {
        Seq::empty()
    } else {
        insert_by_title_spec(sort_by_title_spec(s.drop_last()), s.last())
    }
}

proof fn lemma_insert_at(s: Seq<IndexEntryV>, e: IndexEntryV, p: int)
    requires
        0 <= p <= s.len(),
        forall|k: int| 0 <= k < p ==> lex_le(#[trigger] s[k].title, e.title),
        forall|k: int| p <= k < s.len() ==> !lex_le(#[trigger] s[k].title, e.title),
    ensures
        insert_by_title_spec(s, e) == s.insert(p, e),
    decreases s.len(),
{
    if s.len() == 0 {
        assert(s.insert(0, e) =~= seq![e]);
    } else if lex_le(s.last().title, e.title) {
        assert(p == s.len());
        assert(s.insert(p, e) =~= s.push(e));
    } else {
        assert(p < s.len());
        lemma_insert_at(s.drop_last(), e, p);
        assert(s.drop_last().insert(p, e).push(s.last()) =~= s.insert(p, e));
    }
}

proof fn lemma_insert_sorted(s: Seq<IndexEntryV>, e: IndexEntryV, p: int)
    requires
        sorted_titles(s),
        0 <= p <= s.len(),
        forall|k: int| 0 <= k < p ==> lex_le(#[trigger] s[k].title, e.title),
        forall|k: int| p <= k < s.len() ==> !lex_le(#[trigger] s[k].title, e.title),
    ensures
        sorted_titles(s.insert(p, e)),
{
    let t = s.insert(p, e);
    s.insert_ensures(p, e);
    assert forall|i: int, j: int| 0 <= i < j < t.len() implies #[trigger] lex_le(
        t[i].title,
        t[j].title,
    ) by {
        if j < p {
            assert(t[i] == s[i] && t[j] == s[j]);
        } else if j == p {
            assert(t[j] == e);
            if i < p {
                assert(t[i] == s[i]);
            }
        } else {
            assert(t[j] == s[j - 1]);
            if i < p {
                assert(t[i] == s[i]);
                if i < j - 1 {
                    assert(lex_le(s[i].title, s[j - 1].title));
                }
            } else if i == p {
                assert(t[i] == e);
                lemma_lex_le_total(e.title, s[j - 1].title);
            } else {
                assert(t[i] == s[i - 1]);
            }
        }
    }
}

fn insert_by_title(out: &mut Vec<IndexEntry>, e: IndexEntry)
    requires
        sorted_by_title(old(out)@),
    ensures
        sorted_by_title(final(out)@),
        views(final(out)@) == insert_by_title_spec(views(old(out)@), e@),
{
    let ghost s = views(old(out)@);
    let mut p: usize = 0;
    while p < out.len() && str_lex_le(out[p].title(), e.title())
        invariant
            out@ == old(out)@,
            0 <= p <= s.len(),
            s == views(out@),
            forall|k: int| 0 <= k < p ==> lex_le(#[trigger] s[k].title, e@.title),
        decreases out@.len() - p,
    {
        proof {
            assert(s[p as int] == out@[p as int]@);
        }
        p += 1;
    }
    proof {
        assert forall|k: int| p <= k < s.len() implies !lex_le(
            #[trigger] s[k].title,
            e@.title,
        ) by {
            assert(s[p as int] == out@[p as int]@);
            if k > p && lex_le(s[k].title, e@.title) {
                assert(lex_le(s[p as int].title, s[k].title));
                lemma_lex_le_trans(s[p as int].title, s[k].title, e@.title);
            }
        }
        lemma_insert_at(s, e@, p as int);
        lemma_insert_sorted(s, e@, p as int);
    }
    let ghost before = out@;
    out.insert(p, e);
    proof {
        before.insert_ensures(p as int, e);
        s.insert_ensures(p as int, e@);
        assert forall|j: int| 0 <= j < views(out@).len() implies views(out@)[j] == s.insert(
            p as int,
            e@,
        )[j] by {
            assert(views(out@)[j] == out@[j]@);
            if j < p {
                assert(out@[j] == before[j]);
            } else if j == p {
                assert(out@[j] == e);
            } else {
                assert(out@[j] == before[j - 1]);
            }
        }
        assert(views(out@) =~= s.insert(p as int, e@));
    }
}

/// Sorts entries into nondecreasing title order, stably: the result is
/// exactly the stable sort of the input, so equal titles keep their input
/// order and the presentation is deterministic.
pub fn sort_by_title(entries: Vec<IndexEntry>) -> (r: Vec<IndexEntry>)
    ensures
        sorted_by_title(r@),
        views(r@) == sort_by_title_spec(views(entries@)),
{
    let ghost all = views(entries@);
    let mut rest = entries;
    let total = rest.len();
    let mut out: Vec<IndexEntry> = Vec::new();
    let mut i: usize = 0;
    proof {
        assert(views(rest@) =~= all.skip(0));
        assert(all.take(0) =~= Seq::<IndexEntryV>::empty());
        assert(views(out@) =~= sort_by_title_spec(all.take(0)));
    }
    while rest.len() > 0
        invariant
            all == views(entries@),
            total == all.len(),
            i + rest@.len() == total,
            views(rest@) == all.skip(i as int),
            views(out@) == sort_by_title_spec(all.take(i as int)),
            sorted_by_title(out@),
        decreases rest@.len(),
    {
        let ghost rest_old = rest@;
        let e = rest.remove(0);
        proof {
            rest_old.remove_ensures(0);
            assert(views(rest_old)[0] == e@);
            assert(e@ == all[i as int]);
            assert forall|j: int| 0 <= j < views(rest@).len() implies views(rest@)[j] == all.skip(
                i + 1,
            )[j] by {
                assert(rest@[j] == rest_old[j + 1]);
                assert(views(rest_old)[j + 1] == all.skip(i as int)[j + 1]);
            }
            assert(views(rest@) =~= all.skip(i + 1));
        }
        insert_by_title(&mut out, e);
        proof {
            assert(all.take(i + 1).drop_last() =~= all.take(i as int));
            assert(all.take(i + 1).last() == all[i as int]);
            assert(views(out@) == sort_by_title_spec(all.take(i + 1)));
        }
        i += 1;
    }
    proof {
        assert(all.take(all.len() as int) =~= all);
    }
    out
}

/// Whether the disambiguation policy requires an interactive prompt: only
/// two or more matches do.
pub fn needs_prompt(matches: &Vec<IndexEntry>) -> (r: bool)
    ensures
        r == (matches@.len() >= 2),
{
    matches.len() >= 2
}

/// The count-based disambiguation policy: no match selects nothing, a unique
/// match is taken without prompting, and among several matches only an
/// explicit in-range choice selects — cancelling selects nothing.
pub fn decide_selection(matches: Vec<IndexEntry>, choice: Option<usize>) -> (r: Option<IndexEntry>)
    ensures
        matches@.len() == 0 ==> r is None,
        matches@.len() == 1 ==> (r matches Some(e) && e@ == matches@[0]@),
        matches@.len() >= 2 ==> (match choice {
            Some(i) => if i < matches@.len() {
                r matches Some(e) && e@ == matches@[i as int]@
            } else {
                r is None
            },
            None => r is None,
        }),
{
    let mut m = matches;
    if m.len() == 0 {
        None
    } else if m.len() == 1 {
        Some(m.remove(0))
    } else {
        match choice {
            Some(i) => if i < m.len() {
                Some(m.remove(i))
            } else {
                None
            },
            None => None,
        }
    }
}

} // verus!
