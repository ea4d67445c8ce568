//! The search over the entries of a store: every entry whose name or tags
//! match the search term, the best match first.

use crate::version::store::Store;
use crate::version::EntryView;
use fuzzy_matcher::skim::SkimMatcherV2;
use fuzzy_matcher::FuzzyMatcher;
use vstd::prelude::*;

verus! {

/// How well `choice` matches `pattern`, as the matcher of the interactive
/// filter `skim` scores it with its default settings; `None` where it does not
/// match.
pub uninterp spec fn skim_score(choice: Seq<char>, pattern: Seq<char>) -> Option<i64>;

/// `FuzzyMatcher::fuzzy_match` of a `SkimMatcherV2` with its default
/// settings. The contract names the score.
#[verifier::external_body]
fn fuzzy_score(choice: &str, pattern: &str) -> (score: Option<i64>)
    ensures
        score == skim_score(choice@, pattern@),
{
    SkimMatcherV2::default().fuzzy_match(choice, pattern)
}

/// The better of two scores; no match is worse than any match.
pub open spec fn spec_better(a: Option<i64>, b: Option<i64>) -> Option<i64> {
    match (a, b) {
        (Some(x), Some(y)) => if x >= y {
            a
        } else {
            b
        },
        (Some(_), None) => a,
        _ => b,
    }
}

/// The better of two scores.
pub fn better(a: Option<i64>, b: Option<i64>) -> (best: Option<i64>)
    ensures
        best == spec_better(a, b),
{
    match (a, b) {
        (Some(x), Some(y)) => if x >= y {
            a
        } else {
            b
        },
        (Some(_), None) => a,
        _ => b,
    }
}

/// The best score that one of the tags reaches; `None` where none matches.
pub open spec fn spec_best_tag(tags: Seq<Seq<char>>, target: Seq<char>) -> Option<i64>
    decreases tags.len(),
{
    if tags.len() == 0 {
        None
    } else {
        spec_better(spec_best_tag(tags.drop_last(), target), skim_score(tags.last(), target))
    }
}

/// The score of an entry: the best that its name or one of its tags
/// reaches; `None` where neither matches.
pub open spec fn spec_fuzzy_match(target: Seq<char>, name: Seq<char>, tags: Seq<Seq<char>>) -> Option<
    i64,
> {
    spec_better(spec_best_tag(tags, target), skim_score(name, target))
}

/// Scores an entry of the given name and tags against the search term
/// `target`.
pub fn fuzzy_match(target: &str, name: &str, tags: &Vec<&str>) -> (score: Option<i64>)
    ensures
        score == spec_fuzzy_match(target@, name@, crate::utils::strs_view(tags@)),
{
    let ghost all = crate::utils::strs_view(tags@);
    let mut best: Option<i64> = None;
    let mut i: usize = 0;
    assert(all.take(0) =~= Seq::empty());
    while i < tags.len()
        invariant
            i <= tags.len(),
            all == crate::utils::strs_view(tags@),
            best == spec_best_tag(all.take(i as int), target@),
        decreases tags.len() - i,
    {
        proof {
            assert(all.take(i + 1).drop_last() =~= all.take(i as int));
            assert(all.take(i + 1).last() == tags@[i as int]@);
        }
        best = better(best, fuzzy_score(tags[i], target));
        i += 1;
    }
    assert(all.take(tags.len() as int) =~= all);
    better(best, fuzzy_score(name, target))
}

/// The scores of the entries of a store, in their order.
pub open spec fn spec_scores(entries: Seq<EntryView>, term: Seq<char>) -> Seq<Option<i64>> {
    entries.map_values(|e: EntryView| spec_fuzzy_match(term, e.name, e.tags))
}

/// Whether the entry `a` is listed before the entry `b`: it is if it scores
/// higher, and, of two that score alike, if it comes first in the store.
pub open spec fn spec_listed_before(a: usize, b: usize, scores: Seq<Option<i64>>) -> bool {
    scores[a as int]->0 > scores[b as int]->0 || (scores[a as int]->0 == scores[b as int]->0 && a
        < b)
}

/// Whether `found` lists the entries that match, and no others, each once,
/// the best match first and those that score alike in the order of the store.
/// For given scores there is one such list.
pub open spec fn spec_ranking(found: Seq<usize>, scores: Seq<Option<i64>>) -> bool {
    &&& forall|k: int|
        0 <= k < found.len() ==> (#[trigger] found[k]) < scores.len() && scores[found[k] as int]
            is Some
    &&& forall|k: int, l: int|
        0 <= k < l < found.len() ==> spec_listed_before(#[trigger] found[k], #[trigger] found[l], scores)
    &&& forall|i: usize|
        i < scores.len() && (#[trigger] scores[i as int]) is Some ==> found.contains(i)
}

/// Two rankings of the same scores are the same list.
pub proof fn lemma_ranking_is_unique(a: Seq<usize>, b: Seq<usize>, scores: Seq<Option<i64>>)
    requires
        spec_ranking(a, scores),
        spec_ranking(b, scores),
    ensures
        a == b,
    decreases a.len(),
{
    if a.len() == 0 {
        if b.len() > 0 {
            assert(scores[b[0] as int] is Some);
            assert(a.contains(b[0]));
        }
        assert(a =~= b);
    } else {
        // The first of each list is listed before every other entry that
        // matches, so the two lists begin alike.
        assert(scores[a[0] as int] is Some);
        assert(b.contains(a[0]));
        let kb = choose|k: int| 0 <= k < b.len() && b[k] == a[0];
        assert(scores[b[0] as int] is Some);
        assert(a.contains(b[0]));
        let ka = choose|k: int| 0 <= k < a.len() && a[k] == b[0];
        if kb > 0 {
            assert(spec_listed_before(b[0], b[kb], scores));
            if ka > 0 {
                assert(spec_listed_before(a[0], a[ka], scores));
            }
        }
        assert(a[0] == b[0]);
        let ra = a.skip(1);
        let rb = b.skip(1);
        assert forall|i: usize| i < scores.len() && (#[trigger] scores[i as int]) is Some && i
            != a[0] implies ra.contains(i) && rb.contains(i) by {
            assert(a.contains(i));
            let k = choose|k: int| 0 <= k < a.len() && a[k] == i;
            assert(ra[k - 1] == i);
            assert(b.contains(i));
            let l = choose|l: int| 0 <= l < b.len() && b[l] == i;
            assert(rb[l - 1] == i);
        }
        // What is left ranks the scores without the first entry.
        let rest = scores.update(a[0] as int, None);
        assert forall|k: int| 0 <= k < ra.len() implies (#[trigger] ra[k]) < rest.len()
            && rest[ra[k] as int] is Some by {
            assert(ra[k] == a[k + 1]);
            assert(spec_listed_before(a[0], a[k + 1], scores));
        }
        assert forall|k: int| 0 <= k < rb.len() implies (#[trigger] rb[k]) < rest.len()
            && rest[rb[k] as int] is Some by {
            assert(rb[k] == b[k + 1]);
            assert(spec_listed_before(b[0], b[k + 1], scores));
        }
        assert forall|k: int, l: int| 0 <= k < l < ra.len() implies spec_listed_before(
            #[trigger] ra[k],
            #[trigger] ra[l],
            rest,
        ) by {
            assert(spec_listed_before(a[k + 1], a[l + 1], scores));
            assert(spec_listed_before(a[0], a[k + 1], scores));
            assert(spec_listed_before(a[0], a[l + 1], scores));
        }
        assert forall|k: int, l: int| 0 <= k < l < rb.len() implies spec_listed_before(
            #[trigger] rb[k],
            #[trigger] rb[l],
            rest,
        ) by {
            assert(spec_listed_before(b[k + 1], b[l + 1], scores));
            assert(spec_listed_before(b[0], b[k + 1], scores));
            assert(spec_listed_before(b[0], b[l + 1], scores));
        }
        assert forall|i: usize| i < rest.len() && (#[trigger] rest[i as int]) is Some implies ra.contains(
            i,
        ) && rb.contains(i) by {
            assert(scores[i as int] is Some);
        }
        lemma_ranking_is_unique(ra, rb, rest);
        assert(a =~= seq![a[0]] + ra);
        assert(b =~= seq![b[0]] + rb);
    }
}

/// Finds the entries of the store whose name or tags match the search term,
/// the best match first.
pub fn find_entries(store: &Store, term: &str) -> (found: Vec<usize>)
    requires
        store.wf(),
    ensures
        spec_ranking(found@, spec_scores(store@.entries, term@)),
{
    let ghost scores = spec_scores(store@.entries, term@);
    let mut found: Vec<usize> = Vec::new();
    let mut found_scores: Vec<i64> = Vec::new();
    let n: usize = store.num_entries();
    let mut i: usize = 0;
    while i < n
        invariant
            i <= n,
            n == store@.entries.len(),
            store.wf(),
            scores == spec_scores(store@.entries, term@),
            found@.len() == found_scores@.len(),
            forall|k: int|
                0 <= k < found@.len() ==> (#[trigger] found@[k]) < i && scores[found@[k] as int]
                    == Some(found_scores@[k]),
            forall|k: int, l: int|
                0 <= k < l < found@.len() ==> spec_listed_before(
                    #[trigger] found@[k],
                    #[trigger] found@[l],
                    scores,
                ),
            forall|j: usize|
                j < i && (#[trigger] scores[j as int]) is Some ==> found@.contains(j),
        decreases n - i,
    {
        let entry = store.entry(i);
        let tags = entry.tags();
        proof {
            assert(crate::utils::strs_view(tags@) =~= entry@.tags);
        }
        match fuzzy_match(term, entry.name(), &tags) {
            None => {},
            Some(score) => {
                // The place of the entry is after every entry that scores at
                // least as high.
                let mut place: usize = 0;
                while place < found.len() && found_scores[place] >= score
                    invariant
                        place <= found@.len(),
                        found@.len() == found_scores@.len(),
                        forall|k: int| 0 <= k < place ==> found_scores@[k] >= score,
                    decreases found@.len() - place,
                {
                    place += 1;
                }
                let ghost before = found@;
                let ghost before_scores = found_scores@;
                found.insert(place, i);
                found_scores.insert(place, score);
                proof {
                    assert forall|k: int| 0 <= k < found@.len() implies (#[trigger] found@[k]) < i
                        + 1 && scores[found@[k] as int] == Some(found_scores@[k]) by {
                        if k < place {
                            assert(found@[k] == before[k]);
                        } else if k > place {
                            assert(found@[k] == before[k - 1]);
                        }
                    }
                    assert forall|k: int, l: int| 0 <= k < l < found@.len() implies spec_listed_before(
                        #[trigger] found@[k],
                        #[trigger] found@[l],
                        scores,
                    ) by {
                        if l < place {
                            assert(found@[k] == before[k] && found@[l] == before[l]);
                        } else if l == place {
                            assert(found@[k] == before[k]);
                            assert(before_scores[k] >= score);
                        } else if k < place {
                            assert(found@[k] == before[k] && found@[l] == before[l - 1]);
                        } else if k == place {
                            assert(found@[l] == before[l - 1]);
                            assert(before_scores[place as int] < score);
                            if l - 1 > place {
                                assert(spec_listed_before(
                                    before[place as int],
                                    before[l - 1],
                                    scores,
                                ));
                            }
                        } else {
                            assert(found@[k] == before[k - 1] && found@[l] == before[l - 1]);
                        }
                    }
                    assert forall|j: usize| j < i + 1 && (#[trigger] scores[j as int])
                        is Some implies found@.contains(j) by {
                        if j < i {
                            assert(before.contains(j));
                            let k = choose|k: int| 0 <= k < before.len() && before[k] == j;
                            if k < place {
                                assert(found@[k] == j);
                            } else {
                                assert(found@[k + 1] == j);
                            }
                        } else {
                            assert(found@[place as int] == i);
                        }
                    }
                }
            },
        }
        i += 1;
    }
    found
}

/// Takes a new search term: without one, or with an empty one, no search is
/// on and every entry is listed; otherwise the entries that match are listed,
/// the best match first.
pub fn set_filter(
    filter: &mut Option<Vec<usize>>,
    search_term: &mut Option<String>,
    new_term: Option<String>,
    entries: &Store,
)
    requires
        entries.wf(),
    ensures
        match new_term {
            Some(term) if term@.len() > 0 => {
                &&& *final(search_term) == Some(term)
                &&& *final(filter) matches Some(found) && spec_ranking(
                    found@,
                    spec_scores(entries@.entries, term@),
                )
            },
            _ => *final(search_term) is None && *final(filter) is None,
        },
{
    match new_term {
        None => {
            *search_term = None;
            *filter = None;
        },
        Some(term) => {
            if term.as_str().is_empty() {
                *search_term = None;
                *filter = None;
            } else {
                *filter = Some(find_entries(entries, term.as_str()));
                *search_term = Some(term);
            }
        },
    }
}

} // verus!
