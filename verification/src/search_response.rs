//! Matching an incoming search against our shares.
use std::collections::HashSet;

use vstd::prelude::*;
use vstd::string::*;

use crate::order::{is_stable_order, key_of_text, stable_order, text_key, Key};
use crate::shares::{
    as_shared, ids_of, index_is_right, path_words, under, EntryView, ShareIndex, SharedFile,
    SharedFileView, SharesView, WordIndex, WordsView,
};
use crate::text::{
    contains, ends_with, group_views, lowercase, occurs, split_whitespace, to_lowercase, views,
    words_of,
};

verus! {

broadcast use group_views;

/// A search query by its words: plain (included) words, `-`excluded words, and `*`partial
/// (suffix) words.
#[derive(Debug, PartialEq)]
pub struct SearchTerms {
    pub included: Vec<String>,
    pub excluded: Vec<String>,
    pub partial: Vec<String>,
}

pub struct TermsView {
    pub included: Seq<Seq<char>>,
    pub excluded: Seq<Seq<char>>,
    pub partial: Seq<Seq<char>>,
}

impl View for SearchTerms {
    type V = TermsView;

    open spec fn view(&self) -> TermsView {
        TermsView {
            included: views(self.included@),
            excluded: views(self.excluded@),
            partial: views(self.partial@),
        }
    }
}

impl Default for SearchTerms {
    fn default() -> (t: SearchTerms)
        ensures
            t@ == no_terms(),
    {
        let t = SearchTerms { included: Vec::new(), excluded: Vec::new(), partial: Vec::new() };
        assert(t@.included =~= Seq::<Seq<char>>::empty());
        assert(t@.excluded =~= Seq::<Seq<char>>::empty());
        assert(t@.partial =~= Seq::<Seq<char>>::empty());
        t
    }
}

pub open spec fn no_terms() -> TermsView {
    TermsView { included: Seq::empty(), excluded: Seq::empty(), partial: Seq::empty() }
}

/// The terms with one more word of a query: `-word` excludes, `*word` is partial, a bare `-` or
/// `*` says nothing, and any other word is included. Words are kept in lower case.
pub open spec fn with_word(t: TermsView, word: Seq<char>) -> TermsView {
    let rest = word.skip(1);
    if word.len() > 0 && word[0] == '-' {
        if rest.len() == 0 {
            t
        } else {
            TermsView { excluded: t.excluded.push(lowercase(rest)), ..t }
        }
    } else if word.len() > 0 && word[0] == '*' {
        if rest.len() == 0 {
            t
        } else {
            TermsView { partial: t.partial.push(lowercase(rest)), ..t }
        }
    } else if word.len() > 0 {
        TermsView { included: t.included.push(lowercase(word)), ..t }
    } else {
        t
    }
}

/// The terms that a list of words makes.
pub open spec fn terms_of(words: Seq<Seq<char>>) -> TermsView
    decreases words.len(),
{
    if words.len() == 0 {
        no_terms()
    } else {
        with_word(terms_of(words.drop_last()), words.last())
    }
}

/// Splits a raw search term into included, excluded (`-`) and partial (`*`) words, in lower case.
pub fn sanitize_search_term(term: &str) -> (terms: SearchTerms)
    ensures
        terms@ == terms_of(words_of(term@)),
{
    let words = split_whitespace(term);
    let ghost all = views(words@);
    let mut terms = SearchTerms::default();
    let mut i: usize = 0;
    assert(all.take(0) =~= Seq::<Seq<char>>::empty());
    while i < words.len()
        invariant
            i <= words@.len(),
            all == views(words@),
            terms@ == terms_of(all.take(i as int)),
        decreases words@.len() - i,
    {
        assert(all.take(i as int + 1).drop_last() =~= all.take(i as int));
        let word = words[i].as_str();
        let n: usize = word.unicode_len();
        if n > 0 {
            let first = word.get_char(0);
            let rest = word.substring_char(1, n);
            assert(rest@ =~= word@.skip(1));
            if first == '-' {
                if n > 1 {
                    terms.excluded.push(to_lowercase(rest));
                }
            } else if first == '*' {
                if n > 1 {
                    terms.partial.push(to_lowercase(rest));
                }
            } else {
                terms.included.push(to_lowercase(word));
            }
        }
        i += 1;
    }
    assert(all.take(i as int) =~= all);
    terms
}

/// Whether an id is listed under a known word.
pub open spec fn listed(words: WordsView, word: Seq<char>, id: u32) -> bool {
    ids_of(words, word) is Some && ids_of(words, word)->0.contains(id)
}

/// Whether an id is listed under some word that ends with `suffix`.
pub open spec fn listed_by_suffix(words: WordsView, suffix: Seq<char>, id: u32) -> bool {
    listed_by_suffix_within(words, words.len() as int, suffix, id)
}

/// Whether an id is listed under one of the first `n` words that ends with `suffix`.
pub open spec fn listed_by_suffix_within(
    words: WordsView,
    n: int,
    suffix: Seq<char>,
    id: u32,
) -> bool {
    exists|w: int|
        0 <= w < n && suffix.is_suffix_of((#[trigger] words[w]).0) && words[w].1.contains(
            id,
        )
}

/// The ids that the first included word gives. A query of that word alone, with no partial
/// words, looks at the first `max` only.
pub open spec fn first_ids(t: TermsView, max: int, words: WordsView) -> Seq<u32> {
    let ids = ids_of(words, t.included[0])->0;
    if t.included.len() == 1 && t.partial.len() == 0 && max < ids.len() {
        ids.take(max)
    } else {
        ids
    }
}

/// Whether a file answers the first `n` included, `p` partial and `e` excluded words of a query
/// whose included words are all known.
pub open spec fn passes(
    t: TermsView,
    max: int,
    words: WordsView,
    id: u32,
    n: int,
    p: int,
    e: int,
) -> bool {
    &&& first_ids(t, max, words).contains(id)
    &&& forall|i: int| 1 <= i < n ==> listed(words, #[trigger] t.included[i], id)
    &&& forall|i: int| 0 <= i < p ==> listed_by_suffix(words, #[trigger] t.partial[i], id)
    &&& forall|i: int| 0 <= i < e ==> !listed(words, #[trigger] t.excluded[i], id)
}

/// Whether a file answers a query whose included words are all known.
pub open spec fn matched(t: TermsView, max: int, words: WordsView, id: u32) -> bool {
    passes(
        t,
        max,
        words,
        id,
        t.included.len() as int,
        t.partial.len() as int,
        t.excluded.len() as int,
    )
}

proof fn lemma_one_more_included(t: TermsView, max: int, words: WordsView, id: u32, n: int)
    requires
        1 <= n < t.included.len(),
    ensures
        passes(t, max, words, id, n + 1, 0, 0) == (passes(t, max, words, id, n, 0, 0) && listed(
            words,
            t.included[n],
            id,
        )),
{
}

proof fn lemma_one_more_partial(t: TermsView, max: int, words: WordsView, id: u32, p: int)
    requires
        0 <= p < t.partial.len(),
    ensures
        passes(t, max, words, id, t.included.len() as int, p + 1, 0) == (passes(
            t,
            max,
            words,
            id,
            t.included.len() as int,
            p,
            0,
        ) && listed_by_suffix(words, t.partial[p], id)),
{
}

proof fn lemma_one_more_excluded(t: TermsView, max: int, words: WordsView, id: u32, e: int)
    requires
        0 <= e < t.excluded.len(),
    ensures
        passes(
            t,
            max,
            words,
            id,
            t.included.len() as int,
            t.partial.len() as int,
            e + 1,
        ) == (passes(
            t,
            max,
            words,
            id,
            t.included.len() as int,
            t.partial.len() as int,
            e,
        ) && !listed(words, t.excluded[e], id)),
{
}

proof fn lemma_take_contains(ids: Seq<u32>, i: int, id: u32)
    requires
        0 <= i < ids.len(),
    ensures
        ids.take(i + 1).contains(id) == (ids.take(i).contains(id) || ids[i] == id),
{
    let done = ids.take(i);
    let next = ids.take(i + 1);
    if done.contains(id) {
        let k = choose|k: int| 0 <= k < done.len() && done[k] == id;
        assert(next[k] == id);
    }
    if ids[i] == id {
        assert(next[i] == id);
    }
    if next.contains(id) {
        let k = choose|k: int| 0 <= k < next.len() && next[k] == id;
        if k < i {
            assert(done[k] == id);
        }
    }
}

/// Whether a query can match at all: it has an included word, and the index knows each of them.
pub open spec fn answerable(t: TermsView, words: WordsView) -> bool {
    &&& t.included.len() > 0
    &&& forall|i: int|
        0 <= i < t.included.len() ==> ids_of(words, #[trigger] t.included[i]) is Some
}

/// The files that match a query.
pub open spec fn matches_of(t: TermsView, max: int, words: WordsView) -> Set<u32> {
    Set::new(|id: u32| answerable(t, words) && matched(t, max, words, id))
}

fn set_of(ids: &Vec<u32>) -> (set: HashSet<u32>)
    ensures
        forall|id: u32| set@.contains(id) == ids@.contains(id),
{
    broadcast use vstd::std_specs::hash::group_hash_axioms;

    let mut set: HashSet<u32> = HashSet::new();
    let mut i: usize = 0;
    while i < ids.len()
        invariant
            i <= ids@.len(),
            forall|id: u32| set@.contains(id) == ids@.take(i as int).contains(id),
        decreases ids@.len() - i,
    {
        set.insert(ids[i]);
        proof {
            assert forall|id: u32|
                set@.contains(id) == ids@.take(i as int + 1).contains(id) by {
                lemma_take_contains(ids@, i as int, id);
            }
        }
        i += 1;
    }
    assert(ids@.take(i as int) =~= ids@);
    set
}

/// The ids of `from` that are in `set`, or, with `keep` false, that are not.
fn sift(from: &Vec<u32>, set: &HashSet<u32>, keep: bool) -> (kept: Vec<u32>)
    ensures
        forall|id: u32|
            kept@.contains(id) == (from@.contains(id) && set@.contains(id) == keep),
{
    broadcast use vstd::std_specs::hash::group_hash_axioms;

    let mut kept: Vec<u32> = Vec::new();
    let mut i: usize = 0;
    while i < from.len()
        invariant
            i <= from@.len(),
            forall|id: u32|
                kept@.contains(id) == (from@.take(i as int).contains(id) && set@.contains(id)
                    == keep),
        decreases from@.len() - i,
    {
        let ghost before = kept@;
        let id: u32 = from[i];
        if set.contains(&id) == keep {
            kept.push(id);
            assert(kept@.take(before.len() as int) =~= before);
            assert(kept@.take(before.len() as int + 1) =~= kept@);
        }
        proof {
            assert forall|x: u32|
                kept@.contains(x) == (from@.take(i as int + 1).contains(x) && set@.contains(x)
                    == keep) by {
                lemma_take_contains(from@, i as int, x);
                if kept@.len() > before.len() {
                    lemma_take_contains(kept@, before.len() as int, x);
                }
            }
        }
        i += 1;
    }
    assert(from@.take(i as int) =~= from@);
    kept
}

/// The ids listed under words that end with `suffix`.
fn ids_by_suffix(words: &WordIndex, suffix: &str) -> (set: HashSet<u32>)
    ensures
        forall|id: u32| set@.contains(id) == listed_by_suffix(words@, suffix@, id),
{
    broadcast use vstd::std_specs::hash::group_hash_axioms;

    let total: usize = words.len();
    let mut set: HashSet<u32> = HashSet::new();
    let mut w: usize = 0;
    while w < total
        invariant
            w <= total == words@.len(),
            forall|id: u32|
                set@.contains(id) == listed_by_suffix_within(words@, w as int, suffix@, id),
        decreases total - w,
    {
        let entry = words.at(w);
        let ghost held = set@;
        if ends_with(entry.word.as_str(), suffix) {
            let ghost before = set@;
            let mut i: usize = 0;
            while i < entry.ids.len()
                invariant
                    i <= entry.ids@.len(),
                    forall|id: u32| #[trigger]
                        set@.contains(id) == (before.contains(id) || entry.ids@.take(
                            i as int,
                        ).contains(id)),
                decreases entry.ids@.len() - i,
            {
                set.insert(entry.ids[i]);
                i += 1;
                proof {
                    assert forall|id: u32| #[trigger]
                        set@.contains(id) == (before.contains(id) || entry.ids@.take(
                            i as int,
                        ).contains(id)) by {
                        lemma_take_contains(entry.ids@, i as int - 1, id);
                    }
                }
            }
            assert(entry.ids@.take(i as int) =~= entry.ids@);
        }
        assert forall|id: u32|
            set@.contains(id) == listed_by_suffix_within(words@, w as int + 1, suffix@, id) by {
            assert(entry@ == words@[w as int]);
            assert(held.contains(id) == listed_by_suffix_within(
                words@,
                w as int,
                suffix@,
                id,
            ));
            if listed_by_suffix_within(words@, w as int, suffix@, id) {
                let k = choose|k: int|
                    0 <= k < w && suffix@.is_suffix_of((#[trigger] words@[k]).0)
                        && words@[k].1.contains(id);
                assert(0 <= k < w + 1 && suffix@.is_suffix_of(words@[k].0) && words@[k].1.contains(
                    id,
                ));
            }
        }
        w += 1;
    }
    set
}

/// The files that match a query, or `None` where none does.
pub fn create_search_result_list(
    terms: &SearchTerms,
    max_results: usize,
    word_index: &WordIndex,
) -> (results: Option<HashSet<u32>>)
    ensures
        results is Some == !(matches_of(terms@, max_results as int, word_index@)
            =~= Set::<u32>::empty()),
        results is Some ==> results->0@ == matches_of(terms@, max_results as int, word_index@),
{
    let ghost t = terms@;
    let ghost words = word_index@;
    let ghost all = matches_of(t, max_results as int, words);
    if terms.included.len() == 0 {
        assert(all =~= Set::<u32>::empty());
        return None;
    }
    let first = match word_index.get(terms.included[0].as_str()) {
        Some(ids) => ids,
        None => {
            assert(ids_of(words, t.included[0]) is None);
            assert(all =~= Set::<u32>::empty());
            return None;
        },
    };
    let mut take: usize = first.len();
    if terms.included.len() == 1 && terms.partial.len() == 0 && max_results < take {
        take = max_results;
    }
    let mut left: Vec<u32> = Vec::new();
    let mut i: usize = 0;
    while i < take
        invariant
            i <= take <= first@.len(),
            left@ == first@.take(i as int),
        decreases take - i,
    {
        left.push(first[i]);
        i += 1;
        assert(first@.take(i as int) =~= first@.take(i as int - 1).push(first@[i as int - 1]));
    }
    assert(first@.take(first@.len() as int) =~= first@);
    assert(left@ == first_ids(t, max_results as int, words));

    let mut n: usize = 1;
    while n < terms.included.len()
        invariant
            1 <= n <= terms.included@.len(),
            t == terms@,
            words == word_index@,
            all == matches_of(t, max_results as int, words),
            forall|j: int| 0 <= j < n ==> ids_of(words, #[trigger] t.included[j]) is Some,
            forall|id: u32|
                left@.contains(id) == passes(t, max_results as int, words, id, n as int, 0, 0),
        decreases terms.included@.len() - n,
    {
        match word_index.get(terms.included[n].as_str()) {
            Some(ids) => {
                let set = set_of(ids);
                left = sift(&left, &set, true);
            },
            None => {
                assert(ids_of(words, t.included[n as int]) is None);
                assert(all =~= Set::<u32>::empty());
                return None;
            },
        }
        proof {
            assert forall|id: u32|
                left@.contains(id) == passes(
                    t,
                    max_results as int,
                    words,
                    id,
                    n as int + 1,
                    0,
                    0,
                ) by {
                lemma_one_more_included(t, max_results as int, words, id, n as int);
            }
        }
        if left.len() == 0 {
            assert forall|id: u32| !all.contains(id) by {
                assert(!left@.contains(id));
            }
            assert(all =~= Set::<u32>::empty());
            return None;
        }
        n += 1;
    }
    assert(answerable(t, words));

    let mut p: usize = 0;
    while p < terms.partial.len()
        invariant
            p <= terms.partial@.len(),
            t == terms@,
            words == word_index@,
            all == matches_of(t, max_results as int, words),
            answerable(t, words),
            forall|id: u32|
                left@.contains(id) == passes(
                    t,
                    max_results as int,
                    words,
                    id,
                    t.included.len() as int,
                    p as int,
                    0,
                ),
        decreases terms.partial@.len() - p,
    {
        let set = ids_by_suffix(word_index, terms.partial[p].as_str());
        left = sift(&left, &set, true);
        proof {
            assert forall|id: u32|
                left@.contains(id) == passes(
                    t,
                    max_results as int,
                    words,
                    id,
                    t.included.len() as int,
                    p as int + 1,
                    0,
                ) by {
                lemma_one_more_partial(t, max_results as int, words, id, p as int);
            }
        }
        if left.len() == 0 {
            assert forall|id: u32| !all.contains(id) by {
                assert(!left@.contains(id));
            }
            assert(all =~= Set::<u32>::empty());
            return None;
        }
        p += 1;
    }

    let mut e: usize = 0;
    while e < terms.excluded.len()
        invariant
            e <= terms.excluded@.len(),
            t == terms@,
            words == word_index@,
            all == matches_of(t, max_results as int, words),
            answerable(t, words),
            forall|id: u32|
                left@.contains(id) == passes(
                    t,
                    max_results as int,
                    words,
                    id,
                    t.included.len() as int,
                    t.partial.len() as int,
                    e as int,
                ),
        decreases terms.excluded@.len() - e,
    {
        if let Some(ids) = word_index.get(terms.excluded[e].as_str()) {
            let set = set_of(ids);
            left = sift(&left, &set, false);
        }
        proof {
            assert forall|id: u32|
                left@.contains(id) == passes(
                    t,
                    max_results as int,
                    words,
                    id,
                    t.included.len() as int,
                    t.partial.len() as int,
                    e as int + 1,
                ) by {
                lemma_one_more_excluded(t, max_results as int, words, id, e as int);
            }
        }
        e += 1;
    }
    let results = set_of(&left);
    proof {
        assert forall|id: u32| left@.contains(id) == all.contains(id) by {}
        assert(results@ =~= all);
    }
    if left.len() == 0 {
        assert forall|id: u32| !all.contains(id) by {
            assert(!left@.contains(id));
        }
        assert(all =~= Set::<u32>::empty());
        None
    } else {
        assert(left@.contains(left@[0]));
        assert(all.contains(left@[0]));
        Some(results)
    }
}

/// Whether one file comes before another: by virtual path, and among equal paths by id.
pub open spec fn path_before(files: Seq<EntryView>, a: u32, b: u32) -> bool {
    let x = text_key(files[a as int].virtual_path);
    let y = text_key(files[b as int].virtual_path);
    crate::order::key_before(x, y) || (x == y && a < b)
}

/// Whether `order` lists the ids of `results`, each once, by virtual path.
pub open spec fn in_path_order(order: Seq<u32>, results: Set<u32>, files: Seq<EntryView>) -> bool {
    &&& forall|id: u32| #[trigger] order.contains(id) <==> results.contains(id)
    &&& forall|a: int, b: int|
        0 <= a < b < order.len() ==> path_before(files, #[trigger] order[a], #[trigger] order[b])
}

/// Whether a path holds one of the phrases that the server does not allow, whatever the case of
/// either.
pub open spec fn suppressed(path: Seq<char>, phrases: Seq<Seq<char>>) -> bool {
    exists|i: int|
        0 <= i < phrases.len() && occurs(lowercase(path), lowercase(#[trigger] phrases[i]))
}

/// Tells the ids of files that may be named to a peer.
pub open spec fn may_name(files: Seq<EntryView>, phrases: Seq<Seq<char>>) -> spec_fn(u32) -> bool {
    |id: u32| !suppressed(files[id as int].virtual_path, phrases)
}

/// Files as they are named to a peer.
pub open spec fn named(files: Seq<EntryView>, ids: Seq<u32>) -> Seq<SharedFileView> {
    ids.map_values(|id: u32| as_shared(files[id as int]))
}

/// The first `max` of a list.
pub open spec fn at_most<T>(s: Seq<T>, max: int) -> Seq<T> {
    if s.len() <= max {
        s
    } else {
        s.take(max)
    }
}

/// What is named of the matched files, given them in order.
pub open spec fn info_list(
    files: Seq<EntryView>,
    order: Seq<u32>,
    max: int,
    phrases: Seq<Seq<char>>,
) -> Seq<SharedFileView> {
    named(files, at_most(order.filter(may_name(files, phrases)), max))
}

/// The ids of `results` in ascending order.
fn ascending_ids(results: &HashSet<u32>, total: usize) -> (ids: Vec<u32>)
    requires
        forall|id: u32| results@.contains(id) ==> id < total,
    ensures
        forall|id: u32| ids@.contains(id) <==> results@.contains(id),
        forall|a: int, b: int| 0 <= a < b < ids@.len() ==> ids@[a] < ids@[b],
{
    broadcast use vstd::std_specs::hash::group_hash_axioms;

    let mut ids: Vec<u32> = Vec::new();
    let mut next: u64 = 0;
    while next < total as u64 && next <= 0xffff_ffff
        invariant
            next <= total,
            next <= 0x1_0000_0000,
            forall|id: u32|
                #![trigger ids@.contains(id)]
                ids@.contains(id) <==> results@.contains(id) && id < next,
            forall|a: int| 0 <= a < ids@.len() ==> #[trigger] ids@[a] < next,
            forall|a: int, b: int| 0 <= a < b < ids@.len() ==> ids@[a] < ids@[b],
        decreases 0x1_0000_0000 - next,
    {
        let id: u32 = next as u32;
        let ghost before = ids@;
        if results.contains(&id) {
            ids.push(id);
            assert(ids@.take(before.len() as int) =~= before);
            assert(ids@.take(before.len() as int + 1) =~= ids@);
        }
        proof {
            assert forall|x: u32|
                #![trigger ids@.contains(x)]
                ids@.contains(x) <==> results@.contains(x) && x < next + 1 by {
                assert(before.contains(x) <==> results@.contains(x) && x < next);
                if ids@.len() > before.len() {
                    lemma_take_contains(ids@, before.len() as int, x);
                }
            }
        }
        next += 1;
    }
    ids
}

/// The ids of `results` by virtual path.
fn by_path(results: &HashSet<u32>, index: &ShareIndex) -> (order: Vec<u32>)
    requires
        forall|id: u32| results@.contains(id) ==> id < index@.files.len(),
    ensures
        in_path_order(order@, results@, index@.files),
        forall|a: int| 0 <= a < order@.len() ==> #[trigger] order@[a] < index@.files.len(),
{
    let ghost fs = index@.files;
    let ids = ascending_ids(results, index.num_files());
    assert forall|a: int| 0 <= a < ids@.len() implies #[trigger] ids@[a] < fs.len() by {
        assert(ids@.contains(ids@[a]));
    }
    let mut keys: Vec<Key> = Vec::new();
    let mut i: usize = 0;
    while i < ids.len()
        invariant
            i <= ids@.len(),
            fs == index@.files,
            keys@.len() == i,
            forall|a: int| 0 <= a < ids@.len() ==> #[trigger] ids@[a] < fs.len(),
            forall|a: int|
                0 <= a < i ==> (#[trigger] keys@[a])@ == text_key(fs[ids@[a] as int].virtual_path),
        decreases ids@.len() - i,
    {
        keys.push(key_of_text(index.virtual_path(ids[i])));
        i += 1;
    }
    let places = stable_order(&keys);
    let ghost n = ids@.len() as int;
    let ghost ks = views(keys@);
    let mut order: Vec<u32> = Vec::new();
    let mut k: usize = 0;
    while k < places.len()
        invariant
            k <= places@.len(),
            n == ids@.len(),
            is_stable_order(places@, ks, n),
            order@.len() == k,
            forall|a: int| 0 <= a < k ==> #[trigger] order@[a] == ids@[places@[a] as int],
        decreases places@.len() - k,
    {
        order.push(ids[places[k]]);
        k += 1;
    }
    proof {
        assert forall|id: u32| #[trigger] order@.contains(id) <==> results@.contains(id) by {
            assert(ids@.contains(id) <==> results@.contains(id));
            if order@.contains(id) {
                let a = choose|a: int| 0 <= a < order@.len() && order@[a] == id;
                assert(ids@[places@[a] as int] == id);
                assert(ids@.contains(id));
            }
            if ids@.contains(id) {
                let p = choose|p: int| 0 <= p < ids@.len() && ids@[p] == id;
                assert(crate::order::listed_at(places@, p));
                let a = choose|a: int| 0 <= a < places@.len() && #[trigger] places@[a] == p;
                assert(order@[a] == id);
            }
        }
        assert forall|a: int, b: int| 0 <= a < b < order@.len() implies path_before(
            fs,
            #[trigger] order@[a],
            #[trigger] order@[b],
        ) by {
            let p = places@[a] as int;
            let q = places@[b] as int;
            assert(crate::order::goes_before(ks, p, q));
            assert(ks[p] == text_key(fs[ids@[p] as int].virtual_path));
            assert(ks[q] == text_key(fs[ids@[q] as int].virtual_path));
        }
        assert forall|a: int| 0 <= a < order@.len() implies #[trigger] order@[a]
            < fs.len() by {
            assert(order@[a] == ids@[places@[a] as int]);
        }
    }
    order
}

/// Phrases in lower case.
fn lowered(phrases: &Vec<String>) -> (low: Vec<String>)
    ensures
        low@.len() == phrases@.len(),
        forall|i: int| 0 <= i < low@.len() ==> (#[trigger] low@[i])@ == lowercase(phrases@[i]@),
{
    let mut low: Vec<String> = Vec::new();
    let mut i: usize = 0;
    while i < phrases.len()
        invariant
            i <= phrases@.len(),
            low@.len() == i,
            forall|j: int| 0 <= j < i ==> (#[trigger] low@[j])@ == lowercase(phrases@[j]@),
        decreases phrases@.len() - i,
    {
        low.push(to_lowercase(phrases[i].as_str()));
        i += 1;
    }
    low
}

/// Whether a path holds one of the phrases, which are in lower case.
fn holds_phrase(path: &str, low: &Vec<String>, Ghost(phrases): Ghost<Seq<Seq<char>>>) -> (r: bool)
    requires
        low@.len() == phrases.len(),
        forall|i: int| 0 <= i < low@.len() ==> (#[trigger] low@[i])@ == lowercase(phrases[i]),
    ensures
        r == suppressed(path@, phrases),
{
    let lower = to_lowercase(path);
    let mut i: usize = 0;
    while i < low.len()
        invariant
            i <= low@.len(),
            lower@ == lowercase(path@),
            low@.len() == phrases.len(),
            forall|j: int| 0 <= j < low@.len() ==> (#[trigger] low@[j])@ == lowercase(phrases[j]),
            forall|j: int|
                0 <= j < i ==> !occurs(lowercase(path@), lowercase(#[trigger] phrases[j])),
        decreases low@.len() - i,
    {
        if contains(lower.as_str(), low[i].as_str()) {
            assert(occurs(lowercase(path@), lowercase(phrases[i as int])));
            return true;
        }
        i += 1;
    }
    false
}

/// Turns matched files into the list for the wire: by virtual path, without those whose path
/// holds a phrase that the server does not allow, and at most `max_results` of them.
pub fn create_file_info_list(
    results: &HashSet<u32>,
    max_results: usize,
    excluded_phrases: &Vec<String>,
    index: &ShareIndex,
) -> (list: Vec<SharedFile>)
    requires
        forall|id: u32| results@.contains(id) ==> id < index@.files.len(),
    ensures
        exists|order: Seq<u32>| #[trigger]
            in_path_order(order, results@, index@.files) && views(list@) == info_list(
                index@.files,
                order,
                max_results as int,
                views(excluded_phrases@),
            ),
{
    let ghost phrases = views(excluded_phrases@);
    let ghost files = index@.files;
    let ghost keep = may_name(files, phrases);
    let low = lowered(excluded_phrases);
    let order = by_path(results, index);
    let mut list: Vec<SharedFile> = Vec::new();
    let mut i: usize = 0;
    proof {
        reveal(Seq::filter);
        assert(order@.take(0).filter(keep) =~= Seq::<u32>::empty());
        assert(views(list@) =~= named(files, order@.take(0).filter(keep)));
    }
    while i < order.len() && list.len() < max_results
        invariant
            i <= order@.len(),
            files == index@.files,
            phrases == views(excluded_phrases@),
            keep == may_name(files, phrases),
            forall|a: int| 0 <= a < order@.len() ==> #[trigger] order@[a] < files.len(),
            low@.len() == phrases.len(),
            forall|j: int| 0 <= j < low@.len() ==> (#[trigger] low@[j])@ == lowercase(phrases[j]),
            list@.len() <= max_results,
            views(list@) == named(files, order@.take(i as int).filter(keep)),
        decreases order@.len() - i,
    {
        let id: u32 = order[i];
        proof {
            reveal(Seq::filter);
            assert(order@.take(i as int + 1).drop_last() =~= order@.take(i as int));
        }
        if !holds_phrase(index.virtual_path(id), &low, Ghost(phrases)) {
            let ghost before = order@.take(i as int).filter(keep);
            list.push(index.shared_file(id));
            assert(views(list@) =~= named(files, before.push(id)));
        }
        i += 1;
    }
    proof {
        let all = order@.filter(keep);
        let done = order@.take(i as int).filter(keep);
        assert(order@ =~= order@.take(i as int) + order@.skip(i as int));
        Seq::filter_distributes_over_add(order@.take(i as int), order@.skip(i as int), keep);
        assert(all == done + order@.skip(i as int).filter(keep));
        assert(list@.len() == done.len());
        if i == order@.len() {
            assert(order@.take(i as int) =~= order@);
        } else {
            assert(all.take(done.len() as int) =~= done);
            assert(at_most(all, max_results as int) =~= done);
        }
        assert(in_path_order(order@, results@, files));
    }
    list
}

/// The files to answer a search with: none where nothing matches.
pub open spec fn answered(
    shares: SharesView,
    term: Seq<char>,
    max: int,
    phrases: Seq<Seq<char>>,
    files: Seq<SharedFileView>,
) -> bool {
    exists|order: Seq<u32>| #[trigger]
        in_path_order(order, matches_of(terms_of(words_of(term)), max, shares.words), shares.files)
            && files == info_list(shares.files, order, max, phrases)
}

/// Matches a search term against what we share, and gives the files to answer with.
pub fn respond(
    term: &str,
    max_results: usize,
    excluded_phrases: &Vec<String>,
    index: &ShareIndex,
) -> (files: Vec<SharedFile>)
    requires
        index.wf(),
    ensures
        answered(index@, term@, max_results as int, views(excluded_phrases@), views(files@)),
{
    let terms = sanitize_search_term(term);
    let ghost all = matches_of(terms@, max_results as int, index@.words);
    match create_search_result_list(&terms, max_results, index.words()) {
        Some(results) => {
            assert forall|id: u32| results@.contains(id) implies id < index@.files.len() by {
                let w = crate::shares::word_slot(index@.words, terms@.included[0]);
                crate::shares::lemma_word_slot_is(index@.words, terms@.included[0]);
                let ids = index@.words[w].1;
                assert(all.contains(id));
                assert(ids_of(index@.words, terms@.included[0]) is Some);
                assert(ids.contains(id));
                let k = choose|k: int| 0 <= k < ids.len() && ids[k] == id;
                assert(index@.words[w].1[k] == id);
            }
            create_file_info_list(&results, max_results, excluded_phrases, index)
        },
        None => {
            let files: Vec<SharedFile> = Vec::new();
            proof {
                let order = Seq::<u32>::empty();
                assert(in_path_order(order, all, index@.files));
                reveal(Seq::filter);
                assert(views(files@) =~= info_list(
                    index@.files,
                    order,
                    max_results as int,
                    views(excluded_phrases@),
                ));
            }
            files
        },
    }
}

/// There is only one order by path, so what is answered to a search is settled by the shares,
/// the term, the cap and the phrases.
pub proof fn law_an_answer_is_settled(
    shares: SharesView,
    term: Seq<char>,
    max: int,
    phrases: Seq<Seq<char>>,
    x: Seq<SharedFileView>,
    y: Seq<SharedFileView>,
)
    requires
        answered(shares, term, max, phrases, x),
        answered(shares, term, max, phrases, y),
    ensures
        x == y,
{
    let set = matches_of(terms_of(words_of(term)), max, shares.words);
    let a = choose|order: Seq<u32>| #[trigger]
        in_path_order(order, set, shares.files) && x == info_list(
            shares.files,
            order,
            max,
            phrases,
        );
    let b = choose|order: Seq<u32>| #[trigger]
        in_path_order(order, set, shares.files) && y == info_list(
            shares.files,
            order,
            max,
            phrases,
        );
    lemma_path_order_unique(a, b, set, shares.files);
}

proof fn lemma_path_order_unique(
    a: Seq<u32>,
    b: Seq<u32>,
    set: Set<u32>,
    files: Seq<EntryView>,
)
    requires
        in_path_order(a, set, files),
        in_path_order(b, set, files),
    ensures
        a == b,
{
    if a.len() <= b.len() {
        lemma_prefixes_agree(a, b, set, files, a.len() as int);
        lemma_no_longer(a, b, set, files);
    } else {
        lemma_prefixes_agree(b, a, set, files, b.len() as int);
        lemma_no_longer(b, a, set, files);
    }
    assert(a =~= b);
}

proof fn lemma_no_longer(a: Seq<u32>, b: Seq<u32>, set: Set<u32>, files: Seq<EntryView>)
    requires
        in_path_order(a, set, files),
        in_path_order(b, set, files),
        a.len() <= b.len(),
        forall|i: int| 0 <= i < a.len() ==> a[i] == b[i],
    ensures
        a.len() == b.len(),
{
    if a.len() < b.len() {
        let x = b[a.len() as int];
        assert(b.contains(x));
        assert(a.contains(x));
        let i = choose|i: int| 0 <= i < a.len() && a[i] == x;
        assert(path_before(files, b[i], b[a.len() as int]));
        let k = text_key(files[x as int].virtual_path);
        crate::order::lemma_key_order(k, k, k);
    }
}

proof fn lemma_prefixes_agree(
    a: Seq<u32>,
    b: Seq<u32>,
    set: Set<u32>,
    files: Seq<EntryView>,
    n: int,
)
    requires
        in_path_order(a, set, files),
        in_path_order(b, set, files),
        0 <= n <= a.len(),
        n <= b.len(),
    ensures
        forall|i: int| 0 <= i < n ==> a[i] == b[i],
    decreases n,
{
    if n > 0 {
        lemma_prefixes_agree(a, b, set, files, n - 1);
        let x = a[n - 1];
        let y = b[n - 1];
        if x != y {
            let kx = text_key(files[x as int].virtual_path);
            let ky = text_key(files[y as int].virtual_path);
            crate::order::lemma_key_order(kx, ky, kx);
            crate::order::lemma_key_order(ky, ky, ky);
            assert(a.contains(x) && b.contains(y));
            assert(b.contains(x) && a.contains(y));
            let i = choose|i: int| 0 <= i < b.len() && b[i] == x;
            let j = choose|j: int| 0 <= j < a.len() && a[j] == y;
            if i < n - 1 {
                assert(a[i] == x);
                assert(path_before(files, a[i], a[n - 1]));
            } else if j < n - 1 {
                assert(b[j] == y);
                assert(path_before(files, b[j], b[n - 1]));
            } else {
                assert(path_before(files, b[n - 1], b[i]));
                assert(path_before(files, a[n - 1], a[j]));
            }
        }
    }
}

/// Files whose path holds a phrase that the server does not allow are never named.
pub proof fn law_suppressed_files_are_never_named(
    shares: SharesView,
    term: Seq<char>,
    max: int,
    phrases: Seq<Seq<char>>,
    files: Seq<SharedFileView>,
    i: int,
)
    requires
        max >= 0,
        answered(shares, term, max, phrases, files),
        0 <= i < files.len(),
    ensures
        !suppressed(files[i].name, phrases),
{
    let set = matches_of(terms_of(words_of(term)), max, shares.words);
    let order = choose|order: Seq<u32>| #[trigger]
        in_path_order(order, set, shares.files) && files == info_list(
            shares.files,
            order,
            max,
            phrases,
        );
    let keep = may_name(shares.files, phrases);
    let all = order.filter(keep);
    broadcast use vstd::seq_lib::group_filter_ensures;

    let id = at_most(all, max)[i];
    assert(all[i] == id);
    assert(keep(all[i]));
}

/// No answer names more files than the cap allows.
pub proof fn law_answers_keep_to_the_cap(
    shares: SharesView,
    term: Seq<char>,
    max: int,
    phrases: Seq<Seq<char>>,
    files: Seq<SharedFileView>,
)
    requires
        max >= 0,
        answered(shares, term, max, phrases, files),
    ensures
        files.len() <= max,
{
}

/// Whether a word of a query stands for itself: it is neither excluded nor partial.
pub open spec fn is_plain(word: Seq<char>) -> bool {
    word.len() > 0 && word[0] != '-' && word[0] != '*'
}

/// Whether a word of a query excludes what follows the sign.
pub open spec fn is_exclusion(word: Seq<char>) -> bool {
    word.len() > 1 && word[0] == '-'
}

/// Whether a word of a query asks for words that end with what follows the sign.
pub open spec fn is_ending(word: Seq<char>) -> bool {
    word.len() > 1 && word[0] == '*'
}

/// Every word of a query counts once: the included words are the plain ones, the excluded and the
/// partial words are what follows the signs, all in the order of the query and in lower case.
pub proof fn law_every_word_of_a_query_counts(query: Seq<Seq<char>>)
    ensures
        terms_of(query).included == query.filter(|w: Seq<char>| is_plain(w)).map_values(
            |w: Seq<char>| lowercase(w),
        ),
        terms_of(query).excluded == query.filter(|w: Seq<char>| is_exclusion(w)).map_values(
            |w: Seq<char>| lowercase(w.skip(1)),
        ),
        terms_of(query).partial == query.filter(|w: Seq<char>| is_ending(w)).map_values(
            |w: Seq<char>| lowercase(w.skip(1)),
        ),
    decreases query.len(),
{
    reveal(Seq::filter);
    let t = terms_of(query);
    let plain = |w: Seq<char>| is_plain(w);
    let exclusion = |w: Seq<char>| is_exclusion(w);
    let ending = |w: Seq<char>| is_ending(w);
    if query.len() > 0 {
        law_every_word_of_a_query_counts(query.drop_last());
    }
    assert(t.included =~= query.filter(plain).map_values(|w: Seq<char>| lowercase(w)));
    assert(t.excluded =~= query.filter(exclusion).map_values(|w: Seq<char>| lowercase(w.skip(1))));
    assert(t.partial =~= query.filter(ending).map_values(|w: Seq<char>| lowercase(w.skip(1))));
}

/// Whether the words of a path satisfy one word of a query.
pub open spec fn word_fits(word: Seq<char>, path: Seq<Seq<char>>) -> bool {
    &&& is_plain(word) ==> path.contains(lowercase(word))
    &&& is_exclusion(word) ==> !path.contains(lowercase(word.skip(1)))
    &&& is_ending(word) ==> exists|k: int|
        0 <= k < path.len() && lowercase(word.skip(1)).is_suffix_of(#[trigger] path[k])
}

/// Whether the words of a path satisfy a query: the query has a plain word, and the path satisfies
/// every word of it.
pub open spec fn query_fits(query: Seq<Seq<char>>, path: Seq<Seq<char>>) -> bool {
    &&& exists|i: int| 0 <= i < query.len() && is_plain(#[trigger] query[i])
    &&& forall|i: int| 0 <= i < query.len() ==> word_fits(#[trigger] query[i], path)
}

/// Whether a query asks for more than one plain word, the excluded words aside.
pub open spec fn is_compound(query: Seq<Seq<char>>) -> bool {
    ||| exists|i: int| 0 <= i < query.len() && is_ending(#[trigger] query[i])
    ||| exists|i: int, j: int|
        0 <= i < j < query.len() && is_plain(#[trigger] query[i]) && is_plain(#[trigger] query[j])
}

/// In an index that lists each word once, a file is listed under a word if it stands anywhere in
/// the list of the word.
proof fn lemma_listed_is_under(words: WordsView, word: Seq<char>, id: u32)
    requires
        forall|a: int, b: int|
            0 <= a < b < words.len() ==> (#[trigger] words[a]).0 != (#[trigger] words[b]).0,
    ensures
        listed(words, word, id) == under(words, word, id),
{
    crate::shares::lemma_word_slot_is(words, word);
    let i = crate::shares::word_slot(words, word);
    if listed(words, word, id) {
        let k = choose|k: int| 0 <= k < words[i].1.len() && words[i].1[k] == id;
        assert(words[i].1[k] == id);
    }
    if under(words, word, id) {
        let (w, k) = choose|w: int, k: int|
            0 <= w < words.len() && 0 <= k < words[w].1.len() && words[w].0 == word
                && #[trigger] words[w].1[k] == id;
        if w < i {
            assert(words[w].0 != word);
        } else if i < w {
            assert(words[i].0 != words[w].0);
        }
        assert(words[i].1[k] == id);
    }
}

/// A file matches a query of several words if and only if it is listed under every included word,
/// under a word that ends with each partial word, and under no excluded word, wherever it stands
/// in their lists. With one included word and no partial ones, the first `max` of the word's list
/// are looked at.
pub proof fn law_matches_are_those_listed_under_every_word(
    t: TermsView,
    max: int,
    words: WordsView,
    id: u32,
)
    requires
        forall|a: int, b: int|
            0 <= a < b < words.len() ==> (#[trigger] words[a]).0 != (#[trigger] words[b]).0,
        t.included.len() > 0,
        max >= 0,
    ensures
        t.included.len() > 1 || t.partial.len() > 0 ==> (matches_of(t, max, words).contains(id)
            <==> {
            &&& forall|i: int| 0 <= i < t.included.len() ==> under(words, #[trigger] t.included[i], id)
            &&& forall|i: int|
                0 <= i < t.partial.len() ==> exists|w: int, k: int|
                    0 <= w < words.len() && 0 <= k < words[w].1.len() && (
                    #[trigger] t.partial[i]).is_suffix_of(words[w].0) && #[trigger] words[w].1[k]
                        == id
            &&& forall|i: int|
                0 <= i < t.excluded.len() ==> !under(words, #[trigger] t.excluded[i], id)
        }),
        t.included.len() == 1 && t.partial.len() == 0 ==> (matches_of(t, max, words).contains(id)
            <==> {
            &&& exists|w: int, k: int|
                0 <= w < words.len() && 0 <= k < words[w].1.len() && k < max && words[w].0
                    == t.included[0] && #[trigger] words[w].1[k] == id
            &&& forall|i: int|
                0 <= i < t.excluded.len() ==> !under(words, #[trigger] t.excluded[i], id)
        }),
        matches_of(t, max, words).contains(id) ==> under(words, t.included[0], id),
{
    let first = t.included[0];
    crate::shares::lemma_word_slot_is(words, first);
    let s = crate::shares::word_slot(words, first);
    let ids = first_ids(t, max, words);
    assert forall|x: Seq<char>| listed(words, x, id) == under(words, x, id) by {
        lemma_listed_is_under(words, x, id);
    }
    assert forall|i: int|
        0 <= i < t.included.len() && under(words, #[trigger] t.included[i], id) implies ids_of(
        words,
        t.included[i],
    ) is Some by {
        assert(listed(words, t.included[i], id) == under(words, t.included[i], id));
    }
    assert forall|i: int| 0 <= i < t.partial.len() implies listed_by_suffix(
        words,
        #[trigger] t.partial[i],
        id,
    ) == (exists|w: int, k: int|
        0 <= w < words.len() && 0 <= k < words[w].1.len() && t.partial[i].is_suffix_of(words[w].0)
            && #[trigger] words[w].1[k] == id) by {
        let p = t.partial[i];
        if listed_by_suffix(words, p, id) {
            let w = choose|w: int|
                0 <= w < words.len() && p.is_suffix_of((#[trigger] words[w]).0)
                    && words[w].1.contains(id);
            let k = choose|k: int| 0 <= k < words[w].1.len() && words[w].1[k] == id;
            assert(words[w].1[k] == id);
        }
        if exists|w: int, k: int|
            0 <= w < words.len() && 0 <= k < words[w].1.len() && p.is_suffix_of(words[w].0)
                && #[trigger] words[w].1[k] == id {
            let (w, k) = choose|w: int, k: int|
                0 <= w < words.len() && 0 <= k < words[w].1.len() && p.is_suffix_of(words[w].0)
                    && #[trigger] words[w].1[k] == id;
            assert(p.is_suffix_of(words[w].0));
            assert(words[w].1.contains(id));
        }
    }
    assert(listed(words, first, id) == under(words, first, id));
    if matches_of(t, max, words).contains(id) {
        assert(ids.contains(id));
        let k = choose|k: int| 0 <= k < ids.len() && ids[k] == id;
        assert(words[s].1[k] == id);
        assert(under(words, first, id));
        assert forall|i: int| 0 <= i < t.included.len() implies under(
            words,
            #[trigger] t.included[i],
            id,
        ) by {
            if i > 0 {
                assert(listed(words, t.included[i], id));
            }
        }
        assert forall|i: int| 0 <= i < t.excluded.len() implies !under(
            words,
            #[trigger] t.excluded[i],
            id,
        ) by {
            assert(!listed(words, t.excluded[i], id));
        }
    }
    if t.included.len() > 1 || t.partial.len() > 0 {
        if (forall|i: int| 0 <= i < t.included.len() ==> under(words, #[trigger] t.included[i], id))
            && (forall|i: int|
            0 <= i < t.partial.len() ==> exists|w: int, k: int|
                0 <= w < words.len() && 0 <= k < words[w].1.len() && (
                #[trigger] t.partial[i]).is_suffix_of(words[w].0) && #[trigger] words[w].1[k] == id)
            && (forall|i: int|
            0 <= i < t.excluded.len() ==> !under(words, #[trigger] t.excluded[i], id)) {
            assert(under(words, t.included[0], id));
            assert(answerable(t, words));
            assert(ids.contains(id));
            assert(matched(t, max, words, id));
        }
    } else {
        if exists|w: int, k: int|
            0 <= w < words.len() && 0 <= k < words[w].1.len() && k < max && words[w].0
                == t.included[0] && #[trigger] words[w].1[k] == id {
            let (w, k) = choose|w: int, k: int|
                0 <= w < words.len() && 0 <= k < words[w].1.len() && k < max && words[w].0
                    == t.included[0] && #[trigger] words[w].1[k] == id;
            assert(w == s) by {
                if w < s {
                    assert(words[w].0 != first);
                } else if s < w {
                    assert(words[s].0 != words[w].0);
                }
            }
            assert(ids[k] == id);
            assert(ids.contains(id));
            assert(answerable(t, words));
        }
    }
}

proof fn lemma_filtered_is_there(s: Seq<Seq<char>>, p: spec_fn(Seq<char>) -> bool, i: int)
    requires
        0 <= i < s.filter(p).len(),
    ensures
        p(s.filter(p)[i]),
        exists|j: int| 0 <= j < s.len() && #[trigger] s[j] == s.filter(p)[i],
    decreases s.len(),
{
    reveal(Seq::filter);
    if s.len() > 0 {
        let d = s.drop_last();
        if i < d.filter(p).len() {
            lemma_filtered_is_there(d, p, i);
            let j = choose|j: int| 0 <= j < d.len() && #[trigger] d[j] == d.filter(p)[i];
            assert(s[j] == s.filter(p)[i]);
        } else {
            assert(s[s.len() - 1] == s.filter(p)[i]);
        }
    }
}

proof fn lemma_filter_counts(s: Seq<Seq<char>>, p: spec_fn(Seq<char>) -> bool)
    ensures
        s.filter(p).len() >= 1 <==> exists|i: int| 0 <= i < s.len() && p(#[trigger] s[i]),
        s.filter(p).len() >= 2 <==> exists|i: int, j: int|
            0 <= i < j < s.len() && p(#[trigger] s[i]) && p(#[trigger] s[j]),
    decreases s.len(),
{
    reveal(Seq::filter);
    if s.len() > 0 {
        let d = s.drop_last();
        let n = s.len() - 1;
        lemma_filter_counts(d, p);
        if exists|i: int| 0 <= i < d.len() && p(#[trigger] d[i]) {
            let i = choose|i: int| 0 <= i < d.len() && p(#[trigger] d[i]);
            assert(p(s[i]));
            if p(s[n]) {
                assert(0 <= i < n < s.len() && p(s[i]) && p(s[n]));
            }
        }
        if exists|i: int, j: int| 0 <= i < j < d.len() && p(#[trigger] d[i]) && p(#[trigger] d[j]) {
            let (i, j) = choose|i: int, j: int|
                0 <= i < j < d.len() && p(#[trigger] d[i]) && p(#[trigger] d[j]);
            assert(p(s[i]) && p(s[j]));
        }
        if exists|i: int| 0 <= i < s.len() && p(#[trigger] s[i]) {
            let i = choose|i: int| 0 <= i < s.len() && p(#[trigger] s[i]);
            if i < n {
                assert(p(d[i]));
            }
        }
        if exists|i: int, j: int| 0 <= i < j < s.len() && p(#[trigger] s[i]) && p(#[trigger] s[j]) {
            let (i, j) = choose|i: int, j: int|
                0 <= i < j < s.len() && p(#[trigger] s[i]) && p(#[trigger] s[j]);
            assert(p(d[i]));
            if j < n {
                assert(p(d[j]));
            }
        }
    }
}

/// What a query asks for, in terms of its own words.
proof fn lemma_terms_fit(query: Seq<Seq<char>>, path: Seq<Seq<char>>)
    ensures
        terms_of(query).included.len() > 0 <==> exists|i: int|
            0 <= i < query.len() && is_plain(#[trigger] query[i]),
        (terms_of(query).included.len() > 1 || terms_of(query).partial.len() > 0) <==> is_compound(
            query,
        ),
        (forall|i: int| 0 <= i < query.len() ==> word_fits(#[trigger] query[i], path)) <==> {
            let t = terms_of(query);
            &&& forall|i: int| 0 <= i < t.included.len() ==> path.contains(#[trigger] t.included[i])
            &&& forall|i: int| 0 <= i < t.excluded.len() ==> !path.contains(#[trigger] t.excluded[i])
            &&& forall|i: int|
                0 <= i < t.partial.len() ==> ends_a_word(#[trigger] t.partial[i], path)
        },
{
    let t = terms_of(query);
    let plain = |w: Seq<char>| is_plain(w);
    let exclusion = |w: Seq<char>| is_exclusion(w);
    let ending = |w: Seq<char>| is_ending(w);
    law_every_word_of_a_query_counts(query);
    let f = query.filter(plain);
    let e = query.filter(exclusion);
    let p = query.filter(ending);
    lemma_filter_counts(query, plain);
    lemma_filter_counts(query, ending);
    if exists|i: int| 0 <= i < query.len() && is_plain(#[trigger] query[i]) {
        let i = choose|i: int| 0 <= i < query.len() && is_plain(#[trigger] query[i]);
        assert(plain(query[i]));
    }
    if exists|i: int| 0 <= i < query.len() && is_ending(#[trigger] query[i]) {
        let i = choose|i: int| 0 <= i < query.len() && is_ending(#[trigger] query[i]);
        assert(ending(query[i]));
    }
    if exists|i: int, j: int|
        0 <= i < j < query.len() && is_plain(#[trigger] query[i]) && is_plain(#[trigger] query[j]) {
        let (i, j) = choose|i: int, j: int|
            0 <= i < j < query.len() && is_plain(#[trigger] query[i]) && is_plain(
                #[trigger] query[j],
            );
        assert(plain(query[i]) && plain(query[j]));
    }
    if f.len() >= 1 {
        let i = choose|i: int| 0 <= i < query.len() && plain(#[trigger] query[i]);
        assert(is_plain(query[i]));
    }
    if f.len() >= 2 {
        let (i, j) = choose|i: int, j: int|
            0 <= i < j < query.len() && plain(#[trigger] query[i]) && plain(#[trigger] query[j]);
        assert(is_plain(query[i]) && is_plain(query[j]));
    }
    if p.len() >= 1 {
        let i = choose|i: int| 0 <= i < query.len() && ending(#[trigger] query[i]);
        assert(is_ending(query[i]));
    }
    if forall|i: int| 0 <= i < query.len() ==> word_fits(#[trigger] query[i], path) {
        assert forall|i: int| 0 <= i < t.included.len() implies path.contains(
            #[trigger] t.included[i],
        ) by {
            lemma_filtered_is_there(query, plain, i);
            let j = choose|j: int| 0 <= j < query.len() && #[trigger] query[j] == f[i];
            assert(word_fits(query[j], path));
        }
        assert forall|i: int| 0 <= i < t.excluded.len() implies !path.contains(
            #[trigger] t.excluded[i],
        ) by {
            lemma_filtered_is_there(query, exclusion, i);
            let j = choose|j: int| 0 <= j < query.len() && #[trigger] query[j] == e[i];
            assert(word_fits(query[j], path));
        }
        assert forall|i: int| 0 <= i < t.partial.len() implies ends_a_word(
            #[trigger] t.partial[i],
            path,
        ) by {
            lemma_filtered_is_there(query, ending, i);
            let j = choose|j: int| 0 <= j < query.len() && #[trigger] query[j] == p[i];
            assert(word_fits(query[j], path));
        }
    }
    if (forall|i: int| 0 <= i < t.included.len() ==> path.contains(#[trigger] t.included[i])) && (
    forall|i: int| 0 <= i < t.excluded.len() ==> !path.contains(#[trigger] t.excluded[i])) && (
    forall|i: int| 0 <= i < t.partial.len() ==> ends_a_word(#[trigger] t.partial[i], path)) {
        assert forall|j: int| 0 <= j < query.len() implies word_fits(#[trigger] query[j], path) by {
            if is_plain(query[j]) {
                assert(plain(query[j]));
                query.lemma_filter_contains(plain, j);
                let i = choose|i: int| 0 <= i < f.len() && f[i] == query[j];
                assert(path.contains(t.included[i]));
            }
            if is_exclusion(query[j]) {
                assert(exclusion(query[j]));
                query.lemma_filter_contains(exclusion, j);
                let i = choose|i: int| 0 <= i < e.len() && e[i] == query[j];
                assert(!path.contains(t.excluded[i]));
            }
            if is_ending(query[j]) {
                assert(ending(query[j]));
                query.lemma_filter_contains(ending, j);
                let i = choose|i: int| 0 <= i < p.len() && p[i] == query[j];
                assert(ends_a_word(t.partial[i], path));
            }
        }
    }
}

/// Whether a file matches a query if and only if its path fits, the cap aside.
proof fn lemma_matches_fit(shares: SharesView, query: Seq<Seq<char>>, max: int, id: u32)
    requires
        index_is_right(shares),
        max >= 0,
    ensures
        ({
            let t = terms_of(query);
            let m = matches_of(t, max, shares.words).contains(id);
            let fits = id < shares.files.len() && query_fits(
                query,
                path_words(shares.files[id as int].virtual_path),
            );
            &&& m ==> fits
            &&& fits && (is_compound(query) || shares.files.len() <= max) ==> m
        }),
{
    let words = shares.words;
    let t = terms_of(query);
    let path = path_words(shares.files[id as int].virtual_path);
    lemma_terms_fit(query, path);
    if t.included.len() > 0 {
        law_matches_are_those_listed_under_every_word(t, max, words, id);
        assert(under(words, t.included[0], id) <==> (id < shares.files.len() && path.contains(
            t.included[0],
        )));
        if id < shares.files.len() {
            assert forall|x: Seq<char>| #[trigger] under(words, x, id) == path.contains(x) by {}
            assert forall|x: Seq<char>| #[trigger] ends_a_word(x, path) == (exists|w: int, k: int|
                0 <= w < words.len() && 0 <= k < words[w].1.len() && x.is_suffix_of(words[w].0)
                    && #[trigger] words[w].1[k] == id) by {
                if ends_a_word(x, path) {
                    let j = choose|j: int|
                        0 <= j < path.len() && x.is_suffix_of(#[trigger] path[j]);
                    assert(path.contains(path[j]));
                    assert(under(words, path[j], id));
                    let (w, k) = choose|w: int, k: int|
                        0 <= w < words.len() && 0 <= k < words[w].1.len() && words[w].0 == path[j]
                            && #[trigger] words[w].1[k] == id;
                    assert(words[w].1[k] == id);
                }
                if exists|w: int, k: int|
                    0 <= w < words.len() && 0 <= k < words[w].1.len() && x.is_suffix_of(words[w].0)
                        && #[trigger] words[w].1[k] == id {
                    let (w, k) = choose|w: int, k: int|
                        0 <= w < words.len() && 0 <= k < words[w].1.len() && x.is_suffix_of(
                            words[w].0,
                        ) && #[trigger] words[w].1[k] == id;
                    assert(under(words, words[w].0, id));
                    assert(path.contains(words[w].0));
                    let j = choose|j: int| 0 <= j < path.len() && path[j] == words[w].0;
                    assert(x.is_suffix_of(path[j]));
                }
            }
            if !is_compound(query) && shares.files.len() <= max && path.contains(t.included[0]) {
                let (w, k) = choose|w: int, k: int|
                    0 <= w < words.len() && 0 <= k < words[w].1.len() && words[w].0
                        == t.included[0] && #[trigger] words[w].1[k] == id;
                lemma_ascending_bound(words[w].1, k);
                assert(words[w].1[k] == id);
            }
        }
    }
}

proof fn lemma_ascending_bound(ids: Seq<u32>, k: int)
    requires
        0 <= k < ids.len(),
        forall|a: int, b: int| 0 <= a < b < ids.len() ==> (#[trigger] ids[a]) < (#[trigger] ids[b]),
    ensures
        k <= ids[k],
    decreases k,
{
    if k > 0 {
        lemma_ascending_bound(ids, k - 1);
        assert(ids[k - 1] < ids[k]);
    }
}

/// Whether some word of a path ends with `ending`.
pub open spec fn ends_a_word(ending: Seq<char>, path: Seq<Seq<char>>) -> bool {
    exists|k: int| 0 <= k < path.len() && ending.is_suffix_of(#[trigger] path[k])
}

/// Whether a shared file answers a search: the words of its path satisfy the query, and its path
/// holds none of the phrases that the server does not allow.
pub open spec fn answers(file: EntryView, term: Seq<char>, phrases: Seq<Seq<char>>) -> bool {
    &&& query_fits(words_of(term), path_words(file.virtual_path))
    &&& forall|i: int|
        0 <= i < phrases.len() ==> !occurs(
            lowercase(file.virtual_path),
            lowercase(#[trigger] phrases[i]),
        )
}

/// Whether what is named to a peer is a shared file that answers a search.
pub open spec fn is_answer(
    named: SharedFileView,
    files: Seq<EntryView>,
    term: Seq<char>,
    phrases: Seq<Seq<char>>,
) -> bool {
    exists|id: int|
        0 <= id < files.len() && answers(#[trigger] files[id], term, phrases) && named.name
            == files[id].virtual_path && named.size == files[id].size
}

/// A search is answered with the shared files that answer it: none else is named, none is left out
/// unless the cap is reached, and they come by their paths. A query of one word looks at no more
/// files than the cap from the first on, so it leaves none out where there are no more files.
pub proof fn law_a_search_is_answered_with_what_fits(
    shares: SharesView,
    term: Seq<char>,
    max: int,
    phrases: Seq<Seq<char>>,
    files: Seq<SharedFileView>,
)
    requires
        index_is_right(shares),
        max >= 0,
        answered(shares, term, max, phrases, files),
    ensures
        files.len() <= max,
        forall|i: int|
            0 <= i < files.len() ==> is_answer(#[trigger] files[i], shares.files, term, phrases),
        files.len() < max && (is_compound(words_of(term)) || shares.files.len() <= max)
            ==> forall|id: int|
            0 <= id < shares.files.len() && id <= u32::MAX && answers(
                #[trigger] shares.files[id],
                term,
                phrases,
            ) ==> files.contains(
                SharedFileView {
                    name: shares.files[id].virtual_path,
                    size: shares.files[id].size,
                },
            ),
        forall|i: int, j: int|
            0 <= i < j < files.len() ==> !crate::order::bytes_before(
                vstd::utf8::encode_utf8((#[trigger] files[j]).name),
                vstd::utf8::encode_utf8((#[trigger] files[i]).name),
            ),
{
    let query = words_of(term);
    let fs = shares.files;
    let set = matches_of(terms_of(query), max, shares.words);
    let order = choose|order: Seq<u32>| #[trigger]
        in_path_order(order, set, fs) && files == info_list(fs, order, max, phrases);
    let keep = may_name(fs, phrases);
    let all = order.filter(keep);
    let ids = at_most(all, max);
    assert forall|i: int| 0 <= i < files.len() implies is_answer(
        #[trigger] files[i],
        fs,
        term,
        phrases,
    ) by {
        let id = ids[i];
        assert(all[i] == id);
        lemma_ids_there(order, keep, i);
        let j = choose|j: int| 0 <= j < order.len() && #[trigger] order[j] == all[i];
        assert(order.contains(id));
        assert(set.contains(id));
        lemma_matches_fit(shares, query, max, id);
        assert(keep(id));
        assert(answers(fs[id as int], term, phrases));
    }
    if files.len() < max && (is_compound(query) || fs.len() <= max) {
        assert forall|id: int|
            0 <= id < fs.len() && id <= u32::MAX && answers(#[trigger] fs[id], term, phrases) implies files.contains(
            SharedFileView { name: fs[id].virtual_path, size: fs[id].size },
        ) by {
            let x = id as u32;
            lemma_matches_fit(shares, query, max, x);
            assert(set.contains(x));
            assert(order.contains(x));
            let j = choose|j: int| 0 <= j < order.len() && order[j] == x;
            assert(keep(order[j]));
            order.lemma_filter_contains(keep, j);
            let k = choose|k: int| 0 <= k < all.len() && all[k] == x;
            assert(ids == all);
            assert(files[k] == as_shared(fs[id]));
        }
    }
    assert forall|i: int, j: int| 0 <= i < j < files.len() implies !crate::order::bytes_before(
        vstd::utf8::encode_utf8((#[trigger] files[j]).name),
        vstd::utf8::encode_utf8((#[trigger] files[i]).name),
    ) by {
        lemma_ids_in_order(order, keep, i, j);
        let (a, b) = choose|a: int, b: int|
            0 <= a < b < order.len() && #[trigger] order[a] == all[i] && #[trigger] order[b]
                == all[j];
        assert(path_before(fs, order[a], order[b]));
        let x = text_key(files[i].name);
        let y = text_key(files[j].name);
        crate::order::lemma_key_order(x, y, x);
    }
}

proof fn lemma_ids_there(s: Seq<u32>, p: spec_fn(u32) -> bool, i: int)
    requires
        0 <= i < s.filter(p).len(),
    ensures
        p(s.filter(p)[i]),
        exists|j: int| 0 <= j < s.len() && #[trigger] s[j] == s.filter(p)[i],
    decreases s.len(),
{
    reveal(Seq::filter);
    if s.len() > 0 {
        let d = s.drop_last();
        if i < d.filter(p).len() {
            lemma_ids_there(d, p, i);
            let j = choose|j: int| 0 <= j < d.len() && #[trigger] d[j] == d.filter(p)[i];
            assert(s[j] == s.filter(p)[i]);
        } else {
            assert(s[s.len() - 1] == s.filter(p)[i]);
        }
    }
}

proof fn lemma_ids_in_order(s: Seq<u32>, p: spec_fn(u32) -> bool, i: int, j: int)
    requires
        0 <= i < j < s.filter(p).len(),
    ensures
        exists|a: int, b: int|
            0 <= a < b < s.len() && #[trigger] s[a] == s.filter(p)[i] && #[trigger] s[b]
                == s.filter(p)[j],
    decreases s.len(),
{
    reveal(Seq::filter);
    let d = s.drop_last();
    let n = s.len() - 1;
    if j < d.filter(p).len() {
        lemma_ids_in_order(d, p, i, j);
        let (a, b) = choose|a: int, b: int|
            0 <= a < b < d.len() && #[trigger] d[a] == d.filter(p)[i] && #[trigger] d[b]
                == d.filter(p)[j];
        assert(s[a] == s.filter(p)[i] && s[b] == s.filter(p)[j]);
    } else {
        lemma_ids_there(d, p, i);
        let a = choose|a: int| 0 <= a < d.len() && #[trigger] d[a] == d.filter(p)[i];
        assert(s[a] == s.filter(p)[i] && s[n] == s.filter(p)[j]);
    }
}

/// A path is held back if and only if it holds a phrase that is not allowed, whatever the case of
/// either.
pub proof fn law_phrases_hold_back_paths(path: Seq<char>, a: Seq<Seq<char>>, b: Seq<Seq<char>>)
    ensures
        suppressed(path, a + b) <==> suppressed(path, a) || suppressed(path, b),
        a.len() == 1 ==> (suppressed(path, a) <==> occurs(lowercase(path), lowercase(a[0]))),
        !suppressed(path, Seq::empty()),
{
    let all = a + b;
    if suppressed(path, all) {
        let i = choose|i: int|
            0 <= i < all.len() && occurs(lowercase(path), lowercase(#[trigger] all[i]));
        if i < a.len() {
            assert(a[i] == all[i]);
        } else {
            assert(b[i - a.len()] == all[i]);
        }
    }
    if suppressed(path, a) {
        let i = choose|i: int|
            0 <= i < a.len() && occurs(lowercase(path), lowercase(#[trigger] a[i]));
        assert(all[i] == a[i]);
    }
    if suppressed(path, b) {
        let i = choose|i: int|
            0 <= i < b.len() && occurs(lowercase(path), lowercase(#[trigger] b[i]));
        assert(all[i + a.len()] == b[i]);
    }
}

} // verus!
