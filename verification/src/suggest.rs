//! Prefix suggestions over the headword table: case-sensitive prefix match,
//! lexicographic ascending order, de-duplicated by headword text, capped at
//! the caller's limit.  An empty prefix is legal and yields the
//! lexicographically first headwords.
//!
//! Candidate rows come back from the trusted query layer; the verified
//! selection over them is a function of the candidates alone — which words
//! are kept, in what order, with which part of speech — so the guarantees
//! hold of whatever the store handed back.

use crate::sqlite::fetch_suggestion_candidates;
use crate::text::{
    is_prefix, lemma_lex_connected, lemma_lex_lt_irrefl, lemma_lex_lt_trans, lex_lt, opt_view,
    starts_with, str_eq, str_lt,
};
use vstd::prelude::*;

verus! {

/// One suggestion: a headword and its part of speech.
pub struct Suggestion {
    pub word: String,
    pub pos: Option<String>,
}

/// Mathematical view of a suggestion.
pub struct SuggestionModel {
    pub word: Seq<char>,
    pub pos: Option<Seq<char>>,
}

impl View for Suggestion {
    type V = SuggestionModel;

    open spec fn view(&self) -> SuggestionModel {
        SuggestionModel { word: self.word@, pos: opt_view(self.pos) }
    }
}

/// Views of a sequence of suggestions.
pub open spec fn sugg_models(v: Seq<Suggestion>) -> Seq<SuggestionModel> {
    v.map_values(|s: Suggestion| s@)
}

/// Views of a sequence of candidate (word, part-of-speech) pairs.
pub open spec fn pair_models(v: Seq<(String, Option<String>)>) -> Seq<
    (Seq<char>, Option<Seq<char>>),
> {
    v.map_values(|p: (String, Option<String>)| (p.0@, opt_view(p.1)))
}

/// Strict ascending lexicographic order of the suggestion words; strictness
/// also makes the words pairwise distinct.
pub open spec fn strictly_sorted(s: Seq<Suggestion>) -> bool {
    forall|i: int, j: int| 0 <= i < j < s.len() ==> lex_lt(s[i].word@, s[j].word@)
}

/// Insertion into a suggestion list ordered by word: the new suggestion goes
/// in front of the first word that is not smaller, and is dropped when that
/// word equals its own — the earlier suggestion wins.
pub open spec fn insert_unique(s: Seq<SuggestionModel>, x: SuggestionModel) -> Seq<
    SuggestionModel,
>
    decreases s.len(),
{
    if s.len() == 0 {
        seq![x]
    } else if x.word == s[0].word {
        s
    } else if lex_lt(x.word, s[0].word) {
        seq![x] + s
    } else {
        seq![s[0]] + insert_unique(s.drop_first(), x)
    }
}

/// The suggestion selection over candidate pairs, in arrival order: each
/// candidate whose word carries the prefix is inserted in word order, and a
/// word already present is not inserted again.
pub open spec fn selected(
    cands: Seq<(Seq<char>, Option<Seq<char>>)>,
    prefix: Seq<char>,
) -> Seq<SuggestionModel>
    decreases cands.len(),
{
    if cands.len() == 0 {
        Seq::<SuggestionModel>::empty()
    } else {
        let prev = selected(cands.drop_last(), prefix);
        let c = cands.last();
        if is_prefix(prefix, c.0) {
            insert_unique(prev, SuggestionModel { word: c.0, pos: c.1 })
        } else {
            prev
        }
    }
}

/// The suggestion selection, capped at `limit`.
pub open spec fn spec_select_suggestions(
    cands: Seq<(Seq<char>, Option<Seq<char>>)>,
    prefix: Seq<char>,
    limit: int,
) -> Seq<SuggestionModel> {
    let full = selected(cands, prefix);
    if full.len() <= limit {
        full
    } else {
        full.subrange(0, limit)
    }
}

/// At the first position whose word is not smaller than the new word,
/// `insert_unique` either drops the new suggestion (equal word there) or
/// inserts it exactly there.
proof fn lemma_insert_unique_at(s: Seq<SuggestionModel>, x: SuggestionModel, pos: int)
    requires
        0 <= pos <= s.len(),
        forall|k: int| 0 <= k < pos ==> lex_lt(#[trigger] s[k].word, x.word),
        pos < s.len() ==> !lex_lt(s[pos].word, x.word),
    ensures
        insert_unique(s, x) == if pos < s.len() && s[pos].word == x.word {
            s
        } else {
            s.insert(pos, x)
        },
    decreases s.len(),
{
    if s.len() == 0 {
        assert(insert_unique(s, x) =~= s.insert(0, x));
    } else if pos == 0 {
        if x.word == s[0].word {
        } else {
            lemma_lex_connected(x.word, s[0].word);
            assert(lex_lt(x.word, s[0].word));
            assert(seq![x] + s =~= s.insert(0, x));
        }
    } else {
        assert(lex_lt(s[0].word, x.word));
        assert(x.word != s[0].word) by {
            if x.word == s[0].word {
                lemma_lex_lt_irrefl(x.word);
            }
        }
        assert(!lex_lt(x.word, s[0].word)) by {
            if lex_lt(x.word, s[0].word) {
                lemma_lex_lt_trans(s[0].word, x.word, s[0].word);
                lemma_lex_lt_irrefl(s[0].word);
            }
        }
        let d = s.drop_first();
        assert forall|k: int| 0 <= k < pos - 1 implies lex_lt(#[trigger] d[k].word, x.word) by {
            assert(d[k] == s[k + 1]);
        }
        assert(pos - 1 < d.len() ==> !lex_lt(d[pos - 1].word, x.word)) by {
            if pos - 1 < d.len() {
                assert(d[pos - 1] == s[pos]);
            }
        }
        lemma_insert_unique_at(d, x, pos - 1);
        if pos < s.len() && s[pos].word == x.word {
            assert(d[pos - 1] == s[pos]);
            assert(insert_unique(s, x) == seq![s[0]] + d);
            assert(seq![s[0]] + d =~= s);
        } else {
            s.insert_ensures(pos, x);
            d.insert_ensures(pos - 1, x);
            assert(insert_unique(s, x) == seq![s[0]] + d.insert(pos - 1, x));
            assert forall|k: int| 0 <= k < s.len() + 1 implies (seq![s[0]] + d.insert(
                pos - 1,
                x,
            ))[k] == s.insert(pos, x)[k] by {
                if k > 0 {
                    assert((seq![s[0]] + d.insert(pos - 1, x))[k] == d.insert(pos - 1, x)[k - 1]);
                    if k - 1 < pos - 1 {
                        assert(d.insert(pos - 1, x)[k - 1] == d[k - 1]);
                        assert(d[k - 1] == s[k]);
                    } else if k - 1 == pos - 1 {
                    } else {
                        assert(d.insert(pos - 1, x)[k - 1] == d[k - 2]);
                        assert(d[k - 2] == s[k - 1]);
                    }
                }
            }
            assert(seq![s[0]] + d.insert(pos - 1, x) =~= s.insert(pos, x));
        }
    }
}

/// Inserts a suggestion into a strictly sorted list, keeping it strictly
/// sorted; a suggestion whose word is already present is dropped.  The new
/// list is exactly `insert_unique` of the old one.
fn insert_unique_sorted(v: &mut Vec<Suggestion>, x: Suggestion)
    requires
        strictly_sorted(old(v)@),
    ensures
        strictly_sorted(final(v)@),
        final(v)@.len() <= old(v)@.len() + 1,
        forall|k: int|
            0 <= k < final(v)@.len() ==> (exists|j: int|
                0 <= j < old(v)@.len() && #[trigger] final(v)@[k] == old(v)@[j]) || final(v)@[k]
                == x,
        sugg_models(final(v)@) == insert_unique(sugg_models(old(v)@), x@),
{
    let n = v.len();
    let mut idx: usize = 0;
    while idx < n
        invariant
            n == v@.len(),
            idx <= n,
            forall|k: int| 0 <= k < idx ==> lex_lt(#[trigger] v@[k].word@, x.word@),
        ensures
            n == v@.len(),
            idx <= n,
            forall|k: int| 0 <= k < idx ==> lex_lt(#[trigger] v@[k].word@, x.word@),
            idx < n ==> !lex_lt(v@[idx as int].word@, x.word@),
        decreases n - idx,
    {
        if !str_lt(v[idx].word.as_str(), x.word.as_str()) {
            break ;
        }
        idx = idx + 1;
    }
    let ghost oldv = v@;
    let ghost m = sugg_models(oldv);
    let ghost pos = idx as int;
    proof {
        assert forall|k: int| 0 <= k < pos implies lex_lt(#[trigger] m[k].word, x@.word) by {
            assert(m[k] == oldv[k]@);
        }
        assert(pos < m.len() ==> !lex_lt(m[pos].word, x@.word)) by {
            if pos < m.len() {
                assert(m[pos] == oldv[pos]@);
            }
        }
        lemma_insert_unique_at(m, x@, pos);
    }
    if idx < n {
        if str_eq(v[idx].word.as_str(), x.word.as_str()) {
            proof {
                assert(m[pos] == oldv[pos]@);
                assert(m[pos].word == x@.word);
                assert(insert_unique(m, x@) == m);
            }
            return ;
        }
    }
    proof {
        if pos < oldv.len() {
            lemma_lex_connected(oldv[pos].word@, x.word@);
        }
        assert(!(pos < m.len() && m[pos].word == x@.word)) by {
            if pos < m.len() {
                assert(m[pos] == oldv[pos]@);
            }
        }
    }
    v.insert(idx, x);
    proof {
        oldv.insert_ensures(pos, x);
        m.insert_ensures(pos, x@);
        assert forall|k: int| 0 <= k < v@.len() implies sugg_models(v@)[k] == m.insert(
            pos,
            x@,
        )[k] by {
            assert(sugg_models(v@)[k] == v@[k]@);
            if k < pos {
                assert(v@[k] == oldv[k]);
                assert(m[k] == oldv[k]@);
            } else if k > pos {
                assert(v@[k] == oldv[k - 1]);
                assert(m[k - 1] == oldv[k - 1]@);
            }
        }
        assert(sugg_models(v@) =~= m.insert(pos, x@));
        assert forall|i: int, j: int| 0 <= i < j < v@.len() implies lex_lt(
            v@[i].word@,
            v@[j].word@,
        ) by {
            let a = if i < pos {
                oldv[i]
            } else if i == pos {
                x
            } else {
                oldv[i - 1]
            };
            let b = if j < pos {
                oldv[j]
            } else if j == pos {
                x
            } else {
                oldv[j - 1]
            };
            assert(v@[i] == a);
            assert(v@[j] == b);
            if i < pos && j == pos {
                assert(lex_lt(a.word@, b.word@));
            } else if i == pos && j > pos {
                assert(lex_lt(x.word@, oldv[pos].word@));
                if j - 1 > pos {
                    lemma_lex_lt_trans(x.word@, oldv[pos].word@, oldv[j - 1].word@);
                }
            } else if i < pos && j > pos {
                assert(lex_lt(oldv[i].word@, oldv[j - 1].word@));
            }
        }
        assert forall|k: int| 0 <= k < v@.len() implies (exists|j: int|
            0 <= j < oldv.len() && #[trigger] v@[k] == oldv[j]) || v@[k] == x by {
            if k < pos {
                assert(v@[k] == oldv[k]);
            } else if k > pos {
                assert(v@[k] == oldv[k - 1]);
            }
        }
    }
}

/// The verified suggestion selection over fetched candidate pairs: exactly
/// the deduplicated, word-ordered sequence of candidates carrying the
/// literal prefix, truncated to `limit` — a function of the candidates, the
/// prefix and the limit alone.
pub fn select_suggestions(
    cands: &Vec<(String, Option<String>)>,
    prefix: &str,
    limit: usize,
) -> (r: Vec<Suggestion>)
    ensures
        sugg_models(r@) == spec_select_suggestions(pair_models(cands@), prefix@, limit as int),
        r@.len() <= limit,
        forall|k: int| 0 <= k < r@.len() ==> is_prefix(prefix@, #[trigger] r@[k].word@),
        strictly_sorted(r@),
{
    let mut sorted: Vec<Suggestion> = Vec::new();
    let n = cands.len();
    let mut i: usize = 0;
    proof {
        assert(pair_models(cands@.subrange(0, 0)) =~= Seq::<
            (Seq<char>, Option<Seq<char>>),
        >::empty());
        assert(sugg_models(sorted@) =~= Seq::<SuggestionModel>::empty());
    }
    while i < n
        invariant
            n == cands.len(),
            i <= n,
            strictly_sorted(sorted@),
            forall|k: int|
                0 <= k < sorted@.len() ==> is_prefix(prefix@, #[trigger] sorted@[k].word@),
            sugg_models(sorted@) == selected(pair_models(cands@.subrange(0, i as int)), prefix@),
        decreases n - i,
    {
        let ghost pm_prev = pair_models(cands@.subrange(0, i as int));
        let ghost pm_cur = pair_models(cands@.subrange(0, i as int + 1));
        proof {
            assert(pm_cur =~= pm_prev.push((cands@[i as int].0@, opt_view(cands@[i as int].1))));
            assert(pm_cur.drop_last() =~= pm_prev);
            assert(pm_cur.last() == (cands@[i as int].0@, opt_view(cands@[i as int].1)));
        }
        let keep = starts_with(cands[i].0.as_str(), prefix);
        if keep {
            let ghost before = sorted@;
            let x = Suggestion {
                word: cands[i].0.clone(),
                pos: match &cands[i].1 {
                    Some(p) => Some(p.clone()),
                    None => None,
                },
            };
            proof {
                assert(x@ == (SuggestionModel {
                    word: pm_cur.last().0,
                    pos: pm_cur.last().1,
                }));
            }
            insert_unique_sorted(&mut sorted, x);
            proof {
                assert(sugg_models(sorted@) == selected(pm_cur, prefix@));
                assert forall|k: int| 0 <= k < sorted@.len() implies is_prefix(
                    prefix@,
                    #[trigger] sorted@[k].word@,
                ) by {
                    if sorted@[k] != x {
                        let j = choose|j: int| 0 <= j < before.len() && sorted@[k] == before[j];
                        assert(is_prefix(prefix@, before[j].word@));
                    }
                }
            }
        }
        i = i + 1;
    }
    proof {
        assert(cands@.subrange(0, n as int) =~= cands@);
    }
    let ghost full = sorted@;
    sorted.truncate(limit);
    proof {
        assert forall|k: int| 0 <= k < sorted@.len() implies is_prefix(
            prefix@,
            #[trigger] sorted@[k].word@,
        ) by {
            assert(sorted@[k] == full[k]);
        }
        assert forall|i2: int, j2: int| 0 <= i2 < j2 < sorted@.len() implies lex_lt(
            sorted@[i2].word@,
            sorted@[j2].word@,
        ) by {
            assert(sorted@[i2] == full[i2]);
            assert(sorted@[j2] == full[j2]);
        }
        assert forall|k: int| 0 <= k < sorted@.len() implies sugg_models(sorted@)[k]
            == spec_select_suggestions(pair_models(cands@), prefix@, limit as int)[k] by {
            assert(sugg_models(sorted@)[k] == sorted@[k]@);
            assert(sorted@[k] == full[k]);
            assert(sugg_models(full)[k] == full[k]@);
        }
        assert(sugg_models(sorted@) =~= spec_select_suggestions(
            pair_models(cands@),
            prefix@,
            limit as int,
        ));
    }
    sorted
}

/// Prefix suggestions from the open store `conn`: the verified selection
/// over whatever candidate rows the store handed back — never more than
/// `limit` results, every returned word starts with `prefix`, and the words
/// are in strictly ascending lexicographic order, so pairwise distinct.
pub fn search_suggestions(conn: &rusqlite::Connection, prefix: &str, limit: usize) -> (r: Vec<
    Suggestion,
>)
    ensures
        r@.len() <= limit,
        forall|k: int| 0 <= k < r@.len() ==> is_prefix(prefix@, #[trigger] r@[k].word@),
        strictly_sorted(r@),
{
    let cands = fetch_suggestion_candidates(conn, prefix, limit);
    select_suggestions(&cands, prefix, limit)
}

} // verus!
