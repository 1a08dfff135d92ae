//! Fuzzy scoring of command texts against a query, and the ranking of what matched.

use fuzzy_matcher::skim::SkimMatcherV2;
use fuzzy_matcher::FuzzyMatcher;
use vstd::prelude::*;
use vstd::string::*;

verus! {

/// The longest text that is handed to the matcher, in characters.
pub const MAX_SEARCH_TEXT_LEN: usize = 1_000_000;

/// The score that the skim matcher gives the text `choice` for the query
/// `pattern`, or nothing where `pattern` does not match.
pub uninterp spec fn skim_score(choice: Seq<char>, pattern: Seq<char>) -> Option<i64>;

/// A match: the place of a command in the registry and its score.
pub type Match = (usize, i64);

/// The text that a command is searched by: its key hint, a space, its description.
pub open spec fn search_text_of(key: Seq<char>, description: Seq<char>) -> Seq<char> {
    key + seq![' '] + description
}

/// The order of the ranking: higher score first, and among equal scores the
/// command that stands earlier in the registry.
pub open spec fn ranks_before(a: Match, b: Match) -> bool {
    a.1 > b.1 || (a.1 == b.1 && a.0 < b.0)
}

/// Where a match with `score` goes into `ranked` when it comes from further
/// down the registry than all of `ranked`: behind every match that scores as
/// much or more.
pub open spec fn rank_index(ranked: Seq<Match>, score: i64) -> int
    decreases ranked.len(),
{
    if ranked.len() == 0 {
        0
    } else if ranked.last().1 >= score {
        ranked.len() as int
    } else {
        rank_index(ranked.drop_last(), score)
    }
}

/// The ranking of the commands that matched. `scores` holds, for each place
/// of the registry, the score of the command there, or nothing where it did not
/// match.
pub open spec fn ranking(scores: Seq<Option<i64>>) -> Seq<Match>
    decreases scores.len(),
{
    if scores.len() == 0 {
        Seq::empty()
    } else {
        let rest = ranking(scores.drop_last());
        match scores.last() {
            None => rest,
            Some(score) => rest.insert(
                rank_index(rest, score),
                ((scores.len() - 1) as usize, score),
            ),
        }
    }
}

/// What makes `ranked` a ranking of the commands with the given scores: it
/// holds the commands that matched and no others, each with its score, and
/// every match stands before those that it ranks before. No command can then
/// occur twice.
pub open spec fn is_ranking_of(ranked: Seq<Match>, scores: Seq<Option<i64>>) -> bool {
    &&& forall|k: int|
        0 <= k < ranked.len() ==> (#[trigger] ranked[k]).0 < scores.len() && scores[ranked[k].0 as int]
            == Some(ranked[k].1)
    &&& forall|i: int|
        0 <= i < scores.len() && (#[trigger] scores[i]) is Some ==> exists|k: int|
            0 <= k < ranked.len() && (#[trigger] ranked[k]).0 == i
    &&& forall|a: int, b: int|
        #![trigger ranked[a], ranked[b]]
        0 <= a < b < ranked.len() ==> ranks_before(ranked[a], ranked[b])
}

/// The place in `ranked` of the command that stands at `index` in the registry.
pub open spec fn place_in(ranked: Seq<Match>, index: usize) -> int {
    choose|k: int| 0 <= k < ranked.len() && (#[trigger] ranked[k]).0 == index
}

/// The ranking when nothing was asked for: every command, in registry order, with score 0.
pub open spec fn unranked(count: nat) -> Seq<Match> {
    Seq::new(count, |i: int| (i as usize, 0i64))
}

/// Scores `choice` against `pattern` with a `SkimMatcherV2` in its default
/// settings, through `FuzzyMatcher::fuzzy_match`. A matcher made for the call
/// has no memory of earlier calls, so the score depends on the two texts alone;
/// `skim_score` stands for it. The matcher adds its scores up in 32 bits: texts
/// within the length asked for here stay far inside that range.
#[verifier::external_body]
fn skim_match(choice: &str, pattern: &str) -> (r: Option<i64>)
    requires
        choice@.len() <= MAX_SEARCH_TEXT_LEN,
    ensures
        r == skim_score(choice@, pattern@),
{
    SkimMatcherV2::default().fuzzy_match(choice, pattern)
}

/// The text that a command is searched by.
pub fn search_text(key: &str, description: &str) -> (r: String)
    ensures
        r@ == search_text_of(key@, description@),
{
    let mut text = String::from_str(key);
    text.push(' ');
    text.append(description);
    assert(text@ =~= search_text_of(key@, description@));
    text
}

/// The score of a command for a query, or nothing where the query does not
/// match the command's search text.
pub fn command_score(key: &str, description: &str, query: &str) -> (r: Option<i64>)
    requires
        search_text_of(key@, description@).len() <= MAX_SEARCH_TEXT_LEN,
    ensures
        r == skim_score(search_text_of(key@, description@), query@),
{
    let text = search_text(key, description);
    skim_match(text.as_str(), query)
}

/// In a ranking, the matches before the place where a score goes score as
/// much or more, and the matches from that place on score less.
pub proof fn lemma_rank_index_splits(ranked: Seq<Match>, score: i64)
    requires
        forall|a: int, b: int|
            #![trigger ranked[a], ranked[b]]
            0 <= a < b < ranked.len() ==> ranked[a].1 >= ranked[b].1,
    ensures
        0 <= rank_index(ranked, score) <= ranked.len(),
        forall|k: int| 0 <= k < rank_index(ranked, score) ==> (#[trigger] ranked[k]).1 >= score,
        forall|k: int|
            rank_index(ranked, score) <= k < ranked.len() ==> (#[trigger] ranked[k]).1 < score,
    decreases ranked.len(),
{
    if ranked.len() == 0 {
    } else if ranked.last().1 >= score {
        assert forall|k: int| 0 <= k < ranked.len() implies (#[trigger] ranked[k]).1 >= score by {
            if k < ranked.len() - 1 {
                assert(ranked[k].1 >= ranked[ranked.len() - 1].1);
            }
        }
    } else {
        let init = ranked.drop_last();
        assert forall|a: int, b: int| #![trigger init[a], init[b]] 0 <= a < b < init.len() implies init[a].1
            >= init[b].1 by {
            assert(ranked[a].1 >= ranked[b].1);
        }
        lemma_rank_index_splits(init, score);
        assert forall|k: int| 0 <= k < rank_index(ranked, score) implies (#[trigger] ranked[k]).1
            >= score by {
            assert(ranked[k] == init[k]);
        }
        assert forall|k: int| rank_index(ranked, score) <= k < ranked.len() implies (
        #[trigger] ranked[k]).1 < score by {
            if k < init.len() {
                assert(ranked[k] == init[k]);
            }
        }
    }
}

/// The ranking holds exactly the commands that matched, each once and with
/// its score, the higher score first, and commands that score alike in the
/// order of the registry.
pub proof fn lemma_ranking_is_ordered_and_complete(scores: Seq<Option<i64>>)
    requires
        scores.len() <= usize::MAX,
    ensures
        is_ranking_of(ranking(scores), scores),
        ranking(scores).len() <= scores.len(),
    decreases scores.len(),
{
    if scores.len() > 0 {
        let init = scores.drop_last();
        let rest = ranking(init);
        lemma_ranking_is_ordered_and_complete(init);
        let n = (scores.len() - 1) as usize;
        match scores.last() {
            None => {
                assert(rest == ranking(scores));
                assert forall|k: int| 0 <= k < rest.len() implies (#[trigger] rest[k]).0
                    < scores.len() && scores[rest[k].0 as int] == Some(rest[k].1) by {
                    assert(init[rest[k].0 as int] == scores[rest[k].0 as int]);
                }
                assert forall|i: int| 0 <= i < scores.len() && (#[trigger] scores[i]) is Some implies exists|
                    k: int,
                | 0 <= k < rest.len() && (#[trigger] rest[k]).0 == i by {
                    assert(init[i] == scores[i]);
                }
            },
            Some(score) => {
                assert forall|a: int, b: int| #![trigger rest[a], rest[b]] 0 <= a < b < rest.len() implies rest[a].1
                    >= rest[b].1 by {
                    assert(ranks_before(rest[a], rest[b]));
                }
                lemma_rank_index_splits(rest, score);
                let p = rank_index(rest, score);
                let out = rest.insert(p, (n, score));
                assert(out == ranking(scores));
                assert forall|k: int| 0 <= k < out.len() implies (#[trigger] out[k]).0
                    < scores.len() && scores[out[k].0 as int] == Some(out[k].1) by {
                    if k < p {
                        assert(out[k] == rest[k]);
                        assert(init[rest[k].0 as int] == scores[rest[k].0 as int]);
                    } else if k > p {
                        assert(out[k] == rest[k - 1]);
                        assert(init[rest[k - 1].0 as int] == scores[rest[k - 1].0 as int]);
                    }
                }
                assert forall|i: int| 0 <= i < scores.len() && (#[trigger] scores[i]) is Some implies exists|
                    k: int,
                | 0 <= k < out.len() && (#[trigger] out[k]).0 == i by {
                    if i == n {
                        assert(out[p].0 == i);
                    } else {
                        assert(init[i] == scores[i]);
                        let k0 = choose|k: int| 0 <= k < rest.len() && (#[trigger] rest[k]).0 == i;
                        if k0 < p {
                            assert(out[k0] == rest[k0]);
                        } else {
                            assert(out[k0 + 1] == rest[k0]);
                        }
                    }
                }
                assert forall|a: int, b: int| #![trigger out[a], out[b]] 0 <= a < b < out.len() implies ranks_before(
                    out[a],
                    out[b],
                ) by {
                    if b < p {
                        assert(out[a] == rest[a] && out[b] == rest[b]);
                        assert(ranks_before(rest[a], rest[b]));
                    } else if b == p {
                        assert(out[a] == rest[a]);
                        assert(rest[a].1 >= score && rest[a].0 < n);
                    } else if a == p {
                        assert(out[b] == rest[b - 1]);
                        assert(rest[b - 1].1 < score);
                    } else if a < p {
                        assert(out[a] == rest[a] && out[b] == rest[b - 1]);
                        assert(ranks_before(rest[a], rest[b - 1]));
                    } else {
                        assert(out[a] == rest[a - 1] && out[b] == rest[b - 1]);
                        assert(ranks_before(rest[a - 1], rest[b - 1]));
                    }
                }
            },
        }
    }
}

/// Of two rankings of the same scores, a match of the first stands in the
/// second at least as far back.
proof fn lemma_rank_does_not_fall_back(
    x: Seq<Match>,
    y: Seq<Match>,
    scores: Seq<Option<i64>>,
    k: int,
)
    requires
        is_ranking_of(x, scores),
        is_ranking_of(y, scores),
        0 <= k < x.len(),
    ensures
        k <= place_in(y, x[k].0) < y.len(),
        y[place_in(y, x[k].0)] == x[k],
    decreases k,
{
    let index = x[k].0;
    assert(scores[index as int] is Some);
    let j = place_in(y, index);
    assert(0 <= j < y.len() && y[j].0 == index);
    assert(scores[y[j].0 as int] == Some(y[j].1));
    if k > 0 {
        lemma_rank_does_not_fall_back(x, y, scores, k - 1);
        let j0 = place_in(y, x[k - 1].0);
        assert(ranks_before(x[k - 1], x[k]));
        if j < j0 {
            assert(ranks_before(y[j], y[j0]));
        }
    }
}

/// There is one ranking only: whatever holds the commands that matched,
/// each with its score and in the order of the ranking, is the ranking.
pub proof fn lemma_ranking_is_unique(ranked: Seq<Match>, scores: Seq<Option<i64>>)
    requires
        is_ranking_of(ranked, scores),
        scores.len() <= usize::MAX,
    ensures
        ranked == ranking(scores),
{
    let other = ranking(scores);
    lemma_ranking_is_ordered_and_complete(scores);
    assert forall|k: int| 0 <= k < ranked.len() implies k < other.len() && ranked[k]
        == other[k] by {
        lemma_rank_does_not_fall_back(ranked, other, scores, k);
        let j = place_in(other, ranked[k].0);
        lemma_rank_does_not_fall_back(other, ranked, scores, j);
        let back = place_in(ranked, other[j].0);
        assert(ranked[back] == ranked[k]);
        if back < k {
            assert(ranks_before(ranked[back], ranked[k]));
        } else if k < back {
            assert(ranks_before(ranked[k], ranked[back]));
        }
    }
    if ranked.len() > 0 {
        lemma_rank_does_not_fall_back(ranked, other, scores, ranked.len() - 1);
    }
    if other.len() > 0 {
        lemma_rank_does_not_fall_back(other, ranked, scores, other.len() - 1);
    }
    assert(ranked =~= other);
}

/// Where no command matches, the ranking is empty.
pub proof fn lemma_no_match_ranks_nothing(scores: Seq<Option<i64>>)
    requires
        forall|i: int| 0 <= i < scores.len() ==> (#[trigger] scores[i]) is None,
        scores.len() <= usize::MAX,
    ensures
        ranking(scores).len() == 0,
{
    lemma_ranking_is_ordered_and_complete(scores);
    if ranking(scores).len() > 0 {
        let first = ranking(scores)[0];
        assert(scores[first.0 as int] is Some);
    }
}

/// Where every command matches with the same score, the ranking is the
/// registry order.
pub proof fn lemma_equal_scores_rank_in_registry_order(scores: Seq<Option<i64>>, score: i64)
    requires
        forall|i: int| 0 <= i < scores.len() ==> (#[trigger] scores[i]) == Some(score),
        scores.len() <= usize::MAX,
    ensures
        ranking(scores) == Seq::new(scores.len(), |i: int| (i as usize, score)),
    decreases scores.len(),
{
    if scores.len() == 0 {
        assert(ranking(scores) =~= Seq::new(scores.len(), |i: int| (i as usize, score)));
    } else {
        let init = scores.drop_last();
        assert forall|i: int| 0 <= i < init.len() implies (#[trigger] init[i]) == Some(score) by {
            assert(init[i] == scores[i]);
        }
        lemma_equal_scores_rank_in_registry_order(init, score);
        let rest = ranking(init);
        assert(scores.last() == Some(score));
        if rest.len() > 0 {
            assert(rest.last().1 == score);
        }
        assert(rank_index(rest, score) == rest.len());
        assert(ranking(scores) =~= Seq::new(scores.len(), |i: int| (i as usize, score)));
    }
}

/// Ranks the commands that matched: the higher score first, and commands
/// that score alike in the order of the registry.
pub fn rank_matches(scores: &Vec<Option<i64>>) -> (r: Vec<Match>)
    ensures
        r@ == ranking(scores@),
        forall|k: int| 0 <= k < r@.len() ==> (#[trigger] r@[k]).0 < scores@.len(),
{
    let mut out: Vec<Match> = Vec::new();
    let mut i: usize = 0;
    assert(scores@.take(0) =~= Seq::empty());
    while i < scores.len()
        invariant
            0 <= i <= scores.len(),
            out@ == ranking(scores@.take(i as int)),
        decreases scores.len() - i,
    {
        proof {
            assert(scores@.take(i + 1).drop_last() =~= scores@.take(i as int));
            assert(scores@.take(i + 1).last() == scores@[i as int]);
        }
        if let Some(score) = scores[i] {
            let mut at: usize = out.len();
            assert(out@.take(at as int) =~= out@);
            while at > 0 && out[at - 1].1 < score
                invariant
                    0 <= at <= out.len(),
                    rank_index(out@, score) == rank_index(out@.take(at as int), score),
                decreases at,
            {
                proof {
                    assert(out@.take(at as int).last() == out@[at - 1]);
                    assert(out@.take(at as int).drop_last() =~= out@.take(at - 1));
                }
                at -= 1;
            }
            proof {
                if at > 0 {
                    assert(out@.take(at as int).last() == out@[at - 1]);
                }
                assert(rank_index(out@, score) == at);
            }
            out.insert(at, (i, score));
        }
        i += 1;
    }
    proof {
        assert(scores@.take(i as int) =~= scores@);
        lemma_ranking_is_ordered_and_complete(scores@);
    }
    out
}

} // verus!
