//! The fuzzy search: file names scored against a pattern by the
//! `fuzzy-matcher` crate, the good ones ranked by score.

use vstd::prelude::*;
use vstd::seq_lib::{to_multiset_build, to_multiset_insert};
use crate::commands::FuzzyCommand;
use crate::config::ConfigView;
use crate::text::{file_name, file_name_of, from_chars, texts, to_chars};

verus! {

/// The score that `fuzzy_matcher::skim::SkimMatcherV2`, as `default` makes
/// it, gives `choice` for `pattern`; `None` where it finds no match.
pub uninterp spec fn skim_score(choice: Seq<char>, pattern: Seq<char>) -> Option<i64>;

/// `FuzzyMatcher::fuzzy_match` of a default `SkimMatcherV2`.
#[verifier::external_body]
fn skim_match(choice: &str, pattern: &str) -> (r: Option<i64>)
    ensures
        r == skim_score(choice@, pattern@),
{
    fuzzy_matcher::FuzzyMatcher::fuzzy_match(
        &fuzzy_matcher::skim::SkimMatcherV2::default(),
        choice,
        pattern,
    )
}

/// A path with the score of its file name.
#[derive(Debug, Clone)]
pub struct FuzzyMatch {
    pub path: String,
    pub score: i64,
}

/// The mathematical value of a `FuzzyMatch`.
pub struct RankedView {
    pub path: Seq<char>,
    pub score: i64,
}

impl View for FuzzyMatch {
    type V = RankedView;

    open spec fn view(&self) -> RankedView {
        RankedView { path: self.path@, score: self.score }
    }
}

/// The values of a list of scored paths.
pub open spec fn ranked_views(list: Seq<FuzzyMatch>) -> Seq<RankedView> {
    Seq::new(list.len(), |i: int| list[i]@)
}

/// The score that a fuzzy match must exceed where the configuration sets
/// none.
pub const DEFAULT_THRESHOLD: i64 = 50;

/// The threshold of a configuration.
pub open spec fn threshold_of(config: ConfigView) -> i64 {
    match config.fuzzy_threshold {
        Some(t) => t as i64,
        None => DEFAULT_THRESHOLD,
    }
}

/// Whether a path with the score `score` for its name is kept.
pub open spec fn is_kept(score: Option<i64>, threshold: i64) -> bool {
    score matches Some(s) && s > threshold
}

/// The paths among the first `n` of `paths` whose file names score above
/// `threshold` for `pattern`, each with its score, in the order of `paths`.
pub open spec fn selected(paths: Seq<Seq<char>>, pattern: Seq<char>, threshold: i64, n: int) -> Seq<
    RankedView,
>
    decreases n,
{
    if n <= 0 || n > paths.len() {
        Seq::empty()
    } else {
        let before = selected(paths, pattern, threshold, n - 1);
        let score = skim_score(file_name_of(paths[n - 1]), pattern);
        if is_kept(score, threshold) {
            before.push(RankedView { path: paths[n - 1], score: score->0 })
        } else {
            before
        }
    }
}

/// No entry of `list` has a lower score than one behind it.
pub open spec fn is_ranked(list: Seq<RankedView>) -> bool {
    forall|i: int, j: int| 0 <= i < j < list.len() ==> list[i].score >= list[j].score
}

/// Where an entry with the score `score` goes into a list: the first index,
/// from `from` on, whose entry has a lower score.
pub open spec fn rank_position(ranked: Seq<RankedView>, score: i64, from: int) -> int
    decreases ranked.len() - from,
{
    if 0 <= from < ranked.len() && ranked[from].score >= score {
        rank_position(ranked, score, from + 1)
    } else {
        from
    }
}

/// The list with `entry` put in front of its first entry with a lower
/// score; in a ranked list that is behind every entry whose score is not
/// lower, and in front of the others.
pub open spec fn inserted(ranked: Seq<RankedView>, entry: RankedView) -> Seq<RankedView> {
    ranked.insert(rank_position(ranked, entry.score, 0), entry)
}

/// The ranking of the first `n` entries of `list`: highest score first,
/// entries of equal score in the order of `list`.
pub open spec fn ranking(list: Seq<RankedView>, n: int) -> Seq<RankedView>
    decreases n,
{
    if n <= 0 || n > list.len() {
        Seq::empty()
    } else {
        inserted(ranking(list, n - 1), list[n - 1])
    }
}

/// Decides for one scored candidate whether it is kept.
pub fn keeps(score: Option<i64>, threshold: i64) -> (r: bool)
    ensures
        r == is_kept(score, threshold),
{
    match score {
        Some(s) => s > threshold,
        None => false,
    }
}

/// Puts `entry` into the list `ranked`: in front of the first entry with a
/// lower score, or at the end. A ranked list stays ranked, with `entry`
/// behind every entry whose score is not lower.
pub fn insert_ranked(ranked: &mut Vec<FuzzyMatch>, entry: FuzzyMatch)
    ensures
        ranked_views(final(ranked)@) == inserted(ranked_views(old(ranked)@), entry@),
        is_ranked(ranked_views(old(ranked)@)) ==> is_ranked(ranked_views(final(ranked)@)),
        ranked_views(final(ranked)@).to_multiset() == ranked_views(
            old(ranked)@,
        ).to_multiset().insert(entry@),
{
    let mut i: usize = 0;
    while i < ranked.len() && ranked[i].score >= entry.score
        invariant
            i <= ranked.len(),
            ranked@ == old(ranked)@,
            forall|k: int| 0 <= k < i ==> ranked_views(ranked@)[k].score >= entry.score,
            rank_position(ranked_views(ranked@), entry.score, 0) == rank_position(
                ranked_views(ranked@),
                entry.score,
                i as int,
            ),
        decreases ranked.len() - i,
    {
        assert(ranked_views(ranked@)[i as int].score == ranked@[i as int].score);
        i = i + 1;
    }
    assert(i < ranked.len() ==> ranked_views(ranked@)[i as int].score == ranked@[i as int].score);
    let ghost before = ranked_views(ranked@);
    ranked.insert(i, entry);
    assert(ranked_views(ranked@) =~= before.insert(i as int, entry@));
    proof {
        to_multiset_insert(before, i as int, entry@);
        let after = ranked_views(ranked@);
        assert forall|a: int, b: int| is_ranked(before) && 0 <= a < b < after.len() implies after[a].score
            >= after[b].score by {
            if b < i {
                assert(before[a].score >= before[b].score);
            } else if b == i {
                assert(before[a].score >= entry.score);
            } else if a < i {
                assert(before[a].score >= before[b - 1].score);
            } else if a == i {
                assert(before[i as int].score < entry.score);
                assert(i as int <= b - 1);
                if (i as int) < b - 1 {
                    assert(before[i as int].score >= before[b - 1].score);
                }
            } else {
                assert(before[a - 1].score >= before[b - 1].score);
            }
        }
    }
}

/// Ranks a list of scored paths: highest score first.
pub fn rank(list: Vec<FuzzyMatch>) -> (ranked: Vec<FuzzyMatch>)
    ensures
        ranked_views(ranked@) == ranking(ranked_views(list@), list@.len() as int),
        is_ranked(ranked_views(ranked@)),
        ranked_views(ranked@).to_multiset() == ranked_views(list@).to_multiset(),
{
    let mut ranked: Vec<FuzzyMatch> = Vec::new();
    assert(ranked_views(ranked@) =~= Seq::empty());
    assert(ranked_views(list@).take(0) =~= Seq::empty());
    let mut i: usize = 0;
    while i < list.len()
        invariant
            i <= list.len(),
            ranked_views(ranked@) == ranking(ranked_views(list@), i as int),
            is_ranked(ranked_views(ranked@)),
            ranked_views(ranked@).to_multiset() == ranked_views(list@).take(
                i as int,
            ).to_multiset(),
        decreases list.len() - i,
    {
        let entry = FuzzyMatch { path: list[i].path.clone(), score: list[i].score };
        assert(entry@ == ranked_views(list@)[i as int]);
        proof {
            to_multiset_build(ranked_views(list@).take(i as int), entry@);
            assert(ranked_views(list@).take(i + 1) =~= ranked_views(list@).take(i as int).push(
                entry@,
            ));
        }
        insert_ranked(&mut ranked, entry);
        i = i + 1;
    }
    assert(ranked_views(list@).take(list.len() as int) =~= ranked_views(list@));
    ranked
}

impl<'a> FuzzyCommand<'a> {
    /// The paths of `files` whose file names score above the threshold for
    /// the name of the configuration, each with its score, in the order of
    /// `files`. Without a name in the configuration there is none.
    pub fn select(&self, files: &Vec<String>) -> (kept: Vec<FuzzyMatch>)
        ensures
            ranked_views(kept@) == match self.config@.file_name {
                Some(pattern) => selected(
                    texts(files@),
                    pattern,
                    threshold_of(self.config@),
                    files@.len() as int,
                ),
                None => Seq::empty(),
            },
    {
        let mut kept: Vec<FuzzyMatch> = Vec::new();
        assert(ranked_views(kept@) =~= Seq::empty());
        let pattern = match &self.config.file_name {
            Some(pattern) => pattern,
            None => {
                return kept;
            },
        };
        let threshold: i64 = match self.config.fuzzy_threshold {
            Some(t) => t as i64,
            None => DEFAULT_THRESHOLD,
        };
        let mut i: usize = 0;
        while i < files.len()
            invariant
                i <= files.len(),
                threshold == threshold_of(self.config@),
                ranked_views(kept@) == selected(texts(files@), pattern@, threshold, i as int),
            decreases files.len() - i,
        {
            let path = to_chars(files[i].as_str());
            let name = from_chars(&file_name(&path));
            let score = skim_match(name.as_str(), pattern.as_str());
            assert(texts(files@)[i as int] == files@[i as int]@);
            if keeps(score, threshold) {
                let ghost before = kept@;
                if let Some(s) = score {
                    kept.push(FuzzyMatch { path: files[i].clone(), score: s });
                    assert(ranked_views(kept@) =~= ranked_views(before).push(
                        RankedView { path: files@[i as int]@, score: s },
                    ));
                }
            }
            i = i + 1;
        }
        kept
    }

    /// The fuzzy matches among `files`, highest score first; matches of
    /// equal score stay in the order of `files`.
    pub fn process_files(&self, files: &Vec<String>) -> (ranked: Vec<FuzzyMatch>)
        ensures
            ranked_views(ranked@) == (match self.config@.file_name {
                Some(pattern) => {
                    let kept = selected(
                        texts(files@),
                        pattern,
                        threshold_of(self.config@),
                        files@.len() as int,
                    );
                    ranking(kept, kept.len() as int)
                },
                None => Seq::empty(),
            }),
            is_ranked(ranked_views(ranked@)),
            ranked_views(ranked@).to_multiset() == (match self.config@.file_name {
                Some(pattern) => selected(
                    texts(files@),
                    pattern,
                    threshold_of(self.config@),
                    files@.len() as int,
                ),
                None => Seq::empty(),
            }).to_multiset(),
    {
        rank(self.select(files))
    }
}

} // verus!
