//! The lookup of one movie in TMDB, as a sequence of decisions: which searches to send,
//! whether to read the chain's movie page, which movie details to fetch, and what to answer.
//! The caller performs each requested action and reports its outcome.
use crate::domain::{MoviePageFallbackDetails, TmdbLookupMovie, TmdbMovieDetails};
use crate::error::AppError;
use crate::matching::{
    build_search_queries, comparison_text, decide_match, details_view, is_preliminary_weak,
    is_ranking, lemma_ranking_descending, match_decision, normalize_for_comparison_chars, opt_ref,
    preliminary_scores_valid, rank_search_candidates, ranked_values, ranking_of,
    search_ranked_scores, search_ranking_indices, search_scores, search_votes,
    search_queries_spec, search_year_spec, resolve_search_year, weak_ranking, RankedSearchCandidate,
    TmdbDetailedCandidate,
};
use crate::common::string_views;
use crate::text::{chars_eq, chars_of, contains_seq, contains_str};
use crate::tmdb::{TmdbMovieDetailsResponse, TmdbSearchResult};
use vstd::prelude::*;

verus! {

/// Where a lookup stands.
#[derive(Debug, Clone, Copy, PartialEq, Eq, Structural)]
pub enum LookupStage {
    /// Searching for the movie's titles.
    InitialSearch,
    /// Searching for its titles again, restricted to its year.
    InitialYearSearch,
    /// Waiting for the chain's movie page.
    MoviePage,
    /// Searching with the titles from the movie page too.
    FallbackSearch,
    /// Searching for those titles again, restricted to the year.
    FallbackYearSearch,
    /// Fetching the details of the best search results.
    Details,
    /// Answered.
    Finished,
}

/// What the caller is asked to do next.
#[derive(Debug)]
pub enum LookupAction {
    Search { query: String, year: Option<i32> },
    LoadMoviePage { url: String },
    FetchDetails { movie_id: u64 },
    Finish(Option<TmdbMovieDetails>),
    Fail(AppError),
}

/// The outcome of the last action.
#[derive(Debug)]
pub enum LookupEvent {
    SearchSucceeded(Vec<TmdbSearchResult>),
    SearchFailed(AppError),
    MoviePageLoaded(Option<MoviePageFallbackDetails>),
    DetailsLoaded(Option<TmdbMovieDetailsResponse>),
}

/// The lookup of one movie.
pub struct MovieLookup {
    pub movie: TmdbLookupMovie,
    pub search_year: Option<i32>,
    pub fallback: Option<MoviePageFallbackDetails>,
    /// The searches sent so far: the comparison form of the query, and the year.
    pub attempted: Vec<(Vec<char>, Option<i32>)>,
    pub candidates: Vec<TmdbSearchResult>,
    pub stage: LookupStage,
    pub queries: Vec<String>,
    pub next_query: usize,
    pub batch_year: Option<i32>,
    pub targets: Vec<RankedSearchCandidate>,
    pub next_target: usize,
    pub detailed: Vec<TmdbDetailedCandidate>,
}

pub open spec fn attempted_view(a: Seq<(Vec<char>, Option<i32>)>) -> Seq<(Seq<char>, Option<i32>)> {
    a.map_values(|p: (Vec<char>, Option<i32>)| (p.0@, p.1))
}

pub open spec fn stage_rank(s: LookupStage) -> int {
    match s {
        LookupStage::InitialSearch => 0,
        LookupStage::InitialYearSearch => 1,
        LookupStage::MoviePage => 2,
        LookupStage::FallbackSearch => 3,
        LookupStage::FallbackYearSearch => 4,
        LookupStage::Details => 5,
        LookupStage::Finished => 6,
    }
}

pub open spec fn is_search_stage(s: LookupStage) -> bool {
    s == LookupStage::InitialSearch || s == LookupStage::InitialYearSearch || s == LookupStage::FallbackSearch
        || s == LookupStage::FallbackYearSearch
}

/// The result with the same id earlier in `s`.
pub open spec fn id_seen_before(s: Seq<TmdbSearchResult>, i: int) -> bool {
    exists|j: int| 0 <= j < i && s[j].id == s[i].id
}

/// Some result in `s` has the id `id`.
pub open spec fn has_id(s: Seq<TmdbSearchResult>, id: u64) -> bool {
    exists|k: int| 0 <= k < s.len() && (#[trigger] s[k]).id == id
}

/// The results without repeats: the first result of each id, in order.
pub open spec fn dedupe_by_id(s: Seq<TmdbSearchResult>) -> Seq<TmdbSearchResult>
    decreases s.len(),
{
    if s.len() == 0 {
        s
    } else if id_seen_before(s, s.len() - 1) {
        dedupe_by_id(s.drop_last())
    } else {
        dedupe_by_id(s.drop_last()).push(s.last())
    }
}

/// What a lookup holds besides the movie, as plain values.
#[verifier::ext_equal]
pub struct LookupState {
    pub stage: LookupStage,
    pub fallback: Option<MoviePageFallbackDetails>,
    /// The searches sent so far: the comparison form of the query, and the year.
    pub attempted: Seq<(Seq<char>, Option<i32>)>,
    pub candidates: Seq<TmdbSearchResult>,
    /// The queries of the current batch of searches.
    pub queries: Seq<Seq<char>>,
    pub next_query: int,
    /// The year that the searches of the current batch are restricted to.
    pub batch_year: Option<i32>,
    /// The search results whose details are fetched, best first.
    pub targets: Seq<RankedSearchCandidate>,
    pub next_target: int,
    pub detailed: Seq<TmdbDetailedCandidate>,
}

/// An action as plain values.
pub enum LookupStep {
    Search(Seq<char>, Option<i32>),
    LoadMoviePage(Seq<char>),
    FetchDetails(u64),
    Finish(Option<(Seq<char>, Seq<char>)>),
    Fail(AppError),
}

pub open spec fn step_of(action: LookupAction) -> LookupStep {
    match action {
        LookupAction::Search { query, year } => LookupStep::Search(query@, year),
        LookupAction::LoadMoviePage { url } => LookupStep::LoadMoviePage(url@),
        LookupAction::FetchDetails { movie_id } => LookupStep::FetchDetails(movie_id),
        LookupAction::Finish(result) => LookupStep::Finish(details_view(result)),
        LookupAction::Fail(error) => LookupStep::Fail(error),
    }
}

/// The ranking of the search results of `s`.
pub open spec fn state_ranking(movie: TmdbLookupMovie, s: LookupState) -> Seq<int> {
    ranking_of(search_scores(movie, s.fallback, s.candidates), search_votes(s.candidates))
}

/// The ranking of the search results of `s` is weak: no result, a low best score, or a small
/// lead of the best over the second.
pub open spec fn state_weak(movie: TmdbLookupMovie, s: LookupState) -> bool {
    weak_ranking(ranked_values(state_ranking(movie, s), search_scores(movie, s.fallback, s.candidates)))
}

/// The first query at or after `from` whose comparison form is not empty and was not searched
/// with `year` yet.
pub open spec fn first_open_query(
    queries: Seq<Seq<char>>,
    attempted: Seq<(Seq<char>, Option<i32>)>,
    year: Option<i32>,
    from: int,
) -> Option<int>
    decreases queries.len() - from,
{
    if from < 0 || from >= queries.len() {
        None
    } else if comparison_text(queries[from]).len() > 0 && !attempted.contains((comparison_text(queries[from]), year)) {
        Some(from)
    } else {
        first_open_query(queries, attempted, year, from + 1)
    }
}

/// The search results whose details are fetched: the three best (fewer when there are fewer),
/// best first, each with its score.
pub open spec fn top_targets(
    movie: TmdbLookupMovie,
    fallback: Option<MoviePageFallbackDetails>,
    candidates: Seq<TmdbSearchResult>,
) -> Seq<RankedSearchCandidate> {
    let scores = search_scores(movie, fallback, candidates);
    let order = ranking_of(scores, search_votes(candidates));
    let n = if candidates.len() >= 3 { 3 } else { candidates.len() as int };
    Seq::new(n as nat, |k: int| RankedSearchCandidate { index: order[k] as usize, score: scores[order[k]] as i32 })
}

/// The end of a batch of searches: every query handled, repeated results dropped.
pub open spec fn batch_done(s: LookupState) -> LookupState {
    LookupState { candidates: dedupe_by_id(s.candidates), next_query: s.queries.len() as int, ..s }
}

/// The searches with the titles of the movie and of its page, when it was read.
pub open spec fn fallback_batch(movie: TmdbLookupMovie, s: LookupState, fallback: Option<MoviePageFallbackDetails>) -> LookupState {
    LookupState {
        stage: LookupStage::FallbackSearch,
        fallback,
        queries: search_queries_spec(movie, fallback),
        next_query: 0,
        batch_year: None,
        ..s
    }
}

/// The same queries searched again, restricted to `year`.
pub open spec fn year_batch(s: LookupState, year: Option<i32>) -> LookupState {
    LookupState {
        stage: if s.stage == LookupStage::InitialSearch {
            LookupStage::InitialYearSearch
        } else {
            LookupStage::FallbackYearSearch
        },
        next_query: 0,
        batch_year: year,
        ..s
    }
}

/// The move to the details: the answer that nothing matched when there is no search result,
/// else the fetching of the details of the best, starting with the first.
pub open spec fn details_start(movie: TmdbLookupMovie, s: LookupState) -> (LookupState, LookupStep) {
    if s.candidates.len() == 0 {
        (LookupState { stage: LookupStage::Finished, ..s }, LookupStep::Finish(None))
    } else {
        let t = top_targets(movie, s.fallback, s.candidates);
        (
            LookupState { stage: LookupStage::Details, targets: t, next_target: 0, ..s },
            LookupStep::FetchDetails(s.candidates[t[0].index as int].id),
        )
    }
}

/// The lookup of `movie` run forward from `s` to its next action, and the state it is left
/// in. In a search stage: the first open query of the batch is searched. At the end of a
/// batch of title searches (initial or fallback), the same queries are searched again with the
/// movie's year when the year is known and the ranking is weak. After the initial searches,
/// when the ranking is still weak, the movie page is read if its address is a `cinema-city.pl`
/// one, else the fallback searches start with no page details. Otherwise the details of the
/// three best results are fetched in rank order, and once all have been fetched the lookup
/// finishes with its decision.
pub open spec fn advance(movie: TmdbLookupMovie, s: LookupState) -> (LookupState, LookupStep)
    decreases 6 - stage_rank(s.stage),
{
    if s.stage == LookupStage::Details {
        if 0 <= s.next_target < s.targets.len() {
            (s, LookupStep::FetchDetails(s.candidates[s.targets[s.next_target].index as int].id))
        } else {
            (
                LookupState { stage: LookupStage::Finished, ..s },
                LookupStep::Finish(match_decision(movie, s.fallback, s.candidates, s.detailed)),
            )
        }
    } else if s.stage == LookupStage::MoviePage || s.stage == LookupStage::Finished {
        (s, LookupStep::Finish(None))
    } else {
        match first_open_query(s.queries, s.attempted, s.batch_year, s.next_query) {
            Some(i) => (
                LookupState {
                    attempted: s.attempted.push((comparison_text(s.queries[i]), s.batch_year)),
                    next_query: i + 1,
                    ..s
                },
                LookupStep::Search(s.queries[i], s.batch_year),
            ),
            None => {
                let done = batch_done(s);
                let year = search_year_spec(movie.lookup_metadata);
                let weak = state_weak(movie, done);
                if (s.stage == LookupStage::InitialSearch || s.stage == LookupStage::FallbackSearch) && year is Some
                    && weak {
                    advance(movie, year_batch(done, year))
                } else if (s.stage == LookupStage::InitialSearch || s.stage == LookupStage::InitialYearSearch) && weak {
                    match movie.lookup_metadata.movie_page_url {
                        Some(url) => if contains_seq(url@, "cinema-city.pl"@) {
                            (LookupState { stage: LookupStage::MoviePage, ..done }, LookupStep::LoadMoviePage(url@))
                        } else {
                            advance(movie, fallback_batch(movie, done, None))
                        },
                        None => advance(movie, fallback_batch(movie, done, None)),
                    }
                } else {
                    details_start(movie, done)
                }
            },
        }
    }
}

/// The lookup of `movie` in state `s` taking in `event`: a failed search ends it with that
/// error; search results join the candidates; the movie page starts the fallback searches;
/// fetched details join the detailed candidates with the score of their search result (a
/// failed fetch is skipped). Then the lookup runs forward to its next action.
pub open spec fn on_event_spec(movie: TmdbLookupMovie, s: LookupState, event: LookupEvent) -> (LookupState, LookupStep) {
    match event {
        LookupEvent::SearchFailed(error) => (LookupState { stage: LookupStage::Finished, ..s }, LookupStep::Fail(error)),
        LookupEvent::SearchSucceeded(results) => advance(movie, LookupState { candidates: s.candidates + results@, ..s }),
        LookupEvent::MoviePageLoaded(details) => advance(movie, fallback_batch(movie, s, details)),
        LookupEvent::DetailsLoaded(details) => {
            let detailed = match details {
                Some(d) => s.detailed.push(
                    TmdbDetailedCandidate { details: d, preliminary_score: s.targets[s.next_target].score },
                ),
                None => s.detailed,
            };
            advance(movie, LookupState { detailed, next_target: s.next_target + 1, ..s })
        },
    }
}

/// The ranking of the candidates for the current fallback details.
pub open spec fn current_ranking(l: MovieLookup) -> Seq<int> {
    state_ranking(l.movie, l.state())
}

pub open spec fn current_weak(l: MovieLookup) -> bool {
    state_weak(l.movie, l.state())
}

fn fallback_ref(fallback: &Option<MoviePageFallbackDetails>) -> (r: Option<&MoviePageFallbackDetails>)
    ensures
        opt_ref(r) == *fallback,
{
    match fallback {
        Some(f) => Some(f),
        None => None,
    }
}

impl MovieLookup {
    /// What the lookup holds besides the movie, as plain values.
    pub open spec fn state(&self) -> LookupState {
        LookupState {
            stage: self.stage,
            fallback: self.fallback,
            attempted: attempted_view(self.attempted@),
            candidates: self.candidates@,
            queries: string_views(self.queries@),
            next_query: self.next_query as int,
            batch_year: self.batch_year,
            targets: self.targets@,
            next_target: self.next_target as int,
            detailed: self.detailed@,
        }
    }

    /// The bookkeeping of a lookup is consistent.
    pub open spec fn inv(&self) -> bool {
        &&& self.next_query <= self.queries@.len()
        &&& self.next_target <= self.targets@.len()
        &&& self.targets@.len() <= 3
        &&& forall|k: int| 0 <= k < self.targets@.len() ==> 0 <= (#[trigger] self.targets@[k]).score <= 140
        &&& forall|k: int| 0 <= k < self.targets@.len() ==> (#[trigger] self.targets@[k]).index < self.candidates@.len()
        &&& preliminary_scores_valid(self.detailed@)
        &&& (self.stage != LookupStage::Details && self.stage != LookupStage::Finished) ==> self.targets@.len() == 0 && self.detailed@.len() == 0
        &&& self.search_year == search_year_spec(self.movie.lookup_metadata)
        &&& (self.stage == LookupStage::InitialSearch || self.stage == LookupStage::InitialYearSearch || self.stage == LookupStage::MoviePage) ==> self.fallback is None
        &&& attempted_view(self.attempted@).no_duplicates()
        &&& (self.stage == LookupStage::Details ==> (forall|k: int| 0 <= k < self.targets@.len() ==> (#[trigger] self.targets@[k]).index as int == current_ranking(*self)[k]))
        &&& (self.stage == LookupStage::Details ==> self.targets@.len() == if self.candidates@.len() >= 3 { 3 } else { self.candidates@.len() })
        &&& (self.stage == LookupStage::Details ==> is_ranking(current_ranking(*self), search_scores(self.movie, self.fallback, self.candidates@), search_votes(self.candidates@)))
    }

    /// A new lookup of `movie`, about to search for its titles.
    pub fn new(movie: TmdbLookupMovie) -> (r: Self)
        ensures
            r.inv(),
            r.movie == movie,
            r.stage == LookupStage::InitialSearch,
            r.fallback is None,
            r.candidates@.len() == 0,
            r.attempted@.len() == 0,
            r.detailed@.len() == 0,
            string_views(r.queries@) == crate::matching::search_queries_spec(movie, None),
            r.next_query == 0,
            r.batch_year is None,
    {
        let queries = build_search_queries(&movie, None);
        let search_year = resolve_search_year(&movie.lookup_metadata);
        let r = MovieLookup {
            movie,
            search_year,
            fallback: None,
            attempted: Vec::new(),
            candidates: Vec::new(),
            stage: LookupStage::InitialSearch,
            queries,
            next_query: 0,
            batch_year: None,
            targets: Vec::new(),
            next_target: 0,
            detailed: Vec::new(),
        };
        assert(attempted_view(r.attempted@) =~= Seq::<(Seq<char>, Option<i32>)>::empty());
        r
    }

    /// The event that the lookup waits for now.
    pub open spec fn expects(&self, event: LookupEvent) -> bool {
        match event {
            LookupEvent::SearchSucceeded(_) => is_search_stage(self.stage),
            LookupEvent::SearchFailed(_) => is_search_stage(self.stage),
            LookupEvent::MoviePageLoaded(_) => self.stage == LookupStage::MoviePage,
            LookupEvent::DetailsLoaded(_) => self.stage == LookupStage::Details && self.next_target < self.targets@.len(),
        }
    }

    /// What an action says of the state the lookup is left in, and of the searches it
    /// recorded, starting from the searches `attempted`.
    pub open spec fn action_holds(&self, action: LookupAction, attempted: Seq<(Seq<char>, Option<i32>)>) -> bool {
        match action {
            LookupAction::Search { query, year } => {
                &&& is_search_stage(self.stage)
                &&& year == self.batch_year
                &&& comparison_text(query@).len() > 0
                &&& !attempted.contains((comparison_text(query@), year))
                &&& attempted_view(self.attempted@) == attempted.push((comparison_text(query@), year))
            },
            LookupAction::LoadMoviePage { url } => {
                &&& self.stage == LookupStage::MoviePage
                &&& self.fallback is None
                &&& self.movie.lookup_metadata.movie_page_url == Some(url)
                &&& contains_seq(url@, "cinema-city.pl"@)
                &&& current_weak(*self)
                &&& attempted_view(self.attempted@) == attempted
            },
            LookupAction::FetchDetails { movie_id } => {
                &&& self.stage == LookupStage::Details
                &&& self.next_target < self.targets@.len()
                &&& movie_id == self.candidates@[self.targets@[self.next_target as int].index as int].id
                &&& attempted_view(self.attempted@) == attempted
            },
            LookupAction::Finish(result) => {
                &&& self.stage == LookupStage::Finished
                &&& details_view(result) == match_decision(self.movie, self.fallback, self.candidates@, self.detailed@)
            },
            LookupAction::Fail(_) => self.stage == LookupStage::Finished,
        }
    }

    /// Moves to the fetching of details: the three best search results (fewer when there
    /// are fewer), or the answer that nothing matched when there is no result at all.
    fn enter_details(&mut self) -> (r: Option<LookupAction>)
        requires
            old(self).inv(),
            old(self).stage != LookupStage::Details,
            old(self).stage != LookupStage::Finished,
            old(self).detailed@.len() == 0,
        ensures
            final(self).inv(),
            final(self).movie == old(self).movie,
            final(self).fallback == old(self).fallback,
            final(self).candidates == old(self).candidates,
            final(self).attempted == old(self).attempted,
            final(self).detailed == old(self).detailed,
            match r {
                Some(a) => a matches LookupAction::Finish(_) && final(self).action_holds(a, attempted_view(old(self).attempted@)),
                None => final(self).stage == LookupStage::Details && final(self).next_target == 0,
            },
            final(self).state() == details_start(old(self).movie, old(self).state()).0,
            r matches Some(a) ==> step_of(a) == details_start(old(self).movie, old(self).state()).1,
            r is None ==> old(self).candidates@.len() > 0,
    {
        let ranked = rank_search_candidates(&self.movie, fallback_ref(&self.fallback), &self.candidates);
        if ranked.len() == 0 {
            self.stage = LookupStage::Finished;
            return Some(LookupAction::Finish(None));
        }
        let mut targets: Vec<RankedSearchCandidate> = Vec::new();
        let mut k: usize = 0;
        while k < ranked.len() && k < 3
            invariant
                k <= ranked@.len(),
                k <= 3,
                targets@ == ranked@.subrange(0, k as int),
            decreases 3 - k,
        {
            targets.push(ranked[k]);
            assert(targets@ =~= ranked@.subrange(0, k + 1));
            k = k + 1;
        }
        proof {
            assert forall|m: int| 0 <= m < targets@.len() implies (#[trigger] targets@[m]).index as int == current_ranking(*self)[m] by {
                assert(search_ranking_indices(ranked@)[m] == ranked@[m].index as int);
            }
            let t = top_targets(self.movie, self.fallback, self.candidates@);
            assert forall|m: int| 0 <= m < targets@.len() implies #[trigger] targets@[m] == t[m] by {
                assert(search_ranking_indices(ranked@)[m] == ranked@[m].index as int);
                assert(targets@[m] == ranked@[m]);
            }
            assert(targets@ =~= t);
        }
        self.targets = targets;
        self.next_target = 0;
        self.stage = LookupStage::Details;
        None
    }

    /// Starts the searches with the titles from the movie page (when it was read).
    fn start_fallback_search(&mut self, fallback: Option<MoviePageFallbackDetails>)
        requires
            old(self).inv(),
            old(self).stage != LookupStage::Details,
            old(self).stage != LookupStage::Finished,
        ensures
            final(self).inv(),
            final(self).movie == old(self).movie,
            final(self).fallback == fallback,
            final(self).candidates == old(self).candidates,
            final(self).attempted == old(self).attempted,
            final(self).detailed == old(self).detailed,
            final(self).targets == old(self).targets,
            final(self).stage == LookupStage::FallbackSearch,
            final(self).next_query == 0,
            final(self).batch_year is None,
            string_views(final(self).queries@) == crate::matching::search_queries_spec(old(self).movie, fallback),
            final(self).state() == fallback_batch(old(self).movie, old(self).state(), fallback),
    {
        let queries = build_search_queries(&self.movie, fallback_ref(&fallback));
        self.fallback = fallback;
        self.queries = queries;
        self.next_query = 0;
        self.batch_year = None;
        self.stage = LookupStage::FallbackSearch;
    }

    /// Runs the lookup forward to its next action: the next search of the current batch; at
    /// the end of a batch, repeated results are dropped and the ranking decides whether to
    /// search again with the year, to read the movie page, to search with its titles, or to
    /// fetch details; once the details are in, the answer.
    fn proceed(&mut self) -> (r: LookupAction)
        requires
            old(self).inv(),
            old(self).stage != LookupStage::MoviePage,
            old(self).stage != LookupStage::Finished,
        ensures
            final(self).inv(),
            final(self).movie == old(self).movie,
            final(self).action_holds(r, attempted_view(old(self).attempted@)),
            !(r is Fail),
            final(self).state() == advance(old(self).movie, old(self).state()).0,
            step_of(r) == advance(old(self).movie, old(self).state()).1,
    {
        let ghost start_attempted = attempted_view(self.attempted@);
        loop
            invariant
                self.inv(),
                self.movie == old(self).movie,
                self.stage != LookupStage::MoviePage,
                self.stage != LookupStage::Finished,
                attempted_view(self.attempted@) == start_attempted,
                start_attempted == attempted_view(old(self).attempted@),
                advance(self.movie, self.state()).0 == advance(old(self).movie, old(self).state()).0,
                advance(self.movie, self.state()).1 == advance(old(self).movie, old(self).state()).1,
            decreases 6 - stage_rank(self.stage), self.queries@.len() - self.next_query,
        {
            let ghost s0 = self.state();
            if self.stage == LookupStage::Details {
                if self.next_target < self.targets.len() {
                    let index = self.targets[self.next_target].index;
                    let movie_id = self.candidates[index].id;
                    return LookupAction::FetchDetails { movie_id };
                }
                self.stage = LookupStage::Finished;
                let decision = decide_match(&self.movie, fallback_ref(&self.fallback), &self.candidates, &self.detailed);
                assert(self.state() =~= (LookupState { stage: LookupStage::Finished, ..s0 }));
                return LookupAction::Finish(decision);
            }
            let found = self.next_search();
            match found {
                Some(action) => {
                    proof {
                        let i = first_open_query(s0.queries, s0.attempted, s0.batch_year, s0.next_query).unwrap();
                        assert(self.state() =~= (LookupState {
                            attempted: s0.attempted.push((comparison_text(s0.queries[i]), s0.batch_year)),
                            next_query: i + 1,
                            ..s0
                        }));
                    }
                    return action;
                },
                None => {},
            }
            self.dedupe_candidates();
            let ghost done = batch_done(s0);
            assert(self.state() =~= done);
            let ranked = rank_search_candidates(&self.movie, fallback_ref(&self.fallback), &self.candidates);
            proof {
                lemma_ranking_descending(current_ranking(*self), search_scores(self.movie, self.fallback, self.candidates@), search_votes(self.candidates@));
                assert(search_ranked_scores(ranked@) =~= ranked_values(current_ranking(*self), search_scores(self.movie, self.fallback, self.candidates@)));
            }
            let weak = is_preliminary_weak(&ranked);
            if self.stage == LookupStage::InitialSearch || self.stage == LookupStage::FallbackSearch {
                if self.search_year.is_some() && weak {
                    self.stage = if self.stage == LookupStage::InitialSearch {
                        LookupStage::InitialYearSearch
                    } else {
                        LookupStage::FallbackYearSearch
                    };
                    self.next_query = 0;
                    self.batch_year = self.search_year;
                    assert(self.state() =~= year_batch(done, self.search_year));
                    continue;
                }
            }
            if (self.stage == LookupStage::InitialSearch || self.stage == LookupStage::InitialYearSearch) && weak {
                match &self.movie.lookup_metadata.movie_page_url {
                    Some(url) => {
                        if contains_str(chars_of(url.as_str()).as_slice(), "cinema-city.pl") {
                            let url = url.clone();
                            self.stage = LookupStage::MoviePage;
                            assert(self.state() =~= (LookupState { stage: LookupStage::MoviePage, ..done }));
                            return LookupAction::LoadMoviePage { url };
                        }
                    },
                    None => {},
                }
                self.start_fallback_search(None);
                continue;
            }
            match self.enter_details() {
                Some(action) => {
                    return action;
                },
                None => {
                    proof {
                        let t = top_targets(self.movie, done.fallback, done.candidates);
                        assert(t.len() > 0);
                    }
                },
            }
        }
    }

    /// The first action of the lookup: the search for the first query whose comparison form is
    /// not empty, or, when there is none, what follows the searches.
    pub fn start(&mut self) -> (r: LookupAction)
        requires
            old(self).inv(),
            old(self).stage == LookupStage::InitialSearch,
        ensures
            final(self).inv(),
            final(self).movie == old(self).movie,
            final(self).action_holds(r, attempted_view(old(self).attempted@)),
            final(self).state() == advance(old(self).movie, old(self).state()).0,
            step_of(r) == advance(old(self).movie, old(self).state()).1,
            first_open_query(old(self).state().queries, old(self).state().attempted, old(self).batch_year, old(self).next_query as int) matches Some(i)
                ==> step_of(r) == LookupStep::Search(old(self).state().queries[i], old(self).batch_year)
                && final(self).stage == LookupStage::InitialSearch && final(self).next_query == i + 1,
    {
        self.proceed()
    }

    /// Takes in the outcome of the last action and returns the next one. A failed search
    /// ends the lookup with its error; search results join the candidates; the movie page
    /// starts the searches with its titles; fetched details join the detailed candidates
    /// with the score of their search result, and a failed fetch is skipped.
    pub fn on_event(&mut self, event: LookupEvent) -> (r: LookupAction)
        requires
            old(self).inv(),
            old(self).expects(event),
        ensures
            final(self).inv(),
            final(self).movie == old(self).movie,
            final(self).action_holds(r, attempted_view(old(self).attempted@)),
            r matches LookupAction::Fail(e) ==> event == LookupEvent::SearchFailed(e),
            (event is SearchFailed) ==> r is Fail,
            final(self).state() == on_event_spec(old(self).movie, old(self).state(), event).0,
            step_of(r) == on_event_spec(old(self).movie, old(self).state(), event).1,
    {
        let ghost s0 = self.state();
        match event {
            LookupEvent::SearchFailed(error) => {
                self.stage = LookupStage::Finished;
                assert(self.state() =~= (LookupState { stage: LookupStage::Finished, ..s0 }));
                LookupAction::Fail(error)
            },
            LookupEvent::SearchSucceeded(results) => {
                let ghost added = results@;
                let mut results = results;
                self.candidates.append(&mut results);
                assert(self.state() =~= (LookupState { candidates: s0.candidates + added, ..s0 }));
                self.proceed()
            },
            LookupEvent::MoviePageLoaded(details) => {
                self.start_fallback_search(details);
                self.proceed()
            },
            LookupEvent::DetailsLoaded(details) => {
                let score = self.targets[self.next_target].score;
                let ghost fetched = details;
                match details {
                    Some(d) => {
                        self.detailed.push(TmdbDetailedCandidate { details: d, preliminary_score: score });
                    },
                    None => {},
                }
                self.next_target = self.next_target + 1;
                proof {
                    let detailed = match fetched {
                        Some(d) => s0.detailed.push(
                            TmdbDetailedCandidate { details: d, preliminary_score: s0.targets[s0.next_target].score },
                        ),
                        None => s0.detailed,
                    };
                    assert(self.state() =~= (LookupState { detailed, next_target: s0.next_target + 1, ..s0 }));
                }
                self.proceed()
            },
        }
    }

    /// Whether `(query, year)` was searched already.
    fn was_attempted(&self, normalized: &Vec<char>, year: Option<i32>) -> (r: bool)
        ensures
            r == attempted_view(self.attempted@).contains((normalized@, year)),
    {
        let mut i: usize = 0;
        while i < self.attempted.len()
            invariant
                i <= self.attempted@.len(),
                forall|j: int| 0 <= j < i ==> attempted_view(self.attempted@)[j] != (normalized@, year),
            decreases self.attempted.len() - i,
        {
            if chars_eq(self.attempted[i].0.as_slice(), normalized.as_slice()) && self.attempted[i].1 == year {
                assert(attempted_view(self.attempted@)[i as int] == (normalized@, year));
                return true;
            }
            assert(attempted_view(self.attempted@)[i as int] == (self.attempted@[i as int].0@, self.attempted@[i as int].1));
            i = i + 1;
        }
        false
    }

    /// The next search of the current batch: the first remaining query whose comparison form
    /// is not empty and was not searched with this year. It is recorded as searched.
    fn next_search(&mut self) -> (r: Option<LookupAction>)
        requires
            old(self).inv(),
        ensures
            final(self).inv(),
            final(self).movie == old(self).movie,
            final(self).stage == old(self).stage,
            final(self).fallback == old(self).fallback,
            final(self).candidates == old(self).candidates,
            final(self).detailed == old(self).detailed,
            final(self).targets == old(self).targets,
            final(self).next_target == old(self).next_target,
            final(self).queries == old(self).queries,
            final(self).batch_year == old(self).batch_year,
            final(self).search_year == old(self).search_year,
            match r {
                Some(LookupAction::Search { query, year }) => {
                    &&& year == old(self).batch_year
                    &&& !attempted_view(old(self).attempted@).contains((comparison_text(query@), year))
                    &&& comparison_text(query@).len() > 0
                    &&& attempted_view(final(self).attempted@) == attempted_view(old(self).attempted@).push((comparison_text(query@), year))
                },
                Some(_) => false,
                None => {
                    &&& final(self).attempted == old(self).attempted
                    &&& final(self).next_query == final(self).queries@.len()
                },
            },
            match first_open_query(old(self).state().queries, old(self).state().attempted, old(self).batch_year, old(self).next_query as int) {
                Some(i) => r matches Some(LookupAction::Search { query, year }) && query@ == old(self).state().queries[i]
                    && final(self).next_query == i + 1,
                None => r is None,
            },
    {
        let ghost open = first_open_query(self.state().queries, self.state().attempted, self.batch_year, self.next_query as int);
        while self.next_query < self.queries.len()
            invariant
                self.inv(),
                open == first_open_query(self.state().queries, self.state().attempted, self.batch_year, self.next_query as int),
                open == first_open_query(old(self).state().queries, old(self).state().attempted, old(self).batch_year, old(self).next_query as int),
                self.movie == old(self).movie,
                self.stage == old(self).stage,
                self.fallback == old(self).fallback,
                self.candidates == old(self).candidates,
                self.detailed == old(self).detailed,
                self.targets == old(self).targets,
                self.next_target == old(self).next_target,
                self.queries == old(self).queries,
                self.batch_year == old(self).batch_year,
                self.search_year == old(self).search_year,
                self.attempted == old(self).attempted,
            decreases self.queries.len() - self.next_query,
        {
            let i = self.next_query;
            self.next_query = i + 1;
            let normalized = normalize_for_comparison_chars(chars_of(self.queries[i].as_str()).as_slice());
            assert(self.state().queries[i as int] == self.queries@[i as int]@);
            if normalized.len() > 0 && !self.was_attempted(&normalized, self.batch_year) {
                let year = self.batch_year;
                let ghost before = attempted_view(self.attempted@);
                self.attempted.push((normalized, year));
                proof {
                    assert(attempted_view(self.attempted@) =~= before.push((comparison_text(self.queries@[i as int]@), year)));
                    assert forall|a: int, b: int| 0 <= a < b < attempted_view(self.attempted@).len() implies attempted_view(self.attempted@)[a] != attempted_view(self.attempted@)[b] by {
                        if b == before.len() {
                            assert(attempted_view(self.attempted@)[a] == before[a]);
                        } else {
                            assert(attempted_view(self.attempted@)[a] == before[a]);
                            assert(attempted_view(self.attempted@)[b] == before[b]);
                        }
                    }
                }
                let query = self.queries[i].clone();
                return Some(LookupAction::Search { query, year });
            }
        }
        None
    }

    /// Removes the repeated search results, keeping the first result of each id.
    fn dedupe_candidates(&mut self)
        requires
            old(self).inv(),
            old(self).stage != LookupStage::Details,
            old(self).targets@.len() == 0,
        ensures
            final(self).inv(),
            final(self).candidates@ == dedupe_by_id(old(self).candidates@),
            final(self).movie == old(self).movie,
            final(self).stage == old(self).stage,
            final(self).fallback == old(self).fallback,
            final(self).attempted == old(self).attempted,
            final(self).detailed == old(self).detailed,
            final(self).targets == old(self).targets,
            final(self).next_target == old(self).next_target,
            final(self).queries == old(self).queries,
            final(self).next_query == old(self).next_query,
            final(self).batch_year == old(self).batch_year,
            final(self).search_year == old(self).search_year,
            final(self).state() == (LookupState { candidates: dedupe_by_id(old(self).candidates@), ..old(self).state() }),
    {
        let mut rest: Vec<TmdbSearchResult> = Vec::new();
        std::mem::swap(&mut rest, &mut self.candidates);
        let ghost orig = rest@;
        let total = rest.len();
        assert(orig.len() == total);
        let mut consumed: usize = 0;
        assert(orig.subrange(0, 0) =~= Seq::<TmdbSearchResult>::empty());
        while rest.len() > 0
            invariant
                consumed <= orig.len(),
                orig.len() <= usize::MAX,
                rest@ == orig.subrange(consumed as int, orig.len() as int),
                self.candidates@ == dedupe_by_id(orig.subrange(0, consumed as int)),
                forall|id: u64| has_id(orig.subrange(0, consumed as int), id) <==> #[trigger] has_id(self.candidates@, id),
                self.movie == old(self).movie,
                self.stage == old(self).stage,
                self.fallback == old(self).fallback,
                self.attempted == old(self).attempted,
                self.detailed == old(self).detailed,
                self.targets == old(self).targets,
                self.next_target == old(self).next_target,
                self.queries == old(self).queries,
                self.next_query == old(self).next_query,
                self.batch_year == old(self).batch_year,
                self.search_year == old(self).search_year,
            decreases rest.len(),
        {
            let item = rest.remove(0);
            assert(item == orig[consumed as int]);
            let ghost prefix = orig.subrange(0, consumed + 1);
            assert(prefix.drop_last() =~= orig.subrange(0, consumed as int));
            assert(prefix.last() == item);
            let mut seen = false;
            let mut k: usize = 0;
            while k < self.candidates.len()
                invariant
                    k <= self.candidates@.len(),
                    seen == (exists|m: int| 0 <= m < k && (#[trigger] self.candidates@[m]).id == item.id),
                decreases self.candidates.len() - k,
            {
                if self.candidates[k].id == item.id {
                    seen = true;
                }
                k = k + 1;
            }
            proof {
                if seen {
                    let m = choose|m: int| 0 <= m < k && #[trigger] self.candidates@[m].id == item.id;
                    assert(has_id(self.candidates@, item.id));
                    assert(has_id(orig.subrange(0, consumed as int), item.id));
                    let j = choose|j: int| 0 <= j < consumed && (#[trigger] orig.subrange(0, consumed as int)[j]).id == item.id;
                    assert(prefix[j].id == prefix[prefix.len() - 1].id);
                    assert(id_seen_before(prefix, prefix.len() - 1));
                } else {
                    if id_seen_before(prefix, prefix.len() - 1) {
                        let j = choose|j: int| 0 <= j < prefix.len() - 1 && (#[trigger] prefix[j]).id == prefix[prefix.len() - 1].id;
                        assert(orig.subrange(0, consumed as int)[j].id == item.id);
                        assert(has_id(orig.subrange(0, consumed as int), item.id));
                        assert(has_id(self.candidates@, item.id));
                        let m = choose|m: int| 0 <= m < self.candidates@.len() && (#[trigger] self.candidates@[m]).id == item.id;
                        assert(false);
                    }
                }
            }
            let ghost before = self.candidates@;
            if !seen {
                self.candidates.push(item);
            }
            proof {
                let p1 = orig.subrange(0, consumed + 1);
                let p0 = orig.subrange(0, consumed as int);
                assert forall|id: u64| has_id(p1, id) <==> #[trigger] has_id(self.candidates@, id) by {
                    if has_id(p1, id) {
                        let j = choose|j: int| 0 <= j < p1.len() && (#[trigger] p1[j]).id == id;
                        if j < consumed {
                            assert(p0[j].id == id);
                            assert(has_id(p0, id));
                            assert(has_id(before, id));
                            let k = choose|k: int| 0 <= k < before.len() && (#[trigger] before[k]).id == id;
                            assert(self.candidates@[k] == before[k]);
                        } else if !seen {
                            assert(self.candidates@[before.len() as int].id == id);
                        } else {
                            let m = choose|m: int| 0 <= m < before.len() && (#[trigger] before[m]).id == item.id;
                            assert(self.candidates@[m].id == id);
                        }
                    }
                    if has_id(self.candidates@, id) {
                        let k = choose|k: int| 0 <= k < self.candidates@.len() && (#[trigger] self.candidates@[k]).id == id;
                        if k < before.len() {
                            assert(before[k].id == id);
                            assert(has_id(before, id));
                            assert(has_id(p0, id));
                            let j = choose|j: int| 0 <= j < p0.len() && (#[trigger] p0[j]).id == id;
                            assert(p1[j].id == id);
                        } else {
                            assert(p1[consumed as int].id == id);
                        }
                    }
                }
            }
            consumed = consumed + 1;
            assert(rest@ =~= orig.subrange(consumed as int, orig.len() as int));
        }
        assert(orig.subrange(0, orig.len() as int) =~= orig);
    }
}

} // verus!
