//! Assembly of search results.
//!
//! The store queries run in the surrounding binary; what is proved here
//! is the assembly of their rows into one result list, in the fixed
//! hierarchy order: initiatives first, then projects, then tasks, each
//! group in the order its query returned.

use vstd::prelude::*;

verus! {

/// Mathematical view of a [`SearchHit`].
#[verifier::ext_equal]
pub ghost struct SearchHitView {
    pub id: Seq<char>,
    pub name: Seq<char>,
    pub description: Option<Seq<char>>,
    pub status: Seq<char>,
}

/// One row a search query returned: an initiative, project or task,
/// reduced to what the result list shows.
#[derive(Debug)]
pub struct SearchHit {
    pub id: String,
    pub name: String,
    pub description: Option<String>,
    pub status: String,
}

impl View for SearchHit {
    type V = SearchHitView;

    open spec fn view(&self) -> SearchHitView {
        SearchHitView {
            id: self.id@,
            name: self.name@,
            description: self.description.deep_view(),
            status: self.status@,
        }
    }
}

impl DeepView for SearchHit {
    type V = SearchHitView;

    open spec fn deep_view(&self) -> SearchHitView {
        self.view()
    }
}

/// Which level of the hierarchy a result came from.
#[derive(Clone, Copy, PartialEq, Eq, Structural, Debug)]
pub enum SearchKind {
    Initiative,
    Project,
    Task,
}

/// Mathematical view of a [`SearchResult`].
#[verifier::ext_equal]
pub ghost struct SearchResultView {
    pub kind: SearchKind,
    pub hit: SearchHitView,
}

/// One entry of the combined result list.
#[derive(Debug)]
pub struct SearchResult {
    pub kind: SearchKind,
    pub hit: SearchHit,
}

impl View for SearchResult {
    type V = SearchResultView;

    open spec fn view(&self) -> SearchResultView {
        SearchResultView { kind: self.kind, hit: self.hit@ }
    }
}

impl DeepView for SearchResult {
    type V = SearchResultView;

    open spec fn deep_view(&self) -> SearchResultView {
        self.view()
    }
}

/// The hits of one group, tagged with their kind, in order.
pub open spec fn spec_tagged(kind: SearchKind, hits: Seq<SearchHitView>) -> Seq<SearchResultView> {
    Seq::new(hits.len(), |i: int| SearchResultView { kind, hit: hits[i] })
}

/// The combined result list: initiatives, then projects, then tasks.
pub open spec fn spec_search_results(
    initiatives: Seq<SearchHitView>,
    projects: Seq<SearchHitView>,
    tasks: Seq<SearchHitView>,
) -> Seq<SearchResultView> {
    spec_tagged(SearchKind::Initiative, initiatives) + spec_tagged(SearchKind::Project, projects)
        + spec_tagged(SearchKind::Task, tasks)
}

/// Append one group's hits to the result list, tagged with their kind.
fn push_tagged(out: &mut Vec<SearchResult>, kind: SearchKind, hits: Vec<SearchHit>)
    ensures
        final(out).deep_view() == old(out).deep_view() + spec_tagged(kind, hits.deep_view()),
{
    let ghost start = out.deep_view();
    let ghost hv = hits.deep_view();
    let mut hits = hits;
    let total: usize = hits.len();
    let ghost n = total as nat;
    let mut taken: usize = 0;
    proof {
        assert(hv.take(0) =~= Seq::<SearchHitView>::empty());
        assert(hits.deep_view() =~= hv.skip(0));
    }
    while hits.len() > 0
        invariant
            taken <= n,
            n == hv.len(),
            n <= usize::MAX,
            hits.deep_view() == hv.skip(taken as int),
            hits.deep_view().len() + taken == n,
            out.deep_view() == start + spec_tagged(kind, hv.take(taken as int)),
        decreases hits@.len(),
    {
        let ghost before = hits.deep_view();
        let hit = hits.remove(0);
        let ghost prev = out.deep_view();
        let ghost hview = hit@;
        proof {
            assert(before.len() > 0);
            assert(before[0] == hview);
            assert(hv.skip(taken as int) =~= hv.subrange(taken as int, hv.len() as int));
            assert(before.len() == hv.len() - taken);
            assert(hv.subrange(taken as int, hv.len() as int)[0] == hv[taken as int]);
            assert(hview == hv[taken as int]);
            assert(hits.deep_view() =~= hv.skip(taken + 1)) by {
                assert forall|k: int|
                    0 <= k < hits.deep_view().len() implies hits.deep_view()[k] == hv.skip(
                    taken + 1,
                )[k] by {
                    assert(hits.deep_view()[k] == before[k + 1]);
                    assert(before[k + 1] == hv[taken + 1 + k]);
                    assert(hv.skip(taken + 1) =~= hv.subrange(taken + 1, hv.len() as int));
                }
            }
        }
        out.push(SearchResult { kind, hit });
        proof {
            assert(out.deep_view() =~= prev.push(SearchResultView { kind, hit: hview }));
            assert(out.deep_view() =~= start + spec_tagged(kind, hv.take(taken + 1)));
        }
        taken = taken + 1;
    }
    proof {
        assert(hv.take(n as int) =~= hv);
    }
}

/// Combine the three query results into one list: initiatives first,
/// then projects, then tasks, each group in query order.
pub fn assemble_search_results(
    initiatives: Vec<SearchHit>,
    projects: Vec<SearchHit>,
    tasks: Vec<SearchHit>,
) -> (r: Vec<SearchResult>)
    ensures
        r.deep_view() == spec_search_results(
            initiatives.deep_view(),
            projects.deep_view(),
            tasks.deep_view(),
        ),
{
    let ghost iv = initiatives.deep_view();
    let ghost pv = projects.deep_view();
    let ghost tv = tasks.deep_view();
    let mut out: Vec<SearchResult> = Vec::new();
    proof {
        assert(out.deep_view() =~= Seq::<SearchResultView>::empty());
    }
    push_tagged(&mut out, SearchKind::Initiative, initiatives);
    push_tagged(&mut out, SearchKind::Project, projects);
    push_tagged(&mut out, SearchKind::Task, tasks);
    proof {
        assert(out.deep_view() =~= spec_search_results(iv, pv, tv));
    }
    out
}

} // verus!
