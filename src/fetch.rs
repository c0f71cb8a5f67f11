use vstd::prelude::*;
use crate::text::{decimal, push_decimal};
use crate::model::{
    ExpandedMergeRequests, Group, GroupView, MergeRequests, MergeRequestView, RecordView,
    records_view,
};
use std::collections::HashMap;

verus! {

/// The host used when no base URL is configured.
pub open spec fn default_base() -> Seq<char> {
    "https://gitlab.com"@
}

/// `{base}/api/v4/groups`
pub open spec fn groups_url_of(base: Seq<char>) -> Seq<char> {
    base + "/api/v4/groups"@
}

/// `{base}/api/v4/groups/{id}/merge_requests?state=opened`
pub open spec fn merge_requests_url_of(base: Seq<char>, group_id: usize) -> Seq<char> {
    base + "/api/v4/groups/"@ + decimal(group_id as nat) + "/merge_requests?state=opened"@
}

/// `{base}/api/v4/projects/{id}`
pub open spec fn project_url_of(base: Seq<char>, project_id: usize) -> Seq<char> {
    base + "/api/v4/projects/"@ + decimal(project_id as nat)
}

/// Why a session could not be set up.
pub enum ConfigError {
    /// No private token was given.
    MissingToken,
}

/// What every request of a run needs: the private token sent with each
/// request and the base URL of the API host.
pub struct Session {
    pub token: String,
    pub base: String,
}

impl Session {
    /// Sets up a session from the configured token and base URL. Without a
    /// token there is no session, and so no request can be made.
    pub fn new(token: Option<String>, base: Option<String>) -> (r: Result<Session, ConfigError>)
        ensures
            token is None <==> r is Err,
            r is Ok ==> r->Ok_0.token@ == token->Some_0@,
            r is Ok ==> r->Ok_0.base@ == match base {
                Some(b) => b@,
                None => default_base(),
            },
    {
        match token {
            None => Err(ConfigError::MissingToken),
            Some(token) => {
                let base = match base {
                    Some(b) => b,
                    None => {
                        proof {
                            reveal_strlit("https://gitlab.com");
                        }
                        String::from_str("https://gitlab.com")
                    },
                };
                Ok(Session { token, base })
            },
        }
    }

    /// The URL that lists the groups.
    pub fn groups_url(&self) -> (r: String)
        ensures
            r@ == groups_url_of(self.base@),
    {
        let mut r = self.base.clone();
        r.append("/api/v4/groups");
        r
    }

    /// The URL that lists a group's open merge requests.
    pub fn merge_requests_url(&self, group_id: usize) -> (r: String)
        ensures
            r@ == merge_requests_url_of(self.base@, group_id),
    {
        let mut r = self.base.clone();
        r.append("/api/v4/groups/");
        push_decimal(&mut r, group_id);
        r.append("/merge_requests?state=opened");
        r
    }

    /// The URL of a project's details.
    pub fn project_url(&self, project_id: usize) -> (r: String)
        ensures
            r@ == project_url_of(self.base@, project_id),
    {
        let mut r = self.base.clone();
        r.append("/api/v4/projects/");
        push_decimal(&mut r, project_id);
        r
    }
}

/// Each merge request of each group paired with its group: groups in the
/// order given, and within a group the merge requests in the order given.
pub open spec fn paired(gs: Seq<GroupView>, ms: Seq<Seq<MergeRequestView>>) -> Seq<(GroupView, MergeRequestView)>
    decreases gs.len(),
{
    if gs.len() == 0 || ms.len() == 0 {
        seq![]
    } else {
        paired(gs.drop_last(), ms.drop_last()) + ms.last().map_values(
            |m: MergeRequestView| (gs.last(), m),
        )
    }
}

/// The models of a sequence of groups.
pub open spec fn groups_view(gs: Seq<Group>) -> Seq<GroupView> {
    gs.map_values(|g: Group| g@)
}

/// The models of each group's merge requests.
pub open spec fn merge_requests_view(ms: Seq<Vec<MergeRequests>>) -> Seq<Seq<MergeRequestView>> {
    ms.map_values(|v: Vec<MergeRequests>| v@.map_values(|m: MergeRequests| m@))
}

/// The models of a sequence of (group, merge request) pairs.
pub open spec fn pairs_view(ps: Seq<(Group, MergeRequests)>) -> Seq<(GroupView, MergeRequestView)> {
    ps.map_values(|p: (Group, MergeRequests)| (p.0@, p.1@))
}

/// Pairs each merge request with the group it was listed under;
/// `merge_requests[i]` holds the merge requests of `groups[i]`.
pub fn pair_with_groups(groups: &Vec<Group>, merge_requests: &Vec<Vec<MergeRequests>>) -> (r: Vec<(Group, MergeRequests)>)
    requires
        groups.len() == merge_requests.len(),
    ensures
        pairs_view(r@) == paired(groups_view(groups@), merge_requests_view(merge_requests@)),
{
    let ghost gv = groups_view(groups@);
    let ghost mv = merge_requests_view(merge_requests@);
    let mut r: Vec<(Group, MergeRequests)> = Vec::new();
    let mut i: usize = 0;
    while i < groups.len()
        invariant
            i <= groups.len(),
            groups.len() == merge_requests.len(),
            gv == groups_view(groups@),
            mv == merge_requests_view(merge_requests@),
            pairs_view(r@) == paired(gv.take(i as int), mv.take(i as int)),
        decreases groups.len() - i,
    {
        let group = &groups[i];
        let mrs = &merge_requests[i];
        let ghost before = pairs_view(r@);
        let mut j: usize = 0;
        while j < mrs.len()
            invariant
                i < groups.len(),
                groups.len() == merge_requests.len(),
                j <= mrs.len(),
                mrs == merge_requests@[i as int],
                group == groups@[i as int],
                pairs_view(r@) == before + mrs@.take(j as int).map_values(
                    |m: MergeRequests| (group@, m@),
                ),
            decreases mrs.len() - j,
        {
            let g = group.duplicate();
            let m = mrs[j].duplicate();
            let ghost old_r = r@;
            r.push((g, m));
            proof {
                assert(pairs_view(r@) =~= pairs_view(old_r).push((group@, mrs@[j as int]@)));
                assert(mrs@.take(j + 1) =~= mrs@.take(j as int).push(mrs@[j as int]));
                assert(pairs_view(r@) =~= before + mrs@.take(j + 1).map_values(
                    |m: MergeRequests| (group@, m@),
                ));
            }
            j = j + 1;
        }
        proof {
            let gt = gv.take(i + 1);
            let mt = mv.take(i + 1);
            assert(gt.drop_last() =~= gv.take(i as int));
            assert(mt.drop_last() =~= mv.take(i as int));
            assert(mrs@.take(j as int) =~= mrs@);
            assert(mt.last().map_values(|m: MergeRequestView| (gt.last(), m)) =~= mrs@.map_values(
                |m: MergeRequests| (group@, m@),
            ));
            assert(pairs_view(r@) =~= paired(gt, mt));
        }
        i = i + 1;
    }
    proof {
        assert(gv.take(i as int) =~= gv);
        assert(mv.take(i as int) =~= mv);
    }
    r
}

/// The project id of each pair, in order.
pub open spec fn project_ids(ps: Seq<(GroupView, MergeRequestView)>) -> Seq<usize> {
    ps.map_values(|p: (GroupView, MergeRequestView)| p.1.project_id)
}

/// The elements of `s` in the order of their first appearance, each once.
pub open spec fn first_appearances(s: Seq<usize>) -> Seq<usize>
    decreases s.len(),
{
    if s.len() == 0 {
        seq![]
    } else {
        let p = first_appearances(s.drop_last());
        if p.contains(s.last()) {
            p
        } else {
            p.push(s.last())
        }
    }
}

fn contains_id(ids: &Vec<usize>, id: usize) -> (r: bool)
    ensures
        r == ids@.contains(id),
{
    let mut k: usize = 0;
    while k < ids.len()
        invariant
            k <= ids.len(),
            forall|t: int| 0 <= t < k ==> ids@[t] != id,
        decreases ids.len() - k,
    {
        if ids[k] == id {
            return true;
        }
        k = k + 1;
    }
    false
}

/// The projects whose details a run looks up: each project that one of the
/// merge requests belongs to, once, in the order in which the merge requests
/// first name it.
pub fn distinct_project_ids(pairs: &Vec<(Group, MergeRequests)>) -> (r: Vec<usize>)
    ensures
        r@ == first_appearances(project_ids(pairs_view(pairs@))),
{
    let ghost ids = project_ids(pairs_view(pairs@));
    let mut r: Vec<usize> = Vec::new();
    let mut i: usize = 0;
    while i < pairs.len()
        invariant
            i <= pairs.len(),
            ids == project_ids(pairs_view(pairs@)),
            r@ == first_appearances(ids.take(i as int)),
        decreases pairs.len() - i,
    {
        let id = pairs[i].1.project_id;
        proof {
            assert(ids.take(i + 1).drop_last() =~= ids.take(i as int));
            assert(ids.take(i + 1).last() == id);
        }
        if !contains_id(&r, id) {
            r.push(id);
        }
        i = i + 1;
    }
    proof {
        assert(ids.take(i as int) =~= ids);
    }
    r
}

/// The project names resolved so far in a run, by project id.
pub struct ProjectNames {
    names: HashMap<usize, String>,
}

impl View for ProjectNames {
    type V = Map<usize, Seq<char>>;

    closed spec fn view(&self) -> Map<usize, Seq<char>> {
        self.names@.map_values(|s: String| s@)
    }
}

impl ProjectNames {
    /// No name resolved yet.
    pub fn new() -> (r: ProjectNames)
        ensures
            r@ == Map::<usize, Seq<char>>::empty(),
    {
        let r = ProjectNames { names: HashMap::new() };
        proof {
            assert(r@ =~= Map::<usize, Seq<char>>::empty());
        }
        r
    }

    /// Whether the name of `project_id` is known.
    pub fn contains(&self, project_id: usize) -> (r: bool)
        ensures
            r == self@.contains_key(project_id),
    {
        broadcast use vstd::std_specs::hash::group_hash_axioms;
        self.names.contains_key(&project_id)
    }

    /// Records the name of a project.
    pub fn insert(&mut self, project_id: usize, name: String)
        ensures
            final(self)@ == old(self)@.insert(project_id, name@),
    {
        broadcast use vstd::std_specs::hash::group_hash_axioms;
        self.names.insert(project_id, name);
        proof {
            assert(self@ =~= old(self)@.insert(project_id, name@));
        }
    }

    /// The name of a project, where it is known.
    pub fn get(&self, project_id: usize) -> (r: Option<String>)
        ensures
            r is Some <==> self@.contains_key(project_id),
            r is Some ==> r->Some_0@ == self@[project_id],
    {
        broadcast use vstd::std_specs::hash::group_hash_axioms;
        match self.names.get(&project_id) {
            Some(n) => Some(n.clone()),
            None => None,
        }
    }
}

/// The record made of a pair and the names of the projects.
pub open spec fn enriched_one(p: (GroupView, MergeRequestView), names: Map<usize, Seq<char>>) -> RecordView {
    RecordView {
        project_name: names[p.1.project_id],
        group_name: p.0.name,
        title: p.1.title,
        web_url: p.1.web_url,
        author: p.1.author,
    }
}

/// One record per pair, in the same order.
pub open spec fn enriched(ps: Seq<(GroupView, MergeRequestView)>, names: Map<usize, Seq<char>>) -> Seq<RecordView> {
    ps.map_values(|p: (GroupView, MergeRequestView)| enriched_one(p, names))
}

/// Whether the name of every project that a pair belongs to is known.
pub open spec fn names_cover(ps: Seq<(GroupView, MergeRequestView)>, names: Map<usize, Seq<char>>) -> bool {
    forall|i: int| 0 <= i < ps.len() ==> names.contains_key(#[trigger] ps[i].1.project_id)
}

/// Joins each merge request with its group's name and its project's name.
/// Fails where a project's name is not known.
pub fn enrich(pairs: &Vec<(Group, MergeRequests)>, names: &ProjectNames) -> (r: Option<Vec<ExpandedMergeRequests>>)
    ensures
        r is Some <==> names_cover(pairs_view(pairs@), names@),
        r is Some ==> records_view(r->Some_0@) == enriched(pairs_view(pairs@), names@),
{
    let ghost ps = pairs_view(pairs@);
    let mut r: Vec<ExpandedMergeRequests> = Vec::new();
    let mut i: usize = 0;
    while i < pairs.len()
        invariant
            i <= pairs.len(),
            ps == pairs_view(pairs@),
            names_cover(ps.take(i as int), names@),
            records_view(r@) == enriched(ps.take(i as int), names@),
        decreases pairs.len() - i,
    {
        let (group, mr) = (&pairs[i].0, &pairs[i].1);
        let project_name = match names.get(mr.project_id) {
            Some(n) => n,
            None => {
                proof {
                    assert(ps[i as int].1.project_id == mr.project_id);
                }
                return None;
            },
        };
        let record = ExpandedMergeRequests {
            project_name,
            group_name: group.name.clone(),
            title: mr.title.clone(),
            web_url: mr.web_url.clone(),
            author: mr.author.duplicate(),
        };
        let ghost old_r = r@;
        r.push(record);
        proof {
            assert(ps.take(i + 1) =~= ps.take(i as int).push(ps[i as int]));
            assert(records_view(r@) =~= records_view(old_r).push(enriched_one(ps[i as int], names@)));
            assert(records_view(r@) =~= enriched(ps.take(i + 1), names@));
            assert forall|t: int| 0 <= t < i + 1 implies names@.contains_key(
                #[trigger] ps.take(i + 1)[t].1.project_id,
            ) by {
                if t < i {
                    assert(ps.take(i + 1)[t] == ps.take(i as int)[t]);
                }
            }
        }
        i = i + 1;
    }
    proof {
        assert(ps.take(i as int) =~= ps);
    }
    Some(r)
}

/// The lookups of a run are exactly the distinct projects: no project is
/// looked up twice, every project that a merge request belongs to is looked
/// up, and so there are as many lookups as distinct project ids among the
/// merge requests of all groups.
pub proof fn lemma_one_lookup_per_project(ps: Seq<(GroupView, MergeRequestView)>)
    ensures
        first_appearances(project_ids(ps)).no_duplicates(),
        first_appearances(project_ids(ps)).to_set() == project_ids(ps).to_set(),
        first_appearances(project_ids(ps)).len() == project_ids(ps).to_set().len(),
{
    lemma_first_appearances(project_ids(ps));
}

proof fn lemma_first_appearances(s: Seq<usize>)
    ensures
        first_appearances(s).no_duplicates(),
        first_appearances(s).to_set() == s.to_set(),
        first_appearances(s).len() == s.to_set().len(),
    decreases s.len(),
{
    if s.len() == 0 {
        assert(s.to_set() =~= Set::<usize>::empty());
        assert(first_appearances(s).to_set() =~= Set::<usize>::empty());
    } else {
        let t = s.drop_last();
        let x = s.last();
        let p = first_appearances(t);
        lemma_first_appearances(t);
        assert(s =~= t.push(x));
        t.lemma_push_to_set_commute(x);
        if !p.contains(x) {
            p.lemma_push_to_set_commute(x);
            assert(p.push(x).no_duplicates()) by {
                assert forall|a: int, b: int| 0 <= a < b < p.push(x).len() implies p.push(x)[a] != p.push(x)[b] by {
                    if b == p.len() {
                        assert(p[a] == p.push(x)[a]);
                    }
                }
            }
        } else {
            assert(p.to_set().contains(x));
            assert(s.to_set() =~= t.to_set());
        }
        first_appearances(s).unique_seq_to_set();
    }
}

/// How many merge requests the first `g` groups hold together.
pub open spec fn records_before(ms: Seq<Seq<MergeRequestView>>, g: int) -> int
    decreases g,
{
    if g <= 0 {
        0
    } else {
        records_before(ms, g - 1) + ms[g - 1].len()
    }
}

proof fn lemma_records_before_prefix(ms: Seq<Seq<MergeRequestView>>, n: int, g: int)
    requires
        0 <= g <= n <= ms.len(),
    ensures
        records_before(ms.take(n), g) == records_before(ms, g),
    decreases g,
{
    if g > 0 {
        lemma_records_before_prefix(ms, n, g - 1);
    }
}

proof fn lemma_paired_len(gs: Seq<GroupView>, ms: Seq<Seq<MergeRequestView>>)
    requires
        gs.len() == ms.len(),
    ensures
        paired(gs, ms).len() == records_before(ms, gs.len() as int),
    decreases gs.len(),
{
    if gs.len() > 0 {
        let n = gs.len() - 1;
        lemma_paired_len(gs.drop_last(), ms.drop_last());
        assert(ms.drop_last() =~= ms.take(n));
        lemma_records_before_prefix(ms, n, n);
    }
}

/// The pairs keep the order of the groups, and within a group the order of
/// its merge requests: the `k`-th merge request of group `g` comes after all
/// merge requests of the groups before `g`, and after the first `k` of its
/// own group.
pub proof fn lemma_group_order(gs: Seq<GroupView>, ms: Seq<Seq<MergeRequestView>>, g: int, k: int)
    requires
        gs.len() == ms.len(),
        0 <= g < gs.len(),
        0 <= k < ms[g].len(),
    ensures
        paired(gs, ms).len() == records_before(ms, gs.len() as int),
        records_before(ms, g) + k < paired(gs, ms).len(),
        paired(gs, ms)[records_before(ms, g) + k] == (gs[g], ms[g][k]),
    decreases gs.len(),
{
    lemma_paired_len(gs, ms);
    let n = gs.len() - 1;
    let gt = gs.drop_last();
    let mt = ms.drop_last();
    assert(mt =~= ms.take(n));
    lemma_paired_len(gt, mt);
    lemma_records_before_prefix(ms, n, n);
    lemma_records_before_prefix(ms, n, g);
    let tail = ms.last().map_values(|m: MergeRequestView| (gs.last(), m));
    assert(paired(gs, ms) == paired(gt, mt) + tail);
    let i = records_before(ms, g) + k;
    lemma_records_before_mono(ms, 0, g);
    if g < n {
        lemma_group_order(gt, mt, g, k);
        assert(ms[g] == mt[g]);
        assert(records_before(ms, g) + ms[g].len() <= records_before(ms, n)) by {
            lemma_records_before_mono(ms, g + 1, n);
            assert(records_before(ms, g + 1) == records_before(ms, g) + ms[g].len());
        }
        assert(paired(gt, mt).len() == records_before(ms, n));
        assert(i < paired(gt, mt).len());
        assert(paired(gs, ms)[i] == paired(gt, mt)[i]);
    } else {
        assert(paired(gs, ms)[i] == tail[k]);
    }
}

proof fn lemma_records_before_mono(ms: Seq<Seq<MergeRequestView>>, a: int, b: int)
    requires
        0 <= a <= b <= ms.len(),
    ensures
        records_before(ms, a) <= records_before(ms, b),
    decreases b - a,
{
    if a < b {
        lemma_records_before_mono(ms, a, b - 1);
    }
}

/// Looking up the names of the distinct projects is enough: once they are
/// known, every pair's project name is known, and enrichment succeeds.
pub proof fn lemma_lookups_suffice(ps: Seq<(GroupView, MergeRequestView)>, names: Map<usize, Seq<char>>)
    requires
        forall|id: usize| first_appearances(project_ids(ps)).contains(id) ==> names.contains_key(id),
    ensures
        names_cover(ps, names),
{
    lemma_first_appearances(project_ids(ps));
    assert forall|i: int| 0 <= i < ps.len() implies names.contains_key(#[trigger] ps[i].1.project_id) by {
        let id = ps[i].1.project_id;
        assert(project_ids(ps)[i] == id);
        assert(project_ids(ps).to_set().contains(id));
        assert(first_appearances(project_ids(ps)).to_set().contains(id));
    }
}

} // verus!
