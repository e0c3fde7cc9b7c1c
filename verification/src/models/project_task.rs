//! Tasks of a project: the task tree, its queries and its status rules.

use crate::error::ApiError;
use crate::id::RecordId;
use crate::models::project::{has_area, Project};
use crate::models::user::UserImage;
use vstd::prelude::*;

verus! {

/// The state of a task.
#[derive(Clone, Copy, Debug, PartialEq, Eq, Structural)]
pub enum ProjectTaskStatusKind {
    Running,
    Paused,
    Pending,
    Finished,
}

/// Which tasks of the tree a query asks for.
#[derive(Clone, Copy, Debug, PartialEq, Eq, Structural)]
pub enum ProjectTaskQueryKind {
    /// Tasks without a parent task.
    Root,
    /// Tasks that have sub-tasks.
    Dependency,
    /// Tasks without sub-tasks.
    Base,
}

/// When a task is planned, in milliseconds since the epoch.
#[derive(Clone, Copy, Debug)]
pub struct ProjectTaskPeriod {
    pub start: i64,
    pub end: i64,
}

/// How much work a task is, in some unit.
#[derive(Debug)]
pub struct ProjectTaskVolume {
    pub value: usize,
    pub unit: String,
}

/// One entry of a task's status history; `time` is in milliseconds since the epoch.
#[derive(Debug)]
pub struct ProjectTaskStatus {
    pub kind: ProjectTaskStatusKind,
    pub time: i64,
    pub message: Option<String>,
}

/// The body of a request that sets a task's status.
#[derive(Debug)]
pub struct ProjectTaskStatusRequest {
    pub kind: ProjectTaskStatusKind,
    pub message: Option<String>,
}

/// A user assigned to a task, as the service shows it.
#[derive(Debug)]
pub struct ProjectTaskUserResponse {
    pub _id: String,
    pub name: String,
    pub image: Option<UserImage>,
}

/// The project of a task, as the service shows it.
#[derive(Debug)]
pub struct ProjectTaskProjectResponse {
    pub _id: String,
    pub name: String,
}

/// The area of a task, as the service shows it.
#[derive(Debug)]
pub struct ProjectTaskAreaResponse {
    pub _id: String,
    pub name: String,
}

/// The period of a task, as the service shows it.
#[derive(Debug)]
pub struct ProjectTaskPeriodResponse {
    pub start: String,
    pub end: String,
}

/// The body of a request that sets a task's period, in milliseconds since the epoch.
#[derive(Clone, Copy, Debug)]
pub struct ProjectTaskPeriodRequest {
    pub start: i64,
    pub end: i64,
}

/// What a listing of tasks is narrowed to. Every filter that is set must hold.
#[derive(Debug)]
pub struct ProjectTaskQuery {
    pub _id: Option<RecordId>,
    pub project_id: Option<RecordId>,
    pub task_id: Option<RecordId>,
    pub area_id: Option<RecordId>,
    pub limit: Option<usize>,
    pub kind: Option<ProjectTaskQueryKind>,
}

/// A stored task, with everything the task rules read: all its fields but its
/// weight in the parent task.
#[derive(Debug)]
pub struct ProjectTaskRecord {
    pub _id: Option<RecordId>,
    pub project_id: RecordId,
    pub area_id: RecordId,
    pub task_id: Option<RecordId>,
    pub user_id: Option<Vec<RecordId>>,
    pub name: String,
    pub description: Option<String>,
    pub period: Option<ProjectTaskPeriod>,
    pub status: Vec<ProjectTaskStatus>,
    pub volume: Option<ProjectTaskVolume>,
}

/// What finishing a task sets off.
#[derive(Clone, Copy, Debug, PartialEq, Eq)]
pub enum FinishCascade {
    /// Nothing more is finished.
    Nothing,
    /// The parent task with this id is finished in turn.
    FinishParent(RecordId),
    /// The whole project is finished.
    FinishProject,
}

/// Some task of `project` among `tasks` has `id` as its parent.
pub open spec fn is_parent_in(tasks: Seq<ProjectTaskRecord>, project: Option<RecordId>, id: RecordId) -> bool {
    exists|j: int|
        0 <= j < tasks.len() && project == Some((#[trigger] tasks[j]).project_id)
            && tasks[j].task_id == Some(id)
}

/// The task `t` answers the query `q`; `tasks` is the whole collection, which
/// tells which tasks have sub-tasks.
pub open spec fn query_matches(
    q: ProjectTaskQuery,
    t: ProjectTaskRecord,
    tasks: Seq<ProjectTaskRecord>,
) -> bool {
    &&& (q._id matches Some(x) ==> t._id == Some(x))
    &&& (q.project_id matches Some(x) ==> t.project_id == x)
    &&& (q.area_id matches Some(x) ==> t.area_id == x)
    &&& (q.task_id matches Some(x) ==> t.task_id == Some(x))
    &&& match q.kind {
        None => true,
        Some(ProjectTaskQueryKind::Root) => t.task_id is None,
        Some(ProjectTaskQueryKind::Dependency) => t._id matches Some(i) && is_parent_in(
            tasks,
            q.project_id,
            i,
        ),
        Some(ProjectTaskQueryKind::Base) => !(t._id matches Some(i) && is_parent_in(
            tasks,
            q.project_id,
            i,
        )),
    }
}

/// The positions, in order, of the tasks among the first `n` that answer `q`.
pub open spec fn matching_positions(
    q: ProjectTaskQuery,
    tasks: Seq<ProjectTaskRecord>,
    n: nat,
) -> Seq<usize>
    decreases n,
{
    if n == 0 {
        Seq::empty()
    } else {
        let prev = matching_positions(q, tasks, (n - 1) as nat);
        if query_matches(q, tasks[n - 1], tasks) {
            prev.push((n - 1) as usize)
        } else {
            prev
        }
    }
}

/// The answer to `q`: the matching positions, at most `limit` of them.
pub open spec fn query_answer(q: ProjectTaskQuery, tasks: Seq<ProjectTaskRecord>) -> Seq<usize> {
    let all = matching_positions(q, tasks, tasks.len());
    match q.limit {
        Some(n) => if n < all.len() {
            all.take(n as int)
        } else {
            all
        },
        None => all,
    }
}

/// The latest status of the task is `Finished`.
pub open spec fn is_finished(t: ProjectTaskRecord) -> bool {
    t.status@.len() > 0 && t.status@[0].kind == ProjectTaskStatusKind::Finished
}

/// Every task of the group other than the one with id `me` is finished.
pub open spec fn others_finished(group: Seq<ProjectTaskRecord>, me: Option<RecordId>) -> bool {
    forall|i: int| 0 <= i < group.len() ==> (#[trigger] group[i])._id == me || is_finished(group[i])
}

/// What recording status `kind` on the task with id `me` and parent `parent`
/// sets off; `group` is what the lookup of the task's siblings found.
pub open spec fn finish_outcome(
    kind: ProjectTaskStatusKind,
    group: Option<Seq<ProjectTaskRecord>>,
    me: Option<RecordId>,
    parent: Option<RecordId>,
) -> Result<FinishCascade, ApiError> {
    if kind != ProjectTaskStatusKind::Finished {
        Ok(FinishCascade::Nothing)
    } else {
        match group {
            None => Err(ApiError::UpdateFailed),
            Some(g) => if !others_finished(g, me) {
                Ok(FinishCascade::Nothing)
            } else {
                match parent {
                    Some(p) => Ok(FinishCascade::FinishParent(p)),
                    None => Ok(FinishCascade::FinishProject),
                }
            },
        }
    }
}

/// The ids in order of first appearance, each once.
pub open spec fn distinct(ids: Seq<RecordId>) -> Seq<RecordId>
    decreases ids.len(),
{
    if ids.len() == 0 {
        Seq::empty()
    } else {
        let prev = distinct(ids.drop_last());
        if prev.contains(ids.last()) {
            prev
        } else {
            prev.push(ids.last())
        }
    }
}

/// The position of the first of the first `n` tasks whose id is `id`.
pub open spec fn first_with_id(tasks: Seq<ProjectTaskRecord>, id: RecordId, n: nat) -> Option<int>
    decreases n,
{
    if n == 0 {
        None
    } else {
        match first_with_id(tasks, id, (n - 1) as nat) {
            Some(p) => Some(p),
            None => if tasks[n - 1]._id == Some(id) {
                Some(n - 1)
            } else {
                None
            },
        }
    }
}

/// The positions of the tasks met walking up the task tree from `parent`: the
/// first task whose id is `parent`, then the first whose id is that task's
/// parent, and so on, until a task has no parent or its parent is not among
/// `tasks`. `None` when the walk takes more than `fuel` steps.
pub open spec fn ancestors(tasks: Seq<ProjectTaskRecord>, parent: Option<RecordId>, fuel: nat) -> Option<
    Seq<usize>,
>
    decreases fuel,
{
    match parent {
        None => Some(Seq::empty()),
        Some(id) => match first_with_id(tasks, id, tasks.len()) {
            None => Some(Seq::empty()),
            Some(p) => if fuel == 0 {
                None
            } else {
                match ancestors(tasks, tasks[p].task_id, (fuel - 1) as nat) {
                    Some(rest) => Some(seq![p as usize] + rest),
                    None => None,
                }
            },
        },
    }
}

/// The positions, in order, of the first appearance of each id among the first `n`.
pub open spec fn first_positions(ids: Seq<RecordId>, n: nat) -> Seq<usize>
    decreases n,
{
    if n == 0 {
        Seq::empty()
    } else {
        let prev = first_positions(ids, (n - 1) as nat);
        if ids.take(n - 1).contains(ids[n - 1]) {
            prev
        } else {
            prev.push((n - 1) as usize)
        }
    }
}

/// Whether `ids` holds `id`.
pub fn contains_id(ids: &Vec<RecordId>, id: &RecordId) -> (res: bool)
    ensures
        res == ids@.contains(*id),
{
    let mut i: usize = 0;
    while i < ids.len()
        invariant
            0 <= i <= ids.len(),
            forall|j: int| 0 <= j < i ==> ids@[j] != *id,
        decreases ids.len() - i,
    {
        if ids[i].same(id) {
            proof {
                assert(ids@[i as int] == *id);
            }
            return true;
        }
        i = i + 1;
    }
    false
}

/// Whether two optional ids are equal.
pub fn same_optional_id(a: &Option<RecordId>, b: &Option<RecordId>) -> (res: bool)
    ensures
        res == (*a == *b),
{
    match (a, b) {
        (Some(x), Some(y)) => x.same(y),
        (None, None) => true,
        _ => false,
    }
}

/// The position of the first task whose id is `id`.
pub fn find_task(tasks: &Vec<ProjectTaskRecord>, id: &RecordId) -> (res: Option<usize>)
    ensures
        res matches Some(p) ==> first_with_id(tasks@, *id, tasks@.len()) == Some(p as int),
        res is None ==> first_with_id(tasks@, *id, tasks@.len()) is None,
{
    let mut i: usize = 0;
    while i < tasks.len()
        invariant
            0 <= i <= tasks.len(),
            first_with_id(tasks@, *id, i as nat) is None,
        decreases tasks.len() - i,
    {
        let hit = match &tasks[i]._id {
            Some(x) => x.same(id),
            None => false,
        };
        if hit {
            proof {
                lemma_first_with_id_stays(tasks@, *id, (i + 1) as nat, tasks@.len());
            }
            return Some(i);
        }
        i = i + 1;
    }
    None
}

/// Once found among the first `m` tasks, the first position stays the same among more.
proof fn lemma_first_with_id_stays(tasks: Seq<ProjectTaskRecord>, id: RecordId, m: nat, n: nat)
    requires
        m <= n,
        first_with_id(tasks, id, m) is Some,
    ensures
        first_with_id(tasks, id, n) == first_with_id(tasks, id, m),
    decreases n - m,
{
    if m < n {
        lemma_first_with_id_stays(tasks, id, m, (n - 1) as nat);
    }
}

/// A position found among the first `n` tasks is one of them, and names a task with that id.
proof fn lemma_first_with_id_found(tasks: Seq<ProjectTaskRecord>, id: RecordId, n: nat)
    requires
        n <= tasks.len(),
    ensures
        first_with_id(tasks, id, n) matches Some(p) ==> 0 <= p < n && tasks[p]._id == Some(id),
    decreases n,
{
    if n > 0 {
        lemma_first_with_id_found(tasks, id, (n - 1) as nat);
    }
}

/// Walks up the task tree from `parent` and gives the positions of the tasks
/// met on the way, nearest first (see `ancestors`). `None` when the walk goes
/// round in a loop, so that it would take more steps than there are tasks.
pub fn ancestor_positions(tasks: &Vec<ProjectTaskRecord>, parent: &Option<RecordId>) -> (res: Option<
    Vec<usize>,
>)
    ensures
        res matches Some(v) ==> ancestors(tasks@, *parent, tasks@.len()) == Some(v@),
        res is None ==> ancestors(tasks@, *parent, tasks@.len()) is None,
{
    let mut path: Vec<usize> = Vec::new();
    let mut current: Option<RecordId> = *parent;
    let mut fuel: usize = tasks.len();
    loop
        invariant
            fuel <= tasks.len(),
            forall|k: int| 0 <= k < path@.len() ==> (#[trigger] path@[k]) < tasks@.len(),
            ancestors(tasks@, *parent, tasks@.len()) == match ancestors(tasks@, current, fuel as nat) {
                Some(rest) => Some(path@ + rest),
                None => None::<Seq<usize>>,
            },
        decreases fuel,
    {
        let id = match current {
            None => {
                proof {
                    assert(path@ + Seq::<usize>::empty() =~= path@);
                }
                return Some(path);
            },
            Some(id) => id,
        };
        let found = find_task(tasks, &id);
        let p = match found {
            None => {
                proof {
                    assert(path@ + Seq::<usize>::empty() =~= path@);
                }
                return Some(path);
            },
            Some(p) => p,
        };
        proof {
            lemma_first_with_id_found(tasks@, id, tasks@.len());
        }
        if fuel == 0 {
            return None;
        }
        proof {
            let rest = ancestors(tasks@, tasks@[p as int].task_id, (fuel - 1) as nat);
            if let Some(r) = rest {
                assert(path@ + (seq![p] + r) =~= path@.push(p) + r);
            }
        }
        path.push(p);
        current = tasks[p].task_id;
        fuel = fuel - 1;
    }
}

/// Walking up the task tree: the first task met has `parent` as its id, and
/// each further task met is the parent of the one before.
pub proof fn lemma_ancestors_link(tasks: Seq<ProjectTaskRecord>, parent: Option<RecordId>, fuel: nat)
    requires
        tasks.len() <= usize::MAX,
    ensures
        ancestors(tasks, parent, fuel) matches Some(path) ==> {
            &&& forall|k: int| 0 <= k < path.len() ==> (#[trigger] path[k]) < tasks.len()
            &&& path.len() > 0 ==> tasks[path[0] as int]._id == parent
            &&& forall|k: int|
                0 < k < path.len() ==> tasks[(#[trigger] path[k]) as int]._id == tasks[path[k
                    - 1] as int].task_id
        },
    decreases fuel,
{
    if let Some(id) = parent {
        lemma_first_with_id_found(tasks, id, tasks.len());
        if let Some(p) = first_with_id(tasks, id, tasks.len()) {
            if fuel > 0 {
                lemma_ancestors_link(tasks, tasks[p].task_id, (fuel - 1) as nat);
                if let Some(path) = ancestors(tasks, parent, fuel) {
                    let rest = ancestors(tasks, tasks[p].task_id, (fuel - 1) as nat)->0;
                    assert(path =~= seq![p as usize] + rest);
                    assert(path[0] as int == p);
                    assert forall|k: int| 0 < k < path.len() implies tasks[(#[trigger] path[
                        k]) as int]._id == tasks[path[k - 1] as int].task_id by {
                        assert(path[k] == rest[k - 1]);
                        if k > 1 {
                            assert(path[k - 1] == rest[k - 2]);
                        }
                    }
                    assert forall|k: int| 0 <= k < path.len() implies (#[trigger] path[k]) < tasks.len() by {
                        if k > 0 {
                            assert(path[k] == rest[k - 1]);
                        }
                    }
                }
            }
        }
    }
}

/// A walk that ends within some number of steps meets at most that many tasks.
proof fn lemma_ancestors_len_within_fuel(tasks: Seq<ProjectTaskRecord>, parent: Option<RecordId>, fuel: nat)
    ensures
        ancestors(tasks, parent, fuel) matches Some(path) ==> path.len() <= fuel,
    decreases fuel,
{
    if let Some(id) = parent {
        if let Some(p) = first_with_id(tasks, id, tasks.len()) {
            if fuel > 0 {
                lemma_ancestors_len_within_fuel(tasks, tasks[p].task_id, (fuel - 1) as nat);
            }
        }
    }
}

/// A walk that ends with some number of steps ends the same way with any
/// number of steps at least as long as the path it found.
proof fn lemma_ancestors_more_fuel(
    tasks: Seq<ProjectTaskRecord>,
    parent: Option<RecordId>,
    fuel: nat,
    more: nat,
)
    requires
        ancestors(tasks, parent, fuel) is Some,
        more >= ancestors(tasks, parent, fuel)->0.len(),
    ensures
        ancestors(tasks, parent, more) == ancestors(tasks, parent, fuel),
    decreases fuel,
{
    if let Some(id) = parent {
        if let Some(p) = first_with_id(tasks, id, tasks.len()) {
            let next = tasks[p].task_id;
            lemma_ancestors_more_fuel(tasks, next, (fuel - 1) as nat, (more - 1) as nat);
        }
    }
}

/// After the `k`-th task of a walk, the walk goes on as a walk from that task's parent.
proof fn lemma_ancestors_suffix(
    tasks: Seq<ProjectTaskRecord>,
    parent: Option<RecordId>,
    fuel: nat,
    k: int,
)
    requires
        tasks.len() <= usize::MAX,
        ancestors(tasks, parent, fuel) is Some,
        0 <= k < ancestors(tasks, parent, fuel)->0.len(),
    ensures
        ancestors(tasks, tasks[ancestors(tasks, parent, fuel)->0[k] as int].task_id, fuel) == Some(
            ancestors(tasks, parent, fuel)->0.skip(k + 1),
        ),
    decreases fuel,
{
    let path = ancestors(tasks, parent, fuel)->0;
    let id = parent->0;
    let p = first_with_id(tasks, id, tasks.len())->0;
    lemma_first_with_id_found(tasks, id, tasks.len());
    let next = tasks[p].task_id;
    let rest = ancestors(tasks, next, (fuel - 1) as nat)->0;
    lemma_ancestors_len_within_fuel(tasks, next, (fuel - 1) as nat);
    assert(path =~= seq![p as usize] + rest);
    if k == 0 {
        assert(path.skip(1) =~= rest);
        assert(path[0] as int == p);
        lemma_ancestors_more_fuel(tasks, next, (fuel - 1) as nat, fuel);
    } else {
        lemma_ancestors_suffix(tasks, next, (fuel - 1) as nat, k - 1);
        assert(path[k] == rest[k - 1]);
        assert(path.skip(k + 1) =~= rest.skip(k));
        lemma_ancestors_more_fuel(tasks, tasks[rest[k - 1] as int].task_id, (fuel - 1) as nat, fuel);
    }
}

/// A walk that ends never meets the same task twice.
proof fn lemma_ancestors_no_duplicates(tasks: Seq<ProjectTaskRecord>, parent: Option<RecordId>, fuel: nat)
    requires
        tasks.len() <= usize::MAX,
        ancestors(tasks, parent, fuel) is Some,
    ensures
        ancestors(tasks, parent, fuel)->0.no_duplicates(),
    decreases fuel,
{
    if let Some(id) = parent {
        if let Some(p) = first_with_id(tasks, id, tasks.len()) {
            lemma_first_with_id_found(tasks, id, tasks.len());
            let next = tasks[p].task_id;
            let path = ancestors(tasks, parent, fuel)->0;
            let rest = ancestors(tasks, next, (fuel - 1) as nat)->0;
            lemma_ancestors_no_duplicates(tasks, next, (fuel - 1) as nat);
            assert(path =~= seq![p as usize] + rest);
            assert forall|k: int| 0 <= k < rest.len() implies rest[k] != p as usize by {
                if rest[k] == p as usize {
                    let f1 = (fuel - 1) as nat;
                    lemma_ancestors_suffix(tasks, next, f1, k);
                    assert(tasks[rest[k] as int].task_id == next);
                    assert(ancestors(tasks, next, f1) == Some(rest));
                    assert(ancestors(tasks, next, f1) == Some(rest.skip(k + 1)));
                    assert(rest.len() != rest.skip(k + 1).len());
                }
            }
            assert forall|i: int, j: int|
                0 <= i < path.len() && 0 <= j < path.len() && i != j implies path[i] != path[j] by {
                if i > 0 && j > 0 {
                    assert(path[i] == rest[i - 1] && path[j] == rest[j - 1]);
                } else if i == 0 {
                    assert(path[j] == rest[j - 1]);
                } else {
                    assert(path[i] == rest[i - 1]);
                }
            }
        }
    }
}

/// A sequence of distinct positions below `n` has at most `n` elements.
proof fn lemma_distinct_positions_fit(path: Seq<usize>, n: nat)
    requires
        path.no_duplicates(),
        forall|k: int| 0 <= k < path.len() ==> (#[trigger] path[k]) < n,
    ensures
        path.len() <= n,
{
    let ints = path.map_values(|x: usize| x as int);
    assert(ints.no_duplicates()) by {
        assert forall|i: int, j: int|
            0 <= i < ints.len() && 0 <= j < ints.len() && i != j implies ints[i] != ints[j] by {
            assert(path[i] != path[j]);
        }
    }
    ints.unique_seq_to_set();
    vstd::set_lib::lemma_int_range(0, n as int);
    assert forall|x: int| ints.to_set().contains(x) implies vstd::set_lib::set_int_range(
        0,
        n as int,
    ).contains(x) by {
        let k = choose|k: int| 0 <= k < ints.len() && ints[k] == x;
        assert(path[k] < n);
    }
    vstd::set_lib::lemma_len_subset(ints.to_set(), vstd::set_lib::set_int_range(0, n as int));
}

/// A walk up the task tree that ends at all ends within as many steps as there
/// are tasks, on the same path; so where `ancestor_positions` reports a loop, no
/// number of steps would have ended the walk.
pub proof fn lemma_ancestors_end_within_task_count(
    tasks: Seq<ProjectTaskRecord>,
    parent: Option<RecordId>,
    fuel: nat,
)
    requires
        tasks.len() <= usize::MAX,
    ensures
        ancestors(tasks, parent, fuel) is Some ==> ancestors(tasks, parent, tasks.len()) == ancestors(
            tasks,
            parent,
            fuel,
        ),
{
    if ancestors(tasks, parent, fuel) is Some {
        let path = ancestors(tasks, parent, fuel)->0;
        lemma_ancestors_no_duplicates(tasks, parent, fuel);
        lemma_ancestors_link(tasks, parent, fuel);
        lemma_distinct_positions_fit(path, tasks.len());
        lemma_ancestors_more_fuel(tasks, parent, fuel, tasks.len());
    }
}

/// The positions of the first appearance of each id, in order.
pub fn first_appearances(ids: &Vec<RecordId>) -> (res: Vec<usize>)
    ensures
        res@ == first_positions(ids@, ids@.len()),
{
    let mut seen: Vec<RecordId> = Vec::new();
    let mut out: Vec<usize> = Vec::new();
    let mut i: usize = 0;
    while i < ids.len()
        invariant
            0 <= i <= ids.len(),
            seen@ == distinct(ids@.take(i as int)),
            out@ == first_positions(ids@, i as nat),
        decreases ids.len() - i,
    {
        proof {
            lemma_distinct_ids(ids@.take(i as int));
            assert(ids@.take(i as int + 1).drop_last() =~= ids@.take(i as int));
            assert(ids@.take(i as int + 1).last() == ids@[i as int]);
        }
        if !contains_id(&seen, &ids[i]) {
            seen.push(ids[i]);
            out.push(i);
        }
        i = i + 1;
    }
    out
}

/// The ids in order of first appearance, each once.
pub fn distinct_ids(ids: &Vec<RecordId>) -> (res: Vec<RecordId>)
    ensures
        res@ == distinct(ids@),
{
    let mut out: Vec<RecordId> = Vec::new();
    let mut i: usize = 0;
    while i < ids.len()
        invariant
            0 <= i <= ids.len(),
            out@ == distinct(ids@.take(i as int)),
        decreases ids.len() - i,
    {
        proof {
            assert(ids@.take(i as int + 1).drop_last() =~= ids@.take(i as int));
            assert(ids@.take(i as int + 1).last() == ids@[i as int]);
        }
        if !contains_id(&out, &ids[i]) {
            out.push(ids[i]);
        }
        i = i + 1;
    }
    proof {
        assert(ids@.take(ids@.len() as int) =~= ids@);
    }
    out
}

/// The distinct ids hold each id once, and hold exactly the ids of the input.
pub proof fn lemma_distinct_ids(ids: Seq<RecordId>)
    ensures
        distinct(ids).no_duplicates(),
        forall|x: RecordId| distinct(ids).contains(x) <==> ids.contains(x),
    decreases ids.len(),
{
    if ids.len() > 0 {
        let prev = ids.drop_last();
        lemma_distinct_ids(prev);
        let pd = distinct(prev);
        let a = ids.last();
        assert(ids =~= prev.push(a));
        assert forall|x: RecordId| distinct(ids).contains(x) <==> ids.contains(x) by {
            lemma_push_contains(prev, a, x);
            lemma_push_contains(pd, a, x);
        }
        if !pd.contains(a) {
            assert forall|p: int, q: int|
                0 <= p < distinct(ids).len() && 0 <= q < distinct(ids).len() && p != q implies distinct(ids)[p]
                    != distinct(ids)[q] by {
                if p < pd.len() && q < pd.len() {
                } else if p == pd.len() {
                    assert(pd[q] == distinct(ids)[q]);
                } else {
                    assert(pd[p] == distinct(ids)[p]);
                }
            }
        }
    }
}

/// A sequence with one more element holds what it held before, and that element.
proof fn lemma_push_contains(s: Seq<RecordId>, a: RecordId, x: RecordId)
    ensures
        s.push(a).contains(x) <==> (s.contains(x) || x == a),
{
    if s.contains(x) {
        let k = choose|k: int| 0 <= k < s.len() && s[k] == x;
        assert(s.push(a)[k] == x);
    }
    if x == a {
        assert(s.push(a)[s.len() as int] == x);
    }
    if s.push(a).contains(x) {
        let k = choose|k: int| 0 <= k < s.push(a).len() && s.push(a)[k] == x;
        if k < s.len() {
            assert(s[k] == x);
        }
    }
}

impl ProjectTaskQuery {
    /// Whether some task of `project` among `tasks` has `id` as its parent.
    fn has_subtasks(
        tasks: &Vec<ProjectTaskRecord>,
        project: &Option<RecordId>,
        id: &RecordId,
    ) -> (res: bool)
        ensures
            res == is_parent_in(tasks@, *project, *id),
    {
        let mut j: usize = 0;
        while j < tasks.len()
            invariant
                0 <= j <= tasks.len(),
                forall|k: int|
                    0 <= k < j ==> !(*project == Some((#[trigger] tasks@[k]).project_id)
                        && tasks@[k].task_id == Some(*id)),
            decreases tasks.len() - j,
        {
            let t = &tasks[j];
            let in_project = match project {
                Some(p) => p.same(&t.project_id),
                None => false,
            };
            let child = match &t.task_id {
                Some(parent) => parent.same(id),
                None => false,
            };
            if in_project && child {
                proof {
                    assert(*project == Some(tasks@[j as int].project_id) && tasks@[j as int].task_id
                        == Some(*id));
                }
                return true;
            }
            j = j + 1;
        }
        false
    }

    /// Whether the task `t` answers this query; `tasks` is the whole collection.
    pub fn matches(&self, t: &ProjectTaskRecord, tasks: &Vec<ProjectTaskRecord>) -> (res: bool)
        ensures
            res == query_matches(*self, *t, tasks@),
    {
        let id_ok = match &self._id {
            Some(x) => match &t._id {
                Some(y) => x.same(y),
                None => false,
            },
            None => true,
        };
        let project_ok = match &self.project_id {
            Some(x) => x.same(&t.project_id),
            None => true,
        };
        let area_ok = match &self.area_id {
            Some(x) => x.same(&t.area_id),
            None => true,
        };
        let parent_ok = match &self.task_id {
            Some(x) => match &t.task_id {
                Some(y) => x.same(y),
                None => false,
            },
            None => true,
        };
        let kind_ok = match self.kind {
            None => true,
            Some(ProjectTaskQueryKind::Root) => t.task_id.is_none(),
            Some(ProjectTaskQueryKind::Dependency) => match &t._id {
                Some(i) => Self::has_subtasks(tasks, &self.project_id, i),
                None => false,
            },
            Some(ProjectTaskQueryKind::Base) => match &t._id {
                Some(i) => !Self::has_subtasks(tasks, &self.project_id, i),
                None => true,
            },
        };
        id_ok && project_ok && area_ok && parent_ok && kind_ok
    }

    /// Answers the query over the whole task collection `tasks`: the positions of
    /// the matching tasks in collection order, at most `limit` of them; `None`
    /// when no task matches. A zero limit is refused, as the store refuses it.
    pub fn select(&self, tasks: &Vec<ProjectTaskRecord>) -> (res: Result<Option<Vec<usize>>, ApiError>)
        ensures
            self.limit == Some(0usize) ==> res == Err::<Option<Vec<usize>>, ApiError>(
                ApiError::ProjectTaskNotFound,
            ),
            self.limit != Some(0usize) ==> res is Ok,
            res matches Ok(None) ==> query_answer(*self, tasks@).len() == 0,
            res matches Ok(Some(v)) ==> v@ == query_answer(*self, tasks@) && v@.len() > 0,
    {
        if self.limit == Some(0usize) {
            return Err(ApiError::ProjectTaskNotFound);
        }
        let mut found: Vec<usize> = Vec::new();
        let mut i: usize = 0;
        while i < tasks.len()
            invariant
                0 <= i <= tasks.len(),
                found@ == matching_positions(*self, tasks@, i as nat),
            decreases tasks.len() - i,
        {
            if self.matches(&tasks[i], tasks) {
                found.push(i);
            }
            i = i + 1;
        }
        let answer = match self.limit {
            Some(n) => {
                if n < found.len() {
                    let mut cut: Vec<usize> = Vec::new();
                    let mut k: usize = 0;
                    while k < n
                        invariant
                            0 <= k <= n,
                            n < found@.len(),
                            cut@ == found@.take(k as int),
                        decreases n - k,
                    {
                        cut.push(found[k]);
                        proof {
                            assert(found@.take(k as int + 1) =~= found@.take(k as int).push(
                                found@[k as int],
                            ));
                        }
                        k = k + 1;
                    }
                    cut
                } else {
                    found
                }
            },
            None => found,
        };
        if answer.len() == 0 {
            Ok(None)
        } else {
            Ok(Some(answer))
        }
    }
}

impl ProjectTaskRecord {
    /// Records a new status in front of the task's history.
    pub fn push_status(&mut self, kind: ProjectTaskStatusKind, time: i64, message: Option<String>)
        ensures
            final(self).status@ == seq![ProjectTaskStatus { kind, time, message }] + old(
                self,
            ).status@,
            final(self)._id == old(self)._id,
            final(self).project_id == old(self).project_id,
            final(self).area_id == old(self).area_id,
            final(self).task_id == old(self).task_id,
            final(self).period == old(self).period,
            final(self).user_id == old(self).user_id,
            final(self).name == old(self).name,
            final(self).description == old(self).description,
            final(self).volume == old(self).volume,
    {
        self.status.insert(0, ProjectTaskStatus { kind, time, message });
        proof {
            assert(self.status@ =~= seq![ProjectTaskStatus { kind, time, message }] + old(
                self,
            ).status@);
        }
    }

    /// Whether every task of `group` other than this one is finished.
    pub fn others_finished(&self, group: &Vec<ProjectTaskRecord>) -> (res: bool)
        requires
            forall|i: int|
                0 <= i < group@.len() ==> (#[trigger] group@[i])._id != self._id
                    ==> group@[i].status@.len() > 0,
        ensures
            res == others_finished(group@, self._id),
    {
        let mut i: usize = 0;
        while i < group.len()
            invariant
                0 <= i <= group.len(),
                forall|j: int|
                    0 <= j < group@.len() ==> (#[trigger] group@[j])._id != self._id
                        ==> group@[j].status@.len() > 0,
                forall|j: int|
                    0 <= j < i ==> (#[trigger] group@[j])._id == self._id || is_finished(group@[j]),
            decreases group.len() - i,
        {
            let t = &group[i];
            if !same_optional_id(&t._id, &self._id) && t.status[0].kind
                != ProjectTaskStatusKind::Finished {
                proof {
                    assert(!(group@[i as int]._id == self._id || is_finished(group@[i as int])));
                }
                return false;
            }
            i = i + 1;
        }
        true
    }

    /// Records a status change of the task and says what it sets off. Finishing
    /// a task consults `group`: the tasks that share its parent, or the root
    /// tasks when it has none (`None` when that lookup found nothing). When all
    /// of them but this one are finished, the parent is finished in turn, or the
    /// whole project when the task has no parent.
    pub fn update_status(
        &mut self,
        kind: ProjectTaskStatusKind,
        time: i64,
        message: Option<String>,
        group: Option<&Vec<ProjectTaskRecord>>,
    ) -> (res: Result<FinishCascade, ApiError>)
        requires
            group matches Some(g) ==> forall|i: int|
                0 <= i < g@.len() ==> (#[trigger] g@[i])._id != old(self)._id
                    ==> g@[i].status@.len() > 0,
        ensures
            final(self).status@ == seq![ProjectTaskStatus { kind, time, message }] + old(
                self,
            ).status@,
            final(self)._id == old(self)._id,
            final(self).project_id == old(self).project_id,
            final(self).area_id == old(self).area_id,
            final(self).task_id == old(self).task_id,
            final(self).period == old(self).period,
            final(self).user_id == old(self).user_id,
            final(self).name == old(self).name,
            final(self).description == old(self).description,
            final(self).volume == old(self).volume,
            res == finish_outcome(
                kind,
                match group {
                    Some(g) => Some(g@),
                    None => None,
                },
                old(self)._id,
                old(self).task_id,
            ),
    {
        self.push_status(kind, time, message);
        if kind != ProjectTaskStatusKind::Finished {
            return Ok(FinishCascade::Nothing);
        }
        match group {
            None => Err(ApiError::UpdateFailed),
            Some(g) => {
                if !self.others_finished(g) {
                    Ok(FinishCascade::Nothing)
                } else {
                    match self.task_id {
                        Some(parent) => Ok(FinishCascade::FinishParent(parent)),
                        None => Ok(FinishCascade::FinishProject),
                    }
                }
            },
        }
    }

    /// Checks and sets a new period. `project_tasks` are the tasks of the
    /// task's project: a task with sub-tasks takes its period from them, and a
    /// period must start before it ends. Nothing changes when refused.
    pub fn update_period(
        &mut self,
        project_tasks: &Vec<ProjectTaskRecord>,
        period: ProjectTaskPeriod,
    ) -> (res: Result<(), ApiError>)
        requires
            old(self)._id is Some,
        ensures
            (exists|j: int|
                0 <= j < project_tasks@.len() && (#[trigger] project_tasks@[j]).task_id == old(
                    self,
                )._id) ==> res == Err::<(), ApiError>(ApiError::ProjectTaskDependency),
            !(exists|j: int|
                0 <= j < project_tasks@.len() && (#[trigger] project_tasks@[j]).task_id == old(
                    self,
                )._id) ==> (res is Err <==> period.start >= period.end) && (res matches Err(e)
                ==> e == ApiError::InvalidPeriod),
            res is Ok ==> final(self).period == Some(period),
            res is Err ==> final(self).period == old(self).period,
            final(self)._id == old(self)._id,
            final(self).project_id == old(self).project_id,
            final(self).area_id == old(self).area_id,
            final(self).status == old(self).status,
            final(self).task_id == old(self).task_id,
            final(self).user_id == old(self).user_id,
            final(self).name == old(self).name,
            final(self).description == old(self).description,
            final(self).volume == old(self).volume,
    {
        let mut j: usize = 0;
        while j < project_tasks.len()
            invariant
                0 <= j <= project_tasks.len(),
                forall|k: int| 0 <= k < j ==> (#[trigger] project_tasks@[k]).task_id != self._id,
            decreases project_tasks.len() - j,
        {
            if same_optional_id(&project_tasks[j].task_id, &self._id) {
                proof {
                    assert(project_tasks@[j as int].task_id == self._id);
                }
                return Err(ApiError::ProjectTaskDependency);
            }
            j = j + 1;
        }
        if period.start >= period.end {
            return Err(ApiError::InvalidPeriod);
        }
        self.period = Some(period);
        Ok(())
    }

    /// Places a new task under `parent`: the parent loses its own volume and
    /// assignees, and the new task joins the parent's area.
    pub fn adopt_parent(&mut self, parent: &mut ProjectTaskRecord)
        ensures
            final(self).area_id == old(parent).area_id,
            final(parent).volume is None,
            final(parent).user_id is None,
            final(parent)._id == old(parent)._id,
            final(parent).area_id == old(parent).area_id,
            final(parent).status == old(parent).status,
            final(parent).project_id == old(parent).project_id,
            final(parent).task_id == old(parent).task_id,
            final(parent).period == old(parent).period,
            final(parent).name == old(parent).name,
            final(parent).description == old(parent).description,
            final(self)._id == old(self)._id,
            final(self).task_id == old(self).task_id,
            final(self).project_id == old(self).project_id,
            final(self).period == old(self).period,
            final(self).status == old(self).status,
            final(self).user_id == old(self).user_id,
            final(self).volume == old(self).volume,
            final(self).name == old(self).name,
            final(self).description == old(self).description,
    {
        parent.volume = None;
        parent.user_id = None;
        self.area_id = parent.area_id;
    }

    /// Checks that the task's area belongs to its project.
    pub fn check_area(&self, project: &Project) -> (res: Result<(), ApiError>)
        ensures
            res is Ok <==> has_area(*project, self.area_id),
            res matches Err(e) ==> e == ApiError::ProjectAreaNotFound,
    {
        if project.has_area(&self.area_id) {
            Ok(())
        } else {
            Err(ApiError::ProjectAreaNotFound)
        }
    }
}

/// Finishing a task finishes its parent only when every other task under that
/// parent is finished, and finishes the project only when the task is a root
/// task and every other root task is finished. No other status finishes anything.
pub proof fn lemma_finish_cascade_needs_siblings(
    kind: ProjectTaskStatusKind,
    group: Option<Seq<ProjectTaskRecord>>,
    me: Option<RecordId>,
    parent: Option<RecordId>,
)
    ensures
        finish_outcome(kind, group, me, parent) matches Ok(FinishCascade::FinishParent(p)) ==> {
            &&& kind == ProjectTaskStatusKind::Finished
            &&& parent == Some(p)
            &&& group matches Some(g) && others_finished(g, me)
        },
        finish_outcome(kind, group, me, parent) == Ok::<FinishCascade, ApiError>(
            FinishCascade::FinishProject,
        ) ==> {
            &&& kind == ProjectTaskStatusKind::Finished
            &&& parent is None
            &&& group matches Some(g) && others_finished(g, me)
        },
{
}

/// The positions that a query selects among the first `n` tasks are exactly
/// those of the tasks that answer it, each once and in collection order.
pub proof fn lemma_matching_positions_exact(q: ProjectTaskQuery, tasks: Seq<ProjectTaskRecord>, n: nat)
    requires
        n <= tasks.len(),
        tasks.len() <= usize::MAX,
    ensures
        forall|i: int|
            0 <= i < matching_positions(q, tasks, n).len() ==> (#[trigger] matching_positions(
                q,
                tasks,
                n,
            )[i]) < n && query_matches(q, tasks[matching_positions(q, tasks, n)[i] as int], tasks),
        forall|i: int, j: int|
            0 <= i < j < matching_positions(q, tasks, n).len() ==> (#[trigger] matching_positions(
                q,
                tasks,
                n,
            )[i]) < (#[trigger] matching_positions(q, tasks, n)[j]),
        forall|k: int|
            0 <= k < n && query_matches(q, tasks[k], tasks) ==> #[trigger] matching_positions(
                q,
                tasks,
                n,
            ).contains(k as usize),
    decreases n,
{
    if n > 0 {
        let m = (n - 1) as nat;
        lemma_matching_positions_exact(q, tasks, m);
        let prev = matching_positions(q, tasks, m);
        let cur = matching_positions(q, tasks, n);
        if query_matches(q, tasks[m as int], tasks) {
            assert(cur == prev.push(m as usize));
            assert forall|k: int| 0 <= k < n && query_matches(q, tasks[k], tasks) implies cur.contains(
                k as usize,
            ) by {
                if k < m {
                    assert(matching_positions(q, tasks, m).contains(k as usize));
                    let w = choose|w: int| 0 <= w < prev.len() && prev[w] == k as usize;
                    assert(cur[w] == prev[w]);
                } else {
                    assert(cur[prev.len() as int] == k as usize);
                }
            }
        } else {
            assert forall|k: int| 0 <= k < n && query_matches(q, tasks[k], tasks) implies cur.contains(
                k as usize,
            ) by {
                assert(k < m);
                assert(matching_positions(q, tasks, m).contains(k as usize));
            }
        }
    }
}

/// Every stored task lies in an area of its project: a task is stored only
/// when `check_area` accepts it, and a sub-task takes the area of its parent
/// (`adopt_parent`), so a sub-task of a task that lies in an area of the
/// project passes the check.
pub proof fn lemma_subtask_stays_in_project_area(
    project: Project,
    parent: ProjectTaskRecord,
    child: ProjectTaskRecord,
)
    requires
        has_area(project, parent.area_id),
        child.area_id == parent.area_id,
    ensures
        has_area(project, child.area_id),
{
}

/// Listing the tasks of project `p` that have sub-tasks gives exactly the
/// tasks of `p` whose id some task of `p` names as its parent, whatever their
/// own parent is; listing those without sub-tasks gives exactly the other
/// tasks of `p`.
pub proof fn lemma_dependency_query_lists_every_parent(
    p: RecordId,
    tasks: Seq<ProjectTaskRecord>,
    k: int,
)
    requires
        tasks.len() <= usize::MAX,
        0 <= k < tasks.len(),
    ensures
        ({
            let dep = ProjectTaskQuery {
                _id: None,
                project_id: Some(p),
                task_id: None,
                area_id: None,
                limit: None,
                kind: Some(ProjectTaskQueryKind::Dependency),
            };
            query_answer(dep, tasks).contains(k as usize) <==> (tasks[k].project_id == p
                && (tasks[k]._id matches Some(i) && exists|j: int|
                0 <= j < tasks.len() && (#[trigger] tasks[j]).project_id == p && tasks[j].task_id
                    == Some(i)))
        }),
        ({
            let base = ProjectTaskQuery {
                _id: None,
                project_id: Some(p),
                task_id: None,
                area_id: None,
                limit: None,
                kind: Some(ProjectTaskQueryKind::Base),
            };
            query_answer(base, tasks).contains(k as usize) <==> (tasks[k].project_id == p
                && !(tasks[k]._id matches Some(i) && exists|j: int|
                0 <= j < tasks.len() && (#[trigger] tasks[j]).project_id == p && tasks[j].task_id
                    == Some(i)))
        }),
{
    let dep = ProjectTaskQuery {
        _id: None,
        project_id: Some(p),
        task_id: None,
        area_id: None,
        limit: None,
        kind: Some(ProjectTaskQueryKind::Dependency),
    };
    let base = ProjectTaskQuery { kind: Some(ProjectTaskQueryKind::Base), ..dep };
    lemma_query_answer_member(dep, tasks, k);
    lemma_query_answer_member(base, tasks, k);
}

/// Without a limit, a position is in a query's answer exactly when the task there answers it.
proof fn lemma_query_answer_member(q: ProjectTaskQuery, tasks: Seq<ProjectTaskRecord>, k: int)
    requires
        tasks.len() <= usize::MAX,
        0 <= k < tasks.len(),
        q.limit is None,
    ensures
        query_answer(q, tasks).contains(k as usize) <==> query_matches(q, tasks[k], tasks),
{
    lemma_matching_positions_exact(q, tasks, tasks.len());
    let mp = matching_positions(q, tasks, tasks.len());
    assert(query_answer(q, tasks) == mp);
    if mp.contains(k as usize) {
        let w = choose|w: int| 0 <= w < mp.len() && mp[w] == k as usize;
        assert(query_matches(q, tasks[mp[w] as int], tasks));
        assert(mp[w] as int == k);
    }
    if query_matches(q, tasks[k], tasks) {
        assert(matching_positions(q, tasks, tasks.len()).contains(k as usize));
    }
}

/// Finishing a task reads each other task of its group by its newest status
/// entry, the one that `push_status` puts in front: when every other task's
/// newest entry is `Finished`, the parent is finished in turn (the project for
/// a root task), whatever older entries say; when some other task's newest
/// entry is not `Finished`, nothing more is finished. Any other status
/// finishes nothing, and a failed lookup of the group fails the update.
pub proof fn lemma_finishing_reads_newest_status(
    group: Seq<ProjectTaskRecord>,
    me: Option<RecordId>,
    parent: Option<RecordId>,
    kind: ProjectTaskStatusKind,
)
    ensures
        (forall|i: int|
            0 <= i < group.len() && (#[trigger] group[i])._id != me ==> group[i].status@.len() > 0
                && group[i].status@[0].kind == ProjectTaskStatusKind::Finished) ==> finish_outcome(
            ProjectTaskStatusKind::Finished,
            Some(group),
            me,
            parent,
        ) == Ok::<FinishCascade, ApiError>(
            match parent {
                Some(p) => FinishCascade::FinishParent(p),
                None => FinishCascade::FinishProject,
            },
        ),
        (exists|i: int|
            0 <= i < group.len() && (#[trigger] group[i])._id != me && group[i].status@.len() > 0
                && group[i].status@[0].kind != ProjectTaskStatusKind::Finished) ==> finish_outcome(
            ProjectTaskStatusKind::Finished,
            Some(group),
            me,
            parent,
        ) == Ok::<FinishCascade, ApiError>(FinishCascade::Nothing),
        kind != ProjectTaskStatusKind::Finished ==> finish_outcome(kind, Some(group), me, parent)
            == Ok::<FinishCascade, ApiError>(FinishCascade::Nothing),
        finish_outcome(ProjectTaskStatusKind::Finished, None, me, parent) == Err::<
            FinishCascade,
            ApiError,
        >(ApiError::UpdateFailed),
{
    if exists|i: int|
        0 <= i < group.len() && (#[trigger] group[i])._id != me && group[i].status@.len() > 0
            && group[i].status@[0].kind != ProjectTaskStatusKind::Finished {
        let i = choose|i: int|
            0 <= i < group.len() && (#[trigger] group[i])._id != me && group[i].status@.len() > 0
                && group[i].status@[0].kind != ProjectTaskStatusKind::Finished;
        assert(!is_finished(group[i]));
    }
}

/// Every task answers exactly one of the queries for tasks with and without sub-tasks.
pub proof fn lemma_dependency_and_base_partition(
    project: RecordId,
    t: ProjectTaskRecord,
    tasks: Seq<ProjectTaskRecord>,
)
    ensures
        ({
            let dep = ProjectTaskQuery {
                _id: None,
                project_id: Some(project),
                task_id: None,
                area_id: None,
                limit: None,
                kind: Some(ProjectTaskQueryKind::Dependency),
            };
            let base = ProjectTaskQuery { kind: Some(ProjectTaskQueryKind::Base), ..dep };
            t.project_id == project ==> (query_matches(dep, t, tasks) != query_matches(
                base,
                t,
                tasks,
            ))
        }),
{
}

} // verus!
