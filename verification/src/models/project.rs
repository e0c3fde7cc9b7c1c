//! Projects: their status history, their areas and their members.

use crate::error::ApiError;
use crate::id::{fresh_record_id, RecordId};
use crate::models::project_role::ProjectRoleResponse;
use crate::models::user::UserImage;
use vstd::prelude::*;

verus! {

/// How a member takes part in a project. `Support` members have no user account.
#[derive(Clone, Copy, Debug, PartialEq, Eq, Structural)]
pub enum ProjectMemberKind {
    Direct,
    Indirect,
    Support,
}

/// The state of a project.
#[derive(Clone, Copy, Debug, PartialEq, Eq, Structural)]
pub enum ProjectStatusKind {
    Running,
    Paused,
    Pending,
    Breakdown,
    Finished,
    Cancelled,
}

/// One entry of a project's status history; `time` is in milliseconds since the epoch.
#[derive(Debug)]
pub struct ProjectStatus {
    pub kind: ProjectStatusKind,
    pub time: i64,
    pub message: Option<String>,
}

/// A member of a project and the project roles it holds.
#[derive(Debug)]
pub struct ProjectMember {
    pub _id: RecordId,
    pub name: Option<String>,
    pub kind: ProjectMemberKind,
    pub role_id: Vec<RecordId>,
}

/// When a project runs, in milliseconds since the epoch.
#[derive(Clone, Copy, Debug)]
pub struct ProjectPeriod {
    pub start: i64,
    pub end: i64,
}

/// A work area of a project.
#[derive(Debug)]
pub struct ProjectArea {
    pub _id: RecordId,
    pub name: String,
}

/// A stored project. Its status history is newest first.
#[derive(Debug)]
pub struct Project {
    pub _id: Option<RecordId>,
    pub customer_id: RecordId,
    pub name: String,
    pub code: String,
    pub period: ProjectPeriod,
    pub status: Vec<ProjectStatus>,
    pub area: Option<Vec<ProjectArea>>,
    pub member: Option<Vec<ProjectMember>>,
    pub leave: Option<Vec<i64>>,
}

/// The body of a request that adds an area.
#[derive(Debug)]
pub struct ProjectAreaRequest {
    pub name: String,
}

/// What a listing of projects is narrowed to.
#[derive(Debug)]
pub struct ProjectQuery {
    pub _id: Option<RecordId>,
    pub limit: Option<usize>,
}

/// The period of a project request, in milliseconds since the epoch.
#[derive(Clone, Copy, Debug)]
pub struct ProjectPeriodRequest {
    pub start: i64,
    pub end: i64,
}

/// The body of a request that creates a project.
#[derive(Debug)]
pub struct ProjectRequest {
    pub customer_id: RecordId,
    pub name: String,
    pub code: String,
    pub period: ProjectPeriodRequest,
    pub leave: Option<Vec<i64>>,
}

/// The body of a request that adds a member. A `Support` member is named; any
/// other member is the user with the given id.
#[derive(Debug)]
pub struct ProjectMemberRequest {
    pub _id: Option<RecordId>,
    pub name: Option<String>,
    pub kind: ProjectMemberKind,
    pub role_id: Vec<RecordId>,
}

/// The customer of a project as the service shows it.
#[derive(Debug)]
pub struct ProjectCustomerResponse {
    pub _id: String,
    pub name: String,
}

/// The period of a project as the service shows it.
#[derive(Debug)]
pub struct ProjectPeriodResponse {
    pub start: String,
    pub end: String,
}

/// A member of a project as the service shows it.
#[derive(Debug)]
pub struct ProjectMemberResponse {
    pub _id: String,
    pub name: String,
    pub kind: ProjectMemberKind,
    pub role: Vec<ProjectRoleResponse>,
    pub image: Option<UserImage>,
}

/// The members and roles of a project as the service shows them.
#[derive(Debug)]
pub struct ProjectUserResponse {
    pub user: Option<Vec<ProjectMemberResponse>>,
    pub role: Option<Vec<ProjectRoleResponse>>,
}

/// The member that a request adds, where it adds one. `fresh` is the id given
/// to a `Support` member; `found` tells whether the lookup of the requested
/// user succeeded.
pub open spec fn member_from_request(
    r: ProjectMemberRequest,
    found: bool,
    fresh: RecordId,
) -> Option<ProjectMember> {
    if r.kind == ProjectMemberKind::Support {
        if r.name is Some {
            Some(ProjectMember { _id: fresh, name: r.name, kind: r.kind, role_id: r.role_id })
        } else {
            None
        }
    } else if r._id is Some && found {
        Some(ProjectMember { _id: r._id->0, name: None, kind: r.kind, role_id: r.role_id })
    } else {
        None
    }
}

/// The member list after the requests `reqs` were handled in order.
pub open spec fn members_after(
    base: Seq<ProjectMember>,
    reqs: Seq<ProjectMemberRequest>,
    found: Seq<bool>,
    fresh: Seq<RecordId>,
) -> Seq<ProjectMember>
    decreases reqs.len(),
{
    if reqs.len() == 0 {
        base
    } else {
        let n = reqs.len() - 1;
        let prev = members_after(base, reqs.drop_last(), found, fresh);
        match member_from_request(reqs[n], found[n], fresh[n]) {
            Some(m) => prev.push(m),
            None => prev,
        }
    }
}

/// The areas that the requests add, with the given ids.
pub open spec fn areas_from_requests(
    reqs: Seq<ProjectAreaRequest>,
    fresh: Seq<RecordId>,
) -> Seq<ProjectArea> {
    Seq::new(reqs.len(), |i: int| ProjectArea { _id: fresh[i], name: reqs[i].name })
}

/// The area list without its first area with id `area_id`, if it has one.
pub open spec fn without_area(areas: Seq<ProjectArea>, area_id: RecordId) -> Seq<ProjectArea> {
    if exists|i: int| 0 <= i < areas.len() && (#[trigger] areas[i])._id == area_id {
        let k = choose|k: int|
            0 <= k < areas.len() && (#[trigger] areas[k])._id == area_id && forall|j: int|
                0 <= j < k ==> (#[trigger] areas[j])._id != area_id;
        areas.remove(k)
    } else {
        areas
    }
}

/// The project has an area with id `area_id`.
pub open spec fn has_area(p: Project, area_id: RecordId) -> bool {
    exists|i: int| 0 <= i < p.areas().len() && (#[trigger] p.areas()[i])._id == area_id
}

/// One day, in milliseconds.
pub const DAY_MILLIS: i64 = 86400000;

/// The smallest value of a sequence; `None` when it is empty.
pub open spec fn seq_min(s: Seq<i64>) -> Option<i64>
    decreases s.len(),
{
    if s.len() == 0 {
        None
    } else {
        match seq_min(s.drop_last()) {
            None => Some(s.last()),
            Some(m) => Some(if s.last() < m { s.last() } else { m }),
        }
    }
}

/// The largest value of a sequence; `None` when it is empty.
pub open spec fn seq_max(s: Seq<i64>) -> Option<i64>
    decreases s.len(),
{
    if s.len() == 0 {
        None
    } else {
        match seq_max(s.drop_last()) {
            None => Some(s.last()),
            Some(m) => Some(if s.last() > m { s.last() } else { m }),
        }
    }
}

/// The first day of a project's progress curves: the earliest start of a
/// planned task, or the earliest report when that comes first or when no task
/// is planned; 0 when there is neither.
pub open spec fn curve_start(task_starts: Seq<i64>, report_dates: Seq<i64>) -> i64 {
    match (seq_min(task_starts), seq_min(report_dates)) {
        (Some(a), Some(b)) => if b < a { b } else { a },
        (Some(a), None) => a,
        (None, Some(b)) => b,
        (None, None) => 0,
    }
}

/// The last day of a project's progress curves: the latest end of a planned
/// task, or the latest report when that comes later or when no task is
/// planned; `now` when there is neither.
pub open spec fn curve_end(task_ends: Seq<i64>, report_dates: Seq<i64>, now: i64) -> i64 {
    match (seq_max(task_ends), seq_max(report_dates)) {
        (Some(a), Some(b)) => if b > a { b } else { a },
        (Some(a), None) => a,
        (None, Some(b)) => b,
        (None, None) => now,
    }
}

/// The quotient of `a` by `b` rounded toward zero.
pub open spec fn quotient_toward_zero(a: int, b: int) -> int {
    if a >= 0 {
        a / b
    } else {
        -((-a) / b)
    }
}

/// The smallest value of `v`, if it has one.
fn smallest(v: &Vec<i64>) -> (res: Option<i64>)
    ensures
        res == seq_min(v@),
{
    let mut best: Option<i64> = None;
    let mut i: usize = 0;
    while i < v.len()
        invariant
            0 <= i <= v.len(),
            best == seq_min(v@.take(i as int)),
        decreases v.len() - i,
    {
        proof {
            assert(v@.take(i as int + 1).drop_last() =~= v@.take(i as int));
        }
        best = match best {
            None => Some(v[i]),
            Some(m) => Some(if v[i] < m { v[i] } else { m }),
        };
        i = i + 1;
    }
    proof {
        assert(v@.take(v@.len() as int) =~= v@);
    }
    best
}

/// The largest value of `v`, if it has one.
fn largest(v: &Vec<i64>) -> (res: Option<i64>)
    ensures
        res == seq_max(v@),
{
    let mut best: Option<i64> = None;
    let mut i: usize = 0;
    while i < v.len()
        invariant
            0 <= i <= v.len(),
            best == seq_max(v@.take(i as int)),
        decreases v.len() - i,
    {
        proof {
            assert(v@.take(i as int + 1).drop_last() =~= v@.take(i as int));
        }
        best = match best {
            None => Some(v[i]),
            Some(m) => Some(if v[i] > m { v[i] } else { m }),
        };
        i = i + 1;
    }
    proof {
        assert(v@.take(v@.len() as int) =~= v@);
    }
    best
}

/// The first day of the progress curves (see `curve_start`).
pub fn progress_start(task_starts: &Vec<i64>, report_dates: &Vec<i64>) -> (res: i64)
    ensures
        res == curve_start(task_starts@, report_dates@),
{
    match (smallest(task_starts), smallest(report_dates)) {
        (Some(a), Some(b)) => if b < a {
            b
        } else {
            a
        },
        (Some(a), None) => a,
        (None, Some(b)) => b,
        (None, None) => 0,
    }
}

/// The last day of the progress curves (see `curve_end`).
pub fn progress_end(task_ends: &Vec<i64>, report_dates: &Vec<i64>, now: i64) -> (res: i64)
    ensures
        res == curve_end(task_ends@, report_dates@, now),
{
    match (largest(task_ends), largest(report_dates)) {
        (Some(a), Some(b)) => if b > a {
            b
        } else {
            a
        },
        (Some(a), None) => a,
        (None, Some(b)) => b,
        (None, None) => now,
    }
}

/// How many days the progress curves take from `start` to `end`: the whole
/// days between them, rounded toward zero, plus one.
pub fn progress_days(start: i64, end: i64) -> (res: i64)
    requires
        i64::MIN <= end - start <= i64::MAX,
    ensures
        res == quotient_toward_zero(end - start, DAY_MILLIS as int) + 1,
{
    let d: i64 = end - start;
    if d >= 0 {
        d / DAY_MILLIS + 1
    } else {
        let m: i128 = -(d as i128);
        let q: i128 = m / (DAY_MILLIS as i128);
        assert(q <= 200000000000);
        (1 - q) as i64
    }
}

/// The smallest value of a sequence is at most every value and is one of them;
/// there is one exactly when the sequence is not empty.
proof fn lemma_seq_min_is_least(s: Seq<i64>)
    ensures
        seq_min(s) is None <==> s.len() == 0,
        seq_min(s) matches Some(m) ==> (forall|i: int| 0 <= i < s.len() ==> m <= #[trigger] s[i])
            && exists|i: int| 0 <= i < s.len() && s[i] == m,
    decreases s.len(),
{
    if s.len() > 0 {
        let prev = s.drop_last();
        lemma_seq_min_is_least(prev);
        let m = seq_min(s)->0;
        assert forall|i: int| 0 <= i < s.len() implies m <= #[trigger] s[i] by {
            if i < s.len() - 1 {
                assert(s[i] == prev[i]);
            }
        }
        if m == s.last() {
            assert(s[s.len() - 1] == m);
        } else {
            let j = choose|j: int| 0 <= j < prev.len() && prev[j] == m;
            assert(s[j] == m);
        }
    }
}

/// The largest value of a sequence is at least every value and is one of them;
/// there is one exactly when the sequence is not empty.
proof fn lemma_seq_max_is_greatest(s: Seq<i64>)
    ensures
        seq_max(s) is None <==> s.len() == 0,
        seq_max(s) matches Some(m) ==> (forall|i: int| 0 <= i < s.len() ==> #[trigger] s[i] <= m)
            && exists|i: int| 0 <= i < s.len() && s[i] == m,
    decreases s.len(),
{
    if s.len() > 0 {
        let prev = s.drop_last();
        lemma_seq_max_is_greatest(prev);
        let m = seq_max(s)->0;
        assert forall|i: int| 0 <= i < s.len() implies #[trigger] s[i] <= m by {
            if i < s.len() - 1 {
                assert(s[i] == prev[i]);
            }
        }
        if m == s.last() {
            assert(s[s.len() - 1] == m);
        } else {
            let j = choose|j: int| 0 <= j < prev.len() && prev[j] == m;
            assert(s[j] == m);
        }
    }
}

/// The progress curves start no later than any planned task and any report,
/// on the start of one of them, or at 0 when there is neither.
pub proof fn lemma_curve_start_is_earliest(task_starts: Seq<i64>, report_dates: Seq<i64>)
    ensures
        forall|i: int|
            0 <= i < task_starts.len() ==> curve_start(task_starts, report_dates)
                <= #[trigger] task_starts[i],
        forall|i: int|
            0 <= i < report_dates.len() ==> curve_start(task_starts, report_dates)
                <= #[trigger] report_dates[i],
        task_starts.len() > 0 || report_dates.len() > 0 ==> (exists|i: int|
            0 <= i < task_starts.len() && task_starts[i] == curve_start(task_starts, report_dates))
            || (exists|i: int|
            0 <= i < report_dates.len() && report_dates[i] == curve_start(
                task_starts,
                report_dates,
            )),
        task_starts.len() == 0 && report_dates.len() == 0 ==> curve_start(task_starts, report_dates)
            == 0,
{
    lemma_seq_min_is_least(task_starts);
    lemma_seq_min_is_least(report_dates);
}

/// The progress curves end no earlier than any planned task and any report, on
/// the end of one of them, or at `now` when there is neither.
pub proof fn lemma_curve_end_is_latest(task_ends: Seq<i64>, report_dates: Seq<i64>, now: i64)
    ensures
        forall|i: int|
            0 <= i < task_ends.len() ==> #[trigger] task_ends[i] <= curve_end(
                task_ends,
                report_dates,
                now,
            ),
        forall|i: int|
            0 <= i < report_dates.len() ==> #[trigger] report_dates[i] <= curve_end(
                task_ends,
                report_dates,
                now,
            ),
        task_ends.len() > 0 || report_dates.len() > 0 ==> (exists|i: int|
            0 <= i < task_ends.len() && task_ends[i] == curve_end(task_ends, report_dates, now))
            || (exists|i: int|
            0 <= i < report_dates.len() && report_dates[i] == curve_end(
                task_ends,
                report_dates,
                now,
            )),
        task_ends.len() == 0 && report_dates.len() == 0 ==> curve_end(task_ends, report_dates, now)
            == now,
{
    lemma_seq_max_is_greatest(task_ends);
    lemma_seq_max_is_greatest(report_dates);
}

/// The day count of the curves: when the end is not before the start, it is
/// the number of days `n` with `(n - 1)` whole days at most the distance and
/// `n` whole days more than it; when the end is before the start, the
/// distance back spans `1 - n` whole days but not `2 - n`.
pub proof fn lemma_progress_days_counts_days(start: i64, end: i64)
    ensures
        ({
            let n = quotient_toward_zero(end - start, DAY_MILLIS as int) + 1;
            &&& end >= start ==> (n - 1) * DAY_MILLIS <= end - start < n * DAY_MILLIS
            &&& end < start ==> (1 - n) * DAY_MILLIS <= start - end < (2 - n) * DAY_MILLIS
        }),
{
    let d: int = end - start;
    if d >= 0 {
        assert((d / 86400000) * 86400000 <= d < (d / 86400000 + 1) * 86400000) by (nonlinear_arith)
            requires
                d >= 0,
        ;
    } else {
        let m: int = -d;
        assert((m / 86400000) * 86400000 <= m < (m / 86400000 + 1) * 86400000) by (nonlinear_arith)
            requires
                m > 0,
        ;
    }
}

/// Handling requests for members one after another: a request of a kind other
/// than `Support` that names a user whose lookup succeeded adds that user, with
/// the request's kind and roles and no name; a `Support` request with a name
/// adds a member with the fresh id, that name and its roles; any other request
/// adds nobody. No request takes a member away.
pub proof fn lemma_member_requests_in_turn(
    base: Seq<ProjectMember>,
    reqs: Seq<ProjectMemberRequest>,
    found: Seq<bool>,
    fresh: Seq<RecordId>,
)
    ensures
        members_after(base, Seq::empty(), found, fresh) == base,
        reqs.len() > 0 ==> ({
            let n = reqs.len() - 1;
            let r = reqs[n];
            let prev = members_after(base, reqs.drop_last(), found, fresh);
            let now = members_after(base, reqs, found, fresh);
            &&& (r.kind != ProjectMemberKind::Support && r._id is Some && found[n]) ==> now
                == prev.push(
                ProjectMember { _id: r._id->0, name: None, kind: r.kind, role_id: r.role_id },
            )
            &&& (r.kind == ProjectMemberKind::Support && r.name is Some) ==> now == prev.push(
                ProjectMember {
                    _id: fresh[n],
                    name: r.name,
                    kind: ProjectMemberKind::Support,
                    role_id: r.role_id,
                },
            )
            &&& (r.kind != ProjectMemberKind::Support && !(r._id is Some && found[n])) ==> now
                == prev
            &&& (r.kind == ProjectMemberKind::Support && r.name is None) ==> now == prev
        }),
        base.len() <= members_after(base, reqs, found, fresh).len(),
        forall|i: int|
            0 <= i < base.len() ==> #[trigger] members_after(base, reqs, found, fresh)[i] == base[i],
    decreases reqs.len(),
{
    if reqs.len() > 0 {
        lemma_member_requests_in_turn(base, reqs.drop_last(), found, fresh);
        let prev = members_after(base, reqs.drop_last(), found, fresh);
        let now = members_after(base, reqs, found, fresh);
        assert forall|i: int| 0 <= i < base.len() implies #[trigger] now[i] == base[i] by {
            assert(prev[i] == base[i]);
        }
    }
}

/// The position of the first area with id `area_id`, if there is one.
fn first_area_index(areas: &Vec<ProjectArea>, area_id: &RecordId) -> (res: Option<usize>)
    ensures
        res matches Some(k) ==> areas@.remove(k as int) == without_area(areas@, *area_id) && k
            < areas@.len(),
        res is None ==> areas@ == without_area(areas@, *area_id),
{
    let mut i: usize = 0;
    while i < areas.len()
        invariant
            0 <= i <= areas.len(),
            forall|j: int| 0 <= j < i ==> (#[trigger] areas@[j])._id != *area_id,
        decreases areas.len() - i,
    {
        if areas[i]._id.same(area_id) {
            proof {
                let orig = areas@;
                assert(orig[i as int]._id == *area_id);
                let k = choose|k: int|
                    0 <= k < orig.len() && (#[trigger] orig[k])._id == *area_id && forall|j: int|
                        0 <= j < k ==> (#[trigger] orig[j])._id != *area_id;
                if k < i {
                    assert(orig[k]._id != *area_id);
                } else if k > i {
                    assert(orig[i as int]._id != *area_id);
                }
                assert(k == i);
            }
            return Some(i);
        }
        i = i + 1;
    }
    None
}

impl Project {
    /// The project's current status: the newest entry of its history.
    pub open spec fn current(self) -> ProjectStatusKind {
        self.status@[0].kind
    }

    /// The project that a create request makes: `Pending` since `now`, with no
    /// areas and no members. Refused when the period does not start before it ends.
    pub fn from_request(req: ProjectRequest, now: i64) -> (res: Result<Project, ApiError>)
        ensures
            res is Err <==> req.period.start >= req.period.end,
            res matches Err(e) ==> e == ApiError::InvalidPeriod,
            res matches Ok(p) ==> {
                &&& p._id is None
                &&& p.customer_id == req.customer_id
                &&& p.name == req.name
                &&& p.code == req.code
                &&& p.period.start == req.period.start
                &&& p.period.end == req.period.end
                &&& p.status@.len() == 1
                &&& p.status@[0].kind == ProjectStatusKind::Pending
                &&& p.status@[0].time == now
                &&& p.status@[0].message is None
                &&& p.area is None
                &&& p.member is None
                &&& p.leave == req.leave
            },
    {
        if req.period.start >= req.period.end {
            return Err(ApiError::InvalidPeriod);
        }
        let mut status: Vec<ProjectStatus> = Vec::new();
        status.push(ProjectStatus { kind: ProjectStatusKind::Pending, time: now, message: None });
        Ok(
            Project {
                _id: None,
                customer_id: req.customer_id,
                name: req.name,
                code: req.code,
                period: ProjectPeriod { start: req.period.start, end: req.period.end },
                status,
                area: None,
                member: None,
                leave: req.leave,
            },
        )
    }

    /// Records a new status in front of the history.
    pub fn push_status(&mut self, kind: ProjectStatusKind, time: i64, message: Option<String>)
        ensures
            final(self).status@ == seq![ProjectStatus { kind, time, message }] + old(
                self,
            ).status@,
            final(self)._id == old(self)._id,
            final(self).customer_id == old(self).customer_id,
            final(self).name == old(self).name,
            final(self).code == old(self).code,
            final(self).period == old(self).period,
            final(self).area == old(self).area,
            final(self).member == old(self).member,
            final(self).leave == old(self).leave,
    {
        self.status.insert(0, ProjectStatus { kind, time, message });
        proof {
            assert(self.status@ =~= seq![ProjectStatus { kind, time, message }] + old(
                self,
            ).status@);
        }
    }

    /// The current status, where the history has an entry.
    pub fn current_status(&self) -> (res: Option<ProjectStatusKind>)
        ensures
            res is Some <==> self.status@.len() > 0,
            res matches Some(k) ==> k == self.current(),
    {
        if self.status.len() == 0 {
            None
        } else {
            Some(self.status[0].kind)
        }
    }

    /// Refuses changes to the task tree unless the project is still pending.
    pub fn require_pending(&self) -> (res: Result<(), ApiError>)
        requires
            self.status@.len() > 0,
        ensures
            res is Ok <==> self.current() == ProjectStatusKind::Pending,
            res matches Err(e) ==> e == ApiError::ProjectStatusMustBePending,
    {
        if self.status[0].kind != ProjectStatusKind::Pending {
            Err(ApiError::ProjectStatusMustBePending)
        } else {
            Ok(())
        }
    }

    /// Checks a request to set the project's status: only `Running` may be asked
    /// for, and only a project that broke down or was paused resumes.
    pub fn check_resume(&self, requested: ProjectStatusKind) -> (res: Result<(), ApiError>)
        requires
            self.status@.len() > 0,
        ensures
            requested != ProjectStatusKind::Running ==> res == Err::<(), ApiError>(
                ApiError::InvalidStatus,
            ),
            requested == ProjectStatusKind::Running ==> (res is Ok <==> (self.current()
                == ProjectStatusKind::Breakdown || self.current() == ProjectStatusKind::Paused)),
            requested == ProjectStatusKind::Running ==> (res matches Err(e) ==> e
                == ApiError::ProjectStatusInvalid),
    {
        if requested != ProjectStatusKind::Running {
            return Err(ApiError::InvalidStatus);
        }
        let current = self.status[0].kind;
        if current != ProjectStatusKind::Breakdown && current != ProjectStatusKind::Paused {
            Err(ApiError::ProjectStatusInvalid)
        } else {
            Ok(())
        }
    }

    /// Whether a progress report starts the project: it does while the project
    /// is pending or paused.
    pub fn starts_on_report(&self) -> (res: bool)
        requires
            self.status@.len() > 0,
        ensures
            res == (self.current() == ProjectStatusKind::Pending || self.current()
                == ProjectStatusKind::Paused),
    {
        let current = self.status[0].kind;
        current == ProjectStatusKind::Pending || current == ProjectStatusKind::Paused
    }

    /// Whether the project has an area with id `area_id`.
    pub fn has_area(&self, area_id: &RecordId) -> (res: bool)
        ensures
            res == has_area(*self, *area_id),
    {
        match &self.area {
            None => false,
            Some(areas) => {
                let mut i: usize = 0;
                while i < areas.len()
                    invariant
                        0 <= i <= areas.len(),
                        self.areas() == areas@,
                        forall|j: int| 0 <= j < i ==> (#[trigger] areas@[j])._id != *area_id,
                    decreases areas.len() - i,
                {
                    if areas[i]._id.same(area_id) {
                        proof {
                            assert(self.areas()[i as int]._id == *area_id);
                        }
                        return true;
                    }
                    i = i + 1;
                }
                false
            },
        }
    }

    /// The members the project has now (none when the list is absent).
    pub open spec fn members(self) -> Seq<ProjectMember> {
        match self.member {
            Some(v) => v@,
            None => Seq::empty(),
        }
    }

    /// The areas the project has now (none when the list is absent).
    pub open spec fn areas(self) -> Seq<ProjectArea> {
        match self.area {
            Some(v) => v@,
            None => Seq::empty(),
        }
    }

    /// Everything of the project but its member list is as in `other`.
    pub open spec fn same_but_members(self, other: Project) -> bool {
        &&& self._id == other._id
        &&& self.customer_id == other.customer_id
        &&& self.name == other.name
        &&& self.code == other.code
        &&& self.period == other.period
        &&& self.status == other.status
        &&& self.area == other.area
        &&& self.leave == other.leave
    }

    /// Everything of the project but its area list is as in `other`.
    pub open spec fn same_but_areas(self, other: Project) -> bool {
        &&& self._id == other._id
        &&& self.customer_id == other.customer_id
        &&& self.name == other.name
        &&& self.code == other.code
        &&& self.period == other.period
        &&& self.status == other.status
        &&& self.member == other.member
        &&& self.leave == other.leave
    }

    /// Adds members to the project. For the request at position `i`, `found[i]`
    /// tells whether the lookup of the requested user succeeded, and `fresh[i]`
    /// is the id that a new `Support` member receives. A `Support` request
    /// without a name, and any other request without a user id or whose user
    /// was not found, adds nobody.
    pub fn add_member_with_ids(
        &mut self,
        members: Vec<ProjectMemberRequest>,
        found: &Vec<bool>,
        fresh: &Vec<RecordId>,
    )
        requires
            found@.len() == members@.len(),
            fresh@.len() == members@.len(),
        ensures
            final(self).member is Some,
            final(self).members() == members_after(old(self).members(), members@, found@, fresh@),
            final(self).same_but_members(*old(self)),
    {
        let ghost base = self.members();
        let ghost reqs = members@;
        let mut list: Vec<ProjectMember> = match self.member.take() {
            Some(v) => v,
            None => Vec::new(),
        };
        let mut rest = members;
        let mut i: usize = 0;
        let n = rest.len();
        while i < n
            invariant
                n == reqs.len(),
                found@.len() == n,
                fresh@.len() == n,
                0 <= i <= n,
                rest@ == reqs.subrange(i as int, n as int),
                list@ == members_after(base, reqs.take(i as int), found@, fresh@),
            decreases n - i,
        {
            let r = rest.remove(0);
            proof {
                assert(r == reqs[i as int]);
                assert(reqs.take(i as int + 1).drop_last() =~= reqs.take(i as int));
            }
            match r.kind {
                ProjectMemberKind::Support => {
                    if r.name.is_some() {
                        list.push(
                            ProjectMember {
                                _id: fresh[i],
                                name: r.name,
                                kind: r.kind,
                                role_id: r.role_id,
                            },
                        );
                    }
                },
                _ => {
                    match r._id {
                        Some(user_id) => {
                            if found[i] {
                                list.push(
                                    ProjectMember {
                                        _id: user_id,
                                        name: None,
                                        kind: r.kind,
                                        role_id: r.role_id,
                                    },
                                );
                            }
                        },
                        None => {},
                    }
                },
            }
            proof {
                assert(rest@ =~= reqs.subrange(i as int + 1, n as int));
            }
            i = i + 1;
        }
        proof {
            assert(reqs.take(n as int) =~= reqs);
        }
        self.member = Some(list);
    }

    /// Adds members to the project, giving each new `Support` member a newly
    /// generated id. `found[i]` tells whether the lookup of the user that request
    /// `i` names succeeded.
    pub fn add_member(&mut self, members: Vec<ProjectMemberRequest>, found: &Vec<bool>)
        requires
            found@.len() == members@.len(),
        ensures
            final(self).member is Some,
            exists|fresh: Seq<RecordId>|
                fresh.len() == members@.len() && final(self).members() == members_after(
                    old(self).members(),
                    members@,
                    found@,
                    fresh,
                ),
            final(self).same_but_members(*old(self)),
    {
        let mut fresh: Vec<RecordId> = Vec::new();
        let mut i: usize = 0;
        while i < members.len()
            invariant
                0 <= i <= members@.len(),
                fresh@.len() == i,
            decreases members@.len() - i,
        {
            fresh.push(fresh_record_id());
            i = i + 1;
        }
        self.add_member_with_ids(members, found, &fresh);
    }

    /// Adds one area per request, the area of request `i` with id `fresh[i]`.
    pub fn add_area_with_ids(&mut self, areas: Vec<ProjectAreaRequest>, fresh: &Vec<RecordId>)
        requires
            fresh@.len() == areas@.len(),
        ensures
            final(self).area is Some,
            final(self).areas() == old(self).areas() + areas_from_requests(areas@, fresh@),
            final(self).same_but_areas(*old(self)),
    {
        let ghost base = self.areas();
        let ghost reqs = areas@;
        let mut list: Vec<ProjectArea> = match self.area.take() {
            Some(v) => v,
            None => Vec::new(),
        };
        let mut rest = areas;
        let mut i: usize = 0;
        let n = rest.len();
        while i < n
            invariant
                n == reqs.len(),
                fresh@.len() == n,
                0 <= i <= n,
                rest@ == reqs.subrange(i as int, n as int),
                list@ == base + areas_from_requests(reqs.take(i as int), fresh@),
            decreases n - i,
        {
            let r = rest.remove(0);
            list.push(ProjectArea { _id: fresh[i], name: r.name });
            proof {
                assert(r == reqs[i as int]);
                assert(areas_from_requests(reqs.take(i as int + 1), fresh@) =~= areas_from_requests(
                    reqs.take(i as int),
                    fresh@,
                ).push(ProjectArea { _id: fresh@[i as int], name: reqs[i as int].name }));
                assert(rest@ =~= reqs.subrange(i as int + 1, n as int));
            }
            i = i + 1;
        }
        proof {
            assert(reqs.take(n as int) =~= reqs);
        }
        self.area = Some(list);
    }

    /// Adds one area per request, each with a newly generated id.
    pub fn add_area(&mut self, areas: Vec<ProjectAreaRequest>)
        ensures
            final(self).area is Some,
            exists|fresh: Seq<RecordId>|
                fresh.len() == areas@.len() && final(self).areas() == old(self).areas()
                    + areas_from_requests(areas@, fresh),
            final(self).same_but_areas(*old(self)),
    {
        let mut fresh: Vec<RecordId> = Vec::new();
        let mut i: usize = 0;
        while i < areas.len()
            invariant
                0 <= i <= areas@.len(),
                fresh@.len() == i,
            decreases areas@.len() - i,
        {
            fresh.push(fresh_record_id());
            i = i + 1;
        }
        self.add_area_with_ids(areas, &fresh);
    }

    /// Removes the first area with id `area_id`, if the project has one.
    pub fn remove_area(&mut self, area_id: &RecordId)
        ensures
            old(self).area is None ==> final(self).area is None,
            old(self).area is Some ==> final(self).area is Some,
            final(self).areas() == without_area(old(self).areas(), *area_id),
            final(self).same_but_areas(*old(self)),
    {
        match self.area.take() {
            None => {},
            Some(mut areas) => {
                match first_area_index(&areas, area_id) {
                    Some(k) => {
                        areas.remove(k);
                    },
                    None => {},
                }
                self.area = Some(areas);
            },
        }
    }
}

/// Adding an area with an id that the project does not use yet and then
/// removing that id leaves the areas as they were.
pub proof fn lemma_add_then_remove_area(
    before: Seq<ProjectArea>,
    req: ProjectAreaRequest,
    fresh: RecordId,
)
    requires
        forall|i: int| 0 <= i < before.len() ==> (#[trigger] before[i])._id != fresh,
    ensures
        without_area(before + areas_from_requests(seq![req], seq![fresh]), fresh) == before,
{
    let added = before + areas_from_requests(seq![req], seq![fresh]);
    let n = before.len() as int;
    assert(added[n]._id == fresh);
    let k = choose|k: int|
        0 <= k < added.len() && (#[trigger] added[k])._id == fresh && forall|j: int|
            0 <= j < k ==> (#[trigger] added[j])._id != fresh;
    if k < n {
        assert(added[k] == before[k]);
    }
    assert(k == n);
    assert(added.remove(k) =~= before);
}

/// Removing an id that names no area leaves the areas as they were.
pub proof fn lemma_remove_unknown_area(areas: Seq<ProjectArea>, area_id: RecordId)
    requires
        forall|i: int| 0 <= i < areas.len() ==> (#[trigger] areas[i])._id != area_id,
    ensures
        without_area(areas, area_id) == areas,
{
}

/// After a status is recorded it is the project's current status.
pub proof fn lemma_pushed_status_is_current(
    before: Seq<ProjectStatus>,
    kind: ProjectStatusKind,
    time: i64,
    message: Option<String>,
)
    ensures
        (seq![ProjectStatus { kind, time, message }] + before)[0].kind == kind,
        (seq![ProjectStatus { kind, time, message }] + before).len() == before.len() + 1,
        (seq![ProjectStatus { kind, time, message }] + before).drop_first() == before,
{
    assert((seq![ProjectStatus { kind, time, message }] + before).drop_first() =~= before);
}

} // verus!
