//! Daily progress reports of a project.

use crate::error::ApiError;
use crate::id::{fresh_record_id, RecordId};
use vstd::prelude::*;

verus! {

/// The weather during part of a reported day.
#[derive(Clone, Copy, Debug, PartialEq, Eq, Structural)]
pub enum ProjectProgressReportWeatherKind {
    Sunny,
    Cloudy,
    Rainy,
    Snowy,
}

/// The weather from a time of day (hour, minute) on.
#[derive(Clone, Copy, Debug)]
pub struct ProjectProgressReportWeather {
    pub time: [usize; 2],
    pub kind: ProjectProgressReportWeatherKind,
}

/// A task that the report plans for.
#[derive(Clone, Copy, Debug)]
pub struct ProjectProgressReportPlan {
    pub task_id: RecordId,
}

/// A picture attached to a report.
#[derive(Debug)]
pub struct ProjectProgressReportDocumentation {
    pub _id: RecordId,
    pub description: Option<String>,
    pub extension: String,
}

/// A picture that a report request announces.
#[derive(Debug)]
pub struct ProjectProgressReportDocumentationRequest {
    pub description: Option<String>,
    pub extension: String,
}

/// The author of a report as the service shows it.
#[derive(Debug)]
pub struct ProjectProgressReportUserResponse {
    pub _id: String,
    pub name: String,
}

/// The project of a report as the service shows it.
#[derive(Debug)]
pub struct ProjectProgressReportProjectResponse {
    pub _id: String,
    pub name: String,
}

/// A planned task of a report as the service shows it.
#[derive(Debug)]
pub struct ProjectProgressReportPlanResponse {
    pub _id: String,
    pub name: String,
}

/// The area of a reported task as the service shows it.
#[derive(Debug)]
pub struct ProjectProgressReportActualAreaResponse {
    pub _id: String,
    pub name: String,
}

/// A picture of a report as the service shows it.
#[derive(Debug)]
pub struct ProjectProgressReportDocumentationResponse {
    pub _id: String,
    pub description: Option<String>,
    pub extension: String,
}

/// A working time `[[start hour, start minute], [end hour, end minute]]` is a
/// time span within one day that ends after it starts.
pub open spec fn valid_working_time(t: [[usize; 2]; 2]) -> bool {
    &&& t@[0]@[0] <= 23
    &&& t@[0]@[1] <= 59
    &&& t@[1]@[0] <= 23
    &&& t@[1]@[1] <= 59
    &&& t@[0]@[0] * 60 + t@[0]@[1] < t@[1]@[0] * 60 + t@[1]@[1]
}

/// Removing the positions one after the other stays within the shrinking list.
pub open spec fn removals_fit(len: int, positions: Seq<usize>) -> bool
    decreases positions.len(),
{
    positions.len() == 0 || (positions[0] < len && removals_fit(len - 1, positions.drop_first()))
}

/// The list after removing the positions one after the other, each position
/// counted in the list as it is after the removals before it.
pub open spec fn removed_in_turn<T>(s: Seq<T>, positions: Seq<usize>) -> Seq<T>
    decreases positions.len(),
{
    if positions.len() == 0 {
        s
    } else {
        removed_in_turn(s.remove(positions[0] as int), positions.drop_first())
    }
}

/// The pictures that the requests announce, the one of request `i` with id `fresh[i]`.
pub open spec fn documentation_from(
    reqs: Seq<ProjectProgressReportDocumentationRequest>,
    fresh: Seq<RecordId>,
) -> Seq<ProjectProgressReportDocumentation> {
    Seq::new(
        reqs.len(),
        |i: int|
            ProjectProgressReportDocumentation {
                _id: fresh[i],
                description: reqs[i].description,
                extension: reqs[i].extension,
            },
    )
}

/// Checks the working time of a report, where it gives one.
pub fn check_working_time(time: &Option<[[usize; 2]; 2]>) -> (res: Result<(), ApiError>)
    ensures
        res is Err <==> (*time matches Some(t) && !valid_working_time(t)),
        res matches Err(e) ==> e == ApiError::ProjectReportTimeInvalid,
{
    match time {
        None => Ok(()),
        Some(t) => {
            let start = t[0];
            let end = t[1];
            if start[0] > 23 || start[1] > 59 || end[0] > 23 || end[1] > 59 || (start[0] * 60
                + start[1]) >= (end[0] * 60 + end[1]) {
                Err(ApiError::ProjectReportTimeInvalid)
            } else {
                Ok(())
            }
        },
    }
}

/// Whether removing the positions one after the other stays within the list.
pub fn removals_fit_in(len: usize, positions: &Vec<usize>) -> (res: bool)
    ensures
        res == removals_fit(len as int, positions@),
{
    let mut i: usize = 0;
    let mut left: usize = len;
    proof {
        assert(positions@.skip(0) =~= positions@);
    }
    while i < positions.len()
        invariant
            0 <= i <= positions@.len(),
            left as int == len as int - i as int,
            removals_fit(len as int, positions@) == removals_fit(
                left as int,
                positions@.skip(i as int),
            ),
        decreases positions@.len() - i,
    {
        proof {
            assert(positions@.skip(i as int).drop_first() =~= positions@.skip(i as int + 1));
        }
        if positions[i] >= left {
            return false;
        }
        left = left - 1;
        i = i + 1;
    }
    proof {
        assert(positions@.skip(i as int).len() == 0);
    }
    true
}

/// Removes the positions from the list one after the other, each counted in
/// the list as it is after the removals before it.
pub fn remove_in_turn<T>(v: &mut Vec<T>, positions: &Vec<usize>)
    requires
        removals_fit(old(v)@.len() as int, positions@),
    ensures
        final(v)@ == removed_in_turn(old(v)@, positions@),
{
    let mut i: usize = 0;
    proof {
        assert(positions@.skip(0) =~= positions@);
    }
    while i < positions.len()
        invariant
            0 <= i <= positions@.len(),
            removals_fit(v@.len() as int, positions@.skip(i as int)),
            removed_in_turn(old(v)@, positions@) == removed_in_turn(v@, positions@.skip(i as int)),
        decreases positions@.len() - i,
    {
        proof {
            assert(positions@.skip(i as int).drop_first() =~= positions@.skip(i as int + 1));
            assert(positions@.skip(i as int)[0] == positions@[i as int]);
        }
        v.remove(positions[i]);
        i = i + 1;
    }
    proof {
        assert(positions@.skip(i as int) =~= Seq::<usize>::empty());
    }
}

/// The pictures that a report request announces, each with the given id.
pub fn documentation_with_ids(
    reqs: Vec<ProjectProgressReportDocumentationRequest>,
    fresh: &Vec<RecordId>,
) -> (res: Vec<ProjectProgressReportDocumentation>)
    requires
        fresh@.len() == reqs@.len(),
    ensures
        res@ == documentation_from(reqs@, fresh@),
{
    let ghost all = reqs@;
    let n = reqs.len();
    let mut rest = reqs;
    let mut out: Vec<ProjectProgressReportDocumentation> = Vec::new();
    let mut i: usize = 0;
    while i < n
        invariant
            n == all.len(),
            fresh@.len() == n,
            0 <= i <= n,
            rest@ == all.subrange(i as int, n as int),
            out@ == documentation_from(all.take(i as int), fresh@),
        decreases n - i,
    {
        let r = rest.remove(0);
        out.push(
            ProjectProgressReportDocumentation {
                _id: fresh[i],
                description: r.description,
                extension: r.extension,
            },
        );
        proof {
            assert(r == all[i as int]);
            assert(out@ =~= documentation_from(all.take(i as int + 1), fresh@));
            assert(rest@ =~= all.subrange(i as int + 1, n as int));
        }
        i = i + 1;
    }
    proof {
        assert(all.take(n as int) =~= all);
    }
    out
}

/// The pictures that a report request announces, each with a newly generated id.
pub fn documentation_from_requests(reqs: Vec<ProjectProgressReportDocumentationRequest>) -> (res:
    Vec<ProjectProgressReportDocumentation>)
    ensures
        exists|fresh: Seq<RecordId>|
            fresh.len() == reqs@.len() && res@ == documentation_from(reqs@, fresh),
{
    let mut fresh: Vec<RecordId> = Vec::new();
    let mut i: usize = 0;
    while i < reqs.len()
        invariant
            0 <= i <= reqs@.len(),
            fresh@.len() == i,
        decreases reqs@.len() - i,
    {
        fresh.push(fresh_record_id());
        i = i + 1;
    }
    documentation_with_ids(reqs, &fresh)
}

/// Checks that the uploaded files match the pictures that a report announced:
/// the report must announce pictures, as many as there are files.
pub fn check_documentation(
    documentation: &Option<Vec<ProjectProgressReportDocumentation>>,
    files: usize,
) -> (res: Result<(), ApiError>)
    ensures
        documentation is None ==> res == Err::<(), ApiError>(
            ApiError::ProjectReportDocumentationNotFound,
        ),
        documentation matches Some(d) ==> (res is Ok <==> d@.len() == files),
        documentation matches Some(d) ==> (res matches Err(e) ==> e
            == ApiError::ProjectReportDocumentationInvalidLength),
{
    match documentation {
        None => Err(ApiError::ProjectReportDocumentationNotFound),
        Some(d) => {
            if d.len() != files {
                Err(ApiError::ProjectReportDocumentationInvalidLength)
            } else {
                Ok(())
            }
        },
    }
}

/// Removing one position after another shortens the list by one each time.
pub proof fn lemma_removed_in_turn_len<T>(s: Seq<T>, positions: Seq<usize>)
    requires
        removals_fit(s.len() as int, positions),
    ensures
        removed_in_turn(s, positions).len() == s.len() - positions.len(),
    decreases positions.len(),
{
    if positions.len() > 0 {
        lemma_removed_in_turn_len(s.remove(positions[0] as int), positions.drop_first());
    }
}

/// An accepted working time starts and ends within the day, start first.
pub proof fn lemma_valid_time_is_ordered(t: [[usize; 2]; 2])
    requires
        valid_working_time(t),
    ensures
        0 <= t@[0]@[0] * 60 + t@[0]@[1] < t@[1]@[0] * 60 + t@[1]@[1] <= 23 * 60 + 59,
{
}

} // verus!
