//! Request-level rules shared by the service's endpoints: path ids, stored
//! files and their media types.

use crate::error::ApiError;
use crate::id::{parse_record_id, record_id_text, decode_id_text, encode_id_text, is_id_text, RecordId};
use crate::models::project::ProjectStatusKind;
use crate::models::project_task::ProjectTaskStatusKind;
use mime_guess::{from_path, get_mime_extensions_str};
use vstd::prelude::*;
use vstd::string::*;

verus! {

/// What `mime_guess` guesses as the media type of a file path (`from_path`,
/// falling back to `application/octet-stream`).
pub uninterp spec fn guessed_media_type(path: Seq<char>) -> Seq<char>;

/// The file extensions that `mime_guess` knows for a media type, if it knows it.
pub uninterp spec fn media_type_extensions(mime: Seq<char>) -> Option<Seq<Seq<char>>>;

/// Guesses the media type of a path from its extension
/// (`mime_guess::from_path(..).first_or_octet_stream()`). Named, not described.
#[verifier::external_body]
fn guess_media_type(path: &str) -> (res: String)
    ensures
        res@ == guessed_media_type(path@),
{
    from_path(path).first_or_octet_stream().to_string()
}

/// The extensions known for a media type (`mime_guess::get_mime_extensions_str`),
/// in the order of its table. Named, not described.
#[verifier::external_body]
fn known_extensions(mime: &str) -> (res: Option<Vec<String>>)
    ensures
        res is Some <==> media_type_extensions(mime@) is Some,
        res matches Some(v) ==> v@.len() == media_type_extensions(mime@)->0.len() && forall|i: int|
            0 <= i < v@.len() ==> (#[trigger] v@[i])@ == media_type_extensions(mime@)->0[i],
{
    match get_mime_extensions_str(mime) {
        Some(exts) => Some(exts.iter().map(|e| e.to_string()).collect()),
        None => None,
    }
}

/// The kinds of stored files that can be fetched.
#[derive(Clone, Copy, Debug, PartialEq, Eq, Structural)]
pub enum FileKind {
    ProjectDocumentation,
    CompanyImage,
    CustomerImage,
    UserImage,
}

/// A request for a stored file.
#[derive(Debug)]
pub struct FileQueryParams {
    pub kind: FileKind,
    pub name: String,
}

/// The status filter of a task listing: tasks in that status are left out.
#[derive(Clone, Copy, Debug)]
pub struct ProjectTaskQueryParams {
    pub status: Option<ProjectTaskStatusKind>,
}

/// Whether a reported incident stopped the project.
#[derive(Clone, Copy, Debug)]
pub struct ProjectIncidentReportQueryParams {
    pub breakdown: bool,
}

/// The status that a project is asked to take.
#[derive(Clone, Copy, Debug)]
pub struct ProjectStatusQueryParams {
    pub status: ProjectStatusKind,
}

/// The folder that files of a kind are stored in.
pub open spec fn file_folder(kind: FileKind) -> Seq<char> {
    match kind {
        FileKind::ProjectDocumentation => "./files/reports/documentation/"@,
        FileKind::CompanyImage => "./files/companies/"@,
        FileKind::CustomerImage => "./files/customers/"@,
        FileKind::UserImage => "./files/users/"@,
    }
}

impl FileKind {
    /// The folder that files of this kind are stored in.
    pub fn folder(&self) -> (res: &'static str)
        ensures
            res@ == file_folder(*self),
    {
        match self {
            FileKind::ProjectDocumentation => "./files/reports/documentation/",
            FileKind::CompanyImage => "./files/companies/",
            FileKind::CustomerImage => "./files/customers/",
            FileKind::UserImage => "./files/users/",
        }
    }
}

impl FileQueryParams {
    /// Where the requested file is stored.
    pub fn path(&self) -> (res: String)
        ensures
            res@ == file_folder(self.kind) + self.name@,
    {
        let mut path = self.kind.folder().to_owned();
        path.append(self.name.as_str());
        path
    }

    /// Where the requested file is stored, and the media type it is served with.
    pub fn locate(&self) -> (res: (String, String))
        ensures
            res.0@ == file_folder(self.kind) + self.name@,
            res.1@ == guessed_media_type(res.0@),
    {
        let path = self.path();
        let media = guess_media_type(path.as_str());
        (path, media)
    }
}

/// Reads the record id in a request path.
pub fn parse_path_id(text: &str) -> (res: Result<RecordId, ApiError>)
    ensures
        res is Ok <==> is_id_text(text@),
        res matches Ok(id) ==> id.bytes@ == decode_id_text(text@),
        res matches Err(e) ==> e == ApiError::InvalidId,
{
    match parse_record_id(text) {
        Some(id) => Ok(id),
        None => Err(ApiError::InvalidId),
    }
}

/// Reads the two record ids in a request path; refused unless both are ids.
pub fn parse_path_ids(first: &str, second: &str) -> (res: Result<(RecordId, RecordId), ApiError>)
    ensures
        res is Ok <==> (is_id_text(first@) && is_id_text(second@)),
        res matches Ok(ids) ==> ids.0.bytes@ == decode_id_text(first@) && ids.1.bytes@
            == decode_id_text(second@),
        res matches Err(e) ==> e == ApiError::InvalidId,
{
    match (parse_record_id(first), parse_record_id(second)) {
        (Some(a), Some(b)) => Ok((a, b)),
        _ => Err(ApiError::InvalidId),
    }
}

/// The stored name of an uploaded picture: its id in text, a dot and `ext`.
pub open spec fn image_file_name(image_id: RecordId, ext: Seq<char>) -> Seq<char> {
    encode_id_text(image_id.bytes@) + "."@ + ext
}

/// The extension and stored file name of an uploaded picture, given the
/// extensions known for its media type: the first of them is used.
pub fn image_file_for(image_id: &RecordId, exts: &Vec<String>) -> (res: (String, String))
    requires
        exts@.len() > 0,
    ensures
        res.0@ == exts@[0]@,
        res.1@ == image_file_name(*image_id, exts@[0]@),
{
    let ext = exts[0].clone();
    let mut name = record_id_text(image_id);
    name.append(".");
    name.append(ext.as_str());
    (ext, name)
}

/// The extension and stored file name of an uploaded picture whose announced
/// media type is `mime`. Refused when the media type is unknown; `Ok(None)`
/// when it is known but has no extension.
pub fn stored_image_file(image_id: &RecordId, mime: &str) -> (res: Result<Option<(String, String)>, ApiError>)
    ensures
        res is Err <==> media_type_extensions(mime@) is None,
        res matches Err(e) ==> e == ApiError::ImageInvalidMime,
        res matches Ok(None) ==> media_type_extensions(mime@) matches Some(v) && v.len() == 0,
        res matches Ok(Some(f)) ==> media_type_extensions(mime@) matches Some(v) && v.len() > 0
            && f.0@ == v[0] && f.1@ == image_file_name(*image_id, v[0]),
{
    match known_extensions(mime) {
        None => Err(ApiError::ImageInvalidMime),
        Some(exts) => {
            if exts.len() == 0 {
                Ok(None)
            } else {
                Ok(Some(image_file_for(image_id, &exts)))
            }
        },
    }
}

/// Reading back the id in the stored name of a picture's text gives the picture's id.
pub proof fn lemma_image_name_starts_with_its_id(image_id: RecordId, ext: Seq<char>)
    ensures
        image_file_name(image_id, ext).take(24) == encode_id_text(image_id.bytes@),
        is_id_text(image_file_name(image_id, ext).take(24)),
        decode_id_text(image_file_name(image_id, ext).take(24)) == image_id.bytes@,
{
    crate::id::lemma_id_text_round_trip(image_id);
    assert(image_file_name(image_id, ext).take(24) =~= encode_id_text(image_id.bytes@));
}

} // verus!
