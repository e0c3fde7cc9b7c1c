use pms::error::ApiError;
use pms::id::RecordId;
use pms::models::project::{Project, ProjectAreaRequest, ProjectPeriodRequest, ProjectRequest};
use pms::routes::{parse_path_id, parse_path_ids, stored_image_file, image_file_for, FileKind, FileQueryParams};

fn id(last: u8) -> RecordId {
    RecordId { bytes: [0x65, 0x0a, 0x1b, 0x2c, 0x3d, 0x4e, 0x5f, 0x60, 0x71, 0x82, 0x93, last] }
}

#[test]
fn id_text_is_lower_case_hex() {
    let (_, name) = image_file_for(&id(0xff), &vec!["png".to_string()]);
    assert_eq!(name, "650a1b2c3d4e5f60718293ff.png");
}

#[test]
fn id_text_reads_back() {
    let (_, name) = image_file_for(&id(0xa4), &vec!["jpg".to_string()]);
    assert_eq!(parse_path_id(&name[..24]), Ok(id(0xa4)));
}

#[test]
fn id_text_accepts_upper_case() {
    assert_eq!(parse_path_id("650A1B2C3D4E5F60718293FF"), Ok(id(0xff)));
}

#[test]
fn id_text_refuses_wrong_length_and_digits() {
    assert_eq!(parse_path_id("650a1b2c3d4e5f60718293f"), Err(ApiError::InvalidId));
    assert_eq!(parse_path_id("650a1b2c3d4e5f60718293ff00"), Err(ApiError::InvalidId));
    assert_eq!(parse_path_id("650a1b2c3d4e5f60718293fg"), Err(ApiError::InvalidId));
    assert_eq!(parse_path_id(""), Err(ApiError::InvalidId));
}

#[test]
fn fresh_ids_differ() {
    let request = ProjectRequest {
        customer_id: id(1),
        name: "Bridge".to_string(),
        code: "B-1".to_string(),
        period: ProjectPeriodRequest { start: 0, end: 10 },
        leave: None,
    };
    let mut p = Project::from_request(request, 5).unwrap();
    p.add_area(vec![ProjectAreaRequest { name: "A".to_string() }, ProjectAreaRequest { name: "B".to_string() }]);
    let areas = p.area.unwrap();
    assert!(!areas[0]._id.same(&areas[1]._id));
}

#[test]
fn same_compares_every_byte() {
    assert!(id(1).same(&id(1)));
    assert!(!id(1).same(&id(2)));
}

#[test]
fn path_ids_are_parsed_or_refused() {
    assert_eq!(parse_path_id("650a1b2c3d4e5f6071829301"), Ok(id(1)));
    assert_eq!(parse_path_id("not-an-id"), Err(ApiError::InvalidId));
    assert_eq!(
        parse_path_ids("650a1b2c3d4e5f6071829301", "650a1b2c3d4e5f6071829302"),
        Ok((id(1), id(2)))
    );
    assert_eq!(parse_path_ids("650a1b2c3d4e5f6071829301", "x"), Err(ApiError::InvalidId));
    assert_eq!(ApiError::InvalidId.code(), "INVALID_ID");
}

#[test]
fn files_are_found_by_kind() {
    let cases = [
        (FileKind::ProjectDocumentation, "./files/reports/documentation/a.png"),
        (FileKind::CompanyImage, "./files/companies/a.png"),
        (FileKind::CustomerImage, "./files/customers/a.png"),
        (FileKind::UserImage, "./files/users/a.png"),
    ];
    for (kind, expected) in cases {
        let q = FileQueryParams { kind, name: "a.png".to_string() };
        assert_eq!(q.path(), expected);
    }
}

#[test]
fn files_are_served_with_their_media_type() {
    let q = FileQueryParams { kind: FileKind::UserImage, name: "abc/pic.png".to_string() };
    let (path, media) = q.locate();
    assert_eq!(path, "./files/users/abc/pic.png");
    assert_eq!(media, "image/png");
    let q = FileQueryParams { kind: FileKind::CompanyImage, name: "blob".to_string() };
    assert_eq!(q.locate().1, "application/octet-stream");
}

#[test]
fn uploaded_pictures_are_named_by_id_and_extension() {
    let (ext, name) = stored_image_file(&id(0x10), "image/png").unwrap().unwrap();
    assert_eq!(ext, "png");
    assert_eq!(name, "650a1b2c3d4e5f6071829310.png");
    assert_eq!(stored_image_file(&id(0x10), "nonsense"), Err(ApiError::ImageInvalidMime));
    let (ext, name) = image_file_for(&id(0x11), &vec!["jpg".to_string(), "jpeg".to_string()]);
    assert_eq!(ext, "jpg");
    assert_eq!(name, "650a1b2c3d4e5f6071829311.jpg");
}
