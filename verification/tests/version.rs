use unisbom::version::{format_version, root_block_name, FixedFileInfo, VersionError, VersionQuery, VersionReply, VersionRequest, VersionStep};
use unisbom::wide::str_to_pcwstr;

const PATH: &str = "C:\\Windows\\system32\\drivers\\acpi.sys";

#[test]
fn version_of_a_fixed_block_is_formatted_in_four_parts() {
    assert_eq!(format_version(0x00010002, 0x00030004), "1.2.3.4");
}

#[test]
fn version_parts_are_the_halves_of_the_two_fields() {
    assert_eq!(format_version(0, 0), "0.0.0.0");
    assert_eq!(format_version(0xFFFFFFFF, 0xFFFFFFFF), "65535.65535.65535.65535");
    assert_eq!(format_version(0x000A0000, 0x4A6113FB), "10.0.19041.5115");
    assert_eq!(format_version(0x00000001, 0x00010000), "0.1.1.0");
}

#[test]
fn lookup_starts_with_the_size_query() {
    let (query, request) = VersionQuery::start(PATH);
    assert_eq!(query.step, VersionStep::AwaitSize);
    assert_eq!(query.path, PATH);
    assert_eq!(request, VersionRequest::QuerySize { file_name: str_to_pcwstr(PATH) });
}

#[test]
fn lookup_runs_through_the_three_queries() {
    let (query, _) = VersionQuery::start(PATH);
    let (query, request) = query.advance(VersionReply::Size { size: 1836, last_error: 0 });
    assert_eq!(query.step, VersionStep::AwaitLoad);
    assert_eq!(request, VersionRequest::LoadInfo { file_name: str_to_pcwstr(PATH), size: 1836 });
    let (query, request) = query.advance(VersionReply::Loaded { ok: true, last_error: 0 });
    assert_eq!(query.step, VersionStep::AwaitBlock);
    assert_eq!(request, VersionRequest::QueryFixedBlock { sub_block: vec![0x5C, 0] });
    assert_eq!(root_block_name(), str_to_pcwstr("\\"));
    let info = FixedFileInfo { product_version_high: 0x00010002, product_version_low: 0x00030004 };
    let (query, request) = query.advance(VersionReply::FixedBlock { info: Some(info), last_error: 0 });
    assert_eq!(query.step, VersionStep::Finished);
    assert_eq!(request, VersionRequest::Finished(Ok("1.2.3.4".to_string())));
}

#[test]
fn zero_size_ends_the_lookup() {
    let (query, _) = VersionQuery::start(PATH);
    let (query, request) = query.advance(VersionReply::Size { size: 0, last_error: 2 });
    assert_eq!(query.step, VersionStep::Finished);
    assert_eq!(
        request,
        VersionRequest::Finished(Err(VersionError::VersionInfoSizeUnavailable {
            path: PATH.to_string(),
            native_error_code: 2,
        }))
    );
}

#[test]
fn failed_load_ends_the_lookup() {
    let (query, _) = VersionQuery::start(PATH);
    let (query, _) = query.advance(VersionReply::Size { size: 64, last_error: 0 });
    let (query, request) = query.advance(VersionReply::Loaded { ok: false, last_error: 1812 });
    assert_eq!(query.step, VersionStep::Finished);
    assert_eq!(
        request,
        VersionRequest::Finished(Err(VersionError::VersionInfoLoadFailed {
            path: PATH.to_string(),
            native_error_code: 1812,
        }))
    );
}

#[test]
fn missing_fixed_block_ends_the_lookup() {
    let (query, _) = VersionQuery::start(PATH);
    let (query, _) = query.advance(VersionReply::Size { size: 64, last_error: 0 });
    let (query, _) = query.advance(VersionReply::Loaded { ok: true, last_error: 0 });
    let (_, request) = query.advance(VersionReply::FixedBlock { info: None, last_error: 1813 });
    assert_eq!(
        request,
        VersionRequest::Finished(Err(VersionError::VersionBlockQueryFailed {
            path: PATH.to_string(),
            native_error_code: 1813,
        }))
    );
}

#[test]
fn reply_that_answers_another_request_fails_the_pending_query() {
    let (query, _) = VersionQuery::start(PATH);
    let (query, request) = query.advance(VersionReply::Loaded { ok: true, last_error: 5 });
    assert_eq!(query.step, VersionStep::Finished);
    assert_eq!(
        request,
        VersionRequest::Finished(Err(VersionError::VersionInfoSizeUnavailable {
            path: PATH.to_string(),
            native_error_code: 5,
        }))
    );
    let (query, request) = query.advance(VersionReply::Size { size: 8, last_error: 6 });
    assert_eq!(query.step, VersionStep::Finished);
    assert_eq!(
        request,
        VersionRequest::Finished(Err(VersionError::VersionBlockQueryFailed {
            path: PATH.to_string(),
            native_error_code: 6,
        }))
    );
}

#[test]
fn version_errors_are_described_in_one_line() {
    let e = VersionError::VersionInfoSizeUnavailable { path: "C:\\a.sys".to_string(), native_error_code: 2 };
    assert_eq!(e.message(), "GetFileVersionInfoSizeW failed for C:\\a.sys with 2");
    let e = VersionError::VersionInfoLoadFailed { path: "C:\\b.sys".to_string(), native_error_code: 1812 };
    assert_eq!(e.message(), "GetFileVersionInfoW failed for C:\\b.sys with 1812");
    let e = VersionError::VersionBlockQueryFailed { path: "".to_string(), native_error_code: 0 };
    assert_eq!(e.message(), "VerQueryValueW failed for  with 0");
}
