use upload_server::content_type::{content_type_for_extension, content_type_for_path};
use upload_server::multipart::extract_filename;
use upload_server::server::{
    index_response, not_found_response, plan_upload, preflight_response, route, static_file_path,
    static_response, upload_reply, Body, Method, Response, Route, UploadStep,
};
use upload_server::storage::{storage_name, storage_path, Timestamp};

fn pairs(r: &Response) -> Vec<(String, String)> {
    r.headers.iter().map(|h| (h.name.clone(), h.value.clone())).collect()
}

fn text(r: &Response) -> String {
    match &r.body {
        Body::Text(t) => t.clone(),
        _ => panic!("body is not text"),
    }
}

fn at(year: i32, month: u32, day: u32, hour: u32, minute: u32, second: u32) -> Timestamp {
    Timestamp::new(year, month, day, hour, minute, second).unwrap()
}

#[test]
fn content_type_of_each_known_extension() {
    assert_eq!(content_type_for_extension(Some("css")), "text/css");
    assert_eq!(content_type_for_extension(Some("js")), "application/javascript");
    assert_eq!(content_type_for_extension(Some("wasm")), "application/wasm");
    assert_eq!(content_type_for_extension(Some("html")), "text/html");
    assert_eq!(content_type_for_extension(Some("png")), "image/png");
    assert_eq!(content_type_for_extension(Some("jpg")), "image/jpeg");
    assert_eq!(content_type_for_extension(Some("jpeg")), "image/jpeg");
}

#[test]
fn content_type_of_other_extensions() {
    assert_eq!(content_type_for_extension(Some("txt")), "application/octet-stream");
    assert_eq!(content_type_for_extension(Some("CSS")), "application/octet-stream");
    assert_eq!(content_type_for_extension(Some("")), "application/octet-stream");
    assert_eq!(content_type_for_extension(None), "application/octet-stream");
}

#[test]
fn content_type_by_path() {
    assert_eq!(content_type_for_path("assets/site.css"), "text/css");
    assert_eq!(content_type_for_path("pkg/app_bg.wasm"), "application/wasm");
    assert_eq!(content_type_for_path("static/a.b/photo.jpeg"), "image/jpeg");
    assert_eq!(content_type_for_path("static/logo.png/"), "image/png");
    assert_eq!(content_type_for_path("static/logo.png/."), "image/png");
    assert_eq!(content_type_for_path("static/.css"), "application/octet-stream");
    assert_eq!(content_type_for_path("static/README"), "application/octet-stream");
    assert_eq!(content_type_for_path("static/css.."), "application/octet-stream");
    assert_eq!(content_type_for_path("static/x.css/.."), "application/octet-stream");
    assert_eq!(content_type_for_path(""), "application/octet-stream");
}

#[test]
fn extracts_quoted_filename() {
    let body = "--XyZ\r\nContent-Disposition: form-data; name=\"file\"; filename=\"report.pdf\"\r\nContent-Type: application/pdf\r\n\r\n%PDF-1.4\r\n--XyZ--\r\n";
    assert_eq!(extract_filename(body), "report.pdf");
}

#[test]
fn extracts_from_single_line() {
    let body = "Content-Disposition: form-data; name=\"file\"; filename=\"report.pdf\"";
    assert_eq!(extract_filename(body), "report.pdf");
}

#[test]
fn falls_back_without_disposition_line() {
    assert_eq!(extract_filename(""), "upload_default.bin");
    assert_eq!(extract_filename("just some bytes\nno headers here"), "upload_default.bin");
    assert_eq!(
        extract_filename("Content-Disposition: form-data; name=\"file\"\r\n\r\nfilename=x"),
        "upload_default.bin"
    );
}

#[test]
fn falls_back_when_no_segment_starts_with_key() {
    let body = "Content-Disposition: form-data; name=\"filename=a\"\nContent-Disposition: form-data; filename=\"b.txt\"";
    assert_eq!(extract_filename(body), "upload_default.bin");
}

#[test]
fn unquoted_and_repeated_key() {
    assert_eq!(extract_filename("Content-Disposition: x; filename=plain.txt ;"), "plain.txt");
    assert_eq!(extract_filename("Content-Disposition: x;filename=filename=\"\"q.bin\"\""), "q.bin");
    assert_eq!(extract_filename("Content-Disposition: x; filename=\"\""), "");
}

#[test]
fn first_matching_line_wins() {
    let body = "a\nContent-Disposition: form-data; filename=\"one.txt\"\nContent-Disposition: form-data; filename=\"two.txt\"\n";
    assert_eq!(extract_filename(body), "one.txt");
}

#[test]
fn storage_name_is_zero_padded() {
    assert_eq!(storage_name(&at(2024, 1, 2, 3, 4, 5), "a.txt"), "20240102030405-a.txt");
    assert_eq!(storage_name(&at(7, 12, 31, 23, 59, 59), "x"), "00071231235959-x");
    assert_eq!(storage_path(&at(2024, 2, 29, 0, 0, 0), "b.bin"), "uploads/20240229000000-b.bin");
}

#[test]
fn storage_names_differ_across_seconds() {
    let a = storage_path(&at(2024, 1, 2, 3, 4, 5), "same.txt");
    let b = storage_path(&at(2024, 1, 2, 3, 4, 6), "same.txt");
    assert_ne!(a, b);
}

#[test]
fn timestamp_rejects_invalid_moments() {
    assert!(Timestamp::new(2023, 2, 29, 0, 0, 0).is_none());
    assert!(Timestamp::new(2000, 2, 29, 0, 0, 0).is_some());
    assert!(Timestamp::new(1900, 2, 29, 0, 0, 0).is_none());
    assert!(Timestamp::new(2024, 4, 31, 0, 0, 0).is_none());
    assert!(Timestamp::new(2024, 13, 1, 0, 0, 0).is_none());
    assert!(Timestamp::new(2024, 1, 0, 0, 0, 0).is_none());
    assert!(Timestamp::new(2024, 1, 1, 24, 0, 0).is_none());
    assert!(Timestamp::new(2024, 1, 1, 0, 60, 0).is_none());
    assert!(Timestamp::new(2024, 1, 1, 0, 0, 60).is_none());
    assert!(Timestamp::new(10000, 1, 1, 0, 0, 0).is_none());
    assert!(Timestamp::new(-1, 1, 1, 0, 0, 0).is_none());
}

#[test]
fn routing_table() {
    assert_eq!(route(Method::Options, "/upload"), Route::Preflight);
    assert_eq!(route(Method::Get, "/"), Route::Index);
    assert_eq!(route(Method::Get, "/assets/app.css"), Route::StaticFile);
    assert_eq!(route(Method::Post, "/pkg/app.js"), Route::StaticFile);
    assert_eq!(route(Method::Other, "/static/x"), Route::StaticFile);
    assert_eq!(route(Method::Post, "/upload"), Route::Upload);
    assert_eq!(route(Method::Get, "/upload"), Route::NotFound);
    assert_eq!(route(Method::Options, "/"), Route::NotFound);
    assert_eq!(route(Method::Get, "/nope"), Route::NotFound);
    assert_eq!(route(Method::Get, "/assets"), Route::NotFound);
    assert_eq!(route(Method::Get, "assets/x"), Route::NotFound);
    assert_eq!(route(Method::Get, ""), Route::NotFound);
}

#[test]
fn static_file_path_drops_leading_slash() {
    assert_eq!(static_file_path("/assets/app.css"), "assets/app.css");
    assert_eq!(static_file_path(""), "");
}

#[test]
fn preflight_carries_cors_headers() {
    let r = preflight_response();
    assert_eq!(r.status, 200);
    assert!(matches!(r.body, Body::Empty));
    let h = pairs(&r);
    assert!(h.contains(&("Access-Control-Allow-Methods".to_string(), "POST, OPTIONS".to_string())));
    assert!(h.contains(&("Access-Control-Allow-Origin".to_string(), "*".to_string())));
    assert!(h.contains(&("Access-Control-Allow-Headers".to_string(), "Content-Type".to_string())));
}

#[test]
fn index_with_document() {
    let doc = "<html><body>hi</body></html>".to_string();
    let r = index_response(Some(doc.clone()));
    assert_eq!(r.status, 200);
    assert_eq!(pairs(&r), vec![("Content-Type".to_string(), "text/html".to_string())]);
    assert_eq!(text(&r), doc);
}

#[test]
fn index_without_document() {
    let r = index_response(None);
    assert_eq!(r.status, 404);
    assert_eq!(text(&r), "404 Not Found");
}

#[test]
fn unknown_path_is_not_found() {
    assert_eq!(route(Method::Get, "/nope"), Route::NotFound);
    let r = not_found_response();
    assert_eq!(r.status, 404);
    assert_eq!(text(&r), "Not Found");
}

#[test]
fn static_file_found_and_missing() {
    let r = static_response("assets/app.js", Some(vec![1, 2, 3]));
    assert_eq!(r.status, 200);
    assert_eq!(pairs(&r), vec![("Content-Type".to_string(), "application/javascript".to_string())]);
    assert!(matches!(&r.body, Body::Bytes(b) if *b == vec![1u8, 2, 3]));
    let m = static_response("assets/none.js", None);
    assert_eq!(m.status, 404);
    assert_eq!(text(&m), "404");
}

#[test]
fn upload_is_stored_under_timestamped_name() {
    let body = "--b\r\nContent-Disposition: form-data; name=\"file\"; filename=\"a.txt\"\r\nContent-Type: text/plain\r\n\r\nhello\r\n--b--\r\n".to_string();
    match plan_upload(Ok(body.clone()), &at(2024, 1, 2, 3, 4, 5)) {
        UploadStep::Store { dir, path, contents } => {
            assert_eq!(dir, "uploads");
            assert_eq!(path, "uploads/20240102030405-a.txt");
            assert_eq!(contents.as_bytes(), body.as_bytes());
        }
        UploadStep::Reply(_) => panic!("a readable body is stored"),
    }
    let r = upload_reply(Ok(()));
    assert_eq!(r.status, 200);
    assert_eq!(text(&r), "JSON received and saved");
    assert_eq!(pairs(&r), vec![("Access-Control-Allow-Origin".to_string(), "*".to_string())]);
}

#[test]
fn unreadable_body_is_answered_with_500() {
    match plan_upload(Err("unexpected end of file".to_string()), &at(2024, 1, 2, 3, 4, 5)) {
        UploadStep::Reply(r) => {
            assert_eq!(r.status, 500);
            assert_eq!(text(&r), "Failed to read body: unexpected end of file");
            assert_eq!(pairs(&r), vec![("Access-Control-Allow-Origin".to_string(), "*".to_string())]);
        }
        UploadStep::Store { .. } => panic!("nothing is written for an unreadable body"),
    }
}

#[test]
fn failed_store_is_answered_with_500() {
    let r = upload_reply(Err("permission denied".to_string()));
    assert_eq!(r.status, 500);
    assert_eq!(text(&r), "Failed to save upload: permission denied");
    assert_eq!(pairs(&r), vec![("Access-Control-Allow-Origin".to_string(), "*".to_string())]);
}
