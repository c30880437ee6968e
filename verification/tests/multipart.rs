use novel_fetch::multipart::MultipartError;
use novel_fetch::multipart::MultipartParser;
use novel_fetch::relay::AppConfig;
use novel_fetch::relay::Controller;
use novel_fetch::server::cors_headers;
use novel_fetch::server::image_query;
use novel_fetch::server::no_address_answer;
use novel_fetch::server::no_image_answer;
use novel_fetch::server::not_found_answer;
use novel_fetch::server::stop_answer;
use novel_fetch::server::upload_answer;
use novel_fetch::server::route;
use novel_fetch::server::starts_with;
use novel_fetch::server::Method;
use novel_fetch::server::Route;
use novel_fetch::server::UploadError;

const CT: &str = "multipart/form-data; boundary=XyZ";

fn field(name: &str, value: &str) -> Vec<u8> {
    format!("\r\n--XyZ\r\nContent-Disposition: form-data; name=\"{}\"\r\n\r\n{}", name, value).into_bytes()
}

fn file(filename: &str, mime: &str, data: &[u8]) -> Vec<u8> {
    let mut part = format!(
        "\r\n--XyZ\r\nContent-Disposition: form-data; name=\"file\"; filename=\"{}\"\r\nContent-Type: {}\r\n\r\n",
        filename, mime
    )
    .into_bytes();
    part.extend_from_slice(data);
    part
}

fn body(parts: &[Vec<u8>]) -> Vec<u8> {
    let mut out = b"preamble".to_vec();
    for p in parts {
        out.extend_from_slice(p);
    }
    out.extend_from_slice(b"\r\n--XyZ--\r\n");
    out
}

#[test]
fn the_boundary_is_what_follows_its_name() {
    assert_eq!(MultipartParser::extract_boundary(CT), Some("XyZ".to_string()));
    assert_eq!(
        MultipartParser::extract_boundary("multipart/form-data; boundary=\"a b\""),
        Some("a b".to_string())
    );
    // The quotation marks are taken off before the white space is.
    assert_eq!(MultipartParser::extract_boundary("multipart/form-data; boundary=\" a \"  "), Some("a \"".to_string()));
    assert_eq!(MultipartParser::extract_boundary("multipart/form-data; boundary=\" a \""), Some("a".to_string()));
    assert_eq!(MultipartParser::extract_boundary("boundary="), Some(String::new()));
    assert_eq!(MultipartParser::extract_boundary("multipart/form-data"), None);
    assert_eq!(MultipartParser::extract_boundary(""), None);
}

#[test]
fn the_first_occurrence_is_found() {
    assert_eq!(MultipartParser::find_subsequence(b"abcabc", b"bc"), Some(1));
    assert_eq!(MultipartParser::find_subsequence(b"abcabc", b"abcabc"), Some(0));
    assert_eq!(MultipartParser::find_subsequence(b"abcabc", b"cb"), None);
    assert_eq!(MultipartParser::find_subsequence(b"ab", b"abc"), None);
    assert_eq!(MultipartParser::find_subsequence(b"", b"a"), None);
    assert_eq!(MultipartParser::find_subsequence(b"aab", b"ab"), Some(1));
}

#[test]
fn a_body_is_split_at_its_separators() {
    let data = b"first\r\n--XyZsecond\r\n--XyZ\r\n--XyZthird\r\n--XyZ--tail\r\n--XyZignored";
    let parts = MultipartParser::split_multipart(data, "XyZ");
    assert_eq!(parts, vec![b"first".to_vec(), b"second".to_vec(), b"third".to_vec()]);
    assert!(MultipartParser::split_multipart(b"no separator here", "XyZ").is_empty());
    assert!(MultipartParser::split_multipart(b"", "XyZ").is_empty());
    // What follows the last separator belongs to no part.
    let open = MultipartParser::split_multipart(b"a\r\n--XyZb", "XyZ");
    assert_eq!(open, vec![b"a".to_vec()]);
}

#[test]
fn the_name_of_a_field() {
    assert_eq!(
        MultipartParser::extract_field_name("Content-Disposition: form-data; name=\"url\"\r\n\r\nx"),
        Some("url".to_string())
    );
    assert_eq!(
        MultipartParser::extract_field_name("form-data; name=\"file\"; filename=\"a.png\""),
        Some("file".to_string())
    );
    // The name of the file comes first here, and its value is what is found.
    assert_eq!(
        MultipartParser::extract_field_name("form-data; filename=\"a.png\"; name=\"file\""),
        Some("a.png".to_string())
    );
    assert_eq!(MultipartParser::extract_field_name("name=\"open"), None);
    assert_eq!(MultipartParser::extract_field_name("nothing"), None);
    assert_eq!(MultipartParser::extract_field_name("name=\"\""), Some(String::new()));
}

#[test]
fn the_value_of_a_field() {
    assert_eq!(MultipartParser::extract_field_value(b"head\r\n\r\n  value \r\n"), "value");
    assert_eq!(MultipartParser::extract_field_value(b"head\r\n\r\n"), "");
    assert_eq!(MultipartParser::extract_field_value(b"no empty line"), "");
    assert_eq!(MultipartParser::extract_field_value(b"h\r\n\r\na\r\n\r\nb"), "a\r\n\r\nb");
    assert_eq!(MultipartParser::extract_field_value("h\r\n\r\n\u{3000}图片\u{3000}".as_bytes()), "图片");
    // Bytes that are no text are replaced, not refused.
    assert_eq!(MultipartParser::extract_field_value(b"h\r\n\r\na\xffb"), "a\u{fffd}b");
}

#[test]
fn the_name_of_a_file() {
    assert_eq!(
        MultipartParser::extract_filename("form-data; name=\"file\"; filename=\"a.png\"\r\n"),
        Some("a.png".to_string())
    );
    assert_eq!(
        MultipartParser::extract_filename("form-data; name=\"file\"; filename=a.png\r\nContent-Type: x"),
        Some("a.png".to_string())
    );
    assert_eq!(MultipartParser::extract_filename("filename=a.png"), Some("a.png".to_string()));
    assert_eq!(MultipartParser::extract_filename("filename=a.png\""), Some("a.png".to_string()));
    assert_eq!(MultipartParser::extract_filename("filename=\"open"), None);
    assert_eq!(MultipartParser::extract_filename("name=\"file\""), None);
}

#[test]
fn the_content_of_a_file() {
    assert_eq!(MultipartParser::extract_file_content(b"head\r\n\r\n\x00\x01\xff"), vec![0, 1, 255]);
    assert_eq!(MultipartParser::extract_file_content(b"head\r\n\r\n"), Vec::<u8>::new());
    assert_eq!(MultipartParser::extract_file_content(b"head only"), Vec::<u8>::new());
    assert_eq!(MultipartParser::extract_file_content(b"h\r\n\r\n a \r\n"), b" a \r\n".to_vec());
}

#[test]
fn a_form_is_read() {
    let data = [137u8, 80, 78, 71, 13, 10, 26, 10, 0, 255];
    let b = body(&[
        file("cover.png", "image/png", &data),
        field("url", "https://example.org/cover.png"),
        field("mimeType", "image/png"),
    ]);
    let form = MultipartParser::parse_multipart(&b, CT).unwrap();
    assert_eq!(form.filename, Some("cover.png".to_string()));
    assert_eq!(form.url, Some("https://example.org/cover.png".to_string()));
    assert_eq!(form.mime_type, Some("image/png".to_string()));
    assert_eq!(form.file_data, Some(data.to_vec()));
}

#[test]
fn a_later_part_replaces_what_an_earlier_one_has_set() {
    let b = body(&[
        file("a.png", "image/png", b"one"),
        field("filename", "b.png"),
        field("url", "first"),
        field("url", "second"),
        field("other", "ignored"),
    ]);
    let form = MultipartParser::parse_multipart(&b, CT).unwrap();
    assert_eq!(form.filename, Some("b.png".to_string()));
    assert_eq!(form.url, Some("second".to_string()));
    assert_eq!(form.mime_type, None);
    assert_eq!(form.file_data, Some(b"one".to_vec()));
}

#[test]
fn a_form_without_a_boundary_is_refused() {
    let b = body(&[field("url", "x")]);
    assert_eq!(MultipartParser::parse_multipart(&b, "multipart/form-data").unwrap_err(), MultipartError::NoBoundary);
}

#[test]
fn an_empty_body_is_an_empty_form() {
    let form = MultipartParser::parse_multipart(b"", CT).unwrap();
    assert!(form.filename.is_none() && form.url.is_none() && form.mime_type.is_none() && form.file_data.is_none());
}

#[test]
fn a_posted_form_becomes_a_record() {
    let mut controller = Controller::new(AppConfig::default());
    let b = body(&[
        file("cover.png", "image/png", b"hello"),
        field("url", "https://example.org/cover.png"),
        field("mimeType", "image/png"),
    ]);
    let upload = controller.process_upload(&b, CT).unwrap();
    assert_eq!(upload.url, "https://example.org/cover.png");
    assert_eq!(upload.image.u8_data, b"hello".to_vec());
    assert_eq!(upload.image.base64_data, "aGVsbG8=");
    assert_eq!(upload.image.filename, "cover.png");
    assert_eq!(upload.image.mime_type, "image/png");
    assert_eq!(upload.image.file_path, None);
    assert_eq!(upload.save_in, None);
    assert_eq!(controller.accept_upload(upload, None), "cover.png");
    let stored = controller.get_image_by_url("https://example.org/cover.png").unwrap();
    assert_eq!(stored.base64_data, "aGVsbG8=");
    assert_eq!(stored.file_path, None);
    // A second delivery for the same address replaces the first.
    let again = body(&[
        file("cover2.png", "image/png", b"hi"),
        field("url", "https://example.org/cover.png"),
        field("mimeType", "image/png"),
    ]);
    let upload = controller.process_upload(&again, CT).unwrap();
    assert_eq!(upload.image.base64_data, "aGk=");
    controller.accept_upload(upload, Some("out/cover2.png".to_string()));
    assert_eq!(
        controller.get_image_by_url("https://example.org/cover.png").unwrap().file_path,
        Some("out/cover2.png".to_string())
    );
    assert_eq!(controller.get_all_images().len(), 1);
    assert_eq!(controller.get_image_by_url("https://example.org/cover.png").unwrap().filename, "cover2.png");
}

#[test]
fn a_delivery_names_the_directory_when_saving_is_asked_for() {
    let mut config = AppConfig::default();
    config.set_save_to_file(true);
    config.set_output_path("out");
    let controller = Controller::new(config);
    let b = body(&[file("a.png", "image/png", b"x"), field("url", "u"), field("mimeType", "image/png")]);
    let upload = controller.process_upload(&b, CT).unwrap();
    assert_eq!(upload.save_in, Some("out".to_string()));
    assert_eq!(upload.image.file_path, None);
    assert_eq!(upload.image.filename, "a.png");
}

#[test]
fn a_form_that_lacks_a_field_becomes_no_record() {
    let controller = Controller::new(AppConfig::default());
    let no_boundary = controller.process_upload(b"x", "text/plain").unwrap_err();
    assert_eq!(no_boundary, UploadError::Multipart(MultipartError::NoBoundary));
    let no_file = body(&[field("url", "u"), field("mimeType", "m"), field("filename", "f")]);
    assert_eq!(controller.process_upload(&no_file, CT).unwrap_err(), UploadError::NoFileData);
    let no_name = body(&[
        b"\r\n--XyZ\r\nContent-Disposition: form-data; name=\"file\"\r\n\r\ndata".to_vec(),
        field("url", "u"),
        field("mimeType", "m"),
    ]);
    assert_eq!(controller.process_upload(&no_name, CT).unwrap_err(), UploadError::NoFilename);
    let no_url = body(&[file("a", "m", b"x"), field("mimeType", "m")]);
    assert_eq!(controller.process_upload(&no_url, CT).unwrap_err(), UploadError::NoUrl);
    let no_mime = body(&[file("a", "m", b"x"), field("url", "u")]);
    assert_eq!(controller.process_upload(&no_mime, CT).unwrap_err(), UploadError::NoMimeType);
}

#[test]
fn requests_go_to_their_handlers() {
    assert_eq!(route(Method::Options, "/anything"), Route::Options);
    assert_eq!(route(Method::Get, "/config"), Route::GetConfig);
    assert_eq!(route(Method::Post, "/upload"), Route::Upload);
    assert_eq!(route(Method::Get, "/stop"), Route::Stop);
    assert_eq!(route(Method::Get, "/images"), Route::Images);
    assert_eq!(route(Method::Get, "/image?url=x"), Route::Image);
    assert_eq!(route(Method::Get, "/image?"), Route::Image);
    assert_eq!(route(Method::Get, "/image"), Route::NotFound);
    assert_eq!(route(Method::Get, "/upload"), Route::NotFound);
    assert_eq!(route(Method::Post, "/config"), Route::NotFound);
    assert_eq!(route(Method::Other, "/config"), Route::NotFound);
    assert_eq!(route(Method::Get, "/config/"), Route::NotFound);
}

#[test]
fn the_asset_that_a_request_asks_for() {
    assert_eq!(image_query("/image?url=https://example.org/a.png"), Some("https://example.org/a.png".to_string()));
    assert_eq!(image_query("/image?a=1&url=x&url=y"), Some("x".to_string()));
    assert_eq!(image_query("/image?url="), Some(String::new()));
    assert_eq!(image_query("/image?a=1"), None);
    assert_eq!(image_query("/image"), None);
    assert_eq!(image_query("/image?"), None);
    // Only what stands before a second question mark is the query.
    assert_eq!(image_query("/image?url=a?b"), Some("a".to_string()));
    assert_eq!(image_query("/image?a=1?url=x"), None);
    assert_eq!(image_query("/image?xurl=1&url=2"), Some("2".to_string()));
}

#[test]
fn a_text_begins_with_its_prefixes() {
    let text: Vec<char> = "abc".chars().collect();
    assert!(starts_with(&text, &"ab".chars().collect()));
    assert!(starts_with(&text, &Vec::new()));
    assert!(starts_with(&text, &text));
    assert!(!starts_with(&text, &"abcd".chars().collect()));
    assert!(!starts_with(&text, &"b".chars().collect()));
}

#[test]
fn every_answer_carries_the_headers_for_other_origins() {
    let headers = cors_headers();
    assert_eq!(
        headers,
        vec![
            ("Access-Control-Allow-Origin".to_string(), "*".to_string()),
            ("Access-Control-Allow-Methods".to_string(), "GET, POST, OPTIONS".to_string()),
            ("Access-Control-Allow-Headers".to_string(), "Content-Type".to_string()),
        ]
    );
}

#[test]
fn the_answers_of_the_relay() {
    let missing = no_image_answer("https://example.org/a.png");
    assert_eq!(missing.status, 200);
    assert_eq!(missing.body, "{\"error\": \"No image found for URL: https://example.org/a.png\"}");
    let unnamed = no_address_answer();
    assert_eq!(unnamed.status, 200);
    assert_eq!(unnamed.body, "{\"error\": \"URL parameter is required\"}");
    let taken = upload_answer(Ok("a.png".to_string()));
    assert_eq!((taken.status, taken.body.as_str()), (200, "Image processed: a.png"));
    let failed = upload_answer(Err("No URL found".to_string()));
    assert_eq!((failed.status, failed.body.as_str()), (500, "Error: No URL found"));
    let stop = stop_answer();
    assert_eq!((stop.status, stop.body.as_str()), (200, "Stop endpoint reached"));
    let lost = not_found_answer();
    assert_eq!((lost.status, lost.body.as_str()), (404, "Not found"));
}
