//! What the relay's server decides: which handler a request goes to, which
//! asset a request asks for, and what record a posted form becomes.

use crate::assets::ImageData;
use crate::assets::ImageView;
use crate::codec::base64_encode;
use crate::codec::base64_of;
use crate::multipart::parsed;
use crate::multipart::MultipartError;
use crate::multipart::MultipartParser;
use crate::multipart::ParsedView;
use crate::relay::Controller;
use crate::relay::ControllerView;
use crate::text::chars_of;
use crate::text::push_str;
use crate::text::find_chars_from;
use crate::text::first_match;
use crate::text::first_match_from;
use crate::text::matches_at;
use crate::text::slice_chars;
use crate::text::str_eq;
use crate::text::string_of;
use vstd::prelude::*;

verus! {

/// The method of a request, as far as the relay tells methods apart.
#[derive(Clone, Copy, Debug, PartialEq, Eq, Structural)]
pub enum Method {
    Get,
    Post,
    Options,
    Other,
}

/// The handler that a request goes to.
#[derive(Clone, Copy, Debug, PartialEq, Eq, Structural)]
pub enum Route {
    /// The answer to a preflight request.
    Options,
    /// The settings.
    GetConfig,
    /// The delivery of an asset.
    Upload,
    /// The request to stop.
    Stop,
    /// All the assets.
    Images,
    /// The asset of one address.
    Image,
    NotFound,
}

/// The handler for a method and an address.
pub open spec fn route_of(method: Method, url: Seq<char>) -> Route {
    if method == Method::Options {
        Route::Options
    } else if method == Method::Get && url == "/config"@ {
        Route::GetConfig
    } else if method == Method::Post && url == "/upload"@ {
        Route::Upload
    } else if method == Method::Get && url == "/stop"@ {
        Route::Stop
    } else if method == Method::Get && url == "/images"@ {
        Route::Images
    } else if method == Method::Get && matches_at(url, "/image?"@, 0) {
        Route::Image
    } else {
        Route::NotFound
    }
}

/// Whether `text` begins with `prefix`.
pub fn starts_with(text: &Vec<char>, prefix: &Vec<char>) -> (r: bool)
    ensures
        r == matches_at(text@, prefix@, 0),
{
    let n = prefix.len();
    if n > text.len() {
        return false;
    }
    let mut k: usize = 0;
    while k < n
        invariant
            k <= n,
            n == prefix@.len(),
            n <= text@.len(),
            forall|j: int| 0 <= j < k ==> text@[j] == prefix@[j],
        decreases n - k,
    {
        if text[k] != prefix[k] {
            assert(text@.subrange(0, n as int)[k as int] != prefix@[k as int]);
            return false;
        }
        k += 1;
    }
    assert(text@.subrange(0, n as int) =~= prefix@);
    true
}

/// The handler that a request with the given method and address goes to.
pub fn route(method: Method, url: &str) -> (r: Route)
    ensures
        r == route_of(method, url@),
{
    match method {
        Method::Options => Route::Options,
        Method::Get => {
            if str_eq(url, "/config") {
                Route::GetConfig
            } else if str_eq(url, "/stop") {
                Route::Stop
            } else if str_eq(url, "/images") {
                Route::Images
            } else if starts_with(&chars_of(url), &chars_of("/image?")) {
                Route::Image
            } else {
                Route::NotFound
            }
        },
        Method::Post => {
            if str_eq(url, "/upload") {
                Route::Upload
            } else {
                Route::NotFound
            }
        },
        Method::Other => Route::NotFound,
    }
}

/// The query of an address: what stands between its first question mark and
/// its second, or its end.
pub open spec fn query_of(url: Seq<char>) -> Option<Seq<char>> {
    match first_match(url, seq!['?']) {
        Some(q) => Some(
            url.subrange(
                q + 1,
                match first_match_from(url, seq!['?'], q + 1) {
                    Some(e) => e,
                    None => url.len() as int,
                },
            ),
        ),
        None => None,
    }
}

/// The value of the first parameter, from `from` on, that begins with
/// `url=`. Parameters are separated by `&`.
pub open spec fn url_param_from(query: Seq<char>, from: int) -> Option<Seq<char>>
    decreases query.len() - from,
{
    if from < 0 || from > query.len() {
        None
    } else {
        let end = match first_match_from(query, seq!['&'], from) {
            Some(e) => e,
            None => query.len() as int,
        };
        let param = query.subrange(from, end);
        if end < from {
            None
        } else if matches_at(param, "url="@, 0) {
            Some(param.subrange("url="@.len() as int, param.len() as int))
        } else if end >= query.len() {
            None
        } else {
            url_param_from(query, end + 1)
        }
    }
}

/// The asset address that a request names in its parameter `url`.
pub open spec fn image_query_of(url: Seq<char>) -> Option<Seq<char>> {
    match query_of(url) {
        Some(query) => url_param_from(query, 0),
        None => None,
    }
}

/// The asset address that a request names in its parameter `url`, if it
/// names one.
pub fn image_query(url: &str) -> (r: Option<String>)
    ensures
        match r {
            Some(asset) => image_query_of(url@) == Some(asset@),
            None => image_query_of(url@) is None,
        },
{
    let text = chars_of(url);
    let mut mark: Vec<char> = Vec::new();
    mark.push('?');
    assert(mark@ =~= seq!['?']);
    let q = match find_chars_from(&text, &mark, 0) {
        Some(q) => q,
        None => {
            return None;
        },
    };
    let end = match find_chars_from(&text, &mark, q + 1) {
        Some(e) => e,
        None => text.len(),
    };
    let query = slice_chars(&text, q + 1, end);
    let mut amp: Vec<char> = Vec::new();
    amp.push('&');
    assert(amp@ =~= seq!['&']);
    let name = chars_of("url=");
    let mut from: usize = 0;
    assert(image_query_of(url@) == url_param_from(query@, 0));
    loop
        invariant
            image_query_of(url@) == url_param_from(query@, 0),
            from <= query@.len(),
            amp@ == seq!['&'],
            name@ == "url="@,
            url_param_from(query@, 0) == url_param_from(query@, from as int),
        decreases query@.len() - from,
    {
        let stop = match find_chars_from(&query, &amp, from) {
            Some(e) => e,
            None => query.len(),
        };
        let param = slice_chars(&query, from, stop);
        if starts_with(&param, &name) {
            let value = slice_chars(&param, name.len(), param.len());
            return Some(string_of(&value));
        }
        if stop >= query.len() {
            return None;
        }
        from = stop + 1;
    }
}

/// Why a posted form became no record.
#[derive(Clone, Copy, Debug, PartialEq, Eq, Structural)]
pub enum UploadError {
    /// The form could not be read.
    Multipart(MultipartError),
    NoFileData,
    NoFilename,
    NoUrl,
    NoMimeType,
    /// The file is too long for its encoded form to fit the machine's word.
    TooLarge,
}

/// Why a form becomes no record, if it becomes none: the first field that
/// is missing, in the order file, file name, address, type.
pub open spec fn upload_error(form: Option<ParsedView>) -> Option<UploadError> {
    match form {
        None => Some(UploadError::Multipart(MultipartError::NoBoundary)),
        Some(f) => if f.file_data is None {
            Some(UploadError::NoFileData)
        } else if f.filename is None {
            Some(UploadError::NoFilename)
        } else if f.url is None {
            Some(UploadError::NoUrl)
        } else if f.mime_type is None {
            Some(UploadError::NoMimeType)
        } else if f.file_data->Some_0.len() / 3 >= usize::MAX / 4 {
            Some(UploadError::TooLarge)
        } else {
            None
        },
    }
}

/// An asset that was delivered, with the address under which it is stored,
/// and the directory in which it is to be saved as a file, if it is to be.
#[derive(Debug)]
pub struct Upload {
    pub url: String,
    pub image: ImageData,
    pub save_in: Option<String>,
}

impl Controller {
    /// The record that a posted form becomes, and the directory of the
    /// settings if they ask for saving. The record names no file yet: the file
    /// is the caller's to write, and `accept_upload` takes its path.
    pub fn process_upload(&self, body: &[u8], content_type: &str) -> (r: Result<Upload, UploadError>)
        ensures
            match r {
                Ok(upload) => {
                    let form = parsed(body@, content_type@)->Some_0;
                    &&& upload_error(parsed(body@, content_type@)) is None
                    &&& upload.url@ == form.url->Some_0
                    &&& upload.image@.u8_data == form.file_data->Some_0
                    &&& upload.image@.base64_data == base64_of(form.file_data->Some_0)
                    &&& upload.image@.filename == form.filename->Some_0
                    &&& upload.image@.mime_type == form.mime_type->Some_0
                    &&& upload.image@.file_path is None
                    &&& crate::patterns::text_of(upload.save_in) == if self@.config.save_to_file {
                        Some(self@.config.output_path)
                    } else {
                        None
                    }
                },
                Err(e) => upload_error(parsed(body@, content_type@)) == Some(e),
            },
    {
        let form = match MultipartParser::parse_multipart(body, content_type) {
            Ok(form) => form,
            Err(e) => {
                return Err(UploadError::Multipart(e));
            },
        };
        let file_data = match form.file_data {
            Some(d) => d,
            None => {
                return Err(UploadError::NoFileData);
            },
        };
        let filename = match form.filename {
            Some(f) => f,
            None => {
                return Err(UploadError::NoFilename);
            },
        };
        let url = match form.url {
            Some(u) => u,
            None => {
                return Err(UploadError::NoUrl);
            },
        };
        let mime_type = match form.mime_type {
            Some(m) => m,
            None => {
                return Err(UploadError::NoMimeType);
            },
        };
        if file_data.len() / 3 >= usize::MAX / 4 {
            return Err(UploadError::TooLarge);
        }
        let base64_data = base64_encode(file_data.as_slice());
        let config = self.get_config();
        let save_in = if config.save_to_file {
            Some(config.output_path)
        } else {
            None
        };
        Ok(
            Upload {
                url,
                image: ImageData {
                    u8_data: file_data,
                    base64_data,
                    filename,
                    mime_type,
                    file_path: None,
                },
                save_in,
            },
        )
    }

    /// Stores a delivered asset under its address, in place of an earlier
    /// one of that address, with the path of the file that it was saved in,
    /// if it was, and gives the name that it came with.
    pub fn accept_upload(&mut self, upload: Upload, file_path: Option<String>) -> (r: String)
        requires
            old(self).wf(),
        ensures
            final(self).wf(),
            r@ == upload.image@.filename,
            final(self)@ == (ControllerView {
                images: old(self)@.images.insert(
                    upload.url@,
                    ImageView { file_path: crate::patterns::text_of(file_path), ..upload.image@ },
                ),
                ..old(self)@
            }),
    {
        let name = upload.image.filename.clone();
        let mut image = upload.image;
        image.file_path = file_path;
        self.put_image(upload.url, image);
        name
    }
}

/// The headers that every answer of the relay carries, so that a page of
/// another origin may call it.
pub fn cors_headers() -> (r: Vec<(String, String)>)
    ensures
        r@.len() == 3,
        r@[0].0@ == "Access-Control-Allow-Origin"@,
        r@[0].1@ == "*"@,
        r@[1].0@ == "Access-Control-Allow-Methods"@,
        r@[1].1@ == "GET, POST, OPTIONS"@,
        r@[2].0@ == "Access-Control-Allow-Headers"@,
        r@[2].1@ == "Content-Type"@,
{
    let mut headers: Vec<(String, String)> = Vec::new();
    headers.push(("Access-Control-Allow-Origin".to_owned(), "*".to_owned()));
    headers.push(("Access-Control-Allow-Methods".to_owned(), "GET, POST, OPTIONS".to_owned()));
    headers.push(("Access-Control-Allow-Headers".to_owned(), "Content-Type".to_owned()));
    headers
}

/// An answer of the relay: its status and its body.
#[derive(Debug)]
pub struct Answer {
    pub status: u16,
    pub body: String,
}

/// The body that says that the relay has no asset of an address.
pub open spec fn no_image_body_of(url: Seq<char>) -> Seq<char> {
    "{\"error\": \"No image found for URL: "@ + url + "\"}"@
}

/// The answer to a request for the asset of an address that the relay has
/// no asset of.
pub fn no_image_answer(url: &str) -> (r: Answer)
    ensures
        r.status == 200,
        r.body@ == no_image_body_of(url@),
{
    let mut out: Vec<char> = Vec::new();
    push_str(&mut out, "{\"error\": \"No image found for URL: ");
    push_str(&mut out, url);
    push_str(&mut out, "\"}");
    Answer { status: 200, body: string_of(&out) }
}

/// The answer to a request for an asset that names no address.
pub fn no_address_answer() -> (r: Answer)
    ensures
        r.status == 200,
        r.body@ == "{\"error\": \"URL parameter is required\"}"@,
{
    Answer { status: 200, body: "{\"error\": \"URL parameter is required\"}".to_owned() }
}

/// The answer to a delivery: the name of the file that was taken, or what
/// went wrong.
pub fn upload_answer(outcome: Result<String, String>) -> (r: Answer)
    ensures
        match outcome {
            Ok(filename) => r.status == 200 && r.body@ == "Image processed: "@ + filename@,
            Err(why) => r.status == 500 && r.body@ == "Error: "@ + why@,
        },
{
    let mut out: Vec<char> = Vec::new();
    match outcome {
        Ok(filename) => {
            push_str(&mut out, "Image processed: ");
            push_str(&mut out, filename.as_str());
            Answer { status: 200, body: string_of(&out) }
        },
        Err(why) => {
            push_str(&mut out, "Error: ");
            push_str(&mut out, why.as_str());
            Answer { status: 500, body: string_of(&out) }
        },
    }
}

/// The answer to the request to stop.
pub fn stop_answer() -> (r: Answer)
    ensures
        r.status == 200,
        r.body@ == "Stop endpoint reached"@,
{
    Answer { status: 200, body: "Stop endpoint reached".to_owned() }
}

/// The answer to a request that no handler takes.
pub fn not_found_answer() -> (r: Answer)
    ensures
        r.status == 404,
        r.body@ == "Not found"@,
{
    Answer { status: 404, body: "Not found".to_owned() }
}

} // verus!
