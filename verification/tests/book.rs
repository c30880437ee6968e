use novel_fetch::assets::ImageData;
use novel_fetch::assets::ImageMap;
use novel_fetch::browser::after_probe;
use novel_fetch::browser::default_health_check_interval;
use novel_fetch::browser::default_timeout;
use novel_fetch::browser::BrowserConfig;
use novel_fetch::browser::Probe;
use novel_fetch::download::answers_yes;
use novel_fetch::download::decide_resume;
use novel_fetch::download::images_path;
use novel_fetch::download::output_path;
use novel_fetch::download::state_path;
use novel_fetch::epub::chapter_file_name;
use novel_fetch::epub::clean_html;
use novel_fetch::epub::escape_xml;
use novel_fetch::epub::html_open_tag;
use novel_fetch::epub::self_closing_tag;
use novel_fetch::epub::EpubGenerator;
use novel_fetch::epub::DEFAULT_CSS;
use novel_fetch::fetcher::assemble_pages;
use novel_fetch::fetcher::Extracted;
use novel_fetch::fetcher::FetchError;
use novel_fetch::fetcher::PageCapture;
use novel_fetch::http::HttpResponse;
use novel_fetch::http::RequestConfig;
use novel_fetch::input::command_for_key;
use novel_fetch::input::UserCommand;
use novel_fetch::progress::ProgressMonitor;
use novel_fetch::progress::ProgressMonitorBuilder;
use novel_fetch::reconcile::has_empty_string;
use novel_fetch::reconcile::Reconciler;
use novel_fetch::reconcile::Verdict;
use novel_fetch::source::bilinovel_for;
use novel_fetch::tool::exe_verdict;
use novel_fetch::tool::no_path_message;
use novel_fetch::tool::path_candidates;
use novel_fetch::source::get_bilinovel;
use novel_fetch::source::get_struct_by_url;
use novel_fetch::source::init_url_handlers;
use novel_fetch::source::init_url_parser;
use novel_fetch::source::register_url_handler;
use novel_fetch::source::Singlefile;
use novel_fetch::source::Source;
use novel_fetch::source::SourceError;
use novel_fetch::source::SourceKind;
use novel_fetch::source::UrlHandlers;
use novel_fetch::volume::BiliNovel;
use novel_fetch::volume::Chapter;
use novel_fetch::volume::Novel;
use novel_fetch::volume::NovelConfig;
use novel_fetch::volume::Tags;

fn strings(v: &[&str]) -> Vec<String> {
    v.iter().map(|s| s.to_string()).collect()
}

#[test]
fn new_values_are_empty() {
    let tags = Tags::new();
    assert!(tags.state.is_empty() && tags.label.is_empty() && tags.span.is_empty());
    let chapter = Chapter::new("u", "t");
    assert_eq!(chapter.url, "u");
    assert_eq!(chapter.title, "t");
    assert!(chapter.context.is_empty() && chapter.image.is_empty());
    let novel = Novel::new("u".to_string(), "n".to_string());
    assert_eq!(novel.url, "u");
    assert_eq!(novel.name, "n");
    assert!(novel.chapters.is_empty() && novel.pending_chapter_indices.is_empty());
    assert!(novel.tags.is_none() && novel.author.is_empty() && novel.cover.is_empty());
    assert!(novel.is_well_formed());
    let book = BiliNovel::new("u".to_string(), "c".to_string());
    assert_eq!(book.url, "u");
    assert_eq!(book.catalog, "c");
    assert!(book.volume.is_empty() && book.index.is_empty() && book.book_name.is_empty());
    assert_eq!(book.config.max_concurrent, 0);
}

#[test]
fn copies_hold_what_was_copied() {
    let mut novel = Novel::new("u".to_string(), "n".to_string());
    novel.tags = Some(Tags { state: "s".to_string(), label: strings(&["a", "b"]), span: strings(&["c"]) });
    let mut chapter = Chapter::new("cu", "ct");
    chapter.context = strings(&["one", "two"]);
    chapter.image = strings(&["i1"]);
    novel.chapters.push(chapter);
    novel.chapters.push(Chapter::new("cu2", "ct2"));
    novel.pending_chapter_indices.push(1);
    let copy = novel.clone();
    assert_eq!(copy.url, "u");
    assert_eq!(copy.tags.as_ref().unwrap().label, strings(&["a", "b"]));
    assert_eq!(copy.chapters[0].context, strings(&["one", "two"]));
    assert_eq!(copy.chapters[0].image, strings(&["i1"]));
    assert_eq!(copy.chapters[1].title, "ct2");
    assert_eq!(copy.pending_chapter_indices, vec![1]);
    assert_eq!(copy.completed_count(), 1);
}

#[test]
fn a_list_of_text_blocks_lacks_text() {
    assert!(has_empty_string(&Vec::new()));
    assert!(has_empty_string(&strings(&["a", "", "b"])));
    assert!(has_empty_string(&strings(&[""])));
    assert!(!has_empty_string(&strings(&["a"])));
    assert!(!has_empty_string(&strings(&["a", " "])));
}

fn asset(name: &str) -> ImageData {
    ImageData {
        u8_data: vec![1, 2, 3],
        base64_data: "AQID".to_string(),
        filename: name.to_string(),
        mime_type: "image/png".to_string(),
        file_path: None,
    }
}

#[test]
fn an_inspection_finds_the_incomplete_chapters() {
    let mut store = ImageMap::new();
    store.insert("cover".to_string(), asset("cover.png"));
    store.insert("a".to_string(), asset("a.png"));
    let mut novel = Novel::new("u".to_string(), "n".to_string());
    novel.cover = "cover".to_string();
    let mut complete = Chapter::new("c0", "t0");
    complete.context = strings(&["text"]);
    complete.image = strings(&["a"]);
    let mut no_asset = Chapter::new("c1", "t1");
    no_asset.context = strings(&["text"]);
    no_asset.image = strings(&["a", "b", "c"]);
    let mut no_page = Chapter::new("c2", "t2");
    no_page.context = strings(&["text", ""]);
    let unfetched = Chapter::new("c3", "t3");
    let mut plain = Chapter::new("c4", "t4");
    plain.context = strings(&["text"]);
    novel.chapters = vec![complete, no_asset, no_page, unfetched, plain];
    let report = novel.check(&store);
    assert!(!report.cover_missing);
    assert_eq!(report.chapters, vec![1, 2, 3]);
    assert_eq!(report.missing_assets, strings(&["b", "c"]));
    assert!(!report.is_clean());
    assert_eq!(novel.pending_chapter_indices, vec![1, 2, 3]);
    assert!(novel.is_well_formed());

    store.insert("b".to_string(), asset("b.png"));
    store.insert("c".to_string(), asset("c.png"));
    novel.chapters[2].context = strings(&["text", "more"]);
    novel.chapters[3].context = strings(&["text"]);
    novel.pending_chapter_indices.clear();
    let report = novel.check(&store);
    assert!(report.is_clean());
    assert!(report.missing_assets.is_empty());
    assert!(novel.pending_chapter_indices.is_empty());
}

#[test]
fn a_missing_cover_is_a_defect_of_the_volume() {
    let store = ImageMap::new();
    let mut novel = Novel::new("u".to_string(), "n".to_string());
    novel.cover = "cover".to_string();
    let mut chapter = Chapter::new("c0", "t0");
    chapter.context = strings(&["text"]);
    novel.chapters.push(chapter);
    let report = novel.check(&store);
    assert!(report.cover_missing);
    assert!(report.chapters.is_empty());
    assert!(!report.is_clean());
    let mut reconciler = Reconciler::new(2);
    assert_eq!(reconciler.judge(&report, false), Verdict::Refetch);
    assert_eq!(reconciler.judge(&report, true), Verdict::Cancelled);
    assert_eq!(reconciler.used, 1);
}

#[test]
fn the_verdicts_of_a_reconciliation() {
    let store = ImageMap::new();
    let mut novel = Novel::new("u".to_string(), "n".to_string());
    novel.chapters.push(Chapter::new("c0", "t0"));
    let defective = novel.check(&store);
    let mut none = Reconciler::new(0);
    assert_eq!(none.judge(&defective, false), Verdict::Exhausted);
    let mut one = Reconciler::new(1);
    assert_eq!(one.judge(&defective, true), Verdict::Cancelled);
    assert_eq!(one.used, 0);
    assert_eq!(one.judge(&defective, false), Verdict::Refetch);
    assert_eq!(one.used, 1);
    assert_eq!(one.judge(&defective, false), Verdict::Exhausted);
    novel.chapters[0].context = strings(&["text"]);
    store_cover(&mut novel);
    let mut with_cover = ImageMap::new();
    with_cover.insert("cover".to_string(), asset("cover.png"));
    let clean = novel.check(&with_cover);
    assert_eq!(one.judge(&clean, false), Verdict::Clean);
    assert_eq!(one.used, 1);
}

fn store_cover(novel: &mut Novel) {
    novel.cover = "cover".to_string();
}

#[test]
fn the_monitor_counts_successes_and_errors() {
    let mut monitor = ProgressMonitor::new(4, "volume");
    assert_eq!(monitor.prefix(), "volume");
    assert_eq!(monitor.completed_count(), 0);
    monitor.increment();
    monitor.increment();
    monitor.record_error();
    // A failed fetch is an error and is not completed.
    assert_eq!(monitor.completed_count(), 2);
    assert_eq!(monitor.error_count(), 1);
    assert_eq!(monitor.ended_count(), 3);
    assert_eq!(monitor.position(), 3);
    monitor.set_title("other");
    assert_eq!(monitor.prefix(), "other");
    let copy = monitor.clone();
    monitor.finish();
    assert!(monitor.finished);
    assert_eq!(monitor.position(), 4);
    assert_eq!(monitor.completed_count(), 2);
    assert!(!copy.finished);
    let mut hidden = copy;
    hidden.finish_and_hide();
    assert!(hidden.finished);
}

#[test]
fn the_counters_wrap_around() {
    let mut monitor = ProgressMonitor::new(1, "");
    monitor.completed = usize::MAX;
    monitor.errors = usize::MAX;
    monitor.record_error();
    assert_eq!(monitor.completed_count(), usize::MAX);
    assert_eq!(monitor.error_count(), 0);
    monitor.increment();
    assert_eq!(monitor.completed_count(), 0);
    monitor.completed = usize::MAX;
    monitor.errors = 1;
    assert_eq!(monitor.ended_count(), usize::MAX);
}

#[test]
fn a_monitor_goes_on_counting_in_the_next_run() {
    let mut monitor = ProgressMonitor::new(5, "volume");
    for _ in 0..3 {
        monitor.increment();
    }
    monitor.record_error();
    monitor.record_error();
    monitor.finish();
    assert_eq!(monitor.position(), 5);
    monitor.next_run(2);
    assert!(!monitor.finished);
    assert_eq!(monitor.total, 7);
    assert_eq!(monitor.completed_count(), 3);
    assert_eq!(monitor.error_count(), 2);
    assert_eq!(monitor.position(), 5);
    monitor.increment();
    monitor.increment();
    assert_eq!(monitor.completed_count(), 5);
    assert_eq!(monitor.error_count(), 2);
    assert_eq!(monitor.position(), 7);
    monitor.next_run(usize::MAX);
    assert_eq!(monitor.total, usize::MAX);
}

#[test]
fn a_monitor_is_built_from_its_settings() {
    let builder = ProgressMonitorBuilder::new(7)
        .template("{bar}")
        .progress_chars("#>-")
        .initial_message("starting")
        .set_prefix("vol");
    assert_eq!(builder.total, 7);
    assert_eq!(builder.template, Some("{bar}".to_string()));
    assert_eq!(builder.progress_chars, Some("#>-".to_string()));
    assert_eq!(builder.initial_message, Some("starting".to_string()));
    let monitor = builder.build();
    assert_eq!(monitor.total, 7);
    assert_eq!(monitor.prefix(), "vol");
    assert_eq!(monitor.completed_count(), 0);
    let bare = ProgressMonitorBuilder::new(0);
    assert!(bare.template.is_none() && bare.progress_chars.is_none() && bare.initial_message.is_none());
    assert_eq!(bare.prefix, "");
}

#[test]
fn the_pages_of_a_chapter_are_put_together() {
    let pages = vec![
        PageCapture {
            origin: Some("first".to_string()),
            extracted: Some(Extracted { images: strings(&["a", "b"]), text: "one".to_string() }),
        },
        PageCapture { origin: Some("second".to_string()), extracted: None },
        PageCapture { origin: None, extracted: None },
        PageCapture {
            origin: None,
            extracted: Some(Extracted { images: strings(&["b"]), text: "four".to_string() }),
        },
    ];
    let (context, image) = assemble_pages(pages).unwrap();
    assert_eq!(context, strings(&["one", "章节解析出错 url:second", "章节解析出错 url:url获取失败", "four"]));
    // A page that could not be read brings no asset address.
    assert_eq!(image, strings(&["a", "b", "b"]));
}

#[test]
fn a_chapter_of_one_page_that_could_not_be_read() {
    let pages = vec![PageCapture { origin: Some("https://example.org/c1".to_string()), extracted: None }];
    let (context, image) = assemble_pages(pages).unwrap();
    assert_eq!(context, strings(&["章节解析出错 url:https://example.org/c1"]));
    assert!(image.is_empty());
}

#[test]
fn a_capture_without_pages_is_a_failure() {
    assert_eq!(assemble_pages(Vec::new()).unwrap_err(), FetchError::NoPages);
    let mut chapter = Chapter::new("u", "t");
    chapter.context = strings(&["old"]);
    assert_eq!(chapter.parser_by_singlefile(Vec::new()).unwrap_err(), FetchError::NoPages);
    assert_eq!(chapter.context, strings(&["old"]));
    let page = PageCapture {
        origin: None,
        extracted: Some(Extracted { images: strings(&["i"]), text: "new".to_string() }),
    };
    chapter.parser_by_singlefile(vec![page]).unwrap();
    assert_eq!(chapter.context, strings(&["new"]));
    assert_eq!(chapter.image, strings(&["i"]));
    assert_eq!(chapter.url, "u");
    assert_eq!(chapter.title, "t");
}

#[test]
fn the_paths_of_a_volume() {
    assert_eq!(state_path("第一卷"), "./temp/download/第一卷.state.json");
    assert_eq!(images_path("第一卷"), "./temp/images/第一卷");
    assert_eq!(output_path("v 1"), "./output/v 1.epub");
    assert_eq!(state_path(""), "./temp/download/.state.json");
}

#[test]
fn an_answer_is_a_yes() {
    assert!(answers_yes("y"));
    assert!(answers_yes("Y"));
    assert!(answers_yes("  y\r\n"));
    assert!(!answers_yes("yes"));
    assert!(!answers_yes("n"));
    assert!(!answers_yes(""));
    assert!(!answers_yes("y y"));
    assert!(!answers_yes("ｙ"));
}

#[test]
fn an_interrupted_fetch_is_taken_up_again_on_a_yes() {
    let listed = Novel::new("u".to_string(), "listed".to_string());
    let mut saved = Novel::new("u".to_string(), "saved".to_string());
    saved.chapters.push(Chapter::new("c", "t"));
    saved.pending_chapter_indices.push(0);
    let plan = decide_resume(listed.clone(), Some(saved.clone()), "y\n");
    assert!(plan.resumed && !plan.already_complete);
    assert_eq!(plan.novel.name, "saved");
    let plan = decide_resume(listed.clone(), Some(saved.clone()), "n\n");
    assert!(!plan.resumed && !plan.already_complete);
    assert_eq!(plan.novel.name, "listed");
    let plan = decide_resume(listed.clone(), None, "y\n");
    assert!(!plan.resumed && !plan.already_complete);
    assert_eq!(plan.novel.name, "listed");
    saved.pending_chapter_indices.clear();
    let plan = decide_resume(listed, Some(saved), "Y");
    assert!(plan.resumed && plan.already_complete);
}

#[test]
fn the_arguments_of_the_browser() {
    let config = BrowserConfig::default();
    assert_eq!(config.port, 9223);
    assert_eq!(config.startup_timeout, 30);
    assert_eq!(config.health_check_interval, 5);
    assert_eq!(default_timeout(), 30);
    assert_eq!(default_health_check_interval(), 5);
    assert_eq!(
        config.to_args(),
        strings(&[
            "--remote-debugging-port=9223",
            "--user-data-dir=E:\\BrowserProfiles",
            "--headless",
            "--no-sandbox",
            "--disable-dev-shm-usage"
        ])
    );
    let mut other = config.clone();
    other.port = 0;
    other.headless = false;
    other.user_data_dir = "/tmp/p".to_string();
    other.additional_args = Vec::new();
    assert_eq!(other.to_args(), strings(&["--remote-debugging-port=0", "--user-data-dir=/tmp/p"]));
    other.port = 65535;
    assert_eq!(other.get_server_url(), "http://localhost:65535");
    assert_eq!(other.version_url(), "http://localhost:65535/json/version");
    assert_eq!(config.get_server_url(), "http://localhost:9223");
}

#[test]
fn waiting_for_the_browser() {
    assert_eq!(after_probe(true, 0, 30_000), Probe::Ready);
    assert_eq!(after_probe(false, 0, 30_000), Probe::Retry { after_ms: 500 });
    assert_eq!(after_probe(false, 29_999, 30_000), Probe::Retry { after_ms: 500 });
    assert_eq!(after_probe(false, 30_000, 30_000), Probe::TimedOut);
    assert_eq!(after_probe(true, 30_000, 30_000), Probe::TimedOut);
}

#[test]
fn the_status_of_an_answer() {
    let mut response = HttpResponse {
        status: 200,
        headers: Vec::new(),
        body: String::new(),
        url: String::new(),
        content_type: None,
        timestamp: 0,
    };
    assert!(response.is_success());
    response.status = 299;
    assert!(response.is_success());
    response.status = 300;
    assert!(!response.is_success());
    response.status = 199;
    assert!(!response.is_success());
    response.status = 404;
    assert!(!response.is_success());
}

#[test]
fn a_request_is_tried_again_after_a_growing_delay() {
    let config = RequestConfig::default();
    assert_eq!(config, RequestConfig { max_retries: 3, retry_delay: 1000, timeout: 30000 });
    assert_eq!(config.retry_after(0), Some(1000));
    assert_eq!(config.retry_after(1), Some(2000));
    assert_eq!(config.retry_after(2), Some(3000));
    assert_eq!(config.retry_after(3), None);
    assert!(!config.caches());
    let once = RequestConfig { max_retries: 0, retry_delay: 1000, timeout: 1 };
    assert_eq!(once.retry_after(0), None);
    assert!(once.caches());
    let long = RequestConfig { max_retries: u32::MAX, retry_delay: u64::MAX, timeout: 1 };
    assert_eq!(long.retry_after(0), Some(u64::MAX));
    assert_eq!(long.retry_after(1), Some(u64::MAX));
}

#[test]
fn the_commands_of_the_keys() {
    assert_eq!(command_for_key('q'), UserCommand::Quit);
    assert_eq!(command_for_key('Q'), UserCommand::Quit);
    assert_eq!(command_for_key('p'), UserCommand::Pause);
    assert_eq!(command_for_key('R'), UserCommand::Resume);
    assert_eq!(command_for_key('s'), UserCommand::Status);
    assert_eq!(command_for_key('x'), UserCommand::Other('x'));
    assert!(command_for_key('q').cancels());
    assert!(!command_for_key('p').cancels());
}

#[test]
fn the_hosts_of_the_known_sites_are_registered() {
    let handlers = init_url_parser();
    assert_eq!(handlers.handler_for_host("www.linovelib.com"), Some(SourceKind::BiliNovel));
    assert_eq!(handlers.handler_for_host("linovelib.com"), Some(SourceKind::BiliNovel));
    assert_eq!(handlers.handler_for_host("example.org"), None);
    let mut own = UrlHandlers::new();
    assert_eq!(own.handler_for_host("linovelib.com"), None);
    register_url_handler(&mut own, "example.org", SourceKind::BiliNovel);
    assert_eq!(own.handler_for_host("example.org"), Some(SourceKind::BiliNovel));
    init_url_handlers(&mut own);
    assert_eq!(own.handler_for_host("www.linovelib.com"), Some(SourceKind::BiliNovel));
    assert_eq!(own.handler_for_host("example.org"), Some(SourceKind::BiliNovel));
}

#[test]
fn the_book_that_an_address_names() {
    let handlers = init_url_parser();
    match get_struct_by_url(&handlers, "https://www.linovelib.com/novel/2342.html").unwrap() {
        Source::BiliNovel(book) => {
            assert_eq!(book.url, "https://www.linovelib.com/novel/2342.html");
            assert_eq!(book.catalog, "https://www.linovelib.com/novel/2342/catalog");
        }
    }
    match get_struct_by_url(&handlers, "https://linovelib.com/novel/77/vol_1.html?x=1").unwrap() {
        Source::BiliNovel(book) => {
            assert_eq!(book.url, "https://www.linovelib.com/novel/77.html");
            assert_eq!(book.catalog, "https://www.linovelib.com/novel/77/catalog");
        }
    }
    assert!(matches!(get_struct_by_url(&handlers, "not an address"), Err(SourceError::InvalidUrl)));
    assert!(matches!(get_struct_by_url(&handlers, "data:text/plain,x"), Err(SourceError::NoHost)));
    match get_struct_by_url(&handlers, "https://example.org/novel/1.html") {
        Err(SourceError::Unsupported { host }) => assert_eq!(host, "example.org"),
        _ => panic!("example.org is not registered"),
    }
}

#[test]
fn an_address_without_a_number_is_kept_as_it_is() {
    let book = get_bilinovel("https://www.linovelib.com/top.html");
    assert_eq!(book.url, "https://www.linovelib.com/top.html");
    assert_eq!(book.catalog, "");
    let book = get_bilinovel("https://www.linovelib.com/novel/abc");
    assert_eq!(book.catalog, "");
    let book = bilinovel_for("u", Some(String::new()));
    assert_eq!(book.url, "u");
    assert_eq!(book.catalog, "");
    let book = bilinovel_for("u", Some("12".to_string()));
    assert_eq!(book.url, "https://www.linovelib.com/novel/12.html");
    let book = bilinovel_for("u", None);
    assert_eq!(book.url, "u");
}

#[test]
fn the_selected_volumes_are_those_that_exist() {
    let mut book = BiliNovel::new("u".to_string(), "c".to_string());
    for i in 0..3 {
        book.volume.push(Novel::new(format!("v{}", i), format!("n{}", i)));
    }
    assert_eq!(book.volume_count(), 3);
    book.select(vec![0, 2, 3, 200]);
    assert_eq!(book.index, vec![0, 2, 3, 200]);
    assert_eq!(book.selected_volumes(), vec![0, 2]);
    book.select(Vec::new());
    assert!(book.selected_volumes().is_empty());
    let mut config = NovelConfig::default();
    config.max_concurrent = 4;
    config.check_rounds = 3;
    book.load_config(config);
    assert_eq!(book.config.max_concurrent, 4);
    assert_eq!(book.config.check_rounds, 3);
    assert_eq!(book.volume.len(), 3);
}

#[test]
fn the_reserved_characters_are_written_as_entities() {
    assert_eq!(escape_xml("a & b < c > d \" e ' f"), "a &amp; b &lt; c &gt; d &quot; e &apos; f");
    assert_eq!(escape_xml("&amp;"), "&amp;amp;");
    assert_eq!(escape_xml(""), "");
    assert_eq!(escape_xml("第一章"), "第一章");
}

#[test]
fn tags_are_rewritten() {
    assert_eq!(self_closing_tag("IMG", "  src=\"a.png\"  "), "<img src=\"a.png\" />");
    assert_eq!(self_closing_tag("br", ""), "<br  />");
    assert_eq!(html_open_tag(" lang=\"zh\""), "<html xmlns=\"http://www.w3.org/1999/xhtml\"  lang=\"zh\">");
    assert_eq!(html_open_tag(" xmlns=\"x\""), "<html  xmlns=\"x\">");
    assert_eq!(html_open_tag(""), "<html xmlns=\"http://www.w3.org/1999/xhtml\" >");
}

#[test]
fn a_text_is_cleaned_for_the_package() {
    assert_eq!(clean_html("<!DOCTYPE html><p>a</p>").unwrap(), "<p>a</p>");
    assert_eq!(clean_html("<p>a<br>b<BR/>c</p>").unwrap(), "<p>a<br  />b<br  />c</p>");
    assert_eq!(clean_html("<img src=\"images/a.png\" alt=\"\">").unwrap(), "<img src=\"images/a.png\" alt=\"\" />");
    assert_eq!(
        clean_html("<html lang=\"zh\"><body></body></html>").unwrap(),
        "<html xmlns=\"http://www.w3.org/1999/xhtml\"  lang=\"zh\"><body></body></html>"
    );
    assert_eq!(clean_html("a<script type=\"x\">\nvar a = 1;\n</script>b").unwrap(), "ab");
    assert_eq!(clean_html("plain").unwrap(), "plain");
    assert_eq!(clean_html("").unwrap(), "");
}

#[test]
fn the_files_of_the_chapters_are_numbered_from_one() {
    assert_eq!(chapter_file_name(0), "chapter_001.xhtml");
    assert_eq!(chapter_file_name(8), "chapter_009.xhtml");
    assert_eq!(chapter_file_name(9), "chapter_010.xhtml");
    assert_eq!(chapter_file_name(98), "chapter_099.xhtml");
    assert_eq!(chapter_file_name(99), "chapter_100.xhtml");
    assert_eq!(chapter_file_name(1233), "chapter_1234.xhtml");
}

#[test]
fn the_documents_of_a_package() {
    let mut novel = Novel::new("u".to_string(), "n".to_string());
    let mut chapter = Chapter::new("c", "A & B");
    chapter.context = strings(&["<p>one<br></p>", "<p>two</p>"]);
    novel.chapters.push(chapter);
    novel.chapters.push(Chapter::new("c2", "第二章"));
    let images = ImageMap::new();
    let generator = EpubGenerator::new(&novel, &images);
    assert!(generator.css.is_none());
    assert_eq!(generator.stylesheet(), DEFAULT_CSS);
    let document = generator.build_chapter_content(&novel.chapters[0]).unwrap();
    assert_eq!(
        document,
        "<!DOCTYPE html>\n<html xmlns=\"http://www.w3.org/1999/xhtml\">\n<head>\n    <title>A &amp; B</title>\n    <meta charset=\"UTF-8\" />\n    <link rel=\"stylesheet\" type=\"text/css\" href=\"styles.css\" />\n</head>\n<body>\n    <h1>A &amp; B</h1>\n    <p>one<br  /></p><p>two</p>\n</body>\n</html>"
    );
    let toc = generator.table_of_contents();
    assert_eq!(
        toc,
        "<!DOCTYPE html>\n<html xmlns=\"http://www.w3.org/1999/xhtml\">\n<head>\n    <title>目录</title>\n    <link rel=\"stylesheet\" type=\"text/css\" href=\"styles.css\" />\n</head>\n<body>\n    <h1 class=\"toc-title\">目录</h1>\n    <ul class=\"toc-list\"><li class=\"toc-item\"><a class=\"toc-link\" href=\"chapter_001.xhtml\">A &amp; B</a></li><li class=\"toc-item\"><a class=\"toc-link\" href=\"chapter_002.xhtml\">第二章</a></li></ul>\n</body>\n</html>"
    );
    let styled = generator.with_css("body {}".to_string());
    assert_eq!(styled.stylesheet(), "body {}");
}

#[test]
fn the_places_where_the_tool_may_lie() {
    assert_eq!(
        path_candidates("/usr/bin:/bin::/opt/x", "single-file", false),
        strings(&["/usr/bin/single-file", "/bin/single-file", "/single-file", "/opt/x/single-file"])
    );
    assert_eq!(
        path_candidates("C:\\a;D:\\b", "single-file.exe", true),
        strings(&["C:\\a\\single-file.exe", "D:\\b\\single-file.exe"])
    );
    assert_eq!(path_candidates("", "t", false), strings(&["/t"]));
    assert_eq!(path_candidates("a:b", "t", true), strings(&["a:b\\t"]));
}

#[test]
fn what_is_said_of_the_tool() {
    assert_eq!(exe_verdict("single-file", true, true), Ok(()));
    assert_eq!(exe_verdict("single-file", false, false), Err("找不到single-file!".to_string()));
    assert_eq!(exe_verdict("single-file", false, true), Err("找不到single-file!".to_string()));
    assert_eq!(exe_verdict("single-file", true, false), Err("single-file存在但是无法正常运行!".to_string()));
    assert_eq!(no_path_message("single-file"), "无法找到single-file!");
}
