use novel_fetch::epub::BROKEN_IMAGE_BASE64;
use novel_fetch::extract::build_chapter;
use novel_fetch::extract::description_markup;
use novel_fetch::extract::extract_author;
use novel_fetch::extract::extract_chapter;
use novel_fetch::extract::extract_cover;
use novel_fetch::extract::extract_description;
use novel_fetch::extract::extract_tags;
use novel_fetch::extract::extract_volume;
use novel_fetch::extract::hidden_parts;
use novel_fetch::extract::image_rewrite;
use novel_fetch::extract::image_source;
use novel_fetch::extract::read_page;
use novel_fetch::extract::ExtractError;
use novel_fetch::volume::BiliNovel;

const BOOK: &str = r#"<html><body>
<div class="book-info">
  <h1 class="book-name">The Book</h1>
  <div class="au-name"><a href="/author/1">An Author</a></div>
  <div class="nums"><span> 120k words </span><span>5 volumes</span><i>x</i></div>
  <div class="notice">Read <b>this</b> first.</div>
  <div class="book-dec"><p>  A story.  </p><p>second</p></div>
</div>
<div class="book-label">
  <a class="state">ongoing</a>
  <a class="label"> fantasy </a><a class="label">comedy</a>
  <span><a>2024</a></span><span><a> anime </a></span>
</div>
<div class="book-vol-chapter">
  <a href="/novel/1/vol_3.html" title="Volume 3">v3</a>
  <a href="https://www.linovelib.com/novel/1/vol_2.html" title="Volume 2">v2</a>
  <a href="HTTPS://Example.ORG/a/../b" title="Volume 1">v1</a>
  <a title="No address">v0</a>
</div>
<div class="book-img"><img src="x" data-original-src="https://img.example.org/cover.jpg"></div>
<div class="book-new-chapter">
  <div><a href="https://www.linovelib.com/novel/1/10.html">Chapter one</a><span>new</span></div>
  <div><a>Chapter two</a></div>
  <div><span>no link</span></div>
</div>
</body></html>"#;

#[test]
fn the_author_is_the_text_of_the_first_element() {
    assert_eq!(extract_author(BOOK, "div.au-name").unwrap(), "An Author");
    assert_eq!(extract_author(BOOK, "div.book-info>h1.book-name").unwrap(), "The Book");
    assert_eq!(extract_author(BOOK, "div.none").unwrap(), "");
    assert_eq!(extract_author(BOOK, "a.label").unwrap(), " fantasy ");
    assert_eq!(extract_author("", "div").unwrap(), "");
}

#[test]
fn a_text_that_is_no_selector_is_refused() {
    assert_eq!(extract_author(BOOK, "div[").unwrap_err(), ExtractError::Selector);
    assert_eq!(extract_tags(BOOK, "").unwrap_err(), ExtractError::Selector);
    assert_eq!(extract_description(BOOK, ">>", &None, &None).unwrap_err(), ExtractError::Selector);
    assert_eq!(description_markup(BOOK, ">>").unwrap_err(), ExtractError::Selector);
    assert!(extract_volume(BOOK, "!").is_err());
}

#[test]
fn the_tags_of_a_book() {
    let tags = extract_tags(BOOK, "div.book-label").unwrap();
    assert_eq!(tags.state, "ongoing");
    assert_eq!(tags.label, vec!["fantasy".to_string(), "comedy".to_string()]);
    assert_eq!(tags.span, vec!["2024".to_string(), "anime".to_string()]);
    let none = extract_tags(BOOK, "div.absent").unwrap();
    assert!(none.state.is_empty() && none.label.is_empty() && none.span.is_empty());
}

#[test]
fn the_description_of_a_book() {
    let (notice, description) = description_markup(BOOK, "div.book-info").unwrap();
    assert_eq!(notice.as_deref(), Some("<div class=\"notice\">Read <b>this</b> first.</div>"));
    assert_eq!(description.as_deref(), Some("<p>  A story.  </p>"));
    let rendered_notice = Some("Read **this** first.\n".to_string());
    let rendered_description = Some("A story.\n".to_string());
    let (nums, notice, description) =
        extract_description(BOOK, "div.book-info", &rendered_notice, &rendered_description).unwrap();
    assert_eq!(nums, "120k words\t5 volumes");
    assert_eq!(notice, "Read **this** first.");
    assert_eq!(description, "A story.");
    // A markup that could not be rendered leaves a note in its place.
    let (_, notice, description) = extract_description(BOOK, "div.book-info", &None, &rendered_description).unwrap();
    assert_eq!(notice, "提取失败");
    assert_eq!(description, "A story.");
    // Where the page has no such element, nothing is said, whatever was rendered.
    let (nums, notice, description) =
        extract_description(BOOK, "div.absent", &rendered_notice, &rendered_description).unwrap();
    assert!(nums.is_empty() && notice.is_empty() && description.is_empty());
    assert_eq!(description_markup(BOOK, "div.absent").unwrap(), (None, None));
}

#[test]
fn the_volumes_of_a_book_come_last_first() {
    let volumes = extract_volume(BOOK, "div.book-vol-chapter").unwrap();
    let listed: Vec<(&str, &str)> = volumes.iter().map(|v| (v.url.as_str(), v.name.as_str())).collect();
    assert_eq!(
        listed,
        vec![
            // A link without an address leads to the site itself.
            ("https://www.linovelib.com", "No address"),
            ("https://example.org/b", "Volume 1"),
            ("https://www.linovelib.com/novel/1/vol_2.html", "Volume 2"),
            ("https://www.linovelib.com/novel/1/vol_3.html", "Volume 3"),
        ]
    );
    assert!(volumes.iter().all(|v| v.chapters.is_empty() && v.pending_chapter_indices.is_empty()));
    assert!(extract_volume(BOOK, "div.absent").unwrap().is_empty());
}

#[test]
fn the_cover_of_a_volume() {
    assert_eq!(extract_cover(BOOK).unwrap(), "https://img.example.org/cover.jpg");
    assert_eq!(extract_cover("<div class=\"book-img\"><img src=\"x\"></div>").unwrap(), "");
    assert_eq!(extract_cover("<p>nothing</p>").unwrap(), "");
}

fn links() -> Vec<(Option<String>, String)> {
    vec![
        (Some("https://www.linovelib.com/novel/1/10.html".to_string()), "Chapter one".to_string()),
        (None, "Chapter two".to_string()),
        (None, "no link".to_string()),
    ]
}

#[test]
fn the_chapters_of_a_volume() {
    let chapters = build_chapter(&links());
    let listed: Vec<(&str, &str)> = chapters.iter().map(|c| (c.url.as_str(), c.title.as_str())).collect();
    assert_eq!(
        listed,
        vec![
            ("https://www.linovelib.com/novel/1/10.html", "Chapter one"),
            ("", "Chapter two"),
            ("", "no link"),
        ]
    );
    assert!(chapters.iter().all(|c| c.context.is_empty() && c.image.is_empty()));
    assert!(build_chapter(&Vec::new()).is_empty());
}

#[test]
fn a_book_is_filled_from_its_page() {
    let mut book = BiliNovel::new("https://www.linovelib.com/novel/1.html".to_string(), "c".to_string());
    book.index = vec![1];
    let notice = Some(" a notice ".to_string());
    let description = Some("A story.".to_string());
    assert_eq!(book.parser_book(BOOK, &notice, &description), Ok(false));
    assert_eq!(book.book_name, "The Book");
    assert_eq!(book.author, "An Author");
    assert_eq!(book.nums, "120k words\t5 volumes");
    assert_eq!(book.notice, "a notice");
    assert_eq!(book.description, "A story.");
    assert_eq!(book.tags.as_ref().unwrap().state, "ongoing");
    assert_eq!(book.volume.len(), 4);
    assert_eq!(book.volume[3].name, "Volume 3");
    assert_eq!(book.url, "https://www.linovelib.com/novel/1.html");
    assert_eq!(book.index, vec![1]);
    let mut bare = BiliNovel::new("u".to_string(), "c".to_string());
    assert_eq!(bare.parser_book("<p>nothing</p>", &notice, &description), Ok(true));
    assert!(bare.volume.is_empty());
    assert!(bare.tags.is_some());
    assert!(bare.notice.is_empty() && bare.description.is_empty());
}

#[test]
fn the_page_of_a_volume_is_read() {
    let page = BiliNovel::parse_volume_page(BOOK, &Some("A story.\n".to_string()), &links()).unwrap();
    assert_eq!(page.author, "An Author");
    assert_eq!(page.description, "A story.");
    assert_eq!(page.cover, "https://img.example.org/cover.jpg");
    assert_eq!(page.tags.unwrap().label.len(), 2);
    assert_eq!(page.chapters.len(), 3);
    assert_eq!(page.chapters[0].title, "Chapter one");
    assert_eq!(page.chapters[1].url, "");
}

#[test]
fn the_picture_that_an_image_shows() {
    assert_eq!(image_source(Some("a.png".to_string())), "images/a.png");
    assert_eq!(image_source(Some(String::new())), BROKEN_IMAGE_BASE64);
    assert_eq!(image_source(None), BROKEN_IMAGE_BASE64);
}

#[test]
fn what_is_done_with_an_image() {
    let none = image_rewrite(false, None);
    assert_eq!(none.src.as_deref(), Some(BROKEN_IMAGE_BASE64));
    assert_eq!(none.record, None);
    let ignored = image_rewrite(false, Some("https://example.org/a.png".to_string()));
    assert_eq!(ignored.src.as_deref(), Some(BROKEN_IMAGE_BASE64));
    assert_eq!(ignored.record, None);
    let bare = image_rewrite(true, None);
    assert_eq!(bare.src, None);
    assert_eq!(bare.record, None);
    let named = image_rewrite(true, Some("https://example.org/img/a.png".to_string()));
    assert_eq!(named.src.as_deref(), Some("images/a.png"));
    assert_eq!(named.record.as_deref(), Some("https://example.org/img/a.png"));
    let relative = image_rewrite(true, Some("/img/a.png".to_string()));
    assert_eq!(relative.src.as_deref(), Some(BROKEN_IMAGE_BASE64));
    assert_eq!(relative.record.as_deref(), Some("/img/a.png"));
    let no_file = image_rewrite(true, Some("not an address".to_string()));
    assert_eq!(no_file.src.as_deref(), Some(BROKEN_IMAGE_BASE64));
    assert_eq!(no_file.record.as_deref(), Some("not an address"));
    let query = image_rewrite(true, Some("https://example.org/img/a.png?x=1".to_string()));
    assert_eq!(query.src.as_deref(), Some("images/a.png?x=1"));
}

#[test]
fn the_images_of_a_chapter() {
    let attributes = vec![
        (true, Some("https://img.example.org/i/1.jpg".to_string())),
        (false, None),
        (true, None),
        (true, Some("/relative.png".to_string())),
    ];
    let (images, sources) = extract_chapter(&attributes);
    assert_eq!(images, vec!["https://img.example.org/i/1.jpg".to_string(), "/relative.png".to_string()]);
    assert_eq!(
        sources,
        vec![
            Some("images/1.jpg".to_string()),
            Some(BROKEN_IMAGE_BASE64.to_string()),
            None,
            Some(BROKEN_IMAGE_BASE64.to_string()),
        ]
    );
    let (images, sources) = extract_chapter(&Vec::new());
    assert!(images.is_empty() && sources.is_empty());
}

#[test]
fn a_page_that_was_read_and_one_that_was_not() {
    let page = read_page(Some("o".to_string()), vec!["i".to_string()], Some("\n <p>t</p> \n".to_string()));
    assert_eq!(page.origin.as_deref(), Some("o"));
    let extracted = page.extracted.unwrap();
    assert_eq!(extracted.text, "<p>t</p>");
    assert_eq!(extracted.images, vec!["i".to_string()]);
    let lost = read_page(None, Vec::new(), None);
    assert!(lost.origin.is_none() && lost.extracted.is_none());
}

#[test]
fn what_is_taken_out_of_the_text_of_a_chapter() {
    assert_eq!(
        hidden_parts(),
        vec!["p.sf-hidden", "div.dag", "center#show-more-images", "div.google-auto-placed", "div.ap_container"]
    );
}
