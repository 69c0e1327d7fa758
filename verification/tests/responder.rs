use liver::config::Config;
use liver::media::MediaType;
use liver::paths::{extension_of, is_inside, join, join_all};
use liver::responder::{
    after_probe, after_read, file_path, respond, respond_as, start, target_path, Response, Step,
};
use liver::snippet::reload_snippet;
use rocket::http::ContentType;

const PAGE: &str = "<html><body>Hi</body></html>";
const STYLE: &str = "body{color:red}";

fn segments(parts: &[&str]) -> Vec<String> {
    parts.iter().map(|p| p.to_string()).collect()
}

fn found(response: Response) -> (MediaType, Vec<u8>) {
    match response {
        Response::Found { content_type, body } => (content_type, body),
        Response::NotFound => panic!("not found"),
    }
}

#[test]
fn site_root_is_served_with_snippet() {
    let config = Config::default();
    let target = target_path("./site", None).unwrap();
    assert_eq!(target, "./site/index.html");
    let path = file_path(&target, false);
    assert_eq!(path, "./site/index.html");
    let (media, body) = found(respond(&path, Some(PAGE.as_bytes().to_vec()), &config));
    assert_eq!(media.top, "text");
    assert_eq!(media.sub, "html");
    assert_eq!(media.header, ContentType::HTML.to_string());
    let mut expected = PAGE.as_bytes().to_vec();
    expected.extend_from_slice(&reload_snippet(8001));
    assert_eq!(body, expected);
    let text = String::from_utf8(body).unwrap();
    assert!(text.starts_with(PAGE));
    assert!(text.contains("ws://127.0.0.1:8001"));
}

#[test]
fn site_style_is_served_exactly() {
    let config = Config::default();
    let request = segments(&["style.css"]);
    let target = target_path("./site", Some(&request)).unwrap();
    assert_eq!(target, "./site/style.css");
    let path = file_path(&target, false);
    let (media, body) = found(respond(&path, Some(STYLE.as_bytes().to_vec()), &config));
    assert_eq!(media.top, "text");
    assert_eq!(media.sub, "css");
    assert_eq!(media.header, ContentType::CSS.to_string());
    assert_eq!(body, STYLE.as_bytes().to_vec());
}

#[test]
fn non_html_bytes_are_untouched() {
    let config = Config::default();
    let bytes: Vec<u8> = vec![0, 159, 146, 150, 255, 60, 47, 104];
    for path in ["a/logo.png", "a/app.js", "a/data.json", "a/readme", "a/x.unknownext"] {
        let (_, body) = found(respond(path, Some(bytes.clone()), &config));
        assert_eq!(body, bytes);
    }
}

#[test]
fn html_gets_snippet_for_configured_port() {
    let config = Config { http_port: 8000, ws_port: 4242 };
    let (media, body) = found(respond("a/page.html", Some(b"<p>".to_vec()), &config));
    assert!(media.is_html());
    let mut expected = b"<p>".to_vec();
    expected.extend_from_slice(&reload_snippet(4242));
    assert_eq!(body, expected);
    assert!(String::from_utf8(body).unwrap().contains("ws://127.0.0.1:4242"));
}

#[test]
fn extension_case_does_not_matter() {
    let config = Config::default();
    let (media, body) = found(respond("a/PAGE.HTML", Some(b"x".to_vec()), &config));
    assert!(media.is_html());
    assert_eq!(body.len(), 1 + reload_snippet(8001).len());
}

#[test]
fn root_and_index_give_identical_bodies() {
    let config = Config::default();
    let request = segments(&["index.html"]);
    let by_root = target_path("site", None).unwrap();
    let by_name = target_path("site", Some(&request)).unwrap();
    assert_eq!(by_root, by_name);
    let a = respond(&file_path(&by_root, false), Some(PAGE.as_bytes().to_vec()), &config);
    let b = respond(&file_path(&by_name, false), Some(PAGE.as_bytes().to_vec()), &config);
    assert_eq!(a, b);
}

#[test]
fn missing_file_is_not_found() {
    let config = Config::default();
    assert_eq!(respond("site/nope.html", None, &config), Response::NotFound);
    assert_eq!(respond("site/nope", None, &config), Response::NotFound);
    assert_eq!(respond_as(MediaType::plain(), None, 8001), Response::NotFound);
}

#[test]
fn directory_is_served_by_its_index() {
    let config = Config::default();
    let request = segments(&["docs"]);
    let target = target_path("site", Some(&request)).unwrap();
    assert_eq!(target, "site/docs");
    let path = file_path(&target, true);
    assert_eq!(path, "site/docs/index.html");
    let (media, body) = found(respond(&path, Some(PAGE.as_bytes().to_vec()), &config));
    assert!(media.is_html());
    let mut expected = PAGE.as_bytes().to_vec();
    expected.extend_from_slice(&reload_snippet(8001));
    assert_eq!(body, expected);
}

#[test]
fn request_leaving_the_root_has_no_target() {
    assert_eq!(target_path("site", Some(&segments(&["..", "secret.txt"]))), None);
    assert_eq!(target_path("site", Some(&segments(&["a", "..", "..", "x"]))), None);
    assert_eq!(target_path("site", Some(&segments(&["/etc/passwd"]))), None);
    assert_eq!(target_path("site", Some(&segments(&["a/../../x"]))), None);
    assert!(!is_inside(&segments(&[".."])));
}

#[test]
fn request_inside_the_root_keeps_its_path() {
    assert_eq!(
        target_path("site", Some(&segments(&["a", "..", "b.css"]))),
        Some("site/a/../b.css".to_string())
    );
    assert_eq!(target_path("site", Some(&segments(&[]))), Some("site".to_string()));
    assert_eq!(
        target_path("site/", Some(&segments(&["a", ".", "b"]))),
        Some("site/a/./b".to_string())
    );
    assert!(is_inside(&segments(&["a", "b", "..", "..", "c"])));
    assert!(is_inside(&segments(&["...", "x"])));
}

#[test]
fn join_puts_one_separator() {
    assert_eq!(join("site", "index.html"), "site/index.html");
    assert_eq!(join("site/", "index.html"), "site/index.html");
    assert_eq!(join("", "index.html"), "index.html");
    assert_eq!(join("/", "x"), "/x");
    assert_eq!(join("a", ""), "a/");
    assert_eq!(join_all("r", &segments(&["a", "b", "c.txt"])), "r/a/b/c.txt");
    assert_eq!(join_all("r", &segments(&[])), "r");
}

#[test]
fn extension_is_what_follows_the_last_dot_of_the_name() {
    assert_eq!(extension_of("site/index.html"), "html");
    assert_eq!(extension_of("index.html"), "html");
    assert_eq!(extension_of("a.tar.gz"), "gz");
    assert_eq!(extension_of("site.d/readme"), "");
    assert_eq!(extension_of("site/.hidden"), "");
    assert_eq!(extension_of(".hidden"), "");
    assert_eq!(extension_of("site/.hidden.txt"), "txt");
    assert_eq!(extension_of("site/name."), "");
    assert_eq!(extension_of("site/"), "");
    assert_eq!(extension_of(""), "");
    assert_eq!(extension_of("site/caf\u{e9}.\u{e9}t\u{e9}"), "\u{e9}t\u{e9}");
}

#[test]
fn extension_agrees_with_std_on_file_paths() {
    for path in ["a/b.html", "b", ".b", "a.b/c", "a/b.c.d", "a/..", "x.", "a/.b.c"] {
        let std_ext = std::path::Path::new(path).extension().and_then(|e| e.to_str()).unwrap_or("");
        assert_eq!(extension_of(path), std_ext);
    }
}

#[test]
fn join_agrees_with_std_on_relative_paths() {
    for (base, rel) in [("site", "a.txt"), ("site/", "a.txt"), ("", "a"), ("./site", "index.html")] {
        let std_joined = std::path::PathBuf::from(base).join(rel);
        assert_eq!(join(base, rel), std_joined.to_str().unwrap());
    }
}

#[test]
fn media_type_comes_from_the_extension_table() {
    for ext in ["html", "htm", "css", "js", "png", "json", "svg", "PDF", "wasm"] {
        let expected = ContentType::from_extension(ext).unwrap();
        let media = MediaType::for_extension(ext);
        assert_eq!(media.top, expected.top().as_str());
        assert_eq!(media.sub, expected.sub().as_str());
        assert_eq!(media.header, expected.to_string());
        assert_ne!(media.header, ext);
        assert_eq!(media.is_html(), expected == ContentType::HTML);
    }
}

#[test]
fn unknown_extension_is_plain_text() {
    for ext in ["", "unknownext", "html5x"] {
        assert!(ContentType::from_extension(ext).is_none());
        let media = MediaType::for_extension(ext);
        assert_eq!(media, MediaType::plain());
        assert!(!media.is_html());
    }
    let plain = MediaType::plain();
    assert_eq!(plain.top, ContentType::Plain.top().as_str());
    assert_eq!(plain.sub, ContentType::Plain.sub().as_str());
    assert_eq!(plain.header, ContentType::Plain.to_string());
    assert_eq!(plain.header, "text/plain; charset=utf-8");
}

#[test]
fn html_is_told_whatever_the_case() {
    let media = |top: &str, sub: &str| MediaType {
        top: top.to_string(),
        sub: sub.to_string(),
        header: format!("{}/{}", top, sub),
    };
    assert!(media("text", "html").is_html());
    assert!(media("TEXT", "Html").is_html());
    assert!(!media("text", "htm").is_html());
    assert!(!media("text", "htmlx").is_html());
    assert!(!media("text", "xhtml").is_html());
    assert!(!media("application", "html").is_html());
    assert!(!media("text", "plain").is_html());
    assert!(!media("", "").is_html());
}

#[test]
fn respond_as_follows_the_given_type() {
    let html = MediaType::for_extension("html");
    let css = MediaType::for_extension("css");
    let mut with_snippet = b"abc".to_vec();
    with_snippet.extend_from_slice(&reload_snippet(7));
    assert_eq!(
        respond_as(html.clone(), Some(b"abc".to_vec()), 7),
        Response::Found { content_type: html, body: with_snippet }
    );
    assert_eq!(
        respond_as(css.clone(), Some(b"abc".to_vec()), 7),
        Response::Found { content_type: css, body: b"abc".to_vec() }
    );
    assert_eq!(
        respond_as(MediaType::plain(), Some(Vec::new()), 7),
        Response::Found { content_type: MediaType::plain(), body: Vec::new() }
    );
}

#[test]
fn steps_lead_from_request_to_response() {
    let config = Config::default();
    let request = segments(&["docs"]);
    assert_eq!(start("site", Some(&request)), Step::Probe("site/docs".to_string()));
    assert_eq!(after_probe("site/docs", true), Step::Read("site/docs/index.html".to_string()));
    assert_eq!(after_probe("site/a.css", false), Step::Read("site/a.css".to_string()));
    assert_eq!(
        after_read("site/a.css", Some(STYLE.as_bytes().to_vec()), &config),
        Step::Done(respond("site/a.css", Some(STYLE.as_bytes().to_vec()), &config))
    );
    assert_eq!(after_read("site/a.css", None, &config), Step::Done(Response::NotFound));
    assert_eq!(start("site", None), Step::Probe("site/index.html".to_string()));
}

#[test]
fn request_leaving_the_root_is_not_found_at_once() {
    let request = segments(&["..", "secret.txt"]);
    assert_eq!(start("site", Some(&request)), Step::Done(Response::NotFound));
}
