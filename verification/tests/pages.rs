use fileshare::media::MimeType;
use fileshare::metadata::{Metadata, Timestamp};
use fileshare::opengraph::{Content, Image};
use fileshare::template::{HtmlTemplate, BASE_HTML};
use fileshare::templates::embed_template::EmbedTemplate;
use fileshare::templates::error_template::{ErrorTemplate, TEMPLATE};
use fileshare::templates::{render_response, render_safe};

fn meta(name: &str, ext: &str) -> Metadata {
    Metadata {
        name: name.to_string(),
        ext: ext.to_string(),
        size_bytes: 1234,
        creation: Timestamp { secs: 1_700_000_000, nanos: 0 },
    }
}

fn mime(text: &str, top: &str) -> MimeType {
    MimeType { text: text.to_string(), top: top.to_string() }
}

#[test]
fn html_page_is_filled_in() {
    let page = HtmlTemplate::new().body_line("first").body_line(42).build();
    assert_eq!(page, BASE_HTML.replace("{{title}}", "").replace("{{body}}", "first\n42"));
    assert!(page.contains("<body>\nfirst\n42\n</body>"));
}

#[test]
fn empty_html_page() {
    let page = HtmlTemplate::default().build();
    assert_eq!(page, BASE_HTML.replace("{{title}}", "").replace("{{body}}", ""));
}

#[test]
fn error_page_is_filled_in() {
    let page = ErrorTemplate { name: "Oops".to_string(), text: "it broke".to_string() }.render();
    assert_eq!(page, TEMPLATE.replace("{{name}}", "Oops").replace("{{text}}", "it broke"));
    assert!(page.contains("<h1>Oops</h1>") && page.contains("<p>it broke</p>"));
}

#[test]
fn rendered_page_is_kept() {
    assert_eq!(render_safe(Ok("<p>hi</p>".to_string())), "<p>hi</p>");
    let (status, body) = render_response(Ok("<p>hi</p>".to_string()));
    assert_eq!((status, body.as_str()), (200, "<p>hi</p>"));
}

#[test]
fn failed_render_shows_error_page() {
    let expected = TEMPLATE
        .replace("{{name}}", "Failed to render askama template")
        .replace("{{text}}", "missing field");
    assert_eq!(render_safe(Err("missing field".to_string())), expected);
    let (status, body) = render_response(Err("missing field".to_string()));
    assert_eq!(status, 200);
    assert_eq!(body, expected);
}

#[test]
fn image_keeps_its_fields() {
    let i = Image::new("/x.png", "alt text", &mime("image/png", "image"));
    assert_eq!((i.url.as_str(), i.alt.as_str(), i.mime_type.as_str()), ("/x.png", "alt text", "image/png"));
}

#[test]
fn embed_for_audio() {
    let t = EmbedTemplate::from_file("https://f/abc/raw".to_string(), "abc".to_string(), meta("song", "mp3"), mime("audio/mpeg", "audio"));
    assert_eq!(t.title, "song.mp3");
    assert_eq!(t.description, "song.mp3");
    assert_eq!(t.opengraph_type, "music.song");
    assert_eq!(t.icon_url, "/static/icons/audio_icon.png");
    assert_eq!(t.image.url, "/static/icons/audio_icon.png");
    assert_eq!(t.image.alt, "song");
    match t.content {
        Content::Audio(a) => {
            assert_eq!(a.url, "https://f/abc/raw");
            assert_eq!(a.mime_type, "audio/mpeg");
            assert_eq!(a.duration_secs, 100);
            assert_eq!(a.album, None);
            assert_eq!(a.musician, "");
        }
        other => panic!("expected audio, got {:?}", other),
    }
}

#[test]
fn embed_for_video() {
    let t = EmbedTemplate::from_file("u".to_string(), "h".to_string(), meta("clip", "mp4"), mime("video/mp4", "video"));
    assert_eq!(t.opengraph_type, "video.other");
    assert_eq!(t.icon_url, "/static/icons/video_icon.png");
    assert!(matches!(t.content, Content::Video(ref v) if v.url == "u" && v.mime_type == "video/mp4"));
}

#[test]
fn embed_for_image() {
    let t = EmbedTemplate::from_file("u".to_string(), "h".to_string(), meta("pic", "png"), mime("image/png", "image"));
    assert_eq!(t.opengraph_type, "website");
    assert_eq!(t.icon_url, "");
    assert_eq!(t.image.url, "u");
    assert!(matches!(t.content, Content::Image(ref i) if i.url == "u" && i.alt == "pic"));
}

#[test]
fn embed_for_other_files() {
    let t = EmbedTemplate::from_file("u".to_string(), "h".to_string(), meta("notes", ""), mime("text/plain", "text"));
    assert_eq!(t.title, "notes");
    assert_eq!(t.opengraph_type, "website");
    assert_eq!(t.image.url, "/static/icons/question_icon.png");
    assert_eq!(t.image.mime_type, "text/plain");
    assert!(matches!(t.content, Content::Unknown));
    assert_eq!(t.meta.size_bytes, 1234);
}

#[test]
fn download_name_shows_hash() {
    let t = EmbedTemplate::from_file("u".to_string(), "abc".to_string(), meta("pic", "png"), mime("image/png", "image"));
    assert_eq!(t.download_name(), "pic [abc].png");
    let t = EmbedTemplate::from_file("u".to_string(), "abc".to_string(), meta("pic", ""), mime("image/png", "image"));
    assert_eq!(t.download_name(), "pic [abc]");
}
