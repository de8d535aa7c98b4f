use fileshare::extensions::{header_to_str, header_value_string};
use fileshare::media::{select_mime, MimeType};
use fileshare::serve::{hash_of_id, is_raw, meta_file_name, mime_supported, serve_urls, ServeType};

fn mime(text: &str, top: &str) -> MimeType {
    MimeType { text: text.to_string(), top: top.to_string() }
}

#[test]
fn urls_drop_preview() {
    let (url, raw) = serve_urls("https://files.example/abc/preview");
    assert_eq!(url, "https://files.example/abc");
    assert_eq!(raw, "https://files.example/abc/raw");
}

#[test]
fn hash_ignores_extension() {
    assert_eq!(hash_of_id("ungWv48Bz-pB.png"), "ungWv48Bz-pB");
    assert_eq!(hash_of_id("ungWv48Bz-pB"), "ungWv48Bz-pB");
    assert_eq!(hash_of_id("a.tar.gz"), "a");
    assert_eq!(hash_of_id(".hidden"), "");
    assert_eq!(meta_file_name("abc"), "abc.meta.toml");
}

#[test]
fn preview_and_raw_requests() {
    let png = mime("image/png", "image");
    assert!(!is_raw(ServeType::Preview, Some("curl/8.0"), Some("image/png"), &png));
    assert!(is_raw(ServeType::Raw, Some("Mozilla/5.0"), None, &png));
}

#[test]
fn discord_gets_images_and_videos_raw() {
    let ua = Some("Mozilla/5.0 (compatible; Discordbot/2.0; +https://discordapp.com)");
    assert!(is_raw(ServeType::Default, ua, None, &mime("image/png", "image")));
    assert!(is_raw(ServeType::Default, ua, None, &mime("video/mp4", "video")));
    assert!(!is_raw(ServeType::Default, ua, None, &mime("audio/mpeg", "audio")));
}

#[test]
fn whatsapp_and_halloy_get_images_raw() {
    assert!(is_raw(ServeType::Default, Some("WhatsApp/2.23"), None, &mime("image/png", "image")));
    assert!(!is_raw(ServeType::Default, Some("WhatsApp/2.23"), None, &mime("video/mp4", "video")));
    assert!(is_raw(ServeType::Default, Some("halloy/2024.1"), Some("*/*"), &mime("image/gif", "IMAGE")));
}

#[test]
fn other_clients_need_the_type_by_name() {
    let png = mime("image/png", "image");
    assert!(is_raw(ServeType::Default, Some("curl/8.0"), Some("text/html, Image/PNG;q=0.9"), &png));
    assert!(!is_raw(ServeType::Default, Some("curl/8.0"), Some("*/*"), &png));
    assert!(!is_raw(ServeType::Default, None, None, &png));
}

#[test]
fn browsers_get_the_page() {
    let png = mime("image/png", "image");
    let ua = Some("Mozilla/5.0 (X11; Linux x86_64) Firefox/120.0");
    assert!(!is_raw(ServeType::Default, ua, Some("image/png"), &png));
}

#[test]
fn accept_entries_are_cut_trimmed_and_lowercased() {
    assert!(mime_supported("application/xhtml+xml", "application/xhtml"));
    assert!(mime_supported(" IMAGE/SVG+xml ;q=1", "image/svg"));
    assert!(!mime_supported("*/*", "image/png"));
    assert!(!mime_supported("a/", "a/"));
    assert!(mime_supported("a/b", "A/B"));
}

#[test]
fn media_types_are_guessed() {
    let m = select_mime("png", "/srv/media/abc.png");
    assert_eq!(m, mime("image/png", "image"));
    let m = select_mime("", "/srv/media/abc.mp4");
    assert_eq!(m, mime("video/mp4", "video"));
    let m = select_mime("", "/srv/media/abc");
    assert_eq!(m, mime("application/octet-stream", "application"));
}

#[test]
fn header_values_as_text() {
    assert_eq!(header_value_string(b"text/html"), "text/html");
    assert_eq!(header_value_string(b"caf\xc3\xa9"), "café");
    assert_eq!(header_value_string(b"bad\xff"), "bad\u{fffd}");
    assert_eq!(header_to_str(b"caf\xc3\xa9"), None);
    assert_eq!(header_value_string(b"f\xff"), "f\u{fffd}");
    assert_eq!(header_to_str(b"a\tb"), Some("a\tb".to_string()));
}
