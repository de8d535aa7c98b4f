use fileshare::extensions::StringExtraTrait;
use fileshare::serve::{hash_of_id, meta_file_name};
use fileshare::upload::{
    content_id, new_temp_file_path, resolve_extension, size_text, temp_file_path,
    upload_file_name, upload_location, upload_names, ContentHasher,
};

const PNG_MAGIC: [u8; 12] = [0x89, 0x50, 0x4E, 0x47, 0x0D, 0x0A, 0x1A, 0x0A, 0, 0, 0, 0x0D];

#[test]
fn content_hash_names_the_upload() {
    let mut h = ContentHasher::new();
    h.update(b"ab");
    h.update(b"");
    h.update(b"c");
    assert_eq!(h.finish(), "ungWv48Bz-pB");
    let mut whole = ContentHasher::new();
    whole.update(b"abc");
    assert_eq!(whole.finish(), "ungWv48Bz-pB");
}

#[test]
fn content_id_is_twelve_base64_characters() {
    let digest: Vec<u8> = (0u8..9).collect();
    assert_eq!(content_id(&digest), "AAECAwQFBgcI");
    assert_eq!(content_id(&[251, 255, 191, 0, 1, 2, 3, 4, 5]), "-_-_AAECAwQF");
}

#[test]
fn temp_path_is_hex_of_random_bytes() {
    assert_eq!(
        temp_file_path(&[0x00, 0x01, 0xab, 0xff, 0x10, 0x20, 0x7f, 0x80]),
        "./media/0001abff10207f80.tmp"
    );
    let p = new_temp_file_path().expect("the system's random source answers");
    assert!(p.starts_with("./media/") && p.ends_with(".tmp"));
    assert_eq!(p.len(), "./media/".len() + 16 + ".tmp".len());
    assert!(p[8..24].chars().all(|c| c.is_ascii_hexdigit() && !c.is_ascii_uppercase()));
}

#[test]
fn extension_from_content_when_none_given() {
    assert_eq!(resolve_extension(String::new(), Some(&PNG_MAGIC)), "png");
    assert_eq!(resolve_extension(String::new(), Some(b"just some text")), "");
    assert_eq!(resolve_extension("JPG".to_string(), Some(&PNG_MAGIC)), "JPG");
    assert_eq!(resolve_extension(String::new(), None), "");
}

#[test]
fn file_name_from_content_disposition() {
    let (n, e) = upload_file_name(Some(b"attachment; filename=\"Photo.JPG\""));
    assert_eq!((n.as_str(), e.as_str()), ("Photo", "jpg"));
    let (n, e) = upload_file_name(Some(b"attachment; filename=\"archive.tar.gz\""));
    assert_eq!((n.as_str(), e.as_str()), ("archive.tar", "gz"));
    let (n, e) = upload_file_name(Some(b"attachment; filename=README"));
    assert_eq!((n.as_str(), e.as_str()), ("", "readme"));
    let (n, e) = upload_file_name(Some(b"inline"));
    assert_eq!((n.as_str(), e.as_str()), ("", ""));
    let (n, e) = upload_file_name(Some(b"attachment; filename=\"caf\xc3\xa9.png\""));
    assert_eq!((n.as_str(), e.as_str()), ("", ""));
    let (n, e) = upload_file_name(None);
    assert_eq!((n.as_str(), e.as_str()), ("", ""));
}

#[test]
fn names_and_location_of_an_upload() {
    let names = upload_names(&"abc".to_string(), "png");
    assert_eq!(names.final_name, "abc.png");
    assert_eq!(names.final_path, "./media/abc.png");
    assert_eq!(names.meta_path, "./media/abc.meta.toml");
    let bare = upload_names(&"abc".to_string(), "");
    assert_eq!(bare.final_name, "abc");
    assert_eq!(upload_location("https", "files.example", "abc"), "https://files.example/abc");
}

#[test]
fn upload_is_found_by_its_id() {
    let mut h = ContentHasher::new();
    h.update(b"hello world");
    let id = h.finish();
    assert_eq!(id, "uU0nuZNNPgil");
    let names = upload_names(&id, "png");
    for requested in [id.clone(), id.with_ext("png")] {
        let hash = hash_of_id(&requested);
        assert_eq!(hash, id);
        assert_eq!(format!("./media/{}", meta_file_name(&hash)), names.meta_path);
        assert_eq!(hash.with_ext("png"), names.final_name);
    }
}

#[test]
fn content_id_alphabet() {
    let mut h = ContentHasher::new();
    h.update(&[0xfb; 100]);
    let id = h.finish();
    assert_eq!(id.len(), 12);
    assert!(id.chars().all(|c| c.is_ascii_alphanumeric() || c == '-' || c == '_'));
}

#[test]
fn sizes_in_si_units() {
    assert_eq!(size_text(999), "999 B");
    assert_eq!(size_text(1500), "1.5 kB");
}
