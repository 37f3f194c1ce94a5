use openrust_core::read::{
    image_payload, file_size_error, image_mime_type, is_binary_content, is_binary_path, is_image_path,
    path_extension, read_dir_listing, read_file_listing, sort_entries, str_le,
};

#[test]
fn binary_detection_by_extension() {
    assert!(is_binary_path("app.exe"));
    assert!(is_binary_path("lib.so"));
    assert!(is_binary_path("image.png"));
    assert!(!is_binary_path("main.rs"));
    assert!(!is_binary_path("README.md"));
}

#[test]
fn binary_detection_by_content() {
    let mut data = vec![b'H', b'i', 0, b'!'];
    data.extend(vec![b' '; 8192]);
    let s = String::from_utf8_lossy(&data).to_string();
    assert!(is_binary_content(&s));
    assert!(!is_binary_content("Hello world"));
}

#[test]
fn zero_byte_past_the_window_is_not_binary() {
    let mut s = " ".repeat(8192);
    s.push('\0');
    assert!(!is_binary_content(&s));
    let mut t = " ".repeat(8191);
    t.push('\0');
    assert!(is_binary_content(&t));
}

#[test]
fn extensions_follow_path_rules() {
    assert_eq!(path_extension("a/b/c.TXT"), Some("TXT".to_string()));
    assert_eq!(path_extension(".bashrc"), None);
    assert_eq!(path_extension("dir/.hidden"), None);
    assert_eq!(path_extension("archive.tar.gz"), Some("gz".to_string()));
    assert_eq!(path_extension("noext"), None);
    assert_eq!(path_extension("trailing."), Some("".to_string()));
    assert_eq!(path_extension("x.png/"), Some("png".to_string()));
    assert_eq!(path_extension("x.png/."), Some("png".to_string()));
    assert_eq!(path_extension("x.png/.."), None);
    assert_eq!(path_extension("/"), None);
    assert!(is_binary_path("PHOTO.JPG"));
    assert!(is_image_path("icon.Svg"));
    assert!(!is_image_path("a.exe"));
    assert_eq!(image_mime_type("x.JPEG"), "image/jpeg");
    assert_eq!(image_mime_type("x.ico"), "image/x-icon");
    assert_eq!(image_mime_type("x"), "image/png");
}

#[test]
fn file_listing_numbers_lines() {
    assert_eq!(
        read_file_listing("a\nb\nc\n", 1, 2),
        Ok("     1: a\n     2: b\n... (1 lines remaining)".to_string())
    );
    assert_eq!(read_file_listing("a\nb\nc", 2, 2000), Ok("     2: b\n     3: c".to_string()));
    assert_eq!(
        read_file_listing("a\n", 3, 10),
        Err("File has 1 lines, offset 3 out of range.".to_string())
    );
    assert_eq!(
        read_file_listing("a", 0, 10),
        Err("File has 1 lines, offset 0 out of range.".to_string())
    );
    assert_eq!(file_size_error(10), None);
    assert_eq!(
        file_size_error(10485761),
        Some("File too large: 10485761 bytes (max 10485760 bytes). Use bash tools for large files.".to_string())
    );
}

#[test]
fn directory_listing_is_sorted() {
    let entries = vec!["b.rs".to_string(), "a/".to_string(), "C".to_string(), "ä".to_string()];
    assert_eq!(
        sort_entries(entries.clone()),
        vec!["C".to_string(), "a/".to_string(), "b.rs".to_string(), "ä".to_string()]
    );
    assert_eq!(
        read_dir_listing(entries.clone(), 2, 2),
        Ok("     2: a/\n     3: b.rs\n... (1 entries remaining)".to_string())
    );
    assert_eq!(
        read_dir_listing(entries, 9, 2),
        Err("Directory has 4 entries, offset 9 out of range.".to_string())
    );
    assert!(str_le("ab", "abc"));
    assert!(!str_le("abc", "ab"));
    assert!(str_le("", ""));
}

#[test]
fn images_are_encoded_and_described() {
    let p = image_payload("shot.PNG", b"hi!x").ok().unwrap();
    assert_eq!(p.mime_type, "image/png");
    assert_eq!(p.base64_data, "aGkheA==");
    assert_eq!(p.description, "(image: image/png at shot.PNG, 4 bytes)");
    let q = image_payload("a.jpg", b"").ok().unwrap();
    assert_eq!((q.mime_type.as_str(), q.base64_data.as_str()), ("image/jpeg", ""));
    let big = vec![0u8; 10485761];
    assert_eq!(
        image_payload("a.gif", &big).err().unwrap(),
        "Image too large: 10485761 bytes (max 10485760 bytes). Use external tools."
    );
}
