use liber::resource::{ImageType, Resource};
use liber::stylesheet::Stylesheet;

#[test]
fn test_resource_media_type_image() {
    let path = "test.jpg";
    let resource = Resource::Image(path.to_string(), ImageType::Jpg);
    assert_eq!(resource.media_type(), "image/jpeg");

    let resource = Resource::Image(path.to_string(), ImageType::Png);
    assert_eq!(resource.media_type(), "image/png");
}

#[test]
fn test_resource_media_type_other() {
    assert_eq!(
        Resource::Font("test.otf".to_string()).media_type(),
        "application/vnd.ms-opentype"
    );

    assert_eq!(Resource::Audio("test.mp3".to_string()).media_type(), "audio/mpeg");

    assert_eq!(Resource::Video("test.mp4".to_string()).media_type(), "video/mp4");
}

#[test]
fn test_resource_filename_valid() {
    let resource = Resource::Image("/path/to/some/file.png".to_string(), ImageType::Png);
    assert_eq!(resource.filename().unwrap(), "file.png");

    let resource = Resource::Image("just_a_file.gif".to_string(), ImageType::Gif);
    assert_eq!(resource.filename().unwrap(), "just_a_file.gif");

    let resource = Resource::Font("assets/font.otf".to_string());
    assert_eq!(resource.filename().unwrap(), "font.otf");
}

#[test]
fn test_resource_filename_normalised_paths() {
    // Trailing separators and `.` segments are normalised away, as the
    // standard library's path handling does.
    assert_eq!(Resource::Font("a/b/".to_string()).filename().unwrap(), "b");
    assert_eq!(Resource::Font("foo.txt/.".to_string()).filename().unwrap(), "foo.txt");
    assert_eq!(Resource::Font("foo.txt/.//".to_string()).filename().unwrap(), "foo.txt");
}

#[test]
fn test_resource_filename_missing() {
    let resource = Resource::Font("a/..".to_string());
    match resource.filename() {
        Err(liber::Error::FilenameNotFound(p)) => assert_eq!(p, "a/.."),
        other => panic!("expected a filename-not-found error, got {:?}", other),
    }

    assert!(Resource::Audio(String::new()).filename().is_err());
    assert!(Resource::Audio("/".to_string()).filename().is_err());
    assert!(Resource::Audio(".".to_string()).filename().is_err());
}

#[test]
fn test_resource_display_trait() {
    let resource = Resource::Image("/some/long/path/file.svg".to_string(), ImageType::Svg);
    assert_eq!(resource.to_string(), "/some/long/path/file.svg");

    let resource = Resource::Font("font.otf".to_string());
    assert_eq!(resource.to_string(), "font.otf");
}

#[test]
fn test_resource_as_manifest_xml() {
    let resource = Resource::Font("assets/font.otf".to_string());
    assert_eq!(
        resource.as_manifest_xml().unwrap(),
        r#"<item id="font.otf" href="font.otf" media-type="application/vnd.ms-opentype"/>"#
    );

    let resource = Resource::Font("assets/..".to_string());
    assert!(resource.as_manifest_xml().is_none());
}

#[test]
fn test_stylesheet_file_content() {
    let sheet = Stylesheet::new(b"body { color: red; }".to_vec());
    let fc = sheet.file_content();
    assert_eq!(fc.filepath, "OEBPS/style.css");
    assert_eq!(fc.bytes, b"body { color: red; }");
}
