use std::io::Read;

use liber::content::{ContentBuilder, ReferenceType};
use liber::content_reference::ContentReference;
use liber::creator::{EpubFile, ZipCompression};
use liber::epub_builder::EpubBuilder;
use liber::metadata::{Identifier, MetadataBuilder};
use liber::opf::content_opf;
use liber::resource::{ImageType, Resource};

fn small_builder() -> EpubBuilder {
    EpubBuilder::new(
        MetadataBuilder::title("Title")
            .identifier(Identifier::UUID("mock-epub-id".to_string()))
            .build(),
    )
    .stylesheet(b"body { color: red; }".to_vec())
    .cover_image("art/cover.png", ImageType::Png)
    .add_resource(Resource::Font("fonts/SomeFont.ttf".to_string()))
    .add_content(
        ContentBuilder::new(
            "<body><h1>Part I</h1></body>".as_bytes().to_vec(),
            ReferenceType::TitlePage("Part I".to_string()),
        )
        .add_child(
            ContentBuilder::new(
                "<body><h1>Chapter 1</h1></body>".as_bytes().to_vec(),
                ReferenceType::Text("Chapter 1".to_string()),
            )
            .add_content_reference(ContentReference::new("Content 1.1"))
            .add_content_reference(
                ContentReference::new("Content 1.2")
                    .add_child(ContentReference::new("Content 1.2.1")),
            )
            .build(),
        )
        .build(),
    )
    .add_content(
        ContentBuilder::new(
            "<body><h1>Part II</h1></body>".as_bytes().to_vec(),
            ReferenceType::TitlePage("Part II".to_string()),
        )
        .build(),
    )
}

fn loads() -> (Option<Result<Vec<u8>, liber::Error>>, Vec<Result<Vec<u8>, liber::Error>>) {
    (Some(Ok(b"dummy image data".to_vec())), vec![Ok(b"dummy font data".to_vec())])
}

#[test]
fn test_create_complete_epub() {
    let (cover, resources) = loads();
    let bytes = small_builder().create(cover, resources).unwrap();
    assert!(!bytes.is_empty());

    let mut archive = zip::ZipArchive::new(std::io::Cursor::new(bytes)).unwrap();
    let names: Vec<String> = (0..archive.len())
        .map(|i| archive.by_index(i).unwrap().name().to_string())
        .collect();
    assert_eq!(
        names,
        vec![
            "mimetype",
            "META-INF/container.xml",
            "META-INF/com.apple.ibooks.display-options.xml",
            "OEBPS/style.css",
            "OEBPS/cover.png",
            "OEBPS/SomeFont.ttf",
            "OEBPS/c01.xhtml",
            "OEBPS/c02.xhtml",
            "OEBPS/c03.xhtml",
            "OEBPS/content.opf",
            "OEBPS/toc.ncx",
        ]
    );
}

#[test]
fn test_mimetype_first_and_stored() {
    // Whatever compression the caller picks, the first entry is the
    // mimetype file, stored uncompressed.
    for compression in [ZipCompression::Stored, ZipCompression::Deflated] {
        let (cover, resources) = loads();
        let bytes =
            small_builder().create_with_compression(cover, resources, compression).unwrap();
        let mut archive = zip::ZipArchive::new(std::io::Cursor::new(bytes)).unwrap();
        let mut first = archive.by_index(0).unwrap();
        assert_eq!(first.name(), "mimetype");
        assert_eq!(first.compression(), zip::CompressionMethod::Stored);
        let mut text = String::new();
        first.read_to_string(&mut text).unwrap();
        assert_eq!(text, "application/epub+zip");
    }
}

#[test]
fn test_failed_resource_read_aborts_creation() {
    let cover = Some(Ok(b"dummy image data".to_vec()));
    let resources = vec![Err(liber::Error::Io("resource unreadable".to_string()))];
    let result = small_builder().create(cover, resources);
    match result {
        Err(liber::Error::Io(msg)) => assert_eq!(msg, "resource unreadable"),
        other => panic!("expected the injected read failure, got {:?}", other),
    }
}

#[test]
fn test_failed_cover_read_aborts_creation() {
    let cover = Some(Err(liber::Error::Io("cover unreadable".to_string())));
    let resources = vec![Ok(b"dummy font data".to_vec())];
    let result = small_builder().create(cover, resources);
    assert!(matches!(result, Err(liber::Error::Io(_))));
}

#[test]
fn test_bad_filename_override_fails_anywhere() {
    // An explicit override without the required extension fails the whole
    // generation, wherever the node sits in the tree.
    let nested_bad = ContentBuilder::new(
        b"<body>p</body>".to_vec(),
        ReferenceType::Text("Parent".to_string()),
    )
    .add_child(
        ContentBuilder::new(b"<body>c</body>".to_vec(), ReferenceType::Text("Child".to_string()))
            .filename("notes.txt")
            .build(),
    )
    .build();

    let builder = EpubBuilder::new(MetadataBuilder::title("T").build()).add_content(nested_bad);
    match content_opf(&builder.0) {
        Err(liber::Error::ContentFilename(name)) => assert_eq!(name, "notes.txt"),
        other => panic!("expected a content-filename error, got {:?}", other),
    }

    let builder = EpubBuilder::new(MetadataBuilder::title("T").build()).add_content(
        ContentBuilder::new(b"<body>x</body>".to_vec(), ReferenceType::Text("X".to_string()))
            .filename("also-bad.html")
            .build(),
    );
    let result = builder.create(None, vec![]);
    assert!(matches!(result, Err(liber::Error::ContentFilename(_))));
}

#[test]
fn test_content_opf_sections() {
    let builder = small_builder();
    let opf = content_opf(&builder.0).unwrap();
    assert_eq!(opf.filepath, "OEBPS/content.opf");
    let text = opf.bytes;
    assert!(text.contains("<dc:title>Title</dc:title>"));
    assert!(text.contains("<dc:language>en</dc:language>"));
    assert!(text.contains(
        r#"<dc:identifier id="BookId" opf:scheme="UUID">urn:uuid:mock-epub-id</dc:identifier>"#
    ));
    assert!(text.contains(r#"<meta name="cover" content="cover.png"/>"#));
    assert!(text.contains(r#"<item id="style.css" href="style.css" media-type="text/css"/>"#));
    assert!(text.contains(
        r#"<item id="SomeFont.ttf" href="SomeFont.ttf" media-type="application/vnd.ms-opentype"/>"#
    ));
    // Manifest, spine and guide all re-derive the same numbering.
    assert!(text.contains(
        r#"<item id="c01.xhtml" href="c01.xhtml" media-type="application/xhtml+xml"/>"#
    ));
    assert!(text.contains(r#"<itemref idref="c01.xhtml"/>"#));
    assert!(text.contains(r#"<itemref idref="c02.xhtml"/>"#));
    assert!(text.contains(r#"<itemref idref="c03.xhtml"/>"#));
    assert!(text.contains(
        r#"<reference type="title-page" title="Part I" href="c01.xhtml"/>"#
    ));
    assert!(text.contains(r#"<reference type="text" title="Chapter 1" href="c02.xhtml"/>"#));
    assert!(text.contains(
        r#"<reference type="title-page" title="Part II" href="c03.xhtml"/>"#
    ));
    assert!(text.ends_with("</guide></package>"));
}

#[test]
fn test_guide_lists_only_roots_and_direct_children() {
    let grandchild = ContentBuilder::new(
        b"<body>g</body>".to_vec(),
        ReferenceType::Text("Grandchild".to_string()),
    )
    .build();
    let child = ContentBuilder::new(
        b"<body>c</body>".to_vec(),
        ReferenceType::Text("Child".to_string()),
    )
    .add_child(grandchild)
    .build();
    let root = ContentBuilder::new(
        b"<body>r</body>".to_vec(),
        ReferenceType::Text("Root".to_string()),
    )
    .add_child(child)
    .build();
    let builder = EpubBuilder::new(MetadataBuilder::title("T").build()).add_content(root);
    let text = content_opf(&builder.0).unwrap().bytes;

    // The grandchild is in the manifest and spine under its pre-order
    // number, but not in the guide.
    assert!(text.contains(r#"<itemref idref="c03.xhtml"/>"#));
    assert!(text.contains(r#"<reference type="text" title="Root" href="c01.xhtml"/>"#));
    assert!(text.contains(r#"<reference type="text" title="Child" href="c02.xhtml"/>"#));
    assert!(!text.contains(r#"<reference type="text" title="Grandchild" href="c03.xhtml"/>"#));
}

#[test]
fn test_plan_orders_entries() {
    let (cover, resources) = loads();
    let builder = small_builder();
    let file = EpubFile::new(builder.0, ZipCompression::Deflated);
    let entries = file.plan(cover, resources).unwrap();
    assert_eq!(entries[0].path, "mimetype");
    assert!(entries[0].stored);
    assert_eq!(entries[1].path, "META-INF/container.xml");
    assert!(!entries[1].stored);
    assert_eq!(entries.last().unwrap().path, "OEBPS/toc.ncx");
}

#[test]
fn test_epub_builder_new() {
    let metadata = MetadataBuilder::title("Title").build();
    let builder = EpubBuilder::new(metadata);

    assert!(builder.0.stylesheet.is_none());
}

#[test]
fn test_epub_builder_stylesheet_raw() {
    let metadata = MetadataBuilder::title("Title").build();

    let stylesheet_content = "body { color: red; }";
    let builder = EpubBuilder::new(metadata).stylesheet(stylesheet_content.as_bytes().to_vec());

    if let Some(stylesheet) = builder.0.stylesheet {
        assert_eq!(stylesheet, "body { color: red; }".as_bytes());
    } else {
        panic!("Stylesheet was not set to raw content");
    }
}

#[test]
fn test_xml_format_reports_offset() {
    match liber::xml::format("<open><oops></open>") {
        Err(liber::Error::XmlParser(pos, _)) => assert!(pos > 0),
        other => panic!("expected an XML parsing error, got {:?}", other),
    }
}

#[test]
fn test_xml_format_indents() {
    let formatted = liber::xml::format("<a><b>t</b></a>").unwrap();
    assert_eq!(formatted, "<a>\n  <b>t</b>\n</a>");
}
