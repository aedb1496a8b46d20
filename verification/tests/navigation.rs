use liber::content::{ContentBuilder, ReferenceType};
use liber::content_reference::ContentReference;
use liber::epub_builder::EpubBuilder;
use liber::metadata::{Identifier, MetadataBuilder};
use liber::ncx::{content_references_to_nav_point, contents_to_nav_point, toc_ncx};

fn cleaner(xml: String) -> String {
    xml.replace("\n", "").replace(" ".repeat(12).as_str(), "")
}

#[test]
fn test_toc_ncx_simple_content() {
    let mock_epub = EpubBuilder::new(
        MetadataBuilder::title("Title")
            .identifier(Identifier::UUID("mock-epub-id".to_string()))
            .build(),
    )
    .add_content(
        ContentBuilder::new(
            "<body><h1>Chapter I</h1></body>".as_bytes().to_vec(),
            ReferenceType::Text("Chapter I".to_string()),
        )
        .build(),
    )
    .add_content(
        ContentBuilder::new(
            "<body><h1>Chapter II</h1></body>".as_bytes().to_vec(),
            ReferenceType::Text("Chapter II".to_string()),
        )
        .build(),
    );

    let result = toc_ncx(&mock_epub.0);

    assert!(result.is_ok());
    let file_content = result.unwrap();

    assert_eq!(file_content.filepath, "OEBPS/toc.ncx");

    let content = cleaner(file_content.bytes);
    assert!(content.contains(r#"<meta name="dtb:uid" content="urn:uuid:mock-epub-id"/>"#));
    assert!(content.contains(r#"<meta name="dtb:depth" content="1"/>"#));
    assert!(content.contains(r#"<docTitle><text>Title</text></docTitle>"#));
    assert!(content.contains(r#"<navPoint id="navPoint-1" playOrder="1"><navLabel><text>Chapter I</text></navLabel><content src="c01.xhtml"/></navPoint>"#));
    assert!(content.contains(r#"<navPoint id="navPoint-2" playOrder="2"><navLabel><text>Chapter II</text></navLabel><content src="c02.xhtml"/></navPoint>"#));
    assert!(content.ends_with(r#"</navMap></ncx>"#));
}

#[test]
fn test_toc_ncx_no_content() {
    let mock_epub = EpubBuilder::new(MetadataBuilder::title("Empty Book").build());
    let result = toc_ncx(&mock_epub.0);

    assert!(result.is_ok());
    let file_content = result.unwrap();

    let content = file_content.bytes;
    assert!(content.contains(r#"<docTitle><text>Empty Book</text></docTitle><navMap>"#));
    assert!(content.contains(r#"<meta name="dtb:totalPageCount" content="0"/>"#));
    assert!(
        content.ends_with(r#"<docTitle><text>Empty Book</text></docTitle><navMap></navMap></ncx>"#)
    );
}

#[test]
fn test_contents_to_nav_point_nested() {
    let mock_epub = EpubBuilder::new(MetadataBuilder::title("Title").build())
        .add_content(
            ContentBuilder::new(
                "<body><h1>Main Chapter</h1></body>".as_bytes().to_vec(),
                ReferenceType::Text("Main Chapter".to_string()),
            )
            .add_children(vec![
                ContentBuilder::new(
                    "<body><h1>Section 1.1</h1></body>".as_bytes().to_vec(),
                    ReferenceType::Text("Section 1.1".to_string()),
                )
                .build(),
                ContentBuilder::new(
                    "<body><h1>Section 1.2</h1></body>".as_bytes().to_vec(),
                    ReferenceType::Text("Section 1.2".to_string()),
                )
                .build(),
            ])
            .build(),
        )
        .add_content(
            ContentBuilder::new(
                "<body><h1>Next Chapter</h1></body>".as_bytes().to_vec(),
                ReferenceType::Text("Next Chapter".to_string()),
            )
            .build(),
        );

    let mut play_order = 0;
    let mut file_number = 0;

    let result =
        contents_to_nav_point(&mut play_order, &mut file_number, &mock_epub.0.contents.unwrap());

    assert!(result.is_some());
    let xml = cleaner(result.unwrap());

    assert!(xml.contains(r#"<navPoint id="navPoint-1" playOrder="1"><navLabel><text>Main Chapter</text></navLabel><content src="c01.xhtml"/>"#));
    assert!(xml.contains(r#"<navPoint id="navPoint-2" playOrder="2"><navLabel><text>Section 1.1</text></navLabel><content src="c02.xhtml"/></navPoint>"#));
    assert!(xml.contains(r#"<navPoint id="navPoint-3" playOrder="3"><navLabel><text>Section 1.2</text></navLabel><content src="c03.xhtml"/></navPoint>"#));
    assert!(xml.contains(r#"<navPoint id="navPoint-4" playOrder="4"><navLabel><text>Next Chapter</text></navLabel><content src="c04.xhtml"/></navPoint>"#));

    assert_eq!(play_order, 4);
}

#[test]
fn test_contents_to_nav_point_with_references() {
    let mock_epub = EpubBuilder::new(MetadataBuilder::title("With Refs").build()).add_content(
        ContentBuilder::new(
            "<body><h1>Chapter with Refs</h1></body>".as_bytes().to_vec(),
            ReferenceType::Text("Chapter with Refs".to_string()),
        )
        .add_content_references(vec![
            ContentReference::new("Ref A"),
            ContentReference::new("Ref B"),
        ])
        .build(),
    );

    let mut play_order = 0;
    let mut file_number = 0;

    let result =
        contents_to_nav_point(&mut play_order, &mut file_number, &mock_epub.0.contents.unwrap());
    assert!(result.is_some());
    let xml = cleaner(result.unwrap());

    assert!(xml.contains(r#"<navPoint id="navPoint-1" playOrder="1"><navLabel><text>Chapter with Refs</text></navLabel><content src="c01.xhtml"/>"#));
    assert!(xml.contains(r#"<navPoint id="navPoint-1-1" playOrder="2"><navLabel><text>Ref A</text></navLabel><content src="c01.xhtml#id01"/></navPoint>"#));
    assert!(xml.contains(r#"<navPoint id="navPoint-1-2" playOrder="3"><navLabel><text>Ref B</text></navLabel><content src="c01.xhtml#id02"/></navPoint>"#));
    assert_eq!(play_order, 3);
}

#[test]
fn test_content_references_to_nav_point_nested() {
    let content_references = vec![
        ContentReference::new("Level 1 Ref 1").add_child(
            ContentReference::new("Level 2 Ref 1")
                .add_child(ContentReference::new("Level 3 Ref 1")),
        ),
        ContentReference::new("Level 1 Ref 2").id("four"),
    ];

    let mut play_order = 10;
    let mut link_number = 0;

    let result = content_references_to_nav_point(
        (5, "some.xhtml"),
        &mut play_order,
        "",
        &content_references,
        &mut link_number,
    );

    assert!(result.is_some());
    let xml = cleaner(result.unwrap());

    assert!(xml.contains(r#"<navPoint id="navPoint-5-1" playOrder="11"><navLabel><text>Level 1 Ref 1</text></navLabel><content src="some.xhtml#id01"/>"#));
    assert!(xml.contains(r#"<navPoint id="navPoint-5-1-1" playOrder="12"><navLabel><text>Level 2 Ref 1</text></navLabel><content src="some.xhtml#id02"/>"#));
    assert!(xml.contains(r#"<navPoint id="navPoint-5-1-1-1" playOrder="13"><navLabel><text>Level 3 Ref 1</text></navLabel><content src="some.xhtml#id03"/></navPoint>"#));
    assert!(xml.contains(r#"<navPoint id="navPoint-5-2" playOrder="14"><navLabel><text>Level 1 Ref 2</text></navLabel><content src="some.xhtml#four"/></navPoint>"#));
    assert_eq!(play_order, 14);
    assert_eq!(link_number, 4);
}

#[test]
fn test_nested_reference_anchors_and_ids() {
    let refs = vec![
        ContentReference::new("First").add_child(ContentReference::new("Inner")),
        ContentReference::new("Second"),
    ];
    let mut play_order = 0;
    let mut link_number = 0;

    let xml = cleaner(
        content_references_to_nav_point(
            (3, "c03.xhtml"),
            &mut play_order,
            "",
            &refs,
            &mut link_number,
        )
        .unwrap(),
    );

    // Anchors without explicit ids are numbered depth-first within the
    // owning file's chain; hierarchical ids carry the file number.
    assert!(xml.contains(r##"<content src="c03.xhtml#id01"/>"##));
    assert!(xml.contains(r##"<content src="c03.xhtml#id02"/>"##));
    assert!(xml.contains(r##"<content src="c03.xhtml#id03"/>"##));
    assert!(xml.contains(r#"id="navPoint-3-1""#));
    assert!(xml.contains(r#"id="navPoint-3-1-1""#));
    assert!(xml.contains(r#"id="navPoint-3-2""#));
    assert_eq!(play_order, 3);
    assert_eq!(link_number, 3);
}

#[test]
fn test_ncx_and_opf_agree_on_filenames() {
    // References consume play-order ticks but no numbering slots: the
    // unit after a reference chain still gets the next sequential file,
    // and the navigation map points at the same filename the manifest
    // and spine assign.
    let builder = EpubBuilder::new(MetadataBuilder::title("Agreement").build())
        .add_content(
            ContentBuilder::new(
                b"<body>one</body>".to_vec(),
                ReferenceType::Text("One".to_string()),
            )
            .add_content_references(vec![
                ContentReference::new("Ref A"),
                ContentReference::new("Ref B"),
            ])
            .build(),
        )
        .add_content(
            ContentBuilder::new(
                b"<body>two</body>".to_vec(),
                ReferenceType::Text("Two".to_string()),
            )
            .build(),
        );

    let opf = liber::opf::content_opf(&builder.0).unwrap().bytes;
    assert!(opf.contains(r#"<itemref idref="c01.xhtml"/>"#));
    assert!(opf.contains(r#"<itemref idref="c02.xhtml"/>"#));
    assert!(!opf.contains("c03.xhtml"));
    assert!(!opf.contains("c04.xhtml"));

    let ncx = cleaner(toc_ncx(&builder.0).unwrap().bytes);
    // The second unit is the fourth navPoint (after the two references)
    // but still the second content file.
    assert!(ncx.contains(r#"<navPoint id="navPoint-4" playOrder="4"><navLabel><text>Two</text></navLabel><content src="c02.xhtml"/></navPoint>"#));
    assert!(!ncx.contains("c04.xhtml"));
}
