use liber::metadata::{Date, Identifier, Language, MetadataBuilder};

fn get_test_identifier() -> Identifier {
    Identifier::ISBN("978-3-16-148410-0".to_string())
}

#[test]
fn test_metadata_builder_new() {
    let title = "The Rust Programming Language";
    let language = Language::English;
    let identifier = get_test_identifier();

    let metadata = MetadataBuilder::title(title)
        .language(language)
        .identifier(identifier)
        .build();

    assert_eq!(metadata.title, title);
    assert!(matches!(metadata.language, Language::English));
    assert!(matches!(metadata.identifier, Identifier::ISBN(_)));

    assert_eq!(metadata.creator, None);
    assert_eq!(metadata.publisher, None);
    assert!(metadata.date.is_some());
    assert_eq!(metadata.subject, None);
    assert_eq!(metadata.description, None);
}

#[test]
fn test_metadata_builder_full() {
    let title = "The Hitchhiker's Guide to the Galaxy";
    let language = Language::English;
    let identifier = get_test_identifier();

    let creator = "Douglas Adams";
    let publisher = "Pan Books";
    let subject = "Science Fiction";
    let description = "A comic science fiction series created by Douglas Adams.";

    let metadata = MetadataBuilder::title(title)
        .language(language)
        .identifier(identifier)
        .creator(creator)
        .publisher(publisher)
        .date(Date { year: 1979, month: 10, day: 12 })
        .subject(subject)
        .description(description)
        .build();

    assert_eq!(metadata.creator, Some(creator.to_string()));
    assert_eq!(metadata.contributor, None);
    assert_eq!(metadata.publisher, Some(publisher.to_string()));
    assert_eq!(metadata.date, Some(Date { year: 1979, month: 10, day: 12 }));
    assert_eq!(metadata.date.unwrap().to_text(), "1979-10-12");
    assert_eq!(metadata.subject, Some(subject.to_string()));
    assert_eq!(metadata.description, Some(description.to_string()));
}

#[test]
fn test_identifier_default_uuid() {
    let default_identifier = Identifier::default();

    assert!(default_identifier.as_urn().starts_with("urn:uuid:"));
    match default_identifier {
        Identifier::UUID(value) => {
            assert!(uuid::Uuid::parse_str(&value).is_ok());
        }
        _ => panic!("Default identifier was not a UUID"),
    }
}

#[test]
fn test_identifier_xml() {
    let id = Identifier::UUID("mock-epub-id".to_string());
    assert_eq!(
        id.as_metadata_xml(),
        r#"<dc:identifier id="BookId" opf:scheme="UUID">urn:uuid:mock-epub-id</dc:identifier>"#
    );
    assert_eq!(id.as_toc_xml(), r#"<meta name="dtb:uid" content="urn:uuid:mock-epub-id"/>"#);

    let isbn = Identifier::ISBN("978-3-16-148410-0".to_string());
    assert_eq!(isbn.as_urn(), "urn:isbn:978-3-16-148410-0");
    assert_eq!(isbn.scheme_name(), "ISBN");
}

#[test]
fn test_language_xml() {
    assert_eq!(Language::English.as_ref(), "en");
    assert_eq!(Language::Yiddish.as_ref(), "yi");
    assert_eq!(Language::French.as_metadata_xml(), "<dc:language>fr</dc:language>");
    assert!(matches!(Language::default(), Language::English));
}

#[test]
fn test_date_text_padding() {
    assert_eq!(Date { year: 5, month: 1, day: 2 }.to_text(), "0005-01-02");
    assert_eq!(Date { year: 476, month: 9, day: 4 }.to_text(), "0476-09-04");
    assert_eq!(Date { year: 2024, month: 12, day: 31 }.to_text(), "2024-12-31");
}

#[test]
fn test_metadata_xml_fields() {
    let metadata = MetadataBuilder::title("T")
        .creator("A")
        .contributor("B")
        .publisher("P")
        .subject("S")
        .description("D")
        .build();
    assert_eq!(metadata.title_as_metadata_xml(), "<dc:title>T</dc:title>");
    assert_eq!(
        metadata.creator_as_metadata_xml().unwrap(),
        r#"<dc:creator opf:role="aut">A</dc:creator>"#
    );
    assert_eq!(
        metadata.contributor_as_metadata_xml().unwrap(),
        r#"<dc:contributor opf:role="trl">B</dc:contributor>"#
    );
    assert_eq!(metadata.publisher_as_metadata_xml().unwrap(), "<dc:publisher>P</dc:publisher>");
    assert_eq!(metadata.subject_as_metadata_xml().unwrap(), "<dc:subject>S</dc:subject>");
    assert_eq!(
        metadata.description_as_metadata_xml().unwrap(),
        "<dc:description>D</dc:description>"
    );
}
