//! Descriptive metadata of a book: title, language, identifier, and the
//! optional contributor fields, with their OPF metadata renderings.

use chrono::Datelike;
use vstd::prelude::*;

verus! {

use vstd::string::StringExecFns;
use crate::numbering::{dec_pad2, dec_pad4, dec_pad2_string, dec_pad4_string};

/// A civil calendar date, as the publication date is written into the
/// package metadata.
#[derive(Debug, Clone, Copy, PartialEq, Eq, Structural)]
pub struct Date {
    /// The year, written zero-padded to at least four digits.
    pub year: u16,
    /// The month, written zero-padded to two digits.
    pub month: u8,
    /// The day of the month, written zero-padded to two digits.
    pub day: u8,
}

/// How a date is written into the package metadata: year, month and day,
/// zero-padded and dash-separated.
pub open spec fn date_text(d: Date) -> Seq<char> {
    dec_pad4(d.year as nat) + "-"@ + dec_pad2(d.month as nat) + "-"@ + dec_pad2(d.day as nat)
}

impl Date {
    /// Writes the date as zero-padded, dash-separated year, month and day.
    pub fn to_text(&self) -> (r: String)
        ensures
            r@ == date_text(*self),
    {
        let mut s = dec_pad4_string(self.year as u64);
        s.append("-");
        let m = dec_pad2_string(self.month as u64);
        s.append(m.as_str());
        s.append("-");
        let d = dec_pad2_string(self.day as u64);
        s.append(d.as_str());
        proof {
            assert(s@ =~= date_text(*self));
        }
        s
    }
}

/// Today's civil date in UTC.
///
/// Relies on chrono: `Utc::now` reads the system clock, and the `Datelike`
/// accessors `year`, `month` and `day` return the civil date, with the
/// month in 1..=12 and the day in 1..=31. `Utc::now` panics on a system
/// clock set before the Unix epoch; no input of this crate can avoid or
/// cause that.
#[verifier::external_body]
fn today_utc() -> (d: Date)
    ensures
        1 <= d.month <= 12,
        1 <= d.day <= 31,
{
    let now = chrono::Utc::now();
    Date { year: now.year() as u16, month: now.month() as u8, day: now.day() as u8 }
}

/// A fresh identifier string.
///
/// Relies on uuid: `Uuid::new_v4` draws a random version-4 UUID, and its
/// default string form is the 36-character hyphenated rendering.
/// `new_v4` panics if the operating system's random source fails; no
/// input of this crate can avoid or cause that.
#[verifier::external_body]
fn new_uuid_string() -> (r: String)
    ensures
        r@.len() == 36,
{
    uuid::Uuid::new_v4().to_string()
}

/// The primary language of the book's content, named by its ISO 639-1
/// code in the package metadata.
#[derive(Debug, Clone, Copy, PartialEq, Eq, Structural)]
pub enum Language {
    Arabic,
    Bulgarian,
    Chinese,
    Croatian,
    Czech,
    Danish,
    Dutch,
    English,
    Estonian,
    Finnish,
    French,
    Greek,
    German,
    Hebrew,
    Hungarian,
    Icelandic,
    Indonesian,
    Irish,
    Italian,
    Japanese,
    Korean,
    Latvian,
    Lithuanian,
    Macedonian,
    Malay,
    Maltese,
    Norwegian,
    Persian,
    Polish,
    Portuguese,
    Romanian,
    Russian,
    Serbian,
    Slovak,
    Slovenian,
    Spanish,
    Swahili,
    Swedish,
    Tagalog,
    Thai,
    Turkish,
    Ukrainian,
    Urdu,
    Vietnamese,
    Welsh,
    Yiddish,
}

/// The two-letter ISO 639-1 code of a language.
pub open spec fn lang_code(l: Language) -> Seq<char> {
    match l {
        Language::Arabic => "ar"@,
        Language::Bulgarian => "bg"@,
        Language::Chinese => "zh"@,
        Language::Croatian => "hr"@,
        Language::Czech => "cs"@,
        Language::Danish => "da"@,
        Language::Dutch => "nl"@,
        Language::English => "en"@,
        Language::Estonian => "et"@,
        Language::Finnish => "fi"@,
        Language::French => "fr"@,
        Language::Greek => "el"@,
        Language::German => "de"@,
        Language::Hebrew => "he"@,
        Language::Hungarian => "hu"@,
        Language::Icelandic => "is"@,
        Language::Indonesian => "id"@,
        Language::Irish => "ga"@,
        Language::Italian => "it"@,
        Language::Japanese => "ja"@,
        Language::Korean => "ko"@,
        Language::Latvian => "lv"@,
        Language::Lithuanian => "lt"@,
        Language::Macedonian => "mk"@,
        Language::Malay => "ms"@,
        Language::Maltese => "mt"@,
        Language::Norwegian => "no"@,
        Language::Persian => "fa"@,
        Language::Polish => "pl"@,
        Language::Portuguese => "pt"@,
        Language::Romanian => "ro"@,
        Language::Russian => "ru"@,
        Language::Serbian => "sr"@,
        Language::Slovak => "sk"@,
        Language::Slovenian => "sl"@,
        Language::Spanish => "es"@,
        Language::Swahili => "sw"@,
        Language::Swedish => "sv"@,
        Language::Tagalog => "tl"@,
        Language::Thai => "th"@,
        Language::Turkish => "tr"@,
        Language::Ukrainian => "uk"@,
        Language::Urdu => "ur"@,
        Language::Vietnamese => "vi"@,
        Language::Welsh => "cy"@,
        Language::Yiddish => "yi"@,
    }
}

/// The XML `<dc:language>` element carrying a language code.
pub open spec fn language_meta_xml(l: Language) -> Seq<char> {
    "<dc:language>"@ + lang_code(l) + "</dc:language>"@
}

impl Language {
    /// The two-letter ISO 639-1 code of this language.
    pub fn as_ref(&self) -> (r: &str)
        ensures
            r@ == lang_code(*self),
    {
        match self {
            Language::Arabic => "ar",
            Language::Bulgarian => "bg",
            Language::Chinese => "zh",
            Language::Croatian => "hr",
            Language::Czech => "cs",
            Language::Danish => "da",
            Language::Dutch => "nl",
            Language::English => "en",
            Language::Estonian => "et",
            Language::Finnish => "fi",
            Language::French => "fr",
            Language::Greek => "el",
            Language::German => "de",
            Language::Hebrew => "he",
            Language::Hungarian => "hu",
            Language::Icelandic => "is",
            Language::Indonesian => "id",
            Language::Irish => "ga",
            Language::Italian => "it",
            Language::Japanese => "ja",
            Language::Korean => "ko",
            Language::Latvian => "lv",
            Language::Lithuanian => "lt",
            Language::Macedonian => "mk",
            Language::Malay => "ms",
            Language::Maltese => "mt",
            Language::Norwegian => "no",
            Language::Persian => "fa",
            Language::Polish => "pl",
            Language::Portuguese => "pt",
            Language::Romanian => "ro",
            Language::Russian => "ru",
            Language::Serbian => "sr",
            Language::Slovak => "sk",
            Language::Slovenian => "sl",
            Language::Spanish => "es",
            Language::Swahili => "sw",
            Language::Swedish => "sv",
            Language::Tagalog => "tl",
            Language::Thai => "th",
            Language::Turkish => "tr",
            Language::Ukrainian => "uk",
            Language::Urdu => "ur",
            Language::Vietnamese => "vi",
            Language::Welsh => "cy",
            Language::Yiddish => "yi",
        }
    }

    /// The XML `<dc:language>` element for this language.
    pub fn as_metadata_xml(&self) -> (r: String)
        ensures
            r@ == language_meta_xml(*self),
    {
        let mut s = String::from_str("<dc:language>");
        s.append(self.as_ref());
        s.append("</dc:language>");
        proof {
            assert(s@ =~= language_meta_xml(*self));
        }
        s
    }
}

impl Default for Language {
    /// English, the default language.
    fn default() -> (r: Self)
        ensures
            r is English,
    {
        Language::English
    }
}

/// A unique identifier for the book: a UUID or an ISBN.
#[derive(Debug, Clone, PartialEq)]
pub enum Identifier {
    /// A UUID (universally unique identifier).
    UUID(String),
    /// An ISBN (international standard book number).
    ISBN(String),
}

/// The URN form of an identifier: its value under the `urn:uuid:` or
/// `urn:isbn:` prefix.
pub open spec fn urn_of(id: Identifier) -> Seq<char> {
    match id {
        Identifier::UUID(v) => "urn:uuid:"@ + v@,
        Identifier::ISBN(v) => "urn:isbn:"@ + v@,
    }
}

/// The scheme name of an identifier, as the package metadata names it.
pub open spec fn scheme_of(id: Identifier) -> Seq<char> {
    match id {
        Identifier::UUID(_) => "UUID"@,
        Identifier::ISBN(_) => "ISBN"@,
    }
}

/// The XML `<dc:identifier>` element carrying an identifier.
pub open spec fn identifier_meta_xml(id: Identifier) -> Seq<char> {
    "<dc:identifier id=\"BookId\" opf:scheme=\""@ + scheme_of(id) + "\">"@ + urn_of(id)
        + "</dc:identifier>"@
}

/// The navigation map's `dtb:uid` metadata element for an identifier.
pub open spec fn identifier_toc_xml(id: Identifier) -> Seq<char> {
    "<meta name=\"dtb:uid\" content=\""@ + urn_of(id) + "\"/>"@
}

impl Identifier {
    /// The URN form of this identifier.
    pub fn as_urn(&self) -> (r: String)
        ensures
            r@ == urn_of(*self),
    {
        match self {
            Identifier::UUID(v) => {
                let mut s = String::from_str("urn:uuid:");
                s.append(v.as_str());
                proof {
                    assert(s@ =~= urn_of(*self));
                }
                s
            },
            Identifier::ISBN(v) => {
                let mut s = String::from_str("urn:isbn:");
                s.append(v.as_str());
                proof {
                    assert(s@ =~= urn_of(*self));
                }
                s
            },
        }
    }

    /// The scheme name of this identifier.
    pub fn scheme_name(&self) -> (r: &str)
        ensures
            r@ == scheme_of(*self),
    {
        match self {
            Identifier::UUID(_) => "UUID",
            Identifier::ISBN(_) => "ISBN",
        }
    }

    /// The XML `<dc:identifier>` element for this identifier.
    pub fn as_metadata_xml(&self) -> (r: String)
        ensures
            r@ == identifier_meta_xml(*self),
    {
        let mut s = String::from_str("<dc:identifier id=\"BookId\" opf:scheme=\"");
        s.append(self.scheme_name());
        s.append("\">");
        let urn = self.as_urn();
        s.append(urn.as_str());
        s.append("</dc:identifier>");
        proof {
            assert(s@ =~= identifier_meta_xml(*self));
        }
        s
    }

    /// The navigation map's `dtb:uid` metadata element for this identifier.
    pub fn as_toc_xml(&self) -> (r: String)
        ensures
            r@ == identifier_toc_xml(*self),
    {
        let mut s = String::from_str("<meta name=\"dtb:uid\" content=\"");
        let urn = self.as_urn();
        s.append(urn.as_str());
        s.append("\"/>");
        proof {
            assert(s@ =~= identifier_toc_xml(*self));
        }
        s
    }
}

impl Default for Identifier {
    /// A freshly generated UUID identifier.
    fn default() -> (r: Self)
        ensures
            r is UUID,
    {
        Identifier::UUID(new_uuid_string())
    }
}

/// The descriptive information about a book. Built through
/// [`MetadataBuilder`] and then read by the package generators.
#[derive(Debug, Clone)]
pub struct Metadata {
    /// The primary title of the book.
    pub title: String,
    /// The primary language of the content.
    pub language: Language,
    /// A unique identifier: a UUID or an ISBN.
    pub identifier: Identifier,
    /// The person or entity responsible for creating the content.
    pub creator: Option<String>,
    /// A secondary contributor, such as a translator or editor.
    pub contributor: Option<String>,
    /// The entity making the book available.
    pub publisher: Option<String>,
    /// The publication date. Defaults to today's date when the metadata is
    /// first built.
    pub date: Option<Date>,
    /// Keywords or phrases describing the content.
    pub subject: Option<String>,
    /// A short summary of the content.
    pub description: Option<String>,
}

/// The optional `<dc:creator>` element of the package metadata.
pub open spec fn creator_meta_xml(m: Metadata) -> Seq<char> {
    match m.creator {
        Some(c) => "<dc:creator opf:role=\"aut\">"@ + c@ + "</dc:creator>"@,
        None => Seq::empty(),
    }
}

/// The optional `<dc:contributor>` element of the package metadata.
pub open spec fn contributor_meta_xml(m: Metadata) -> Seq<char> {
    match m.contributor {
        Some(c) => "<dc:contributor opf:role=\"trl\">"@ + c@ + "</dc:contributor>"@,
        None => Seq::empty(),
    }
}

/// The optional `<dc:publisher>` element of the package metadata.
pub open spec fn publisher_meta_xml(m: Metadata) -> Seq<char> {
    match m.publisher {
        Some(p) => "<dc:publisher>"@ + p@ + "</dc:publisher>"@,
        None => Seq::empty(),
    }
}

/// The optional `<dc:date>` element of the package metadata.
pub open spec fn date_meta_xml(m: Metadata) -> Seq<char> {
    match m.date {
        Some(d) => "<dc:date opf:event=\"publication\">"@ + date_text(d) + "</dc:date>"@,
        None => Seq::empty(),
    }
}

/// The optional `<dc:subject>` element of the package metadata.
pub open spec fn subject_meta_xml(m: Metadata) -> Seq<char> {
    match m.subject {
        Some(v) => "<dc:subject>"@ + v@ + "</dc:subject>"@,
        None => Seq::empty(),
    }
}

/// The optional `<dc:description>` element of the package metadata.
pub open spec fn description_meta_xml(m: Metadata) -> Seq<char> {
    match m.description {
        Some(v) => "<dc:description>"@ + v@ + "</dc:description>"@,
        None => Seq::empty(),
    }
}

/// The mandatory `<dc:title>` element of the package metadata.
pub open spec fn title_meta_xml(m: Metadata) -> Seq<char> {
    "<dc:title>"@ + m.title@ + "</dc:title>"@
}

impl Metadata {
    /// A metadata record holding the given title, language and identifier,
    /// dated today, with every other field absent.
    fn new(title: &str, language: Language, identifier: Identifier) -> (r: Self)
        ensures
            r.title@ == title@,
            r.language == language,
            r.identifier == identifier,
            r.creator is None,
            r.contributor is None,
            r.publisher is None,
            r.date is Some,
            r.subject is None,
            r.description is None,
    {
        Self {
            title: title.to_owned(),
            language,
            identifier,
            creator: None,
            contributor: None,
            publisher: None,
            date: Some(today_utc()),
            subject: None,
            description: None,
        }
    }

    /// The XML `<dc:title>` element.
    pub fn title_as_metadata_xml(&self) -> (r: String)
        ensures
            r@ == title_meta_xml(*self),
    {
        let mut s = String::from_str("<dc:title>");
        s.append(self.title.as_str());
        s.append("</dc:title>");
        proof {
            assert(s@ =~= title_meta_xml(*self));
        }
        s
    }

    /// The XML `<dc:creator>` element, when a creator is set.
    pub fn creator_as_metadata_xml(&self) -> (r: Option<String>)
        ensures
            self.creator is Some <==> r is Some,
            r matches Some(s) ==> s@ == creator_meta_xml(*self),
    {
        match &self.creator {
            Some(c) => {
                let mut s = String::from_str("<dc:creator opf:role=\"aut\">");
                s.append(c.as_str());
                s.append("</dc:creator>");
                proof {
                    assert(s@ =~= creator_meta_xml(*self));
                }
                Some(s)
            },
            None => None,
        }
    }

    /// The XML `<dc:contributor>` element, when a contributor is set.
    pub fn contributor_as_metadata_xml(&self) -> (r: Option<String>)
        ensures
            self.contributor is Some <==> r is Some,
            r matches Some(s) ==> s@ == contributor_meta_xml(*self),
    {
        match &self.contributor {
            Some(c) => {
                let mut s = String::from_str("<dc:contributor opf:role=\"trl\">");
                s.append(c.as_str());
                s.append("</dc:contributor>");
                proof {
                    assert(s@ =~= contributor_meta_xml(*self));
                }
                Some(s)
            },
            None => None,
        }
    }

    /// The XML `<dc:publisher>` element, when a publisher is set.
    pub fn publisher_as_metadata_xml(&self) -> (r: Option<String>)
        ensures
            self.publisher is Some <==> r is Some,
            r matches Some(s) ==> s@ == publisher_meta_xml(*self),
    {
        match &self.publisher {
            Some(p) => {
                let mut s = String::from_str("<dc:publisher>");
                s.append(p.as_str());
                s.append("</dc:publisher>");
                proof {
                    assert(s@ =~= publisher_meta_xml(*self));
                }
                Some(s)
            },
            None => None,
        }
    }

    /// The XML `<dc:date>` element, when a date is set, with the date
    /// written as zero-padded year, month and day.
    pub fn date_as_metadata_xml(&self) -> (r: Option<String>)
        ensures
            self.date is Some <==> r is Some,
            r matches Some(s) ==> s@ == date_meta_xml(*self),
    {
        match &self.date {
            Some(d) => {
                let mut s = String::from_str("<dc:date opf:event=\"publication\">");
                let text = d.to_text();
                s.append(text.as_str());
                s.append("</dc:date>");
                proof {
                    assert(s@ =~= date_meta_xml(*self));
                }
                Some(s)
            },
            None => None,
        }
    }

    /// The XML `<dc:subject>` element, when a subject is set.
    pub fn subject_as_metadata_xml(&self) -> (r: Option<String>)
        ensures
            self.subject is Some <==> r is Some,
            r matches Some(s) ==> s@ == subject_meta_xml(*self),
    {
        match &self.subject {
            Some(v) => {
                let mut s = String::from_str("<dc:subject>");
                s.append(v.as_str());
                s.append("</dc:subject>");
                proof {
                    assert(s@ =~= subject_meta_xml(*self));
                }
                Some(s)
            },
            None => None,
        }
    }

    /// The XML `<dc:description>` element, when a description is set.
    pub fn description_as_metadata_xml(&self) -> (r: Option<String>)
        ensures
            self.description is Some <==> r is Some,
            r matches Some(s) ==> s@ == description_meta_xml(*self),
    {
        match &self.description {
            Some(v) => {
                let mut s = String::from_str("<dc:description>");
                s.append(v.as_str());
                s.append("</dc:description>");
                proof {
                    assert(s@ =~= description_meta_xml(*self));
                }
                Some(s)
            },
            None => None,
        }
    }
}

/// A fluent builder for [`Metadata`].
#[derive(Debug)]
pub struct MetadataBuilder(pub Metadata);

impl MetadataBuilder {
    /// Starts the builder with the mandatory title, the default language
    /// and a freshly generated UUID identifier, dated today.
    pub fn title(title: &str) -> (r: Self)
        ensures
            r.0.title@ == title@,
            r.0.language is English,
            r.0.identifier is UUID,
            r.0.creator is None,
            r.0.contributor is None,
            r.0.publisher is None,
            r.0.date is Some,
            r.0.subject is None,
            r.0.description is None,
    {
        Self(Metadata::new(title, Language::default(), Identifier::default()))
    }

    /// Sets the primary language.
    pub fn language(self, language: Language) -> (r: Self)
        ensures
            r.0 == (Metadata { language, ..self.0 }),
    {
        let Self(mut m) = self;
        m.language = language;
        Self(m)
    }

    /// Sets the unique identifier.
    pub fn identifier(self, identifier: Identifier) -> (r: Self)
        ensures
            r.0 == (Metadata { identifier, ..self.0 }),
    {
        let Self(mut m) = self;
        m.identifier = identifier;
        Self(m)
    }

    /// Sets the creator.
    pub fn creator(self, creator: &str) -> (r: Self)
        ensures
            r.0.creator matches Some(c) && c@ == creator@,
            r.0 == (Metadata { creator: r.0.creator, ..self.0 }),
    {
        let Self(mut m) = self;
        m.creator = Some(creator.to_owned());
        Self(m)
    }

    /// Sets the contributor.
    pub fn contributor(self, contributor: &str) -> (r: Self)
        ensures
            r.0.contributor matches Some(c) && c@ == contributor@,
            r.0 == (Metadata { contributor: r.0.contributor, ..self.0 }),
    {
        let Self(mut m) = self;
        m.contributor = Some(contributor.to_owned());
        Self(m)
    }

    /// Sets the publisher.
    pub fn publisher(self, publisher: &str) -> (r: Self)
        ensures
            r.0.publisher matches Some(p) && p@ == publisher@,
            r.0 == (Metadata { publisher: r.0.publisher, ..self.0 }),
    {
        let Self(mut m) = self;
        m.publisher = Some(publisher.to_owned());
        Self(m)
    }

    /// Sets the publication date.
    pub fn date(self, date: Date) -> (r: Self)
        ensures
            r.0 == (Metadata { date: Some(date), ..self.0 }),
    {
        let Self(mut m) = self;
        m.date = Some(date);
        Self(m)
    }

    /// Sets the subject.
    pub fn subject(self, subject: &str) -> (r: Self)
        ensures
            r.0.subject matches Some(v) && v@ == subject@,
            r.0 == (Metadata { subject: r.0.subject, ..self.0 }),
    {
        let Self(mut m) = self;
        m.subject = Some(subject.to_owned());
        Self(m)
    }

    /// Sets the description.
    pub fn description(self, description: &str) -> (r: Self)
        ensures
            r.0.description matches Some(v) && v@ == description@,
            r.0 == (Metadata { description: r.0.description, ..self.0 }),
    {
        let Self(mut m) = self;
        m.description = Some(description.to_owned());
        Self(m)
    }

    /// Finishes the builder, handing out the metadata record.
    pub fn build(self) -> (r: Metadata)
        ensures
            r == self.0,
    {
        self.0
    }
}

} // verus!
