//! Bibliography sources.

use hayagriva::io::from_yaml_str;
use typst_docx::bibliography::{
    KeyedEntry, SourceEntry, WordAuthor, WordSource, map_entries, map_entry, map_source_type,
    package_key, read_entry,
};

fn entry(yaml: &str) -> SourceEntry {
    let library = from_yaml_str(yaml).unwrap();
    read_entry(library.nth(0).unwrap())
}

const ARTICLE: &str = "
harry:
    type: Article
    title: Harry Potter and the *Stone*
    author: ['Rowling, Joanne', 'Plato']
    volume: 3
    issue: 14
    page-range: 812-831
    date: 1997-06-26
    url: https://example.org/harry
    publisher:
        name: Bloomsbury
        location: London
    parent:
        type: Periodical
        title: Journal of Magic
";

fn mapped(yaml: &str) -> WordSource {
    map_entry("harry".into(), "{guid}".into(), entry(yaml))
}

#[test]
fn an_article_keeps_its_fields() {
    let source = mapped(ARTICLE);
    assert_eq!(source.tag, "harry");
    assert_eq!(source.guid, "{guid}");
    assert_eq!(source.source_type, "ArticleInAPeriodical");
    assert_eq!(source.title.as_deref(), Some("Harry Potter and the *Stone*"));
    assert_eq!(source.year.as_deref(), Some("1997"));
    assert_eq!(source.publisher.as_deref(), Some("Bloomsbury"));
    assert_eq!(source.city.as_deref(), Some("London"));
    assert_eq!(source.journal_name.as_deref(), Some("Journal of Magic"));
    assert_eq!(source.volume.as_deref(), Some("3"));
    assert_eq!(source.issue.as_deref(), Some("14"));
    assert_eq!(source.pages.as_deref(), Some("812-831"));
    assert_eq!(source.url.as_deref(), Some("https://example.org/harry"));
    match source.author {
        WordAuthor::Persons(persons) => {
            assert_eq!(persons.len(), 2);
            assert_eq!(persons[0].last, "Rowling");
            assert_eq!(persons[0].first.as_deref(), Some("Joanne"));
            assert_eq!(persons[1].last, "Plato");
            assert_eq!(persons[1].first, None);
        }
        _ => panic!("the authors are persons"),
    }
}

#[test]
fn an_organization_stands_in_for_authors() {
    let source = mapped("a:\n    type: Report\n    organization: NASA\n");
    assert_eq!(source.source_type, "Report");
    assert!(matches!(source.author, WordAuthor::Corporate(name) if name == "NASA"));
    let source = mapped("a:\n    type: Misc\n    title: Nothing\n");
    assert!(matches!(source.author, WordAuthor::Absent));
    assert_eq!(source.source_type, "Misc");
}

#[test]
fn only_periodicals_name_a_journal() {
    let yaml = "a:\n    type: Chapter\n    parent:\n        type: Book\n        title: Tome\n";
    let source = mapped(yaml);
    assert_eq!(source.source_type, "BookSection");
    assert_eq!(source.journal_name, None);
}

#[test]
fn every_entry_type_has_a_source_type() {
    let types = [
        ("Article", "ArticleInAPeriodical"),
        ("Periodical", "ArticleInAPeriodical"),
        ("Newspaper", "ArticleInAPeriodical"),
        ("Chapter", "BookSection"),
        ("Anthos", "BookSection"),
        ("Report", "Report"),
        ("Thesis", "Report"),
        ("Web", "DocumentFromInternetSite"),
        ("Post", "DocumentFromInternetSite"),
        ("Thread", "DocumentFromInternetSite"),
        ("Blog", "InternetSite"),
        ("Scene", "Performance"),
        ("Performance", "Performance"),
        ("Artwork", "Art"),
        ("Exhibition", "Art"),
        ("Patent", "Patent"),
        ("Case", "Case"),
        ("Video", "Film"),
        ("Audio", "SoundRecording"),
        ("Proceedings", "ConferenceProceedings"),
        ("Conference", "ConferenceProceedings"),
        ("Book", "Book"),
        ("Anthology", "Book"),
        ("Reference", "Book"),
        ("Repository", "ElectronicSource"),
        ("Entry", "Misc"),
        ("Legislation", "Misc"),
        ("Manuscript", "Misc"),
        ("Original", "Misc"),
    ];
    for (kind, expected) in types {
        let read = entry(&format!("a:\n    type: {kind}\n"));
        assert_eq!(read.kind, kind);
        assert_eq!(map_source_type(&read.kind), expected);
    }
}

#[test]
fn entries_keep_their_order_and_make_one_key() {
    let entries = ["one", "two"].map(|tag| KeyedEntry {
        tag: tag.into(),
        guid: format!("{{{tag}}}"),
        entry: entry("a:\n    type: Book\n"),
    });
    let sources = map_entries(entries.into());
    assert_eq!(sources.len(), 2);
    assert_eq!(sources[1].tag, "two");
    assert_eq!(sources[1].guid, "{two}");
    assert_eq!(package_key(&sources), "one\0two\0");
}
