//! Maps bibliography entries onto the source fields of the file format.
//!
//! The format has a fixed and coarse set of fields and of source types, so the
//! mapping keeps less than an entry holds. It serves the consumer's source
//! manager only: the visible citations are the formatted text.

use vstd::prelude::*;

use crate::text::{dec, dec_i64, opt_str, str_eq};

verus! {

/// `hayagriva::Entry`: a citable item, opaque here.
#[verifier::external_type_specification]
#[verifier::external_body]
pub struct ExEntry(hayagriva::Entry);

/// The name of the entry's type.
pub uninterp spec fn entry_type_name(entry: hayagriva::Entry) -> Seq<char>;

/// The family and given names of the entry's authors.
pub uninterp spec fn entry_authors(entry: hayagriva::Entry) -> Option<
    Seq<(Seq<char>, Option<Seq<char>>)>,
>;

/// The organization for which the item was created.
pub uninterp spec fn entry_organization(entry: hayagriva::Entry) -> Option<Seq<char>>;

/// The title of the item.
pub uninterp spec fn entry_title(entry: hayagriva::Entry) -> Option<Seq<char>>;

/// The year in which the item was published.
pub uninterp spec fn entry_year(entry: hayagriva::Entry) -> Option<i32>;

/// The name of the publisher.
pub uninterp spec fn entry_publisher(entry: hayagriva::Entry) -> Option<Seq<char>>;

/// The location of the publisher.
pub uninterp spec fn entry_city(entry: hayagriva::Entry) -> Option<Seq<char>>;

/// The titles of the items that hold the entry.
pub uninterp spec fn entry_parent_titles(entry: hayagriva::Entry) -> Seq<Option<Seq<char>>>;

/// Optional texts, one by one.
pub open spec fn opt_texts(s: Seq<Option<String>>) -> Seq<Option<Seq<char>>> {
    s.map_values(|t: Option<String>| opt_str(t))
}

/// The title of the first item that holds the entry.
pub open spec fn first_title(titles: Seq<Option<Seq<char>>>) -> Option<Seq<char>> {
    if titles.len() > 0 {
        titles[0]
    } else {
        None
    }
}

/// The volume as text.
pub uninterp spec fn entry_volume(entry: hayagriva::Entry) -> Option<Seq<char>>;

/// The issue as text.
pub uninterp spec fn entry_issue(entry: hayagriva::Entry) -> Option<Seq<char>>;

/// The page range as text.
pub uninterp spec fn entry_pages(entry: hayagriva::Entry) -> Option<Seq<char>>;

/// The address of the item as text.
pub uninterp spec fn entry_url(entry: hayagriva::Entry) -> Option<Seq<char>>;

/// `hayagriva::Entry::entry_type`, by the name of the variant.
#[verifier::external_body]
fn type_name_of(entry: &hayagriva::Entry) -> (r: String)
    ensures
        r@ == entry_type_name(*entry),
{
    format!("{:?}", entry.entry_type())
}

/// `hayagriva::Entry::authors`: the family name and the given name of each.
#[verifier::external_body]
fn authors_of(entry: &hayagriva::Entry) -> (r: Option<Vec<WordPerson>>)
    ensures
        opt_persons(r) == entry_authors(*entry),
{
    entry.authors().map(|persons| {
        persons
            .iter()
            .map(|p| WordPerson { last: p.name.clone(), first: p.given_name.clone() })
            .collect()
    })
}

/// `hayagriva::Entry::organization`, without its formatting.
#[verifier::external_body]
fn organization_of(entry: &hayagriva::Entry) -> (r: Option<String>)
    ensures
        opt_str(r) == entry_organization(*entry),
{
    entry.organization().map(|s| s.value.to_str().into_owned())
}

/// `hayagriva::Entry::title`, without its formatting.
#[verifier::external_body]
fn title_of(entry: &hayagriva::Entry) -> (r: Option<String>)
    ensures
        opt_str(r) == entry_title(*entry),
{
    entry.title().map(|s| s.value.to_str().into_owned())
}

/// The year of `hayagriva::Entry::date`.
#[verifier::external_body]
fn year_of(entry: &hayagriva::Entry) -> (r: Option<i32>)
    ensures
        r == entry_year(*entry),
{
    entry.date().map(|d| d.year)
}

/// The name of `hayagriva::Entry::publisher`, without its formatting.
#[verifier::external_body]
fn publisher_of(entry: &hayagriva::Entry) -> (r: Option<String>)
    ensures
        opt_str(r) == entry_publisher(*entry),
{
    entry.publisher().and_then(|p| p.name()).map(|s| s.value.to_str().into_owned())
}

/// The location of `hayagriva::Entry::publisher`, without its formatting.
#[verifier::external_body]
fn city_of(entry: &hayagriva::Entry) -> (r: Option<String>)
    ensures
        opt_str(r) == entry_city(*entry),
{
    entry.publisher().and_then(|p| p.location()).map(|s| s.value.to_str().into_owned())
}

/// The title of each of `hayagriva::Entry::parents`, without its formatting.
#[verifier::external_body]
fn parent_titles_of(entry: &hayagriva::Entry) -> (r: Vec<Option<String>>)
    ensures
        opt_texts(r@) == entry_parent_titles(*entry),
{
    entry.parents().iter().map(|p| p.title().map(|s| s.value.to_str().into_owned())).collect()
}

/// Takes the title of the first item that holds an entry.
pub fn take_first_title(titles: Vec<Option<String>>) -> (r: Option<String>)
    ensures
        opt_str(r) == first_title(opt_texts(titles@)),
{
    let mut titles: Vec<Option<String>> = titles;
    if titles.len() > 0 {
        assert(opt_texts(titles@)[0] == opt_str(titles@[0]));
        titles.swap_remove(0)
    } else {
        None
    }
}

/// `hayagriva::Entry::volume`, as it displays.
#[verifier::external_body]
fn volume_of(entry: &hayagriva::Entry) -> (r: Option<String>)
    ensures
        opt_str(r) == entry_volume(*entry),
{
    entry.volume().map(|v| v.to_string())
}

/// `hayagriva::Entry::issue`, as it displays.
#[verifier::external_body]
fn issue_of(entry: &hayagriva::Entry) -> (r: Option<String>)
    ensures
        opt_str(r) == entry_issue(*entry),
{
    entry.issue().map(|i| i.to_string())
}

/// `hayagriva::Entry::page_range`, as it displays.
#[verifier::external_body]
fn pages_of(entry: &hayagriva::Entry) -> (r: Option<String>)
    ensures
        opt_str(r) == entry_pages(*entry),
{
    entry.page_range().map(|p| p.to_string())
}

/// `hayagriva::Entry::url`, as it displays.
#[verifier::external_body]
fn url_of(entry: &hayagriva::Entry) -> (r: Option<String>)
    ensures
        opt_str(r) == entry_url(*entry),
{
    entry.url().map(|u| u.to_string())
}

/// What the mapping reads of an entry.
pub struct SourceEntry {
    /// The name of the entry's type, such as `Article`.
    pub kind: String,
    pub authors: Option<Vec<WordPerson>>,
    pub organization: Option<String>,
    pub title: Option<String>,
    pub year: Option<i32>,
    pub publisher: Option<String>,
    pub city: Option<String>,
    /// The title of the first item that holds the entry.
    pub parent_title: Option<String>,
    pub volume: Option<String>,
    pub issue: Option<String>,
    pub pages: Option<String>,
    pub url: Option<String>,
}

/// What the mapping reads of an entry, by value.
pub struct EntryLook {
    pub kind: Seq<char>,
    pub authors: Option<Seq<(Seq<char>, Option<Seq<char>>)>>,
    pub organization: Option<Seq<char>>,
    pub title: Option<Seq<char>>,
    pub year: Option<i32>,
    pub publisher: Option<Seq<char>>,
    pub city: Option<Seq<char>>,
    pub parent_title: Option<Seq<char>>,
    pub volume: Option<Seq<char>>,
    pub issue: Option<Seq<char>>,
    pub pages: Option<Seq<char>>,
    pub url: Option<Seq<char>>,
}

impl View for SourceEntry {
    type V = EntryLook;

    open spec fn view(&self) -> EntryLook {
        EntryLook {
            kind: self.kind@,
            authors: opt_persons(self.authors),
            organization: opt_str(self.organization),
            title: opt_str(self.title),
            year: self.year,
            publisher: opt_str(self.publisher),
            city: opt_str(self.city),
            parent_title: opt_str(self.parent_title),
            volume: opt_str(self.volume),
            issue: opt_str(self.issue),
            pages: opt_str(self.pages),
            url: opt_str(self.url),
        }
    }
}

/// Reads an entry.
pub fn read_entry(entry: &hayagriva::Entry) -> (r: SourceEntry)
    ensures
        r@ == (EntryLook {
            kind: entry_type_name(*entry),
            authors: entry_authors(*entry),
            organization: entry_organization(*entry),
            title: entry_title(*entry),
            year: entry_year(*entry),
            publisher: entry_publisher(*entry),
            city: entry_city(*entry),
            parent_title: first_title(entry_parent_titles(*entry)),
            volume: entry_volume(*entry),
            issue: entry_issue(*entry),
            pages: entry_pages(*entry),
            url: entry_url(*entry),
        }),
{
    SourceEntry {
        kind: type_name_of(entry),
        authors: authors_of(entry),
        organization: organization_of(entry),
        title: title_of(entry),
        year: year_of(entry),
        publisher: publisher_of(entry),
        city: city_of(entry),
        parent_title: take_first_title(parent_titles_of(entry)),
        volume: volume_of(entry),
        issue: issue_of(entry),
        pages: pages_of(entry),
        url: url_of(entry),
    }
}

/// One entry mapped onto the source fields of the format.
#[derive(Debug)]
pub struct WordSource {
    /// The citation key.
    pub tag: String,
    /// Derived from the citation key, so that repeated exports agree.
    pub guid: String,
    /// One of the format's source types.
    pub source_type: &'static str,
    pub author: WordAuthor,
    pub title: Option<String>,
    pub year: Option<String>,
    pub publisher: Option<String>,
    pub city: Option<String>,
    pub journal_name: Option<String>,
    pub volume: Option<String>,
    pub issue: Option<String>,
    pub pages: Option<String>,
    pub url: Option<String>,
}

/// The author of a source: a list of persons or one organization, never both.
#[derive(Debug)]
pub enum WordAuthor {
    Persons(Vec<WordPerson>),
    Corporate(String),
    Absent,
}

#[derive(Debug)]
pub struct WordPerson {
    pub last: String,
    pub first: Option<String>,
}

/// The names of a person.
pub open spec fn person(p: WordPerson) -> (Seq<char>, Option<Seq<char>>) {
    (p.last@, opt_str(p.first))
}

/// The names of persons.
pub open spec fn persons(s: Seq<WordPerson>) -> Seq<(Seq<char>, Option<Seq<char>>)> {
    s.map_values(|p: WordPerson| person(p))
}

/// The names of persons, where there are any.
pub open spec fn opt_persons(s: Option<Vec<WordPerson>>) -> Option<
    Seq<(Seq<char>, Option<Seq<char>>)>,
> {
    match s {
        Some(s) => Some(persons(s@)),
        None => None,
    }
}

/// An author, by value.
pub enum AuthorLook {
    Persons(Seq<(Seq<char>, Option<Seq<char>>)>),
    Corporate(Seq<char>),
    Absent,
}

impl View for WordAuthor {
    type V = AuthorLook;

    open spec fn view(&self) -> AuthorLook {
        match self {
            WordAuthor::Persons(s) => AuthorLook::Persons(persons(s@)),
            WordAuthor::Corporate(s) => AuthorLook::Corporate(s@),
            WordAuthor::Absent => AuthorLook::Absent,
        }
    }
}

/// A source, by value.
pub struct SourceLook {
    pub tag: Seq<char>,
    pub guid: Seq<char>,
    pub source_type: Seq<char>,
    pub author: AuthorLook,
    pub title: Option<Seq<char>>,
    pub year: Option<Seq<char>>,
    pub publisher: Option<Seq<char>>,
    pub city: Option<Seq<char>>,
    pub journal_name: Option<Seq<char>>,
    pub volume: Option<Seq<char>>,
    pub issue: Option<Seq<char>>,
    pub pages: Option<Seq<char>>,
    pub url: Option<Seq<char>>,
}

impl View for WordSource {
    type V = SourceLook;

    open spec fn view(&self) -> SourceLook {
        SourceLook {
            tag: self.tag@,
            guid: self.guid@,
            source_type: self.source_type@,
            author: self.author@,
            title: opt_str(self.title),
            year: opt_str(self.year),
            publisher: opt_str(self.publisher),
            city: opt_str(self.city),
            journal_name: opt_str(self.journal_name),
            volume: opt_str(self.volume),
            issue: opt_str(self.issue),
            pages: opt_str(self.pages),
            url: opt_str(self.url),
        }
    }
}

/// Whether an entry type is shaped like a part of a periodical.
pub open spec fn is_periodical(kind: Seq<char>) -> bool {
    kind == "Article"@ || kind == "Periodical"@ || kind == "Newspaper"@
}

/// The source type of an entry type. The format has fewer of them, so the match
/// is approximate; a type without one is miscellaneous.
pub open spec fn source_type_of(kind: Seq<char>) -> Seq<char> {
    if is_periodical(kind) {
        "ArticleInAPeriodical"@
    } else if kind == "Chapter"@ || kind == "Anthos"@ {
        "BookSection"@
    } else if kind == "Report"@ || kind == "Thesis"@ {
        "Report"@
    } else if kind == "Web"@ || kind == "Post"@ || kind == "Thread"@ {
        "DocumentFromInternetSite"@
    } else if kind == "Blog"@ {
        "InternetSite"@
    } else if kind == "Scene"@ || kind == "Performance"@ {
        "Performance"@
    } else if kind == "Artwork"@ || kind == "Exhibition"@ {
        "Art"@
    } else if kind == "Patent"@ {
        "Patent"@
    } else if kind == "Case"@ {
        "Case"@
    } else if kind == "Video"@ {
        "Film"@
    } else if kind == "Audio"@ {
        "SoundRecording"@
    } else if kind == "Proceedings"@ || kind == "Conference"@ {
        "ConferenceProceedings"@
    } else if kind == "Book"@ || kind == "Anthology"@ || kind == "Reference"@ {
        "Book"@
    } else if kind == "Repository"@ {
        "ElectronicSource"@
    } else {
        "Misc"@
    }
}

fn periodical(kind: &str) -> (r: bool)
    ensures
        r == is_periodical(kind@),
{
    str_eq(kind, "Article") || str_eq(kind, "Periodical") || str_eq(kind, "Newspaper")
}

/// The source type of an entry type.
pub fn map_source_type(kind: &str) -> (r: &'static str)
    ensures
        r@ == source_type_of(kind@),
{
    if periodical(kind) {
        "ArticleInAPeriodical"
    } else if str_eq(kind, "Chapter") || str_eq(kind, "Anthos") {
        "BookSection"
    } else if str_eq(kind, "Report") || str_eq(kind, "Thesis") {
        "Report"
    } else if str_eq(kind, "Web") || str_eq(kind, "Post") || str_eq(kind, "Thread") {
        "DocumentFromInternetSite"
    } else if str_eq(kind, "Blog") {
        "InternetSite"
    } else if str_eq(kind, "Scene") || str_eq(kind, "Performance") {
        "Performance"
    } else if str_eq(kind, "Artwork") || str_eq(kind, "Exhibition") {
        "Art"
    } else if str_eq(kind, "Patent") {
        "Patent"
    } else if str_eq(kind, "Case") {
        "Case"
    } else if str_eq(kind, "Video") {
        "Film"
    } else if str_eq(kind, "Audio") {
        "SoundRecording"
    } else if str_eq(kind, "Proceedings") || str_eq(kind, "Conference") {
        "ConferenceProceedings"
    } else if str_eq(kind, "Book") || str_eq(kind, "Anthology") || str_eq(kind, "Reference") {
        "Book"
    } else if str_eq(kind, "Repository") {
        "ElectronicSource"
    } else {
        "Misc"
    }
}

/// The author of an entry: its authors where there are any, and else the
/// organization.
pub open spec fn author_of(e: EntryLook) -> AuthorLook {
    match (e.authors, e.organization) {
        (Some(s), _) if s.len() > 0 => AuthorLook::Persons(s),
        (_, Some(org)) => AuthorLook::Corporate(org),
        _ => AuthorLook::Absent,
    }
}

fn map_author(authors: Option<Vec<WordPerson>>, organization: Option<String>) -> (r: WordAuthor)
    ensures
        r@ == (match (opt_persons(authors), opt_str(organization)) {
            (Some(s), _) if s.len() > 0 => AuthorLook::Persons(s),
            (_, Some(org)) => AuthorLook::Corporate(org),
            _ => AuthorLook::Absent,
        }),
{
    if let Some(s) = authors {
        if s.len() > 0 {
            return WordAuthor::Persons(s);
        }
    }
    match organization {
        Some(org) => WordAuthor::Corporate(org),
        None => WordAuthor::Absent,
    }
}

/// The source that an entry makes under its key. The title of what holds the
/// entry names a journal only for what is shaped like a part of a periodical.
pub open spec fn source_of(tag: Seq<char>, guid: Seq<char>, e: EntryLook) -> SourceLook {
    SourceLook {
        tag,
        guid,
        source_type: source_type_of(e.kind),
        author: author_of(e),
        title: e.title,
        year: match e.year {
            Some(year) => Some(dec(year as int)),
            None => None,
        },
        publisher: e.publisher,
        city: e.city,
        journal_name: if is_periodical(e.kind) {
            e.parent_title
        } else {
            None
        },
        volume: e.volume,
        issue: e.issue,
        pages: e.pages,
        url: e.url,
    }
}

/// Maps an entry under its key.
pub fn map_entry(tag: String, guid: String, e: SourceEntry) -> (r: WordSource)
    ensures
        r@ == source_of(tag@, guid@, e@),
{
    let source_type: &'static str = map_source_type(e.kind.as_str());
    let year: Option<String> = match e.year {
        Some(year) => Some(dec_i64(year as i64)),
        None => None,
    };
    let journal_name: Option<String> = if periodical(e.kind.as_str()) {
        e.parent_title
    } else {
        None
    };
    WordSource {
        tag,
        guid,
        source_type,
        author: map_author(e.authors, e.organization),
        title: e.title,
        year,
        publisher: e.publisher,
        city: e.city,
        journal_name,
        volume: e.volume,
        issue: e.issue,
        pages: e.pages,
        url: e.url,
    }
}

/// An entry with its key and the identifier derived from the key.
pub struct KeyedEntry {
    pub tag: String,
    pub guid: String,
    pub entry: SourceEntry,
}

/// Sources, one by one.
pub open spec fn source_looks(s: Seq<WordSource>) -> Seq<SourceLook> {
    s.map_values(|w: WordSource| w@)
}

/// Maps entries, in order.
pub fn map_entries(entries: Vec<KeyedEntry>) -> (r: Vec<WordSource>)
    ensures
        source_looks(r@) == entries@.map_values(
            |k: KeyedEntry| source_of(k.tag@, k.guid@, k.entry@),
        ),
{
    let ghost all = entries@;
    let ghost mapped = |k: KeyedEntry| source_of(k.tag@, k.guid@, k.entry@);
    let mut r: Vec<WordSource> = Vec::new();
    for keyed in it: entries
        invariant
            it.seq() == all,
            mapped == (|k: KeyedEntry| source_of(k.tag@, k.guid@, k.entry@)),
            source_looks(r@) == all.take(it.index() as int).map_values(mapped),
    {
        let ghost i = it.index() as int;
        let ghost before = source_looks(r@);
        assert(keyed == all[i]);
        let source: WordSource = map_entry(keyed.tag, keyed.guid, keyed.entry);
        r.push(source);
        assert(source_looks(r@) =~= before.push(source@));
        assert(all.take(i + 1) =~= all.take(i).push(all[i]));
        assert(all.take(i + 1).map_values(mapped) =~= before.push(mapped(all[i])));
    }
    assert(all.take(all.len() as int) =~= all);
    assert(source_looks(r@) =~= all.map_values(mapped));
    r
}

/// The text that identifies a set of sources: every key with a zero character
/// behind it.
pub open spec fn package_key_of(s: Seq<WordSource>) -> Seq<char>
    decreases s.len(),
{
    if s.len() == 0 {
        Seq::empty()
    } else {
        package_key_of(s.drop_last()) + s.last().tag@ + "\u{0}"@
    }
}

/// The text that identifies a set of sources.
pub fn package_key(sources: &Vec<WordSource>) -> (r: String)
    ensures
        r@ == package_key_of(sources@),
{
    let mut key: String = String::new();
    let mut i: usize = 0;
    while i < sources.len()
        invariant
            i <= sources.len(),
            key@ == package_key_of(sources@.take(i as int)),
        decreases sources.len() - i,
    {
        assert(sources@.take(i + 1).drop_last() =~= sources@.take(i as int));
        key.append(sources[i].tag.as_str());
        key.append("\u{0}");
        i = i + 1;
    }
    assert(sources@.take(i as int) =~= sources@);
    key
}

} // verus!
