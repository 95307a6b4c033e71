//! What becomes of the entries of a bibliography.

use vstd::prelude::*;

use crate::bibliography::{AuthorLook, EntryLook, author_of, source_of, source_type_of};
use crate::text::dec;

verus! {

proof fn kind_words()
    ensures
        "Article"@ != "Periodical"@,
        "Article"@ != "Newspaper"@,
        "Article"@ != "Chapter"@,
        "Article"@ != "Anthos"@,
        "Article"@ != "Report"@,
        "Article"@ != "Thesis"@,
        "Article"@ != "Web"@,
        "Article"@ != "Post"@,
        "Article"@ != "Thread"@,
        "Article"@ != "Blog"@,
        "Article"@ != "Scene"@,
        "Article"@ != "Performance"@,
        "Article"@ != "Artwork"@,
        "Article"@ != "Exhibition"@,
        "Article"@ != "Patent"@,
        "Article"@ != "Case"@,
        "Article"@ != "Video"@,
        "Article"@ != "Audio"@,
        "Article"@ != "Proceedings"@,
        "Article"@ != "Conference"@,
        "Article"@ != "Book"@,
        "Article"@ != "Anthology"@,
        "Article"@ != "Reference"@,
        "Article"@ != "Repository"@,
        "Article"@ != "Misc"@,
        "Periodical"@ != "Newspaper"@,
        "Periodical"@ != "Chapter"@,
        "Periodical"@ != "Anthos"@,
        "Periodical"@ != "Report"@,
        "Periodical"@ != "Thesis"@,
        "Periodical"@ != "Web"@,
        "Periodical"@ != "Post"@,
        "Periodical"@ != "Thread"@,
        "Periodical"@ != "Blog"@,
        "Periodical"@ != "Scene"@,
        "Periodical"@ != "Performance"@,
        "Periodical"@ != "Artwork"@,
        "Periodical"@ != "Exhibition"@,
        "Periodical"@ != "Patent"@,
        "Periodical"@ != "Case"@,
        "Periodical"@ != "Video"@,
        "Periodical"@ != "Audio"@,
        "Periodical"@ != "Proceedings"@,
        "Periodical"@ != "Conference"@,
        "Periodical"@ != "Book"@,
        "Periodical"@ != "Anthology"@,
        "Periodical"@ != "Reference"@,
        "Periodical"@ != "Repository"@,
        "Periodical"@ != "Misc"@,
        "Newspaper"@ != "Chapter"@,
        "Newspaper"@ != "Anthos"@,
        "Newspaper"@ != "Report"@,
        "Newspaper"@ != "Thesis"@,
        "Newspaper"@ != "Web"@,
        "Newspaper"@ != "Post"@,
        "Newspaper"@ != "Thread"@,
        "Newspaper"@ != "Blog"@,
        "Newspaper"@ != "Scene"@,
        "Newspaper"@ != "Performance"@,
        "Newspaper"@ != "Artwork"@,
        "Newspaper"@ != "Exhibition"@,
        "Newspaper"@ != "Patent"@,
        "Newspaper"@ != "Case"@,
        "Newspaper"@ != "Video"@,
        "Newspaper"@ != "Audio"@,
        "Newspaper"@ != "Proceedings"@,
        "Newspaper"@ != "Conference"@,
        "Newspaper"@ != "Book"@,
        "Newspaper"@ != "Anthology"@,
        "Newspaper"@ != "Reference"@,
        "Newspaper"@ != "Repository"@,
        "Newspaper"@ != "Misc"@,
        "Chapter"@ != "Anthos"@,
        "Chapter"@ != "Report"@,
        "Chapter"@ != "Thesis"@,
        "Chapter"@ != "Web"@,
        "Chapter"@ != "Post"@,
        "Chapter"@ != "Thread"@,
        "Chapter"@ != "Blog"@,
        "Chapter"@ != "Scene"@,
        "Chapter"@ != "Performance"@,
        "Chapter"@ != "Artwork"@,
        "Chapter"@ != "Exhibition"@,
        "Chapter"@ != "Patent"@,
        "Chapter"@ != "Case"@,
        "Chapter"@ != "Video"@,
        "Chapter"@ != "Audio"@,
        "Chapter"@ != "Proceedings"@,
        "Chapter"@ != "Conference"@,
        "Chapter"@ != "Book"@,
        "Chapter"@ != "Anthology"@,
        "Chapter"@ != "Reference"@,
        "Chapter"@ != "Repository"@,
        "Chapter"@ != "Misc"@,
        "Anthos"@ != "Report"@,
        "Anthos"@ != "Thesis"@,
        "Anthos"@ != "Web"@,
        "Anthos"@ != "Post"@,
        "Anthos"@ != "Thread"@,
        "Anthos"@ != "Blog"@,
        "Anthos"@ != "Scene"@,
        "Anthos"@ != "Performance"@,
        "Anthos"@ != "Artwork"@,
        "Anthos"@ != "Exhibition"@,
        "Anthos"@ != "Patent"@,
        "Anthos"@ != "Case"@,
        "Anthos"@ != "Video"@,
        "Anthos"@ != "Audio"@,
        "Anthos"@ != "Proceedings"@,
        "Anthos"@ != "Conference"@,
        "Anthos"@ != "Book"@,
        "Anthos"@ != "Anthology"@,
        "Anthos"@ != "Reference"@,
        "Anthos"@ != "Repository"@,
        "Anthos"@ != "Misc"@,
        "Report"@ != "Thesis"@,
        "Report"@ != "Web"@,
        "Report"@ != "Post"@,
        "Report"@ != "Thread"@,
        "Report"@ != "Blog"@,
        "Report"@ != "Scene"@,
        "Report"@ != "Performance"@,
        "Report"@ != "Artwork"@,
        "Report"@ != "Exhibition"@,
        "Report"@ != "Patent"@,
        "Report"@ != "Case"@,
        "Report"@ != "Video"@,
        "Report"@ != "Audio"@,
        "Report"@ != "Proceedings"@,
        "Report"@ != "Conference"@,
        "Report"@ != "Book"@,
        "Report"@ != "Anthology"@,
        "Report"@ != "Reference"@,
        "Report"@ != "Repository"@,
        "Report"@ != "Misc"@,
        "Thesis"@ != "Web"@,
        "Thesis"@ != "Post"@,
        "Thesis"@ != "Thread"@,
        "Thesis"@ != "Blog"@,
        "Thesis"@ != "Scene"@,
        "Thesis"@ != "Performance"@,
        "Thesis"@ != "Artwork"@,
        "Thesis"@ != "Exhibition"@,
        "Thesis"@ != "Patent"@,
        "Thesis"@ != "Case"@,
        "Thesis"@ != "Video"@,
        "Thesis"@ != "Audio"@,
        "Thesis"@ != "Proceedings"@,
        "Thesis"@ != "Conference"@,
        "Thesis"@ != "Book"@,
        "Thesis"@ != "Anthology"@,
        "Thesis"@ != "Reference"@,
        "Thesis"@ != "Repository"@,
        "Thesis"@ != "Misc"@,
        "Web"@ != "Post"@,
        "Web"@ != "Thread"@,
        "Web"@ != "Blog"@,
        "Web"@ != "Scene"@,
        "Web"@ != "Performance"@,
        "Web"@ != "Artwork"@,
        "Web"@ != "Exhibition"@,
        "Web"@ != "Patent"@,
        "Web"@ != "Case"@,
        "Web"@ != "Video"@,
        "Web"@ != "Audio"@,
        "Web"@ != "Proceedings"@,
        "Web"@ != "Conference"@,
        "Web"@ != "Book"@,
        "Web"@ != "Anthology"@,
        "Web"@ != "Reference"@,
        "Web"@ != "Repository"@,
        "Web"@ != "Misc"@,
        "Post"@ != "Thread"@,
        "Post"@ != "Blog"@,
        "Post"@ != "Scene"@,
        "Post"@ != "Performance"@,
        "Post"@ != "Artwork"@,
        "Post"@ != "Exhibition"@,
        "Post"@ != "Patent"@,
        "Post"@ != "Case"@,
        "Post"@ != "Video"@,
        "Post"@ != "Audio"@,
        "Post"@ != "Proceedings"@,
        "Post"@ != "Conference"@,
        "Post"@ != "Book"@,
        "Post"@ != "Anthology"@,
        "Post"@ != "Reference"@,
        "Post"@ != "Repository"@,
        "Post"@ != "Misc"@,
        "Thread"@ != "Blog"@,
        "Thread"@ != "Scene"@,
        "Thread"@ != "Performance"@,
        "Thread"@ != "Artwork"@,
        "Thread"@ != "Exhibition"@,
        "Thread"@ != "Patent"@,
        "Thread"@ != "Case"@,
        "Thread"@ != "Video"@,
        "Thread"@ != "Audio"@,
        "Thread"@ != "Proceedings"@,
        "Thread"@ != "Conference"@,
        "Thread"@ != "Book"@,
        "Thread"@ != "Anthology"@,
        "Thread"@ != "Reference"@,
        "Thread"@ != "Repository"@,
        "Thread"@ != "Misc"@,
        "Blog"@ != "Scene"@,
        "Blog"@ != "Performance"@,
        "Blog"@ != "Artwork"@,
        "Blog"@ != "Exhibition"@,
        "Blog"@ != "Patent"@,
        "Blog"@ != "Case"@,
        "Blog"@ != "Video"@,
        "Blog"@ != "Audio"@,
        "Blog"@ != "Proceedings"@,
        "Blog"@ != "Conference"@,
        "Blog"@ != "Book"@,
        "Blog"@ != "Anthology"@,
        "Blog"@ != "Reference"@,
        "Blog"@ != "Repository"@,
        "Blog"@ != "Misc"@,
        "Scene"@ != "Performance"@,
        "Scene"@ != "Artwork"@,
        "Scene"@ != "Exhibition"@,
        "Scene"@ != "Patent"@,
        "Scene"@ != "Case"@,
        "Scene"@ != "Video"@,
        "Scene"@ != "Audio"@,
        "Scene"@ != "Proceedings"@,
        "Scene"@ != "Conference"@,
        "Scene"@ != "Book"@,
        "Scene"@ != "Anthology"@,
        "Scene"@ != "Reference"@,
        "Scene"@ != "Repository"@,
        "Scene"@ != "Misc"@,
        "Performance"@ != "Artwork"@,
        "Performance"@ != "Exhibition"@,
        "Performance"@ != "Patent"@,
        "Performance"@ != "Case"@,
        "Performance"@ != "Video"@,
        "Performance"@ != "Audio"@,
        "Performance"@ != "Proceedings"@,
        "Performance"@ != "Conference"@,
        "Performance"@ != "Book"@,
        "Performance"@ != "Anthology"@,
        "Performance"@ != "Reference"@,
        "Performance"@ != "Repository"@,
        "Performance"@ != "Misc"@,
        "Artwork"@ != "Exhibition"@,
        "Artwork"@ != "Patent"@,
        "Artwork"@ != "Case"@,
        "Artwork"@ != "Video"@,
        "Artwork"@ != "Audio"@,
        "Artwork"@ != "Proceedings"@,
        "Artwork"@ != "Conference"@,
        "Artwork"@ != "Book"@,
        "Artwork"@ != "Anthology"@,
        "Artwork"@ != "Reference"@,
        "Artwork"@ != "Repository"@,
        "Artwork"@ != "Misc"@,
        "Exhibition"@ != "Patent"@,
        "Exhibition"@ != "Case"@,
        "Exhibition"@ != "Video"@,
        "Exhibition"@ != "Audio"@,
        "Exhibition"@ != "Proceedings"@,
        "Exhibition"@ != "Conference"@,
        "Exhibition"@ != "Book"@,
        "Exhibition"@ != "Anthology"@,
        "Exhibition"@ != "Reference"@,
        "Exhibition"@ != "Repository"@,
        "Exhibition"@ != "Misc"@,
        "Patent"@ != "Case"@,
        "Patent"@ != "Video"@,
        "Patent"@ != "Audio"@,
        "Patent"@ != "Proceedings"@,
        "Patent"@ != "Conference"@,
        "Patent"@ != "Book"@,
        "Patent"@ != "Anthology"@,
        "Patent"@ != "Reference"@,
        "Patent"@ != "Repository"@,
        "Patent"@ != "Misc"@,
        "Case"@ != "Video"@,
        "Case"@ != "Audio"@,
        "Case"@ != "Proceedings"@,
        "Case"@ != "Conference"@,
        "Case"@ != "Book"@,
        "Case"@ != "Anthology"@,
        "Case"@ != "Reference"@,
        "Case"@ != "Repository"@,
        "Case"@ != "Misc"@,
        "Video"@ != "Audio"@,
        "Video"@ != "Proceedings"@,
        "Video"@ != "Conference"@,
        "Video"@ != "Book"@,
        "Video"@ != "Anthology"@,
        "Video"@ != "Reference"@,
        "Video"@ != "Repository"@,
        "Video"@ != "Misc"@,
        "Audio"@ != "Proceedings"@,
        "Audio"@ != "Conference"@,
        "Audio"@ != "Book"@,
        "Audio"@ != "Anthology"@,
        "Audio"@ != "Reference"@,
        "Audio"@ != "Repository"@,
        "Audio"@ != "Misc"@,
        "Proceedings"@ != "Conference"@,
        "Proceedings"@ != "Book"@,
        "Proceedings"@ != "Anthology"@,
        "Proceedings"@ != "Reference"@,
        "Proceedings"@ != "Repository"@,
        "Proceedings"@ != "Misc"@,
        "Conference"@ != "Book"@,
        "Conference"@ != "Anthology"@,
        "Conference"@ != "Reference"@,
        "Conference"@ != "Repository"@,
        "Conference"@ != "Misc"@,
        "Book"@ != "Anthology"@,
        "Book"@ != "Reference"@,
        "Book"@ != "Repository"@,
        "Book"@ != "Misc"@,
        "Anthology"@ != "Reference"@,
        "Anthology"@ != "Repository"@,
        "Anthology"@ != "Misc"@,
        "Reference"@ != "Repository"@,
        "Reference"@ != "Misc"@,
        "Repository"@ != "Misc"@,
{
    reveal_strlit("Article");
    reveal_strlit("Periodical");
    reveal_strlit("Newspaper");
    reveal_strlit("Chapter");
    reveal_strlit("Anthos");
    reveal_strlit("Report");
    reveal_strlit("Thesis");
    reveal_strlit("Web");
    reveal_strlit("Post");
    reveal_strlit("Thread");
    reveal_strlit("Blog");
    reveal_strlit("Scene");
    reveal_strlit("Performance");
    reveal_strlit("Artwork");
    reveal_strlit("Exhibition");
    reveal_strlit("Patent");
    reveal_strlit("Case");
    reveal_strlit("Video");
    reveal_strlit("Audio");
    reveal_strlit("Proceedings");
    reveal_strlit("Conference");
    reveal_strlit("Book");
    reveal_strlit("Anthology");
    reveal_strlit("Reference");
    reveal_strlit("Repository");
    reveal_strlit("Misc");
    assert("Article"@.len() == 7);
    assert("Periodical"@.len() == 10);
    assert("Newspaper"@.len() == 9);
    assert("Chapter"@.len() == 7);
    assert("Anthos"@.len() == 6);
    assert("Report"@.len() == 6);
    assert("Thesis"@.len() == 6);
    assert("Web"@.len() == 3);
    assert("Post"@.len() == 4);
    assert("Thread"@.len() == 6);
    assert("Blog"@.len() == 4);
    assert("Scene"@.len() == 5);
    assert("Performance"@.len() == 11);
    assert("Artwork"@.len() == 7);
    assert("Exhibition"@.len() == 10);
    assert("Patent"@.len() == 6);
    assert("Case"@.len() == 4);
    assert("Video"@.len() == 5);
    assert("Audio"@.len() == 5);
    assert("Proceedings"@.len() == 11);
    assert("Conference"@.len() == 10);
    assert("Book"@.len() == 4);
    assert("Anthology"@.len() == 9);
    assert("Reference"@.len() == 9);
    assert("Repository"@.len() == 10);
    assert("Misc"@.len() == 4);
    assert("Article"@[0] != "Chapter"@[0]);
    assert("Article"@[3] != "Artwork"@[3]);
    assert("Periodical"@[0] != "Exhibition"@[0]);
    assert("Periodical"@[0] != "Conference"@[0]);
    assert("Periodical"@[0] != "Repository"@[0]);
    assert("Newspaper"@[0] != "Anthology"@[0]);
    assert("Newspaper"@[0] != "Reference"@[0]);
    assert("Chapter"@[0] != "Artwork"@[0]);
    assert("Anthos"@[0] != "Report"@[0]);
    assert("Anthos"@[0] != "Thesis"@[0]);
    assert("Anthos"@[0] != "Thread"@[0]);
    assert("Anthos"@[0] != "Patent"@[0]);
    assert("Report"@[0] != "Thesis"@[0]);
    assert("Report"@[0] != "Thread"@[0]);
    assert("Report"@[0] != "Patent"@[0]);
    assert("Thesis"@[2] != "Thread"@[2]);
    assert("Thesis"@[0] != "Patent"@[0]);
    assert("Post"@[0] != "Blog"@[0]);
    assert("Post"@[0] != "Case"@[0]);
    assert("Post"@[0] != "Book"@[0]);
    assert("Post"@[0] != "Misc"@[0]);
    assert("Thread"@[0] != "Patent"@[0]);
    assert("Blog"@[0] != "Case"@[0]);
    assert("Blog"@[1] != "Book"@[1]);
    assert("Blog"@[0] != "Misc"@[0]);
    assert("Scene"@[0] != "Video"@[0]);
    assert("Scene"@[0] != "Audio"@[0]);
    assert("Performance"@[1] != "Proceedings"@[1]);
    assert("Exhibition"@[0] != "Conference"@[0]);
    assert("Exhibition"@[0] != "Repository"@[0]);
    assert("Case"@[0] != "Book"@[0]);
    assert("Case"@[0] != "Misc"@[0]);
    assert("Video"@[0] != "Audio"@[0]);
    assert("Conference"@[0] != "Repository"@[0]);
    assert("Book"@[0] != "Misc"@[0]);
    assert("Anthology"@[0] != "Reference"@[0]);
}

/// The type of a source, for every kind of entry that has one.
pub proof fn kinds_have_their_source_type()
    ensures
        source_type_of("Article"@) == "ArticleInAPeriodical"@,
        source_type_of("Periodical"@) == "ArticleInAPeriodical"@,
        source_type_of("Newspaper"@) == "ArticleInAPeriodical"@,
        source_type_of("Chapter"@) == "BookSection"@,
        source_type_of("Anthos"@) == "BookSection"@,
        source_type_of("Report"@) == "Report"@,
        source_type_of("Thesis"@) == "Report"@,
        source_type_of("Web"@) == "DocumentFromInternetSite"@,
        source_type_of("Post"@) == "DocumentFromInternetSite"@,
        source_type_of("Thread"@) == "DocumentFromInternetSite"@,
        source_type_of("Blog"@) == "InternetSite"@,
        source_type_of("Scene"@) == "Performance"@,
        source_type_of("Performance"@) == "Performance"@,
        source_type_of("Artwork"@) == "Art"@,
        source_type_of("Exhibition"@) == "Art"@,
        source_type_of("Patent"@) == "Patent"@,
        source_type_of("Case"@) == "Case"@,
        source_type_of("Video"@) == "Film"@,
        source_type_of("Audio"@) == "SoundRecording"@,
        source_type_of("Proceedings"@) == "ConferenceProceedings"@,
        source_type_of("Conference"@) == "ConferenceProceedings"@,
        source_type_of("Book"@) == "Book"@,
        source_type_of("Anthology"@) == "Book"@,
        source_type_of("Reference"@) == "Book"@,
        source_type_of("Repository"@) == "ElectronicSource"@,
        source_type_of("Misc"@) == "Misc"@,
{
    kind_words();
}

/// The fields of an entry go over to its source, each as itself; the title of what
/// holds it is that of a journal only for what appears in one.
pub proof fn entries_become_sources(tag: Seq<char>, guid: Seq<char>, e: EntryLook)
    ensures
        ({
            let s = source_of(tag, guid, e);
            &&& s.tag == tag
            &&& s.guid == guid
            &&& s.title == e.title
            &&& s.publisher == e.publisher
            &&& s.city == e.city
            &&& s.volume == e.volume
            &&& s.issue == e.issue
            &&& s.pages == e.pages
            &&& s.url == e.url
            &&& e.year is Some ==> s.year == Some(dec(e.year.unwrap() as int))
            &&& e.year is None ==> s.year is None
            &&& e.kind == "Article"@ || e.kind == "Periodical"@ || e.kind == "Newspaper"@
                ==> s.journal_name == e.parent_title
            &&& e.kind != "Article"@ && e.kind != "Periodical"@ && e.kind != "Newspaper"@
                ==> s.journal_name is None
        }),
{
}

/// People come before an organization as the author of a source.
pub proof fn people_come_first(e: EntryLook)
    ensures
        e.authors is Some && e.authors.unwrap().len() > 0 ==> author_of(e) == AuthorLook::Persons(
            e.authors.unwrap(),
        ),
        (e.authors is None || e.authors.unwrap().len() == 0) && e.organization is Some
            ==> author_of(e) == AuthorLook::Corporate(e.organization.unwrap()),
        (e.authors is None || e.authors.unwrap().len() == 0) && e.organization is None
            ==> author_of(e) == AuthorLook::Absent,
{
}

} // verus!
