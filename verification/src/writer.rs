//! Where an article is stored, and what its file holds.

use crate::article::{Article, ArticleView};
use crate::text::{lemma_replaced_char_is_gone, lemma_substring_needs_its_chars, has_substring, lowercased, replace, replaced};
use vstd::prelude::*;

verus! {

/// What CBC News puts behind a headline.
pub const CBC_SUFFIX: &'static str = " | CBC News";

/// What the National Post puts behind a headline.
pub const NATIONAL_POST_SUFFIX: &'static str = " | National Post";

/// What the Toronto Star puts behind a headline.
pub const STAR_SUFFIX: &'static str = " | The Star";

/// The extension of an article's file.
pub const EXTENSION: &'static str = ".txt";

/// What follows each paragraph in an article's file: the end of its line and
/// one blank line.
pub const PARAGRAPH_END: &'static str = "\n\n";

/// The directory under which every source has its own directory.
pub const CORPUS_ROOT: &'static str = "scraped";

/// The separator between the parts of a path.
pub const SEPARATOR: &'static str = "/";

/// A headline without the names of the sources.
pub open spec fn without_site_names(title: Seq<char>) -> Seq<char> {
    replaced(
        replaced(replaced(title, CBC_SUFFIX@, ""@), NATIONAL_POST_SUFFIX@, ""@),
        STAR_SUFFIX@,
        ""@,
    )
}

/// A headline without the names of the sources and with an underscore for
/// every space, in the case in which it was written.
pub open spec fn stem_of(title: Seq<char>) -> Seq<char> {
    replaced(without_site_names(title), " "@, "_"@)
}

/// The slug of a headline: its stem in lower case.
pub open spec fn slug_of(title: Seq<char>) -> Seq<char> {
    lowercased(stem_of(title))
}

/// The name of the file that holds the article with this headline.
pub open spec fn file_name_of(title: Seq<char>) -> Seq<char> {
    slug_of(title) + EXTENSION@
}

/// What an article's file holds: each paragraph, in order, followed by a blank
/// line.
pub open spec fn rendered(paragraphs: Seq<Seq<char>>) -> Seq<char>
    decreases paragraphs.len(),
{
    if paragraphs.len() == 0 {
        Seq::empty()
    } else {
        rendered(paragraphs.drop_last()) + paragraphs.last() + PARAGRAPH_END@
    }
}

/// The directory of a source below the corpus root.
pub open spec fn site_root_of(site_name: Seq<char>) -> Seq<char> {
    CORPUS_ROOT@ + SEPARATOR@ + site_name
}

/// The directory of a date below a source's directory.
pub open spec fn date_dir_of(path_root: Seq<char>, date: Seq<char>) -> Seq<char> {
    path_root + SEPARATOR@ + date
}

/// The file that is to hold an article, and what is to be written to it.
#[derive(Debug)]
pub struct ArticleFile {
    /// The directory of the article's date; it may have to be created.
    pub dir: String,
    /// The file inside that directory.
    pub path: String,
    /// The whole content of the file; what the file held before is lost.
    pub content: String,
}

/// The file that is to hold an article below a source's directory.
pub open spec fn file_of(article: ArticleView, path_root: Seq<char>) -> (Seq<char>, Seq<char>, Seq<
    char,
>) {
    (
        date_dir_of(path_root, article.date),
        date_dir_of(path_root, article.date) + SEPARATOR@ + file_name_of(article.title),
        rendered(article.contents),
    )
}

/// The slug of a headline: the names of the sources taken out, an underscore
/// for every space, all in lower case.
pub fn derive_slug(title: &str) -> (slug: String)
    ensures
        slug@ == slug_of(title@),
{
    let a = replace(title, CBC_SUFFIX, "");
    let b = replace(a.as_str(), NATIONAL_POST_SUFFIX, "");
    let c = replace(b.as_str(), STAR_SUFFIX, "");
    let stem = replace(c.as_str(), " ", "_");
    stem.as_str().to_lowercase()
}

/// The name of the file for a headline. The same headline always gives the
/// same name.
pub fn derive_filename(title: &str) -> (name: String)
    ensures
        name@ == file_name_of(title@),
{
    let mut name = derive_slug(title);
    name.append(EXTENSION);
    name
}

/// What an article's file holds.
pub fn render(paragraphs: &Vec<String>) -> (content: String)
    ensures
        content@ == rendered(paragraphs.deep_view()),
{
    let mut content = String::new();
    let mut i: usize = 0;
    assert(paragraphs.deep_view().take(0) =~= Seq::empty());
    while i < paragraphs.len()
        invariant
            i <= paragraphs.len(),
            content@ == rendered(paragraphs.deep_view().take(i as int)),
        decreases paragraphs.len() - i,
    {
        let ghost head = paragraphs.deep_view().take(i as int + 1);
        assert(head.drop_last() =~= paragraphs.deep_view().take(i as int));
        assert(head.last() == paragraphs[i as int]@);
        content.append(paragraphs[i].as_str());
        content.append(PARAGRAPH_END);
        i += 1;
    }
    assert(paragraphs.deep_view().take(i as int) =~= paragraphs.deep_view());
    content
}

/// The directory of a source below the corpus root.
pub fn site_root(site_name: &str) -> (root: String)
    ensures
        root@ == site_root_of(site_name@),
{
    let mut root = CORPUS_ROOT.to_owned();
    root.append(SEPARATOR);
    root.append(site_name);
    root
}

/// Decides where an article is stored below a source's directory and what
/// its file holds: the directory is named by the article's date, the file by
/// its headline. Two articles with the same date and slug get the same file,
/// and the later write replaces the earlier.
pub fn save_article(article: &Article, path_root: &str) -> (file: ArticleFile)
    ensures
        (file.dir@, file.path@, file.content@) == file_of(article@, path_root@),
{
    let mut dir = path_root.to_owned();
    dir.append(SEPARATOR);
    dir.append(article.date.as_str());
    let mut path = dir.clone();
    path.append(SEPARATOR);
    path.append(derive_filename(article.title.as_str()).as_str());
    ArticleFile { dir, path, content: render(&article.contents) }
}

/// Before its letters are put in lower case, a slug holds no space, and so
/// none of the source names that were to be taken out.
pub proof fn lemma_stem_has_no_space(title: Seq<char>)
    ensures
        !stem_of(title).contains(' '),
        !has_substring(stem_of(title), CBC_SUFFIX@),
        !has_substring(stem_of(title), NATIONAL_POST_SUFFIX@),
        !has_substring(stem_of(title), STAR_SUFFIX@),
{
    reveal_strlit(" ");
    reveal_strlit("_");
    reveal_strlit(" | CBC News");
    reveal_strlit(" | National Post");
    reveal_strlit(" | The Star");
    let space = " "@;
    let underscore = "_"@;
    assert(space[0] == ' ');
    assert(!underscore.contains(' ')) by {
        if underscore.contains(' ') {
            let k = choose|k: int| 0 <= k < underscore.len() && underscore[k] == ' ';
            assert(underscore[0] == '_');
        }
    }
    lemma_replaced_char_is_gone(without_site_names(title), space, underscore);
    assert(CBC_SUFFIX@[0] == ' ');
    assert(NATIONAL_POST_SUFFIX@[0] == ' ');
    assert(STAR_SUFFIX@[0] == ' ');
    lemma_substring_needs_its_chars(stem_of(title), CBC_SUFFIX@, ' ');
    lemma_substring_needs_its_chars(stem_of(title), NATIONAL_POST_SUFFIX@, ' ');
    lemma_substring_needs_its_chars(stem_of(title), STAR_SUFFIX@, ' ');
}

/// Putting a text in lower case brings no space into it.
pub open spec fn lowercase_adds_no_space() -> bool {
    forall|text: Seq<char>| !text.contains(' ') ==> !(#[trigger] lowercased(text)).contains(' ')
}

/// Where putting a text in lower case brings no space into it, a slug holds
/// no space, and so none of the source names that were to be taken out.
pub proof fn lemma_slug_has_no_space(title: Seq<char>)
    requires
        lowercase_adds_no_space(),
    ensures
        !slug_of(title).contains(' '),
        !has_substring(slug_of(title), CBC_SUFFIX@),
        !has_substring(slug_of(title), NATIONAL_POST_SUFFIX@),
        !has_substring(slug_of(title), STAR_SUFFIX@),
{
    lemma_stem_has_no_space(title);
    reveal_strlit(" | CBC News");
    reveal_strlit(" | National Post");
    reveal_strlit(" | The Star");
    assert(CBC_SUFFIX@[0] == ' ');
    assert(NATIONAL_POST_SUFFIX@[0] == ' ');
    assert(STAR_SUFFIX@[0] == ' ');
    lemma_substring_needs_its_chars(slug_of(title), CBC_SUFFIX@, ' ');
    lemma_substring_needs_its_chars(slug_of(title), NATIONAL_POST_SUFFIX@, ' ');
    lemma_substring_needs_its_chars(slug_of(title), STAR_SUFFIX@, ' ');
}

/// The content ends each paragraph with a blank line and keeps the order of
/// the paragraphs: the content of two runs of paragraphs put together is that
/// of the first run, then that of the second.
pub proof fn lemma_rendered_keeps_order(first: Seq<Seq<char>>, second: Seq<Seq<char>>)
    ensures
        rendered(first + second) == rendered(first) + rendered(second),
    decreases second.len(),
{
    if second.len() == 0 {
        assert(first + second =~= first);
        assert(rendered(first) + rendered(second) =~= rendered(first));
    } else {
        lemma_rendered_keeps_order(first, second.drop_last());
        assert((first + second).drop_last() =~= first + second.drop_last());
        assert((first + second).last() == second.last());
        assert(rendered(first + second) =~= rendered(first) + rendered(second));
    }
}

} // verus!
