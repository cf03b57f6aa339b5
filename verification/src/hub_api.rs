//! The catalog entry model: one published item, its classification into a
//! category and an implementation language, and the predicates the search
//! commands match entries with.

use vstd::prelude::*;

verus! {

use vstd::string::StrSliceExecFns;
use vstd::string::StringExecFns;

broadcast use vstd::string::group_string_axioms;
use crate::text::{
    lower_of,
    words_of,
    is_ws,
    str_seqs,
    opt_view,
    to_lowercase_str,
    split_whitespace_words,
    char_is_whitespace,
    vec_contains_str,
    str_eq,
    trim_str,
    trimmed,
};

/// The errors a command can surface. Each variant carries the text that
/// identifies the failing subject.
#[derive(Debug)]
pub enum Error {
    /// The catalog could not be fetched, or the response was unsuccessful.
    CatalogFetchFailed(String),
    /// The catalog body could not be decoded.
    CatalogParseFailed(String),
    /// The entry lacks the repository URL or template identifier its
    /// category requires, or that URL yields no clone directory name.
    MissingLocatorData(String),
    /// A catalog-supplied sub-path failed validation.
    UnsafePath(String),
    /// The scaffold target directory already exists.
    DirectoryAlreadyExists(String),
    /// The selected template is absent from its repository.
    TemplateNotFound,
    /// An external process failed to start or exited unsuccessfully.
    ExternalProcessFailed(String),
    /// A required environment value is absent.
    MissingConfiguration(String),
}

/// The mathematical value of an `IndexEntry`.
pub struct IndexEntryV {
    pub title: Seq<char>,
    pub summary: Seq<char>,
    pub category: Seq<char>,
    pub language: Seq<char>,
    pub author: Seq<char>,
    pub tags: Seq<Seq<char>>,
    pub path: Seq<char>,
    pub repo_url: Option<Seq<char>>,
    pub template_id: Option<Seq<char>>,
}

/// One catalog item. Entries are immutable value objects: the raw category
/// and language texts are kept as fetched and classified on demand, and the
/// locator fields are present as the entry's category requires.
#[derive(Debug)]
pub struct IndexEntry {
    title: String,
    summary: String,
    category: String,
    language: String,
    author: String,
    tags: Vec<String>,
    path: String,
    repo_url: Option<String>,
    template_id: Option<String>,
}

impl View for IndexEntry {
    type V = IndexEntryV;

    closed spec fn view(&self) -> IndexEntryV {
        IndexEntryV {
            title: self.title@,
            summary: self.summary@,
            category: self.category@,
            language: self.language@,
            author: self.author@,
            tags: str_seqs(self.tags@),
            path: self.path@,
            repo_url: opt_view(self.repo_url),
            template_id: opt_view(self.template_id),
        }
    }
}

fn clone_string_vec(v: &Vec<String>) -> (r: Vec<String>)
    ensures
        r@ == v@,
{
    let mut out: Vec<String> = Vec::new();
    let mut i: usize = 0;
    while i < v.len()
        invariant
            0 <= i <= v@.len(),
            out@.len() == i,
            forall|j: int| 0 <= j < i ==> out@[j] == v@[j],
        decreases v@.len() - i,
    {
        out.push(v[i].clone());
        i += 1;
    }
    proof {
        assert(out@ =~= v@);
    }
    out
}

fn clone_opt_string(o: &Option<String>) -> (r: Option<String>)
    ensures
        r == *o,
{
    match o {
        Some(s) => Some(s.clone()),
        None => None,
    }
}

impl Clone for IndexEntry {
    fn clone(&self) -> (r: Self)
        ensures
            r@ == self@,
    {
        IndexEntry {
            title: self.title.clone(),
            summary: self.summary.clone(),
            category: self.category.clone(),
            language: self.language.clone(),
            author: self.author.clone(),
            tags: clone_string_vec(&self.tags),
            path: self.path.clone(),
            repo_url: clone_opt_string(&self.repo_url),
            template_id: clone_opt_string(&self.template_id),
        }
    }
}

impl IndexEntry {
    /// Builds an entry from its parts.
    pub fn new(
        title: String,
        summary: String,
        category: String,
        language: String,
        author: String,
        tags: Vec<String>,
        path: String,
        repo_url: Option<String>,
        template_id: Option<String>,
    ) -> (r: Self)
        ensures
            r@ == (IndexEntryV {
                title: title@,
                summary: summary@,
                category: category@,
                language: language@,
                author: author@,
                tags: str_seqs(tags@),
                path: path@,
                repo_url: opt_view(repo_url),
                template_id: opt_view(template_id),
            }),
    {
        IndexEntry { title, summary, category, language, author, tags, path, repo_url, template_id }
    }

    pub fn title(&self) -> (r: &str)
        ensures
            r@ == self@.title,
    {
        self.title.as_str()
    }

    pub fn summary(&self) -> (r: &str)
        ensures
            r@ == self@.summary,
    {
        self.summary.as_str()
    }

    pub fn author(&self) -> (r: &str)
        ensures
            r@ == self@.author,
    {
        self.author.as_str()
    }

    pub fn path(&self) -> (r: &str)
        ensures
            r@ == self@.path,
    {
        self.path.as_str()
    }

    pub fn repo_url(&self) -> (r: &Option<String>)
        ensures
            opt_view(*r) == self@.repo_url,
    {
        &self.repo_url
    }

    pub fn template_id(&self) -> (r: &Option<String>)
        ensures
            opt_view(*r) == self@.template_id,
    {
        &self.template_id
    }
}

pub const SHORT_SUMMARY_LEN: usize = 60;

pub const SUMMARY_SUFFIX_LEN: usize = 3;

pub const SUMMARY_MIN_LEN: usize = 5;

/// The greatest index in `[min, i]` holding a whitespace character, or
/// `min - 1` when there is none.
pub open spec fn ws_scan(s: Seq<char>, i: int, min: int) -> int
    decreases i - min + 1,
{
    if i < min {
        min - 1
    } else if is_ws(s[i]) {
        i
    } else {
        ws_scan(s, i - 1, min)
    }
}

/// What `truncate_to_word_boundary` returns: the input when it already fits,
/// else the trimmed prefix ending before the last whitespace found no earlier
/// than `min_len`, else the plain prefix of length `max_len`.
pub open spec fn truncate_spec(s: Seq<char>, max_len: int, min_len: int) -> Seq<char> {
    if s.len() <= max_len {
        s
    } else {
        let w = ws_scan(s, max_len - 1, min_len);
        if w >= min_len {
            trimmed(s.subrange(0, w))
        } else {
            s.subrange(0, max_len)
        }
    }
}

/// Shortens `source` to at most `max_len` characters, preferring to cut at a
/// whitespace boundary no earlier than `min_len` and trimming the cut end.
pub fn truncate_to_word_boundary(source: &str, max_len: usize, min_len: usize) -> (r: &str)
    requires
        1 <= min_len < max_len,
    ensures
        r@ == truncate_spec(source@, max_len as int, min_len as int),
{
    let n = source.unicode_len();
    if n <= max_len {
        return source;
    }
    let mut i: usize = max_len;
    while i > min_len
        invariant
            n == source@.len(),
            max_len < n,
            min_len <= i <= max_len,
            ws_scan(source@, max_len - 1, min_len as int) == ws_scan(
                source@,
                i - 1,
                min_len as int,
            ),
        decreases i,
    {
        if char_is_whitespace(source.get_char(i - 1)) {
            return trim_str(source.substring_char(0, i - 1));
        }
        i -= 1;
    }
    source.substring_char(0, max_len)
}

/// The summary cut for table display: unchanged when it is short, else
/// truncated at a word boundary and marked with an ellipsis.
pub open spec fn short_summary_spec(s: Seq<char>) -> Seq<char> {
    if s.len() < SHORT_SUMMARY_LEN {
        s
    } else {
        truncate_spec(
            s,
            SHORT_SUMMARY_LEN - SUMMARY_SUFFIX_LEN,
            SUMMARY_MIN_LEN as int,
        ) + "..."@
    }
}

/// The entry's tag set, case-folded.
pub open spec fn entry_tags(e: IndexEntryV) -> Seq<Seq<char>> {
    e.tags.map_values(|w: Seq<char>| lower_of(w))
}

/// The whitespace-separated words of the entry's title, case-folded.
pub open spec fn entry_title_words(e: IndexEntryV) -> Seq<Seq<char>> {
    words_of(e.title).map_values(|w: Seq<char>| lower_of(w))
}

/// One search term, case-folded, appears in the entry's tag set or among the
/// case-folded words of its title.
pub open spec fn term_matches(t: Seq<char>, e: IndexEntryV) -> bool {
    entry_tags(e).contains(lower_of(t)) || entry_title_words(e).contains(lower_of(t))
}

/// Every supplied term matches; an empty term list matches unconditionally.
pub open spec fn terms_match(terms: Seq<Seq<char>>, e: IndexEntryV) -> bool {
    forall|i: int| 0 <= i < terms.len() ==> #[trigger] term_matches(terms[i], e)
}

/// An empty term list acts as a wildcard: it matches every entry.
pub proof fn lemma_empty_terms_match_all(e: IndexEntryV)
    ensures
        terms_match(Seq::<Seq<char>>::empty(), e),
{
}

/// Decides `terms_match` for an entry.
pub fn terms_match_exec(terms: &Vec<String>, index_entry: &IndexEntry) -> (r: bool)
    ensures
        r == terms_match(str_seqs(terms@), index_entry@),
{
    let tags = index_entry.tags();
    let words = index_entry.title_words();
    let mut i: usize = 0;
    while i < terms.len()
        invariant
            0 <= i <= terms@.len(),
            str_seqs(tags@) == entry_tags(index_entry@),
            str_seqs(words@) == entry_title_words(index_entry@),
            forall|j: int| 0 <= j < i ==> #[trigger] term_matches(str_seqs(terms@)[j], index_entry@),
        decreases terms@.len() - i,
    {
        let t = to_lowercase_str(terms[i].as_str());
        if !vec_contains_str(&tags, t.as_str()) && !vec_contains_str(&words, t.as_str()) {
            proof {
                assert(!term_matches(str_seqs(terms@)[i as int], index_entry@));
            }
            return false;
        }
        i += 1;
    }
    true
}

impl IndexEntry {
    /// The summary cut down for table display.
    pub fn short_summary(&self) -> (r: String)
        ensures
            r@ == short_summary_spec(self@.summary),
    {
        if self.summary.as_str().unicode_len() < SHORT_SUMMARY_LEN {
            self.summary.clone()
        } else {
            let max_len = SHORT_SUMMARY_LEN - SUMMARY_SUFFIX_LEN;
            let truncated = truncate_to_word_boundary(self.summary.as_str(), max_len, SUMMARY_MIN_LEN);
            String::from_str(truncated).concat("...")
        }
    }

    /// The entry's tags, case-folded.
    pub fn tags(&self) -> (r: Vec<String>)
        ensures
            str_seqs(r@) == entry_tags(self@),
    {
        let mut out: Vec<String> = Vec::new();
        let mut i: usize = 0;
        while i < self.tags.len()
            invariant
                0 <= i <= self.tags@.len(),
                out@.len() == i,
                forall|j: int| 0 <= j < i ==> #[trigger] str_seqs(out@)[j] == entry_tags(self@)[j],
            decreases self.tags@.len() - i,
        {
            let t = to_lowercase_str(self.tags[i].as_str());
            let ghost prev = out@;
            out.push(t);
            proof {
                assert forall|j: int|
                    0 <= j < i + 1 implies #[trigger] str_seqs(out@)[j] == entry_tags(self@)[j] by {
                    if j < i {
                        assert(str_seqs(prev)[j] == entry_tags(self@)[j]);
                    } else {
                        assert(str_seqs(out@)[j] == t@);
                        assert(entry_tags(self@)[j] == lower_of(str_seqs(self.tags@)[j]));
                    }
                }
            }
            i += 1;
        }
        proof {
            assert(str_seqs(out@) =~= entry_tags(self@));
        }
        out
    }

    /// The whitespace-separated words of the title, case-folded.
    pub fn title_words(&self) -> (r: Vec<String>)
        ensures
            str_seqs(r@) == entry_title_words(self@),
    {
        let words = split_whitespace_words(self.title.as_str());
        let mut out: Vec<String> = Vec::new();
        let mut i: usize = 0;
        while i < words.len()
            invariant
                str_seqs(words@) == words_of(self@.title),
                0 <= i <= words@.len(),
                out@.len() == i,
                forall|j: int|
                    0 <= j < i ==> #[trigger] str_seqs(out@)[j] == entry_title_words(self@)[j],
            decreases words@.len() - i,
        {
            let t = to_lowercase_str(words[i].as_str());
            let ghost prev = out@;
            out.push(t);
            proof {
                assert forall|j: int|
                    0 <= j < i + 1 implies #[trigger] str_seqs(out@)[j] == entry_title_words(
                    self@,
                )[j] by {
                    if j < i {
                        assert(str_seqs(prev)[j] == entry_title_words(self@)[j]);
                    } else {
                        assert(str_seqs(out@)[j] == t@);
                        assert(entry_title_words(self@)[j] == lower_of(words_of(self@.title)[j]));
                        assert(words_of(self@.title)[j] == str_seqs(words@)[j]);
                    }
                }
            }
            i += 1;
        }
        proof {
            assert(str_seqs(out@) =~= entry_title_words(self@));
        }
        out
    }
}

/// Interprets the catalog fetch response: an unsuccessful status is fatal
/// for the whole command, with the status text surfaced.
pub fn response_outcome(success: bool, status: &str) -> (r: Result<(), Error>)
    ensures
        r is Ok <==> success,
        (r matches Err(e) ==> (e matches Error::CatalogFetchFailed(m) && m@ == status@)),
{
    if success {
        Ok(())
    } else {
        Err(Error::CatalogFetchFailed(String::from_str(status)))
    }
}

/// The implementation languages the catalog classifies entries into.
#[derive(Debug)]
pub enum Language {
    Neutral,
    Rust,
    JavaScript,
    Python,
    Go,
    Other(String),
}

/// The case-folded language texts that classify to a canonical variant.
pub open spec fn known_language(l: Seq<char>) -> bool {
    l == "rust"@ || l == "js/ts"@ || l == "javascript"@ || l == "typescript"@ || l == "python"@
        || l == "go"@ || l == "tinygo"@
}

/// What `Language::is_match` decides for a classified language and a raw
/// filter text: each canonical language accepts its fixed alias set, and an
/// unclassified language accepts exactly its own stored text,
/// case-insensitively.
pub open spec fn lang_is_match(l: Language, filter: Seq<char>) -> bool {
    let fl = lower_of(filter);
    match l {
        Language::Neutral => true,
        Language::Rust => fl == "rust"@ || fl == "rs"@,
        Language::JavaScript => fl == "javascript"@ || fl == "js"@ || fl == "typescript"@ || fl
            == "ts"@,
        Language::Python => fl == "python"@ || fl == "python3"@ || fl == "py"@,
        Language::Go => fl == "go"@ || fl == "tinygo"@ || fl == "golang"@,
        Language::Other(name) => fl == lower_of(name@),
    }
}

/// Whether an entry whose raw language text is `entry_raw` satisfies the raw
/// language filter `filter`: classification of the entry text followed by
/// alias matching of the filter text.
pub open spec fn lang_matches(entry_raw: Seq<char>, filter: Seq<char>) -> bool {
    let el = lower_of(entry_raw);
    let fl = lower_of(filter);
    if el == "rust"@ {
        fl == "rust"@ || fl == "rs"@
    } else if el == "js/ts"@ || el == "javascript"@ || el == "typescript"@ {
        fl == "javascript"@ || fl == "js"@ || fl == "typescript"@ || fl == "ts"@
    } else if el == "python"@ {
        fl == "python"@ || fl == "python3"@ || fl == "py"@
    } else if el == "go"@ || el == "tinygo"@ {
        fl == "go"@ || fl == "tinygo"@ || fl == "golang"@
    } else {
        fl == el
    }
}

proof fn lemma_language_literal_shapes()
    ensures
        "rust"@.len() == 4,
        "js/ts"@.len() == 5,
        "javascript"@.len() == 10,
        "typescript"@.len() == 10,
        "python"@.len() == 6,
        "go"@.len() == 2,
        "tinygo"@.len() == 6,
        "javascript"@[0] == 'j',
        "typescript"@[0] == 't',
        "python"@[0] == 'p',
        "tinygo"@[0] == 't',
{
    reveal_strlit("rust");
    reveal_strlit("js/ts");
    reveal_strlit("javascript");
    reveal_strlit("typescript");
    reveal_strlit("python");
    reveal_strlit("go");
    reveal_strlit("tinygo");
}

proof fn lemma_category_literal_shapes()
    ensures
        "library"@.len() == 7,
        "plugin"@.len() == 6,
        "sample"@.len() == 6,
        "template"@.len() == 8,
        "plugin"@[0] == 'p',
        "sample"@[0] == 's',
{
    reveal_strlit("library");
    reveal_strlit("plugin");
    reveal_strlit("sample");
    reveal_strlit("template");
}

impl Language {
    /// Whether the raw filter text names this language.
    pub fn is_match(&self, lang: &str) -> (r: bool)
        ensures
            r == lang_is_match(*self, lang@),
    {
        let l = to_lowercase_str(lang);
        match self {
            Language::Neutral => true,
            Language::Rust => str_eq(l.as_str(), "rust") || str_eq(l.as_str(), "rs"),
            Language::JavaScript => str_eq(l.as_str(), "javascript") || str_eq(l.as_str(), "js")
                || str_eq(l.as_str(), "typescript") || str_eq(l.as_str(), "ts"),
            Language::Python => str_eq(l.as_str(), "python") || str_eq(l.as_str(), "python3")
                || str_eq(l.as_str(), "py"),
            Language::Go => str_eq(l.as_str(), "go") || str_eq(l.as_str(), "tinygo") || str_eq(
                l.as_str(),
                "golang",
            ),
            Language::Other(name) => {
                let n = to_lowercase_str(name.as_str());
                str_eq(l.as_str(), n.as_str())
            },
        }
    }
}

impl IndexEntry {
    /// Classifies the entry's raw language text.
    pub fn language(&self) -> (r: Language)
        ensures
            lower_of(self@.language) == "rust"@ ==> r == Language::Rust,
            (lower_of(self@.language) == "js/ts"@ || lower_of(self@.language) == "javascript"@
                || lower_of(self@.language) == "typescript"@) ==> r == Language::JavaScript,
            lower_of(self@.language) == "python"@ ==> r == Language::Python,
            (lower_of(self@.language) == "go"@ || lower_of(self@.language) == "tinygo"@) ==> r
                == Language::Go,
            !known_language(lower_of(self@.language)) ==> (r matches Language::Other(s) && s@
                == self@.language),
    {
        proof {
            lemma_language_literal_shapes();
        }
        let l = to_lowercase_str(self.language.as_str());
        if str_eq(l.as_str(), "rust") {
            Language::Rust
        } else if str_eq(l.as_str(), "js/ts") || str_eq(l.as_str(), "javascript") || str_eq(
            l.as_str(),
            "typescript",
        ) {
            Language::JavaScript
        } else if str_eq(l.as_str(), "python") {
            Language::Python
        } else if str_eq(l.as_str(), "go") || str_eq(l.as_str(), "tinygo") {
            Language::Go
        } else {
            Language::Other(self.language.clone())
        }
    }
}

/// The content categories the catalog classifies entries into.
#[derive(Debug)]
pub enum Category {
    Library,
    Plugin,
    Template,
    Sample,
    Other(String),
}

/// The case-folded category texts that parse to a recognized variant.
pub open spec fn recognized_category(l: Seq<char>) -> bool {
    l == "library"@ || l == "plugin"@ || l == "sample"@ || l == "template"@
}

/// Category equality: recognized variants by variant, unrecognized ones by
/// their stored raw text.
pub open spec fn cat_eq(a: Category, b: Category) -> bool {
    match (a, b) {
        (Category::Library, Category::Library) => true,
        (Category::Plugin, Category::Plugin) => true,
        (Category::Template, Category::Template) => true,
        (Category::Sample, Category::Sample) => true,
        (Category::Other(x), Category::Other(y)) => x@ == y@,
        _ => false,
    }
}

/// Whether two raw category texts parse to equal categories.
pub open spec fn category_matches(a: Seq<char>, b: Seq<char>) -> bool {
    if recognized_category(lower_of(a)) || recognized_category(lower_of(b)) {
        lower_of(a) == lower_of(b)
    } else {
        a == b
    }
}

/// An entry's raw category text names the recognized category whose
/// case-folded text is `canon`.
pub open spec fn category_is(raw: Seq<char>, canon: Seq<char>) -> bool {
    lower_of(raw) == canon
}

/// An unrecognized category text never matches a recognized one.
pub proof fn lemma_unrecognized_category_never_matches(entry_raw: Seq<char>, filter_raw: Seq<char>)
    requires
        !recognized_category(lower_of(entry_raw)),
        recognized_category(lower_of(filter_raw)),
    ensures
        !category_matches(entry_raw, filter_raw),
{
}

impl PartialEq for Category {
    fn eq(&self, other: &Self) -> (r: bool) {
        match (self, other) {
            (Category::Library, Category::Library) => true,
            (Category::Plugin, Category::Plugin) => true,
            (Category::Template, Category::Template) => true,
            (Category::Sample, Category::Sample) => true,
            (Category::Other(x), Category::Other(y)) => str_eq(x.as_str(), y.as_str()),
            _ => false,
        }
    }
}

impl vstd::std_specs::cmp::PartialEqSpecImpl for Category {
    open spec fn obeys_eq_spec() -> bool {
        true
    }

    open spec fn eq_spec(&self, other: &Self) -> bool {
        cat_eq(*self, *other)
    }
}

impl Category {
    /// Parses a raw category text, case-insensitively; unrecognized texts
    /// become `Other` carrying the raw text.
    pub fn parse(value: &str) -> (r: Self)
        ensures
            lower_of(value@) == "library"@ ==> r == Category::Library,
            lower_of(value@) == "plugin"@ ==> r == Category::Plugin,
            lower_of(value@) == "sample"@ ==> r == Category::Sample,
            lower_of(value@) == "template"@ ==> r == Category::Template,
            !recognized_category(lower_of(value@)) ==> (r matches Category::Other(s) && s@
                == value@),
    {
        proof {
            lemma_category_literal_shapes();
        }
        let l = to_lowercase_str(value);
        if str_eq(l.as_str(), "library") {
            Category::Library
        } else if str_eq(l.as_str(), "plugin") {
            Category::Plugin
        } else if str_eq(l.as_str(), "sample") {
            Category::Sample
        } else if str_eq(l.as_str(), "template") {
            Category::Template
        } else {
            Category::Other(String::from_str(value))
        }
    }
}

impl IndexEntry {
    /// Parses the entry's raw category text.
    pub fn category(&self) -> (r: Category)
        ensures
            lower_of(self@.category) == "library"@ ==> r == Category::Library,
            lower_of(self@.category) == "plugin"@ ==> r == Category::Plugin,
            lower_of(self@.category) == "sample"@ ==> r == Category::Sample,
            lower_of(self@.category) == "template"@ ==> r == Category::Template,
            !recognized_category(lower_of(self@.category)) ==> (r matches Category::Other(s) && s@
                == self@.category),
    {
        Category::parse(self.category.as_str())
    }
}

/// The language alias tables are many-to-one: each alias group resolves to
/// one canonical language, and an unclassified language text matches exactly
/// its own text, case-insensitively.
pub proof fn lemma_language_alias_groups(entry_raw: Seq<char>, filter: Seq<char>)
    ensures
        (lower_of(entry_raw) == "go"@ || lower_of(entry_raw) == "tinygo"@) ==> (lang_matches(
            entry_raw,
            filter,
        ) <==> (lower_of(filter) == "go"@ || lower_of(filter) == "golang"@ || lower_of(filter)
            == "tinygo"@)),
        (lower_of(entry_raw) == "js/ts"@ || lower_of(entry_raw) == "javascript"@ || lower_of(
            entry_raw,
        ) == "typescript"@) ==> (lang_matches(entry_raw, filter) <==> (lower_of(filter)
            == "javascript"@ || lower_of(filter) == "js"@ || lower_of(filter) == "typescript"@
            || lower_of(filter) == "ts"@)),
        lower_of(entry_raw) == "python"@ ==> (lang_matches(entry_raw, filter) <==> (lower_of(
            filter,
        ) == "python"@ || lower_of(filter) == "python3"@ || lower_of(filter) == "py"@)),
        lower_of(entry_raw) == "rust"@ ==> (lang_matches(entry_raw, filter) <==> (lower_of(filter)
            == "rust"@ || lower_of(filter) == "rs"@)),
        !known_language(lower_of(entry_raw)) ==> (lang_matches(entry_raw, filter) <==> lower_of(
            filter,
        ) == lower_of(entry_raw)),
{
    lemma_language_literal_shapes();
}

} // verus!
