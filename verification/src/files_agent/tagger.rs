//! Semantic tags and the rules that attach them to files.
use vstd::prelude::*;
use crate::text::{append_str, chars_of, contains, contains_exec, eq_chars, eq_ignore_ascii_case, eq_ignore_ascii_case_exec, file_name, file_name_exec, lowercase_chars, lowercase_vec, path_extension, path_extension_exec, string_from, string_of_range, to_lowercase, unicode_lowercase};
use crate::text::eq_str;

verus! {

/// Represents the visual color assigned to a tag.
#[derive(Debug, Clone, PartialEq, Eq, Hash)]
pub enum TagColor {
    Blue,
    Green,
    Yellow,
    Red,
    Purple,
    Orange,
    Gray,
    Custom(String),
}

/// Semantic category for file classification.
#[derive(Debug, Clone, PartialEq, Eq, Hash)]
pub enum TagCategory {
    Document,
    Code,
    Image,
    Audio,
    Video,
    Archive,
    Config,
    System,
    Media,
    Other(String),
}

/// A category as its variant number and text (empty but for `Other`).
pub open spec fn category_view(c: TagCategory) -> (nat, Seq<char>) {
    match c {
        TagCategory::Document => (0nat, Seq::<char>::empty()),
        TagCategory::Code => (1nat, Seq::<char>::empty()),
        TagCategory::Image => (2nat, Seq::<char>::empty()),
        TagCategory::Audio => (3nat, Seq::<char>::empty()),
        TagCategory::Video => (4nat, Seq::<char>::empty()),
        TagCategory::Archive => (5nat, Seq::<char>::empty()),
        TagCategory::Config => (6nat, Seq::<char>::empty()),
        TagCategory::System => (7nat, Seq::<char>::empty()),
        TagCategory::Media => (8nat, Seq::<char>::empty()),
        TagCategory::Other(s) => (9nat, s@),
    }
}

impl TagCategory {
    /// Whether two categories are equal.
    pub fn same_as(&self, other: &TagCategory) -> (r: bool)
        ensures
            r == (category_view(*self) == category_view(*other)),
    {
        match (self, other) {
            (TagCategory::Document, TagCategory::Document) => true,
            (TagCategory::Code, TagCategory::Code) => true,
            (TagCategory::Image, TagCategory::Image) => true,
            (TagCategory::Audio, TagCategory::Audio) => true,
            (TagCategory::Video, TagCategory::Video) => true,
            (TagCategory::Archive, TagCategory::Archive) => true,
            (TagCategory::Config, TagCategory::Config) => true,
            (TagCategory::System, TagCategory::System) => true,
            (TagCategory::Media, TagCategory::Media) => true,
            (TagCategory::Other(a), TagCategory::Other(b)) => {
                let ac = chars_of(a.as_str());
                let bc = chars_of(b.as_str());
                eq_chars(&ac, &bc)
            },
            _ => false,
        }
    }
}

/// Represents a semantic tag that can be attached to a file.
#[derive(Debug, Clone, PartialEq, Eq, Hash)]
pub struct Tag {
    pub id: String,
    pub name: String,
    pub color: TagColor,
    pub category: TagCategory,
}

impl Tag {
    pub fn new(id: &str, name: &str, color: TagColor, category: TagCategory) -> (r: Self)
        ensures
            r.id@ == id@,
            r.name@ == name@,
            r.color == color,
            r.category == category,
    {
        Tag { id: string_from(id), name: string_from(name), color, category }
    }

    /// A copy of the tag.
    pub fn duplicate(&self) -> (r: Self)
        ensures
            r == *self,
    {
        let color = match &self.color {
            TagColor::Blue => TagColor::Blue,
            TagColor::Green => TagColor::Green,
            TagColor::Yellow => TagColor::Yellow,
            TagColor::Red => TagColor::Red,
            TagColor::Purple => TagColor::Purple,
            TagColor::Orange => TagColor::Orange,
            TagColor::Gray => TagColor::Gray,
            TagColor::Custom(s) => TagColor::Custom(s.clone()),
        };
        let category = match &self.category {
            TagCategory::Document => TagCategory::Document,
            TagCategory::Code => TagCategory::Code,
            TagCategory::Image => TagCategory::Image,
            TagCategory::Audio => TagCategory::Audio,
            TagCategory::Video => TagCategory::Video,
            TagCategory::Archive => TagCategory::Archive,
            TagCategory::Config => TagCategory::Config,
            TagCategory::System => TagCategory::System,
            TagCategory::Media => TagCategory::Media,
            TagCategory::Other(s) => TagCategory::Other(s.clone()),
        };
        Tag { id: self.id.clone(), name: self.name.clone(), color, category }
    }
}

/// Rule used by the auto-tagger to tag files.
#[derive(Debug, Clone)]
pub struct TagRule {
    pub tag: Tag,
    pub extensions: Vec<String>,
    pub name_patterns: Vec<String>,
    pub min_size: Option<u64>,
    pub max_size: Option<u64>,
    pub keywords: Vec<String>,
}

/// The texts of a list of strings.
pub open spec fn texts(v: Seq<String>) -> Seq<Seq<char>> {
    v.map_values(|s: String| s@)
}

/// The lowercased texts of a list of string slices.
pub open spec fn lowered(v: Seq<&str>) -> Seq<Seq<char>> {
    v.map_values(|s: &str| unicode_lowercase(s@))
}

/// Lowercases each string of a slice.
fn lowercase_all(items: &[&str]) -> (r: Vec<String>)
    ensures
        texts(r@) == lowered(items@),
{
    let mut out: Vec<String> = Vec::new();
    let mut i: usize = 0;
    while i < items.len()
        invariant
            i <= items@.len(),
            texts(out@) == lowered(items@.take(i as int)),
        decreases items@.len() - i,
    {
        let ghost before = out@;
        let l = to_lowercase(items[i]);
        out.push(l);
        assert(items@.take(i + 1) =~= items@.take(i as int).push(items@[i as int]));
        assert(texts(out@) =~= texts(before).push(l@));
        assert(lowered(items@.take(i + 1)) =~= lowered(items@.take(i as int)).push(
            unicode_lowercase(items@[i as int]@),
        ));
        i += 1;
    }
    assert(items@.take(items@.len() as int) =~= items@);
    out
}

/// Some extension of the list equals `ext` ignoring ASCII case.
pub open spec fn any_eq_ignore_case(list: Seq<Seq<char>>, ext: Seq<char>) -> bool {
    exists|i: int| 0 <= i < list.len() && eq_ignore_ascii_case(#[trigger] list[i], ext)
}

/// Some pattern of the list occurs in `text`.
pub open spec fn any_contained(list: Seq<Seq<char>>, text: Seq<char>) -> bool {
    exists|i: int| 0 <= i < list.len() && contains(text, #[trigger] list[i])
}

/// Whether a rule tags the file at `path` of the given size with the given
/// content: by extension, then by name, then by size, then by keyword.
pub open spec fn rule_matches(
    r: TagRule,
    path: Seq<char>,
    size: Option<u64>,
    snippet: Option<Seq<char>>,
) -> bool {
    let exts = texts(r.extensions@);
    let by_ext = exts.len() > 0 && match path_extension(path) {
        Some(e) => any_eq_ignore_case(exts, e),
        None => false,
    };
    let by_name = match file_name(path) {
        Some(n) => any_contained(texts(r.name_patterns@), unicode_lowercase(n)),
        None => false,
    };
    if by_ext || by_name {
        true
    } else {
        let size_verdict: Option<bool> = match size {
            Some(s) => if (r.min_size matches Some(m) && s < m) || (r.max_size matches Some(m) && s
                > m) {
                Some(false)
            } else if r.min_size is Some || r.max_size is Some {
                Some(true)
            } else {
                None
            },
            None => None,
        };
        match size_verdict {
            Some(v) => v,
            None => match snippet {
                Some(sn) => any_contained(texts(r.keywords@), unicode_lowercase(sn)),
                None => false,
            },
        }
    }
}

pub fn any_eq_ignore_case_exec(list: &Vec<String>, ext: &Vec<char>) -> (r: bool)
    ensures
        r == any_eq_ignore_case(texts(list@), ext@),
{
    let mut i: usize = 0;
    while i < list.len()
        invariant
            i <= list.len(),
            forall|k: int| 0 <= k < i ==> !eq_ignore_ascii_case(#[trigger] texts(list@)[k], ext@),
        decreases list.len() - i,
    {
        let e = chars_of(list[i].as_str());
        if eq_ignore_ascii_case_exec(&e, ext) {
            assert(texts(list@)[i as int] == e@);
            return true;
        }
        i += 1;
    }
    false
}

fn any_contained_exec(list: &Vec<String>, text: &Vec<char>) -> (r: bool)
    ensures
        r == any_contained(texts(list@), text@),
{
    let mut i: usize = 0;
    while i < list.len()
        invariant
            i <= list.len(),
            forall|k: int| 0 <= k < i ==> !contains(text@, #[trigger] texts(list@)[k]),
        decreases list.len() - i,
    {
        let p = chars_of(list[i].as_str());
        if contains_exec(text, &p) {
            assert(texts(list@)[i as int] == p@);
            return true;
        }
        i += 1;
    }
    false
}

impl TagRule {
    /// A rule for `tag` that matches nothing yet.
    pub fn new(tag: Tag) -> (r: Self)
        ensures
            r.tag == tag,
            r.extensions@.len() == 0,
            r.name_patterns@.len() == 0,
            r.min_size is None,
            r.max_size is None,
            r.keywords@.len() == 0,
    {
        TagRule {
            tag,
            extensions: Vec::new(),
            name_patterns: Vec::new(),
            min_size: None,
            max_size: None,
            keywords: Vec::new(),
        }
    }

    /// The rule with these extensions (stored lowercased).
    pub fn with_extensions(self, exts: &[&str]) -> (r: Self)
        ensures
            texts(r.extensions@) == lowered(exts@),
            r.tag == self.tag,
            r.name_patterns == self.name_patterns,
            r.min_size == self.min_size,
            r.max_size == self.max_size,
            r.keywords == self.keywords,
    {
        let mut s = self;
        s.extensions = lowercase_all(exts);
        s
    }

    /// The rule with these name patterns (stored lowercased).
    pub fn with_name_patterns(self, patterns: &[&str]) -> (r: Self)
        ensures
            texts(r.name_patterns@) == lowered(patterns@),
            r.tag == self.tag,
            r.extensions == self.extensions,
            r.min_size == self.min_size,
            r.max_size == self.max_size,
            r.keywords == self.keywords,
    {
        let mut s = self;
        s.name_patterns = lowercase_all(patterns);
        s
    }

    /// The rule with a size range.
    pub fn with_size_range(self, min: Option<u64>, max: Option<u64>) -> (r: Self)
        ensures
            r.min_size == min,
            r.max_size == max,
            r.tag == self.tag,
            r.extensions == self.extensions,
            r.name_patterns == self.name_patterns,
            r.keywords == self.keywords,
    {
        let mut s = self;
        s.min_size = min;
        s.max_size = max;
        s
    }

    /// The rule with these content keywords (stored lowercased).
    pub fn with_keywords(self, keywords: &[&str]) -> (r: Self)
        ensures
            texts(r.keywords@) == lowered(keywords@),
            r.tag == self.tag,
            r.extensions == self.extensions,
            r.name_patterns == self.name_patterns,
            r.min_size == self.min_size,
            r.max_size == self.max_size,
    {
        let mut s = self;
        s.keywords = lowercase_all(keywords);
        s
    }

    /// Whether the rule tags the file at `path`.
    pub fn matches(&self, path: &str, file_size: Option<u64>, content_snippet: Option<&str>) -> (r: bool)
        ensures
            r == rule_matches(*self, path@, file_size, match content_snippet {
                Some(s) => Some(s@),
                None => None,
            }),
    {
        let p = chars_of(path);
        if self.extensions.len() > 0 {
            if let Some(ext) = path_extension_exec(&p) {
                if any_eq_ignore_case_exec(&self.extensions, &ext) {
                    return true;
                }
            }
        }
        if let Some(name) = file_name_exec(&p) {
            let name_lower = lowercase_vec(&name);
            if any_contained_exec(&self.name_patterns, &name_lower) {
                return true;
            }
        }
        if let Some(size) = file_size {
            if let Some(min) = self.min_size {
                if size < min {
                    return false;
                }
            }
            if let Some(max) = self.max_size {
                if size > max {
                    return false;
                }
            }
            if self.min_size.is_some() || self.max_size.is_some() {
                return true;
            }
        }
        if let Some(snippet) = content_snippet {
            let snippet_lower = lowercase_chars(snippet);
            if any_contained_exec(&self.keywords, &snippet_lower) {
                return true;
            }
        }
        false
    }
}

/// Errors produced during tagging operations.
#[derive(Debug, Clone, PartialEq, Eq)]
pub enum TaggerError {
    FileNotFound(String),
    IoError(String),
    ParseError(String),
}

/// The message of a tagging error.
pub open spec fn tagger_error_message(e: TaggerError) -> Seq<char> {
    match e {
        TaggerError::FileNotFound(p) => "File not found: "@ + p@,
        TaggerError::IoError(m) => "IO error: "@ + m@,
        TaggerError::ParseError(m) => "Parse error: "@ + m@,
    }
}

impl TaggerError {
    /// The message shown for the error.
    pub fn to_string(&self) -> (r: String)
        ensures
            r@ == tagger_error_message(*self),
    {
        let (prefix, text) = match self {
            TaggerError::FileNotFound(p) => ("File not found: ", p),
            TaggerError::IoError(m) => ("IO error: ", m),
            TaggerError::ParseError(m) => ("Parse error: ", m),
        };
        let mut s = string_from(prefix);
        append_str(&mut s, text.as_str());
        s
    }
}

/// Rule-based auto-tagging engine.
#[derive(Debug, Clone)]
pub struct AutoTagger {
    rules: Vec<TagRule>,
}

/// The tags of the rules that match, first occurrence of each id kept, in
/// rule order.
pub open spec fn matched_tags(
    rules: Seq<TagRule>,
    path: Seq<char>,
    size: Option<u64>,
    snippet: Option<Seq<char>>,
) -> Seq<Tag>
    decreases rules.len(),
{
    if rules.len() == 0 {
        Seq::<Tag>::empty()
    } else {
        let prev = matched_tags(rules.drop_last(), path, size, snippet);
        let r = rules.last();
        if rule_matches(r, path, size, snippet) && !(exists|k: int|
            0 <= k < prev.len() && (#[trigger] prev[k]).id@ == r.tag.id@) {
            prev.push(r.tag)
        } else {
            prev
        }
    }
}

/// The default rule table: tag id, name, color, category, extensions and
/// name patterns, and a minimum size.
pub open spec fn default_rule_count() -> nat {
    12
}

impl AutoTagger {
    /// The rules, in order.
    pub closed spec fn rule_list(&self) -> Seq<TagRule> {
        self.rules@
    }

    /// A tagger with the default rules.
    pub fn new() -> (r: Self)
        ensures
            r.rule_list().len() == default_rule_count(),
            r.rule_list()[0].tag.id@ == "code-rs"@,
            texts(r.rule_list()[0].extensions@) == seq![unicode_lowercase("rs"@)],
            r.rule_list()[11].tag.id@ == "large-file"@,
            r.rule_list()[11].min_size == Some(104857600u64),
    {
        let mut t = AutoTagger { rules: Vec::new() };
        t.load_default_rules();
        t
    }

    /// A tagger with the given rules.
    pub fn with_rules(rules: Vec<TagRule>) -> (r: Self)
        ensures
            r.rule_list() == rules@,
    {
        AutoTagger { rules }
    }

    /// Appends a rule.
    pub fn add_rule(&mut self, rule: TagRule)
        ensures
            final(self).rule_list() == old(self).rule_list().push(rule),
    {
        self.rules.push(rule);
    }

    /// Appends the default rules.
    fn load_default_rules(&mut self)
        ensures
            final(self).rule_list().len() == old(self).rule_list().len() + default_rule_count(),
            final(self).rule_list()[old(self).rule_list().len() as int].tag.id@ == "code-rs"@,
            texts(final(self).rule_list()[old(self).rule_list().len() as int].extensions@) == seq![
                unicode_lowercase("rs"@),
            ],
            final(self).rule_list()[old(self).rule_list().len() + 11int].tag.id@ == "large-file"@,
            final(self).rule_list()[old(self).rule_list().len() + 11int].min_size == Some(104857600u64),
    {
        let n0 = self.rules.len();
        let rs = TagRule::new(Tag::new("code-rs", "Rust Code", TagColor::Orange, TagCategory::Code)).with_extensions(&["rs"]);
        assert(lowered(["rs"]@) =~= seq![unicode_lowercase("rs"@)]);
        self.add_rule(rs);
        self.add_rule(
            TagRule::new(Tag::new("code-source", "Source Code", TagColor::Blue, TagCategory::Code)).with_extensions(
                &["py", "js", "ts", "jsx", "tsx", "c", "cpp", "h", "hpp", "go", "java", "kt", "rb", "php", "sh", "bash"],
            ),
        );
        self.add_rule(
            TagRule::new(Tag::new("doc-markdown", "Markdown", TagColor::Purple, TagCategory::Document)).with_extensions(
                &["md", "markdown"],
            ),
        );
        self.add_rule(
            TagRule::new(Tag::new("doc-pdf", "PDF Document", TagColor::Red, TagCategory::Document)).with_extensions(
                &["pdf"],
            ),
        );
        self.add_rule(
            TagRule::new(Tag::new("doc-office", "Office Document", TagColor::Blue, TagCategory::Document)).with_extensions(
                &["docx", "doc", "xlsx", "xls", "pptx", "ppt", "odt"],
            ),
        );
        self.add_rule(
            TagRule::new(Tag::new("media-image", "Image", TagColor::Green, TagCategory::Image)).with_extensions(
                &["png", "jpg", "jpeg", "gif", "webp", "svg", "bmp", "ico", "tiff"],
            ),
        );
        self.add_rule(
            TagRule::new(Tag::new("media-audio", "Audio", TagColor::Yellow, TagCategory::Audio)).with_extensions(
                &["mp3", "wav", "flac", "aac", "ogg", "m4a"],
            ),
        );
        self.add_rule(
            TagRule::new(Tag::new("media-video", "Video", TagColor::Red, TagCategory::Video)).with_extensions(
                &["mp4", "mkv", "avi", "mov", "webm", "flv"],
            ),
        );
        self.add_rule(
            TagRule::new(Tag::new("archive", "Archive", TagColor::Gray, TagCategory::Archive)).with_extensions(
                &["zip", "tar", "gz", "bz2", "xz", "7z", "rar", "tgz"],
            ),
        );
        self.add_rule(
            TagRule::new(Tag::new("config", "Configuration", TagColor::Yellow, TagCategory::Config)).with_extensions(
                &["json", "toml", "yaml", "yml", "xml", "ini", "env"],
            ),
        );
        self.add_rule(
            TagRule::new(Tag::new("system-dot", "Dotfile", TagColor::Gray, TagCategory::System)).with_name_patterns(
                &[".gitignore", ".env", ".bashrc", ".zshrc"],
            ),
        );
        self.add_rule(
            TagRule::new(
                Tag::new("large-file", "Large File", TagColor::Red, TagCategory::Other(string_from("Storage"))),
            ).with_size_range(Some(100 * 1024 * 1024), None),
        );
        assert(self.rules@.len() == n0 + 12);
    }

    /// The tags the rules give a file with the given size and content, each
    /// tag id once.
    pub fn tags_for(&self, path: &str, file_size: Option<u64>, snippet: Option<&str>) -> (r: Vec<Tag>)
        ensures
            r@ == matched_tags(self.rule_list(), path@, file_size, match snippet {
                Some(s) => Some(s@),
                None => None,
            }),
    {
        let ghost sv: Option<Seq<char>> = match snippet {
            Some(s) => Some(s@),
            None => None,
        };
        let ghost rl = self.rules@;
        let mut tags: Vec<Tag> = Vec::new();
        let mut i: usize = 0;
        while i < self.rules.len()
            invariant
                i <= rl.len(),
                rl == self.rules@,
                sv == match snippet {
                    Some(s) => Some(s@),
                    None => None::<Seq<char>>,
                },
                tags@ == matched_tags(rl.take(i as int), path@, file_size, sv),
            decreases rl.len() - i,
        {
            assert(rl.take(i + 1).drop_last() =~= rl.take(i as int));
            assert(rl.take(i + 1).last() == rl[i as int]);
            let rule = &self.rules[i];
            if rule.matches(path, file_size, snippet) {
                let mut seen = false;
                let mut k: usize = 0;
                while k < tags.len()
                    invariant
                        k <= tags.len(),
                        !seen ==> forall|j: int| 0 <= j < k ==> (#[trigger] tags@[j]).id@ != rule.tag.id@,
                        seen ==> exists|j: int| 0 <= j < tags@.len() && (#[trigger] tags@[j]).id@ == rule.tag.id@,
                    decreases tags.len() - k,
                {
                    let a = chars_of(tags[k].id.as_str());
                    let b = chars_of(rule.tag.id.as_str());
                    if eq_chars(&a, &b) {
                        seen = true;
                    }
                    k += 1;
                }
                if !seen {
                    tags.push(rule.tag.duplicate());
                }
            }
            i += 1;
        }
        assert(rl.take(rl.len() as int) =~= rl);
        tags
    }
}

impl Default for AutoTagger {
    fn default() -> (r: Self)
        ensures
            r.rule_list().len() == default_rule_count(),
    {
        Self::new()
    }
}

/// Extensions (lowercased) of files whose content is read for tagging.
pub open spec fn is_text_like(ext: Seq<char>) -> bool {
    ext == "txt"@ || ext == "md"@ || ext == "json"@ || ext == "toml"@ || ext == "rs"@ || ext == "py"@ || ext == "js"@
}

/// Whether tagging reads the start of a file: a text-like extension and
/// fewer than 64 KiB.
pub open spec fn snippet_wanted(path: Seq<char>, file_size: u64) -> bool {
    file_size < 65536 && match path_extension(path) {
        Some(e) => is_text_like(unicode_lowercase(e)),
        None => false,
    }
}

/// Decides whether tagging reads the start of the file at `path`.
pub fn wants_snippet(path: &str, file_size: u64) -> (r: bool)
    ensures
        r == snippet_wanted(path@, file_size),
{
    if file_size >= 65536 {
        return false;
    }
    match path_extension_exec(&chars_of(path)) {
        Some(e) => {
            let l = lowercase_vec(&e);
            eq_str(&l, "txt") || eq_str(&l, "md") || eq_str(&l, "json") || eq_str(&l, "toml") || eq_str(&l, "rs")
                || eq_str(&l, "py") || eq_str(&l, "js")
        },
        None => false,
    }
}

/// The characters of a file's content that tagging looks at: the first 1024.
pub fn snippet_of(content: &str) -> (r: String)
    ensures
        r@ == content@.take(if content@.len() < 1024 { content@.len() as int } else { 1024 }),
{
    let cs = chars_of(content);
    let n: usize = if cs.len() < 1024 { cs.len() } else { 1024 };
    string_of_range(&cs, 0, n)
}

} // verus!
