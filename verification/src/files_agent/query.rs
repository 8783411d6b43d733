//! Natural-language file queries ("pdf larger than 5MB modified: week") and
//! how a file is matched against one.
//!
//! Sizes such as `5MB` are decimal numbers scaled in floating point; the
//! caller evaluates the size operands that [`NlQueryParser::size_operands`]
//! lists and hands the values to [`NlQueryParser::parse_with_sizes`].
use vstd::prelude::*;
use crate::text::{contains, contains_exec, eq_chars, file_name, file_name_exec, lowercase_chars, path_extension, path_extension_exec, chars_of, copy_chars, eq_str, join_strings, join_with, lowercase_vec, split_whitespace, split_whitespace_exec, starts_with, starts_with_str, string_of, suffix, trim, trim_exec, trim_start_char, trim_start_char_exec, unicode_lowercase, views};
use crate::files_agent::tagger::{Tag, TagCategory, any_eq_ignore_case, any_eq_ignore_case_exec, category_view};

verus! {

/// Field to sort query results by.
#[derive(Debug, Clone, Copy, PartialEq, Eq, Structural)]
pub enum SortField {
    Name,
    Size,
    DateModified,
    Relevance,
}

/// Direction of sorting.
#[derive(Debug, Clone, Copy, PartialEq, Eq, Structural)]
pub enum SortDirection {
    Ascending,
    Descending,
}

/// Filter criteria parsed from a natural language string. Time windows are
/// in seconds.
#[derive(Debug, Clone)]
pub struct ParsedQuery {
    pub raw_query: String,
    pub text_search: Option<String>,
    pub extensions: Vec<String>,
    pub tags: Vec<String>,
    pub categories: Vec<TagCategory>,
    pub min_size: Option<u64>,
    pub max_size: Option<u64>,
    pub modified_within: Option<u64>,
    pub exact_phrases: Vec<String>,
    pub excluded_terms: Vec<String>,
    pub sort_by: Option<SortField>,
    pub sort_direction: SortDirection,
}

/// What the token loop has gathered so far.
pub struct QueryAcc {
    pub extensions: Seq<Seq<char>>,
    pub tags: Seq<Seq<char>>,
    pub categories: Seq<TagCategory>,
    pub min_size: Option<u64>,
    pub max_size: Option<u64>,
    pub within: Option<u64>,
    pub excluded: Seq<Seq<char>>,
    pub sort_by: Option<SortField>,
    pub direction: SortDirection,
    pub text: Seq<Seq<char>>,
}

pub open spec fn empty_acc() -> QueryAcc {
    QueryAcc {
        extensions: seq![],
        tags: seq![],
        categories: seq![],
        min_size: None,
        max_size: None,
        within: None,
        excluded: seq![],
        sort_by: None,
        direction: SortDirection::Ascending,
        text: seq![],
    }
}

/// The state of the quote scan: phrases, text outside quotes, whether inside
/// a quote, and the phrase being read.
pub open spec fn quote_scan(s: Seq<char>) -> (Seq<Seq<char>>, Seq<char>, bool, Seq<char>)
    decreases s.len(),
{
    if s.len() == 0 {
        (seq![], seq![], false, seq![])
    } else {
        let (ph, rem, inq, cur) = quote_scan(s.drop_last());
        let ch = s.last();
        if ch == '"' {
            if inq {
                if cur.len() > 0 {
                    (ph.push(cur), rem, false, seq![])
                } else {
                    (ph, rem, false, cur)
                }
            } else {
                (ph, rem, true, cur)
            }
        } else if inq {
            (ph, rem, inq, cur.push(ch))
        } else {
            (ph, rem.push(ch), inq, cur)
        }
    }
}

/// The tokens of a query: the words outside quotes.
pub open spec fn query_tokens(query: Seq<char>) -> Seq<Seq<char>> {
    split_whitespace(quote_scan(trim(query)).1)
}

/// The category a `type:` value names, if any.
pub open spec fn type_category(t: Seq<char>) -> Option<TagCategory> {
    if t == "image"@ || t == "img"@ {
        Some(TagCategory::Image)
    } else if t == "code"@ {
        Some(TagCategory::Code)
    } else if t == "doc"@ || t == "document"@ {
        Some(TagCategory::Document)
    } else if t == "audio"@ || t == "music"@ {
        Some(TagCategory::Audio)
    } else if t == "video"@ {
        Some(TagCategory::Video)
    } else if t == "archive"@ || t == "zip"@ {
        Some(TagCategory::Archive)
    } else if t == "config"@ {
        Some(TagCategory::Config)
    } else {
        None
    }
}

/// The sort field a `sort:` value names, if any.
pub open spec fn sort_field_of(s: Seq<char>) -> Option<SortField> {
    if s == "name"@ {
        Some(SortField::Name)
    } else if s == "size"@ {
        Some(SortField::Size)
    } else if s == "date"@ || s == "modified"@ {
        Some(SortField::DateModified)
    } else if s == "relevance"@ {
        Some(SortField::Relevance)
    } else {
        None
    }
}

/// The direction an `order:` value names, if any.
pub open spec fn direction_of(s: Seq<char>) -> Option<SortDirection> {
    if s == "asc"@ || s == "ascending"@ {
        Some(SortDirection::Ascending)
    } else if s == "desc"@ || s == "descending"@ {
        Some(SortDirection::Descending)
    } else {
        None
    }
}

/// The time window, in seconds, that a timeframe word names.
pub open spec fn timeframe(s: Seq<char>) -> Option<u64> {
    if s == "today"@ {
        Some(86400u64)
    } else if s == "week"@ || s == "7days"@ {
        Some(604800u64)
    } else if s == "month"@ || s == "30days"@ {
        Some(2592000u64)
    } else if s == "year"@ || s == "365days"@ {
        Some(31536000u64)
    } else {
        None
    }
}

/// Whether token `i` is `larger`/`smaller` followed by `than` and an operand.
pub open spec fn is_comparison(toks: Seq<Seq<char>>, i: int, word: Seq<char>) -> bool {
    unicode_lowercase(toks[i]) == word && i + 2 < toks.len() && unicode_lowercase(toks[i + 1])
        == "than"@
}

/// The size text that token `i` asks to be evaluated, if any.
pub open spec fn size_operand(toks: Seq<Seq<char>>, i: int) -> Option<Seq<char>> {
    let l = unicode_lowercase(toks[i]);
    if starts_with(l, "size>"@) || starts_with(l, "size<"@) {
        Some(l.skip(5))
    } else if is_comparison(toks, i, "larger"@) || is_comparison(toks, i, "smaller"@) {
        Some(toks[i + 2])
    } else {
        None
    }
}

/// How many tokens after token `i` it consumes.
pub open spec fn tokens_consumed(toks: Seq<Seq<char>>, sizes: Seq<Option<u64>>, i: int) -> nat {
    let l = unicode_lowercase(toks[i]);
    if starts_with(l, "ext:"@) || starts_with(l, "type:"@) || starts_with(l, "tag:"@) || (l.len()
        > 0 && (l[0] == '#' || l[0] == '-')) || starts_with(l, "size>"@) || starts_with(l, "size<"@) {
        0
    } else if (is_comparison(toks, i, "larger"@) || is_comparison(toks, i, "smaller"@))
        && sizes[i] is Some {
        2
    } else if (l == "modified:"@ || l == "created:"@) && i + 1 < toks.len() {
        1
    } else {
        0
    }
}

/// What token `i` adds to the query.
pub open spec fn apply_token(toks: Seq<Seq<char>>, sizes: Seq<Option<u64>>, i: int, a: QueryAcc) -> QueryAcc {
    let t = toks[i];
    let l = unicode_lowercase(t);
    if starts_with(l, "ext:"@) {
        QueryAcc { extensions: a.extensions.push(trim_start_char(l.skip(4), '.')), ..a }
    } else if starts_with(l, "type:"@) {
        match type_category(l.skip(5)) {
            Some(c) => QueryAcc { categories: a.categories.push(c), ..a },
            None => QueryAcc { extensions: a.extensions.push(l.skip(5)), ..a },
        }
    } else if starts_with(l, "tag:"@) {
        QueryAcc { tags: a.tags.push(l.skip(4)), ..a }
    } else if l.len() > 1 && l[0] == '#' {
        QueryAcc { tags: a.tags.push(l.drop_first()), ..a }
    } else if l.len() > 0 && l[0] == '-' {
        if l.len() > 1 {
            QueryAcc { excluded: a.excluded.push(l.drop_first()), ..a }
        } else {
            a
        }
    } else if starts_with(l, "size>"@) {
        match sizes[i] {
            Some(b) => QueryAcc { min_size: Some(b), ..a },
            None => a,
        }
    } else if starts_with(l, "size<"@) {
        match sizes[i] {
            Some(b) => QueryAcc { max_size: Some(b), ..a },
            None => a,
        }
    } else if is_comparison(toks, i, "larger"@) {
        match sizes[i] {
            Some(b) => QueryAcc { min_size: Some(b), ..a },
            None => QueryAcc { text: a.text.push(t), ..a },
        }
    } else if is_comparison(toks, i, "smaller"@) {
        match sizes[i] {
            Some(b) => QueryAcc { max_size: Some(b), ..a },
            None => QueryAcc { text: a.text.push(t), ..a },
        }
    } else if l == "modified:"@ || l == "created:"@ {
        if i + 1 < toks.len() {
            QueryAcc { within: timeframe(unicode_lowercase(toks[i + 1])), ..a }
        } else {
            a
        }
    } else if l == "today"@ {
        QueryAcc { within: Some(86400u64), ..a }
    } else if l == "yesterday"@ || l == "this-week"@ || l == "recent"@ {
        QueryAcc { within: Some(604800u64), ..a }
    } else if starts_with(l, "sort:"@) {
        match sort_field_of(l.skip(5)) {
            Some(f) => QueryAcc { sort_by: Some(f), ..a },
            None => a,
        }
    } else if starts_with(l, "order:"@) {
        match direction_of(l.skip(6)) {
            Some(d) => QueryAcc { direction: d, ..a },
            None => a,
        }
    } else {
        QueryAcc { text: a.text.push(t), ..a }
    }
}

/// The query gathered from token `i` on.
pub open spec fn run_tokens(toks: Seq<Seq<char>>, sizes: Seq<Option<u64>>, i: int, a: QueryAcc) -> QueryAcc
    decreases toks.len() - i,
{
    if i < 0 || i >= toks.len() {
        a
    } else {
        let j = i + 1 + tokens_consumed(toks, sizes, i);
        let next = if j > toks.len() { toks.len() as int } else { j };
        run_tokens(toks, sizes, next, apply_token(toks, sizes, i, a))
    }
}

/// Whether `q` is the query parsed from `query` with the size values `sizes`
/// (one per token, for the tokens that have a size operand).
pub open spec fn parsed_as(q: ParsedQuery, query: Seq<char>, sizes: Seq<Option<u64>>) -> bool {
    let raw = trim(query);
    let a = run_tokens(query_tokens(query), sizes, 0, empty_acc());
    &&& q.raw_query@ == raw
    &&& q.exact_phrases@.map_values(|s: String| s@) == quote_scan(raw).0
    &&& q.extensions@.map_values(|s: String| s@) == a.extensions
    &&& q.tags@.map_values(|s: String| s@) == a.tags
    &&& q.categories@ == a.categories
    &&& q.min_size == a.min_size
    &&& q.max_size == a.max_size
    &&& q.modified_within == a.within
    &&& q.excluded_terms@.map_values(|s: String| s@) == a.excluded
    &&& q.sort_by == a.sort_by
    &&& q.sort_direction == a.direction
    &&& match q.text_search {
        Some(t) => a.text.len() > 0 && t@ == join_with(a.text, " "@),
        None => a.text.len() == 0,
    }
}

/// Parser for natural language queries.
pub struct NlQueryParser;

fn type_category_exec(t: &Vec<char>) -> (r: Option<TagCategory>)
    ensures
        r == type_category(t@),
{
    if eq_str(t, "image") || eq_str(t, "img") {
        Some(TagCategory::Image)
    } else if eq_str(t, "code") {
        Some(TagCategory::Code)
    } else if eq_str(t, "doc") || eq_str(t, "document") {
        Some(TagCategory::Document)
    } else if eq_str(t, "audio") || eq_str(t, "music") {
        Some(TagCategory::Audio)
    } else if eq_str(t, "video") {
        Some(TagCategory::Video)
    } else if eq_str(t, "archive") || eq_str(t, "zip") {
        Some(TagCategory::Archive)
    } else if eq_str(t, "config") {
        Some(TagCategory::Config)
    } else {
        None
    }
}

fn sort_field_exec(s: &Vec<char>) -> (r: Option<SortField>)
    ensures
        r == sort_field_of(s@),
{
    if eq_str(s, "name") {
        Some(SortField::Name)
    } else if eq_str(s, "size") {
        Some(SortField::Size)
    } else if eq_str(s, "date") || eq_str(s, "modified") {
        Some(SortField::DateModified)
    } else if eq_str(s, "relevance") {
        Some(SortField::Relevance)
    } else {
        None
    }
}

fn direction_exec(s: &Vec<char>) -> (r: Option<SortDirection>)
    ensures
        r == direction_of(s@),
{
    if eq_str(s, "asc") || eq_str(s, "ascending") {
        Some(SortDirection::Ascending)
    } else if eq_str(s, "desc") || eq_str(s, "descending") {
        Some(SortDirection::Descending)
    } else {
        None
    }
}

/// Splits off the quoted phrases; returns them with the text outside quotes.
fn scan_quotes(raw: &Vec<char>) -> (r: (Vec<String>, Vec<char>))
    ensures
        r.0@.map_values(|s: String| s@) == quote_scan(raw@).0,
        r.1@ == quote_scan(raw@).1,
{
    let mut phrases: Vec<String> = Vec::new();
    let mut remaining: Vec<char> = Vec::new();
    let mut in_quote = false;
    let mut current: Vec<char> = Vec::new();
    let mut i: usize = 0;
    while i < raw.len()
        invariant
            i <= raw.len(),
            quote_scan(raw@.take(i as int)) == (
                phrases@.map_values(|s: String| s@),
                remaining@,
                in_quote,
                current@,
            ),
        decreases raw.len() - i,
    {
        let ch = raw[i];
        assert(raw@.take(i + 1).drop_last() =~= raw@.take(i as int));
        assert(raw@.take(i + 1).last() == ch);
        let ghost before = phrases@;
        if ch == '"' {
            if in_quote {
                if current.len() > 0 {
                    let s = string_of(&current);
                    phrases.push(s);
                    assert(phrases@.map_values(|s: String| s@) =~= before.map_values(|s: String| s@).push(current@));
                    current = Vec::new();
                }
                in_quote = false;
            } else {
                in_quote = true;
            }
        } else if in_quote {
            current.push(ch);
        } else {
            remaining.push(ch);
        }
        i += 1;
    }
    assert(raw@.take(raw.len() as int) =~= raw@);
    (phrases, remaining)
}

/// The tokens of a query with their lowercase forms.
fn tokenize(query: &str) -> (r: (Vec<char>, Vec<String>, Vec<Vec<char>>))
    ensures
        r.0@ == trim(query@),
        r.1@.map_values(|s: String| s@) == quote_scan(trim(query@)).0,
        views(r.2@) == query_tokens(query@),
{
    let q = chars_of(query);
    let raw = trim_exec(&q);
    let (phrases, remaining) = scan_quotes(&raw);
    let tokens = split_whitespace_exec(&remaining);
    (raw, phrases, tokens)
}

fn strings_of(v: Vec<Vec<char>>) -> (r: Vec<String>)
    ensures
        r@.map_values(|s: String| s@) == views(v@),
{
    let mut out: Vec<String> = Vec::new();
    let mut i: usize = 0;
    while i < v.len()
        invariant
            i <= v.len(),
            out@.map_values(|s: String| s@) == views(v@).take(i as int),
        decreases v.len() - i,
    {
        let ghost before = out@;
        let s = string_of(&v[i]);
        out.push(s);
        assert(out@.map_values(|s: String| s@) =~= before.map_values(|s: String| s@).push(s@));
        assert(views(v@).take(i + 1) =~= views(v@).take(i as int).push(v@[i as int]@));
        i += 1;
    }
    assert(views(v@).take(v.len() as int) =~= views(v@));
    out
}

impl NlQueryParser {
    /// For each token of the query, the size text that parsing evaluates
    /// there (`size>5mb`, `larger than 5mb`), if any.
    pub fn size_operands(query_str: &str) -> (r: Vec<Option<String>>)
        ensures
            r@.len() == query_tokens(query_str@).len(),
            forall|i: int| 0 <= i < r@.len() ==> match (#[trigger] r@[i], size_operand(query_tokens(query_str@), i)) {
                (Some(a), Some(b)) => a@ == b,
                (None, None) => true,
                _ => false,
            },
    {
        let (_raw, _phrases, tokens) = tokenize(query_str);
        let ghost toks = views(tokens@);
        let mut out: Vec<Option<String>> = Vec::new();
        let mut i: usize = 0;
        while i < tokens.len()
            invariant
                i <= tokens.len(),
                toks == views(tokens@),
                toks == query_tokens(query_str@),
                out@.len() == i,
                forall|k: int| 0 <= k < i ==> match (#[trigger] out@[k], size_operand(toks, k)) {
                    (Some(a), Some(b)) => a@ == b,
                    (None, None) => true,
                    _ => false,
                },
            decreases tokens.len() - i,
        {
            proof {
                reveal_strlit("size>");
                reveal_strlit("size<");
            }
            let l = lowercase_vec(&tokens[i]);
            assert(l@ == unicode_lowercase(toks[i as int]));
            let op = if starts_with_str(&l, "size>") || starts_with_str(&l, "size<") {
                Some(string_of(&suffix(&l, 5)))
            } else if (eq_str(&l, "larger") || eq_str(&l, "smaller")) && tokens.len() - i > 2 && eq_str(
                &lowercase_vec(&tokens[i + 1]),
                "than",
            ) {
                Some(string_of(&tokens[i + 2]))
            } else {
                None
            };
            out.push(op);
            i += 1;
        }
        out
    }

    /// Parses a query, with `sizes[i]` the value of the size operand of token
    /// `i` (as [`NlQueryParser::size_operands`] lists them).
    pub fn parse_with_sizes(query_str: &str, sizes: &Vec<Option<u64>>) -> (r: ParsedQuery)
        requires
            sizes@.len() == query_tokens(query_str@).len(),
        ensures
            parsed_as(r, query_str@, sizes@),
    {
        let (raw, phrases, tokens) = tokenize(query_str);
        let ghost toks = views(tokens@);
        let ghost sz = sizes@;
        let n = tokens.len();
        let mut extensions: Vec<Vec<char>> = Vec::new();
        let mut tags: Vec<Vec<char>> = Vec::new();
        let mut categories: Vec<TagCategory> = Vec::new();
        let mut min_size: Option<u64> = None;
        let mut max_size: Option<u64> = None;
        let mut within: Option<u64> = None;
        let mut excluded: Vec<Vec<char>> = Vec::new();
        let mut sort_by: Option<SortField> = None;
        let mut direction = SortDirection::Ascending;
        let mut text: Vec<Vec<char>> = Vec::new();
        let mut i: usize = 0;
        assert(views(extensions@) =~= seq![]);
        assert(views(tags@) =~= seq![]);
        assert(views(excluded@) =~= seq![]);
        assert(views(text@) =~= seq![]);
        assert(categories@ =~= seq![]);
        while i < n
            invariant
                n == tokens.len(),
                toks == views(tokens@),
                toks == query_tokens(query_str@),
                sz == sizes@,
                sz.len() == n,
                i <= n,
                run_tokens(toks, sz, i as int, QueryAcc {
                    extensions: views(extensions@),
                    tags: views(tags@),
                    categories: categories@,
                    min_size,
                    max_size,
                    within,
                    excluded: views(excluded@),
                    sort_by,
                    direction,
                    text: views(text@),
                }) == run_tokens(toks, sz, 0, empty_acc()),
            decreases n - i,
        {
            proof {
                reveal_strlit("ext:");
                reveal_strlit("type:");
                reveal_strlit("tag:");
                reveal_strlit("size>");
                reveal_strlit("size<");
                reveal_strlit("sort:");
                reveal_strlit("order:");
                reveal_strlit("larger");
                reveal_strlit("smaller");
                reveal_strlit("modified:");
                reveal_strlit("created:");
            }
            let ghost a0 = QueryAcc {
                extensions: views(extensions@),
                tags: views(tags@),
                categories: categories@,
                min_size,
                max_size,
                within,
                excluded: views(excluded@),
                sort_by,
                direction,
                text: views(text@),
            };
            let ghost e0 = extensions@;
            let ghost t0 = tags@;
            let ghost x0 = excluded@;
            let ghost w0 = text@;
            let l = lowercase_vec(&tokens[i]);
            assert(l@ == unicode_lowercase(toks[i as int]));
            let mut step: usize = 1;
            if starts_with_str(&l, "ext:") {
                let e = trim_start_char_exec(&suffix(&l, 4), '.');
                extensions.push(e);
                assert(views(extensions@) =~= views(e0).push(e@));
            } else if starts_with_str(&l, "type:") {
                let ts = suffix(&l, 5);
                match type_category_exec(&ts) {
                    Some(c) => categories.push(c),
                    None => {
                        extensions.push(ts);
                        assert(views(extensions@) =~= views(e0).push(l@.skip(5)));
                    },
                }
            } else if starts_with_str(&l, "tag:") {
                let tg = suffix(&l, 4);
                tags.push(tg);
                assert(views(tags@) =~= views(t0).push(l@.skip(4)));
            } else if l.len() > 1 && l[0] == '#' {
                let tg = suffix(&l, 1);
                tags.push(tg);
                assert(views(tags@) =~= views(t0).push(l@.drop_first()));
            } else if l.len() > 0 && l[0] == '-' {
                if l.len() > 1 {
                    let ex = suffix(&l, 1);
                    excluded.push(ex);
                    assert(views(excluded@) =~= views(x0).push(l@.drop_first()));
                }
            } else if starts_with_str(&l, "size>") {
                if let Some(b) = sizes[i] {
                    min_size = Some(b);
                }
            } else if starts_with_str(&l, "size<") {
                if let Some(b) = sizes[i] {
                    max_size = Some(b);
                }
            } else if (eq_str(&l, "larger") || eq_str(&l, "smaller")) && n - i > 2 && eq_str(
                &lowercase_vec(&tokens[i + 1]),
                "than",
            ) {
                match sizes[i] {
                    Some(b) => {
                        if eq_str(&l, "larger") {
                            min_size = Some(b);
                        } else {
                            max_size = Some(b);
                        }
                        step = 3;
                    },
                    None => {
                        text.push(copy_chars(&tokens[i]));
                        assert(views(text@) =~= views(w0).push(toks[i as int]));
                    },
                }
            } else if eq_str(&l, "modified:") || eq_str(&l, "created:") {
                if i + 1 < n {
                    let when = lowercase_vec(&tokens[i + 1]);
                    within = Self::parse_timeframe(&when);
                    step = 2;
                }
            } else if eq_str(&l, "today") {
                within = Some(86400);
            } else if eq_str(&l, "yesterday") || eq_str(&l, "this-week") || eq_str(&l, "recent") {
                within = Some(604800);
            } else if starts_with_str(&l, "sort:") {
                if let Some(f) = sort_field_exec(&suffix(&l, 5)) {
                    sort_by = Some(f);
                }
            } else if starts_with_str(&l, "order:") {
                if let Some(d) = direction_exec(&suffix(&l, 6)) {
                    direction = d;
                }
            } else {
                text.push(copy_chars(&tokens[i]));
                assert(views(text@) =~= views(w0).push(toks[i as int]));
            }
            let ghost a1 = QueryAcc {
                extensions: views(extensions@),
                tags: views(tags@),
                categories: categories@,
                min_size,
                max_size,
                within,
                excluded: views(excluded@),
                sort_by,
                direction,
                text: views(text@),
            };
            let ghost ap = apply_token(toks, sz, i as int, a0);
            assert(a1.extensions == ap.extensions);
            assert(a1.tags == ap.tags);
            assert(a1.categories == ap.categories);
            assert(a1.min_size == ap.min_size);
            assert(a1.max_size == ap.max_size);
            assert(a1.within == ap.within);
            assert(a1.excluded == ap.excluded);
            assert(a1.sort_by == ap.sort_by);
            assert(a1.direction == ap.direction);
            assert(a1.text == ap.text);
            assert(a1 == ap);
            assert(step == 1 + tokens_consumed(toks, sz, i as int));
            i += step;
        }
        let text_search = if text.len() == 0 {
            None
        } else {
            let strs = strings_of(text);
            Some(join_strings(&strs, " "))
        };
        ParsedQuery {
            raw_query: string_of(&raw),
            text_search,
            extensions: strings_of(extensions),
            tags: strings_of(tags),
            categories,
            min_size,
            max_size,
            modified_within: within,
            exact_phrases: phrases,
            excluded_terms: strings_of(excluded),
            sort_by,
            sort_direction: direction,
        }
    }

    /// The time window, in seconds, that a timeframe word names.
    pub fn parse_timeframe(s: &Vec<char>) -> (r: Option<u64>)
        ensures
            r == timeframe(s@),
    {
        if eq_str(s, "today") {
            Some(86400)
        } else if eq_str(s, "week") || eq_str(s, "7days") {
            Some(604800)
        } else if eq_str(s, "month") || eq_str(s, "30days") {
            Some(2592000)
        } else if eq_str(s, "year") || eq_str(s, "365days") {
            Some(31536000)
        } else {
            None
        }
    }
}


// ------------------------------------------------------------------
// Matching files against a query
// ------------------------------------------------------------------

/// Metadata of a file evaluated against a query. The modification time is
/// seconds and nanoseconds since the Unix epoch (negative seconds before it).
#[derive(Debug, Clone)]
pub struct FileMetadata {
    pub path: String,
    pub size: u64,
    pub modified: Option<(i64, u32)>,
    pub tags: Vec<Tag>,
    pub content_snippet: Option<String>,
}

/// An instant in nanoseconds since the Unix epoch.
pub open spec fn instant_nanos(t: (i64, u32)) -> int {
    t.0 * 1_000_000_000 + t.1
}

/// Whether the lowercased name or id of one of the tags is `want`.
pub open spec fn has_tag_named(tags: Seq<Tag>, want: Seq<char>) -> bool {
    exists|k: int|
        0 <= k < tags.len() && (unicode_lowercase((#[trigger] tags[k]).name@) == want
            || unicode_lowercase(tags[k].id@) == want)
}

/// Whether one of the requested tags is on the file.
pub open spec fn tag_filter_passes(req: Seq<Seq<char>>, tags: Seq<Tag>) -> bool {
    exists|i: int| 0 <= i < req.len() && has_tag_named(tags, unicode_lowercase(#[trigger] req[i]))
}

/// Whether one of the file's tags is in one of the categories.
pub open spec fn category_filter_passes(cats: Seq<TagCategory>, tags: Seq<Tag>) -> bool {
    exists|k: int, c: int|
        0 <= k < tags.len() && 0 <= c < cats.len() && category_view((#[trigger] tags[k]).category)
            == category_view(#[trigger] cats[c])
}

/// Whether the phrase occurs in the name or in the content.
pub open spec fn phrase_found(name: Seq<char>, snippet: Option<String>, phrase: Seq<char>) -> bool {
    contains(name, unicode_lowercase(phrase)) || match snippet {
        Some(sn) => contains(unicode_lowercase(sn@), unicode_lowercase(phrase)),
        None => false,
    }
}

/// The lowercased file name of the metadata's path (empty without one).
pub open spec fn lower_file_name(path: Seq<char>) -> Seq<char> {
    unicode_lowercase(
        match file_name(path) {
            Some(n) => n,
            None => Seq::<char>::empty(),
        },
    )
}

/// Whether a file passes every filter of the query at the instant `now`
/// (nanoseconds since the epoch).
pub open spec fn query_matches(q: ParsedQuery, m: FileMetadata, now: int) -> bool {
    let exts = q.extensions@.map_values(|s: String| s@);
    let ext = match path_extension(m.path@) {
        Some(e) => e,
        None => Seq::<char>::empty(),
    };
    let name = lower_file_name(m.path@);
    &&& (exts.len() > 0 ==> any_eq_ignore_case(exts, ext))
    &&& (q.min_size matches Some(mn) ==> m.size >= mn)
    &&& (q.max_size matches Some(mx) ==> m.size <= mx)
    &&& (q.modified_within matches Some(w) ==> (m.modified matches Some(t) ==> (now
        >= instant_nanos(t) ==> now - instant_nanos(t) <= w * 1_000_000_000)))
    &&& (q.tags@.len() > 0 ==> tag_filter_passes(q.tags@.map_values(|s: String| s@), m.tags@))
    &&& (q.categories@.len() > 0 ==> category_filter_passes(q.categories@, m.tags@))
    &&& (forall|i: int|
        0 <= i < q.excluded_terms@.len() ==> !contains(
            name,
            unicode_lowercase((#[trigger] q.excluded_terms@[i])@),
        ))
    &&& (forall|i: int|
        0 <= i < q.exact_phrases@.len() ==> phrase_found(
            name,
            m.content_snippet,
            (#[trigger] q.exact_phrases@[i])@,
        ))
    &&& (q.text_search matches Some(t) ==> phrase_found(name, m.content_snippet, t@))
}

/// Calls `SystemTime::now` and measures it from `UNIX_EPOCH`: `Ok` with the
/// seconds and nanoseconds after the epoch, `Err` with those before it. The
/// time depends on the clock, so only the documented range of the nanoseconds
/// is stated.
#[verifier::external_body]
fn clock_now() -> (r: Result<(u64, u32), (u64, u32)>)
    ensures
        r matches Ok(d) ==> d.1 < 1_000_000_000,
        r matches Err(d) ==> d.1 < 1_000_000_000,
{
    match std::time::SystemTime::now().duration_since(std::time::UNIX_EPOCH) {
        Ok(d) => Ok((d.as_secs(), d.subsec_nanos())),
        Err(e) => Err((e.duration().as_secs(), e.duration().subsec_nanos())),
    }
}

fn has_tag_named_exec(tags: &Vec<Tag>, want: &Vec<char>) -> (r: bool)
    ensures
        r == has_tag_named(tags@, want@),
{
    let mut k: usize = 0;
    while k < tags.len()
        invariant
            k <= tags.len(),
            forall|j: int|
                0 <= j < k ==> !(unicode_lowercase((#[trigger] tags@[j]).name@) == want@
                    || unicode_lowercase(tags@[j].id@) == want@),
        decreases tags.len() - k,
    {
        let n = lowercase_chars(tags[k].name.as_str());
        let d = lowercase_chars(tags[k].id.as_str());
        if eq_chars(&n, want) || eq_chars(&d, want) {
            return true;
        }
        k += 1;
    }
    false
}

fn tag_filter_exec(req: &Vec<String>, tags: &Vec<Tag>) -> (r: bool)
    ensures
        r == tag_filter_passes(req@.map_values(|s: String| s@), tags@),
{
    let ghost rv = req@.map_values(|s: String| s@);
    let mut i: usize = 0;
    while i < req.len()
        invariant
            i <= req.len(),
            rv == req@.map_values(|s: String| s@),
            forall|j: int| 0 <= j < i ==> !has_tag_named(tags@, unicode_lowercase(#[trigger] rv[j])),
        decreases req.len() - i,
    {
        let want = lowercase_chars(req[i].as_str());
        if has_tag_named_exec(tags, &want) {
            assert(rv[i as int] == req@[i as int]@);
            return true;
        }
        i += 1;
    }
    false
}

fn category_filter_exec(cats: &Vec<TagCategory>, tags: &Vec<Tag>) -> (r: bool)
    ensures
        r == category_filter_passes(cats@, tags@),
{
    let mut k: usize = 0;
    while k < tags.len()
        invariant
            k <= tags.len(),
            forall|a: int, c: int|
                0 <= a < k && 0 <= c < cats@.len() ==> category_view((#[trigger] tags@[a]).category)
                    != category_view(#[trigger] cats@[c]),
        decreases tags.len() - k,
    {
        let mut c: usize = 0;
        while c < cats.len()
            invariant
                k < tags.len(),
                c <= cats.len(),
                forall|a: int, b: int|
                    0 <= a < k && 0 <= b < cats@.len() ==> category_view(
                        (#[trigger] tags@[a]).category,
                    ) != category_view(#[trigger] cats@[b]),
                forall|b: int|
                    0 <= b < c ==> category_view(tags@[k as int].category) != category_view(
                        #[trigger] cats@[b],
                    ),
            decreases cats.len() - c,
        {
            if tags[k].category.same_as(&cats[c]) {
                return true;
            }
            c += 1;
        }
        k += 1;
    }
    false
}

fn phrase_found_exec(name: &Vec<char>, snippet: &Option<String>, phrase: &str) -> (r: bool)
    ensures
        r == phrase_found(name@, *snippet, phrase@),
{
    let p = lowercase_chars(phrase);
    if contains_exec(name, &p) {
        return true;
    }
    match snippet {
        Some(sn) => {
            let l = lowercase_chars(sn.as_str());
            contains_exec(&l, &p)
        },
        None => false,
    }
}

impl ParsedQuery {
    /// Whether a file passes every filter of the query at the instant `now`
    /// (nanoseconds since the Unix epoch).
    pub fn matches_at(&self, metadata: &FileMetadata, now: i128) -> (r: bool)
        ensures
            r == query_matches(*self, *metadata, now as int),
    {
        let path = chars_of(metadata.path.as_str());
        if self.extensions.len() > 0 {
            let ext = match path_extension_exec(&path) {
                Some(e) => e,
                None => Vec::new(),
            };
            if !any_eq_ignore_case_exec(&self.extensions, &ext) {
                return false;
            }
        }
        if let Some(min_size) = self.min_size {
            if metadata.size < min_size {
                return false;
            }
        }
        if let Some(max_size) = self.max_size {
            if metadata.size > max_size {
                return false;
            }
        }
        if let Some(within) = self.modified_within {
            if let Some(t) = metadata.modified {
                let mt: i128 = (t.0 as i128) * 1_000_000_000 + (t.1 as i128);
                let limit: i128 = mt + (within as i128) * 1_000_000_000;
                if now >= mt && now > limit {
                    return false;
                }
            }
        }
        if self.tags.len() > 0 {
            if !tag_filter_exec(&self.tags, &metadata.tags) {
                return false;
            }
        }
        if self.categories.len() > 0 {
            if !category_filter_exec(&self.categories, &metadata.tags) {
                return false;
            }
        }
        let name_chars = match file_name_exec(&path) {
            Some(n) => n,
            None => Vec::new(),
        };
        let name = lowercase_vec(&name_chars);
        let mut i: usize = 0;
        while i < self.excluded_terms.len()
            invariant
                i <= self.excluded_terms.len(),
                name@ == lower_file_name(metadata.path@),
                forall|j: int|
                    0 <= j < i ==> !contains(
                        name@,
                        unicode_lowercase((#[trigger] self.excluded_terms@[j])@),
                    ),
            decreases self.excluded_terms.len() - i,
        {
            let ex = lowercase_chars(self.excluded_terms[i].as_str());
            if contains_exec(&name, &ex) {
                return false;
            }
            i += 1;
        }
        let mut k: usize = 0;
        while k < self.exact_phrases.len()
            invariant
                k <= self.exact_phrases.len(),
                name@ == lower_file_name(metadata.path@),
                forall|j: int|
                    0 <= j < k ==> phrase_found(
                        name@,
                        metadata.content_snippet,
                        (#[trigger] self.exact_phrases@[j])@,
                    ),
            decreases self.exact_phrases.len() - k,
        {
            if !phrase_found_exec(&name, &metadata.content_snippet, self.exact_phrases[k].as_str()) {
                return false;
            }
            k += 1;
        }
        if let Some(text) = &self.text_search {
            if !phrase_found_exec(&name, &metadata.content_snippet, text.as_str()) {
                return false;
            }
        }
        true
    }

    /// Whether a file passes every filter of the query now. The clock is read
    /// once; the result is what [`ParsedQuery::matches_at`] gives for the
    /// instant read.
    pub fn matches(&self, metadata: &FileMetadata) -> (r: bool)
        ensures
            exists|now: int| r == query_matches(*self, *metadata, now),
    {
        let now: i128 = match clock_now() {
            Ok(d) => (d.0 as i128) * 1_000_000_000 + (d.1 as i128),
            Err(d) => 0 - ((d.0 as i128) * 1_000_000_000 + (d.1 as i128)),
        };
        self.matches_at(metadata, now)
    }
}

} // verus!
