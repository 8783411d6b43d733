//! Fuzzy subsequence matching and ranking of paths for the command bar.
use vstd::prelude::*;
use crate::text::{ascii_lower, ascii_lower_exec, byte_len, byte_len_prefix, char_is_lowercase, char_is_uppercase, chars_of, eq_ignore_ascii_case, lemma_byte_len_encode, lemma_byte_len_take_le, lowercase_chars, string_from, unicode_is_lowercase, unicode_is_uppercase, unicode_lowercase};

verus! {

/// Scoring representation for fuzzy search matches.
#[derive(Debug, Clone, Copy, PartialEq, Eq, PartialOrd, Ord, Hash)]
pub struct MatchScore(pub i32);

/// Result of a fuzzy search match against a target string.
#[derive(Debug, Clone, PartialEq, Eq)]
pub struct FuzzyMatchResult {
    pub target: String,
    pub score: MatchScore,
    pub matched_indices: Vec<usize>,
}

/// Mathematical view of a [`FuzzyMatchResult`].
pub struct FuzzyMatchView {
    pub target: Seq<char>,
    pub score: i32,
    pub matched_indices: Seq<usize>,
}

impl View for FuzzyMatchResult {
    type V = FuzzyMatchView;

    open spec fn view(&self) -> FuzzyMatchView {
        FuzzyMatchView { target: self.target@, score: self.score.0, matched_indices: self.matched_indices@ }
    }
}

/// First index at or after `t` where `c` occurs in `s`.
pub open spec fn next_occ(s: Seq<char>, c: char, t: int) -> Option<int>
    decreases s.len() - t,
{
    if t < 0 || t >= s.len() {
        None
    } else if s[t] == c {
        Some(t)
    } else {
        next_occ(s, c, t + 1)
    }
}

/// First index at or after `t` where `c` occurs in `s` at the start of a
/// word of `orig` (see `is_boundary`).
pub open spec fn next_boundary_occ(s: Seq<char>, orig: Seq<char>, c: char, t: int, ls: int) -> Option<int>
    decreases s.len() - t,
{
    if t < 0 || t >= s.len() {
        None
    } else if s[t] == c && is_boundary(orig, t, ls) {
        Some(t)
    } else {
        next_boundary_occ(s, orig, c, t + 1, ls)
    }
}

/// Where the next pattern character `c` is matched from `t` on: its first
/// occurrence at a word start, else its first occurrence.
pub open spec fn pick(s: Seq<char>, orig: Seq<char>, c: char, t: int, ls: int) -> Option<int> {
    match next_boundary_occ(s, orig, c, t, ls) {
        Some(k) => Some(k),
        None => next_occ(s, c, t),
    }
}

/// Left-to-right match of `p[j..]` in `s[t..]`, each character placed by
/// `pick`: the index of each matched character.
pub open spec fn greedy(p: Seq<char>, s: Seq<char>, orig: Seq<char>, ls: int, j: int, t: int) -> Option<Seq<usize>>
    decreases p.len() - j,
{
    if j < 0 || j >= p.len() {
        Some(Seq::empty())
    } else {
        match pick(s, orig, p[j], t, ls) {
            None => None,
            Some(k) => match greedy(p, s, orig, ls, j + 1, k + 1) {
                None => None,
                Some(rest) => Some(seq![k as usize] + rest),
            },
        }
    }
}

/// Prefixes `m` to a found match.
pub open spec fn prepend(m: Seq<usize>, o: Option<Seq<usize>>) -> Option<Seq<usize>> {
    match o {
        None => None,
        Some(r) => Some(m + r),
    }
}

/// Index of the last `/` or `\` in `s` before index `n`.
pub open spec fn last_sep(s: Seq<char>, n: int) -> Option<int>
    decreases n,
{
    if n <= 0 || n > s.len() {
        None
    } else if s[n - 1] == '/' || s[n - 1] == '\\' {
        Some(n - 1)
    } else {
        last_sep(s, n - 1)
    }
}

/// Byte offset just past the last path separator of `t`, or 0 (what
/// `rfind(&['/', '\\'])` gives, plus one).
pub open spec fn last_slash(t: Seq<char>) -> int {
    match last_sep(t, t.len() as int) {
        Some(i) => byte_len(t.take(i)) + 1int,
        None => 0,
    }
}

/// A character that separates words in a path.
pub open spec fn is_word_sep(c: char) -> bool {
    c == '/' || c == '\\' || c == '_' || c == '-' || c == '.' || c == ' '
}

/// `idx.saturating_sub(1)`.
pub open spec fn sat_dec(idx: int) -> int {
    if idx > 0 { idx - 1 } else { 0 }
}

/// The matched character at `idx` starts a word.
pub open spec fn is_boundary(t: Seq<char>, idx: int, ls: int) -> bool {
    let p = sat_dec(idx);
    ||| idx == 0
    ||| idx == ls
    ||| (p < t.len() && is_word_sep(t[p]))
    ||| (idx < t.len() && unicode_is_uppercase(t[idx]) && p < t.len() && unicode_is_lowercase(t[p]))
}

/// Score contributed by the matched index `idx`, following a match at `prev`.
pub open spec fn index_bonus(t: Seq<char>, idx: int, prev: Option<int>, ls: int) -> int {
    10 + (if prev == Some(idx - 1) { 15int } else { 0int }) + (if is_boundary(t, idx, ls) { 20int } else { 0int })
        + (if idx >= ls { 10int } else { 0int })
}

/// Sum of the bonuses of the first `k` matched indices.
pub open spec fn bonus_upto(t: Seq<char>, ind: Seq<usize>, k: int, ls: int) -> int
    decreases k,
{
    if k <= 0 || k > ind.len() {
        0
    } else {
        bonus_upto(t, ind, k - 1, ls) + index_bonus(
            t,
            ind[k - 1] as int,
            if k >= 2 { Some(ind[k - 2] as int) } else { None },
            ls,
        )
    }
}

/// The score before the length penalty.
pub open spec fn raw_score(pattern: Seq<char>, target: Seq<char>, ind: Seq<usize>) -> int {
    (if eq_ignore_ascii_case(pattern, target) { 100int } else { 0int }) + bonus_upto(target, ind, ind.len() as int, last_slash(target))
}

/// The matched indices of `pattern` in `target`, if every pattern character is found.
pub open spec fn match_indices(pattern: Seq<char>, target: Seq<char>) -> Option<Seq<usize>> {
    greedy(unicode_lowercase(pattern), unicode_lowercase(target), target, last_slash(target), 0, 0)
}

/// The score computations of `match_path` stay within `i32` (they would
/// overflow, and panic, otherwise).
pub open spec fn fuzzy_score_fits(pattern: Seq<char>, target: Seq<char>) -> bool {
    match match_indices(pattern, target) {
        Some(ind) => {
            let raw = raw_score(pattern, target, ind);
            raw <= i32::MAX && i32::MIN <= raw - ((byte_len(target) as i32) as int) <= i32::MAX
        },
        None => true,
    }
}

/// What `match_path` returns.
pub open spec fn spec_match_path(pattern: Seq<char>, target: Seq<char>) -> Option<FuzzyMatchView> {
    if pattern.len() == 0 {
        Some(FuzzyMatchView { target, score: 0, matched_indices: Seq::empty() })
    } else {
        match match_indices(pattern, target) {
            None => None,
            Some(ind) => Some(FuzzyMatchView {
                target,
                score: (raw_score(pattern, target, ind) - ((byte_len(target) as i32) as int)) as i32,
                matched_indices: ind,
            }),
        }
    }
}

/// Lexicographic order of character sequences (by code point, as `str` orders).
pub open spec fn seq_lt(a: Seq<char>, b: Seq<char>) -> bool
    decreases a.len(),
{
    if a.len() == 0 {
        b.len() > 0
    } else if b.len() == 0 {
        false
    } else if a[0] != b[0] {
        (a[0] as u32) < (b[0] as u32)
    } else {
        seq_lt(a.drop_first(), b.drop_first())
    }
}

/// `a` comes no later than `b` in search results: higher score first, then by target.
pub open spec fn result_le(a: FuzzyMatchView, b: FuzzyMatchView) -> bool {
    a.score > b.score || (a.score == b.score && !seq_lt(b.target, a.target))
}

/// The results are in search order.
pub open spec fn results_sorted(s: Seq<FuzzyMatchView>) -> bool {
    forall|i: int, j: int| 0 <= i < j < s.len() ==> result_le(#[trigger] s[i], #[trigger] s[j])
}

/// In-memory fuzzy path search engine for quick omnibar search.
#[derive(Debug, Clone)]
pub struct FuzzySearchEngine {
    items: Vec<String>,
}

/// Views of a sequence of strings.
pub open spec fn string_views(s: Seq<String>) -> Seq<Seq<char>> {
    s.map_values(|x: String| x@)
}

/// Views of a sequence of match results.
pub open spec fn result_views(s: Seq<FuzzyMatchResult>) -> Seq<FuzzyMatchView> {
    s.map_values(|x: FuzzyMatchResult| x@)
}

/// Results of matching `query` against each of `items`, in item order.
pub open spec fn matches_in_order(query: Seq<char>, items: Seq<Seq<char>>) -> Seq<FuzzyMatchView>
    decreases items.len(),
{
    if items.len() == 0 {
        Seq::empty()
    } else {
        let prev = matches_in_order(query, items.drop_last());
        match spec_match_path(query, items.last()) {
            Some(m) => prev.push(m),
            None => prev,
        }
    }
}

impl View for FuzzySearchEngine {
    type V = Seq<Seq<char>>;

    closed spec fn view(&self) -> Seq<Seq<char>> {
        string_views(self.items@)
    }
}

/// Lexicographic comparison of two character vectors: `a < b`.
pub fn chars_lt(a: &Vec<char>, b: &Vec<char>) -> (r: bool)
    ensures
        r == seq_lt(a@, b@),
{
    let mut i: usize = 0;
    assert(a@.skip(0) == a@);
    assert(b@.skip(0) == b@);
    while i < a.len() && i < b.len() && a[i] == b[i]
        invariant
            i <= a.len(),
            i <= b.len(),
            seq_lt(a@, b@) == seq_lt(a@.skip(i as int), b@.skip(i as int)),
        decreases a.len() - i,
    {
        assert(a@.skip(i as int).drop_first() == a@.skip(i + 1));
        assert(b@.skip(i as int).drop_first() == b@.skip(i + 1));
        i += 1;
    }
    if i < a.len() && i < b.len() {
        assert(a@.skip(i as int)[0] == a@[i as int]);
        assert(b@.skip(i as int)[0] == b@[i as int]);
        (a[i] as u32) < (b[i] as u32)
    } else {
        i == a.len() && i < b.len()
    }
}

/// Strings order totally: if neither is below the other, they are equal.
pub proof fn lemma_seq_lt_total(a: Seq<char>, b: Seq<char>)
    ensures
        !seq_lt(a, b) && !seq_lt(b, a) ==> a == b,
        !(seq_lt(a, b) && seq_lt(b, a)),
    decreases a.len(),
{
    if a.len() > 0 && b.len() > 0 && a[0] == b[0] {
        lemma_seq_lt_total(a.drop_first(), b.drop_first());
        if !seq_lt(a, b) && !seq_lt(b, a) {
            assert(a =~= seq![a[0]] + a.drop_first());
            assert(b =~= seq![b[0]] + b.drop_first());
        }
    } else if a.len() == 0 && b.len() == 0 {
        assert(a =~= b);
    } else if a.len() > 0 && b.len() > 0 {
        assert(a[0] != b[0]);
        if (a[0] as u32) == (b[0] as u32) {
            vstd::utf8::char_u32_cast(a[0], a[0] as u32);
            vstd::utf8::char_u32_cast(b[0], b[0] as u32);
        }
    }
}

/// The order of strings is transitive.
pub proof fn lemma_seq_lt_trans(a: Seq<char>, b: Seq<char>, c: Seq<char>)
    requires
        seq_lt(a, b),
        seq_lt(b, c),
    ensures
        seq_lt(a, c),
    decreases a.len(),
{
    if a.len() > 0 && b.len() > 0 && c.len() > 0 && a[0] == b[0] && b[0] == c[0] {
        lemma_seq_lt_trans(a.drop_first(), b.drop_first(), c.drop_first());
    }
}

/// Every step of the bonus sum adds a non-negative amount.
proof fn lemma_bonus_mono(t: Seq<char>, ind: Seq<usize>, k: int, m: int, ls: int)
    requires
        0 <= k <= m <= ind.len(),
    ensures
        bonus_upto(t, ind, k, ls) <= bonus_upto(t, ind, m, ls),
        bonus_upto(t, ind, m, ls) >= 0,
    decreases m - k,
{
    if k < m {
        lemma_bonus_mono(t, ind, k, m - 1, ls);
    } else {
        lemma_bonus_nonneg(t, ind, m, ls);
    }
}

proof fn lemma_bonus_nonneg(t: Seq<char>, ind: Seq<usize>, m: int, ls: int)
    ensures
        bonus_upto(t, ind, m, ls) >= 0,
    decreases m,
{
    if m > 0 && m <= ind.len() {
        lemma_bonus_nonneg(t, ind, m - 1, ls);
    }
}

/// Index of the last `/` or `\`, if any.
fn last_sep_exec(t: &Vec<char>) -> (r: Option<usize>)
    ensures
        r matches Some(i) ==> last_sep(t@, t.len() as int) == Some(i as int) && i < t.len(),
        r is None ==> last_sep(t@, t.len() as int) is None,
{
    let mut n = t.len();
    while n > 0 && !(t[n - 1] == '/' || t[n - 1] == '\\')
        invariant
            n <= t.len(),
            last_sep(t@, t.len() as int) == last_sep(t@, n as int),
        decreases n,
    {
        n -= 1;
    }
    if n > 0 {
        Some(n - 1)
    } else {
        None
    }
}

/// `t.get(i)` is a word separator.
fn sep_at(t: &Vec<char>, i: usize) -> (r: bool)
    ensures
        r == (i < t.len() && is_word_sep(t@[i as int])),
{
    if i < t.len() {
        let c = t[i];
        c == '/' || c == '\\' || c == '_' || c == '-' || c == '.' || c == ' '
    } else {
        false
    }
}

/// Whether the character at `idx` of `t` starts a word.
fn is_boundary_exec(t: &Vec<char>, idx: usize, ls: usize) -> (r: bool)
    ensures
        r == is_boundary(t@, idx as int, ls as int),
{
    let p = if idx > 0 { idx - 1 } else { 0 };
    let upper_lower = idx < t.len() && char_is_uppercase(t[idx]) && p < t.len() && char_is_lowercase(t[p]);
    idx == 0 || idx == ls || sep_at(t, p) || upper_lower
}

/// `str::eq_ignore_ascii_case`.
fn eq_ignore_ascii_case_exec(a: &Vec<char>, b: &Vec<char>) -> (r: bool)
    ensures
        r == eq_ignore_ascii_case(a@, b@),
{
    if a.len() != b.len() {
        return false;
    }
    let mut i: usize = 0;
    while i < a.len()
        invariant
            a.len() == b.len(),
            i <= a.len(),
            forall|j: int| 0 <= j < i ==> ascii_lower(#[trigger] a@[j]) == ascii_lower(b@[j]),
        decreases a.len() - i,
    {
        if ascii_lower_exec(a[i]) != ascii_lower_exec(b[i]) {
            return false;
        }
        i += 1;
    }
    true
}

impl FuzzySearchEngine {
    pub fn new() -> (r: Self)
        ensures
            r@ == Seq::<Seq<char>>::empty(),
    {
        let r = FuzzySearchEngine { items: Vec::new() };
        assert(r@ =~= Seq::<Seq<char>>::empty());
        r
    }

    pub fn add(&mut self, item: String)
        ensures
            final(self)@ == old(self)@.push(item@),
    {
        let ghost old_items = self.items@;
        self.items.push(item);
        assert(string_views(self.items@) =~= string_views(old_items).push(item@));
    }

    pub fn set_items(&mut self, items: Vec<String>)
        ensures
            final(self)@ == string_views(items@),
    {
        self.items = items;
    }

    pub fn clear(&mut self)
        ensures
            final(self)@ == Seq::<Seq<char>>::empty(),
    {
        self.items.clear();
        assert(self@ =~= Seq::<Seq<char>>::empty());
    }

    /// Fuzzy-matches `pattern` against `target`: every pattern character must
    /// occur in order (case-insensitively), each matched at the next word
    /// start where one has it; the score rewards consecutive and word-start
    /// matches and penalizes long targets.
    pub fn match_path(pattern: &str, target: &str) -> (r: Option<FuzzyMatchResult>)
        requires
            fuzzy_score_fits(pattern@, target@),
            byte_len(target@) <= usize::MAX,
        ensures
            match (r, spec_match_path(pattern@, target@)) {
                (Some(m), Some(sm)) => m@ == sm,
                (None, None) => true,
                _ => false,
            },
    {
        if pattern.is_empty() {
            let r = FuzzyMatchResult { target: string_from(target), score: MatchScore(0), matched_indices: Vec::new() };
            assert(r@.matched_indices =~= Seq::<usize>::empty());
            return Some(r);
        }
        let p_chars = lowercase_chars(pattern);
        let t_chars = chars_of(target);
        let t_lower = lowercase_chars(target);
        let ghost P = p_chars@;
        let ghost TL = t_lower@;

        let ls_opt = last_sep_exec(&t_chars);
        let last_slash_v: usize = match ls_opt {
            Some(i) => {
                let b = byte_len_prefix(&t_chars, i);
                proof {
                    lemma_byte_len_take_le(t_chars@, i as int);
                    lemma_byte_len_encode(target@);
                }
                b + 1
            },
            None => 0,
        };
        assert(last_slash_v as int == last_slash(target@));
        let ghost T = target@;
        let ghost LS = last_slash(target@);

        let mut matched_indices: Vec<usize> = Vec::new();
        let mut t_idx: usize = 0;
        let mut j: usize = 0;
        assert(matched_indices@ + Seq::<usize>::empty() == matched_indices@);
        while j < p_chars.len()
            invariant
                j <= p_chars.len(),
                P == p_chars@,
                TL == t_lower@,
                T == t_chars@,
                LS == last_slash_v as int,
                P == unicode_lowercase(pattern@),
                TL == unicode_lowercase(target@),
                T == target@,
                LS == last_slash(target@),
                pattern@.len() > 0,
                t_idx <= t_lower.len(),
                greedy(P, TL, T, LS, 0, 0) == prepend(matched_indices@, greedy(P, TL, T, LS, j as int, t_idx as int)),
                forall|k: int| 0 <= k < matched_indices.len() ==> matched_indices@[k] < t_lower.len(),
            decreases p_chars.len() - j,
        {
            let pc = p_chars[j];
            let ghost t0 = t_idx;
            let mut bpos = t_idx;
            while bpos < t_lower.len() && !(t_lower[bpos] == pc && is_boundary_exec(&t_chars, bpos, last_slash_v))
                invariant
                    t0 <= bpos <= t_lower.len(),
                    TL == t_lower@,
                    T == t_chars@,
                    LS == last_slash_v as int,
                    next_boundary_occ(TL, T, pc, t0 as int, LS) == next_boundary_occ(TL, T, pc, bpos as int, LS),
                decreases t_lower.len() - bpos,
            {
                bpos += 1;
            }
            if bpos < t_lower.len() {
                t_idx = bpos;
            } else {
                while t_idx < t_lower.len() && t_lower[t_idx] != pc
                    invariant
                        t0 <= t_idx <= t_lower.len(),
                        TL == t_lower@,
                        next_occ(TL, pc, t0 as int) == next_occ(TL, pc, t_idx as int),
                    decreases t_lower.len() - t_idx,
                {
                    t_idx += 1;
                }
                if t_idx >= t_lower.len() {
                    assert(greedy(P, TL, T, LS, j as int, t0 as int) is None);
                    assert(greedy(P, TL, T, LS, 0, 0) is None);
                    assert(match_indices(pattern@, target@) is None);
                    return None;
                }
            }
            assert(pick(TL, T, pc, t0 as int, LS) == Some(t_idx as int));
            let ghost m0 = matched_indices@;
            matched_indices.push(t_idx);
            assert(greedy(P, TL, T, LS, j as int, t0 as int) == prepend(seq![t_idx], greedy(P, TL, T, LS, j + 1, t_idx + 1)));
            assert(m0 + seq![t_idx] =~= matched_indices@);
            assert forall|o: Option<Seq<usize>>| prepend(m0, prepend(seq![t_idx], o)) == prepend(matched_indices@, o) by {
                match o {
                    Some(r) => { assert(m0 + (seq![t_idx] + r) =~= matched_indices@ + r); },
                    None => {},
                }
            }
            t_idx += 1;
            j += 1;
        }
        assert(greedy(P, TL, T, LS, j as int, t_idx as int) == Some(Seq::<usize>::empty()));
        assert(matched_indices@ + Seq::<usize>::empty() =~= matched_indices@);
        let ghost ind = matched_indices@;
        assert(match_indices(pattern@, target@) == Some(ind));

        let ghost ls = last_slash(target@);
        let ghost raw = raw_score(pattern@, target@, ind);
        proof {
            lemma_bonus_mono(target@, ind, 0, ind.len() as int, ls);
        }
        let pte = chars_of(pattern);
        let mut score: i32 = if eq_ignore_ascii_case_exec(&pte, &t_chars) { 100 } else { 0 };
        let ghost base = score as int;
        let mut k: usize = 0;
        while k < matched_indices.len()
            invariant
                k <= matched_indices.len(),
                ind == matched_indices@,
                t_chars@ == target@,
                last_slash_v as int == ls,
                raw == base + bonus_upto(target@, ind, ind.len() as int, ls),
                raw <= i32::MAX,
                base >= 0,
                score as int == base + bonus_upto(target@, ind, k as int, ls),
            decreases matched_indices.len() - k,
        {
            proof {
                lemma_bonus_mono(target@, ind, k + 1, ind.len() as int, ls);
                lemma_bonus_nonneg(target@, ind, k as int, ls);
            }
            let idx = matched_indices[k];
            let mut b: i32 = 10;
            if k >= 1 && idx >= 1 && matched_indices[k - 1] == idx - 1 {
                b = b + 15;
            }
            if is_boundary_exec(&t_chars, idx, last_slash_v) {
                b = b + 20;
            }
            if idx >= last_slash_v {
                b = b + 10;
            }
            assert(b as int == index_bonus(target@, idx as int, if k >= 1 { Some(ind[k - 1] as int) } else { None }, ls));
            score = score + b;
            k += 1;
        }
        let tl = target.len();
        proof {
            lemma_byte_len_encode(target@);
        }
        assert(tl as int == byte_len(target@));
        assert(score as int == raw);
        score = score - (tl as i32);
        let r = FuzzyMatchResult { target: string_from(target), score: MatchScore(score), matched_indices };
        assert(r@.matched_indices == ind);
        assert(r@.score == (raw - ((byte_len(target@) as i32) as int)) as i32);
        Some(r)
    }

    /// Matches `query` against every item, best score first, ties by target.
    pub fn search(&self, query: &str) -> (r: Vec<FuzzyMatchResult>)
        requires
            forall|i: int| 0 <= i < self@.len() ==> fuzzy_score_fits(query@, #[trigger] self@[i]),
            forall|i: int| 0 <= i < self@.len() ==> byte_len(#[trigger] self@[i]) <= usize::MAX,
        ensures
            results_sorted(result_views(r@)),
            result_views(r@).to_multiset() == matches_in_order(query@, self@).to_multiset(),
    {
        let mut results: Vec<FuzzyMatchResult> = Vec::new();
        let mut i: usize = 0;
        assert(result_views(results@) =~= Seq::<FuzzyMatchView>::empty());
        while i < self.items.len()
            invariant
                i <= self.items.len(),
                forall|i: int| 0 <= i < self@.len() ==> fuzzy_score_fits(query@, #[trigger] self@[i]),
                forall|i: int| 0 <= i < self@.len() ==> byte_len(#[trigger] self@[i]) <= usize::MAX,
                results_sorted(result_views(results@)),
                result_views(results@).to_multiset() == matches_in_order(query@, self@.take(i as int)).to_multiset(),
            decreases self.items.len() - i,
        {
            assert(self@.take(i + 1).drop_last() == self@.take(i as int));
            assert(self@.take(i + 1).last() == self.items@[i as int]@);
            assert(fuzzy_score_fits(query@, self@[i as int]));
            assert(byte_len(self@[i as int]) <= usize::MAX);
            match Self::match_path(query, self.items[i].as_str()) {
                Some(m) => {
                    insert_sorted(&mut results, m);
                    proof {
                        broadcast use vstd::seq_lib::group_to_multiset_ensures;
                    }
                },
                None => {},
            }
            i += 1;
        }
        assert(self@.take(self.items.len() as int) == self@);
        results
    }
}

/// Inserts `m` into sorted `v` after every element that comes no later than it.
fn insert_sorted(v: &mut Vec<FuzzyMatchResult>, m: FuzzyMatchResult)
    requires
        results_sorted(result_views(old(v)@)),
    ensures
        results_sorted(result_views(final(v)@)),
        result_views(final(v)@).to_multiset() == result_views(old(v)@).to_multiset().insert(m@),
{
    let ghost mv = m@;
    let ghost old_views = result_views(v@);
    let mt = chars_of(m.target.as_str());
    let mut pos: usize = 0;
    while pos < v.len() && precedes_or_ties(&v[pos], m.score.0, &mt)
        invariant
            pos <= v.len(),
            mt@ == mv.target,
            mv == m@,
            old_views == result_views(v@),
            results_sorted(old_views),
            forall|j: int| 0 <= j < pos ==> result_le(#[trigger] old_views[j], mv),
        decreases v.len() - pos,
    {
        assert(old_views[pos as int] == v@[pos as int]@);
        pos += 1;
    }
    proof {
        if pos < v.len() {
            assert(old_views[pos as int] == v@[pos as int]@);
            assert(!result_le(old_views[pos as int], mv));
            assert forall|j: int| pos <= j < old_views.len() implies !result_le(#[trigger] old_views[j], mv) by {
                if j > pos {
                    lemma_result_le_trans_neg(old_views[pos as int], old_views[j], mv);
                }
            }
        }
    }
    v.insert(pos, m);
    proof {
        assert(result_views(v@) =~= old_views.insert(pos as int, mv));
        old_views.to_multiset_ensures();
        vstd::seq_lib::to_multiset_insert(old_views, pos as int, mv);
        assert forall|i: int, j: int| 0 <= i < j < result_views(v@).len() implies result_le(
            #[trigger] result_views(v@)[i],
            #[trigger] result_views(v@)[j],
        ) by {
            let s = result_views(v@);
            if j < pos {
                assert(s[i] == old_views[i] && s[j] == old_views[j]);
            } else if j == pos {
                assert(s[j] == mv);
                assert(s[i] == old_views[i]);
            } else if i == pos {
                assert(s[i] == mv);
                assert(s[j] == old_views[j - 1]);
                lemma_result_le_total(old_views[j - 1], mv);
            } else if i < pos {
                assert(s[i] == old_views[i] && s[j] == old_views[j - 1]);
            } else {
                assert(s[i] == old_views[i - 1] && s[j] == old_views[j - 1]);
            }
        }
    }
}

/// `result_le(a, m)` where `m` has score `score` and target `mt`.
fn precedes_or_ties(a: &FuzzyMatchResult, score: i32, mt: &Vec<char>) -> (r: bool)
    ensures
        r == result_le(a@, FuzzyMatchView { target: mt@, score, matched_indices: Seq::empty() }),
{
    if a.score.0 > score {
        true
    } else if a.score.0 == score {
        let at = chars_of(a.target.as_str());
        !chars_lt(mt, &at)
    } else {
        false
    }
}

/// Search order is total.
proof fn lemma_result_le_total(a: FuzzyMatchView, b: FuzzyMatchView)
    ensures
        !result_le(b, a) ==> result_le(a, b),
{
    lemma_seq_lt_total(a.target, b.target);
}

/// If `a` does not come before `m` and `a` comes before `b`, then `b` does not come before `m`.
proof fn lemma_result_le_trans_neg(a: FuzzyMatchView, b: FuzzyMatchView, m: FuzzyMatchView)
    requires
        !result_le(a, m),
        result_le(a, b),
    ensures
        !result_le(b, m),
{
    lemma_seq_lt_total(a.target, b.target);
    lemma_seq_lt_total(m.target, a.target);
    lemma_seq_lt_total(m.target, b.target);
    if result_le(b, m) {
        if a.score == b.score && b.score == m.score {
            if seq_lt(m.target, a.target) && !seq_lt(b.target, a.target) && !seq_lt(m.target, b.target) {
                if seq_lt(a.target, b.target) {
                    lemma_seq_lt_trans(m.target, a.target, b.target);
                }
            }
        }
    }
}

proof fn lemma_next_occ(s: Seq<char>, c: char, t: int)
    ensures
        next_occ(s, c, t) matches Some(k) ==> t <= k < s.len() && 0 <= k && s[k] == c,
    decreases s.len() - t,
{
    if 0 <= t < s.len() && s[t] != c {
        lemma_next_occ(s, c, t + 1);
    }
}

proof fn lemma_next_boundary_occ(s: Seq<char>, orig: Seq<char>, c: char, t: int, ls: int)
    ensures
        next_boundary_occ(s, orig, c, t, ls) matches Some(k) ==> t <= k < s.len() && 0 <= k && s[k] == c,
    decreases s.len() - t,
{
    if 0 <= t < s.len() && !(s[t] == c && is_boundary(orig, t, ls)) {
        lemma_next_boundary_occ(s, orig, c, t + 1, ls);
    }
}

proof fn lemma_greedy_sound(p: Seq<char>, s: Seq<char>, orig: Seq<char>, ls: int, j: int, t: int)
    requires
        0 <= j <= p.len(),
        0 <= t,
        s.len() <= usize::MAX,
    ensures
        greedy(p, s, orig, ls, j, t) matches Some(r) ==> {
            &&& r.len() == p.len() - j
            &&& forall|k: int| 0 <= k < r.len() ==> t <= #[trigger] r[k] < s.len() && s[r[k] as int] == p[j + k]
            &&& forall|k: int, l: int| 0 <= k < l < r.len() ==> #[trigger] r[k] < #[trigger] r[l]
        },
    decreases p.len() - j,
{
    if j < p.len() {
        lemma_next_occ(s, p[j], t);
        lemma_next_boundary_occ(s, orig, p[j], t, ls);
        match pick(s, orig, p[j], t, ls) {
            None => {},
            Some(k) => {
                lemma_greedy_sound(p, s, orig, ls, j + 1, k + 1);
                match greedy(p, s, orig, ls, j + 1, k + 1) {
                    None => {},
                    Some(rest) => {
                        let r = seq![k as usize] + rest;
                        assert(r[0] as int == k);
                        assert forall|m: int| 0 < m < r.len() implies r[m] == rest[m - 1] by {}
                    },
                }
            },
        }
    }
}

/// A fuzzy match pairs each pattern character, in order, with a character of
/// the target equal to it (both lowercased), at strictly increasing indices.
pub proof fn law_match_indices_sound(pattern: Seq<char>, target: Seq<char>)
    requires
        unicode_lowercase(target).len() <= usize::MAX,
    ensures
        match_indices(pattern, target) matches Some(ind) ==> {
            let lp = unicode_lowercase(pattern);
            let lt = unicode_lowercase(target);
            &&& ind.len() == lp.len()
            &&& forall|k: int| 0 <= k < ind.len() ==> #[trigger] ind[k] < lt.len() && lt[ind[k] as int] == lp[k]
            &&& forall|k: int, l: int| 0 <= k < l < ind.len() ==> #[trigger] ind[k] < #[trigger] ind[l]
        },
{
    lemma_greedy_sound(unicode_lowercase(pattern), unicode_lowercase(target), target, last_slash(target), 0, 0);
}

} // verus!
