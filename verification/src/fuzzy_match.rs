//! Fuzzy matching of a query against one path, with the matched positions.
//!
//! The explorer's filter bar and quick-open both match through this module.

use vstd::prelude::*;

use nucleo_matcher::pattern::{AtomKind, CaseMatching, Normalization, Pattern};
use nucleo_matcher::{Config, Matcher, Utf32Str};

use crate::text;
use crate::worktree;

verus! {

/// The most characters that one word can match without its score leaving
/// sixteen bits: the first scores 34 at most, every other one 25.
pub const MAX_SCORED_CHARS: usize = 2621;

/// The most characters of a query whose words can be ranked together in
/// thirty-two bits.
pub const MAX_RANKED_CHARS: usize = 126_322_567;

/// The outcome of matching a query against one candidate.
#[derive(Debug, PartialEq, Eq)]
pub struct FuzzyMatch {
    /// The rank of the match: higher is better. It only compares candidates of
    /// one query with one another.
    pub score: u32,
    /// The matched character positions of the candidate, ascending and distinct.
    pub matched_indices: Vec<usize>,
}

/// What a [`FuzzyMatch`] holds.
pub struct MatchView {
    pub score: u32,
    pub indices: Seq<usize>,
}

impl View for FuzzyMatch {
    type V = MatchView;

    open spec fn view(&self) -> MatchView {
        MatchView { score: self.score, indices: self.matched_indices@ }
    }
}

/// The view of an optional match.
pub open spec fn match_view(found: Option<FuzzyMatch>) -> Option<MatchView> {
    match found {
        Some(m) => Some(m@),
        None => None,
    }
}

/// The view of what the matcher reports.
pub open spec fn report_view(report: Option<(u32, Vec<u32>)>) -> Option<(u32, Seq<u32>)> {
    match report {
        Some((score, raw)) => Some((score, raw@)),
        None => None,
    }
}

/// The text to be matched, in one of the two encodings that the matcher takes:
/// bytes where every character is ASCII, characters otherwise.
enum Haystack<'a> {
    Ascii(&'a [u8]),
    Unicode(&'a [char]),
}

impl<'a> Haystack<'a> {
    spec fn text(&self) -> Seq<char> {
        match self {
            Haystack::Ascii(bytes) => Seq::new(bytes@.len(), |i: int| bytes@[i] as char),
            Haystack::Unicode(chars) => chars@,
        }
    }

    spec fn wf(&self) -> bool {
        match self {
            Haystack::Ascii(bytes) => forall|i: int| 0 <= i < bytes@.len() ==> bytes@[i] < 128,
            Haystack::Unicode(chars) => !vstd::utf8::is_ascii_chars(chars@),
        }
    }
}

// ---------------------------------------------------------------------------
// What the matcher is given
// ---------------------------------------------------------------------------

/// The character that simple case folding turns `c` into.
pub uninterp spec fn case_folded(c: char) -> char;

/// The plain letter that the matcher takes an accented Latin letter for.
pub uninterp spec fn unaccented(c: char) -> char;

/// `c` is a lower-case letter.
pub uninterp spec fn lower_letter(c: char) -> bool;

/// `nucleo_matcher::chars::to_lower_case`: simple case folding of one character.
/// Folding twice is folding once, and nothing but a backslash folds to one.
#[verifier::external_body]
fn fold_case(c: char) -> (folded: char)
    ensures
        folded == case_folded(c),
        case_folded(folded) == folded,
        folded == '\\' <==> c == '\\',
{
    nucleo_matcher::chars::to_lower_case(c)
}

/// `nucleo_matcher::chars::normalize`: the plain letter behind an accented one.
#[verifier::external_body]
fn strip_accent(c: char) -> (plain: char)
    ensures
        plain == unaccented(c),
{
    nucleo_matcher::chars::normalize(c)
}

/// `char::is_lowercase`.
#[verifier::external_body]
fn is_lower_letter(c: char) -> (lower: bool)
    ensures
        lower == lower_letter(c),
{
    c.is_lowercase()
}

/// The query holds an accented letter. The matcher then tells accented letters
/// from plain ones.
pub open spec fn accented(query: Seq<char>) -> bool {
    &&& !vstd::utf8::is_ascii_chars(query)
    &&& exists|i: int|
        0 <= i < query.len() && unaccented(case_folded(#[trigger] query[i])) != case_folded(
            query[i],
        )
}

/// `c` with the case folded where `c` is a lower-case letter that folding
/// changes all the same, such as a final sigma.
pub open spec fn settled(c: char) -> char {
    if lower_letter(c) {
        case_folded(c)
    } else {
        c
    }
}

/// The text that the query is searched in: the candidate, character by
/// character. An accented query needs the odd lower-case letters folded, for
/// the matcher folds them in one pass and not in the next.
pub open spec fn searched(query: Seq<char>, candidate: Seq<char>) -> Seq<char> {
    if accented(query) {
        Seq::new(candidate.len(), |i: int| settled(candidate[i]))
    } else {
        candidate
    }
}

/// No character of `text` is a lower-case letter that folding changes.
pub open spec fn all_settled(text: Seq<char>) -> bool {
    forall|i: int| 0 <= i < text.len() ==> settled(#[trigger] text[i]) == text[i]
}

fn is_ascii(chars: &Vec<char>) -> (yes: bool)
    ensures
        yes == vstd::utf8::is_ascii_chars(chars@),
{
    let mut i: usize = 0;
    while i < chars.len()
        invariant
            i <= chars.len(),
            forall|j: int| 0 <= j < i ==> '\0' <= #[trigger] chars@[j] <= '\u{7f}',
        decreases chars.len() - i,
    {
        let c: char = chars[i];
        if !('\0' <= c && c <= '\u{7f}') {
            return false;
        }
        i = i + 1;
    }
    true
}

fn is_accented(chars: &Vec<char>) -> (yes: bool)
    ensures
        yes == accented(chars@),
{
    if is_ascii(chars) {
        return false;
    }
    let mut i: usize = 0;
    while i < chars.len()
        invariant
            i <= chars.len(),
            !vstd::utf8::is_ascii_chars(chars@),
            forall|j: int|
                0 <= j < i ==> unaccented(case_folded(#[trigger] chars@[j])) == case_folded(
                    chars@[j],
                ),
        decreases chars.len() - i,
    {
        let folded = fold_case(chars[i]);
        if strip_accent(folded) != folded {
            assert(unaccented(case_folded(chars@[i as int])) != case_folded(chars@[i as int]));
            return true;
        }
        i = i + 1;
    }
    false
}

fn search_text(query: &str, candidate: &str) -> (text: String)
    ensures
        text@ == searched(query@, candidate@),
        accented(query@) ==> all_settled(text@),
        !candidate@.contains('\\') ==> !text@.contains('\\'),
{
    if !is_accented(&text::characters(query)) {
        return candidate.to_owned();
    }
    let chars = text::characters(candidate);
    let mut text = String::new();
    let mut i: usize = 0;
    while i < chars.len()
        invariant
            i <= chars.len(),
            chars@ == candidate@,
            text@.len() == i,
            forall|j: int| 0 <= j < i ==> #[trigger] text@[j] == settled(candidate@[j]),
            all_settled(text@),
            forall|j: int| 0 <= j < i && #[trigger] text@[j] == '\\' ==> candidate@[j] == '\\',
        decreases chars.len() - i,
    {
        let c: char = if is_lower_letter(chars[i]) {
            fold_case(chars[i])
        } else {
            chars[i]
        };
        let ghost before = text@;
        text.push(c);
        assert(text@ =~= before.push(c));
        i = i + 1;
    }
    proof {
        assert(text@ =~= searched(query@, candidate@));
        if text@.contains('\\') {
            let j = choose|j: int| 0 <= j < text@.len() && text@[j] == '\\';
            assert(candidate@[j] == '\\');
        }
    }
    text
}

/// The matcher splits the query at `i`: at a space that no backslash escapes.
pub open spec fn splits_at(query: Seq<char>, i: int) -> bool {
    query[i] == ' ' && (i == 0 || query[i - 1] != '\\')
}

/// The length of the word that the first `n` characters of the query end in.
pub open spec fn word_so_far(query: Seq<char>, n: nat) -> nat
    decreases n,
{
    if n == 0 || splits_at(query, n - 1) {
        0
    } else {
        word_so_far(query, (n - 1) as nat) + 1
    }
}

/// No word of the query is longer than what can be scored.
pub open spec fn words_fit(query: Seq<char>) -> bool {
    forall|n: nat| n <= query.len() ==> #[trigger] word_so_far(query, n) <= MAX_SCORED_CHARS
}

fn do_words_fit(query: &str) -> (fit: bool)
    ensures
        fit == words_fit(query@),
{
    let chars = text::characters(query);
    let mut run: usize = 0;
    let mut i: usize = 0;
    while i < chars.len()
        invariant
            i <= chars.len(),
            chars@ == query@,
            run == word_so_far(query@, i as nat),
            run <= MAX_SCORED_CHARS,
            forall|n: nat| n <= i ==> #[trigger] word_so_far(query@, n) <= MAX_SCORED_CHARS,
        decreases chars.len() - i,
    {
        if chars[i] == ' ' && (i == 0 || chars[i - 1] != '\\') {
            run = 0;
        } else {
            run = run + 1;
        }
        assert(run == word_so_far(query@, (i + 1) as nat));
        if run > MAX_SCORED_CHARS {
            return false;
        }
        i = i + 1;
    }
    true
}

/// The scores of matching `query` against `text` stay within the matcher's
/// numbers.
pub open spec fn scores_fit(query: Seq<char>, text: Seq<char>) -> bool {
    &&& query.len() * text.len() <= usize::MAX
    &&& query.len() <= MAX_RANKED_CHARS
    &&& text.len() <= MAX_SCORED_CHARS || words_fit(query)
}

fn do_scores_fit(query: &str, text: &str) -> (fit: bool)
    ensures
        fit == scores_fit(query@, text@),
{
    let q: usize = query.unicode_len();
    let t: usize = text.unicode_len();
    proof {
        assert((q as u128) * (t as u128) <= u128::MAX) by (nonlinear_arith)
            requires
                q as u128 <= u64::MAX,
                t as u128 <= u64::MAX,
        ;
        assert((q as u128) * (t as u128) == query@.len() * text@.len()) by (nonlinear_arith)
            requires
                q as u128 == query@.len(),
                t as u128 == text@.len(),
        ;
    }
    (q as u128) * (t as u128) <= usize::MAX as u128 && q <= MAX_RANKED_CHARS && (t
        <= MAX_SCORED_CHARS || do_words_fit(query))
}

/// No space splits the query at or behind `from` and before `to`.
pub open spec fn unsplit(query: Seq<char>, from: int, to: int) -> bool {
    forall|k: int| from <= k < to ==> !#[trigger] splits_at(query, k)
}

/// A backslash that escapes no space stands at `i`, in one word with the
/// character at `j`, which is not ASCII. The matcher would read that backslash
/// as two.
pub open spec fn read_double(query: Seq<char>, i: int, j: int) -> bool {
    &&& 0 <= i && i + 1 < query.len() && 0 <= j < query.len()
    &&& query[i] == '\\' && query[i + 1] != ' '
    &&& query[j] > '\u{7f}'
    &&& unsplit(query, i, j) && unsplit(query, j, i)
}

/// The matcher is asked: its scores fit, and it reads the query as it stands.
pub open spec fn ranked(query: Seq<char>, text: Seq<char>) -> bool {
    &&& scores_fit(query, text)
    &&& forall|i: int, j: int| !read_double(query, i, j)
}

/// Whether the matcher would read a backslash of the query as two.
fn reads_double(query: &str) -> (yes: bool)
    ensures
        yes == exists|i: int, j: int| read_double(query@, i, j),
{
    let chars = text::characters(query);
    let ghost q = query@;
    let mut start: usize = 0;
    let mut slash: Option<usize> = None;
    let mut wide: Option<usize> = None;
    let mut n: usize = 0;
    while n < chars.len()
        invariant
            chars@ == q,
            q == query@,
            start <= n <= chars.len(),
            start > 0 ==> splits_at(q, start - 1),
            unsplit(q, start as int, n as int),
            slash is None || wide is None,
            match slash {
                Some(i) => start <= i < n && i + 1 < q.len() && q[i as int] == '\\' && q[i + 1]
                    != ' ',
                None => forall|i: int|
                    start <= i < n && i + 1 < q.len() && #[trigger] q[i] == '\\' ==> q[i + 1]
                        == ' ',
            },
            match wide {
                Some(j) => start <= j < n && q[j as int] > '\u{7f}',
                None => forall|j: int| start <= j < n ==> #[trigger] q[j] <= '\u{7f}',
            },
            forall|i: int, j: int| #[trigger]
                read_double(q, i, j) ==> start <= i && start <= j,
        decreases chars.len() - n,
    {
        let c: char = chars[n];
        if c == ' ' && (n == 0 || chars[n - 1] != '\\') {
            assert(splits_at(q, n as int));
            assert forall|i: int, j: int| #[trigger] read_double(q, i, j) implies n < i && n
                < j by {
                assert(i != n && j != n);
                assert(i < n ==> n < j);
                assert(j < n ==> n < i);
            }
            start = n + 1;
            slash = None;
            wide = None;
        } else {
            if c == '\\' && n + 1 < chars.len() && chars[n + 1] != ' ' {
                slash = Some(n);
            }
            if !(c <= '\u{7f}') {
                wide = Some(n);
            }
            if let (Some(i), Some(j)) = (slash, wide) {
                assert(read_double(q, i as int, j as int));
                return true;
            }
        }
        n = n + 1;
    }
    false
}

fn is_ranked(query: &str, text: &str) -> (yes: bool)
    ensures
        yes == ranked(query@, text@),
{
    !reads_double(query) && do_scores_fit(query, text)
}

// ---------------------------------------------------------------------------
// Words
// ---------------------------------------------------------------------------

/// The words of a query: what stands between the spaces that split it. An
/// escaped space belongs to its word, without the backslash.
pub open spec fn words(query: Seq<char>) -> Seq<Seq<char>>
    decreases query.len(),
{
    if query.len() == 0 {
        Seq::empty()
    } else {
        let rest = words(query.drop_last());
        let c = query.last();
        if splits_at(query, query.len() - 1) {
            rest
        } else if query.len() == 1 || splits_at(query, query.len() - 2) {
            rest.push(seq![c])
        } else if c == ' ' {
            rest.update(rest.len() - 1, rest.last().drop_last().push(c))
        } else {
            rest.update(rest.len() - 1, rest.last().push(c))
        }
    }
}

/// The contents of a list of words.
pub open spec fn words_view(list: Seq<Vec<char>>) -> Seq<Seq<char>> {
    list.map_values(|word: Vec<char>| word@)
}

proof fn lemma_words_exist(query: Seq<char>)
    requires
        query.len() > 0,
        !splits_at(query, query.len() - 1),
    ensures
        words(query).len() > 0,
        words(query).last().len() > 0,
    decreases query.len(),
{
    if query.len() > 1 && !splits_at(query, query.len() - 2) {
        let rest = query.drop_last();
        assert(splits_at(rest, rest.len() - 1) == splits_at(query, query.len() - 2));
        lemma_words_exist(rest);
    }
}

fn split_words(query: &str) -> (list: Vec<Vec<char>>)
    ensures
        words_view(list@) == words(query@),
{
    let chars = text::characters(query);
    let mut list: Vec<Vec<char>> = Vec::new();
    let mut i: usize = 0;
    proof {
        assert(query@.take(0) =~= Seq::<char>::empty());
        assert(words_view(list@) =~= words(query@.take(0)));
    }
    while i < chars.len()
        invariant
            i <= chars.len(),
            chars@ == query@,
            words_view(list@) == words(query@.take(i as int)),
        decreases chars.len() - i,
    {
        let c: char = chars[i];
        let splits: bool = c == ' ' && (i == 0 || chars[i - 1] != '\\');
        let starts: bool = i == 0 || (chars[i - 1] == ' ' && (i == 1 || chars[i - 2] != '\\'));
        let ghost seen = query@.take(i as int);
        let ghost now = query@.take(i + 1);
        let ghost before = list@;
        proof {
            assert(now.drop_last() =~= seen);
            assert(splits == splits_at(now, now.len() - 1));
            assert(i > 0 ==> starts == splits_at(now, now.len() - 2));
            if !splits && !starts {
                assert(splits_at(seen, seen.len() - 1) == splits_at(now, now.len() - 2));
                lemma_words_exist(seen);
                assert(words_view(before).last() == before.last()@);
            }
        }
        if !splits {
            let mut word: Vec<char> = Vec::new();
            if !starts {
                match list.pop() {
                    Some(last) => {
                        word = last;
                    },
                    None => {},
                }
                if c == ' ' {
                    word.pop();
                }
            }
            word.push(c);
            list.push(word);
        }
        assert(words_view(list@) =~= words(now));
        i = i + 1;
    }
    assert(query@.take(i as int) =~= query@);
    list
}

/// An ASCII character without regard to case.
pub open spec fn caseless(c: char) -> char {
    if 'A' <= c <= 'Z' {
        (c as u32 + 32) as char
    } else {
        c
    }
}

/// A character without regard to case, and without its accent unless accents
/// tell letters apart.
pub open spec fn likeness(c: char, accents: bool) -> char {
    if c <= '\u{7f}' {
        caseless(c)
    } else if accents {
        case_folded(c)
    } else {
        case_folded(unaccented(c))
    }
}

fn liken(c: char, accents: bool) -> (like: char)
    ensures
        like == likeness(c, accents),
{
    if c <= '\u{7f}' {
        if 'A' <= c && c <= 'Z' {
            ((c as u8) + 32) as char
        } else {
            c
        }
    } else if accents {
        fold_case(c)
    } else {
        fold_case(strip_accent(c))
    }
}

/// The characters of `text` at `positions`, which ascend, spell `word` without
/// regard to case. Accents count where the word has one.
pub open spec fn spells(word: Seq<char>, text: Seq<char>, positions: Seq<u32>) -> bool {
    &&& positions.len() == word.len()
    &&& forall|i: int, j: int| 0 <= i < j < positions.len() ==> positions[i] < positions[j]
    &&& forall|i: int|
        0 <= i < positions.len() ==> #[trigger] positions[i] < text.len() && likeness(
            text[positions[i] as int],
            accented(word),
        ) == likeness(word[i], accented(word))
}

/// `word` is a subsequence of `text` without regard to case.
pub open spec fn within(word: Seq<char>, text: Seq<char>) -> bool {
    exists|positions: Seq<u32>| spells(word, text, positions)
}

/// Every one of `words` is a subsequence of `text` without regard to case.
pub open spec fn all_within(words: Seq<Seq<char>>, text: Seq<char>) -> bool {
    forall|i: int| 0 <= i < words.len() ==> within(#[trigger] words[i], text)
}

/// `raw` spells one of `words` after the other.
pub open spec fn spells_all(words: Seq<Seq<char>>, text: Seq<char>, raw: Seq<u32>) -> bool
    decreases words.len(),
{
    if words.len() == 0 {
        raw.len() == 0
    } else {
        let cut = raw.len() - words.last().len();
        &&& cut >= 0
        &&& spells(words.last(), text, raw.skip(cut))
        &&& spells_all(words.drop_last(), text, raw.take(cut))
    }
}

/// `positions` spell `word`, each as early in `text` as any spelling has it.
pub open spec fn earliest(word: Seq<char>, text: Seq<char>, positions: Seq<u32>) -> bool {
    &&& spells(word, text, positions)
    &&& forall|other: Seq<u32>, i: int|
        #![trigger spells(word, text, other), other[i]]
        spells(word, text, other) && 0 <= i < word.len() ==> positions[i] <= other[i]
}

/// `raw` spells one of `words` after the other, each as early as can be.
pub open spec fn earliest_all(words: Seq<Seq<char>>, text: Seq<char>, raw: Seq<u32>) -> bool
    decreases words.len(),
{
    if words.len() == 0 {
        raw.len() == 0
    } else {
        let cut = raw.len() - words.last().len();
        &&& cut >= 0
        &&& earliest(words.last(), text, raw.skip(cut))
        &&& earliest_all(words.drop_last(), text, raw.take(cut))
    }
}

proof fn lemma_earliest_all_spells(words: Seq<Seq<char>>, text: Seq<char>, raw: Seq<u32>)
    requires
        earliest_all(words, text, raw),
    ensures
        spells_all(words, text, raw),
        forall|i: int| 0 <= i < raw.len() ==> raw[i] < text.len(),
    decreases words.len(),
{
    if words.len() > 0 {
        let cut = raw.len() - words.last().len();
        lemma_earliest_all_spells(words.drop_last(), text, raw.take(cut));
        assert forall|i: int| 0 <= i < raw.len() implies raw[i] < text.len() by {
            if i < cut {
                assert(raw.take(cut)[i] == raw[i]);
            } else {
                assert(raw.skip(cut)[i - cut] == raw[i]);
            }
        }
    }
}

proof fn lemma_earliest_all_unique(
    words: Seq<Seq<char>>,
    text: Seq<char>,
    a: Seq<u32>,
    b: Seq<u32>,
)
    requires
        earliest_all(words, text, a),
        earliest_all(words, text, b),
    ensures
        a == b,
    decreases words.len(),
{
    if words.len() > 0 {
        let word = words.last();
        let left = a.skip(a.len() - word.len());
        let right = b.skip(b.len() - word.len());
        assert(left =~= right) by {
            assert forall|i: int| 0 <= i < word.len() implies left[i] == right[i] by {
                assert(spells(word, text, left) && spells(word, text, right));
            }
        }
        let front = a.take(a.len() - word.len());
        let other = b.take(b.len() - word.len());
        lemma_earliest_all_unique(words.drop_last(), text, front, other);
        assert(a =~= front + left);
        assert(b =~= other + right);
    }
}

/// Looks a word up in a text, character by character.
fn spell_word(word: &Vec<char>, text: &Vec<char>, accents: bool) -> (found: Option<Vec<u32>>)
    requires
        accents == accented(word@),
        text@.len() <= u32::MAX,
    ensures
        found is Some <==> within(word@, text@),
        found matches Some(positions) ==> earliest(word@, text@, positions@),
{
    let mut positions: Vec<u32> = Vec::new();
    let mut at: usize = 0;
    while positions.len() < word.len()
        invariant
            accents == accented(word@),
            text@.len() <= u32::MAX,
            positions.len() <= word.len(),
            at <= text.len(),
            forall|i: int, j: int|
                0 <= i < j < positions@.len() ==> positions@[i] < positions@[j],
            forall|i: int|
                0 <= i < positions@.len() ==> #[trigger] positions@[i] < at && likeness(
                    text@[positions@[i] as int],
                    accents,
                ) == likeness(word@[i], accents),
            forall|other: Seq<u32>, i: int|
                #![trigger spells(word@, text@, other), other[i]]
                spells(word@, text@, other) && 0 <= i < positions@.len() ==> positions@[i]
                    <= other[i],
            forall|other: Seq<u32>|
                #![trigger spells(word@, text@, other)]
                spells(word@, text@, other) && positions@.len() < word@.len() ==> at
                    <= other[positions@.len() as int],
        decreases text.len() - at,
    {
        let k: usize = positions.len();
        if at == text.len() {
            proof {
                if within(word@, text@) {
                    let other = choose|other: Seq<u32>| spells(word@, text@, other);
                    assert(at <= other[k as int] && other[k as int] < text@.len());
                }
            }
            return None;
        }
        let same: bool = liken(text[at], accents) == liken(word[k], accents);
        let ghost before = positions@;
        proof {
            assert forall|other: Seq<u32>|
                #![trigger spells(word@, text@, other)]
                spells(word@, text@, other) implies {
                &&& !same ==> at < other[k as int]
                &&& same && k + 1 < word@.len() ==> at < other[k + 1]
            } by {
                assert(at <= other[k as int]);
                if !same {
                    assert(likeness(text@[other[k as int] as int], accents) == likeness(
                        word@[k as int],
                        accents,
                    ));
                }
                if k + 1 < word@.len() {
                    assert(other[k as int] < other[k + 1]);
                }
            }
        }
        if same {
            positions.push(at as u32);
            assert(positions@ =~= before.push(at as u32));
        }
        at = at + 1;
    }
    proof {
        assert(spells(word@, text@, positions@));
    }
    Some(positions)
}

/// Looks every word of a query up in a text, one after the other.
fn spell_words(query: &str, text: &str) -> (found: Option<Vec<u32>>)
    requires
        text@.len() <= u32::MAX,
    ensures
        found is Some <==> all_within(words(query@), text@),
        found matches Some(raw) ==> earliest_all(words(query@), text@, raw@),
{
    let list = split_words(query);
    let chars = text::characters(text);
    let mut raw: Vec<u32> = Vec::new();
    let mut n: usize = 0;
    let ghost all = words(query@);
    while n < list.len()
        invariant
            n <= list.len(),
            all == words(query@),
            words_view(list@) == all,
            chars@ == text@,
            text@.len() <= u32::MAX,
            forall|i: int| 0 <= i < n ==> within(#[trigger] all[i], text@),
            earliest_all(all.take(n as int), text@, raw@),
        decreases list.len() - n,
    {
        let word = &list[n];
        assert(all[n as int] == word@);
        let ghost before = raw@;
        match spell_word(word, &chars, is_accented(word)) {
            None => {
                assert(!within(all[n as int], text@));
                return None;
            },
            Some(mut positions) => {
                let ghost now = all.take(n + 1);
                let ghost spelled = positions@;
                raw.append(&mut positions);
                proof {
                    assert(raw@ =~= before + spelled);
                    assert(now.last() == word@);
                    assert(now.drop_last() =~= all.take(n as int));
                    let cut = raw@.len() - word@.len();
                    assert(raw@.skip(cut) =~= spelled);
                    assert(raw@.take(cut) =~= before);
                    assert(earliest_all(now, text@, raw@));
                }
            },
        }
        n = n + 1;
    }
    assert(all.take(n as int) =~= all);
    Some(raw)
}

// ---------------------------------------------------------------------------
// What the matcher reports
// ---------------------------------------------------------------------------

/// What the path matcher reports for a query and a text: the rank and the
/// matched positions in the order in which they were found, or nothing.
pub uninterp spec fn path_match(query: Seq<char>, text: Seq<char>) -> Option<(u32, Seq<u32>)>;

/// The path matcher finds the query in the text.
pub uninterp spec fn path_found(query: Seq<char>, text: Seq<char>) -> bool;

/// A query without words: empty or made of white space.
pub open spec fn blank(query: Seq<char>) -> bool {
    forall|i: int| 0 <= i < query.len() ==> text::white_space(query[i])
}

fn is_blank(query: &str) -> (blank: bool)
    ensures
        blank == self::blank(query@),
{
    let chars = text::characters(query);
    let mut i: usize = 0;
    while i < chars.len()
        invariant
            i <= chars.len(),
            chars@ == query@,
            forall|j: int| 0 <= j < i ==> text::white_space(query@[j]),
        decreases chars.len() - i,
    {
        if !text::is_white_space(chars[i]) {
            assert(!text::white_space(query@[i as int]));
            return false;
        }
        i = i + 1;
    }
    true
}

/// `nucleo_matcher::pattern::Pattern::indices`, for the query split into fuzzy
/// words by `Pattern::new` with case ignored and smart normalization, and a
/// matcher configured for paths.
///
/// Whether there is a match is a function of query and text. Every reported
/// position lies in the text. Where query and text are ASCII, there is a match
/// if and only if every word is a subsequence of the text, and the positions
/// spell the words one after the other, case aside. Of other queries and texts
/// the matcher's tables decide, and no more is said. Rank and positions are
/// functions of query and text where the text holds no backslash; with one,
/// which the matcher takes for a separator on Windows only, no more is said of
/// them.
#[verifier::external_body]
fn pattern_indices(query: &str, haystack: Haystack<'_>) -> (report: Option<(u32, Vec<u32>)>)
    requires
        ranked(query@, haystack.text()),
        haystack.text().len() <= u32::MAX,
        haystack.wf(),
        accented(query@) ==> all_settled(haystack.text()),
    ensures
        report is Some <==> path_found(query@, haystack.text()),
        !haystack.text().contains('\\') ==> report_view(report) == path_match(
            query@,
            haystack.text(),
        ),
        report matches Some((_, raw)) ==> forall|i: int|
            0 <= i < raw@.len() ==> raw@[i] < haystack.text().len(),
        vstd::utf8::is_ascii_chars(query@) && vstd::utf8::is_ascii_chars(haystack.text()) ==> {
            &&& report is Some <==> all_within(words(query@), haystack.text())
            &&& report matches Some((_, raw)) ==> spells_all(
                words(query@),
                haystack.text(),
                raw@,
            )
        },
{
    let (case, accents) = (CaseMatching::Ignore, Normalization::Smart);
    let pattern = Pattern::new(query, case, accents, AtomKind::Fuzzy);
    let mut matcher = Matcher::new(Config::DEFAULT.match_paths());
    let mut raw = Vec::new();
    let text = match haystack {
        Haystack::Ascii(bytes) => Utf32Str::Ascii(bytes),
        Haystack::Unicode(chars) => Utf32Str::Unicode(chars),
    };
    pattern.indices(text, &mut matcher, &mut raw).map(|score| (score, raw))
}

/// `positions` holds the value `v`.
pub open spec fn holds(positions: Seq<usize>, v: int) -> bool {
    exists|k: int| 0 <= k < positions.len() && positions[k] == v
}

/// `raw` holds the value `v`.
pub open spec fn reports(raw: Seq<u32>, v: int) -> bool {
    exists|i: int| 0 <= i < raw.len() && raw[i] == v
}

/// The positions ascend, so each occurs once.
pub open spec fn ascending(positions: Seq<usize>) -> bool {
    forall|i: int, j: int| 0 <= i < j < positions.len() ==> positions[i] < positions[j]
}

/// `positions` lists the values of `raw`, each once, in ascending order.
pub open spec fn sorted_set_of(positions: Seq<usize>, raw: Seq<u32>) -> bool {
    &&& ascending(positions)
    &&& forall|v: int| #[trigger] holds(positions, v) <==> reports(raw, v)
}

/// `found` is the match that the matcher's report stands for.
pub open spec fn tidied(report: Option<(u32, Seq<u32>)>, found: Option<MatchView>) -> bool {
    match (report, found) {
        (None, None) => true,
        (Some((score, raw)), Some(m)) => m.score == score && sorted_set_of(m.indices, raw),
        _ => false,
    }
}

/// `found` is a match where every word of the query is a subsequence of the
/// candidate, and its positions are those at which the words are spelled.
pub open spec fn spelled_out(
    query: Seq<char>,
    candidate: Seq<char>,
    found: Option<MatchView>,
) -> bool {
    &&& found is Some <==> all_within(words(query), candidate)
    &&& found matches Some(m) ==> exists|raw: Seq<u32>| #[trigger]
        spells_all(words(query), candidate, raw) && sorted_set_of(m.indices, raw)
}

/// The positions of a match ascend and lie in the candidate.
pub open spec fn in_range(candidate: Seq<char>, found: Option<MatchView>) -> bool {
    found matches Some(m) ==> {
        &&& ascending(m.indices)
        &&& forall|i: int| 0 <= i < m.indices.len() ==> m.indices[i] < candidate.len()
    }
}

/// `found` is an outcome that matching `query` against `candidate` can have.
///
/// A query without words matches with rank zero and no positions. Where the
/// matcher is asked, it decides, and its report gives rank and positions, unless
/// the candidate holds a backslash. Where query and candidate are ASCII, that is
/// a match where every word is a subsequence of the candidate. Where the matcher
/// is not asked, this holds of every query and candidate, the words are spelled
/// as early as can be, and every match has the highest rank.
pub open spec fn is_outcome(
    query: Seq<char>,
    candidate: Seq<char>,
    found: Option<MatchView>,
) -> bool {
    let text = searched(query, candidate);
    if blank(query) {
        found == Some(MatchView { score: 0, indices: Seq::empty() })
    } else if ranked(query, candidate) {
        &&& in_range(candidate, found)
        &&& found is Some <==> path_found(query, text)
        &&& !candidate.contains('\\') ==> tidied(path_match(query, text), found)
        &&& vstd::utf8::is_ascii_chars(query) && vstd::utf8::is_ascii_chars(candidate)
            ==> spelled_out(query, candidate, found)
    } else {
        &&& in_range(candidate, found)
        &&& spelled_out(query, candidate, found)
        &&& found matches Some(m) ==> {
            &&& m.score == u32::MAX
            &&& exists|raw: Seq<u32>| #[trigger]
                earliest_all(words(query), candidate, raw) && sorted_set_of(m.indices, raw)
        }
    }
}

/// Turns the matcher's report into a match: sorts the positions and drops
/// repeated ones.
pub fn tidy(report: Option<(u32, Vec<u32>)>) -> (found: Option<FuzzyMatch>)
    ensures
        tidied(report_view(report), match_view(found)),
{
    match report {
        None => None,
        Some((score, raw)) => {
            let matched_indices = sorted_set(&raw);
            Some(FuzzyMatch { score, matched_indices })
        },
    }
}

proof fn lemma_reports_push(raw: Seq<u32>, last: u32, v: int)
    ensures
        reports(raw.push(last), v) <==> reports(raw, v) || v == last,
{
    let longer = raw.push(last);
    if reports(raw, v) {
        let i = choose|i: int| 0 <= i < raw.len() && raw[i] == v;
        assert(longer[i] == v);
    }
    if v == last {
        assert(longer[raw.len() as int] == v);
    }
    if reports(longer, v) {
        let i = choose|i: int| 0 <= i < longer.len() && longer[i] == v;
        if i < raw.len() {
            assert(raw[i] == v);
        }
    }
}

proof fn lemma_insert_position(positions: Seq<usize>, at: int, value: usize)
    requires
        ascending(positions),
        0 <= at <= positions.len(),
        forall|k: int| 0 <= k < at ==> positions[k] < value,
        at < positions.len() ==> positions[at] > value,
    ensures
        ascending(positions.insert(at, value)),
        forall|v: int|
            #[trigger] holds(positions.insert(at, value), v) <==> holds(positions, v) || v == value,
{
    let next = positions.insert(at, value);
    assert forall|k: int| at <= k < positions.len() implies positions[k] > value by {
        if k > at {
            assert(positions[at] < positions[k]);
        }
    }
    assert forall|i: int, j: int| 0 <= i < j < next.len() implies next[i] < next[j] by {
        let a = if i < at { i } else { i - 1 };
        let b = if j < at { j } else { j - 1 };
        if i != at && j != at {
            assert(next[i] == positions[a] && next[j] == positions[b]);
        }
    }
    assert forall|v: int| #[trigger] holds(next, v) <==> holds(positions, v) || v == value by {
        if holds(next, v) {
            let k = choose|k: int| 0 <= k < next.len() && next[k] == v;
            if k < at {
                assert(positions[k] == v);
            } else if k > at {
                assert(positions[k - 1] == v);
            }
        }
        if holds(positions, v) {
            let k = choose|k: int| 0 <= k < positions.len() && positions[k] == v;
            if k < at {
                assert(next[k] == v);
            } else {
                assert(next[k + 1] == v);
            }
        }
        assert(next[at] == value);
    }
}

fn sorted_set(raw: &Vec<u32>) -> (positions: Vec<usize>)
    ensures
        sorted_set_of(positions@, raw@),
{
    let mut positions: Vec<usize> = Vec::new();
    let mut n: usize = 0;
    while n < raw.len()
        invariant
            n <= raw.len(),
            sorted_set_of(positions@, raw@.take(n as int)),
        decreases raw.len() - n,
    {
        let value: usize = raw[n] as usize;
        let mut at: usize = 0;
        while at < positions.len() && positions[at] < value
            invariant
                at <= positions.len(),
                forall|k: int| 0 <= k < at ==> positions@[k] < value,
            decreases positions.len() - at,
        {
            at = at + 1;
        }
        let ghost before = positions@;
        let ghost seen = raw@.take(n as int);
        let ghost now = raw@.take(n + 1);
        let present: bool = at < positions.len() && positions[at] == value;
        if !present {
            positions.insert(at, value);
        }
        proof {
            assert(now =~= seen.push(raw@[n as int]));
            if present {
                assert(positions@ == before);
                assert(holds(before, value as int));
                assert forall|v: int| #[trigger] holds(before, v) <==> reports(now, v) by {
                    lemma_reports_push(seen, raw@[n as int], v);
                }
            } else {
                lemma_insert_position(before, at as int, value);
                assert(positions@ =~= before.insert(at as int, value));
                assert forall|v: int| #[trigger] holds(positions@, v) <==> reports(now, v) by {
                    lemma_reports_push(seen, raw@[n as int], v);
                    assert(holds(before, v) <==> reports(seen, v));
                }
            }
        }
        n = n + 1;
    }
    proof {
        assert(raw@.take(n as int) =~= raw@);
    }
    positions
}

proof fn lemma_in_range(positions: Seq<usize>, raw: Seq<u32>, len: nat)
    requires
        sorted_set_of(positions, raw),
        forall|i: int| 0 <= i < raw.len() ==> raw[i] < len,
    ensures
        forall|k: int| 0 <= k < positions.len() ==> positions[k] < len,
{
    assert forall|k: int| 0 <= k < positions.len() implies positions[k] < len by {
        assert(holds(positions, positions[k] as int));
        assert(reports(raw, positions[k] as int));
    }
}

proof fn lemma_positions_agree(a: Seq<usize>, b: Seq<usize>, raw: Seq<u32>, n: nat)
    requires
        sorted_set_of(a, raw),
        sorted_set_of(b, raw),
        n <= a.len(),
    ensures
        n <= b.len(),
        forall|i: int| 0 <= i < n ==> a[i] == b[i],
    decreases n,
{
    if n > 0 {
        lemma_positions_agree(a, b, raw, (n - 1) as nat);
        let i = n - 1;
        assert(holds(a, a[i] as int));
        assert(reports(raw, a[i] as int));
        assert(holds(b, a[i] as int));
        let p = choose|p: int| 0 <= p < b.len() && b[p] == a[i];
        if p < i {
            assert(a[p] == b[p]);
        } else if p > i {
            assert(holds(b, b[i] as int));
            assert(reports(raw, b[i] as int));
            assert(holds(a, b[i] as int));
            let q = choose|q: int| 0 <= q < a.len() && a[q] == b[i];
            if q < i {
                assert(a[q] == b[q]);
            }
        }
    }
}

/// Matching has one outcome: a query without words has, so has one that the
/// matcher is not asked about, and so has every query with a candidate without a
/// backslash, for which the matcher's report stands for one match.
pub proof fn law_outcome_unique(
    query: Seq<char>,
    candidate: Seq<char>,
    a: Option<MatchView>,
    b: Option<MatchView>,
)
    requires
        blank(query) || !ranked(query, candidate) || !candidate.contains('\\'),
        is_outcome(query, candidate, a),
        is_outcome(query, candidate, b),
    ensures
        a == b,
{
    let text = searched(query, candidate);
    if !blank(query) && a is Some {
        let left = a->0.indices;
        let right = b->0.indices;
        let raw = if ranked(query, candidate) {
            (path_match(query, text)->0).1
        } else {
            let all = words(query);
            let first = choose|raw: Seq<u32>| #[trigger]
                earliest_all(all, candidate, raw) && sorted_set_of(left, raw);
            let second = choose|raw: Seq<u32>| #[trigger]
                earliest_all(all, candidate, raw) && sorted_set_of(right, raw);
            lemma_earliest_all_unique(all, candidate, first, second);
            first
        };
        lemma_positions_agree(left, right, raw, left.len());
        lemma_positions_agree(right, left, raw, right.len());
        assert(left =~= right);
    }
}

/// Whether a query matches a candidate is settled, backslash or not.
pub proof fn law_match_settled(
    query: Seq<char>,
    candidate: Seq<char>,
    a: Option<MatchView>,
    b: Option<MatchView>,
)
    requires
        is_outcome(query, candidate, a),
        is_outcome(query, candidate, b),
    ensures
        a is Some <==> b is Some,
{
}

proof fn lemma_one_word(query: Seq<char>)
    requires
        query.len() > 0,
        !query.contains(' '),
    ensures
        words(query) == seq![query],
    decreases query.len(),
{
    let rest = query.drop_last();
    assert(query[query.len() - 1] != ' ');
    assert forall|i: int| 0 <= i < rest.len() implies rest[i] != ' ' by {
        assert(query[i] != ' ');
    }
    if rest.len() > 0 {
        lemma_one_word(rest);
        assert(query[query.len() - 2] != ' ');
        assert(rest.push(query.last()) =~= query);
        assert(words(query) =~= seq![query]);
    } else {
        assert(words(rest) =~= Seq::<Seq<char>>::empty());
        assert(seq![query.last()] =~= query);
        assert(words(query) =~= seq![query]);
    }
}

/// An ASCII word matches an ASCII candidate if and only if its characters appear
/// in the candidate in their order, case aside. The matched positions are as
/// many as the word has characters, and they spell it.
pub proof fn law_word_is_spelled(
    query: Seq<char>,
    candidate: Seq<char>,
    found: Option<MatchView>,
)
    requires
        is_outcome(query, candidate, found),
        vstd::utf8::is_ascii_chars(query),
        !blank(query),
        !query.contains(' '),
        vstd::utf8::is_ascii_chars(candidate),
    ensures
        found is Some <==> within(query, candidate),
        found matches Some(m) ==> {
            &&& m.indices.len() == query.len()
            &&& ascending(m.indices)
            &&& forall|i: int|
                0 <= i < query.len() ==> #[trigger] m.indices[i] < candidate.len() && caseless(
                    candidate[m.indices[i] as int],
                ) == caseless(query[i])
        },
{
    reveal_with_fuel(spells_all, 2);
    lemma_one_word(query);
    let all = words(query);
    assert(all[0] == query);
    assert(all_within(all, candidate) <==> within(query, candidate));
    if let Some(m) = found {
        let raw = choose|raw: Seq<u32>| #[trigger]
            spells_all(all, candidate, raw) && sorted_set_of(m.indices, raw);
        assert(all.last() == query);
        assert(all.drop_last() =~= Seq::<Seq<char>>::empty());
        let cut = raw.len() - query.len();
        assert(raw.take(cut).len() == 0);
        assert(raw.skip(cut) =~= raw);
        assert(spells(query, candidate, raw));
        let positions = Seq::new(raw.len(), |i: int| raw[i] as usize);
        assert(sorted_set_of(positions, raw)) by {
            assert forall|v: int| #[trigger] holds(positions, v) <==> reports(raw, v) by {
                if holds(positions, v) {
                    let k = choose|k: int| 0 <= k < positions.len() && positions[k] == v;
                    assert(raw[k] == v);
                }
                if reports(raw, v) {
                    let k = choose|k: int| 0 <= k < raw.len() && raw[k] == v;
                    assert(positions[k] == v);
                }
            }
        }
        lemma_positions_agree(positions, m.indices, raw, positions.len());
        lemma_positions_agree(m.indices, positions, raw, m.indices.len());
        assert(m.indices =~= positions);
        assert forall|i: int| 0 <= i < query.len() implies #[trigger] m.indices[i]
            < candidate.len() && caseless(candidate[m.indices[i] as int]) == caseless(
            query[i],
        ) by {
            assert(m.indices[i] == raw[i]);
        }
    }
}

/// Scores `query` against `candidate` and reports the matched positions. Each
/// word of the query is looked for on its own: its characters must appear in the
/// candidate in order, whatever their case. A query without words matches
/// everything with rank zero. Where the matcher cannot rank the match, for a
/// score that would leave its numbers or a backslash that it would read as two,
/// every match has the highest rank.
pub fn fuzzy_match(query: &str, candidate: &str) -> (found: Option<FuzzyMatch>)
    requires
        worktree::path_fits(candidate@),
    ensures
        is_outcome(query@, candidate@, match_view(found)),
{
    if is_blank(query) {
        let matched_indices: Vec<usize> = Vec::new();
        assert(matched_indices@ =~= Seq::<usize>::empty());
        return Some(FuzzyMatch { score: 0, matched_indices });
    }
    if !is_ranked(query, candidate) {
        let spelled = spell_words(query, candidate);
        let report = match spelled {
            Some(raw) => Some((u32::MAX, raw)),
            None => None,
        };
        let ghost reported = report_view(report);
        let found = tidy(report);
        proof {
            if reported is Some {
                let raw = (reported->0).1;
                let indices = (match_view(found)->0).indices;
                lemma_earliest_all_spells(words(query@), candidate@, raw);
                lemma_in_range(indices, raw, candidate@.len());
            }
        }
        return found;
    }
    let text = search_text(query, candidate);
    let text = text.as_str();
    let report = if text.is_ascii() {
        let bytes = text.as_bytes();
        let haystack = Haystack::Ascii(bytes);
        proof {
            vstd::string::is_ascii_spec_bytes(text);
            assert forall|i: int| 0 <= i < bytes@.len() implies bytes@[i] < 128 && bytes@[i] as char
                == text@[i] by {
                assert('\0' <= text@[i] <= '\u{7f}');
                assert(bytes@[i] == text@[i] as u8);
            }
            assert(haystack.text() =~= text@);
        }
        pattern_indices(query, haystack)
    } else {
        let chars = text::characters(text);
        pattern_indices(query, Haystack::Unicode(chars.as_slice()))
    };
    let ghost reported = report_view(report);
    let found = tidy(report);
    proof {
        if reported is Some {
            let raw = (reported->0).1;
            let indices = (match_view(found)->0).indices;
            lemma_in_range(indices, raw, candidate@.len());
        }
    }
    found
}

/// One letter, case aside.
pub open spec fn same_letter(a: char, b: char) -> bool {
    ||| a == b
    ||| 'A' <= a <= 'Z' && b as u32 == a as u32 + 32
    ||| 'A' <= b <= 'Z' && a as u32 == b as u32 + 32
}

/// Places that ascend strictly in a text and hold the letters of a word.
pub open spec fn picks_out(word: Seq<char>, text: Seq<char>, at: Seq<int>) -> bool {
    &&& at.len() == word.len()
    &&& forall|i: int| 0 <= i < at.len() ==> 0 <= #[trigger] at[i] < text.len()
    &&& forall|i: int, j: int| 0 <= i < j < at.len() ==> at[i] < at[j]
    &&& forall|i: int| 0 <= i < at.len() ==> same_letter(text[#[trigger] at[i]], word[i])
}

/// A word is found exactly where its letters stand in the candidate in their
/// order, case aside, and what is reported are the places of such letters. This
/// speaks of ASCII.
pub proof fn law_words_are_found_letter_by_letter(
    query: &str,
    candidate: &str,
    found: Option<FuzzyMatch>,
    at: Seq<int>,
)
    requires
        worktree::path_fits(candidate@),
        call_ensures(fuzzy_match, (query, candidate), found),
        query@.len() > 0,
        forall|i: int|
            0 <= i < query@.len() ==> '!' <= #[trigger] query@[i] <= '~',
        vstd::utf8::is_ascii_chars(candidate@),
    ensures
        picks_out(query@, candidate@, at) ==> found is Some,
        found matches Some(m) ==> picks_out(
            query@,
            candidate@,
            Seq::new(m.matched_indices@.len(), |i: int| m.matched_indices@[i] as int),
        ),
{
    let word = query@;
    let text = candidate@;
    assert(vstd::utf8::is_ascii_chars(word)) by {
        assert forall|i: int| 0 <= i < word.len() implies '\0' <= #[trigger] word[i] <= '\u{7f}' by {
            assert('!' <= word[i] <= '~');
        }
    }
    assert(!blank(word)) by {
        assert('!' <= word[0] <= '~');
        assert(!text::white_space(word[0]));
    }
    assert(!word.contains(' ')) by {
        if word.contains(' ') {
            let i = choose|i: int| 0 <= i < word.len() && word[i] == ' ';
            assert('!' <= word[i]);
        }
    }
    law_word_is_spelled(word, text, match_view(found));
    if picks_out(word, text, at) {
        let positions = Seq::new(at.len(), |i: int| at[i] as u32);
        assert(spells(word, text, positions)) by {
            assert forall|i: int, j: int| 0 <= i < j < positions.len() implies positions[i]
                < positions[j] by {
                assert(at[i] < at[j] && 0 <= at[i] && at[j] < text.len());
            }
            assert forall|i: int| 0 <= i < positions.len() implies #[trigger] positions[i]
                < text.len() && likeness(text[positions[i] as int], accented(word)) == likeness(
                word[i],
                accented(word),
            ) by {
                assert(0 <= at[i] < text.len());
                assert(same_letter(text[at[i]], word[i]));
                assert('!' <= word[i] <= '~');
            }
        }
        assert(within(word, text));
    }
    if let Some(m) = found {
        let places = Seq::new(m.matched_indices@.len(), |i: int| m.matched_indices@[i] as int);
        assert forall|i: int| 0 <= i < places.len() implies 0 <= #[trigger] places[i] < text.len()
            && same_letter(text[places[i]], word[i]) by {
            let v = m@.indices;
            assert(v[i] < text.len() && caseless(text[v[i] as int]) == caseless(word[i]));
            assert('!' <= word[i] <= '~');
        }
    }
}

/// A query of white space finds everything, with rank zero and nothing marked.
pub proof fn law_blank_query_finds_everything(
    query: &str,
    candidate: &str,
    found: Option<FuzzyMatch>,
)
    requires
        worktree::path_fits(candidate@),
        call_ensures(fuzzy_match, (query, candidate), found),
        forall|i: int| 0 <= i < query@.len() ==> query@[i] == ' ' || query@[i] == '\t',
    ensures
        found is Some,
        (found->0).score == 0,
        (found->0).matched_indices@.len() == 0,
{
    assert(blank(query@));
}

/// Tidying a report keeps its rank and lists its positions in ascending order,
/// each once.
pub proof fn law_tidying_lists_each_position_once(
    report: Option<(u32, Vec<u32>)>,
    found: Option<FuzzyMatch>,
    v: u32,
)
    requires
        call_ensures(tidy, (report,), found),
    ensures
        found is Some <==> report is Some,
        found matches Some(m) ==> {
            &&& m.score == (report->0).0
            &&& forall|i: int, j: int|
                0 <= i < j < m.matched_indices@.len() ==> m.matched_indices@[i] < m.matched_indices@[j]
            &&& (exists|i: int| 0 <= i < m.matched_indices@.len() && #[trigger] m.matched_indices@[i] == v)
                <==> (exists|i: int| 0 <= i < (report->0).1@.len() && #[trigger] (report->0).1@[i]
                == v)
        },
{
    if let Some(m) = found {
        let list = m@.indices;
        assert(holds(list, v as int) <==> reports((report->0).1@, v as int));
        if exists|i: int| 0 <= i < m.matched_indices@.len() && #[trigger] m.matched_indices@[i] == v {
            assert(holds(list, v as int));
        }
        if exists|i: int| 0 <= i < (report->0).1@.len() && #[trigger] (report->0).1@[i] == v {
            assert(reports((report->0).1@, v as int));
        }
    }
}

proof fn lemma_words_append(query: Seq<char>, word: Seq<char>)
    requires
        query.len() == 0 || query.last() != '\\',
        word.len() > 0,
        !word.contains(' '),
    ensures
        words(query.push(' ') + word) == words(query).push(word),
    decreases word.len(),
{
    let whole = query.push(' ') + word;
    let rest = word.drop_last();
    let c = word.last();
    assert(word[word.len() - 1] != ' ');
    assert(whole.drop_last() =~= query.push(' ') + rest);
    assert(whole.last() == c);
    if rest.len() == 0 {
        let spaced = query.push(' ');
        assert(query.push(' ') + rest =~= spaced);
        assert(spaced.drop_last() =~= query);
        assert(splits_at(spaced, spaced.len() - 1));
        assert(words(spaced) == words(query));
        assert(whole[whole.len() - 2] == ' ');
        assert(splits_at(whole, whole.len() - 2));
        assert(seq![c] =~= word);
    } else {
        assert forall|i: int| 0 <= i < rest.len() implies rest[i] != ' ' by {
            assert(word[i] != ' ');
        }
        lemma_words_append(query, rest);
        assert(whole[whole.len() - 2] == word[word.len() - 2]);
        assert(word[word.len() - 2] != ' ');
        assert(rest.push(c) =~= word);
        assert(words(whole) =~= words(query).push(word));
    }
}

/// A query of two words finds what both of its words find. This speaks of ASCII.
pub proof fn law_two_words_find_what_both_find(
    query: &str,
    first: &str,
    second: &str,
    candidate: &str,
    both: Option<FuzzyMatch>,
    one: Option<FuzzyMatch>,
    other: Option<FuzzyMatch>,
)
    requires
        worktree::path_fits(candidate@),
        query@ == first@ + seq![' '] + second@,
        first@.len() > 0,
        second@.len() > 0,
        first@.last() != '\\',
        forall|i: int| 0 <= i < first@.len() ==> '!' <= #[trigger] first@[i] <= '~',
        forall|i: int| 0 <= i < second@.len() ==> '!' <= #[trigger] second@[i] <= '~',
        vstd::utf8::is_ascii_chars(candidate@),
        call_ensures(fuzzy_match, (query, candidate), both),
        call_ensures(fuzzy_match, (first, candidate), one),
        call_ensures(fuzzy_match, (second, candidate), other),
    ensures
        both is Some <==> one is Some && other is Some,
{
    let a = first@;
    let b = second@;
    let text = candidate@;
    assert(query@ =~= a.push(' ') + b);
    assert(query@[0] == a[0]);
    assert(!text::white_space(a[0]) && !text::white_space(b[0])) by {
        assert('!' <= a[0] <= '~' && '!' <= b[0] <= '~');
    }
    assert(!blank(query@) && !blank(a) && !blank(b));
    assert(!a.contains(' ')) by {
        if a.contains(' ') {
            let i = choose|i: int| 0 <= i < a.len() && a[i] == ' ';
            assert('!' <= a[i]);
        }
    }
    assert(!b.contains(' ')) by {
        if b.contains(' ') {
            let i = choose|i: int| 0 <= i < b.len() && b[i] == ' ';
            assert('!' <= b[i]);
        }
    }
    assert(vstd::utf8::is_ascii_chars(query@)) by {
        assert forall|i: int| 0 <= i < query@.len() implies '\0' <= #[trigger] query@[i]
            <= '\u{7f}' by {
            if i < a.len() {
                assert(query@[i] == a[i]);
            } else if i > a.len() {
                assert(query@[i] == b[i - a.len() - 1]);
            }
        }
    }
    assert(vstd::utf8::is_ascii_chars(a)) by {
        assert forall|i: int| 0 <= i < a.len() implies '\0' <= #[trigger] a[i] <= '\u{7f}' by {
            assert('!' <= a[i] <= '~');
        }
    }
    assert(vstd::utf8::is_ascii_chars(b)) by {
        assert forall|i: int| 0 <= i < b.len() implies '\0' <= #[trigger] b[i] <= '\u{7f}' by {
            assert('!' <= b[i] <= '~');
        }
    }
    law_word_is_spelled(a, text, match_view(one));
    law_word_is_spelled(b, text, match_view(other));
    lemma_one_word(a);
    lemma_words_append(a, b);
    let list = words(query@);
    assert(list =~= seq![a, b]);
    assert(list[0] == a && list[1] == b);
    if within(a, text) && within(b, text) {
        assert(all_within(list, text));
    }
    if all_within(list, text) {
        assert(within(list[0], text) && within(list[1], text));
    }
}

/// A match that the matcher cannot rank, for a query that is too long for its
/// numbers, has the highest rank.
pub proof fn law_overlong_queries_rank_highest(
    query: &str,
    candidate: &str,
    found: Option<FuzzyMatch>,
)
    requires
        worktree::path_fits(candidate@),
        call_ensures(fuzzy_match, (query, candidate), found),
        query@.len() > 126_322_567,
        !text::white_space(query@[0]),
    ensures
        found matches Some(m) ==> m.score == u32::MAX,
{
    assert(!blank(query@));
}

/// A query of ordinary length is ranked by the path matcher: what it reports is
/// what is found, with its score and its positions. This speaks of ASCII queries
/// and of texts without a backslash.
pub proof fn law_matcher_ranks_what_fits(
    query: &str,
    candidate: &str,
    found: Option<FuzzyMatch>,
    v: u32,
)
    requires
        worktree::path_fits(candidate@),
        call_ensures(fuzzy_match, (query, candidate), found),
        0 < query@.len() <= 2621,
        candidate@.len() <= 2621,
        forall|i: int| 0 <= i < query@.len() ==> ' ' <= #[trigger] query@[i] <= '~',
        query@[0] != ' ',
        !candidate@.contains('\\'),
    ensures
        found is Some <==> path_match(query@, candidate@) is Some,
        found is Some <==> path_found(query@, candidate@),
        found matches Some(m) ==> {
            let report = path_match(query@, candidate@)->0;
            &&& m.score == report.0
            &&& (exists|i: int|
                0 <= i < m.matched_indices@.len() && #[trigger] m.matched_indices@[i] == v) <==> (
            exists|i: int| 0 <= i < report.1.len() && #[trigger] report.1[i] == v)
        },
{
    let q = query@;
    assert(vstd::utf8::is_ascii_chars(q)) by {
        assert forall|i: int| 0 <= i < q.len() implies '\0' <= #[trigger] q[i] <= '\u{7f}' by {
            assert(' ' <= q[i] <= '~');
        }
    }
    assert(!blank(q)) by {
        assert(' ' <= q[0] <= '~' && q[0] != ' ');
        assert(!text::white_space(q[0]));
    }
    assert(q.len() * candidate@.len() <= usize::MAX) by (nonlinear_arith)
        requires
            q.len() <= 2621,
            candidate@.len() <= 2621,
    ;
    assert(ranked(q, candidate@)) by {
        assert forall|i: int, j: int| !read_double(q, i, j) by {
            if read_double(q, i, j) {
                assert(' ' <= q[j] <= '~');
            }
        }
    }
    assert(searched(q, candidate@) == candidate@);
    if let Some(m) = found {
        let report = path_match(q, candidate@)->0;
        let list = m@.indices;
        assert(holds(list, v as int) <==> reports(report.1, v as int));
        if exists|i: int| 0 <= i < m.matched_indices@.len() && #[trigger] m.matched_indices@[i] == v {
            assert(holds(list, v as int));
        }
        if exists|i: int| 0 <= i < report.1.len() && #[trigger] report.1[i] == v {
            assert(reports(report.1, v as int));
        }
    }
}

/// A query in which a backslash shares its word with a character beyond ASCII is
/// not ranked: what it finds has the highest rank.
pub proof fn law_backslash_beyond_ascii_ranks_highest(
    query: &str,
    candidate: &str,
    found: Option<FuzzyMatch>,
    i: int,
    j: int,
)
    requires
        worktree::path_fits(candidate@),
        call_ensures(fuzzy_match, (query, candidate), found),
        0 <= i && i + 1 < query@.len(),
        0 <= j < query@.len(),
        query@[i] == '\\',
        query@[i + 1] != ' ',
        query@[j] > '\u{7f}',
        forall|k: int|
            0 <= k < query@.len() && (i <= k < j || j <= k < i) ==> #[trigger] query@[k] != ' ',
    ensures
        found matches Some(m) ==> m.score == u32::MAX,
{
    let q = query@;
    assert(!blank(q)) by {
        assert(!text::white_space(q[i]));
    }
    assert forall|k: int| i <= k < j implies !#[trigger] splits_at(q, k) by {
        assert(q[k] != ' ');
    }
    assert forall|k: int| j <= k < i implies !#[trigger] splits_at(q, k) by {
        assert(q[k] != ' ');
    }
    assert(read_double(q, i, j));
}

/// A query with an accent is looked for in the text with its letters folded: the
/// text as it is and the folded text give one answer.
pub proof fn law_accents_are_looked_for_in_folded_text(
    query: &str,
    candidate: &str,
    folded: &str,
    one: Option<FuzzyMatch>,
    other: Option<FuzzyMatch>,
    i: int,
)
    requires
        worktree::path_fits(candidate@),
        call_ensures(fuzzy_match, (query, candidate), one),
        call_ensures(fuzzy_match, (query, folded), other),
        ranked(query@, candidate@),
        0 <= i < query@.len(),
        query@[i] > '\u{7f}',
        unaccented(case_folded(query@[i])) != case_folded(query@[i]),
        folded@.len() == candidate@.len(),
        forall|k: int|
            0 <= k < candidate@.len() ==> #[trigger] folded@[k] == if lower_letter(candidate@[k]) {
                case_folded(candidate@[k])
            } else {
                candidate@[k]
            },
        forall|k: int|
            0 <= k < folded@.len() && lower_letter(#[trigger] folded@[k]) ==> case_folded(folded@[k])
                == folded@[k],
    ensures
        one is Some <==> other is Some,
        one is Some && !candidate@.contains('\\') && !folded@.contains('\\') ==> (one->0).score == (
        other->0).score,
{
    let q = query@;
    assert(!vstd::utf8::is_ascii_chars(q)) by {
        if vstd::utf8::is_ascii_chars(q) {
            assert('\0' <= q[i] <= '\u{7f}');
        }
    }
    assert(accented(q));
    assert(searched(q, candidate@) =~= folded@);
    assert(searched(q, folded@) =~= folded@);
    assert(ranked(q, folded@));
}

proof fn lemma_words_extend(query: Seq<char>, more: Seq<char>)
    requires
        query.len() > 0,
        !splits_at(query, query.len() - 1),
        !more.contains(' '),
    ensures
        words(query).len() > 0,
        words(query + more) == words(query).drop_last().push(words(query).last() + more),
    decreases more.len(),
{
    lemma_words_exist(query);
    let start = words(query);
    if more.len() == 0 {
        assert(query + more =~= query);
        assert(start.last() + more =~= start.last());
        assert(start.drop_last().push(start.last()) =~= start);
    } else {
        let rest = more.drop_last();
        let c = more.last();
        let whole = query + more;
        assert forall|i: int| 0 <= i < rest.len() implies rest[i] != ' ' by {
            assert(more[i] != ' ');
        }
        lemma_words_extend(query, rest);
        assert(whole.drop_last() =~= query + rest);
        assert(more[more.len() - 1] != ' ');
        assert(whole.last() == c);
        if rest.len() == 0 {
            assert(whole[whole.len() - 2] == query.last());
            assert(query.len() > 1 ==> whole[whole.len() - 3] == query[query.len() - 2]);
        } else {
            assert(whole[whole.len() - 2] == more[more.len() - 2]);
            assert(more[more.len() - 2] != ' ');
        }
        assert(!splits_at(whole, whole.len() - 2));
        assert((start.last() + rest).push(c) =~= start.last() + more);
        assert(words(whole) =~= start.drop_last().push(start.last() + more));
    }
}

/// A space behind a backslash is a character of its word like any other: what is
/// looked for has the space and not the backslash. This speaks of ASCII.
pub proof fn law_escaped_space_is_looked_for(
    query: &str,
    candidate: &str,
    found: Option<FuzzyMatch>,
    first: Seq<char>,
    second: Seq<char>,
    at: Seq<int>,
)
    requires
        worktree::path_fits(candidate@),
        call_ensures(fuzzy_match, (query, candidate), found),
        query@ == first + seq!['\\', ' '] + second,
        first.len() > 0,
        forall|i: int| 0 <= i < first.len() ==> '!' <= #[trigger] first[i] <= '~',
        forall|i: int| 0 <= i < second.len() ==> '!' <= #[trigger] second[i] <= '~',
        vstd::utf8::is_ascii_chars(candidate@),
        picks_out(first + seq![' '] + second, candidate@, at),
    ensures
        found is Some,
{
    let text = candidate@;
    let word = first + seq![' '] + second;
    let head = first.push('\\');
    let spaced = head.push(' ');
    assert(query@ =~= spaced + second);
    assert(query@[0] == first[0]);
    assert('!' <= first[0] <= '~');
    assert(!text::white_space(query@[0]));
    assert(!blank(query@));
    assert(vstd::utf8::is_ascii_chars(query@)) by {
        assert forall|i: int| 0 <= i < query@.len() implies '\0' <= #[trigger] query@[i]
            <= '\u{7f}' by {
            if i < first.len() {
                assert(query@[i] == first[i]);
            } else if i >= first.len() + 2 {
                assert(query@[i] == second[i - first.len() - 2]);
            }
        }
    }
    assert(!head.contains(' ')) by {
        assert forall|i: int| 0 <= i < head.len() implies head[i] != ' ' by {
            if i < first.len() {
                assert('!' <= first[i]);
            }
        }
    }
    assert(!second.contains(' ')) by {
        if second.contains(' ') {
            let i = choose|i: int| 0 <= i < second.len() && second[i] == ' ';
            assert('!' <= second[i]);
        }
    }
    lemma_one_word(head);
    assert(spaced.drop_last() =~= head);
    assert(spaced[spaced.len() - 2] == '\\');
    assert(!splits_at(spaced, spaced.len() - 1) && !splits_at(spaced, spaced.len() - 2));
    assert(words(spaced) =~= seq![first.push(' ')]) by {
        assert(words(head)[0] == head);
        assert(head.drop_last() =~= first);
    }
    lemma_words_extend(spaced, second);
    assert(words(query@) =~= seq![word]) by {
        assert(words(spaced).drop_last() =~= Seq::<Seq<char>>::empty());
        assert(first.push(' ') + second =~= word);
    }
    let positions = Seq::new(at.len(), |i: int| at[i] as u32);
    assert(!accented(word)) by {
        assert forall|i: int| 0 <= i < word.len() implies '\0' <= #[trigger] word[i] <= '\u{7f}' by {
            if i < first.len() {
                assert(word[i] == first[i]);
            } else if i > first.len() {
                assert(word[i] == second[i - first.len() - 1]);
            }
        }
    }
    assert(spells(word, text, positions)) by {
        assert forall|i: int, j: int| 0 <= i < j < positions.len() implies positions[i]
            < positions[j] by {
            assert(at[i] < at[j] && 0 <= at[i] && at[j] < text.len());
        }
        assert forall|i: int| 0 <= i < positions.len() implies #[trigger] positions[i] < text.len()
            && likeness(text[positions[i] as int], accented(word)) == likeness(
            word[i],
            accented(word),
        ) by {
            assert(0 <= at[i] < text.len());
            assert(same_letter(text[at[i]], word[i]));
            if i < first.len() {
                assert(word[i] == first[i]);
                assert('!' <= first[i] <= '~');
            } else if i > first.len() {
                assert(word[i] == second[i - first.len() - 1]);
                assert('!' <= second[i - first.len() - 1] <= '~');
            }
        }
    }
    assert(within(word, text));
    assert(words(query@)[0] == word);
    assert(all_within(words(query@), text));
}

proof fn lemma_word_runs_on(query: Seq<char>, n: nat)
    requires
        n <= query.len(),
        !query.contains(' '),
    ensures
        word_so_far(query, n) == n,
    decreases n,
{
    if n > 0 {
        assert(query[n - 1] != ' ');
        lemma_word_runs_on(query, (n - 1) as nat);
    }
}

/// A word that is too long to be scored in a text that is too long ranks
/// highest wherever it is found.
pub proof fn law_overlong_words_rank_highest(
    query: &str,
    candidate: &str,
    found: Option<FuzzyMatch>,
)
    requires
        worktree::path_fits(candidate@),
        call_ensures(fuzzy_match, (query, candidate), found),
        query@.len() > 2621,
        candidate@.len() > 2621,
        !query@.contains(' '),
        !text::white_space(query@[0]),
    ensures
        found matches Some(m) ==> m.score == u32::MAX,
{
    assert(!blank(query@));
    lemma_word_runs_on(query@, query@.len());
    assert(!words_fit(query@));
}

} // verus!
