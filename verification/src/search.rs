//! Relevance ranking of search results: accent- and case-insensitive name
//! matching, a typo-tolerant word match and the final ordering.
use crate::providers::MediaEntry;
use crate::text::{
    capped_prefix_bytes, chars_equal, chars_of, contains, contains_exec, find_first,
    first_occurrence, has_prefix, lemma_first_occurrence, lex_less, occurs_at, lex_lt, occurs_at_exec, split_words, string_of, utf8_len,
    utf8_len_of, words,
};
use unicode_normalization::char::is_combining_mark;
use unicode_normalization::UnicodeNormalization;
use vstd::multiset::Multiset;
use vstd::prelude::*;

verus! {

/// What `str::to_lowercase` returns for a text (Unicode lowercase mapping).
pub uninterp spec fn lowercase_of(s: Seq<char>) -> Seq<char>;

/// What `unicode_normalization`'s `nfkd()` yields for a text (its
/// compatibility decomposition).
pub uninterp spec fn nfkd_of(s: Seq<char>) -> Seq<char>;

/// What `unicode_normalization::char::is_combining_mark` says of a character.
pub uninterp spec fn is_combining(c: char) -> bool;

/// `str::to_lowercase`; the mapping itself is left to the name.
#[verifier::external_body]
pub(crate) fn lowercase(s: &str) -> (r: String)
    ensures
        r@ == lowercase_of(s@),
{
    s.to_lowercase()
}

/// `UnicodeNormalization::nfkd` collected into a string; the decomposition
/// is left to the name.
#[verifier::external_body]
fn nfkd(s: &str) -> (r: String)
    ensures
        r@ == nfkd_of(s@),
{
    s.nfkd().collect()
}

/// `unicode_normalization::char::is_combining_mark`; which characters are
/// marks is left to the name.
#[verifier::external_body]
fn combining_mark(c: char) -> (r: bool)
    ensures
        r == is_combining(c),
{
    is_combining_mark(c)
}

/// `s` with every combining mark removed.
pub open spec fn without_marks(s: Seq<char>) -> Seq<char>
    decreases s.len(),
{
    if s.len() == 0 {
        s
    } else if is_combining(s.last()) {
        without_marks(s.drop_last())
    } else {
        without_marks(s.drop_last()).push(s.last())
    }
}

/// The form in which names and queries are compared: lowercased,
/// compatibility-decomposed, without combining marks.
pub open spec fn normalized(s: Seq<char>) -> Seq<char> {
    without_marks(nfkd_of(lowercase_of(s)))
}

/// Lowercases `s`, decomposes it (NFKD) and drops combining marks, so that
/// "Café" and "cafe" compare equal.
pub fn normalize(s: &str) -> (r: String)
    ensures
        r@ == normalized(s@),
{
    let lower = lowercase(s);
    let decomposed = nfkd(lower.as_str());
    let d = chars_of(decomposed.as_str());
    let mut out: Vec<char> = Vec::new();
    let mut i: usize = 0;
    assert(d@.take(0) =~= Seq::<char>::empty());
    while i < d.len()
        invariant
            i <= d@.len(),
            out@ == without_marks(d@.take(i as int)),
        decreases d@.len() - i,
    {
        assert(d@.take(i + 1).drop_last() =~= d@.take(i as int));
        assert(d@.take(i + 1).last() == d@[i as int]);
        if !combining_mark(d[i]) {
            out.push(d[i]);
        }
        i = i + 1;
    }
    assert(d@.take(d@.len() as int) =~= d@);
    string_of(&out)
}

/// Score of a (normalized) name against a (normalized) query: 1000 for an
/// exact match, 800 for a prefix, 600 minus the byte offset (capped at 100)
/// of the first occurrence, 0 when the query does not occur.
pub open spec fn name_score(name: Seq<char>, query: Seq<char>) -> u16 {
    if name == query {
        1000
    } else if has_prefix(name, query) {
        800
    } else {
        match first_occurrence(name, query) {
            Some(p) => {
                let off = utf8_len(name.take(p));
                (600 - (if off < 100 {
                    off
                } else {
                    100nat
                })) as u16
            },
            None => 0,
        }
    }
}

/// Scores how well `name` matches `query`.
pub fn score_name(name: &str, query: &str) -> (r: u16)
    ensures
        r == name_score(name@, query@),
{
    let n = chars_of(name);
    let q = chars_of(query);
    if chars_equal(&n, &q) {
        1000
    } else if occurs_at_exec(&n, &q, 0) {
        800
    } else {
        match find_first(&n, &q) {
            Some(pos) => {
                let off = capped_prefix_bytes(&n, pos, 100);
                600 - off as u16
            },
            None => 0,
        }
    }
}

/// The smallest of three numbers.
pub open spec fn min3(a: nat, b: nat, c: nat) -> nat {
    if a <= b && a <= c {
        a
    } else if b <= c {
        b
    } else {
        c
    }
}

/// Levenshtein distance: the fewest single-character insertions, deletions
/// and substitutions that turn `a` into `b`.
pub open spec fn lev(a: Seq<char>, b: Seq<char>) -> nat
    decreases a.len() + b.len(),
{
    if a.len() == 0 {
        b.len()
    } else if b.len() == 0 {
        a.len()
    } else if a.last() == b.last() {
        lev(a.drop_last(), b.drop_last())
    } else {
        1 + min3(lev(a.drop_last(), b.drop_last()), lev(a.drop_last(), b), lev(a, b.drop_last()))
    }
}

/// The edit distance does not depend on which text is edited into which.
pub proof fn law_edit_distance_symmetric(a: Seq<char>, b: Seq<char>)
    ensures
        lev(a, b) == lev(b, a),
    decreases a.len() + b.len(),
{
    if a.len() > 0 && b.len() > 0 {
        law_edit_distance_symmetric(a.drop_last(), b.drop_last());
        law_edit_distance_symmetric(a.drop_last(), b);
        law_edit_distance_symmetric(a, b.drop_last());
    }
}

/// Editing one more or one fewer character changes the number of steps by
/// at most one.
proof fn lemma_lev_step(x: Seq<char>, y: Seq<char>)
    ensures
        x.len() > 0 ==> lev(x, y) <= lev(x.drop_last(), y) + 1 && lev(x.drop_last(), y) <= lev(x, y) + 1,
        y.len() > 0 ==> lev(x, y) <= lev(x, y.drop_last()) + 1 && lev(x, y.drop_last()) <= lev(x, y) + 1,
        x.len() > 0 && y.len() > 0 ==> lev(x, y) <= lev(x.drop_last(), y.drop_last()) + (if x.last()
            == y.last() {
            0int
        } else {
            1int
        }),
    decreases x.len() + y.len(),
{
    if x.len() > 0 && y.len() > 0 {
        lemma_lev_step(x.drop_last(), y);
        lemma_lev_step(x, y.drop_last());
        lemma_lev_step(x.drop_last(), y.drop_last());
    } else if x.len() > 0 {
        assert(lev(x, y) == x.len());
        assert(lev(x.drop_last(), y) == x.len() - 1);
    } else if y.len() > 0 {
        assert(lev(x, y) == y.len());
        assert(lev(x, y.drop_last()) == y.len() - 1);
    }
}

/// The edit distance is at least the difference of the lengths.
proof fn lemma_lev_lower(x: Seq<char>, y: Seq<char>)
    ensures
        lev(x, y) >= y.len() - x.len(),
        lev(x, y) >= x.len() - y.len(),
    decreases x.len() + y.len(),
{
    if x.len() > 0 && y.len() > 0 {
        lemma_lev_lower(x.drop_last(), y.drop_last());
        lemma_lev_lower(x.drop_last(), y);
        lemma_lev_lower(x, y.drop_last());
    }
}

/// Editing `a` into `c` never takes more steps than editing it into `b`
/// and then `b` into `c`.
pub proof fn law_edit_distance_triangle(a: Seq<char>, b: Seq<char>, c: Seq<char>)
    ensures
        lev(a, c) <= lev(a, b) + lev(b, c),
    decreases a.len() + b.len() + c.len(),
{
    lemma_lev_lower(b, c);
    lemma_lev_lower(a, b);
    lemma_lev_bound(a, c);
    if a.len() == 0 || b.len() == 0 || c.len() == 0 {
        return;
    }
    let (a1, b1, c1) = (a.drop_last(), b.drop_last(), c.drop_last());
    lemma_lev_step(a, c);
    if lev(a, b) == lev(a1, b) + 1 {
        law_edit_distance_triangle(a1, b, c);
    } else if lev(b, c) == lev(b, c1) + 1 {
        law_edit_distance_triangle(a, b, c1);
    } else if lev(a, b) == lev(a, b1) + 1 && lev(b, c) == lev(b1, c) + 1 {
        law_edit_distance_triangle(a, b1, c);
    } else if lev(a, b) == lev(a, b1) + 1 {
        law_edit_distance_triangle(a, b1, c1);
    } else if lev(b, c) == lev(b1, c) + 1 {
        law_edit_distance_triangle(a1, b1, c);
    } else {
        law_edit_distance_triangle(a1, b1, c1);
    }
}

pub proof fn lemma_lev_bound(a: Seq<char>, b: Seq<char>)
    ensures
        lev(a, b) <= if a.len() >= b.len() {
            a.len()
        } else {
            b.len()
        },
    decreases a.len() + b.len(),
{
    if a.len() > 0 && b.len() > 0 {
        lemma_lev_bound(a.drop_last(), b.drop_last());
    }
}

/// Levenshtein distance between two texts, counted in characters.
pub fn edit_distance(a: &str, b: &str) -> (r: usize)
    ensures
        r == lev(a@, b@),
{
    let av = chars_of(a);
    let bv = chars_of(b);
    let n = bv.len();
    let m = av.len();
    let mut row: Vec<usize> = Vec::new();
    row.push(0);
    let mut k: usize = 0;
    while k < n
        invariant
            n == bv@.len(),
            k <= n,
            row@.len() == k + 1,
            forall|t: int| 0 <= t <= k ==> #[trigger] row@[t] == t,
        decreases n - k,
    {
        k = k + 1;
        row.push(k);
    }
    assert forall|t: int| 0 <= t <= n implies #[trigger] row@[t] == lev(
        av@.take(0),
        bv@.take(t),
    ) by {
        assert(av@.take(0).len() == 0);
        assert(bv@.take(t).len() == t);
    }
    let mut i: usize = 0;
    while i < m
        invariant
            m == av@.len(),
            n == bv@.len(),
            i <= m,
            row@.len() == n + 1,
            forall|t: int| 0 <= t <= n ==> #[trigger] row@[t] == lev(av@.take(i as int), bv@.take(t)),
        decreases m - i,
    {
        let ghost ai = av@.take(i as int);
        let ghost ai1 = av@.take(i + 1);
        assert(ai1.drop_last() =~= ai);
        assert(ai1.last() == av@[i as int]);
        let ca = av[i];
        let mut prev = row[0];
        assert(bv@.take(0).len() == 0);
        row.set(0, prev + 1);
        let mut j: usize = 0;
        while j < n
            invariant
                m == av@.len(),
                n == bv@.len(),
                i < m,
                j <= n,
                ai == av@.take(i as int),
                ai1 == av@.take(i + 1),
                ai1.drop_last() == ai,
                ai1.last() == ca,
                ai1.len() == i + 1,
                row@.len() == n + 1,
                prev == lev(ai, bv@.take(j as int)),
                forall|t: int| 0 <= t <= j ==> #[trigger] row@[t] == lev(ai1, bv@.take(t)),
                forall|t: int| j < t <= n ==> #[trigger] row@[t] == lev(ai, bv@.take(t)),
            decreases n - j,
        {
            let ghost bj1 = bv@.take(j + 1);
            assert(bj1.drop_last() =~= bv@.take(j as int));
            assert(bj1.last() == bv@[j as int]);
            let old = row[j + 1];
            proof {
                lemma_lev_bound(ai, bv@.take(j as int));
            }
            let val = if ca == bv[j] {
                prev
            } else {
                let left = row[j];
                let mut best = prev;
                if left < best {
                    best = left;
                }
                if old < best {
                    best = old;
                }
                best + 1
            };
            assert(val == lev(ai1, bj1));
            row.set(j + 1, val);
            prev = old;
            j = j + 1;
        }
        i = i + 1;
    }
    assert(av@.take(m as int) =~= av@);
    assert(bv@.take(n as int) =~= bv@);
    row[n]
}

/// A word of the text is close to the query word: their byte lengths differ
/// by at most one and one edit turns one into the other.
pub open spec fn close_word(w: Seq<char>, word: Seq<char>) -> bool {
    let lw = utf8_len(w);
    let lq = utf8_len(word);
    (if lw >= lq {
        lw - lq
    } else {
        lq - lw
    }) <= 1 && lev(w, word) <= 1
}

/// `word` occurs in `text`, or (for words of at least four bytes) some
/// whitespace-separated word of `text` is close to it.
pub open spec fn fuzzy_match(word: Seq<char>, text: Seq<char>) -> bool {
    contains(text, word) || (utf8_len(word) >= 4 && exists|i: int|
        0 <= i < words(text).len() && close_word(#[trigger] words(text)[i], word))
}

/// Whether `word` appears in `text`, tolerating one typo in words of four
/// bytes or more.
pub fn fuzzy_word_match(word: &str, text: &str) -> (r: bool)
    ensures
        r == fuzzy_match(word@, text@),
{
    let wv = chars_of(word);
    let tv = chars_of(text);
    if contains_exec(&tv, &wv) {
        return true;
    }
    let word_bytes = utf8_len_of(wv.as_slice());
    if word_bytes < 4 {
        return false;
    }
    let ws = split_words(&tv);
    let mut i: usize = 0;
    while i < ws.len()
        invariant
            i <= ws@.len(),
            ws@.len() == words(tv@).len(),
            forall|k: int| 0 <= k < ws@.len() ==> #[trigger] ws@[k]@ == words(tv@)[k],
            utf8_len(wv@) == word_bytes,
            word_bytes >= 4,
            wv@ == word@,
            tv@ == text@,
            forall|k: int| 0 <= k < i ==> !close_word(#[trigger] words(tv@)[k], wv@),
        decreases ws@.len() - i,
    {
        let w = &ws[i];
        assert(w@ == words(tv@)[i as int]);
        let lw = utf8_len_of(w.as_slice());
        let diff = if lw >= word_bytes {
            lw - word_bytes
        } else {
            word_bytes - lw
        };
        if diff <= 1 {
            let ws_str = string_of(w);
            if edit_distance(ws_str.as_str(), word) <= 1 {
                assert(close_word(words(text@)[i as int], word@));
                assert(0 <= i < words(text@).len());
                assert(utf8_len(word@) >= 4);
                assert(fuzzy_match(word@, text@));
                return true;
            }
        }
        i = i + 1;
    }
    assert forall|k: int| 0 <= k < words(text@).len() implies !close_word(
        #[trigger] words(text@)[k],
        word@,
    ) by {
        assert(!close_word(words(tv@)[k], wv@));
    }
    false
}

/// Normalized forms of an entry's name and alternative names, name first.
pub open spec fn entry_names(e: MediaEntry) -> Seq<Seq<char>> {
    seq![normalized(e.name@)] + e.alternative_names@.map_values(|n: String| normalized(n@))
}

/// The best score of any of the names against the query (0 for none).
pub open spec fn best_score(names: Seq<Seq<char>>, q: Seq<char>) -> u16
    decreases names.len(),
{
    if names.len() == 0 {
        0
    } else {
        let a = best_score(names.drop_last(), q);
        let b = name_score(names.last(), q);
        if a >= b {
            a
        } else {
            b
        }
    }
}

/// The normalized description, when there is one.
pub open spec fn description_norm(e: MediaEntry) -> Option<Seq<char>> {
    match e.description {
        Some(d) => Some(normalized(d@)),
        None => None,
    }
}

/// A query word is found: fuzzily in one of the names, or verbatim in the
/// description.
pub open spec fn word_hit(w: Seq<char>, names: Seq<Seq<char>>, d: Option<Seq<char>>) -> bool {
    (exists|k: int| 0 <= k < names.len() && fuzzy_match(w, #[trigger] names[k])) || (d matches Some(
        dd,
    ) && contains(dd, w))
}

/// How many of the query words are found.
pub open spec fn word_hits(qw: Seq<Seq<char>>, names: Seq<Seq<char>>, d: Option<Seq<char>>) -> nat
    decreases qw.len(),
{
    if qw.len() == 0 {
        0
    } else {
        word_hits(qw.drop_last(), names, d) + if word_hit(qw.last(), names, d) {
            1nat
        } else {
            0nat
        }
    }
}

/// Relevance of an entry for a normalized query: the best name score; else
/// 450 when the description contains the query; else the share of query
/// words found, scaled to 500, computed in 16-bit arithmetic that wraps.
pub open spec fn entry_score(e: MediaEntry, q: Seq<char>) -> u16 {
    let names = entry_names(e);
    let best = best_score(names, q);
    if best > 0 {
        best
    } else {
        let d = description_norm(e);
        if d matches Some(dd) && contains(dd, q) {
            450
        } else {
            let total = words(q).len() % 0x1_0000;
            let hits = word_hits(words(q), names, d) % 0x1_0000;
            if total > 0 {
                (((hits * 500) % 0x1_0000) / total) as u16
            } else {
                0
            }
        }
    }
}

proof fn lemma_name_score_zero(name: Seq<char>, q: Seq<char>)
    requires
        !contains(name, q),
    ensures
        name_score(name, q) == 0,
{
    lemma_first_occurrence(name, q);
    if name == q {
        assert(name.subrange(0, q.len() as int) =~= name);
        assert(occurs_at(name, q, 0));
    }
    if has_prefix(name, q) {
        assert(occurs_at(name, q, 0));
    }
}

proof fn lemma_best_score_zero(names: Seq<Seq<char>>, q: Seq<char>)
    requires
        forall|k: int| 0 <= k < names.len() ==> !contains(#[trigger] names[k], q),
    ensures
        best_score(names, q) == 0,
    decreases names.len(),
{
    if names.len() > 0 {
        let rest = names.drop_last();
        assert forall|k: int| 0 <= k < rest.len() implies !contains(#[trigger] rest[k], q) by {
            assert(rest[k] == names[k]);
        }
        lemma_best_score_zero(rest, q);
        lemma_name_score_zero(names.last(), q);
    }
}

proof fn lemma_word_hits_count(qw: Seq<Seq<char>>, names: Seq<Seq<char>>, d: Option<Seq<char>>, all: bool)
    requires
        forall|j: int| 0 <= j < qw.len() ==> word_hit(#[trigger] qw[j], names, d) == all,
    ensures
        word_hits(qw, names, d) == if all {
            qw.len()
        } else {
            0
        },
    decreases qw.len(),
{
    if qw.len() > 0 {
        let rest = qw.drop_last();
        assert forall|j: int| 0 <= j < rest.len() implies word_hit(#[trigger] rest[j], names, d) == all by {
            assert(rest[j] == qw[j]);
        }
        lemma_word_hits_count(rest, names, d, all);
        assert(word_hit(qw[qw.len() - 1], names, d) == all);
    }
}

proof fn lemma_entry_names_cover(e: MediaEntry, q: Seq<char>)
    requires
        !contains(normalized(e.name@), q),
        forall|k: int| 0 <= k < e.alternative_names@.len() ==> !contains(
            normalized(#[trigger] e.alternative_names@[k]@),
            q,
        ),
    ensures
        best_score(entry_names(e), q) == 0,
{
    let names = entry_names(e);
    assert forall|k: int| 0 <= k < names.len() implies !contains(#[trigger] names[k], q) by {
        if k > 0 {
            assert(names[k] == normalized(e.alternative_names@[k - 1]@));
        }
    }
    lemma_best_score_zero(names, q);
}

/// A query of at most 131 words that neither a name nor the description
/// holds whole, but every word of which occurs in the entry's normalized
/// description, scores the entry 500: a word counts as found when the
/// description holds it, whatever the names say.
pub proof fn law_description_words_score_full(e: MediaEntry, q: Seq<char>)
    requires
        !contains(normalized(e.name@), q),
        forall|k: int| 0 <= k < e.alternative_names@.len() ==> !contains(
            normalized(#[trigger] e.alternative_names@[k]@),
            q,
        ),
        e.description is Some,
        !contains(normalized(e.description->0@), q),
        0 < words(q).len() <= 131,
        forall|j: int| 0 <= j < words(q).len() ==> contains(normalized(e.description->0@), #[trigger] words(q)[j]),
    ensures
        entry_score(e, q) == 500,
{
    lemma_entry_names_cover(e, q);
    let d = description_norm(e);
    let qw = words(q);
    assert forall|j: int| 0 <= j < qw.len() implies word_hit(#[trigger] qw[j], entry_names(e), d) == true by {
        assert(contains(normalized(e.description->0@), qw[j]));
    }
    lemma_word_hits_count(qw, entry_names(e), d, true);
    let n = qw.len();
    assert(n % 0x1_0000 == n);
    assert(((n * 500) % 0x1_0000) / n == 500) by (nonlinear_arith)
        requires
            0 < n <= 131,
    {
        assert(n * 500 < 0x1_0000);
        assert((n * 500) % 0x1_0000 == n * 500);
    }
}

/// A query of at most 131 words that no name nor the description holds
/// whole, but every word of which fuzzily matches the entry's normalized
/// name, scores the entry 500.
pub proof fn law_name_words_score_full(e: MediaEntry, q: Seq<char>)
    requires
        !contains(normalized(e.name@), q),
        forall|k: int| 0 <= k < e.alternative_names@.len() ==> !contains(
            normalized(#[trigger] e.alternative_names@[k]@),
            q,
        ),
        e.description is Some ==> !contains(normalized(e.description->0@), q),
        0 < words(q).len() <= 131,
        forall|j: int| 0 <= j < words(q).len() ==> fuzzy_match(#[trigger] words(q)[j], normalized(e.name@)),
    ensures
        entry_score(e, q) == 500,
{
    lemma_entry_names_cover(e, q);
    let d = description_norm(e);
    let qw = words(q);
    let names = entry_names(e);
    assert forall|j: int| 0 <= j < qw.len() implies word_hit(#[trigger] qw[j], names, d) == true by {
        assert(names[0] == normalized(e.name@));
        assert(fuzzy_match(qw[j], names[0]));
    }
    lemma_word_hits_count(qw, names, d, true);
    let n = qw.len();
    assert(n % 0x1_0000 == n);
    assert(((n * 500) % 0x1_0000) / n == 500) by (nonlinear_arith)
        requires
            0 < n <= 131,
    {
        assert(n * 500 < 0x1_0000);
        assert((n * 500) % 0x1_0000 == n * 500);
    }
}

/// An entry whose names and description hold neither the query nor, in
/// any way, one of its words scores 0.
pub proof fn law_nothing_found_scores_zero(e: MediaEntry, q: Seq<char>)
    requires
        !contains(normalized(e.name@), q),
        forall|k: int| 0 <= k < e.alternative_names@.len() ==> !contains(
            normalized(#[trigger] e.alternative_names@[k]@),
            q,
        ),
        e.description is Some ==> !contains(normalized(e.description->0@), q),
        forall|j: int| 0 <= j < words(q).len() ==> !fuzzy_match(#[trigger] words(q)[j], normalized(e.name@)),
        forall|j: int, k: int|
            0 <= j < words(q).len() && 0 <= k < e.alternative_names@.len() ==> !fuzzy_match(
                #[trigger] words(q)[j],
                normalized(#[trigger] e.alternative_names@[k]@),
            ),
        forall|j: int|
            0 <= j < words(q).len() ==> (e.description is Some ==> !contains(
                normalized(e.description->0@),
                #[trigger] words(q)[j],
            )),
    ensures
        entry_score(e, q) == 0,
{
    lemma_entry_names_cover(e, q);
    let d = description_norm(e);
    let qw = words(q);
    let names = entry_names(e);
    assert forall|j: int| 0 <= j < qw.len() implies word_hit(#[trigger] qw[j], names, d) == false by {
        assert forall|k: int| 0 <= k < names.len() implies !fuzzy_match(qw[j], #[trigger] names[k]) by {
            if k > 0 {
                assert(names[k] == normalized(e.alternative_names@[k - 1]@));
            }
        }
    }
    lemma_word_hits_count(qw, names, d, false);
}

/// A name scores 1000 when it is the query, 800 when it starts with it
/// otherwise, between 500 and 600 when it holds it elsewhere, and 0 when it
/// does not hold it.
pub proof fn law_name_score_levels(name: Seq<char>, q: Seq<char>)
    ensures
        name == q ==> name_score(name, q) == 1000,
        name != q && has_prefix(name, q) ==> name_score(name, q) == 800,
        name != q && !has_prefix(name, q) && contains(name, q) ==> 500 <= name_score(name, q) <= 600,
        !contains(name, q) ==> name_score(name, q) == 0,
{
    lemma_first_occurrence(name, q);
    if !contains(name, q) {
        lemma_name_score_zero(name, q);
    }
}

proof fn lemma_best_score_at_least(names: Seq<Seq<char>>, q: Seq<char>, k: int)
    requires
        0 <= k < names.len(),
    ensures
        best_score(names, q) >= name_score(names[k], q),
    decreases names.len(),
{
    if k < names.len() - 1 {
        lemma_best_score_at_least(names.drop_last(), q, k);
        assert(names.drop_last()[k] == names[k]);
    }
}

/// An entry scores at least what its name, or any of its alternative
/// names, scores against the query.
pub proof fn law_entry_scores_at_least_its_names(e: MediaEntry, q: Seq<char>)
    ensures
        entry_score(e, q) >= name_score(normalized(e.name@), q),
        forall|k: int|
            0 <= k < e.alternative_names@.len() ==> entry_score(e, q) >= name_score(
                normalized(#[trigger] e.alternative_names@[k]@),
                q,
            ),
{
    let names = entry_names(e);
    lemma_best_score_at_least(names, q, 0);
    assert forall|k: int| 0 <= k < e.alternative_names@.len() implies entry_score(e, q) >= name_score(
        normalized(#[trigger] e.alternative_names@[k]@),
        q,
    ) by {
        assert(names[k + 1] == normalized(e.alternative_names@[k]@));
        lemma_best_score_at_least(names, q, k + 1);
    }
}

/// An entry none of whose names holds the query, but whose normalized
/// description does, scores 450.
pub proof fn law_description_holds_query_scores_450(e: MediaEntry, q: Seq<char>)
    requires
        !contains(normalized(e.name@), q),
        forall|k: int| 0 <= k < e.alternative_names@.len() ==> !contains(
            normalized(#[trigger] e.alternative_names@[k]@),
            q,
        ),
        e.description is Some,
        contains(normalized(e.description->0@), q),
    ensures
        entry_score(e, q) == 450,
{
    lemma_entry_names_cover(e, q);
}

/// `(s1, n1)` ranks strictly before `(s2, n2)`: higher score first, then
/// shorter name (in bytes), then the name that sorts first.
pub open spec fn ranks_before(s1: u16, n1: Seq<char>, s2: u16, n2: Seq<char>) -> bool {
    s1 > s2 || (s1 == s2 && (utf8_len(n1) < utf8_len(n2) || (utf8_len(n1) == utf8_len(n2)
        && lex_lt(n1, n2))))
}

/// No entry ranks strictly before one that comes earlier.
pub open spec fn is_ranked(v: Seq<MediaEntry>, q: Seq<char>) -> bool {
    forall|i: int, j: int|
        0 <= i < j < v.len() ==> !ranks_before(
            entry_score(#[trigger] v[j], q),
            v[j].name@,
            entry_score(#[trigger] v[i], q),
            v[i].name@,
        )
}

proof fn lemma_ranks_before_transitive(
    s1: u16,
    n1: Seq<char>,
    s2: u16,
    n2: Seq<char>,
    s3: u16,
    n3: Seq<char>,
)
    requires
        ranks_before(s1, n1, s2, n2),
        ranks_before(s2, n2, s3, n3),
    ensures
        ranks_before(s1, n1, s3, n3),
{
    if s1 == s2 && s2 == s3 && utf8_len(n1) == utf8_len(n2) && utf8_len(n2) == utf8_len(n3) {
        crate::text::lemma_lex_transitive(n1, n2, n3);
    }
}

proof fn lemma_ranks_before_asymmetric(s1: u16, n1: Seq<char>, s2: u16, n2: Seq<char>)
    requires
        ranks_before(s1, n1, s2, n2),
    ensures
        !ranks_before(s2, n2, s1, n1),
{
    if s1 == s2 && utf8_len(n1) == utf8_len(n2) {
        crate::text::lemma_lex_asymmetric(n1, n2);
    }
}

fn ranks_before_exec(s1: u16, l1: u128, n1: &Vec<char>, s2: u16, l2: u128, n2: &Vec<char>) -> (r: bool)
    requires
        l1 == utf8_len(n1@),
        l2 == utf8_len(n2@),
    ensures
        r == ranks_before(s1, n1@, s2, n2@),
{
    if s1 != s2 {
        s1 > s2
    } else if l1 != l2 {
        l1 < l2
    } else {
        lex_less(n1, n2)
    }
}

/// Computes `entry_score` for one entry.
fn score_entry(e: &MediaEntry, q: &String, q_words: &Vec<Vec<char>>) -> (r: u16)
    requires
        q_words@.len() == words(q@).len(),
        forall|k: int| 0 <= k < q_words@.len() ==> #[trigger] q_words@[k]@ == words(q@)[k],
    ensures
        r == entry_score(*e, q@),
{
    let ghost names_s = entry_names(*e);
    let mut names: Vec<String> = Vec::new();
    names.push(normalize(e.name.as_str()));
    let mut k: usize = 0;
    while k < e.alternative_names.len()
        invariant
            k <= e.alternative_names@.len(),
            names@.len() == k + 1,
            forall|t: int| 0 <= t < names@.len() ==> #[trigger] names@[t]@ == names_s[t],
            names_s == entry_names(*e),
        decreases e.alternative_names@.len() - k,
    {
        names.push(normalize(e.alternative_names[k].as_str()));
        k = k + 1;
    }
    assert(names_s.len() == names@.len());
    let mut best: u16 = 0;
    let mut t: usize = 0;
    assert(names_s.take(0) =~= Seq::<Seq<char>>::empty());
    while t < names.len()
        invariant
            t <= names@.len(),
            names_s.len() == names@.len(),
            forall|u: int| 0 <= u < names@.len() ==> #[trigger] names@[u]@ == names_s[u],
            best == best_score(names_s.take(t as int), q@),
        decreases names@.len() - t,
    {
        let s = score_name(names[t].as_str(), q.as_str());
        assert(names_s.take(t + 1).drop_last() =~= names_s.take(t as int));
        assert(names_s.take(t + 1).last() == names_s[t as int]);
        if s > best {
            best = s;
        }
        t = t + 1;
    }
    assert(names_s.take(names@.len() as int) =~= names_s);
    if best > 0 {
        return best;
    }
    let d: Option<String> = match &e.description {
        Some(desc) => Some(normalize(desc.as_str())),
        None => None,
    };
    let ghost ds = description_norm(*e);
    assert(match d {
        Some(x) => ds == Some(x@),
        None => ds is None,
    });
    let qv = chars_of(q.as_str());
    if let Some(dd) = &d {
        let dv = chars_of(dd.as_str());
        if contains_exec(&dv, &qv) {
            return 450;
        }
    }
    let total = q_words.len();
    let mut hits: usize = 0;
    let mut w: usize = 0;
    let ghost qw = words(q@);
    assert(qw.take(0) =~= Seq::<Seq<char>>::empty());
    while w < total
        invariant
            total == q_words@.len(),
            q_words@.len() == qw.len(),
            qw == words(q@),
            forall|k: int| 0 <= k < q_words@.len() ==> #[trigger] q_words@[k]@ == qw[k],
            names_s.len() == names@.len(),
            forall|u: int| 0 <= u < names@.len() ==> #[trigger] names@[u]@ == names_s[u],
            names_s == entry_names(*e),
            ds == description_norm(*e),
            match d {
                Some(x) => ds == Some(x@),
                None => ds is None,
            },
            w <= total,
            hits <= w,
            hits == word_hits(qw.take(w as int), names_s, ds),
        decreases total - w,
    {
        let word_s = string_of(&q_words[w]);
        let mut hit = false;
        let mut u: usize = 0;
        while u < names.len()
            invariant
                u <= names@.len(),
                names_s.len() == names@.len(),
                forall|v: int| 0 <= v < names@.len() ==> #[trigger] names@[v]@ == names_s[v],
                word_s@ == qw[w as int],
                hit == exists|v: int| 0 <= v < u && fuzzy_match(qw[w as int], #[trigger] names_s[v]),
            decreases names@.len() - u,
        {
            if fuzzy_word_match(word_s.as_str(), names[u].as_str()) {
                hit = true;
            }
            u = u + 1;
        }
        if !hit {
            if let Some(dd) = &d {
                let dv = chars_of(dd.as_str());
                let wv = chars_of(word_s.as_str());
                if contains_exec(&dv, &wv) {
                    hit = true;
                }
            }
        }
        assert(hit == word_hit(qw[w as int], names_s, ds));
        assert(qw.take(w + 1).drop_last() =~= qw.take(w as int));
        assert(qw.take(w + 1).last() == qw[w as int]);
        if hit {
            hits = hits + 1;
        }
        w = w + 1;
    }
    assert(qw.take(total as int) =~= qw);
    let total16 = (total % 65536) as u16;
    let hits16 = (hits % 65536) as u16;
    if total16 > 0 {
        let prod = hits16.wrapping_mul(500);
        assert(prod as nat == (hits16 as nat * 500) % 0x1_0000);
        prod / total16
    } else {
        0
    }
}

/// Where an entry is inserted among ranked ones, looking from position
/// `k`: before the first it ranks strictly before, else at the end.
pub open spec fn insert_pos(out: Seq<MediaEntry>, e: MediaEntry, q: Seq<char>, k: int) -> int
    decreases out.len() - k,
{
    if k >= out.len() || k < 0 {
        out.len() as int
    } else if ranks_before(entry_score(e, q), e.name@, entry_score(out[k], q), out[k].name@) {
        k
    } else {
        insert_pos(out, e, q, k + 1)
    }
}

/// Entries ranked one by one in their order: each goes after every entry
/// already placed that it does not rank strictly before, so entries that
/// tie on score, name length and name keep their order.
pub open spec fn rank_seq(es: Seq<MediaEntry>, q: Seq<char>) -> Seq<MediaEntry>
    decreases es.len(),
{
    if es.len() == 0 {
        Seq::empty()
    } else {
        let out = rank_seq(es.drop_last(), q);
        out.insert(insert_pos(out, es.last(), q, 0), es.last())
    }
}

/// Ranking reads the query only in its normalized form: two queries with
/// the same normalized form rank the same entries in the same order.
pub proof fn law_same_normalized_query_same_ranking(es: Seq<MediaEntry>, q1: Seq<char>, q2: Seq<char>)
    requires
        normalized(q1) == normalized(q2),
    ensures
        rank_seq(es, normalized(q1)) == rank_seq(es, normalized(q2)),
{
}

/// Orders search results by relevance to the query: the result holds the
/// same entries, ranked by score (highest first), then by name length, then
/// by name; entries that tie on all three keep their order.
pub fn rank_results(entries: Vec<MediaEntry>, query: &str) -> (r: Vec<MediaEntry>)
    ensures
        r@ == rank_seq(entries@, normalized(query@)),
        r@.to_multiset() == entries@.to_multiset(),
        is_ranked(r@, normalized(query@)),
{
    let q = normalize(query);
    let qv = chars_of(q.as_str());
    let q_words = split_words(&qv);
    let ghost qs = q@;
    let ghost original = entries@;
    let ghost n = original.len();
    let mut src = entries;
    let mut rest: Vec<MediaEntry> = Vec::new();
    proof {
        broadcast use vstd::multiset::group_multiset_axioms;

        vstd::seq_lib::to_multiset_len(rest@);
        vstd::multiset::lemma_multiset_empty_len(rest@.to_multiset());
        assert(rest@.to_multiset() =~= Multiset::<MediaEntry>::empty());
        assert(src@.to_multiset().add(rest@.to_multiset()) =~= original.to_multiset());
        assert(src@ =~= original.take(src@.len() as int));
    }
    while src.len() > 0
        invariant
            n == original.len(),
            src@.len() + rest@.len() == n,
            src@ == original.take(src@.len() as int),
            forall|i: int| 0 <= i < rest@.len() ==> #[trigger] rest@[i] == original[n - 1 - i],
            src@.to_multiset().add(rest@.to_multiset()) == original.to_multiset(),
        decreases src@.len(),
    {
        let ghost src_before = src@;
        let ghost rest_before = rest@;
        let x = src.pop().unwrap();
        rest.push(x);
        proof {
            broadcast use vstd::multiset::group_multiset_axioms;

            assert(src_before == src@.push(x));
            assert(x == original[src@.len() as int]);
            vstd::seq_lib::to_multiset_build(src@, x);
            vstd::seq_lib::to_multiset_build(rest_before, x);
            assert(src@.to_multiset().add(rest@.to_multiset()) =~= original.to_multiset());
            assert(src@ =~= original.take(src@.len() as int));
            assert forall|i: int| 0 <= i < rest@.len() implies #[trigger] rest@[i] == original[n - 1 - i] by {
                if i < rest_before.len() {
                    assert(rest@[i] == rest_before[i]);
                }
            }
        }
    }
    proof {
        broadcast use vstd::multiset::group_multiset_axioms;

        vstd::seq_lib::to_multiset_len(src@);
        vstd::multiset::lemma_multiset_empty_len(src@.to_multiset());
        assert(src@.to_multiset() =~= Multiset::<MediaEntry>::empty());
        assert(rest@.to_multiset() =~= original.to_multiset());
    }
    let mut out: Vec<MediaEntry> = Vec::new();
    let mut scores: Vec<u16> = Vec::new();
    let mut lens: Vec<u128> = Vec::new();
    let mut names: Vec<Vec<char>> = Vec::new();
    proof {
        broadcast use vstd::multiset::group_multiset_axioms;

        vstd::seq_lib::to_multiset_len(out@);
        vstd::multiset::lemma_multiset_empty_len(out@.to_multiset());
        assert(out@.to_multiset() =~= Multiset::<MediaEntry>::empty());
        assert(out@.to_multiset().add(rest@.to_multiset()) =~= original.to_multiset());
        assert(original.take(0) =~= Seq::<MediaEntry>::empty());
        assert(out@ == rank_seq(original.take(0), qs));
    }
    while rest.len() > 0
        invariant
            qs == q@,
            qs == normalized(query@),
            q_words@.len() == words(q@).len(),
            forall|k: int| 0 <= k < q_words@.len() ==> #[trigger] q_words@[k]@ == words(q@)[k],
            out@.to_multiset().add(rest@.to_multiset()) == original.to_multiset(),
            n == original.len(),
            rest@.len() <= n,
            forall|i: int| 0 <= i < rest@.len() ==> #[trigger] rest@[i] == original[n - 1 - i],
            out@ == rank_seq(original.take(n - rest@.len()), qs),
            scores@.len() == out@.len(),
            lens@.len() == out@.len(),
            names@.len() == out@.len(),
            forall|k: int| 0 <= k < out@.len() ==> #[trigger] scores@[k] == entry_score(out@[k], qs),
            forall|k: int| 0 <= k < out@.len() ==> #[trigger] lens@[k] == utf8_len(out@[k].name@),
            forall|k: int| 0 <= k < out@.len() ==> #[trigger] names@[k]@ == out@[k].name@,
            is_ranked(out@, qs),
        decreases rest@.len(),
    {
        let ghost rest_before = rest@;
        let ghost m = n - rest_before.len();
        let e = rest.pop().unwrap();
        proof {
            assert(rest_before == rest@.push(e));
            vstd::seq_lib::to_multiset_build(rest@, e);
            assert(e == rest_before[rest_before.len() - 1]);
            assert(e == original[m]);
            assert forall|i: int| 0 <= i < rest@.len() implies #[trigger] rest@[i] == original[n - 1 - i] by {
                assert(rest@[i] == rest_before[i]);
            }
            assert(original.take(m + 1).drop_last() =~= original.take(m));
            assert(original.take(m + 1).last() == e);
        }
        let s = score_entry(&e, &q, &q_words);
        let nv = chars_of(e.name.as_str());
        let l = utf8_len_of(nv.as_slice());
        let mut pos: usize = 0;
        while pos < out.len() && !ranks_before_exec(s, l, &nv, scores[pos], lens[pos], &names[pos])
            invariant
                l == utf8_len(nv@),
                pos <= out@.len(),
                scores@.len() == out@.len(),
                lens@.len() == out@.len(),
                names@.len() == out@.len(),
                forall|k: int| 0 <= k < out@.len() ==> #[trigger] lens@[k] == utf8_len(out@[k].name@),
                forall|k: int| 0 <= k < out@.len() ==> #[trigger] names@[k]@ == out@[k].name@,
                forall|k: int|
                    0 <= k < pos ==> !ranks_before(s, nv@, #[trigger] scores@[k], names@[k]@),
                forall|k: int| 0 <= k < out@.len() ==> #[trigger] scores@[k] == entry_score(out@[k], qs),
                s == entry_score(e, qs),
                nv@ == e.name@,
                insert_pos(out@, e, qs, 0) == insert_pos(out@, e, qs, pos as int),
            decreases out@.len() - pos,
        {
            assert(scores@[pos as int] == entry_score(out@[pos as int], qs));
            pos = pos + 1;
        }
        proof {
            if pos < out@.len() {
                assert(scores@[pos as int] == entry_score(out@[pos as int], qs));
            }
            assert(insert_pos(out@, e, qs, 0) == pos);
        }
        let ghost old_out = out@;
        let ghost old_scores = scores@;
        let ghost old_lens = lens@;
        let ghost old_names = names@;
        proof {
            vstd::seq_lib::to_multiset_insert(out@, pos as int, e);
        }
        out.insert(pos, e);
        scores.insert(pos, s);
        lens.insert(pos, l);
        names.insert(pos, nv);
        proof {
            broadcast use vstd::multiset::group_multiset_axioms;

            assert(out@.to_multiset().add(rest@.to_multiset()) =~= original.to_multiset());
            assert forall|k: int| 0 <= k < out@.len() implies #[trigger] scores@[k] == entry_score(
                out@[k],
                qs,
            ) && lens@[k] == utf8_len(out@[k].name@) && names@[k]@ == out@[k].name@ by {
                if k < pos {
                    assert(out@[k] == old_out[k] && scores@[k] == old_scores[k] && lens@[k]
                        == old_lens[k] && names@[k] == old_names[k]);
                } else if k > pos {
                    assert(out@[k] == old_out[k - 1] && scores@[k] == old_scores[k - 1]
                        && lens@[k] == old_lens[k - 1] && names@[k] == old_names[k - 1]);
                }
            }
            assert forall|i: int, j: int| 0 <= i < j < out@.len() implies !ranks_before(
                entry_score(#[trigger] out@[j], qs),
                out@[j].name@,
                entry_score(#[trigger] out@[i], qs),
                out@[i].name@,
            ) by {
                if j < pos {
                    assert(out@[i] == old_out[i] && out@[j] == old_out[j]);
                } else if j == pos {
                    assert(out@[i] == old_out[i]);
                    assert(old_scores[i] == entry_score(old_out[i], qs));
                } else if i > pos {
                    assert(out@[i] == old_out[i - 1] && out@[j] == old_out[j - 1]);
                } else if i == pos {
                    assert(out@[j] == old_out[j - 1]);
                    let sj = entry_score(old_out[j - 1], qs);
                    let nj = old_out[j - 1].name@;
                    let sp = entry_score(old_out[pos as int], qs);
                    let np = old_out[pos as int].name@;
                    assert(ranks_before(s, nv@, sp, np));
                    if ranks_before(sj, nj, s, nv@) {
                        if j - 1 > pos {
                            lemma_ranks_before_transitive(sj, nj, s, nv@, sp, np);
                        } else {
                            lemma_ranks_before_asymmetric(sj, nj, s, nv@);
                        }
                    }
                } else {
                    assert(out@[i] == old_out[i] && out@[j] == old_out[j - 1]);
                }
            }
        }
    }
    proof {
        broadcast use vstd::multiset::group_multiset_axioms;

        vstd::seq_lib::to_multiset_len(rest@);
        vstd::multiset::lemma_multiset_empty_len(rest@.to_multiset());
        assert(rest@.to_multiset() =~= Multiset::<MediaEntry>::empty());
        assert(out@.to_multiset().add(rest@.to_multiset()) =~= out@.to_multiset());
        assert(original.take(n as int) =~= original);
    }
    out
}

} // verus!
