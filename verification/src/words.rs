//! How free text is cut into words: query terms, comma-separated lists,
//! topics, and the tokens behind the deterministic embedding.
use crate::platform::{blake3_digest, blake3_hash};
use crate::text::{
    char_utf8_len, chars_of, first_parts, first_strings, join, join_strings, keep_where,
    lemma_string_views_push, lowercase, map_parts, nonempty, nonempty_strings, pieces,
    split_pieces, string_of, string_views, strings_of, to_lowercase, trim, trim_chars, utf8_len, views,
    Separator, lemma_keep_where, lemma_pieces_free, lemma_pieces_join_commas, lemma_trim_clean,
};
use vstd::prelude::*;
use vstd::utf8::encode_utf8;

verus! {

/// A prefix never has a longer UTF-8 encoding than the whole.
pub proof fn lemma_utf8_len_prefix(s: Seq<char>, k: int)
    requires
        0 <= k <= s.len(),
    ensures
        utf8_len(s.take(k)) <= utf8_len(s),
    decreases s.len(),
{
    if k < s.len() {
        assert(s.drop_last().take(k) == s.take(k));
        lemma_utf8_len_prefix(s.drop_last(), k);
    } else {
        assert(s.take(k) == s);
    }
}

/// Whether the UTF-8 encoding of the characters is longer than `k` bytes,
/// as `str::len() > k` tests it.
pub fn utf8_longer_than(s: &Vec<char>, k: usize) -> (r: bool)
    ensures
        r == (utf8_len(s@) > k),
{
    let mut n: usize = 0;
    let mut i: usize = 0;
    while i < s.len()
        invariant
            i <= s.len(),
            n == utf8_len(s@.take(i as int)),
            n <= k,
        decreases s.len() - i,
    {
        let code = s[i] as u32;
        let w: usize = if code < 0x80 {
            1
        } else if code < 0x800 {
            2
        } else if code < 0x10000 {
            3
        } else {
            4
        };
        assert(s@.take(i + 1 as int).drop_last() == s@.take(i as int));
        assert(w == char_utf8_len(s@[i as int]));
        if w > k - n {
            proof {
                lemma_utf8_len_prefix(s@, i + 1);
            }
            return true;
        }
        n = n + w;
        i = i + 1;
    }
    assert(s@.take(s.len() as int) == s@);
    false
}

/// The search terms of a text: its lower-case form cut at every character
/// that is not alphanumeric, keeping the pieces longer than one byte.
pub open spec fn terms_of(text: Seq<char>) -> Seq<Seq<char>> {
    keep_where(
        pieces(lowercase(text), Separator::NonAlphanumeric),
        |p: Seq<char>| utf8_len(p) > 1,
    )
}

/// The search terms of a text.
pub fn terms(text: &str) -> (r: Vec<String>)
    ensures
        string_views(r@) == terms_of(text@),
{
    let lower = to_lowercase(text);
    let cs = chars_of(lower.as_str());
    let parts = split_pieces(&cs, Separator::NonAlphanumeric);
    let mut r: Vec<String> = Vec::new();
    let mut i: usize = 0;
    while i < parts.len()
        invariant
            i <= parts.len(),
            views(parts@) == pieces(lowercase(text@), Separator::NonAlphanumeric),
            string_views(r@) == keep_where(
                views(parts@).take(i as int),
                |p: Seq<char>| utf8_len(p) > 1,
            ),
        decreases parts.len() - i,
    {
        assert(views(parts@).take(i + 1 as int).drop_last() == views(parts@).take(i as int));
        assert(views(parts@).take(i + 1 as int).last() == parts@[i as int]@);
        if utf8_longer_than(&parts[i], 1) {
            let ghost prev = r@;
            let s = string_of(&parts[i]);
            r.push(s);
            proof {
                lemma_string_views_push(prev, s);
            }
        }
        i = i + 1;
    }
    assert(views(parts@).take(parts.len() as int) == views(parts@));
    r
}

/// The items of a comma-separated list: the pieces between commas, trimmed,
/// without the empty ones.
pub open spec fn csv_items(value: Seq<char>) -> Seq<Seq<char>> {
    nonempty(map_parts(pieces(value, Separator::Comma), |p: Seq<char>| trim(p)))
}

/// Splits a comma-separated list.
pub fn split_csv(value: &str) -> (r: Vec<String>)
    ensures
        string_views(r@) == csv_items(value@),
{
    let cs = chars_of(value);
    let parts = split_pieces(&cs, Separator::Comma);
    let ghost trimmed = map_parts(views(parts@), |p: Seq<char>| trim(p));
    let mut r: Vec<String> = Vec::new();
    let mut i: usize = 0;
    while i < parts.len()
        invariant
            i <= parts.len(),
            views(parts@) == pieces(value@, Separator::Comma),
            trimmed == map_parts(views(parts@), |p: Seq<char>| trim(p)),
            string_views(r@) == nonempty(trimmed.take(i as int)),
        decreases parts.len() - i,
    {
        assert(trimmed.take(i + 1 as int).drop_last() == trimmed.take(i as int));
        let t = trim_chars(&parts[i]);
        assert(trimmed.take(i + 1 as int).last() == t@);
        if t.len() > 0 {
            let ghost prev = r@;
            let s = string_of(&t);
            r.push(s);
            proof {
                lemma_string_views_push(prev, s);
            }
        }
        i = i + 1;
    }
    assert(trimmed.take(parts.len() as int) == trimmed);
    r
}

/// Every item of a comma-separated list is non-empty, has no comma, and
/// is its own trim.
pub proof fn law_csv_items_clean(value: Seq<char>)
    ensures
        forall|i: int|
            0 <= i < csv_items(value).len() ==> {
                let item = #[trigger] csv_items(value)[i];
                &&& item.len() > 0
                &&& trim(item) == item
                &&& forall|j: int| 0 <= j < item.len() ==> item[j] != ','
            },
{
    let p = pieces(value, Separator::Comma);
    let m = map_parts(p, |q: Seq<char>| trim(q));
    lemma_keep_where(m, |q: Seq<char>| q.len() > 0);
    lemma_pieces_free(value, Separator::Comma);
    assert forall|i: int| 0 <= i < csv_items(value).len() implies {
        let item = #[trigger] csv_items(value)[i];
        &&& item.len() > 0
        &&& trim(item) == item
        &&& forall|j: int| 0 <= j < item.len() ==> item[j] != ','
    } by {
        let item = csv_items(value)[i];
        let k = choose|k: int| 0 <= k < m.len() && m[k] == item;
        lemma_trim_clean(p[k]);
        assert(m[k] == trim(p[k]));
        assert forall|j: int| 0 <= j < item.len() implies item[j] != ',' by {
            assert(p[k].contains(trim(p[k])[j]));
            let x = choose|x: int| 0 <= x < p[k].len() && p[k][x] == trim(p[k])[j];
            assert(!crate::text::separates(Separator::Comma, p[k][x]));
        }
    }
}

/// Joining non-empty, trimmed, comma-free items with commas and splitting
/// the result gives the items back.
pub proof fn law_csv_round_trip(items: Seq<Seq<char>>)
    requires
        forall|i: int|
            0 <= i < items.len() ==> {
                let t = #[trigger] items[i];
                &&& t.len() > 0
                &&& trim(t) == t
                &&& forall|j: int| 0 <= j < t.len() ==> t[j] != ','
            },
    ensures
        csv_items(join(items, ","@)) == items,
{
    if items.len() == 0 {
        let e = Seq::<char>::empty();
        assert(join(items, ","@) == e);
        assert(pieces(e, Separator::Comma) == seq![e]);
        assert(trim(e) == e);
        let m = map_parts(pieces(e, Separator::Comma), |p: Seq<char>| trim(p));
        assert(m =~= seq![e]);
        assert(m.drop_last() =~= Seq::<Seq<char>>::empty());
        assert(nonempty(m.drop_last()) == Seq::<Seq<char>>::empty());
        assert(nonempty(m) == Seq::<Seq<char>>::empty());
    } else {
        assert forall|k: int, j: int| 0 <= k < items.len() && 0 <= j < items[k].len() implies #[trigger] items[k][j] != ',' by {
            assert(items[k].len() > 0);
        }
        lemma_pieces_join_commas(items);
        let m = map_parts(items, |q: Seq<char>| trim(q));
        assert(m =~= items);
        lemma_keep_where(items, |q: Seq<char>| q.len() > 0);
    }
}

/// The topic guessed from a text: its first eight whitespace-separated
/// words, joined by single spaces.
pub open spec fn inferred_topic(text: Seq<char>) -> Seq<char> {
    join(first_parts(nonempty(pieces(text, Separator::Whitespace)), 8), " "@)
}

/// Guesses a topic from a text.
pub fn infer_topic(text: &str) -> (r: String)
    ensures
        r@ == inferred_topic(text@),
{
    let cs = chars_of(text);
    let parts = split_pieces(&cs, Separator::Whitespace);
    let words = nonempty_strings(&parts);
    let first = first_strings(&words, 8);
    join_strings(&first, " ")
}

/// The tokens of the deterministic embedding: the non-empty pieces of the
/// text between characters that are not alphanumeric, each in lower case.
pub open spec fn embedding_tokens(text: Seq<char>) -> Seq<Seq<char>> {
    map_parts(nonempty(pieces(text, Separator::NonAlphanumeric)), |p: Seq<char>| lowercase(p))
}

/// Embedding tokens ignore letter case: there is one token for each word
/// of the text (each non-empty run of alphanumeric characters), and two
/// texts whose words agree once lower-cased, word by word, get the same
/// tokens, and so the same digests.
pub proof fn law_embedding_tokens_ignore_case(a: Seq<char>, b: Seq<char>)
    ensures
        embedding_tokens(a).len() == nonempty(pieces(a, Separator::NonAlphanumeric)).len(),
        ({
            let wa = nonempty(pieces(a, Separator::NonAlphanumeric));
            let wb = nonempty(pieces(b, Separator::NonAlphanumeric));
            wa.len() == wb.len() && (forall|k: int|
                0 <= k < wa.len() ==> lowercase(#[trigger] wa[k]) == lowercase(wb[k]))
                ==> embedding_tokens(a) == embedding_tokens(b)
        }),
{
    let wa = nonempty(pieces(a, Separator::NonAlphanumeric));
    let wb = nonempty(pieces(b, Separator::NonAlphanumeric));
    if wa.len() == wb.len() && (forall|k: int|
        0 <= k < wa.len() ==> lowercase(#[trigger] wa[k]) == lowercase(wb[k])) {
        assert(embedding_tokens(a) =~= embedding_tokens(b));
    }
}

/// The BLAKE3 digest of each embedding token's UTF-8 bytes, in order.
pub fn embedding_token_digests(text: &str) -> (r: Vec<Vec<u8>>)
    ensures
        r@.len() == embedding_tokens(text@).len(),
        forall|i: int|
            0 <= i < r@.len() ==> (#[trigger] r@[i])@ == blake3_digest(
                encode_utf8(embedding_tokens(text@)[i]),
            ),
{
    let cs = chars_of(text);
    let parts = split_pieces(&cs, Separator::NonAlphanumeric);
    let words = nonempty_strings(&parts);
    let ghost tokens = embedding_tokens(text@);
    assert(string_views(words@) == nonempty(pieces(text@, Separator::NonAlphanumeric)));
    let mut r: Vec<Vec<u8>> = Vec::new();
    let mut i: usize = 0;
    while i < words.len()
        invariant
            i <= words.len(),
            tokens == embedding_tokens(text@),
            tokens.len() == words@.len(),
            forall|k: int| 0 <= k < words@.len() ==> tokens[k] == lowercase(#[trigger] words@[k]@),
            r@.len() == i,
            forall|k: int|
                0 <= k < i ==> (#[trigger] r@[k])@ == blake3_digest(encode_utf8(tokens[k])),
        decreases words.len() - i,
    {
        let lower = to_lowercase(words[i].as_str());
        let digest = blake3_hash(lower.as_str().as_bytes());
        r.push(digest);
        i = i + 1;
    }
    r
}

// ---------------------------------------------------------------------------
// Keywords
// ---------------------------------------------------------------------------
/// Code-point order on strings, the order of `String`'s `Ord` (UTF-8 keeps
/// the order of code points).
pub open spec fn char_seq_lt(a: Seq<char>, b: Seq<char>) -> bool
    decreases a.len(),
{
    if a.len() == 0 {
        b.len() > 0
    } else if b.len() == 0 {
        false
    } else if a[0] < b[0] {
        true
    } else if a[0] > b[0] {
        false
    } else {
        char_seq_lt(a.drop_first(), b.drop_first())
    }
}

/// No string comes before itself.
pub proof fn lemma_char_seq_lt_irreflexive(a: Seq<char>)
    ensures
        !char_seq_lt(a, a),
    decreases a.len(),
{
    if a.len() > 0 {
        lemma_char_seq_lt_irreflexive(a.drop_first());
    }
}

/// Two strings are ordered one way, the other way, or equal, and never
/// both ways.
pub proof fn lemma_char_seq_lt_total(a: Seq<char>, b: Seq<char>)
    ensures
        !(char_seq_lt(a, b) && char_seq_lt(b, a)),
        a != b ==> (char_seq_lt(a, b) || char_seq_lt(b, a)),
        !char_seq_lt(a, a),
    decreases a.len(),
{
    lemma_char_seq_lt_irreflexive(a);
    if a.len() > 0 && b.len() > 0 {
        lemma_char_seq_lt_total(a.drop_first(), b.drop_first());
        if a[0] == b[0] && a.drop_first() == b.drop_first() {
            assert(a == seq![a[0]] + a.drop_first());
            assert(b == seq![b[0]] + b.drop_first());
        }
    } else if a.len() == 0 && b.len() == 0 {
        assert(a == b);
    }
}

/// The order is transitive.
pub proof fn lemma_char_seq_lt_trans(a: Seq<char>, b: Seq<char>, c: Seq<char>)
    requires
        char_seq_lt(a, b),
        char_seq_lt(b, c),
    ensures
        char_seq_lt(a, c),
    decreases a.len(),
{
    if a.len() > 0 && b.len() > 0 && c.len() > 0 {
        if a[0] == b[0] && b[0] == c[0] {
            lemma_char_seq_lt_trans(a.drop_first(), b.drop_first(), c.drop_first());
        }
    }
}

/// Whether `a` comes before `b` in code-point order.
pub fn chars_lt(a: &Vec<char>, b: &Vec<char>) -> (r: bool)
    ensures
        r == char_seq_lt(a@, b@),
{
    let mut i: usize = 0;
    assert(a@.skip(0) == a@ && b@.skip(0) == b@);
    while i < a.len() && i < b.len() && a[i] == b[i]
        invariant
            i <= a.len(),
            i <= b.len(),
            char_seq_lt(a@, b@) == char_seq_lt(a@.skip(i as int), b@.skip(i as int)),
        decreases a.len() - i,
    {
        assert(a@.skip(i as int).drop_first() == a@.skip(i + 1));
        assert(b@.skip(i as int).drop_first() == b@.skip(i + 1));
        i = i + 1;
    }
    if i == a.len() {
        i < b.len()
    } else if i == b.len() {
        false
    } else {
        a[i] < b[i]
    }
}

/// A sorted list of distinct strings with `w` added in its place (left
/// unchanged when `w` is already there), as inserting into a `BTreeSet`.
pub open spec fn insert_sorted(set: Seq<Seq<char>>, w: Seq<char>) -> Seq<Seq<char>>
    decreases set.len(),
{
    if set.len() == 0 {
        seq![w]
    } else if set[0] == w {
        set
    } else if char_seq_lt(w, set[0]) {
        seq![w] + set
    } else {
        seq![set[0]] + insert_sorted(set.drop_first(), w)
    }
}

/// Inserting behind elements that all come first keeps them in front.
pub proof fn lemma_insert_sorted_skip(set: Seq<Seq<char>>, w: Seq<char>, i: int)
    requires
        0 <= i <= set.len(),
        forall|k: int| 0 <= k < i ==> char_seq_lt(#[trigger] set[k], w),
    ensures
        insert_sorted(set, w) == set.take(i) + insert_sorted(set.skip(i), w),
    decreases i,
{
    if i == 0 {
        assert(set.take(0) + insert_sorted(set.skip(0), w) == insert_sorted(set, w)) by {
            assert(set.skip(0) == set);
        }
    } else {
        lemma_char_seq_lt_total(set[0], w);
        assert(set[0] != w);
        assert(!char_seq_lt(w, set[0]));
        let rest = set.drop_first();
        assert forall|k: int| 0 <= k < i - 1 implies char_seq_lt(#[trigger] rest[k], w) by {
            assert(rest[k] == set[k + 1]);
        }
        lemma_insert_sorted_skip(rest, w, i - 1);
        assert(rest.skip(i - 1) == set.skip(i));
        assert(seq![set[0]] + rest.take(i - 1) == set.take(i));
    }
}

/// Strictly increasing.
pub open spec fn sorted_strictly(set: Seq<Seq<char>>) -> bool {
    forall|i: int, j: int| 0 <= i < j < set.len() ==> char_seq_lt(#[trigger] set[i], #[trigger] set[j])
}

/// Inserting keeps a list strictly increasing.
pub proof fn lemma_insert_sorted_sorted(set: Seq<Seq<char>>, w: Seq<char>)
    requires
        sorted_strictly(set),
    ensures
        sorted_strictly(insert_sorted(set, w)),
        forall|x: Seq<char>|
            #[trigger] insert_sorted(set, w).contains(x) <==> (set.contains(x) || x == w),
    decreases set.len(),
{
    let r = insert_sorted(set, w);
    if set.len() == 0 {
        assert(r == seq![w]);
        assert forall|x: Seq<char>| r.contains(x) <==> (set.contains(x) || x == w) by {
            if r.contains(x) {
                assert(r[0] == w);
            }
            if x == w {
                assert(r[0] == x);
            }
        }
    } else if set[0] == w {
        assert forall|x: Seq<char>| r.contains(x) <==> (set.contains(x) || x == w) by {
            if x == w {
                assert(set[0] == x);
            }
        }
    } else if char_seq_lt(w, set[0]) {
        assert forall|i: int, j: int| 0 <= i < j < r.len() implies char_seq_lt(
            #[trigger] r[i],
            #[trigger] r[j],
        ) by {
            if i == 0 {
                if j > 1 {
                    lemma_char_seq_lt_trans(w, set[0], set[j - 1]);
                }
            } else {
                assert(r[i] == set[i - 1] && r[j] == set[j - 1]);
            }
        }
        assert forall|x: Seq<char>| r.contains(x) <==> (set.contains(x) || x == w) by {
            if r.contains(x) {
                let k = choose|k: int| 0 <= k < r.len() && r[k] == x;
                if k > 0 {
                    assert(set[k - 1] == x);
                }
            }
            if set.contains(x) {
                let k = choose|k: int| 0 <= k < set.len() && set[k] == x;
                assert(r[k + 1] == x);
            }
            if x == w {
                assert(r[0] == x);
            }
        }
    } else {
        let rest = set.drop_first();
        assert(sorted_strictly(rest)) by {
            assert forall|i: int, j: int| 0 <= i < j < rest.len() implies char_seq_lt(
                #[trigger] rest[i],
                #[trigger] rest[j],
            ) by {
                assert(rest[i] == set[i + 1] && rest[j] == set[j + 1]);
            }
        }
        lemma_insert_sorted_sorted(rest, w);
        let tail = insert_sorted(rest, w);
        assert(r == seq![set[0]] + tail);
        lemma_char_seq_lt_total(set[0], w);
        assert forall|k: int| 0 <= k < tail.len() implies char_seq_lt(set[0], #[trigger] tail[k]) by {
            assert(tail.contains(tail[k]));
            if tail[k] == w {
            } else {
                assert(rest.contains(tail[k]));
                let m = choose|m: int| 0 <= m < rest.len() && rest[m] == tail[k];
                assert(set[m + 1] == tail[k]);
            }
        }
        assert forall|i: int, j: int| 0 <= i < j < r.len() implies char_seq_lt(
            #[trigger] r[i],
            #[trigger] r[j],
        ) by {
            if i == 0 {
                assert(r[j] == tail[j - 1]);
            } else {
                assert(r[i] == tail[i - 1] && r[j] == tail[j - 1]);
            }
        }
        assert forall|x: Seq<char>| r.contains(x) <==> (set.contains(x) || x == w) by {
            if r.contains(x) {
                let k = choose|k: int| 0 <= k < r.len() && r[k] == x;
                if k > 0 {
                    assert(0 <= k - 1 < tail.len());
                    assert(tail[k - 1] == x);
                    assert(tail.contains(x));
                    if rest.contains(x) {
                        let m = choose|m: int| 0 <= m < rest.len() && rest[m] == x;
                        assert(set[m + 1] == x);
                    }
                } else {
                    assert(set[0] == x);
                }
            }
            if set.contains(x) {
                let k = choose|k: int| 0 <= k < set.len() && set[k] == x;
                if k == 0 {
                    assert(r[0] == x);
                } else {
                    assert(rest[k - 1] == x);
                    assert(tail.contains(x));
                    let m = choose|m: int| 0 <= m < tail.len() && tail[m] == x;
                    assert(r[m + 1] == x);
                }
            }
            if x == w {
                assert(insert_sorted(rest, w).contains(w));
                assert(tail.contains(x));
                let m = choose|m: int| 0 <= m < tail.len() && tail[m] == x;
                assert(r[m + 1] == x);
            }
        }
    }
}

/// The keyword set built from a list of words: each word longer than two
/// bytes goes in, and collection stops as soon as the set holds twelve.
pub open spec fn collect_keywords(words: Seq<Seq<char>>, acc: Seq<Seq<char>>) -> Seq<Seq<char>>
    decreases words.len(),
{
    if words.len() == 0 {
        acc
    } else {
        let next = if utf8_len(words[0]) > 2 {
            insert_sorted(acc, words[0])
        } else {
            acc
        };
        if next.len() >= 12 {
            next
        } else {
            collect_keywords(words.drop_first(), next)
        }
    }
}

/// The keywords of a text, in code-point order: the distinct words of its
/// lower-case form (cut at every character that is not alphanumeric) that
/// are longer than two bytes, collected until twelve are found.
pub open spec fn keywords_of(text: Seq<char>) -> Seq<Seq<char>> {
    collect_keywords(pieces(lowercase(text), Separator::NonAlphanumeric), Seq::empty())
}

proof fn lemma_insert_sorted_len(set: Seq<Seq<char>>, w: Seq<char>)
    ensures
        insert_sorted(set, w).len() <= set.len() + 1,
    decreases set.len(),
{
    if set.len() > 0 && set[0] != w && !char_seq_lt(w, set[0]) {
        lemma_insert_sorted_len(set.drop_first(), w);
    }
}

/// Collecting keywords into a strictly increasing list of fewer than
/// twelve keeps it strictly increasing and stops at twelve.
pub proof fn lemma_collect_keywords_sorted(words: Seq<Seq<char>>, acc: Seq<Seq<char>>)
    requires
        sorted_strictly(acc),
        acc.len() < 12,
    ensures
        sorted_strictly(collect_keywords(words, acc)),
        collect_keywords(words, acc).len() <= 12,
    decreases words.len(),
{
    if words.len() > 0 {
        lemma_insert_sorted_len(acc, words[0]);
    }
    if words.len() > 0 {
        if utf8_len(words[0]) > 2 {
            lemma_insert_sorted_sorted(acc, words[0]);
        }
        let next = if utf8_len(words[0]) > 2 {
            insert_sorted(acc, words[0])
        } else {
            acc
        };
        if next.len() < 12 {
            lemma_collect_keywords_sorted(words.drop_first(), next);
        }
    }
}

/// The keywords of a text come out in strictly increasing order, as a
/// `BTreeSet` yields them, so none repeats, and there are at most twelve.
pub proof fn law_keywords_sorted(text: Seq<char>)
    ensures
        sorted_strictly(keywords_of(text)),
        keywords_of(text).len() <= 12,
{
    lemma_collect_keywords_sorted(
        pieces(lowercase(text), Separator::NonAlphanumeric),
        Seq::empty(),
    );
}

/// Adds a word to a strictly increasing list in its place.
fn insert_word(set: &mut Vec<Vec<char>>, w: Vec<char>)
    ensures
        views(final(set)@) == insert_sorted(views(old(set)@), w@),
{
    let ghost before = views(set@);
    let mut i: usize = 0;
    while i < set.len() && chars_lt(&set[i], &w)
        invariant
            i <= set.len(),
            before == views(set@),
            forall|k: int| 0 <= k < i ==> char_seq_lt(#[trigger] before[k], w@),
        decreases set.len() - i,
    {
        i = i + 1;
    }
    proof {
        lemma_insert_sorted_skip(before, w@, i as int);
    }
    if i < set.len() {
        let same = crate::protocol::chars_equal(&set[i], &w);
        assert(before.skip(i as int)[0] == before[i as int]);
        assert(before.skip(i as int).drop_first() == before.skip(i + 1));
        if same {
            assert(before.take(i as int) + before.skip(i as int) == before);
            return;
        }
        proof {
            lemma_char_seq_lt_total(before[i as int], w@);
        }
        let ghost vw = w@;
        set.insert(i, w);
        assert(views(set@) =~= before.take(i as int) + (seq![vw] + before.skip(i as int)));
    } else {
        let ghost vw = w@;
        set.push(w);
        assert(before.skip(i as int) == Seq::<Seq<char>>::empty());
        assert(views(set@) =~= before.take(i as int) + seq![vw]);
    }
}

/// The keywords of a text, in code-point order, at most twelve.
pub fn keywords(text: &str) -> (r: Vec<String>)
    ensures
        string_views(r@) == keywords_of(text@),
{
    let lower = to_lowercase(text);
    let cs = chars_of(lower.as_str());
    let parts = split_pieces(&cs, Separator::NonAlphanumeric);
    let ghost words = views(parts@);
    let mut acc: Vec<Vec<char>> = Vec::new();
    let mut i: usize = 0;
    assert(words.skip(0) == words);
    assert(views(acc@) =~= Seq::<Seq<char>>::empty());
    while i < parts.len()
        invariant
            i <= parts.len(),
            words == views(parts@),
            words == pieces(lowercase(text@), Separator::NonAlphanumeric),
            keywords_of(text@) == collect_keywords(words.skip(i as int), views(acc@)),
            views(acc@).len() < 12,
        decreases parts.len() - i,
    {
        assert(words.skip(i as int)[0] == parts@[i as int]@);
        assert(words.skip(i as int).drop_first() == words.skip(i + 1));
        if utf8_longer_than(&parts[i], 2) {
            let w = parts[i].clone();
            insert_word(&mut acc, w);
        }
        if acc.len() >= 12 {
            return strings_of(&acc);
        }
        i = i + 1;
    }
    assert(words.skip(parts.len() as int).len() == 0);
    strings_of(&acc)
}

} // verus!
