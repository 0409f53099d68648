//! Character-level helpers: building strings, decimal numerals, and the
//! splitting rules that the agents apply to free text.
use vstd::prelude::*;
use vstd::std_specs::iter::IteratorSpec;
use vstd::string::*;

verus! {

broadcast use vstd::string::group_string_axioms;

// ---------------------------------------------------------------------------
// Building strings
// ---------------------------------------------------------------------------
/// Appends one character to a string (`String::push`).
#[verifier::external_body]
pub(crate) fn push_char(s: &mut String, c: char)
    ensures
        final(s)@ == old(s)@.push(c),
{
    s.push(c);
}

/// Appends a string slice.
pub(crate) fn push_str(s: &mut String, t: &str)
    ensures
        final(s)@ == old(s)@ + t@,
{
    s.append(t);
}

/// The characters of a string slice, in order.
pub fn chars_of(s: &str) -> (v: Vec<char>)
    ensures
        v@ == s@,
{
    let mut v: Vec<char> = Vec::new();
    for c in it: s.chars()
        invariant
            it.seq() == s@,
            v@ == s@.take(it.index() as int),
    {
        v.push(c);
    }
    v
}

/// A string made of the given characters.
pub fn string_of(chars: &Vec<char>) -> (s: String)
    ensures
        s@ == chars@,
{
    let mut s = String::new();
    let mut i: usize = 0;
    while i < chars.len()
        invariant
            i <= chars.len(),
            s@ == chars@.take(i as int),
        decreases chars.len() - i,
    {
        push_char(&mut s, chars[i]);
        i = i + 1;
        assert(chars@.take(i as int) == chars@.take(i - 1 as int).push(chars@[i - 1]));
    }
    assert(chars@.take(chars.len() as int) == chars@);
    s
}

// ---------------------------------------------------------------------------
// Decimal numerals
// ---------------------------------------------------------------------------
/// The ASCII digit for `d` (`0 <= d < 10`).
pub open spec fn digit_char(d: nat) -> char {
    (48 + d) as char
}

/// The decimal numeral of `n`, as `Display` prints an unsigned integer.
pub open spec fn decimal(n: nat) -> Seq<char>
    decreases n,
{
    if n < 10 {
        seq![digit_char(n)]
    } else {
        decimal(n / 10).push(digit_char(n % 10))
    }
}

/// A non-negative number of hundredths printed with two decimals
/// (`{:.2}`), e.g. 7500 as `75.00`.
pub open spec fn fixed2(h: nat) -> Seq<char> {
    decimal(h / 100) + seq!['.', digit_char((h / 10) % 10), digit_char(h % 10)]
}

/// A signed number of hundredths printed with two decimals; `negative`
/// puts a minus sign in front.
pub open spec fn signed_fixed2(negative: bool, h: nat) -> Seq<char> {
    if negative {
        seq!['-'] + fixed2(h)
    } else {
        fixed2(h)
    }
}

fn digit(d: u128) -> (c: char)
    requires
        d < 10,
    ensures
        c == digit_char(d as nat),
{
    let b: u8 = 48u8 + (d as u8);
    b as char
}

/// Appends the decimal numeral of `n`.
pub(crate) fn push_decimal(s: &mut String, n: u128)
    ensures
        final(s)@ == old(s)@ + decimal(n as nat),
    decreases n,
{
    if n >= 10 {
        push_decimal(s, n / 10);
    }
    push_char(s, digit(n % 10));
}

/// The decimal numeral of `n` as a new string.
pub fn decimal_string(n: u128) -> (s: String)
    ensures
        s@ == decimal(n as nat),
{
    let mut s = String::new();
    push_decimal(&mut s, n);
    s
}

/// Appends `h` hundredths with two decimals, and a minus sign when
/// `negative`.
pub(crate) fn push_signed_fixed2(s: &mut String, negative: bool, h: u128)
    ensures
        final(s)@ == old(s)@ + signed_fixed2(negative, h as nat),
{
    if negative {
        push_char(s, '-');
    }
    push_decimal(s, h / 100);
    push_char(s, '.');
    push_char(s, digit((h / 10) % 10));
    push_char(s, digit(h % 10));
}

// ---------------------------------------------------------------------------
// Character classes (std's Unicode tables)
// ---------------------------------------------------------------------------
/// Whether `char::is_alphanumeric` holds of a character (Unicode
/// `Alphabetic` or `Numeric`).
pub uninterp spec fn char_is_alphanumeric(c: char) -> bool;

/// Whether `char::is_whitespace` holds of a character (Unicode
/// `White_Space`).
pub uninterp spec fn char_is_whitespace(c: char) -> bool;

/// What `str::to_lowercase` returns for a string.
pub uninterp spec fn lowercase(s: Seq<char>) -> Seq<char>;

pub open spec fn is_ascii_alnum(c: char) -> bool {
    ('0' <= c && c <= '9') || ('a' <= c && c <= 'z') || ('A' <= c && c <= 'Z')
}

pub open spec fn ascii_lower(c: char) -> char {
    if 'A' <= c && c <= 'Z' {
        ((c as u32) + 32) as char
    } else {
        c
    }
}

/// `char::is_alphanumeric`. Its result is named `char_is_alphanumeric`;
/// on ASCII characters std documents it as exactly the digits and the
/// Latin letters.
#[verifier::external_body]
pub(crate) fn is_alphanumeric(c: char) -> (r: bool)
    ensures
        r == char_is_alphanumeric(c),
        (c as u32) < 128 ==> (r <==> is_ascii_alnum(c)),
{
    c.is_alphanumeric()
}

/// `char::is_whitespace`. Its result is named `char_is_whitespace`; on
/// ASCII characters std documents it as exactly space, tab, line feed,
/// vertical tab, form feed and carriage return.
#[verifier::external_body]
pub(crate) fn is_whitespace(c: char) -> (r: bool)
    ensures
        r == char_is_whitespace(c),
        (c as u32) < 128 ==> (r <==> (c == ' ' || c == '\t' || c == '\n' || c == '\x0B' || c
            == '\x0C' || c == '\r')),
{
    c.is_whitespace()
}

/// `str::to_lowercase`. Its result is named `lowercase`; on an all-ASCII
/// string it maps each upper-case Latin letter to its lower-case form and
/// keeps every other character.
#[verifier::external_body]
pub(crate) fn to_lowercase(s: &str) -> (r: String)
    ensures
        r@ == lowercase(s@),
        (forall|i: int| 0 <= i < s@.len() ==> (#[trigger] s@[i] as u32) < 128) ==> r@
            == s@.map_values(|c: char| ascii_lower(c)),
{
    s.to_lowercase()
}

// ---------------------------------------------------------------------------
// Splitting
// ---------------------------------------------------------------------------
/// Which characters separate the pieces of a string.
#[derive(Clone, Copy, PartialEq, Eq)]
pub enum Separator {
    /// `,`
    Comma,
    /// every character that is not alphanumeric
    NonAlphanumeric,
    /// every whitespace character
    Whitespace,
    /// `\n`
    Newline,
}

pub open spec fn separates(sep: Separator, c: char) -> bool {
    match sep {
        Separator::Comma => c == ',',
        Separator::NonAlphanumeric => !char_is_alphanumeric(c),
        Separator::Whitespace => char_is_whitespace(c),
        Separator::Newline => c == '\n',
    }
}

/// The pieces between separators, as `str::split` yields them: one more
/// piece than there are separators, empty pieces included.
pub open spec fn pieces(s: Seq<char>, sep: Separator) -> Seq<Seq<char>>
    decreases s.len(),
{
    if s.len() == 0 {
        seq![Seq::empty()]
    } else {
        let r = pieces(s.drop_last(), sep);
        if separates(sep, s.last()) {
            r.push(Seq::empty())
        } else {
            r.update(r.len() - 1, r.last().push(s.last()))
        }
    }
}

pub proof fn lemma_pieces_len(s: Seq<char>, sep: Separator)
    ensures
        pieces(s, sep).len() >= 1,
    decreases s.len(),
{
    if s.len() > 0 {
        lemma_pieces_len(s.drop_last(), sep);
    }
}

pub(crate) fn separator_matches(sep: Separator, c: char) -> (r: bool)
    ensures
        r == separates(sep, c),
{
    match sep {
        Separator::Comma => c == ',',
        Separator::NonAlphanumeric => !is_alphanumeric(c),
        Separator::Whitespace => is_whitespace(c),
        Separator::Newline => c == '\n',
    }
}

/// The contents of a sequence of character vectors.
pub open spec fn views(v: Seq<Vec<char>>) -> Seq<Seq<char>> {
    Seq::new(v.len(), |i: int| v[i]@)
}

/// Splits a character sequence at every separator.
pub fn split_pieces(chars: &Vec<char>, sep: Separator) -> (r: Vec<Vec<char>>)
    ensures
        views(r@) == pieces(chars@, sep),
{
    let mut done: Vec<Vec<char>> = Vec::new();
    let mut cur: Vec<char> = Vec::new();
    let mut i: usize = 0;
    while i < chars.len()
        invariant
            i <= chars.len(),
            pieces(chars@.take(i as int), sep) == views(done@).push(cur@),
        decreases chars.len() - i,
    {
        let c = chars[i];
        let ghost before = chars@.take(i as int);
        let ghost done0 = done@;
        let ghost cur0 = cur@;
        assert(chars@.take(i + 1 as int).drop_last() == before);
        assert(chars@.take(i + 1 as int).last() == c);
        if separator_matches(sep, c) {
            let finished = cur;
            done.push(finished);
            cur = Vec::new();
            assert(views(done@) == views(done0).push(cur0));
        } else {
            cur.push(c);
            proof {
                lemma_pieces_len(before, sep);
            }
        }
        i = i + 1;
        assert(pieces(chars@.take(i as int), sep) == views(done@).push(cur@));
    }
    assert(chars@.take(chars.len() as int) == chars@);
    let ghost done0 = done@;
    done.push(cur);
    assert(views(done@) == views(done0).push(cur@));
    done
}

/// The contents of a sequence of strings.
pub open spec fn string_views(v: Seq<String>) -> Seq<Seq<char>> {
    Seq::new(v.len(), |i: int| v[i]@)
}

// ---------------------------------------------------------------------------
// Trimming, joining, prefixes, counting
// ---------------------------------------------------------------------------
pub open spec fn trim_start(s: Seq<char>) -> Seq<char>
    decreases s.len(),
{
    if s.len() > 0 && char_is_whitespace(s[0]) {
        trim_start(s.drop_first())
    } else {
        s
    }
}

pub open spec fn trim_end(s: Seq<char>) -> Seq<char>
    decreases s.len(),
{
    if s.len() > 0 && char_is_whitespace(s.last()) {
        trim_end(s.drop_last())
    } else {
        s
    }
}

/// `str::trim`: the string without leading and trailing whitespace.
pub open spec fn trim(s: Seq<char>) -> Seq<char> {
    trim_end(trim_start(s))
}

/// Removes leading and trailing whitespace.
pub fn trim_chars(s: &Vec<char>) -> (r: Vec<char>)
    ensures
        r@ == trim(s@),
{
    let len = s.len();
    let mut i: usize = 0;
    assert(s@.subrange(0, len as int) == s@);
    while i < len && is_whitespace(s[i])
        invariant
            i <= len == s.len(),
            trim_start(s@) == trim_start(s@.subrange(i as int, len as int)),
        decreases len - i,
    {
        assert(s@.subrange(i as int, len as int).drop_first() == s@.subrange(i + 1, len as int));
        i = i + 1;
    }
    let ghost t = s@.subrange(i as int, len as int);
    assert(trim_start(s@) == t);
    let mut j: usize = len;
    while j > i && is_whitespace(s[j - 1])
        invariant
            i <= j <= len == s.len(),
            t == s@.subrange(i as int, len as int),
            trim_end(t) == trim_end(s@.subrange(i as int, j as int)),
        decreases j,
    {
        assert(s@.subrange(i as int, j as int).drop_last() == s@.subrange(i as int, j - 1));
        j = j - 1;
    }
    let mut r: Vec<char> = Vec::new();
    let mut k: usize = i;
    while k < j
        invariant
            i <= k <= j <= len == s.len(),
            r@ == s@.subrange(i as int, k as int),
        decreases j - k,
    {
        r.push(s[k]);
        k = k + 1;
        assert(r@ == s@.subrange(i as int, k as int));
    }
    r
}

/// The parts joined with the separator between them (`join`).
pub open spec fn join(parts: Seq<Seq<char>>, sep: Seq<char>) -> Seq<char>
    decreases parts.len(),
{
    if parts.len() == 0 {
        Seq::empty()
    } else if parts.len() == 1 {
        parts[0]
    } else {
        join(parts.drop_last(), sep) + sep + parts.last()
    }
}

/// Joins strings with a separator.
pub fn join_strings(parts: &Vec<String>, sep: &str) -> (r: String)
    ensures
        r@ == join(string_views(parts@), sep@),
{
    let mut r = String::new();
    let mut i: usize = 0;
    while i < parts.len()
        invariant
            i <= parts.len(),
            r@ == join(string_views(parts@).take(i as int), sep@),
        decreases parts.len() - i,
    {
        let ghost before = string_views(parts@).take(i as int);
        if i > 0 {
            push_str(&mut r, sep);
        }
        push_str(&mut r, parts[i].as_str());
        i = i + 1;
        assert(string_views(parts@).take(i as int).drop_last() == before);
        assert(r@ == join(string_views(parts@).take(i as int), sep@));
    }
    assert(string_views(parts@).take(parts.len() as int) == string_views(parts@));
    r
}

/// The first `n` characters (all of them when there are fewer), as
/// `chars().take(n)` yields them.
pub open spec fn prefix(s: Seq<char>, n: nat) -> Seq<char> {
    if n < s.len() {
        s.take(n as int)
    } else {
        s
    }
}

/// The first `n` characters of a string.
pub fn take_chars(s: &str, n: usize) -> (r: String)
    ensures
        r@ == prefix(s@, n as nat),
{
    let cs = chars_of(s);
    let mut out: Vec<char> = Vec::new();
    let mut i: usize = 0;
    while i < cs.len() && i < n
        invariant
            i <= cs.len(),
            i <= n,
            out@ == cs@.take(i as int),
        decreases cs.len() - i,
    {
        out.push(cs[i]);
        i = i + 1;
        assert(out@ == cs@.take(i as int));
    }
    assert(cs@.take(cs.len() as int) == cs@);
    string_of(&out)
}

/// How many bytes UTF-8 spends on a character.
pub open spec fn char_utf8_len(c: char) -> nat {
    if (c as u32) < 0x80 {
        1
    } else if (c as u32) < 0x800 {
        2
    } else if (c as u32) < 0x10000 {
        3
    } else {
        4
    }
}

/// The UTF-8 length of a string, which `str::len` returns.
pub open spec fn utf8_len(s: Seq<char>) -> nat
    decreases s.len(),
{
    if s.len() == 0 {
        0
    } else {
        utf8_len(s.drop_last()) + char_utf8_len(s.last())
    }
}

pub proof fn lemma_utf8_len_bounds(s: Seq<char>)
    ensures
        s.len() <= utf8_len(s) <= 4 * s.len(),
    decreases s.len(),
{
    if s.len() > 0 {
        lemma_utf8_len_bounds(s.drop_last());
    }
}


/// How many `\n` characters a string holds.
pub open spec fn newline_count(s: Seq<char>) -> nat
    decreases s.len(),
{
    if s.len() == 0 {
        0
    } else {
        newline_count(s.drop_last()) + if s.last() == '\n' {
            1nat
        } else {
            0nat
        }
    }
}

pub proof fn lemma_newline_count_le(s: Seq<char>)
    ensures
        newline_count(s) <= s.len(),
    decreases s.len(),
{
    if s.len() > 0 {
        lemma_newline_count_le(s.drop_last());
    }
}

/// How many lines `str::lines` yields: one per `\n`, and one more for a
/// last line that does not end with `\n`.
pub open spec fn line_count(s: Seq<char>) -> nat {
    if s.len() == 0 {
        0
    } else if s.last() == '\n' {
        newline_count(s)
    } else {
        newline_count(s) + 1
    }
}

/// Counts the lines of a string.
pub fn count_lines(s: &str) -> (n: usize)
    ensures
        n == line_count(s@),
{
    let cs = chars_of(s);
    let mut n: usize = 0;
    let mut i: usize = 0;
    while i < cs.len()
        invariant
            i <= cs.len(),
            n == newline_count(cs@.take(i as int)),
            n <= i,
        decreases cs.len() - i,
    {
        assert(cs@.take(i + 1 as int).drop_last() == cs@.take(i as int));
        if cs[i] == '\n' {
            n = n + 1;
        }
        i = i + 1;
    }
    assert(cs@.take(cs.len() as int) == cs@);
    if cs.len() > 0 && cs[cs.len() - 1] != '\n' {
        proof {
            lemma_newline_count_le(cs@.drop_last());
        }
        n = n + 1;
    }
    n
}

/// How many non-overlapping occurrences of `pat` `str::matches` finds,
/// scanning from the left.
pub open spec fn match_count(s: Seq<char>, pat: Seq<char>) -> nat
    decreases s.len(),
{
    if pat.len() == 0 || s.len() < pat.len() {
        0
    } else if s.take(pat.len() as int) == pat {
        1 + match_count(s.skip(pat.len() as int), pat)
    } else {
        match_count(s.drop_first(), pat)
    }
}

/// Counts the non-overlapping occurrences of a non-empty pattern.
pub fn count_matches(s: &str, pat: &str) -> (n: usize)
    requires
        pat@.len() > 0,
    ensures
        n == match_count(s@, pat@),
{
    let cs = chars_of(s);
    let ps = chars_of(pat);
    let mut n: usize = 0;
    let mut i: usize = 0;
    assert(cs@.skip(0) == cs@);
    while i < cs.len()
        invariant
            i <= cs.len(),
            ps@.len() > 0,
            n <= i,
            match_count(cs@, ps@) == n + match_count(cs@.skip(i as int), ps@),
        decreases cs.len() - i,
    {
        let rest = cs.len() - i;
        if rest < ps.len() {
            assert(match_count(cs@.skip(i as int), ps@) == 0);
            assert(match_count(cs@.skip(cs.len() as int), ps@) == 0);
            i = cs.len();
        } else {
            let mut k: usize = 0;
            let mut same = true;
            while k < ps.len()
                invariant
                    k <= ps.len(),
                    i + ps.len() <= cs.len(),
                    same <==> (forall|m: int| 0 <= m < k ==> cs@[i + m] == ps@[m]),
                decreases ps.len() - k,
            {
                if cs[i + k] != ps[k] {
                    same = false;
                }
                k = k + 1;
            }
            let ghost t = cs@.skip(i as int);
            if same {
                assert(t.take(ps@.len() as int) =~= ps@);
                assert(t.skip(ps@.len() as int) =~= cs@.skip(i + ps.len()));
                n = n + 1;
                i = i + ps.len();
            } else {
                assert(t.take(ps@.len() as int) != ps@) by {
                    let m = choose|m: int| 0 <= m < ps.len() && cs@[i + m] != ps@[m];
                    assert(t.take(ps@.len() as int)[m] != ps@[m]);
                }
                assert(t.drop_first() =~= cs@.skip(i + 1));
                i = i + 1;
            }
        }
    }
    assert(cs@.skip(cs.len() as int).len() == 0);
    n
}

// ---------------------------------------------------------------------------
// Filtering and mapping lists of strings
// ---------------------------------------------------------------------------
/// The parts for which `keep` holds, in order.
pub open spec fn keep_where(parts: Seq<Seq<char>>, keep: spec_fn(Seq<char>) -> bool) -> Seq<
    Seq<char>,
>
    decreases parts.len(),
{
    if parts.len() == 0 {
        Seq::empty()
    } else if keep(parts.last()) {
        keep_where(parts.drop_last(), keep).push(parts.last())
    } else {
        keep_where(parts.drop_last(), keep)
    }
}

/// Each part transformed by `f`, in order.
pub open spec fn map_parts(parts: Seq<Seq<char>>, f: spec_fn(Seq<char>) -> Seq<char>) -> Seq<
    Seq<char>,
> {
    Seq::new(parts.len(), |i: int| f(parts[i]))
}

pub proof fn lemma_string_views_push(v: Seq<String>, s: String)
    ensures
        string_views(v.push(s)) == string_views(v).push(s@),
{
    assert(string_views(v.push(s)) =~= string_views(v).push(s@));
}

/// The pieces with at least one character.
pub open spec fn nonempty(parts: Seq<Seq<char>>) -> Seq<Seq<char>> {
    keep_where(parts, |p: Seq<char>| p.len() > 0)
}

/// Keeps the pieces that have at least one character, as strings.
pub fn nonempty_strings(parts: &Vec<Vec<char>>) -> (r: Vec<String>)
    ensures
        string_views(r@) == nonempty(views(parts@)),
{
    let mut r: Vec<String> = Vec::new();
    let mut i: usize = 0;
    while i < parts.len()
        invariant
            i <= parts.len(),
            string_views(r@) == nonempty(views(parts@).take(i as int)),
        decreases parts.len() - i,
    {
        assert(views(parts@).take(i + 1 as int).drop_last() == views(parts@).take(i as int));
        assert(views(parts@).take(i + 1 as int).last() == parts@[i as int]@);
        if parts[i].len() > 0 {
            let ghost prev = r@;
            let s = string_of(&parts[i]);
            r.push(s);
            proof {
                lemma_string_views_push(prev, s);
            }
        }
        i = i + 1;
    }
    assert(views(parts@).take(parts.len() as int) == views(parts@));
    r
}

/// The first `n` parts (all of them when there are fewer).
pub open spec fn first_parts(parts: Seq<Seq<char>>, n: nat) -> Seq<Seq<char>> {
    if n < parts.len() {
        parts.take(n as int)
    } else {
        parts
    }
}

/// The first `n` strings of a list, copied.
pub fn first_strings(parts: &Vec<String>, n: usize) -> (r: Vec<String>)
    ensures
        string_views(r@) == first_parts(string_views(parts@), n as nat),
{
    let mut r: Vec<String> = Vec::new();
    let mut i: usize = 0;
    while i < parts.len() && i < n
        invariant
            i <= parts.len(),
            i <= n,
            string_views(r@) == string_views(parts@).take(i as int),
        decreases parts.len() - i,
    {
        let ghost prev = r@;
        let s = parts[i].clone();
        r.push(s);
        proof {
            lemma_string_views_push(prev, s);
        }
        i = i + 1;
        assert(string_views(r@) =~= string_views(parts@).take(i as int));
    }
    assert(string_views(parts@).take(parts.len() as int) =~= string_views(parts@));
    r
}

/// Converts character vectors into strings.
pub fn strings_of(parts: &Vec<Vec<char>>) -> (r: Vec<String>)
    ensures
        string_views(r@) == views(parts@),
{
    let mut r: Vec<String> = Vec::new();
    let mut i: usize = 0;
    while i < parts.len()
        invariant
            i <= parts.len(),
            string_views(r@) == views(parts@).take(i as int),
        decreases parts.len() - i,
    {
        let ghost prev = r@;
        let s = string_of(&parts[i]);
        r.push(s);
        proof {
            lemma_string_views_push(prev, s);
        }
        i = i + 1;
        assert(string_views(r@) =~= views(parts@).take(i as int));
    }
    assert(views(parts@).take(parts.len() as int) =~= views(parts@));
    r
}

/// A copy of a list of strings.
pub fn clone_strings(v: &Vec<String>) -> (r: Vec<String>)
    ensures
        string_views(r@) == string_views(v@),
        r@.len() == v@.len(),
{
    let mut r: Vec<String> = Vec::new();
    let mut i: usize = 0;
    while i < v.len()
        invariant
            i <= v.len(),
            string_views(r@) == string_views(v@).take(i as int),
        decreases v.len() - i,
    {
        let ghost prev = r@;
        let s = v[i].clone();
        r.push(s);
        proof {
            lemma_string_views_push(prev, s);
        }
        i = i + 1;
        assert(string_views(r@) =~= string_views(v@).take(i as int));
    }
    assert(string_views(v@).take(v.len() as int) =~= string_views(v@));
    r
}

// ---------------------------------------------------------------------------
// Facts about splitting, trimming and filtering
// ---------------------------------------------------------------------------
/// Appending characters that separate nothing extends the last piece.
pub proof fn lemma_pieces_extend(a: Seq<char>, b: Seq<char>, sep: Separator)
    requires
        forall|i: int| 0 <= i < b.len() ==> !separates(sep, #[trigger] b[i]),
    ensures
        pieces(a + b, sep) == pieces(a, sep).update(
            pieces(a, sep).len() - 1,
            pieces(a, sep).last() + b,
        ),
    decreases b.len(),
{
    lemma_pieces_len(a, sep);
    let p = pieces(a, sep);
    if b.len() == 0 {
        assert(a + b =~= a);
        assert(p.last() + b =~= p.last());
        assert(p.update(p.len() - 1, p.last() + b) =~= p);
    } else {
        let b0 = b.drop_last();
        assert forall|i: int| 0 <= i < b0.len() implies !separates(sep, #[trigger] b0[i]) by {
            assert(b0[i] == b[i]);
        }
        lemma_pieces_extend(a, b0, sep);
        assert((a + b).drop_last() =~= a + b0);
        assert((a + b).last() == b.last());
        assert(!separates(sep, b[b.len() - 1]));
        let r = pieces(a + b0, sep);
        assert(r.last() == p.last() + b0);
        assert(r.last().push(b.last()) =~= p.last() + b);
        assert(r.update(r.len() - 1, r.last().push(b.last())) =~= p.update(
            p.len() - 1,
            p.last() + b,
        ));
    }
}

/// No piece holds a separator.
pub proof fn lemma_pieces_free(s: Seq<char>, sep: Separator)
    ensures
        forall|k: int, i: int|
            0 <= k < pieces(s, sep).len() && 0 <= i < pieces(s, sep)[k].len() ==> !separates(
                sep,
                #[trigger] pieces(s, sep)[k][i],
            ),
    decreases s.len(),
{
    if s.len() > 0 {
        lemma_pieces_free(s.drop_last(), sep);
        lemma_pieces_len(s.drop_last(), sep);
    }
}

/// Joining pieces that hold no comma with commas, and splitting at the
/// commas, gives the pieces back.
pub proof fn lemma_pieces_join_commas(parts: Seq<Seq<char>>)
    requires
        parts.len() >= 1,
        forall|k: int, i: int|
            0 <= k < parts.len() && 0 <= i < parts[k].len() ==> #[trigger] parts[k][i] != ',',
    ensures
        pieces(join(parts, ","@), Separator::Comma) == parts,
    decreases parts.len(),
{
    reveal_strlit(",");
    let e = Seq::<char>::empty();
    if parts.len() == 1 {
        assert(e + parts[0] =~= parts[0]);
        assert forall|i: int| 0 <= i < parts[0].len() implies !separates(
            Separator::Comma,
            #[trigger] parts[0][i],
        ) by {
            assert(parts[0][i] != ',');
        }
        lemma_pieces_extend(e, parts[0], Separator::Comma);
        assert(pieces(e, Separator::Comma) == seq![e]);
        assert(seq![e].update(0, e + parts[0]) =~= parts);
    } else {
        let front = parts.drop_last();
        let last = parts.last();
        assert forall|k: int, i: int| 0 <= k < front.len() && 0 <= i < front[k].len() implies #[trigger] front[k][i] != ',' by {
            assert(front[k] == parts[k]);
        }
        lemma_pieces_join_commas(front);
        let j = join(front, ","@);
        assert(join(parts, ","@) == j + ","@ + last);
        assert(j + ","@ == j.push(','));
        assert((j.push(',')).drop_last() =~= j);
        lemma_pieces_len(j, Separator::Comma);
        assert(pieces(j.push(','), Separator::Comma) == front.push(e));
        assert forall|i: int| 0 <= i < last.len() implies !separates(
            Separator::Comma,
            #[trigger] last[i],
        ) by {
            assert(last[i] == parts[parts.len() - 1][i]);
        }
        lemma_pieces_extend(j.push(','), last, Separator::Comma);
        assert(e + last =~= last);
        assert(front.push(e).update(front.len() as int, e + last) =~= parts);
    }
}

/// Trimming the start drops a prefix, and what is left starts with no
/// whitespace.
pub proof fn lemma_trim_start_skip(s: Seq<char>) -> (k: int)
    ensures
        0 <= k <= s.len(),
        trim_start(s) == s.skip(k),
        trim_start(s).len() > 0 ==> !char_is_whitespace(trim_start(s)[0]),
    decreases s.len(),
{
    if s.len() > 0 && char_is_whitespace(s[0]) {
        let k = lemma_trim_start_skip(s.drop_first());
        assert(s.drop_first().skip(k) =~= s.skip(k + 1));
        k + 1
    } else {
        assert(s.skip(0) =~= s);
        0
    }
}

/// Trimming the end keeps a prefix, and what is left ends with no
/// whitespace.
pub proof fn lemma_trim_end_take(s: Seq<char>) -> (k: int)
    ensures
        0 <= k <= s.len(),
        trim_end(s) == s.take(k),
        trim_end(s).len() > 0 ==> !char_is_whitespace(trim_end(s).last()),
    decreases s.len(),
{
    if s.len() > 0 && char_is_whitespace(s.last()) {
        let k = lemma_trim_end_take(s.drop_last());
        assert(s.drop_last().take(k) =~= s.take(k));
        k
    } else {
        assert(s.take(s.len() as int) =~= s);
        s.len() as int
    }
}

/// A trimmed string is its own trim, and holds only characters of the
/// string it came from.
pub proof fn lemma_trim_clean(s: Seq<char>)
    ensures
        trim(trim(s)) == trim(s),
        forall|i: int| 0 <= i < trim(s).len() ==> s.contains(#[trigger] trim(s)[i]),
{
    let a = lemma_trim_start_skip(s);
    let u = trim_start(s);
    let b = lemma_trim_end_take(u);
    let t = trim(s);
    assert(t == u.take(b));
    if t.len() > 0 {
        assert(t[0] == u[0]);
        assert(trim_start(t) == t);
        assert(trim_end(t) == t);
    } else {
        assert(trim_start(t) == t);
        assert(trim_end(t) == t);
    }
    assert forall|i: int| 0 <= i < t.len() implies s.contains(#[trigger] t[i]) by {
        assert(t[i] == u[i]);
        assert(u[i] == s[i + a]);
    }
}

/// Filtering keeps only what passes, and keeps everything when all pass.
pub proof fn lemma_keep_where(parts: Seq<Seq<char>>, keep: spec_fn(Seq<char>) -> bool)
    ensures
        forall|i: int| 0 <= i < keep_where(parts, keep).len() ==> keep(#[trigger] keep_where(parts, keep)[i]),
        forall|i: int| 0 <= i < keep_where(parts, keep).len() ==> parts.contains(#[trigger] keep_where(parts, keep)[i]),
        (forall|i: int| 0 <= i < parts.len() ==> keep(#[trigger] parts[i])) ==> keep_where(parts, keep) == parts,
    decreases parts.len(),
{
    if parts.len() > 0 {
        let front = parts.drop_last();
        lemma_keep_where(front, keep);
        let k = keep_where(parts, keep);
        assert forall|i: int| 0 <= i < k.len() implies parts.contains(#[trigger] k[i]) by {
            if i < keep_where(front, keep).len() {
                let j = choose|j: int| 0 <= j < front.len() && front[j] == keep_where(front, keep)[i];
                assert(parts[j] == front[j]);
            } else {
                assert(parts[parts.len() - 1] == k[i]);
            }
        }
        if forall|i: int| 0 <= i < parts.len() ==> keep(#[trigger] parts[i]) {
            assert forall|i: int| 0 <= i < front.len() implies keep(#[trigger] front[i]) by {
                assert(front[i] == parts[i]);
            }
            assert(keep(parts[parts.len() - 1]));
            assert(front.push(parts.last()) =~= parts);
        }
    }
}

} // verus!
