//! Character-level text operations that the rest of the library is built on:
//! ASCII case folding, whitespace trimming, suffix tests and the code-point
//! order that Rust's `str` comparison follows.
use vstd::prelude::*;

verus! {

/// Appends one character to a string (std's `String::push`).
#[verifier::external_body]
pub(crate) fn push_char(s: &mut String, c: char)
    ensures
        final(s)@ == old(s)@.push(c),
{
    s.push(c);
}

/// The characters of a string slice, in order.
pub fn chars_of(s: &str) -> (r: Vec<char>)
    ensures
        r@ == s@,
{
    let mut r: Vec<char> = Vec::new();
    for c in it: s.chars()
        invariant
            r@ == it.seq().take(it.index() as int),
    {
        r.push(c);
    }
    r
}

/// The string made of the characters `chars[from..to]`.
pub fn string_of_range(chars: &Vec<char>, from: usize, to: usize) -> (r: String)
    requires
        from <= to <= chars.len(),
    ensures
        r@ == chars@.subrange(from as int, to as int),
{
    let mut r = String::new();
    let mut i = from;
    while i < to
        invariant
            from <= i <= to <= chars.len(),
            r@ == chars@.subrange(from as int, i as int),
        decreases to - i,
    {
        push_char(&mut r, chars[i]);
        assert(chars@.subrange(from as int, i + 1) =~= chars@.subrange(from as int, i as int).push(
            chars@[i as int],
        ));
        i += 1;
    }
    r
}

/// The string made of all the characters of `chars`.
pub fn string_of(chars: &Vec<char>) -> (r: String)
    ensures
        r@ == chars@,
{
    let r = string_of_range(chars, 0, chars.len());
    assert(chars@.subrange(0, chars@.len() as int) =~= chars@);
    r
}

/// A copy of a string slice as an owned string.
pub fn owned(s: &str) -> (r: String)
    ensures
        r@ == s@,
{
    let chars = chars_of(s);
    string_of(&chars)
}

/// Whether two string slices hold the same characters.
pub fn same_text(a: &str, b: &str) -> (r: bool)
    ensures
        r == (a@ == b@),
{
    let x = owned(a);
    let y = owned(b);
    x == y
}

// ---------------------------------------------------------------------------
// ASCII case folding
// ---------------------------------------------------------------------------

/// `char::to_ascii_lowercase`: `A`..=`Z` become `a`..=`z`, every other
/// character is kept.
pub open spec fn ascii_lower_char(c: char) -> char {
    if 'A' <= c && c <= 'Z' {
        ((c as u32) + 32) as char
    } else {
        c
    }
}

/// `str::to_ascii_lowercase` on a character sequence.
pub open spec fn ascii_lower(s: Seq<char>) -> Seq<char> {
    s.map_values(|c: char| ascii_lower_char(c))
}

pub fn lower_char(c: char) -> (r: char)
    ensures
        r == ascii_lower_char(c),
{
    if 'A' <= c && c <= 'Z' {
        ((c as u8) + 32) as char
    } else {
        c
    }
}

/// The ASCII lower-case form of a string: ASCII capitals are folded, all
/// other characters (including non-ASCII letters) are kept as they are.
pub fn to_ascii_lowercase(s: &str) -> (r: String)
    ensures
        r@ == ascii_lower(s@),
{
    let chars = chars_of(s);
    let mut r = String::new();
    let mut i: usize = 0;
    while i < chars.len()
        invariant
            i <= chars.len(),
            chars@ == s@,
            r@ == ascii_lower(s@.take(i as int)),
        decreases chars.len() - i,
    {
        let c = lower_char(chars[i]);
        push_char(&mut r, c);
        assert(ascii_lower(s@.take(i + 1)) =~= ascii_lower(s@.take(i as int)).push(c));
        i += 1;
    }
    assert(s@.take(chars.len() as int) =~= s@);
    r
}

/// Folds every string of a list to ASCII lower case, keeping the order.
pub fn lowercase_all(items: &Vec<String>) -> (r: Vec<String>)
    ensures
        r.len() == items.len(),
        forall|i: int| 0 <= i < items.len() ==> #[trigger] r[i]@ == ascii_lower(items[i]@),
{
    let mut r: Vec<String> = Vec::new();
    let mut i: usize = 0;
    while i < items.len()
        invariant
            i <= items.len(),
            r.len() == i,
            forall|j: int| 0 <= j < i ==> #[trigger] r[j]@ == ascii_lower(items[j]@),
        decreases items.len() - i,
    {
        r.push(to_ascii_lowercase(items[i].as_str()));
        i += 1;
    }
    r
}

/// Whether some string of `items` holds exactly the characters `s`.
pub fn contains_text(items: &Vec<String>, s: &String) -> (r: bool)
    ensures
        r == (exists|i: int| 0 <= i < items.len() && #[trigger] items[i]@ == s@),
{
    let mut i: usize = 0;
    while i < items.len()
        invariant
            i <= items.len(),
            forall|j: int| 0 <= j < i ==> #[trigger] items[j]@ != s@,
        decreases items.len() - i,
    {
        if items[i] == *s {
            return true;
        }
        i += 1;
    }
    false
}

// ---------------------------------------------------------------------------
// Whitespace trimming
// ---------------------------------------------------------------------------

/// `char::is_whitespace`: the characters with the Unicode `White_Space`
/// property.
pub open spec fn is_white_space(c: char) -> bool {
    ||| ('\u{9}' <= c && c <= '\u{d}')
    ||| c == ' '
    ||| c == '\u{85}'
    ||| c == '\u{a0}'
    ||| c == '\u{1680}'
    ||| ('\u{2000}' <= c && c <= '\u{200a}')
    ||| c == '\u{2028}'
    ||| c == '\u{2029}'
    ||| c == '\u{202f}'
    ||| c == '\u{205f}'
    ||| c == '\u{3000}'
}

pub fn white_space(c: char) -> (r: bool)
    ensures
        r == is_white_space(c),
{
    ('\u{9}' <= c && c <= '\u{d}') || c == ' ' || c == '\u{85}' || c == '\u{a0}' || c == '\u{1680}'
        || ('\u{2000}' <= c && c <= '\u{200a}') || c == '\u{2028}' || c == '\u{2029}' || c
        == '\u{202f}' || c == '\u{205f}' || c == '\u{3000}'
}

/// `str::trim_start`: the sequence without its leading white space.
pub open spec fn trim_start(s: Seq<char>) -> Seq<char>
    decreases s.len(),
{
    if s.len() > 0 && is_white_space(s[0]) {
        trim_start(s.drop_first())
    } else {
        s
    }
}

/// `str::trim_end`: the sequence without its trailing white space.
pub open spec fn trim_end(s: Seq<char>) -> Seq<char>
    decreases s.len(),
{
    if s.len() > 0 && is_white_space(s.last()) {
        trim_end(s.drop_last())
    } else {
        s
    }
}

/// `str::trim`: white space removed from both ends.
pub open spec fn trim(s: Seq<char>) -> Seq<char> {
    trim_end(trim_start(s))
}

proof fn lemma_trim_start_step(s: Seq<char>, i: int)
    requires
        0 <= i < s.len(),
        is_white_space(s[i]),
    ensures
        trim_start(s.subrange(i, s.len() as int)) == trim_start(s.subrange(i + 1, s.len() as int)),
{
    assert(s.subrange(i, s.len() as int).drop_first() =~= s.subrange(i + 1, s.len() as int));
}

proof fn lemma_trim_end_step(s: Seq<char>, i: int, j: int)
    requires
        0 <= i < j <= s.len(),
        is_white_space(s[j - 1]),
    ensures
        trim_end(s.subrange(i, j)) == trim_end(s.subrange(i, j - 1)),
{
    assert(s.subrange(i, j).drop_last() =~= s.subrange(i, j - 1));
}

/// The string with leading and trailing white space removed.
pub fn trim_text(s: &str) -> (r: String)
    ensures
        r@ == trim(s@),
{
    let chars = chars_of(s);
    let n = chars.len();
    let mut start: usize = 0;
    assert(s@.subrange(0, n as int) =~= s@);
    while start < n && white_space(chars[start])
        invariant
            start <= n == chars.len(),
            chars@ == s@,
            trim_start(s@) == trim_start(s@.subrange(start as int, n as int)),
        decreases n - start,
    {
        proof {
            lemma_trim_start_step(s@, start as int);
        }
        start += 1;
    }
    let ghost front = s@.subrange(start as int, n as int);
    assert(trim_start(front) == front);
    let mut end: usize = n;
    assert(s@.subrange(start as int, n as int) == front);
    while end > start && white_space(chars[end - 1])
        invariant
            start <= end <= n == chars.len(),
            chars@ == s@,
            front == s@.subrange(start as int, n as int),
            trim(s@) == trim_end(s@.subrange(start as int, end as int)),
        decreases end - start,
    {
        proof {
            lemma_trim_end_step(s@, start as int, end as int);
        }
        end -= 1;
    }
    string_of_range(&chars, start, end)
}

// ---------------------------------------------------------------------------
// Suffixes
// ---------------------------------------------------------------------------

/// Whether `s` ends with `suffix`.
pub open spec fn has_suffix(s: Seq<char>, suffix: Seq<char>) -> bool {
    s.len() >= suffix.len() && s.subrange(s.len() - suffix.len(), s.len() as int) == suffix
}

/// Whether the characters of `s` end with those of `suffix`.
pub fn ends_with(s: &Vec<char>, suffix: &Vec<char>) -> (r: bool)
    ensures
        r == has_suffix(s@, suffix@),
{
    if s.len() < suffix.len() {
        return false;
    }
    let offset = s.len() - suffix.len();
    let mut i: usize = 0;
    while i < suffix.len()
        invariant
            offset + suffix.len() == s.len(),
            i <= suffix.len(),
            forall|j: int| 0 <= j < i ==> s@[offset + j] == suffix@[j],
        decreases suffix.len() - i,
    {
        if s[offset + i] != suffix[i] {
            assert(s@.subrange(offset as int, s.len() as int)[i as int] != suffix@[i as int]);
            return false;
        }
        i += 1;
    }
    assert(s@.subrange(offset as int, s.len() as int) =~= suffix@);
    true
}

// ---------------------------------------------------------------------------
// Code-point order
// ---------------------------------------------------------------------------

/// The order of `str`/`String` comparison: lexicographic by code point (which
/// is the order of the UTF-8 bytes), a proper prefix coming first.
pub open spec fn lex_less(a: Seq<char>, b: Seq<char>) -> bool
    decreases a.len(),
{
    if b.len() == 0 {
        false
    } else if a.len() == 0 {
        true
    } else if a[0] != b[0] {
        a[0] < b[0]
    } else {
        lex_less(a.drop_first(), b.drop_first())
    }
}

pub proof fn lemma_lex_irreflexive(a: Seq<char>)
    ensures
        !lex_less(a, a),
    decreases a.len(),
{
    if a.len() > 0 {
        lemma_lex_irreflexive(a.drop_first());
    }
}

pub proof fn lemma_lex_total(a: Seq<char>, b: Seq<char>)
    requires
        a != b,
    ensures
        lex_less(a, b) || lex_less(b, a),
    decreases a.len(),
{
    if a.len() == 0 {
        assert(b.len() != 0) by {
            if b.len() == 0 {
                assert(a =~= b);
            }
        }
    } else if b.len() == 0 {
    } else if a[0] == b[0] {
        if a.drop_first() == b.drop_first() {
            assert(a =~= seq![a[0]] + a.drop_first());
            assert(b =~= seq![b[0]] + b.drop_first());
        }
        lemma_lex_total(a.drop_first(), b.drop_first());
    }
}

pub proof fn lemma_lex_transitive(a: Seq<char>, b: Seq<char>, c: Seq<char>)
    requires
        lex_less(a, b),
        lex_less(b, c),
    ensures
        lex_less(a, c),
    decreases a.len(),
{
    if a.len() > 0 && b.len() > 0 && c.len() > 0 && a[0] == b[0] && b[0] == c[0] {
        lemma_lex_transitive(a.drop_first(), b.drop_first(), c.drop_first());
    }
}

proof fn lemma_lex_skip(a: Seq<char>, b: Seq<char>, i: int)
    requires
        0 <= i < a.len(),
        i < b.len(),
        a[i] == b[i],
    ensures
        lex_less(a.skip(i), b.skip(i)) == lex_less(a.skip(i + 1), b.skip(i + 1)),
{
    assert(a.skip(i).drop_first() =~= a.skip(i + 1));
    assert(b.skip(i).drop_first() =~= b.skip(i + 1));
}

/// Whether `a` comes strictly before `b` in code-point order.
pub fn text_less(a: &Vec<char>, b: &Vec<char>) -> (r: bool)
    ensures
        r == lex_less(a@, b@),
{
    let mut i: usize = 0;
    assert(a@.skip(0) =~= a@);
    assert(b@.skip(0) =~= b@);
    while i < a.len() && i < b.len() && a[i] == b[i]
        invariant
            i <= a.len(),
            i <= b.len(),
            lex_less(a@, b@) == lex_less(a@.skip(i as int), b@.skip(i as int)),
        decreases a.len() - i,
    {
        proof {
            lemma_lex_skip(a@, b@, i as int);
        }
        i += 1;
    }
    if i == b.len() {
        false
    } else if i == a.len() {
        true
    } else {
        assert(a@.skip(i as int)[0] == a@[i as int]);
        assert(b@.skip(i as int)[0] == b@[i as int]);
        a[i] < b[i]
    }
}

} // verus!
