//! Text helpers shared by the rest of the crate: moving between `str`,
//! `String` and sequences of characters, decimal numerals, and the few
//! conversions of the standard library that are taken on trust.

use vstd::prelude::*;
use vstd::string::*;
use vstd::utf8::*;

verus! {

/// `String::push` appends one character.
pub assume_specification[ String::push ](s: &mut String, c: char)
    ensures
        final(s)@ == old(s)@.push(c),
;

/// What `String::from_utf8_lossy` makes of a byte string: the text it
/// encodes, with each malformed sequence replaced by U+FFFD.
pub uninterp spec fn utf8_lossy(bytes: Seq<u8>) -> Seq<char>;

/// What formatting a string with `{:?}` gives: the string in double quotes,
/// with quotes, backslashes and unprintable characters escaped.
pub uninterp spec fn debug_quoted(text: Seq<char>) -> Seq<char>;

/// Whether well-formed bytes are shown as the text they encode.
pub open spec fn lossy_is_decoding(bytes: Seq<u8>) -> bool {
    valid_utf8(bytes) ==> utf8_lossy(bytes) == decode_utf8(bytes)
}

/// `String::from_utf8_lossy`: a function of the bytes alone, which leaves
/// well-formed UTF-8 as the text it encodes.
#[verifier::external_body]
pub(crate) fn string_from_utf8_lossy(bytes: &[u8]) -> (r: String)
    ensures
        r@ == utf8_lossy(bytes@),
        valid_utf8(bytes@) ==> r@ == decode_utf8(bytes@),
{
    String::from_utf8_lossy(bytes).into_owned()
}

/// `format!("{:?}", s)` for a string slice.
#[verifier::external_body]
pub(crate) fn string_debug(s: &str) -> (r: String)
    ensures
        r@ == debug_quoted(s@),
{
    format!("{:?}", s)
}

/// Tests whether two string slices hold the same text.
pub fn str_equal(a: &str, b: &str) -> (same: bool)
    ensures
        same == (a@ == b@),
{
    let a = a.to_owned();
    let b = b.to_owned();
    a == b
}

/// The characters of a string slice, in order.
pub fn str_to_chars(s: &str) -> (v: Vec<char>)
    ensures
        v@ == s@,
{
    let mut v: Vec<char> = Vec::new();
    for c in it: s.chars()
        invariant
            v@ == it.seq().take(it.index() as int),
            it.seq() == s@,
    {
        v.push(c);
    }
    v
}

/// The string made of `chars[from..to]`.
pub fn chars_to_string(chars: &Vec<char>, from: usize, to: usize) -> (s: String)
    requires
        from <= to <= chars.len(),
    ensures
        s@ == chars@.subrange(from as int, to as int),
{
    let mut s = String::new();
    let mut i: usize = from;
    while i < to
        invariant
            from <= i <= to <= chars.len(),
            s@ == chars@.subrange(from as int, i as int),
        decreases to - i,
    {
        s.push(chars[i]);
        i += 1;
    }
    s
}

/// The decimal digit for a value below ten.
pub open spec fn digit(d: nat) -> char
    recommends
        d < 10,
{
    ((48 + d) as u8) as char
}

/// The decimal numeral of `n`, without sign or leading zeros.
pub open spec fn decimal(n: nat) -> Seq<char>
    decreases n,
{
    if n < 10 {
        seq![digit(n)]
    } else {
        decimal(n / 10).push(digit(n % 10))
    }
}

/// The decimal digit for a value below ten.
fn digit_char(d: usize) -> (c: char)
    requires
        d < 10,
    ensures
        c == digit(d as nat),
{
    let b: u8 = 48u8 + (d as u8);
    b as char
}

/// Writes `n` in decimal.
pub fn decimal_string(n: usize) -> (s: String)
    ensures
        s@ == decimal(n as nat),
{
    let mut low: Vec<char> = Vec::new();
    let mut m: usize = n;
    while m >= 10
        invariant
            decimal(n as nat) == decimal(m as nat) + low@.reverse(),
        decreases m,
    {
        let d = digit_char(m % 10);
        proof {
            assert(low@.push(d).reverse() == seq![d] + low@.reverse());
            assert(decimal(m as nat) == decimal((m / 10) as nat).push(d));
            assert(decimal((m / 10) as nat).push(d) + low@.reverse() == decimal((m / 10) as nat)
                + (seq![d] + low@.reverse()));
        }
        low.push(d);
        m = m / 10;
    }
    let mut s = String::new();
    s.push(digit_char(m));
    let mut i: usize = low.len();
    while i > 0
        invariant
            i <= low.len(),
            s@ == decimal(m as nat) + low@.reverse().take(low.len() - i),
            m < 10,
        decreases i,
    {
        i -= 1;
        proof {
            let r = low@.reverse();
            let k = low.len() - i - 1;
            assert(r[k] == low@[i as int]);
            assert(r.take(k + 1) == r.take(k).push(r[k]));
            assert((decimal(m as nat) + r.take(k)).push(r[k]) == decimal(m as nat) + r.take(k + 1));
        }
        s.push(low[i]);
    }
    proof {
        assert(low@.reverse().take(low.len() as int) == low@.reverse());
    }
    s
}

/// Whether `c` has the Unicode property White_Space.
pub open spec fn is_whitespace(c: char) -> bool {
    let v = c as u32;
    ||| 0x09 <= v <= 0x0D
    ||| v == 0x20
    ||| v == 0x85
    ||| v == 0xA0
    ||| v == 0x1680
    ||| 0x2000 <= v <= 0x200A
    ||| v == 0x2028
    ||| v == 0x2029
    ||| v == 0x202F
    ||| v == 0x205F
    ||| v == 0x3000
}

/// Tests a character for the Unicode property White_Space.
pub fn char_is_whitespace(c: char) -> (b: bool)
    ensures
        b == is_whitespace(c),
{
    let v: u32 = c as u32;
    (0x09 <= v && v <= 0x0D) || v == 0x20 || v == 0x85 || v == 0xA0 || v == 0x1680 || (0x2000 <= v
        && v <= 0x200A) || v == 0x2028 || v == 0x2029 || v == 0x202F || v == 0x205F || v == 0x3000
}

/// Whether `s` begins with `prefix`.
pub open spec fn starts_with<T>(s: Seq<T>, prefix: Seq<T>) -> bool {
    prefix.len() <= s.len() && s.take(prefix.len() as int) == prefix
}

/// Whether `s` ends with `suffix`.
pub open spec fn ends_with<T>(s: Seq<T>, suffix: Seq<T>) -> bool {
    suffix.len() <= s.len() && s.skip(s.len() - suffix.len()) == suffix
}

/// Whether `pattern` occurs in `s` at index `at`.
pub open spec fn occurs_at<T>(s: Seq<T>, pattern: Seq<T>, at: int) -> bool {
    0 <= at && at + pattern.len() <= s.len() && s.subrange(at, at + pattern.len()) == pattern
}

/// Tests whether `pattern` occurs in `chars` at index `at`.
pub fn matches_at(chars: &Vec<char>, pattern: &Vec<char>, at: usize) -> (b: bool)
    ensures
        b == occurs_at(chars@, pattern@, at as int),
{
    if at > chars.len() || pattern.len() > chars.len() - at {
        return false;
    }
    let mut k: usize = 0;
    while k < pattern.len()
        invariant
            k <= pattern.len(),
            at + pattern.len() <= chars.len(),
            forall|j: int| 0 <= j < k ==> chars@[at + j] == pattern@[j],
        decreases pattern.len() - k,
    {
        if chars[at + k] != pattern[k] {
            proof {
                assert(chars@.subrange(at as int, at + pattern.len())[k as int] == chars@[at + k]);
            }
            return false;
        }
        k += 1;
    }
    proof {
        assert(chars@.subrange(at as int, at + pattern.len()) =~= pattern@);
    }
    true
}

/// Whether `i` is the first place at which `c` stands in `s`.
pub open spec fn first_index(s: Seq<char>, c: char, i: int) -> bool {
    &&& 0 <= i < s.len()
    &&& s[i] == c
    &&& forall|j: int| 0 <= j < i ==> s[j] != c
}

/// The first place at which `c` stands in `chars`, if it stands in it.
pub fn find_char(chars: &Vec<char>, c: char) -> (found: Option<usize>)
    ensures
        found is Some <==> chars@.contains(c),
        found matches Some(i) ==> first_index(chars@, c, i as int) && (choose|k: int|
            first_index(chars@, c, k)) == i,
{
    let mut i: usize = 0;
    while i < chars.len()
        invariant
            i <= chars.len(),
            forall|j: int| 0 <= j < i ==> chars@[j] != c,
        decreases chars.len() - i,
    {
        if chars[i] == c {
            proof {
                assert(first_index(chars@, c, i as int));
                let k = choose|k: int| first_index(chars@, c, k);
                assert(k == i) by {
                    if k < i {
                        assert(chars@[k] != c);
                    } else if k > i {
                        assert(chars@[i as int] == c);
                    }
                }
            }
            return Some(i);
        }
        i += 1;
    }
    None
}

/// `s` without the white space at its end.
pub open spec fn trim_end(s: Seq<char>) -> Seq<char>
    decreases s.len(),
{
    if s.len() > 0 && is_whitespace(s.last()) {
        trim_end(s.drop_last())
    } else {
        s
    }
}

/// The length of `chars[from..]` without the white space at its end, counted
/// from the start of `chars`.
pub fn trimmed_end(chars: &Vec<char>, from: usize) -> (to: usize)
    requires
        from <= chars.len(),
    ensures
        from <= to <= chars.len(),
        chars@.subrange(from as int, to as int) == trim_end(chars@.skip(from as int)),
{
    let mut to: usize = chars.len();
    proof {
        assert(chars@.subrange(from as int, to as int) =~= chars@.skip(from as int));
    }
    while to > from && char_is_whitespace(chars[to - 1])
        invariant
            from <= to <= chars.len(),
            trim_end(chars@.subrange(from as int, to as int)) == trim_end(chars@.skip(from as int)),
        decreases to,
    {
        proof {
            let piece = chars@.subrange(from as int, to as int);
            assert(piece.last() == chars@[to - 1]);
            assert(piece.drop_last() =~= chars@.subrange(from as int, to - 1));
        }
        to -= 1;
    }
    proof {
        let piece = chars@.subrange(from as int, to as int);
        if to > from {
            assert(piece.last() == chars@[to - 1]);
        }
    }
    to
}

/// Where the text behind the blank lines begins: a line is blank that holds
/// nothing but white space. `start` is where the line began at which the
/// search stands, and `at` is where it stands.
pub open spec fn blank_lines_end(s: Seq<char>, start: int, at: int) -> int
    decreases s.len() - at,
{
    if at < 0 || at >= s.len() || !is_whitespace(s[at]) {
        start
    } else if s[at] == '\n' {
        blank_lines_end(s, at + 1, at + 1)
    } else {
        blank_lines_end(s, start, at + 1)
    }
}

/// `s` from `from` on, without the blank lines it begins with.
pub open spec fn without_blank_lines(s: Seq<char>, from: int) -> Seq<char> {
    s.skip(blank_lines_end(s, from, from))
}

/// Where the text of `chars[from..]` begins behind its blank lines.
pub fn after_blank_lines(chars: &Vec<char>, from: usize) -> (to: usize)
    requires
        from <= chars.len(),
    ensures
        from <= to <= chars.len(),
        to == blank_lines_end(chars@, from as int, from as int),
{
    let mut start: usize = from;
    let mut at: usize = from;
    while at < chars.len() && char_is_whitespace(chars[at])
        invariant
            from <= start <= at <= chars.len(),
            blank_lines_end(chars@, from as int, from as int) == blank_lines_end(
                chars@,
                start as int,
                at as int,
            ),
        decreases chars.len() - at,
    {
        if chars[at] == '\n' {
            start = at + 1;
        }
        at += 1;
    }
    start
}

/// The pieces of `s` between the occurrences of `pattern`, which are looked
/// for from left to right and do not overlap: the piece that began at
/// `start`, while the search stands at `at`, and the pieces after it.
pub open spec fn split_from(s: Seq<char>, pattern: Seq<char>, start: int, at: int) -> Seq<
    Seq<char>,
>
    decreases s.len() - at,
{
    if pattern.len() == 0 || at < 0 || at + pattern.len() > s.len() {
        seq![s.subrange(start, s.len() as int)]
    } else if occurs_at(s, pattern, at) {
        seq![s.subrange(start, at)] + split_from(
            s,
            pattern,
            at + pattern.len(),
            at + pattern.len(),
        )
    } else {
        split_from(s, pattern, start, at + 1)
    }
}

/// The pieces of `s` between the occurrences of `pattern`.
pub open spec fn split(s: Seq<char>, pattern: Seq<char>) -> Seq<Seq<char>> {
    split_from(s, pattern, 0, 0)
}

/// The sequences that a vector of vectors stands for.
pub open spec fn pieces_view(pieces: Seq<Vec<char>>) -> Seq<Seq<char>> {
    pieces.map_values(|piece: Vec<char>| piece@)
}

/// A copy of `chars[from..to]`.
pub fn copy_range(chars: &Vec<char>, from: usize, to: usize) -> (piece: Vec<char>)
    requires
        from <= to <= chars.len(),
    ensures
        piece@ == chars@.subrange(from as int, to as int),
{
    let mut piece: Vec<char> = Vec::new();
    let mut i: usize = from;
    while i < to
        invariant
            from <= i <= to <= chars.len(),
            piece@ == chars@.subrange(from as int, i as int),
        decreases to - i,
    {
        piece.push(chars[i]);
        i += 1;
    }
    piece
}

/// Splits `chars` at the occurrences of `pattern`.
pub fn split_chars(chars: &Vec<char>, pattern: &Vec<char>) -> (pieces: Vec<Vec<char>>)
    requires
        pattern.len() > 0,
    ensures
        pieces_view(pieces@) == split(chars@, pattern@),
{
    let mut pieces: Vec<Vec<char>> = Vec::new();
    let mut start: usize = 0;
    let mut at: usize = 0;
    proof {
        assert(pieces_view(pieces@) =~= Seq::<Seq<char>>::empty());
        assert(Seq::<Seq<char>>::empty() + split(chars@, pattern@) =~= split(chars@, pattern@));
    }
    while at <= chars.len() && pattern.len() <= chars.len() - at
        invariant
            start <= at,
            start <= chars.len(),
            pattern.len() > 0,
            split(chars@, pattern@) == pieces_view(pieces@) + split_from(
                chars@,
                pattern@,
                start as int,
                at as int,
            ),
        decreases chars.len() - at,
    {
        if matches_at(chars, pattern, at) {
            let piece = copy_range(chars, start, at);
            proof {
                let rest = split_from(
                    chars@,
                    pattern@,
                    at + pattern.len(),
                    at + pattern.len(),
                );
                assert(pieces_view(pieces@.push(piece)) =~= pieces_view(pieces@).push(piece@));
                assert(pieces_view(pieces@) + (seq![piece@] + rest) =~= pieces_view(pieces@).push(
                    piece@,
                ) + rest);
            }
            pieces.push(piece);
            at = at + pattern.len();
            start = at;
        } else {
            at += 1;
        }
    }
    let piece = copy_range(chars, start, chars.len());
    proof {
        assert(pieces_view(pieces@.push(piece)) =~= pieces_view(pieces@).push(piece@));
        assert(pieces_view(pieces@) + seq![piece@] =~= pieces_view(pieces@).push(piece@));
    }
    pieces.push(piece);
    pieces
}

/// The lines of `s`, each with the line feed that ends it; what follows the
/// last line feed is a line too, unless it is empty: the line that began at
/// `start`, while the search stands at `at`, and the lines after it.
pub open spec fn lines_from(s: Seq<char>, start: int, at: int) -> Seq<Seq<char>>
    decreases s.len() - at,
{
    if at < 0 || at >= s.len() {
        if start < s.len() {
            seq![s.subrange(start, s.len() as int)]
        } else {
            Seq::empty()
        }
    } else if s[at] == '\n' {
        seq![s.subrange(start, at + 1)] + lines_from(s, at + 1, at + 1)
    } else {
        lines_from(s, start, at + 1)
    }
}

/// The lines of `s`, each with the line feed that ends it.
pub open spec fn lines_of(s: Seq<char>) -> Seq<Seq<char>> {
    lines_from(s, 0, 0)
}

/// Splits `chars` into its lines.
pub fn split_lines(chars: &Vec<char>) -> (lines: Vec<Vec<char>>)
    ensures
        pieces_view(lines@) == lines_of(chars@),
{
    let mut lines: Vec<Vec<char>> = Vec::new();
    let mut start: usize = 0;
    let mut at: usize = 0;
    proof {
        assert(pieces_view(lines@) =~= Seq::<Seq<char>>::empty());
        assert(Seq::<Seq<char>>::empty() + lines_of(chars@) =~= lines_of(chars@));
    }
    while at < chars.len()
        invariant
            start <= at <= chars.len(),
            lines_of(chars@) == pieces_view(lines@) + lines_from(chars@, start as int, at as int),
        decreases chars.len() - at,
    {
        if chars[at] == '\n' {
            let line = copy_range(chars, start, at + 1);
            proof {
                let rest = lines_from(chars@, at + 1, at + 1);
                assert(pieces_view(lines@.push(line)) =~= pieces_view(lines@).push(line@));
                assert(pieces_view(lines@) + (seq![line@] + rest) =~= pieces_view(lines@).push(
                    line@,
                ) + rest);
            }
            lines.push(line);
            at += 1;
            start = at;
        } else {
            at += 1;
        }
    }
    if start < chars.len() {
        let line = copy_range(chars, start, chars.len());
        proof {
            assert(pieces_view(lines@.push(line)) =~= pieces_view(lines@).push(line@));
            assert(pieces_view(lines@) + seq![line@] =~= pieces_view(lines@).push(line@));
        }
        lines.push(line);
    } else {
        proof {
            assert(pieces_view(lines@) + Seq::<Seq<char>>::empty() =~= pieces_view(lines@));
        }
    }
    lines
}

/// Whether `c` is white space of ASCII: blank, tab, line feed, form feed or
/// carriage return.
pub open spec fn is_ascii_whitespace(c: char) -> bool {
    c == ' ' || c == '\t' || c == '\n' || c == '\u{c}' || c == '\r'
}

/// The words of `s`, which white space of ASCII separates: the word that
/// began at `start`, while the search stands at `at`, and the words after
/// it.
pub open spec fn words_from(s: Seq<char>, start: int, at: int) -> Seq<Seq<char>>
    decreases s.len() - at,
{
    if at < 0 || at >= s.len() {
        if start < s.len() {
            seq![s.subrange(start, s.len() as int)]
        } else {
            Seq::empty()
        }
    } else if is_ascii_whitespace(s[at]) {
        if start < at {
            seq![s.subrange(start, at)] + words_from(s, at + 1, at + 1)
        } else {
            words_from(s, at + 1, at + 1)
        }
    } else {
        words_from(s, start, at + 1)
    }
}

/// The words of `s`, which white space of ASCII separates.
pub open spec fn words_of(s: Seq<char>) -> Seq<Seq<char>> {
    words_from(s, 0, 0)
}

/// Splits `chars` into its words.
pub fn split_words(chars: &Vec<char>) -> (words: Vec<Vec<char>>)
    ensures
        pieces_view(words@) == words_of(chars@),
{
    let mut words: Vec<Vec<char>> = Vec::new();
    let mut start: usize = 0;
    let mut at: usize = 0;
    proof {
        assert(pieces_view(words@) =~= Seq::<Seq<char>>::empty());
        assert(Seq::<Seq<char>>::empty() + words_of(chars@) =~= words_of(chars@));
    }
    while at < chars.len()
        invariant
            start <= at <= chars.len(),
            words_of(chars@) == pieces_view(words@) + words_from(chars@, start as int, at as int),
        decreases chars.len() - at,
    {
        let c = chars[at];
        if c == ' ' || c == '\t' || c == '\n' || c == '\u{c}' || c == '\r' {
            if start < at {
                let word = copy_range(chars, start, at);
                proof {
                    let rest = words_from(chars@, at + 1, at + 1);
                    assert(pieces_view(words@.push(word)) =~= pieces_view(words@).push(word@));
                    assert(pieces_view(words@) + (seq![word@] + rest) =~= pieces_view(words@).push(
                        word@,
                    ) + rest);
                }
                words.push(word);
            }
            at += 1;
            start = at;
        } else {
            at += 1;
        }
    }
    if start < chars.len() {
        let word = copy_range(chars, start, chars.len());
        proof {
            assert(pieces_view(words@.push(word)) =~= pieces_view(words@).push(word@));
            assert(pieces_view(words@) + seq![word@] =~= pieces_view(words@).push(word@));
        }
        words.push(word);
    } else {
        proof {
            assert(pieces_view(words@) + Seq::<Seq<char>>::empty() =~= pieces_view(words@));
        }
    }
    words
}

/// Tests whether `chars` spell `word`.
pub fn spells(chars: &Vec<char>, word: &str) -> (b: bool)
    ensures
        b == (chars@ == word@),
{
    let letters = str_to_chars(word);
    let b = chars.len() == letters.len() && matches_at(chars, &letters, 0);
    proof {
        if chars.len() == letters.len() {
            assert(chars@.subrange(0, 0 + letters@.len() as int) =~= chars@);
        }
    }
    b
}

} // verus!
