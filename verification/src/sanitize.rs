//! What the interpreter printed, as plain text: terminal escape sequences and
//! carriage returns taken out.

use vstd::prelude::*;
use vstd::utf8::*;

verus! {

/// What `strip_ansi_escapes::strip` returns for a byte string: the bytes with
/// the terminal's escape sequences and control characters taken out, line
/// feeds kept.
pub uninterp spec fn ansi_stripped(bytes: Seq<u8>) -> Seq<u8>;

/// The byte value of a carriage return.
pub const CARRIAGE_RETURN: u8 = 0x0D;

/// The byte value of a line feed.
pub const LINE_FEED: u8 = 0x0A;

/// Holds of every byte but the carriage return.
pub open spec fn not_carriage_return() -> spec_fn(u8) -> bool {
    |b: u8| b != CARRIAGE_RETURN
}

/// A byte string sanitized: escape sequences stripped, then every carriage
/// return removed.
pub open spec fn sanitized(raw: Seq<u8>) -> Seq<u8> {
    ansi_stripped(raw).filter(not_carriage_return())
}

/// `s` without one line feed at its end, if it ends in one.
pub open spec fn without_final_line_feed(s: Seq<u8>) -> Seq<u8> {
    if s.len() > 0 && s.last() == LINE_FEED {
        s.drop_last()
    } else {
        s
    }
}

/// The text that a stretch of raw interpreter output shows: sanitized, and
/// without the line feed that ends it.
pub open spec fn observed(raw: Seq<u8>) -> Seq<u8> {
    without_final_line_feed(sanitized(raw))
}

/// Whether a terminal shows the character: a line feed, or a character that
/// is no control character, neither below U+0020 nor from U+0080 to U+009F.
pub open spec fn is_printable(c: char) -> bool {
    c == '\n' || !((c as u32) < 0x20 || 0x80 <= (c as u32) <= 0x9F)
}

/// Whether a terminal shows every character of the text.
pub open spec fn printable(text: Seq<char>) -> bool {
    forall|i: int| 0 <= i < text.len() ==> is_printable(#[trigger] text[i])
}

/// Whether the bytes are plain text: well-formed UTF-8 of characters that a
/// terminal shows.
pub open spec fn is_plain(bytes: Seq<u8>) -> bool {
    valid_utf8(bytes) && printable(decode_utf8(bytes))
}

/// The byte value of the escape character.
pub const ESCAPE: u8 = 0x1B;

/// Whether the bytes are text without an escape: well-formed UTF-8 in which
/// no escape sequence can begin.
pub open spec fn is_text_without_escape(bytes: Seq<u8>) -> bool {
    valid_utf8(bytes) && !bytes.contains(ESCAPE)
}

/// The characters of the text that a terminal shows, in their order.
pub open spec fn shown_only(text: Seq<char>) -> Seq<char>
    decreases text.len(),
{
    if text.len() == 0 {
        text
    } else if is_printable(text[0]) {
        seq![text[0]] + shown_only(text.drop_first())
    } else {
        shown_only(text.drop_first())
    }
}

/// Whether `part` is `whole` with some of its elements deleted: nothing is
/// added, changed or put elsewhere.
pub open spec fn is_subsequence<T>(part: Seq<T>, whole: Seq<T>) -> bool
    decreases whole.len(),
{
    if part.len() == 0 {
        true
    } else if whole.len() == 0 {
        false
    } else {
        ||| part[0] == whole[0] && is_subsequence(part.drop_first(), whole.drop_first())
        ||| is_subsequence(part, whole.drop_first())
    }
}

/// Whether sanitizing leaves the bytes as they are if they are plain text.
pub open spec fn plain_is_kept(raw: Seq<u8>) -> bool {
    is_plain(raw) ==> sanitized(raw) == raw
}

/// What is known of sanitized bytes beyond the name of what stripping
/// returns. They are plain text, and so is the text they show. Plain text is
/// left as it is. And text without an escape loses its control characters
/// and nothing else: what is left are the characters that a terminal shows,
/// in their order.
pub open spec fn sanitizing_is_known(raw: Seq<u8>) -> bool {
    &&& is_plain(sanitized(raw))
    &&& valid_utf8(observed(raw))
    &&& plain_is_kept(raw)
    &&& is_text_without_escape(raw) ==> sanitized(raw) == encode_utf8(
        shown_only(decode_utf8(raw)),
    )
    &&& is_text_without_escape(raw) ==> is_subsequence(
        decode_utf8(sanitized(raw)),
        decode_utf8(raw),
    )
}

/// Calls `strip_ansi_escapes::strip`. Four things are claimed of it and not
/// proved: that the result depends on the bytes alone; that the result is
/// plain text; that stripping it once more gives it back unchanged; and
/// that of text without an escape the characters that a terminal shows are
/// returned, in their order, and nothing else. The grounds: the crate
/// writes out nothing but the characters that its parser prints, and a line
/// feed for each line feed that its parser executes; and as long as no
/// escape comes, the parser prints every character that is no control
/// character and executes the others.
#[verifier::external_body]
fn strip_ansi(bytes: &[u8]) -> (plain: Vec<u8>)
    ensures
        plain@ == ansi_stripped(bytes@),
        is_plain(plain@),
        ansi_stripped(plain@) == plain@,
        is_text_without_escape(bytes@) ==> plain@ == encode_utf8(
            shown_only(decode_utf8(bytes@)),
        ),
{
    strip_ansi_escapes::strip(bytes)
}

/// A text with one more character encodes to the bytes of the text and,
/// behind them, the bytes of the character.
pub proof fn lemma_encode_push(text: Seq<char>, c: char)
    ensures
        encode_utf8(text.push(c)) == encode_utf8(text) + encode_scalar(c as u32),
    decreases text.len(),
{
    if text.len() == 0 {
        assert(text.push(c).drop_first() =~= Seq::<char>::empty());
        assert(encode_utf8(Seq::<char>::empty()) =~= Seq::<u8>::empty());
        assert(encode_utf8(text.push(c)) =~= encode_scalar(c as u32) + Seq::<u8>::empty());
        assert(encode_utf8(text) + encode_scalar(c as u32) =~= encode_scalar(c as u32));
    } else {
        assert(text.push(c).drop_first() =~= text.drop_first().push(c));
        lemma_encode_push(text.drop_first(), c);
        assert(encode_scalar(text[0] as u32) + (encode_utf8(text.drop_first()) + encode_scalar(
            c as u32,
        )) =~= (encode_scalar(text[0] as u32) + encode_utf8(text.drop_first())) + encode_scalar(
            c as u32,
        ));
    }
}

/// The bytes of a character's encoding: there is one at least, and one
/// below 0x80 is the only one and is the character's own value.
pub proof fn lemma_scalar_bytes(c: char)
    ensures
        encode_scalar(c as u32).len() > 0,
        forall|i: int|
            0 <= i < encode_scalar(c as u32).len() && #[trigger] encode_scalar(c as u32)[i] < 0x80
                ==> encode_scalar(c as u32).len() == 1 && (c as u32) == encode_scalar(
                c as u32,
            )[i],
        (c as u32) < 0x80 ==> encode_scalar(c as u32) == seq![(c as u32) as u8],
{
    let v = c as u32;
    assert(forall|a: u8| 0x80u8 | a >= 0x80u8) by (bit_vector);
    assert(forall|a: u8| 0xC0u8 | a >= 0x80u8) by (bit_vector);
    assert(forall|a: u8| 0xE0u8 | a >= 0x80u8) by (bit_vector);
    assert(forall|a: u8| 0xF0u8 | a >= 0x80u8) by (bit_vector);
    assert(v <= 0x7F ==> ((v & 0x7F) as u8) == v) by (bit_vector);
    if v < 0x80 {
        assert(encode_scalar(v) =~= seq![v as u8]);
    }
}

/// A text ends in the byte of a line feed exactly if it ends in a line feed.
pub proof fn lemma_final_byte(text: Seq<char>)
    ensures
        text.len() == 0 <==> encode_utf8(text).len() == 0,
        text.len() > 0 ==> (encode_utf8(text).last() == LINE_FEED <==> text.last() == '\n'),
{
    if text.len() > 0 {
        let c = text.last();
        assert(text.drop_last().push(c) =~= text);
        lemma_encode_push(text.drop_last(), c);
        lemma_scalar_bytes(c);
        let tail = encode_scalar(c as u32);
        assert(encode_utf8(text).last() == tail[tail.len() - 1]);
        if tail[tail.len() - 1] == LINE_FEED {
            vstd::utf8::char_u32_cast(c, c as u32);
        }
    } else {
        assert(encode_utf8(text) =~= Seq::<u8>::empty());
    }
}

/// Plain text holds no control character among its bytes but the line feed:
/// no carriage return, and no escape.
pub proof fn lemma_plain_bytes(text: Seq<char>)
    requires
        printable(text),
    ensures
        forall|i: int|
            0 <= i < encode_utf8(text).len() ==> #[trigger] encode_utf8(text)[i] == LINE_FEED
                || encode_utf8(text)[i] >= 0x20,
        !encode_utf8(text).contains(CARRIAGE_RETURN),
        !encode_utf8(text).contains(ESCAPE),
    decreases text.len(),
{
    if text.len() > 0 {
        let front = text.drop_last();
        let c = text.last();
        assert(front.push(c) =~= text);
        assert(printable(front)) by {
            assert forall|i: int| 0 <= i < front.len() implies is_printable(
                #[trigger] front[i],
            ) by {
                assert(front[i] == text[i]);
            }
        }
        assert(is_printable(text[text.len() - 1]));
        lemma_plain_bytes(front);
        lemma_encode_push(front, c);
        lemma_scalar_bytes(c);
        let bytes = encode_utf8(text);
        let tail = encode_scalar(c as u32);
        assert forall|i: int| 0 <= i < bytes.len() implies #[trigger] bytes[i] == LINE_FEED
            || bytes[i] >= 0x20 by {
            if i < encode_utf8(front).len() {
                assert(bytes[i] == encode_utf8(front)[i]);
            } else {
                assert(bytes[i] == tail[i - encode_utf8(front).len()]);
                if bytes[i] < 0x20 {
                    vstd::utf8::char_u32_cast(c, c as u32);
                }
            }
        }
    } else {
        assert(encode_utf8(text) =~= Seq::<u8>::empty());
    }
}

/// What a terminal shows of plain text is the text.
pub proof fn lemma_plain_text_is_all_shown(text: Seq<char>)
    requires
        printable(text),
    ensures
        shown_only(text) == text,
    decreases text.len(),
{
    if text.len() > 0 {
        let rest = text.drop_first();
        assert(is_printable(text[0]));
        assert forall|i: int| 0 <= i < rest.len() implies is_printable(#[trigger] rest[i]) by {
            assert(rest[i] == text[i + 1]);
        }
        lemma_plain_text_is_all_shown(rest);
        assert(seq![text[0]] + rest =~= text);
    }
}

/// What a terminal shows of a text is the text with some characters deleted:
/// none is added, changed or put elsewhere.
pub proof fn lemma_shown_only_deletes(text: Seq<char>)
    ensures
        is_subsequence(shown_only(text), text),
        printable(shown_only(text)),
    decreases text.len(),
{
    if text.len() > 0 {
        let rest = text.drop_first();
        lemma_shown_only_deletes(rest);
        if is_printable(text[0]) {
            let shown = seq![text[0]] + shown_only(rest);
            assert(shown.drop_first() =~= shown_only(rest));
            assert forall|i: int| 0 <= i < shown.len() implies is_printable(
                #[trigger] shown[i],
            ) by {
                if i > 0 {
                    assert(shown[i] == shown_only(rest)[i - 1]);
                }
            }
        }
    }
}

/// Text stays text when the line feed that ends it is taken off.
pub proof fn lemma_text_without_final_line_feed(bytes: Seq<u8>)
    requires
        valid_utf8(bytes),
    ensures
        valid_utf8(without_final_line_feed(bytes)),
{
    broadcast use vstd::utf8::decode_utf8_encode_utf8, vstd::utf8::encode_utf8_valid_utf8;

    if bytes.len() > 0 && bytes.last() == LINE_FEED {
        let text = decode_utf8(bytes);
        assert(encode_utf8(text) == bytes);
        lemma_final_byte(text);
        let front = text.drop_last();
        assert(front.push('\n') =~= text);
        lemma_encode_push(front, '\n');
        lemma_scalar_bytes('\n');
        assert(bytes.drop_last() =~= encode_utf8(front));
    }
}

/// A sequence without carriage returns loses nothing when they are removed.
pub proof fn lemma_filter_without_carriage_return(s: Seq<u8>)
    requires
        !s.contains(CARRIAGE_RETURN),
    ensures
        s.filter(not_carriage_return()) == s,
    decreases s.len(),
{
    reveal(Seq::filter);
    if s.len() > 0 {
        let front = s.drop_last();
        assert forall|i: int| 0 <= i < front.len() implies front[i] != CARRIAGE_RETURN by {
            assert(s[i] == front[i]);
        }
        lemma_filter_without_carriage_return(front);
        assert(s[s.len() - 1] != CARRIAGE_RETURN);
        assert(front.push(s.last()) == s);
    }
}

/// Removing carriage returns leaves none.
pub proof fn lemma_filter_has_no_carriage_return(s: Seq<u8>)
    ensures
        !s.filter(not_carriage_return()).contains(CARRIAGE_RETURN),
{
    let kept = s.filter(not_carriage_return());
    assert forall|i: int| 0 <= i < kept.len() implies kept[i] != CARRIAGE_RETURN by {
        s.lemma_filter_pred(not_carriage_return(), i);
    }
}

/// Removes every carriage return.
pub fn remove_carriage_returns(bytes: &[u8]) -> (kept: Vec<u8>)
    ensures
        kept@ == bytes@.filter(not_carriage_return()),
{
    let mut kept: Vec<u8> = Vec::new();
    let mut i: usize = 0;
    proof {
        reveal(Seq::filter);
        assert(bytes@.take(0) =~= Seq::<u8>::empty());
    }
    while i < bytes.len()
        invariant
            i <= bytes.len(),
            kept@ == bytes@.take(i as int).filter(not_carriage_return()),
        decreases bytes.len() - i,
    {
        proof {
            let head = bytes@.take(i as int);
            assert(bytes@.take(i + 1) == head.push(bytes@[i as int]));
            head.lemma_filter_push(bytes@[i as int], not_carriage_return());
        }
        if bytes[i] != CARRIAGE_RETURN {
            kept.push(bytes[i]);
        }
        i += 1;
    }
    proof {
        assert(bytes@.take(bytes.len() as int) == bytes@);
    }
    kept
}

/// Sanitizes raw interpreter output. The result holds no carriage return and
/// is itself sanitized: sanitizing it again changes nothing. It is plain
/// text; plain text is left as it is; and of text without an escape nothing
/// is lost but the control characters.
pub fn sanitize(raw: &[u8]) -> (plain: Vec<u8>)
    ensures
        plain@ == sanitized(raw@),
        sanitized(plain@) == plain@,
        !plain@.contains(CARRIAGE_RETURN),
        sanitizing_is_known(raw@),
{
    broadcast use vstd::utf8::decode_utf8_encode_utf8;

    let stripped = strip_ansi(raw);
    let plain = remove_carriage_returns(stripped.as_slice());
    proof {
        lemma_plain_bytes(decode_utf8(stripped@));
        lemma_filter_without_carriage_return(stripped@);
        lemma_text_without_final_line_feed(stripped@);
        if is_text_without_escape(raw@) {
            broadcast use vstd::utf8::encode_utf8_decode_utf8;

            lemma_shown_only_deletes(decode_utf8(raw@));
        }
        if is_plain(raw@) {
            lemma_plain_bytes(decode_utf8(raw@));
            lemma_plain_text_is_all_shown(decode_utf8(raw@));
        }
    }
    plain
}

/// The text that raw interpreter output shows: see [`observed`].
pub fn observe(raw: &[u8]) -> (text: Vec<u8>)
    ensures
        text@ == observed(raw@),
        sanitizing_is_known(raw@),
{
    let mut text = sanitize(raw);
    let n = text.len();
    if n > 0 && text[n - 1] == LINE_FEED {
        text.pop();
    }
    text
}

} // verus!
