//! Character classes, blank and trimmed text, and text cut to a length in
//! bytes.

use vstd::prelude::*;
use vstd::string::*;
use vstd::utf8::*;

use crate::text;

verus! {

/// What `char::is_alphanumeric` returns: whether Unicode counts a character as
/// a letter or a number.
pub uninterp spec fn alphanumeric(c: char) -> bool;

/// Whether `c` is an ASCII letter or digit.
pub open spec fn ascii_alphanumeric(c: char) -> bool {
    'a' <= c <= 'z' || 'A' <= c <= 'Z' || '0' <= c <= '9'
}

/// Whether a character has Unicode's `White_Space` property: tab to carriage
/// return, the spaces, the next line, and the line and paragraph separators.
pub open spec fn white_space(c: char) -> bool {
    ||| '\u{9}' <= c <= '\u{d}'
    ||| c == ' '
    ||| c == '\u{85}'
    ||| c == '\u{a0}'
    ||| c == '\u{1680}'
    ||| '\u{2000}' <= c <= '\u{200a}'
    ||| c == '\u{2028}'
    ||| c == '\u{2029}'
    ||| c == '\u{202f}'
    ||| c == '\u{205f}'
    ||| c == '\u{3000}'
}

/// `char::is_alphanumeric` depends on the character alone; among the ASCII
/// characters it holds of the letters and digits.
pub assume_specification[ char::is_alphanumeric ](c: char) -> (result: bool)
    ensures
        result == alphanumeric(c),
        (c as u32) < 128 ==> result == ascii_alphanumeric(c),
;

/// `char::is_whitespace` holds of the characters with the `White_Space`
/// property.
pub assume_specification[ char::is_whitespace ](c: char) -> (result: bool)
    ensures
        result == white_space(c),
;

/// Whether `s` holds nothing but white space.
pub open spec fn blank(s: Seq<char>) -> bool {
    forall|i: int| 0 <= i < s.len() ==> white_space(#[trigger] s[i])
}

/// `s` without the white space at its start.
pub open spec fn trimmed_start(s: Seq<char>) -> Seq<char>
    decreases s.len(),
{
    if s.len() > 0 && white_space(s[0]) {
        trimmed_start(s.drop_first())
    } else {
        s
    }
}

/// `s` without the white space at its end.
pub open spec fn trimmed_end(s: Seq<char>) -> Seq<char>
    decreases s.len(),
{
    if s.len() > 0 && white_space(s.last()) {
        trimmed_end(s.drop_last())
    } else {
        s
    }
}

/// `s` without the white space at its two ends.
pub open spec fn trimmed(s: Seq<char>) -> Seq<char> {
    trimmed_end(trimmed_start(s))
}

/// Whether a string holds nothing but white space.
pub fn is_blank(s: &str) -> (result: bool)
    ensures
        result == blank(s@),
{
    let chars = text::characters(s);
    let mut i: usize = 0;
    while i < chars.len()
        invariant
            i <= chars@.len(),
            chars@ == s@,
            forall|j: int| 0 <= j < i ==> white_space(#[trigger] chars@[j]),
        decreases chars.len() - i,
    {
        if !chars[i].is_whitespace() {
            assert(!white_space(s@[i as int]));
            return false;
        }
        i = i + 1;
    }
    true
}

proof fn lemma_trimmed_start_skip(s: Seq<char>, n: int)
    requires
        0 <= n <= s.len(),
        forall|j: int| 0 <= j < n ==> white_space(#[trigger] s[j]),
        n < s.len() ==> !white_space(s[n]),
    ensures
        trimmed_start(s) == s.skip(n),
    decreases n,
{
    if n > 0 {
        assert(white_space(s[0]));
        let rest = s.drop_first();
        assert forall|j: int| 0 <= j < n - 1 implies white_space(#[trigger] rest[j]) by {
            assert(rest[j] == s[j + 1]);
        }
        lemma_trimmed_start_skip(rest, n - 1);
        assert(rest.skip(n - 1) =~= s.skip(n));
    } else {
        assert(s.skip(0) =~= s);
    }
}

proof fn lemma_trimmed_end_take(s: Seq<char>, n: int)
    requires
        0 <= n <= s.len(),
        forall|j: int| n <= j < s.len() ==> white_space(#[trigger] s[j]),
        n > 0 ==> !white_space(s[n - 1]),
    ensures
        trimmed_end(s) == s.take(n),
    decreases s.len() - n,
{
    if n < s.len() {
        assert(white_space(s[s.len() - 1]));
        let rest = s.drop_last();
        assert forall|j: int| n <= j < rest.len() implies white_space(#[trigger] rest[j]) by {
            assert(rest[j] == s[j]);
        }
        lemma_trimmed_end_take(rest, n);
        assert(rest.take(n) =~= s.take(n));
    } else {
        assert(s.take(n) =~= s);
    }
}

/// A string without the white space at its two ends.
pub fn trim(s: &str) -> (part: &str)
    ensures
        part@ == trimmed(s@),
{
    let chars = text::characters(s);
    let mut from: usize = 0;
    while from < chars.len() && chars[from].is_whitespace()
        invariant
            from <= chars@.len(),
            forall|j: int| 0 <= j < from ==> white_space(#[trigger] chars@[j]),
        decreases chars.len() - from,
    {
        from = from + 1;
    }
    proof {
        lemma_trimmed_start_skip(s@, from as int);
    }
    let mut to: usize = chars.len();
    while to > from && chars[to - 1].is_whitespace()
        invariant
            from <= to <= chars@.len(),
            forall|j: int| to <= j < chars@.len() ==> white_space(#[trigger] chars@[j]),
        decreases to,
    {
        to = to - 1;
    }
    proof {
        let rest = s@.skip(from as int);
        assert forall|j: int| to - from <= j < rest.len() implies white_space(
            #[trigger] rest[j],
        ) by {
            assert(rest[j] == s@[j + from]);
        }
        lemma_trimmed_end_take(rest, to - from);
        assert(rest.take(to - from) =~= s@.subrange(from as int, to as int));
    }
    s.substring_char(from, to)
}

/// What trimming leaves of a text is empty exactly where the text is blank.
pub proof fn lemma_trimmed_empty_iff_blank(s: Seq<char>)
    ensures
        (trimmed(s).len() == 0) == blank(s),
    decreases s.len(),
{
    if s.len() == 0 {
    } else if white_space(s[0]) {
        let rest = s.drop_first();
        lemma_trimmed_empty_iff_blank(rest);
        if blank(rest) {
            assert forall|i: int| 0 <= i < s.len() implies white_space(#[trigger] s[i]) by {
                if i > 0 {
                    assert(white_space(rest[i - 1]));
                }
            }
        }
        if blank(s) {
            assert forall|i: int| 0 <= i < rest.len() implies white_space(#[trigger] rest[i]) by {
                assert(white_space(s[i + 1]));
            }
        }
    } else {
        lemma_trimmed_end_keeps_ink(s);
        assert(!blank(s)) by {
            assert(!white_space(s[0]));
        }
    }
}

proof fn lemma_trimmed_end_keeps_ink(s: Seq<char>)
    requires
        s.len() > 0,
        !white_space(s[0]),
    ensures
        trimmed_end(s).len() > 0,
    decreases s.len(),
{
    if white_space(s.last()) {
        assert(s.len() > 1);
        lemma_trimmed_end_keeps_ink(s.drop_last());
    }
}

/// The number of bytes that a character takes in UTF-8.
pub open spec fn char_bytes(c: char) -> nat {
    encode_scalar(c as u32).len()
}

/// The number of bytes that a text takes in UTF-8.
pub open spec fn byte_len(s: Seq<char>) -> nat {
    encode_utf8(s).len()
}

/// How many of the first characters of `s` start before the byte `limit`.
pub open spec fn chars_starting_before(s: Seq<char>, limit: int) -> nat
    decreases s.len(),
{
    if s.len() == 0 || limit <= 0 {
        0
    } else {
        1 + chars_starting_before(s.drop_first(), limit - char_bytes(s[0]))
    }
}

/// `s` itself where it takes at most `max_len` bytes; else its characters that
/// start before the byte `max_len - 3`, of which there are none where `max_len`
/// is at most three, with an ellipsis after them.
pub open spec fn shortened(s: Seq<char>, max_len: int) -> Seq<char> {
    if byte_len(s) <= max_len {
        s
    } else {
        s.take(chars_starting_before(s, max_len - 3) as int) + "…"@
    }
}

fn char_byte_count(c: char) -> (n: usize)
    ensures
        n == char_bytes(c),
        1 <= n <= 4,
{
    let scalar: u32 = c as u32;
    if scalar <= 0x7F {
        1
    } else if scalar <= 0x7FF {
        2
    } else if scalar <= 0xFFFF {
        3
    } else {
        4
    }
}

/// The bytes of two texts, one after the other, are as many as those of both.
pub proof fn lemma_byte_len_concat(a: Seq<char>, b: Seq<char>)
    ensures
        byte_len(a + b) == byte_len(a) + byte_len(b),
    decreases a.len(),
{
    if a.len() == 0 {
        assert(a + b =~= b);
    } else {
        assert((a + b).drop_first() =~= a.drop_first() + b);
        lemma_byte_len_concat(a.drop_first(), b);
    }
}

proof fn lemma_chars_starting_before_bounded(s: Seq<char>, limit: int)
    ensures
        chars_starting_before(s, limit) <= s.len(),
        limit > 0 ==> byte_len(s.take(chars_starting_before(s, limit) as int)) <= limit + 3,
        limit <= 0 ==> chars_starting_before(s, limit) == 0,
    decreases s.len(),
{
    let n = chars_starting_before(s, limit);
    if s.len() > 0 && limit > 0 {
        let rest = s.drop_first();
        lemma_chars_starting_before_bounded(rest, limit - char_bytes(s[0]));
        let kept = s.take(n as int);
        assert(kept.drop_first() =~= rest.take(n - 1));
        assert(kept[0] == s[0]);
        assert(char_bytes(s[0]) <= 4);
        assert(byte_len(kept) == char_bytes(s[0]) + byte_len(rest.take(n - 1)));
        if limit - char_bytes(s[0]) <= 0 {
            assert(rest.take(0) =~= Seq::<char>::empty());
            assert(byte_len(rest.take(0)) == 0);
        }
    } else {
        assert(s.take(0) =~= Seq::<char>::empty());
    }
}

/// What is kept of a text that is too long is a prefix of it that takes at most
/// `max_len` bytes, and with the ellipsis there are at most three more.
pub proof fn lemma_shortened_is_bounded(s: Seq<char>, max_len: int)
    requires
        max_len >= 0,
    ensures
        byte_len(shortened(s, max_len)) <= max_len + 3,
        byte_len(s) > max_len ==> exists|n: int|
            0 <= n <= s.len() && byte_len(#[trigger] s.take(n)) <= max_len && shortened(s, max_len)
                == s.take(n) + "…"@,
{
    if byte_len(s) > max_len {
        let n = chars_starting_before(s, max_len - 3) as int;
        lemma_chars_starting_before_bounded(s, max_len - 3);
        if max_len <= 3 {
            assert(s.take(0) =~= Seq::<char>::empty());
        }
        assert(byte_len(s.take(n)) <= max_len);
        lemma_byte_len_concat(s.take(n), "…"@);
        assert(byte_len("…"@) == 3) by {
            reveal_strlit("…");
            assert("…"@ =~= seq!['…']);
            assert("…"@.drop_first() =~= Seq::<char>::empty());
            assert(encode_utf8("…"@.drop_first()).len() == 0);
            assert(has_width_3_encoding('…' as u32));
        }
    }
}

/// Cuts a string to a maximum length in bytes, with an ellipsis where
/// something was cut.
pub fn truncate_str(s: &str, max_len: usize) -> (result: String)
    ensures
        result@ == shortened(s@, max_len as int),
{
    let bytes = s.as_bytes();
    if bytes.len() <= max_len {
        return s.to_owned();
    }
    let limit: usize = if max_len >= 3 {
        max_len - 3
    } else {
        0
    };
    let chars = text::characters(s);
    let mut kept: usize = 0;
    let mut offset: usize = 0;
    proof {
        assert(s@.take(0) =~= Seq::<char>::empty());
        assert(s@.skip(0) =~= s@);
    }
    while kept < chars.len() && offset < limit
        invariant
            chars@ == s@,
            kept <= chars@.len(),
            offset == byte_len(s@.take(kept as int)),
            byte_len(s@) <= usize::MAX,
            chars_starting_before(s@, limit as int) == kept + chars_starting_before(
                s@.skip(kept as int),
                limit - offset,
            ),
        decreases chars.len() - kept,
    {
        let width: usize = char_byte_count(chars[kept]);
        proof {
            let here = s@.take(kept as int);
            let next = s@.take(kept + 1);
            let one = seq![s@[kept as int]];
            assert(next =~= here + one);
            lemma_byte_len_concat(here, one);
            assert(one.drop_first() =~= Seq::<char>::empty());
            assert(byte_len(one) == char_bytes(s@[kept as int])) by {
                assert(encode_utf8(one.drop_first()).len() == 0);
            }
            assert(s@ =~= next + s@.skip(kept + 1));
            lemma_byte_len_concat(next, s@.skip(kept + 1));
            assert(s@.skip(kept as int).drop_first() =~= s@.skip(kept + 1));
        }
        offset = offset + width;
        kept = kept + 1;
    }
    proof {
        assert(chars_starting_before(s@.skip(kept as int), limit - offset) == 0);
        assert(chars_starting_before(s@, max_len - 3) == chars_starting_before(s@, limit as int));
    }
    s.substring_char(0, kept).to_owned().concat("…")
}

/// The white space among the ASCII characters is the space, and tab to carriage
/// return; letters, digits and punctuation are none.
pub proof fn lemma_ascii_white_space(c: char)
    requires
        (c as u32) < 128,
    ensures
        white_space(c) <==> c == ' ' || '\t' <= c <= '\r',
{
}

/// A text is blank exactly where all of its characters are white space.
pub proof fn lemma_blank_in_full(s: Seq<char>)
    ensures
        blank(s) <==> forall|i: int| 0 <= i < s.len() ==> white_space(#[trigger] s[i]),
{
}

/// What trimming leaves is a piece of the text that neither begins nor ends with
/// white space, and around it there was nothing else.
pub proof fn lemma_trimmed_in_full(s: Seq<char>) -> (bounds: (int, int))
    ensures
        0 <= bounds.0 <= bounds.1 <= s.len(),
        trimmed(s) == s.subrange(bounds.0, bounds.1),
        forall|i: int|
            0 <= i < bounds.0 || bounds.1 <= i < s.len() ==> white_space(#[trigger] s[i]),
        bounds.0 < bounds.1 ==> !white_space(s[bounds.0]) && !white_space(s[bounds.1 - 1]),
{
    let from = lemma_trimmed_start_is_skip(s);
    let rest = s.skip(from);
    let n = lemma_trimmed_end_is_take(rest);
    assert(trimmed(s) =~= s.subrange(from, from + n));
    assert forall|i: int| 0 <= i < from || from + n <= i < s.len() implies white_space(
        #[trigger] s[i],
    ) by {
        if i >= from + n {
            assert(rest[i - from] == s[i]);
        }
    }
    if n > 0 {
        assert(rest[n - 1] == s[from + n - 1]);
    }
    (from, from + n)
}

proof fn lemma_trimmed_start_is_skip(s: Seq<char>) -> (n: int)
    ensures
        0 <= n <= s.len(),
        trimmed_start(s) == s.skip(n),
        forall|i: int| 0 <= i < n ==> white_space(#[trigger] s[i]),
        n < s.len() ==> !white_space(s[n]),
    decreases s.len(),
{
    if s.len() > 0 && white_space(s[0]) {
        let rest = s.drop_first();
        let n = lemma_trimmed_start_is_skip(rest);
        assert(rest.skip(n) =~= s.skip(n + 1));
        assert forall|i: int| 0 <= i < n + 1 implies white_space(#[trigger] s[i]) by {
            if i > 0 {
                assert(rest[i - 1] == s[i]);
            }
        }
        if n < rest.len() {
            assert(rest[n] == s[n + 1]);
        }
        n + 1
    } else {
        assert(s.skip(0) =~= s);
        0
    }
}

proof fn lemma_trimmed_end_is_take(s: Seq<char>) -> (n: int)
    ensures
        0 <= n <= s.len(),
        trimmed_end(s) == s.take(n),
        forall|i: int| n <= i < s.len() ==> white_space(#[trigger] s[i]),
        n > 0 ==> !white_space(s[n - 1]),
    decreases s.len(),
{
    if s.len() > 0 && white_space(s.last()) {
        let rest = s.drop_last();
        let n = lemma_trimmed_end_is_take(rest);
        assert(rest.take(n) =~= s.take(n));
        assert forall|i: int| n <= i < s.len() implies white_space(#[trigger] s[i]) by {
            if i < s.len() - 1 {
                assert(rest[i] == s[i]);
            }
        }
        n
    } else {
        assert(s.take(s.len() as int) =~= s);
        s.len() as int
    }
}

proof fn lemma_chars_before_limit(s: Seq<char>, limit: int, n: int)
    requires
        0 <= n <= s.len(),
        n == 0 || byte_len(s.take(n - 1)) < limit,
        n < s.len() ==> byte_len(s.take(n)) >= limit,
    ensures
        chars_starting_before(s, limit) == n,
    decreases s.len(),
{
    if s.len() > 0 {
        assert(s.take(0) =~= Seq::<char>::empty());
        assert(byte_len(s.take(0)) == 0);
        if n > 0 {
            let rest = s.drop_first();
            assert forall|m: int| 0 < m <= s.len() implies byte_len(#[trigger] s.take(m))
                == char_bytes(s[0]) + byte_len(rest.take(m - 1)) by {
                assert(s.take(m).drop_first() =~= rest.take(m - 1));
                assert(s.take(m)[0] == s[0]);
            }
            assert(byte_len(s.take(n - 1)) >= 0);
            lemma_chars_before_limit(rest, limit - char_bytes(s[0]), n - 1);
        }
    }
}

/// A text that fits is kept whole. Of one that does not, the characters that
/// begin before the limit less three bytes are kept, and an ellipsis follows:
/// nothing that would fit is lost.
pub proof fn lemma_shortening_in_full(s: Seq<char>, max_len: int, n: int)
    requires
        max_len >= 0,
    ensures
        byte_len(s) <= max_len ==> shortened(s, max_len) == s,
        byte_len(s) > max_len && 0 <= n <= s.len() && (n == 0 || byte_len(s.take(n - 1)) < max_len
            - 3) && (n < s.len() ==> byte_len(s.take(n)) >= max_len - 3) ==> shortened(s, max_len)
            == s.take(n) + "…"@,
{
    if byte_len(s) > max_len && 0 <= n <= s.len() && (n == 0 || byte_len(s.take(n - 1)) < max_len
        - 3) && (n < s.len() ==> byte_len(s.take(n)) >= max_len - 3) {
        lemma_chars_before_limit(s, max_len - 3, n);
    }
}

} // verus!
