//! Text: numbers in decimal, padding, shortening, trimming, comparing and
//! taking strings apart.
//!
//! A string is modelled by the sequence of its characters, its view.

use vstd::prelude::*;
use vstd::string::*;

verus! {

/// The decimal digit `d`, for `d` below ten.
pub open spec fn digit(d: nat) -> char {
    (48 + d) as char
}

/// The number `n` in decimal, without leading zeros.
pub open spec fn decimal(n: nat) -> Seq<char>
    decreases n,
{
    if n < 10 {
        seq![digit(n)]
    } else {
        decimal(n / 10).push(digit(n % 10))
    }
}

/// The number `n` in decimal, with a minus sign where it is negative.
pub open spec fn signed_decimal(n: int) -> Seq<char> {
    if n < 0 {
        "-"@ + decimal((-n) as nat)
    } else {
        decimal(n as nat)
    }
}

/// `n` copies of the character `c`.
pub open spec fn repeated(c: char, n: nat) -> Seq<char> {
    Seq::new(n, |i: int| c)
}

/// `s` followed by as many spaces as it takes to reach `width` characters.
pub open spec fn padded(s: Seq<char>, width: nat) -> Seq<char> {
    if s.len() >= width {
        s
    } else {
        s + repeated(' ', (width - s.len()) as nat)
    }
}

/// The characters of `s` before the first `c`; all of them where there is none.
pub open spec fn before(s: Seq<char>, c: char) -> Seq<char>
    decreases s.len(),
{
    if s.len() == 0 || s[0] == c {
        Seq::empty()
    } else {
        seq![s[0]] + before(s.drop_first(), c)
    }
}

/// The characters of `s` after the last `c`; all of them where there is none.
pub open spec fn after_last(s: Seq<char>, c: char) -> Seq<char>
    decreases s.len(),
{
    if s.len() == 0 || s.last() == c {
        Seq::empty()
    } else {
        after_last(s.drop_last(), c).push(s.last())
    }
}

/// `s` without the characters `c` at its end.
pub open spec fn without_trailing(s: Seq<char>, c: char) -> Seq<char>
    decreases s.len(),
{
    if s.len() > 0 && s.last() == c {
        without_trailing(s.drop_last(), c)
    } else {
        s
    }
}

/// Whether `a` comes no later than `b` in dictionary order.
pub open spec fn no_later(a: Seq<char>, b: Seq<char>) -> bool
    decreases a.len(),
{
    if a.len() == 0 {
        true
    } else if b.len() == 0 {
        false
    } else if a[0] != b[0] {
        (a[0] as int) < (b[0] as int)
    } else {
        no_later(a.drop_first(), b.drop_first())
    }
}

/// The number that `s` spells in decimal digits, or nothing where one of its
/// characters is not a digit.
pub open spec fn digits_value(s: Seq<char>) -> Option<nat>
    decreases s.len(),
{
    if s.len() == 0 {
        Some(0nat)
    } else if !('0' <= s.last() <= '9') {
        None
    } else {
        match digits_value(s.drop_last()) {
            Some(n) => Some(n * 10 + (s.last() as nat - '0' as nat) as nat),
            None => None,
        }
    }
}

/// The port number that `s` spells: decimal digits after at most one plus
/// sign, at least one of them, with a value that fits a port.
pub open spec fn port_value(s: Seq<char>) -> Option<u16> {
    let digits = if s.len() > 0 && s[0] == '+' { s.drop_first() } else { s };
    match digits_value(digits) {
        Some(n) => if digits.len() > 0 && n <= u16::MAX { Some(n as u16) } else { None },
        None => None,
    }
}

/// The characters of a string, one by one.
pub fn characters(s: &str) -> (chars: Vec<char>)
    ensures
        chars@ == s@,
{
    let mut chars: Vec<char> = Vec::new();
    for c in it: s.chars()
        invariant
            it.seq() == s@,
            chars@ == s@.take(it.index()),
    {
        chars.push(c);
    }
    chars
}

/// Whether two strings are equal.
pub fn same(a: &str, b: &str) -> (equal: bool)
    ensures
        equal == (a@ == b@),
{
    a.to_owned() == b.to_owned()
}

/// Ten to the power `k`.
pub open spec fn power_of_ten(k: nat) -> nat
    decreases k,
{
    if k == 0 {
        1
    } else {
        10 * power_of_ten((k - 1) as nat)
    }
}

/// A number below ten to the power `k` has at most `k` digits.
pub proof fn lemma_decimal_len_below_power(n: nat, k: nat)
    requires
        k > 0,
        n < power_of_ten(k),
    ensures
        1 <= decimal(n).len() <= k,
    decreases k,
{
    if n >= 10 {
        if k == 1 {
            assert(power_of_ten(0) == 1);
            assert(false);
        }
        lemma_decimal_len_below_power(n / 10, (k - 1) as nat);
    }
}

/// A number of 32 bits has at most ten digits.
pub proof fn lemma_u32_has_ten_digits(n: nat)
    requires
        n <= u32::MAX,
    ensures
        1 <= decimal(n).len() <= 10,
{
    reveal_with_fuel(power_of_ten, 11);
    assert(power_of_ten(10) == 10_000_000_000);
    lemma_decimal_len_below_power(n, 10);
}

fn digit_text(d: u64) -> (text: &'static str)
    requires
        d < 10,
    ensures
        text@ == seq![digit(d as nat)],
{
    proof {
        reveal_strlit("0");
        reveal_strlit("1");
        reveal_strlit("2");
        reveal_strlit("3");
        reveal_strlit("4");
        reveal_strlit("5");
        reveal_strlit("6");
        reveal_strlit("7");
        reveal_strlit("8");
        reveal_strlit("9");
    }
    match d {
        0 => "0",
        1 => "1",
        2 => "2",
        3 => "3",
        4 => "4",
        5 => "5",
        6 => "6",
        7 => "7",
        8 => "8",
        _ => "9",
    }
}

/// Writes a number in decimal.
pub fn decimal_text(n: u64) -> (text: String)
    ensures
        text@ == decimal(n as nat),
    decreases n,
{
    if n < 10 {
        String::from_str(digit_text(n))
    } else {
        decimal_text(n / 10).concat(digit_text(n % 10))
    }
}

/// Writes a signed number in decimal.
pub fn signed_decimal_text(n: i32) -> (text: String)
    ensures
        text@ == signed_decimal(n as int),
{
    if n < 0 {
        let magnitude: u64 = (-(n as i64)) as u64;
        String::from_str("-").concat(decimal_text(magnitude).as_str())
    } else {
        decimal_text(n as u64)
    }
}

/// Writes the one character of `piece` `n` times.
pub fn repeat(piece: &str, n: usize) -> (text: String)
    requires
        piece@.len() == 1,
    ensures
        text@ == repeated(piece@[0], n as nat),
{
    let mut text = String::new();
    let mut i: usize = 0;
    while i < n
        invariant
            i <= n,
            piece@.len() == 1,
            text@ == repeated(piece@[0], i as nat),
        decreases n - i,
    {
        text.append(piece);
        i = i + 1;
    }
    text
}

/// Pads a string with spaces on the right up to a width in characters.
pub fn pad_right(s: &str, width: usize) -> (text: String)
    ensures
        text@ == padded(s@, width as nat),
{
    let len: usize = s.unicode_len();
    if len >= width {
        s.to_owned()
    } else {
        proof {
            reveal_strlit(" ");
        }
        s.to_owned().concat(repeat(" ", width - len).as_str())
    }
}

proof fn lemma_before_take(s: Seq<char>, c: char, n: int)
    requires
        0 <= n <= s.len(),
        forall|j: int| 0 <= j < n ==> s[j] != c,
        n == s.len() || s[n] == c,
    ensures
        before(s, c) == s.take(n),
    decreases n,
{
    if n > 0 {
        let rest = s.drop_first();
        assert forall|j: int| 0 <= j < n - 1 implies rest[j] != c by {
            assert(rest[j] == s[j + 1]);
        }
        assert(n < s.len() ==> rest[n - 1] == s[n]);
        lemma_before_take(rest, c, n - 1);
        assert(before(s, c) =~= s.take(n));
    } else {
        assert(s.take(0) =~= Seq::<char>::empty());
    }
}

/// What stands before the first `c` is how a text begins.
pub proof fn lemma_before_is_prefix(s: Seq<char>, c: char)
    ensures
        before(s, c).len() <= s.len(),
        before(s, c) == s.take(before(s, c).len() as int),
    decreases s.len(),
{
    if s.len() > 0 && s[0] != c {
        lemma_before_is_prefix(s.drop_first(), c);
    }
    assert(before(s, c) =~= s.take(before(s, c).len() as int));
}

/// Where something follows what stands before the first `c`, it is a `c`.
pub proof fn lemma_before_ends_at(s: Seq<char>, c: char)
    ensures
        before(s, c).len() < s.len() ==> s[before(s, c).len() as int] == c,
    decreases s.len(),
{
    if s.len() > 0 && s[0] != c {
        lemma_before_ends_at(s.drop_first(), c);
    }
}

/// Of a text without a `c` everything stands before the first one.
pub proof fn lemma_before_without(s: Seq<char>, c: char)
    requires
        forall|i: int| 0 <= i < s.len() ==> #[trigger] s[i] != c,
    ensures
        before(s, c) == s,
{
    lemma_before_take(s, c, s.len() as int);
    assert(s.take(s.len() as int) =~= s);
}

/// What was written before a `c` and holds none is what stands before the first
/// `c`.
pub proof fn lemma_before_of(start: Seq<char>, c: char, end: Seq<char>)
    requires
        forall|i: int| 0 <= i < start.len() ==> #[trigger] start[i] != c,
    ensures
        before(start + seq![c] + end, c) == start,
{
    let whole = start + seq![c] + end;
    let n = start.len() as int;
    assert forall|j: int| 0 <= j < n implies whole[j] != c by {
        assert(whole[j] == start[j]);
    }
    lemma_before_take(whole, c, n);
    assert(whole.take(n) =~= start);
}

/// The part of a string before the first `c`.
pub fn part_before(s: &str, c: char) -> (part: &str)
    ensures
        part@ == before(s@, c),
{
    let chars = characters(s);
    let mut n: usize = 0;
    while n < chars.len() && chars[n] != c
        invariant
            n <= chars@.len(),
            forall|j: int| 0 <= j < n ==> chars@[j] != c,
        decreases chars.len() - n,
    {
        n = n + 1;
    }
    proof {
        lemma_before_take(s@, c, n as int);
    }
    s.substring_char(0, n)
}

proof fn lemma_after_last_skip(s: Seq<char>, c: char, n: int)
    requires
        0 <= n <= s.len(),
        forall|j: int| n <= j < s.len() ==> s[j] != c,
        n == 0 || s[n - 1] == c,
    ensures
        after_last(s, c) == s.skip(n),
    decreases s.len() - n,
{
    if n < s.len() {
        lemma_after_last_skip(s.drop_last(), c, n);
        assert(after_last(s, c) =~= s.skip(n));
    } else {
        assert(s.skip(n) =~= Seq::<char>::empty());
    }
}

/// The part of a string after the last `c`.
pub fn part_after_last(s: &str, c: char) -> (part: &str)
    ensures
        part@ == after_last(s@, c),
{
    let chars = characters(s);
    let mut n: usize = chars.len();
    while n > 0 && chars[n - 1] != c
        invariant
            n <= chars@.len(),
            forall|j: int| n <= j < chars@.len() ==> chars@[j] != c,
        decreases n,
    {
        n = n - 1;
    }
    proof {
        lemma_after_last_skip(s@, c, n as int);
    }
    s.substring_char(n, chars.len())
}

proof fn lemma_without_trailing_take(s: Seq<char>, c: char, n: int)
    requires
        0 <= n <= s.len(),
        forall|j: int| n <= j < s.len() ==> s[j] == c,
        n == 0 || s[n - 1] != c,
    ensures
        without_trailing(s, c) == s.take(n),
    decreases s.len() - n,
{
    if n < s.len() {
        lemma_without_trailing_take(s.drop_last(), c, n);
        assert(s.drop_last().take(n) =~= s.take(n));
    } else {
        assert(s.take(n) =~= s);
    }
}

/// A string without the characters `c` at its end.
pub fn trim_trailing(s: &str, c: char) -> (part: &str)
    ensures
        part@ == without_trailing(s@, c),
{
    let chars = characters(s);
    let mut n: usize = chars.len();
    while n > 0 && chars[n - 1] == c
        invariant
            n <= chars@.len(),
            forall|j: int| n <= j < chars@.len() ==> chars@[j] == c,
        decreases n,
    {
        n = n - 1;
    }
    proof {
        lemma_without_trailing_take(s@, c, n as int);
    }
    s.substring_char(0, n)
}

proof fn lemma_no_later_skip(a: Seq<char>, b: Seq<char>, n: int)
    requires
        0 <= n <= a.len(),
        n <= b.len(),
        forall|j: int| 0 <= j < n ==> a[j] == b[j],
    ensures
        no_later(a, b) == no_later(a.skip(n), b.skip(n)),
    decreases n,
{
    if n > 0 {
        lemma_no_later_skip(a.drop_first(), b.drop_first(), n - 1);
        assert(a.drop_first().skip(n - 1) =~= a.skip(n));
        assert(b.drop_first().skip(n - 1) =~= b.skip(n));
    } else {
        assert(a.skip(0) =~= a);
        assert(b.skip(0) =~= b);
    }
}

/// Whether one string comes no later than another in dictionary order.
pub fn comes_no_later(a: &str, b: &str) -> (result: bool)
    ensures
        result == no_later(a@, b@),
{
    let left = characters(a);
    let right = characters(b);
    let mut n: usize = 0;
    while n < left.len() && n < right.len() && left[n] == right[n]
        invariant
            n <= left@.len(),
            n <= right@.len(),
            forall|j: int| 0 <= j < n ==> left@[j] == right@[j],
        decreases left.len() - n,
    {
        n = n + 1;
    }
    proof {
        lemma_no_later_skip(a@, b@, n as int);
    }
    if n == left.len() {
        true
    } else if n == right.len() {
        false
    } else {
        left[n] < right[n]
    }
}

/// A string comes no later than itself.
pub proof fn lemma_no_later_reflexive(a: Seq<char>)
    ensures
        no_later(a, a),
    decreases a.len(),
{
    if a.len() > 0 {
        lemma_no_later_reflexive(a.drop_first());
    }
}

/// Dictionary order compares any two strings.
pub proof fn lemma_no_later_total(a: Seq<char>, b: Seq<char>)
    ensures
        no_later(a, b) || no_later(b, a),
    decreases a.len(),
{
    if a.len() > 0 && b.len() > 0 && a[0] == b[0] {
        lemma_no_later_total(a.drop_first(), b.drop_first());
    }
}

/// Dictionary order is transitive.
pub proof fn lemma_no_later_transitive(a: Seq<char>, b: Seq<char>, c: Seq<char>)
    requires
        no_later(a, b),
        no_later(b, c),
    ensures
        no_later(a, c),
    decreases a.len(),
{
    if a.len() > 0 && b.len() > 0 && c.len() > 0 && a[0] == b[0] && b[0] == c[0] {
        lemma_no_later_transitive(a.drop_first(), b.drop_first(), c.drop_first());
    }
}

proof fn lemma_digits_value_grows(s: Seq<char>, n: int)
    requires
        0 <= n <= s.len(),
    ensures
        digits_value(s.take(n)) is None ==> digits_value(s) is None,
        digits_value(s) is Some ==> digits_value(s.take(n)) is Some && digits_value(s)->0
            >= digits_value(s.take(n))->0,
    decreases s.len() - n,
{
    if n < s.len() {
        lemma_digits_value_grows(s, n + 1);
        assert(s.take(n + 1).drop_last() =~= s.take(n));
    } else {
        assert(s.take(n) =~= s);
    }
}

/// A number in decimal is made of digits, and they spell the number.
pub proof fn lemma_decimal_spells(n: nat)
    ensures
        decimal(n).len() > 0,
        forall|i: int| 0 <= i < decimal(n).len() ==> '0' <= #[trigger] decimal(n)[i] <= '9',
        digits_value(decimal(n)) == Some(n),
    decreases n,
{
    let d = decimal(n);
    if n < 10 {
        assert(d.drop_last() =~= Seq::<char>::empty());
        assert(digits_value(d.drop_last()) == Some(0nat));
    } else {
        lemma_decimal_spells(n / 10);
        assert(d.drop_last() =~= decimal(n / 10));
        assert forall|i: int| 0 <= i < d.len() implies '0' <= #[trigger] d[i] <= '9' by {
            if i < d.len() - 1 {
                assert(d[i] == decimal(n / 10)[i]);
            }
        }
    }
}

/// A port number that was written is read back.
pub proof fn lemma_port_reads_back(port: u16)
    ensures
        port_value(decimal(port as nat)) == Some(port),
{
    lemma_decimal_spells(port as nat);
    assert('0' <= decimal(port as nat)[0] <= '9');
}

/// Of a text without a `c` everything stands after the last one.
pub proof fn lemma_after_last_without(s: Seq<char>, c: char)
    requires
        forall|i: int| 0 <= i < s.len() ==> #[trigger] s[i] != c,
    ensures
        after_last(s, c) == s,
{
    lemma_after_last_skip(s, c, 0);
    assert(s.skip(0) =~= s);
}

/// What was written after a `c` and holds none is what stands after the last
/// `c`.
pub proof fn lemma_after_last_of(start: Seq<char>, c: char, end: Seq<char>)
    requires
        forall|i: int| 0 <= i < end.len() ==> #[trigger] end[i] != c,
    ensures
        after_last(start + seq![c] + end, c) == end,
{
    let whole = start + seq![c] + end;
    let n = start.len() + 1;
    assert forall|j: int| n <= j < whole.len() implies whole[j] != c by {
        assert(whole[j] == end[j - n]);
    }
    lemma_after_last_skip(whole, c, n as int);
    assert(whole.skip(n as int) =~= end);
}

/// Reads a port number.
pub fn parse_port(s: &str) -> (port: Option<u16>)
    ensures
        port == port_value(s@),
{
    let chars = characters(s);
    let start: usize = if chars.len() > 0 && chars[0] == '+' { 1 } else { 0 };
    let ghost digits = s@.skip(start as int);
    proof {
        if start == 1 {
            assert(digits =~= s@.drop_first());
        } else {
            assert(digits =~= s@);
        }
    }
    if start == chars.len() {
        return None;
    }
    let mut value: u32 = 0;
    let mut i: usize = start;
    proof {
        assert(digits.take(0) =~= Seq::<char>::empty());
    }
    while i < chars.len()
        invariant
            start <= i <= chars@.len(),
            chars@ == s@,
            digits == s@.skip(start as int),
            digits.len() > 0,
            port_value(s@) == (match digits_value(digits) {
                Some(n) => if n <= u16::MAX { Some(n as u16) } else { None },
                None => None,
            }),
            value <= u16::MAX,
            digits_value(digits.take(i - start)) == Some(value as nat),
        decreases chars.len() - i,
    {
        let c = chars[i];
        proof {
            assert(digits.take(i - start + 1).drop_last() =~= digits.take(i - start));
            assert(digits.take(i - start + 1).last() == c);
            lemma_digits_value_grows(digits, i - start + 1);
        }
        if c < '0' || c > '9' {
            return None;
        }
        let d: u32 = (c as u32) - ('0' as u32);
        let next: u32 = value * 10 + d;
        if next > 65535 {
            return None;
        }
        value = next;
        i = i + 1;
    }
    proof {
        assert(digits.take(i - start) =~= digits);
    }
    Some(value as u16)
}

/// A padded text begins with the text, is as wide as it has to be, and holds
/// nothing but spaces after it.
pub proof fn lemma_padded_in_full(s: Seq<char>, width: nat)
    ensures
        padded(s, width).len() == (if s.len() >= width {
            s.len()
        } else {
            width
        }),
        padded(s, width).take(s.len() as int) == s,
        forall|i: int|
            s.len() <= i < padded(s, width).len() ==> #[trigger] padded(s, width)[i] == ' ',
{
    assert(padded(s, width).take(s.len() as int) =~= s);
}

/// Copies of a character are nothing but that character, as often as asked for.
pub proof fn lemma_repeated_in_full(c: char, n: nat)
    ensures
        repeated(c, n).len() == n,
        forall|i: int| 0 <= i < n ==> #[trigger] repeated(c, n)[i] == c,
{
}

/// A number below zero is written with a minus sign before its magnitude, any
/// other number without a sign.
pub proof fn lemma_signed_decimal_in_full(n: int)
    ensures
        n >= 0 ==> signed_decimal(n) == decimal(n as nat),
        n < 0 ==> signed_decimal(n) == "-"@ + decimal((-n) as nat),
        n >= 0 ==> digits_value(signed_decimal(n)) == Some(n as nat),
{
    if n >= 0 {
        lemma_decimal_spells(n as nat);
    }
}

/// Numbers below ten are one digit, and each digit more is the remainder by ten.
pub proof fn lemma_decimal_digit_by_digit(n: nat)
    ensures
        n < 10 ==> decimal(n).len() == 1 && decimal(n)[0] as int == '0' as int + n,
        n >= 10 ==> decimal(n).drop_last() == decimal(n / 10) && decimal(n).last() as int
            == '0' as int + n % 10,
{
    if n >= 10 {
        assert(decimal(n).drop_last() =~= decimal(n / 10));
    }
}

/// What spells a number is digits alone, and each digit counts ten times as much
/// as the one after it.
pub proof fn lemma_digits_in_full(s: Seq<char>, c: char)
    ensures
        digits_value(s) is Some <==> forall|i: int|
            0 <= i < s.len() ==> '0' <= #[trigger] s[i] <= '9',
        '0' <= c <= '9' && digits_value(s) is Some ==> digits_value(s.push(c)) == Some(
            (digits_value(s)->0 * 10 + (c as int - '0' as int)) as nat,
        ),
        digits_value(Seq::empty()) == Some(0nat),
    decreases s.len(),
{
    assert(s.push(c).drop_last() =~= s);
    if s.len() > 0 {
        let rest = s.drop_last();
        lemma_digits_in_full(rest, c);
        if forall|i: int| 0 <= i < s.len() ==> '0' <= #[trigger] s[i] <= '9' {
            assert forall|i: int| 0 <= i < rest.len() implies '0' <= #[trigger] rest[i] <= '9' by {
                assert(rest[i] == s[i]);
            }
            assert('0' <= s[s.len() - 1] <= '9');
        }
        if digits_value(s) is Some {
            assert forall|i: int| 0 <= i < s.len() implies '0' <= #[trigger] s[i] <= '9' by {
                if i < s.len() - 1 {
                    assert(rest[i] == s[i]);
                }
            }
        }
    }
}

/// A text spells a port exactly where it is at least one digit, after a plus sign
/// or not, whose value is at most 65535; and it spells that value.
pub proof fn lemma_port_in_full(s: Seq<char>)
    ensures
        ({
            let digits = if s.len() > 0 && s[0] == '+' {
                s.drop_first()
            } else {
                s
            };
            &&& port_value(s) is Some <==> digits.len() > 0 && digits_value(digits) is Some
                && digits_value(digits)->0 <= 65535
            &&& port_value(s) is Some ==> port_value(s)->0 == digits_value(digits)->0
        }),
{
}

/// Dictionary order goes by the first difference: a text comes before any text
/// that it begins, and otherwise the smaller character decides.
pub proof fn lemma_order_by_first_difference(a: Seq<char>, b: Seq<char>, n: int)
    requires
        0 <= n <= a.len(),
        n <= b.len(),
        forall|j: int| 0 <= j < n ==> a[j] == b[j],
    ensures
        n == a.len() ==> no_later(a, b),
        n == b.len() && n < a.len() ==> !no_later(a, b),
        n < a.len() && n < b.len() && a[n] != b[n] ==> no_later(a, b) == ((a[n] as int) < (
        b[n] as int)),
{
    lemma_no_later_skip(a, b, n);
    if n < a.len() {
        assert(a.skip(n)[0] == a[n]);
    }
    if n < b.len() {
        assert(b.skip(n)[0] == b[n]);
    }
}

/// Two texts that each come no later than the other are the same.
pub proof fn lemma_no_later_antisymmetric(a: Seq<char>, b: Seq<char>)
    requires
        no_later(a, b),
        no_later(b, a),
    ensures
        a == b,
    decreases a.len(),
{
    if a.len() > 0 && b.len() > 0 {
        lemma_no_later_antisymmetric(a.drop_first(), b.drop_first());
        assert(a =~= seq![a[0]] + a.drop_first());
        assert(b =~= seq![b[0]] + b.drop_first());
    } else {
        assert(a =~= b);
    }
}

/// What is left without a character at the end is how the text begins; what is
/// gone was that character alone, and what is left does not end with it.
pub proof fn lemma_without_trailing_in_full(s: Seq<char>, c: char)
    ensures
        ({
            let n = without_trailing(s, c).len() as int;
            &&& n <= s.len()
            &&& without_trailing(s, c) == s.take(n)
            &&& forall|i: int| n <= i < s.len() ==> #[trigger] s[i] == c
            &&& n > 0 ==> s[n - 1] != c
        }),
    decreases s.len(),
{
    if s.len() > 0 && s.last() == c {
        let rest = s.drop_last();
        lemma_without_trailing_in_full(rest, c);
        let n = without_trailing(s, c).len() as int;
        assert(rest.take(n) =~= s.take(n));
        assert forall|i: int| n <= i < s.len() implies #[trigger] s[i] == c by {
            if i < s.len() - 1 {
                assert(rest[i] == s[i]);
            }
        }
    } else {
        assert(s.take(s.len() as int) =~= s);
    }
}

} // verus!
