//! Text building blocks: decimal and hexadecimal numbers, column padding,
//! timestamps, and string comparison.

use vstd::prelude::*;
use vstd::string::{StrSliceExecFns, StringExecFns};
use vstd::utf8::{
    decode_utf8, decode_utf8_encode_utf8, encode_utf8, encode_utf8_decode_utf8,
    encode_utf8_valid_utf8, is_char_boundary, valid_utf8_split,
};

verus! {

/// Specifies `String::push`: the character is appended to the end of the
/// string.
pub assume_specification[ String::push ](text: &mut String, c: char)
    ensures
        final(text)@ == old(text)@.push(c),
;

// ---------------------------------------------------------------------------
// Numbers
// ---------------------------------------------------------------------------

/// The character of one digit, in base ten or sixteen (lower case).
pub open spec fn digit(d: int) -> char {
    if d < 10 {
        (48 + d) as char
    } else {
        (87 + d) as char
    }
}

/// The decimal numeral of `n`, without leading zeros.
pub open spec fn decimal(n: nat) -> Seq<char>
    decreases n,
{
    if n < 10 {
        seq![digit(n as int)]
    } else {
        decimal(n / 10).push(digit((n % 10) as int))
    }
}

/// The decimal numeral of an integer, with a minus sign where it is negative.
pub open spec fn signed_decimal(n: int) -> Seq<char> {
    if n < 0 {
        seq!['-'] + decimal((-n) as nat)
    } else {
        decimal(n as nat)
    }
}

/// The lower-case hexadecimal text of a byte string: two digits per byte, the
/// high half first.
pub open spec fn hex_text(bytes: Seq<u8>) -> Seq<char> {
    Seq::new(
        2 * bytes.len(),
        |i: int|
            digit(
                if i % 2 == 0 {
                    bytes[i / 2] as int / 16
                } else {
                    bytes[i / 2] as int % 16
                },
            ),
    )
}

/// A numeral is not empty, and made of decimal digits.
pub proof fn lemma_decimal_is_digits(n: nat)
    ensures
        decimal(n).len() > 0,
        forall|i: int| 0 <= i < decimal(n).len() ==> '0' <= #[trigger] decimal(n)[i] <= '9',
    decreases n,
{
    if n >= 10 {
        lemma_decimal_is_digits(n / 10);
    }
}

/// Different numbers have different numerals.
pub proof fn lemma_decimal_injective(m: nat, n: nat)
    requires
        decimal(m) == decimal(n),
    ensures
        m == n,
    decreases m,
{
    lemma_decimal_is_digits(m / 10);
    lemma_decimal_is_digits(n / 10);
    assert(decimal(m).last() == digit((m % 10) as int));
    assert(decimal(n).last() == digit((n % 10) as int));
    assert(m % 10 == n % 10);
    if m >= 10 && n >= 10 {
        assert(decimal(m / 10) =~= decimal(m).drop_last());
        assert(decimal(n / 10) =~= decimal(n).drop_last());
        lemma_decimal_injective(m / 10, n / 10);
    } else if m >= 10 {
        assert(decimal(n).len() == 1 && decimal(m).len() > 1);
    } else if n >= 10 {
        assert(decimal(m).len() == 1 && decimal(n).len() > 1);
    }
}

/// Hexadecimal text tells the bytes: different byte strings have different
/// texts.
pub proof fn law_hex_text_is_injective(a: Seq<u8>, b: Seq<u8>)
    requires
        hex_text(a) == hex_text(b),
    ensures
        a == b,
{
    assert(hex_text(a).len() == 2 * a.len());
    assert(hex_text(b).len() == 2 * b.len());
    assert forall|i: int| 0 <= i < a.len() implies a[i] == b[i] by {
        lemma_hex_digits(a, i);
        lemma_hex_digits(b, i);
    }
    assert(a =~= b);
}

/// Where the two digits of a byte stand.
proof fn lemma_hex_digits(bytes: Seq<u8>, i: int)
    requires
        0 <= i < bytes.len(),
    ensures
        hex_text(bytes)[2 * i] == digit(bytes[i] as int / 16),
        hex_text(bytes)[2 * i + 1] == digit(bytes[i] as int % 16),
{
    let high = 2 * i;
    let low = 2 * i + 1;
    assert(high / 2 == i && high % 2 == 0);
    assert(low / 2 == i && low % 2 == 1);
    assert(0 <= high < 2 * bytes.len() && 0 <= low < 2 * bytes.len());
}

fn digit_char(d: u8) -> (c: char)
    requires
        d < 16,
    ensures
        c == digit(d as int),
{
    if d < 10 {
        (48 + d) as char
    } else {
        (87 + d) as char
    }
}

/// Appends the decimal numeral of `n`.
pub fn push_decimal(out: &mut String, n: u128)
    ensures
        final(out)@ == old(out)@ + decimal(n as nat),
    decreases n,
{
    if n >= 10 {
        push_decimal(out, n / 10);
    }
    out.push(digit_char((n % 10) as u8));
    proof {
        assert(final(out)@ =~= old(out)@ + decimal(n as nat));
    }
}

/// Appends the decimal numeral of `n`, with a minus sign where it is negative.
pub fn push_signed(out: &mut String, n: i64)
    ensures
        final(out)@ == old(out)@ + signed_decimal(n as int),
{
    if n < 0 {
        out.push('-');
        push_decimal(out, (-(n as i128)) as u128);
    } else {
        push_decimal(out, n as u128);
    }
    proof {
        assert(final(out)@ =~= old(out)@ + signed_decimal(n as int));
    }
}

/// The lower-case hexadecimal text of `bytes`.
pub fn hex(bytes: &[u8]) -> (out: String)
    ensures
        out@ == hex_text(bytes@),
{
    let mut out = String::new();
    let mut i: usize = 0;
    while i < bytes.len()
        invariant
            i <= bytes@.len(),
            out@ =~= hex_text(bytes@.take(i as int)),
        decreases bytes@.len() - i,
    {
        let b: u8 = bytes[i];
        assert(b >> 4 == b / 16 && b >> 4 < 16) by (bit_vector);
        assert(b & 0x0f == b % 16 && b & 0x0f < 16) by (bit_vector);
        out.push(digit_char(b >> 4));
        out.push(digit_char(b & 0x0f));
        i = i + 1;
    }
    assert(bytes@.take(i as int) =~= bytes@);
    out
}

// ---------------------------------------------------------------------------
// Columns
// ---------------------------------------------------------------------------

/// `width` copies of one character.
pub open spec fn run_of(c: char, width: int) -> Seq<char> {
    Seq::new(
        if width < 0 {
            0
        } else {
            width as nat
        },
        |i: int| c,
    )
}

/// `s` followed by as many blanks as a column of `width` characters needs.
pub open spec fn left_aligned(s: Seq<char>, width: int) -> Seq<char> {
    s + run_of(' ', width - s.len())
}

/// As many blanks as a column of `width` characters needs, followed by `s`.
pub open spec fn right_aligned(s: Seq<char>, width: int) -> Seq<char> {
    run_of(' ', width - s.len()) + s
}

/// Appends `count` copies of `c`.
pub fn push_run(out: &mut String, c: char, count: usize)
    ensures
        final(out)@ == old(out)@ + run_of(c, count as int),
{
    let mut i: usize = 0;
    while i < count
        invariant
            i <= count,
            out@ =~= old(out)@ + run_of(c, i as int),
        decreases count - i,
    {
        out.push(c);
        i = i + 1;
    }
}

/// Appends `s` as a left-aligned column of `width` characters.
pub fn push_left_aligned(out: &mut String, s: &str, width: usize)
    ensures
        final(out)@ == old(out)@ + left_aligned(s@, width as int),
{
    out.append(s);
    let used: usize = char_count(s);
    if used < width {
        push_run(out, ' ', width - used);
    }
    proof {
        assert(final(out)@ =~= old(out)@ + left_aligned(s@, width as int));
    }
}

/// Appends `s` as a right-aligned column of `width` characters.
pub fn push_right_aligned(out: &mut String, s: &str, width: usize)
    ensures
        final(out)@ == old(out)@ + right_aligned(s@, width as int),
{
    let used: usize = char_count(s);
    if used < width {
        push_run(out, ' ', width - used);
    }
    out.append(s);
    proof {
        assert(final(out)@ =~= old(out)@ + right_aligned(s@, width as int));
    }
}

/// The number of characters of `s`.
fn char_count(s: &str) -> (n: usize)
    ensures
        n == s@.len(),
{
    s.unicode_len()
}

/// Whether [`truncate`] can cut `s` to `n` bytes: it fits as it is, or the
/// place of the cut does not split a character.
pub open spec fn can_truncate(s: Seq<char>, n: int) -> bool {
    let bytes = encode_utf8(s);
    bytes.len() <= n || is_char_boundary(bytes, if n > 0 { n - 1 } else { 0 })
}

/// `s` where its UTF-8 form fits in `n` bytes; else the text of its first
/// `n - 1` bytes and an ellipsis.
pub open spec fn truncated(s: Seq<char>, n: int) -> Seq<char> {
    let bytes = encode_utf8(s);
    if bytes.len() <= n {
        s
    } else {
        decode_utf8(bytes.take(if n > 0 { n - 1 } else { 0 })).push('\u{2026}')
    }
}

/// Whether [`truncate`] can cut `s` to `n` bytes.
pub fn is_truncatable(s: &str, n: usize) -> (yes: bool)
    ensures
        yes == can_truncate(s@, n as int),
{
    s.as_bytes().len() <= n || s.is_char_boundary(n.saturating_sub(1))
}

/// Shortens a text longer than `n` bytes to its first `n - 1` bytes and an
/// ellipsis.
pub fn truncate(s: &str, n: usize) -> (out: String)
    requires
        can_truncate(s@, n as int),
    ensures
        out@ == truncated(s@, n as int),
{
    if s.as_bytes().len() <= n {
        s.to_owned()
    } else {
        let cut: usize = n.saturating_sub(1);
        let (head, _) = s.split_at(cut);
        proof {
            encode_utf8_decode_utf8(head@);
            assert(encode_utf8(s@).take(cut as int) =~= encode_utf8(s@).subrange(0, cut as int));
        }
        let mut out = head.to_owned();
        out.push('\u{2026}');
        out
    }
}

// ---------------------------------------------------------------------------
// Timestamps
// ---------------------------------------------------------------------------

/// Milliseconds since the epoch as seconds with three decimals, with a minus
/// sign for every moment before the epoch.
pub open spec fn timestamp(ms: int) -> Seq<char> {
    let magnitude: nat = if ms < 0 { (-ms) as nat } else { ms as nat };
    let millis = magnitude as int % 1000;
    (if ms < 0 { seq!['-'] } else { Seq::empty() }) + decimal(magnitude / 1000) + seq![
        '.',
        digit(millis / 100),
        digit(millis / 10 % 10),
        digit(millis % 10),
        's',
    ]
}

/// Different moments have different timestamps.
pub proof fn law_timestamps_tell_the_moment(a: int, b: int)
    requires
        timestamp(a) == timestamp(b),
    ensures
        a == b,
{
    lemma_timestamp_parts(a);
    lemma_timestamp_parts(b);
    let m: nat = if a < 0 { (-a) as nat } else { a as nat };
    let n: nat = if b < 0 { (-b) as nat } else { b as nat };
    let x = timestamp(a);
    let y = timestamp(b);
    let end = x.len() - 5;
    assert(m % 1000 == n % 1000) by {
        assert(x[end + 1] == y[end + 1] && x[end + 2] == y[end + 2] && x[end + 3] == y[end + 3]);
    }
    assert(a < 0 <==> b < 0);
    let start: int = if a < 0 { 1 } else { 0 };
    assert(x.subrange(start, end) == y.subrange(start, end));
    lemma_decimal_injective(m / 1000, n / 1000);
}

/// Where the parts of a timestamp stand.
proof fn lemma_timestamp_parts(ms: int)
    ensures
        ({
            let text = timestamp(ms);
            let magnitude: nat = if ms < 0 { (-ms) as nat } else { ms as nat };
            let start: int = if ms < 0 { 1 } else { 0 };
            let end = text.len() - 5;
            &&& start < end
            &&& ms < 0 <==> text[0] == '-'
            &&& text.subrange(start, end) == decimal(magnitude / 1000)
            &&& text[end + 1] == digit(magnitude as int % 1000 / 100)
            &&& text[end + 2] == digit(magnitude as int % 1000 / 10 % 10)
            &&& text[end + 3] == digit(magnitude as int % 1000 % 10)
        }),
{
    let text = timestamp(ms);
    let magnitude: nat = if ms < 0 { (-ms) as nat } else { ms as nat };
    let start: int = if ms < 0 { 1 } else { 0 };
    let end = text.len() - 5;
    lemma_decimal_is_digits(magnitude / 1000);
    assert(text.len() == start + decimal(magnitude / 1000).len() + 5);
    if ms >= 0 {
        assert(text[0] == decimal(magnitude / 1000)[0]);
    }
    assert(text.subrange(start, end) =~= decimal(magnitude / 1000));
}

/// Renders milliseconds since the epoch as seconds with three decimals.
pub fn format_ts(ms: i64) -> (out: String)
    ensures
        out@ == timestamp(ms as int),
{
    let magnitude: u64 = if ms < 0 {
        (-(ms as i128)) as u64
    } else {
        ms as u64
    };
    let millis: u64 = magnitude % 1000;
    let mut out = String::new();
    if ms < 0 {
        out.push('-');
    }
    push_decimal(&mut out, (magnitude / 1000) as u128);
    out.push('.');
    out.push(digit_char((millis / 100) as u8));
    out.push(digit_char((millis / 10 % 10) as u8));
    out.push(digit_char((millis % 10) as u8));
    out.push('s');
    assert(out@ =~= timestamp(ms as int));
    out
}

// ---------------------------------------------------------------------------
// Lengths of time
// ---------------------------------------------------------------------------

/// The last `width` decimal digits of `n`.
pub open spec fn digits(n: nat, width: nat) -> Seq<char>
    decreases width,
{
    if width == 0 {
        Seq::empty()
    } else {
        digits(n / 10, (width - 1) as nat).push(digit((n % 10) as int))
    }
}

/// The `width` decimals of a fraction behind a point, without trailing zeros;
/// nothing where all are zero.
pub open spec fn decimals(n: nat, width: nat) -> Seq<char>
    decreases width,
{
    if width == 0 {
        Seq::empty()
    } else if n % 10 == 0 {
        decimals(n / 10, (width - 1) as nat)
    } else {
        seq!['.'] + digits(n, width)
    }
}

/// A length of time in the largest unit of which it has one: `5s`, `1.5s`,
/// `100ms`.
pub open spec fn duration_text(ns: nat) -> Seq<char> {
    if ns >= 1_000_000_000 {
        decimal(ns / 1_000_000_000) + decimals(ns % 1_000_000_000, 9) + "s"@
    } else if ns >= 1_000_000 {
        decimal(ns / 1_000_000) + decimals(ns % 1_000_000, 6) + "ms"@
    } else if ns >= 1_000 {
        decimal(ns / 1_000) + decimals(ns % 1_000, 3) + "\u{b5}s"@
    } else {
        decimal(ns) + "ns"@
    }
}

fn push_digits(out: &mut String, n: u128, width: u32)
    ensures
        final(out)@ == old(out)@ + digits(n as nat, width as nat),
    decreases width,
{
    if width > 0 {
        push_digits(out, n / 10, width - 1);
        out.push(digit_char((n % 10) as u8));
    }
    proof {
        assert(final(out)@ =~= old(out)@ + digits(n as nat, width as nat));
    }
}

fn push_decimals(out: &mut String, n: u128, width: u32)
    ensures
        final(out)@ == old(out)@ + decimals(n as nat, width as nat),
    decreases width,
{
    if width > 0 {
        if n % 10 == 0 {
            push_decimals(out, n / 10, width - 1);
        } else {
            out.push('.');
            push_digits(out, n, width);
        }
    }
    proof {
        assert(final(out)@ =~= old(out)@ + decimals(n as nat, width as nat));
    }
}

/// Appends a length of time, given in nanoseconds.
pub fn push_duration(out: &mut String, ns: u128)
    ensures
        final(out)@ == old(out)@ + duration_text(ns as nat),
{
    if ns >= 1_000_000_000 {
        push_decimal(out, ns / 1_000_000_000);
        push_decimals(out, ns % 1_000_000_000, 9);
        out.append("s");
    } else if ns >= 1_000_000 {
        push_decimal(out, ns / 1_000_000);
        push_decimals(out, ns % 1_000_000, 6);
        out.append("ms");
    } else if ns >= 1_000 {
        push_decimal(out, ns / 1_000);
        push_decimals(out, ns % 1_000, 3);
        out.append("\u{b5}s");
    } else {
        push_decimal(out, ns);
        out.append("ns");
    }
    proof {
        assert(final(out)@ =~= old(out)@ + duration_text(ns as nat));
    }
}

// ---------------------------------------------------------------------------
// Optional texts
// ---------------------------------------------------------------------------

/// What an optional text holds.
pub open spec fn optional_text(text: Option<String>) -> Option<Seq<char>> {
    match text {
        Some(t) => Some(t@),
        None => None,
    }
}

// ---------------------------------------------------------------------------
// Comparison
// ---------------------------------------------------------------------------

/// Two texts with the same UTF-8 form are the same text.
pub proof fn lemma_utf8_injective(a: Seq<char>, b: Seq<char>)
    requires
        encode_utf8(a) == encode_utf8(b),
    ensures
        a == b,
{
    encode_utf8_decode_utf8(a);
    encode_utf8_decode_utf8(b);
}

/// Whether two texts are equal.
pub fn same(a: &str, b: &str) -> (equal: bool)
    ensures
        equal == (a@ == b@),
{
    let x = a.as_bytes();
    let y = b.as_bytes();
    if x.len() != y.len() {
        return false;
    }
    let mut i: usize = 0;
    while i < x.len()
        invariant
            i <= x@.len(),
            x@.len() == y@.len(),
            x@ == encode_utf8(a@),
            y@ == encode_utf8(b@),
            x@.take(i as int) =~= y@.take(i as int),
        decreases x@.len() - i,
    {
        if x[i] != y[i] {
            return false;
        }
        i = i + 1;
    }
    proof {
        assert(x@.take(i as int) =~= x@);
        assert(y@.take(i as int) =~= y@);
        lemma_utf8_injective(a@, b@);
    }
    true
}

// ---------------------------------------------------------------------------
// What the texts mean
// ---------------------------------------------------------------------------

/// The number that a decimal numeral stands for.
pub open spec fn numeral_value(text: Seq<char>) -> int
    decreases text.len(),
{
    if text.len() == 0 {
        0
    } else {
        10 * numeral_value(text.drop_last()) + (text.last() as int - '0' as int)
    }
}

/// A numeral is read back as its number, is made of decimal digits, and has no
/// leading zero but that of zero itself.
pub proof fn law_numeral_is_read_back(n: nat)
    ensures
        numeral_value(decimal(n)) == n,
        decimal(n).len() > 0,
        forall|i: int| 0 <= i < decimal(n).len() ==> '0' <= #[trigger] decimal(n)[i] <= '9',
        decimal(n)[0] == '0' ==> n == 0 && decimal(n).len() == 1,
    decreases n,
{
    lemma_decimal_is_digits(n);
    if n >= 10 {
        law_numeral_is_read_back(n / 10);
        assert(decimal(n).drop_last() =~= decimal(n / 10));
        assert(decimal(n)[0] == decimal(n / 10)[0]);
        assert(decimal(n).last() as int == 48 + n % 10);
    } else {
        assert(decimal(n).drop_last() =~= Seq::empty());
        assert(numeral_value(Seq::<char>::empty()) == 0);
        assert(decimal(n).last() as int == 48 + n);
    }
}

/// A signed numeral is the numeral of the magnitude, behind a minus sign exactly
/// where the number is negative.
pub proof fn law_signed_numeral_is_read_back(n: int)
    ensures
        signed_decimal(n)[0] == '-' <==> n < 0,
        n < 0 ==> numeral_value(signed_decimal(n).skip(1)) == -n,
        n >= 0 ==> numeral_value(signed_decimal(n)) == n,
{
    if n < 0 {
        law_numeral_is_read_back((-n) as nat);
        assert(signed_decimal(n).skip(1) =~= decimal((-n) as nat));
    } else {
        law_numeral_is_read_back(n as nat);
        assert('0' <= decimal(n as nat)[0]);
    }
}

/// The number that a lower-case hexadecimal digit stands for.
pub open spec fn hex_value(c: char) -> int {
    if c <= '9' {
        c as int - '0' as int
    } else {
        c as int - 'a' as int + 10
    }
}

/// Hexadecimal text has two lower-case digits for each byte, from which the byte
/// is read back.
pub proof fn law_hex_text_is_read_back(bytes: Seq<u8>, i: int)
    requires
        0 <= i < bytes.len(),
    ensures
        hex_text(bytes).len() == 2 * bytes.len(),
        16 * hex_value(hex_text(bytes)[2 * i]) + hex_value(hex_text(bytes)[2 * i + 1]) == bytes[i],
        ({
            let c = hex_text(bytes)[2 * i];
            '0' <= c <= '9' || 'a' <= c <= 'f'
        }),
        ({
            let c = hex_text(bytes)[2 * i + 1];
            '0' <= c <= '9' || 'a' <= c <= 'f'
        }),
{
    lemma_hex_digits(bytes, i);
}

/// A timestamp is a sign for a moment before the epoch, a number of seconds, a
/// point, three decimals and an `s`; together they give the milliseconds.
pub proof fn law_timestamp_is_read_back(ms: int)
    ensures
        ({
            let text = timestamp(ms);
            let start: int = if ms < 0 { 1 } else { 0 };
            let end = text.len() - 5;
            let magnitude = if ms < 0 { -ms } else { ms };
            &&& start < end
            &&& text[0] == '-' <==> ms < 0
            &&& text[end] == '.'
            &&& text[end + 4] == 's'
            &&& 1000 * numeral_value(text.subrange(start, end)) + numeral_value(
                text.subrange(end + 1, end + 4),
            ) == magnitude
            &&& text.subrange(start, end)[0] == '0' ==> magnitude < 1000 && end == start + 1
        }),
{
    lemma_timestamp_parts(ms);
    let text = timestamp(ms);
    let end = text.len() - 5;
    let magnitude: nat = if ms < 0 { (-ms) as nat } else { ms as nat };
    law_numeral_is_read_back(magnitude / 1000);
    let decimals = text.subrange(end + 1, end + 4);
    let millis = magnitude as int % 1000;
    assert(decimals =~= seq![digit(millis / 100), digit(millis / 10 % 10), digit(millis % 10)]);
    assert(decimals.drop_last() =~= seq![digit(millis / 100), digit(millis / 10 % 10)]);
    assert(decimals.drop_last().drop_last() =~= seq![digit(millis / 100)]);
    assert(decimals.drop_last().drop_last().drop_last() =~= Seq::empty());
    reveal_with_fuel(numeral_value, 4);
}

/// A left-aligned column is the text, then blanks up to the width; a
/// right-aligned one is blanks up to the width, then the text. A text that is as
/// wide as its column or wider stands unchanged.
pub proof fn law_columns_hold_their_text(s: Seq<char>, width: int)
    requires
        width >= 0,
    ensures
        ({
            let left = left_aligned(s, width);
            let right = right_aligned(s, width);
            let length: int = if s.len() > width { s.len() as int } else { width };
            let pad = length - s.len();
            &&& left.len() == length
            &&& right.len() == length
            &&& left.take(s.len() as int) == s
            &&& right.skip(pad) == s
            &&& forall|i: int| s.len() <= i < length ==> #[trigger] left[i] == ' '
            &&& forall|i: int| 0 <= i < pad ==> #[trigger] right[i] == ' '
        }),
{
    let left = left_aligned(s, width);
    let right = right_aligned(s, width);
    assert(left.take(s.len() as int) =~= s);
    assert(right.skip(right.len() - s.len()) =~= s);
}

/// A run of characters has its length and that character throughout.
pub proof fn law_run_repeats_one_character(c: char, width: int)
    requires
        width >= 0,
    ensures
        run_of(c, width).len() == width,
        forall|i: int| 0 <= i < width ==> #[trigger] run_of(c, width)[i] == c,
{
}

/// A text that fits is not changed. Of one that does not, the beginning that
/// takes one byte less than there is room for is kept, and an ellipsis follows;
/// without any room nothing but the ellipsis is left.
pub proof fn law_truncation_keeps_the_beginning(s: Seq<char>, n: int)
    requires
        n >= 0,
        can_truncate(s, n),
    ensures
        encode_utf8(s).len() <= n ==> truncated(s, n) == s,
        encode_utf8(s).len() > n ==> {
            let kept = truncated(s, n).drop_last();
            &&& truncated(s, n).len() > 0
            &&& truncated(s, n).last() == '\u{2026}'
            &&& n >= 1 ==> encode_utf8(kept) == encode_utf8(s).take(n - 1)
            &&& n == 0 ==> encode_utf8(kept) == Seq::<u8>::empty()
        },
{
    let bytes = encode_utf8(s);
    if bytes.len() > n {
        let cut: int = if n > 0 { n - 1 } else { 0 };
        encode_utf8_valid_utf8(s);
        valid_utf8_split(bytes, cut);
        let head = bytes.take(cut);
        assert(head =~= bytes.subrange(0, cut));
        assert(n == 0 ==> head =~= Seq::<u8>::empty());
        decode_utf8_encode_utf8(head);
        assert(truncated(s, n).drop_last() =~= decode_utf8(head));
    }
}

/// Whether a text can be cut is a matter of whether it fits or the cut falls
/// between two characters.
pub proof fn law_a_text_that_fits_needs_no_cut(s: Seq<char>, n: int)
    requires
        n >= 1,
    ensures
        encode_utf8(s).len() <= n ==> can_truncate(s, n),
        encode_utf8(s).len() > n ==> (can_truncate(s, n) <==> is_char_boundary(
            encode_utf8(s),
            n - 1,
        )),
{
}

/// Decimals behind a point are read back: the digits are those of the fraction,
/// without the zeros at its end, and none are written where it is zero.
pub proof fn law_decimals_are_read_back(n: nat, width: nat)
    requires
        n < pow10(width),
    ensures
        n == 0 <==> decimals(n, width).len() == 0,
        n > 0 ==> {
            let text = decimals(n, width);
            let places = (text.len() - 1) as nat;
            &&& 1 <= places <= width
            &&& text[0] == '.'
            &&& text.last() != '0'
            &&& numeral_value(text.skip(1)) * pow10((width - places) as nat) == n
        },
    decreases width,
{
    if width > 0 {
        assert(pow10(width) == 10 * pow10((width - 1) as nat));
        if n % 10 == 0 {
            law_decimals_are_read_back(n / 10, (width - 1) as nat);
            if n > 0 {
                let text = decimals(n, width);
                let places = (text.len() - 1) as nat;
                let value = numeral_value(text.skip(1));
                let rest = pow10((width - 1 - places) as nat) as int;
                assert(pow10((width - places) as nat) == 10 * rest);
                assert(value * (10 * rest) == 10 * (value * rest)) by (nonlinear_arith);
            }
        } else {
            let text = decimals(n, width);
            lemma_digits(n, width);
            assert(text.skip(1) =~= digits(n, width));
            assert(text.last() == digits(n, width).last());
            assert(digits(n, width).last() == digit((n % 10) as int));
            let value = numeral_value(text.skip(1));
            let places = (text.len() - 1) as nat;
            assert(places == width && pow10((width - places) as nat) == 1);
            assert(value * 1 == value);
        }
    }
}

/// Ten to a power.
pub open spec fn pow10(exponent: nat) -> nat
    decreases exponent,
{
    if exponent == 0 {
        1
    } else {
        10 * pow10((exponent - 1) as nat)
    }
}

proof fn lemma_digits(n: nat, width: nat)
    requires
        n < pow10(width),
    ensures
        digits(n, width).len() == width,
        numeral_value(digits(n, width)) == n,
    decreases width,
{
    if width > 0 {
        lemma_digits(n / 10, (width - 1) as nat);
        assert(digits(n, width).drop_last() =~= digits(n / 10, (width - 1) as nat));
        assert(digits(n, width).last() as int == 48 + n % 10);
    }
}

/// A length of time is written in the largest unit of which it has one: a whole
/// number, decimals where they are needed, and the unit.
pub proof fn law_durations_are_read_back(ns: nat)
    ensures
        ns >= 1_000_000_000 ==> duration_text(ns) == decimal(ns / 1_000_000_000) + decimals(
            ns % 1_000_000_000,
            9,
        ) + "s"@,
        1_000_000 <= ns < 1_000_000_000 ==> duration_text(ns) == decimal(ns / 1_000_000)
            + decimals(ns % 1_000_000, 6) + "ms"@,
        1_000 <= ns < 1_000_000 ==> duration_text(ns) == decimal(ns / 1_000) + decimals(
            ns % 1_000,
            3,
        ) + "\u{b5}s"@,
        ns < 1_000 ==> duration_text(ns) == decimal(ns) + "ns"@,
{
}

} // verus!
