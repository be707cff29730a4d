//! JSON string literals, numbers and arrays.

use crate::text::digit;
use vstd::prelude::*;
use vstd::string::StrSliceExecFns;

verus! {

/// How a JSON string literal writes one character: quotes, backslashes and
/// control characters are escaped, everything else stands for itself.
pub open spec fn json_char(c: char) -> Seq<char> {
    if c == '"' {
        seq!['\\', '"']
    } else if c == '\\' {
        seq!['\\', '\\']
    } else if c == '\u{8}' {
        seq!['\\', 'b']
    } else if c == '\t' {
        seq!['\\', 't']
    } else if c == '\n' {
        seq!['\\', 'n']
    } else if c == '\u{c}' {
        seq!['\\', 'f']
    } else if c == '\r' {
        seq!['\\', 'r']
    } else if c <= '\u{1f}' {
        seq!['\\', 'u', '0', '0', digit(c as int / 16), digit(c as int % 16)]
    } else {
        seq![c]
    }
}

/// What stands between the quotes of a JSON string literal.
pub open spec fn json_chars(text: Seq<char>) -> Seq<char>
    decreases text.len(),
{
    if text.len() == 0 {
        Seq::empty()
    } else {
        json_char(text[0]) + json_chars(text.skip(1))
    }
}

/// The JSON string literal of a text.
pub open spec fn json_string(text: Seq<char>) -> Seq<char> {
    seq!['"'] + json_chars(text) + seq!['"']
}

/// The items of a JSON array that follow another one: each has a comma in
/// front.
pub open spec fn further_items(items: Seq<Seq<char>>) -> Seq<char>
    decreases items.len(),
{
    if items.len() == 0 {
        Seq::empty()
    } else {
        ","@ + items[0] + further_items(items.skip(1))
    }
}

/// What stands between the brackets of the JSON array of the items.
pub open spec fn array_items(items: Seq<Seq<char>>) -> Seq<char> {
    if items.len() == 0 {
        Seq::empty()
    } else {
        items[0] + further_items(items.skip(1))
    }
}

proof fn lemma_further_items_of_push(items: Seq<Seq<char>>, item: Seq<char>)
    ensures
        further_items(items.push(item)) == further_items(items) + ","@ + item,
    decreases items.len(),
{
    let longer = items.push(item);
    if items.len() == 0 {
        assert(longer.skip(1) =~= items);
        assert(further_items(items) =~= Seq::empty());
    } else {
        assert(longer.skip(1) =~= items.skip(1).push(item));
        lemma_further_items_of_push(items.skip(1), item);
    }
    assert(further_items(longer) =~= further_items(items) + ","@ + item);
}

/// One more item goes to the end, with a comma in front where it is not the
/// first.
pub proof fn lemma_array_items_of_push(items: Seq<Seq<char>>, item: Seq<char>)
    ensures
        array_items(items.push(item)) == array_items(items) + (if items.len() == 0 {
            Seq::empty()
        } else {
            ","@
        }) + item,
{
    let longer = items.push(item);
    if items.len() == 0 {
        assert(longer.skip(1) =~= Seq::empty());
        assert(array_items(longer) =~= item);
        assert(array_items(items) + Seq::<char>::empty() + item =~= item);
    } else {
        assert(longer.skip(1) =~= items.skip(1).push(item));
        lemma_further_items_of_push(items.skip(1), item);
        assert(array_items(longer) =~= array_items(items) + ","@ + item);
    }
}

/// Whether a text is written with the characters of a JSON number.
pub open spec fn is_number_text(text: Seq<char>) -> bool {
    text.len() > 0 && forall|i: int| 0 <= i < text.len() ==> is_number_char(#[trigger] text[i])
}

/// Whether a character can stand in a JSON number.
pub open spec fn is_number_char(c: char) -> bool {
    '0' <= c <= '9' || c == '-' || c == '+' || c == '.' || c == 'e' || c == 'E'
}

/// Whether a text is written with the characters of a JSON number.
pub fn is_number(text: &str) -> (yes: bool)
    ensures
        yes == is_number_text(text@),
{
    let length: usize = text.unicode_len();
    if length == 0 {
        return false;
    }
    let mut i: usize = 0;
    while i < length
        invariant
            i <= length,
            length == text@.len(),
            forall|k: int| 0 <= k < i ==> is_number_char(#[trigger] text@[k]),
        decreases length - i,
    {
        let c: char = text.get_char(i);
        let fits: bool = ('0' <= c && c <= '9') || c == '-' || c == '+' || c == '.' || c == 'e' || c
            == 'E';
        if !fits {
            return false;
        }
        i = i + 1;
    }
    true
}

/// Calls `serde_json::to_string` on a text: the text as a JSON string literal.
/// Serializing a text to memory does not fail.
#[verifier::external_body]
pub(crate) fn quote(text: &str) -> (literal: String)
    ensures
        literal@ == json_string(text@),
{
    serde_json::to_string(text).expect("a text always serializes")
}

/// What a literal's first character is written as tells that character, and
/// where the next one starts.
proof fn lemma_json_char_is_prefix_free(a: char, b: char, x: Seq<char>, y: Seq<char>)
    requires
        json_char(a) + x == json_char(b) + y,
    ensures
        a == b,
        x == y,
{
    let p = json_char(a);
    let q = json_char(b);
    let whole = p + x;
    assert(whole == q + y);
    assert(whole[0] == p[0] && whole[0] == q[0]);
    if whole[0] == '\\' {
        assert(p.len() >= 2 && q.len() >= 2);
        assert(whole[1] == p[1] && whole[1] == q[1]);
        if whole[1] == 'u' {
            assert(p.len() == 6 && q.len() == 6);
            assert(whole[4] == p[4] && whole[4] == q[4]);
            assert(whole[5] == p[5] && whole[5] == q[5]);
        }
    }
    assert(a == b);
    assert(x =~= whole.skip(p.len() as int));
    assert(y =~= whole.skip(q.len() as int));
}

/// A string literal tells its text, and where it ends: whatever follows two
/// literals, if the whole is the same, both texts and both remainders are.
pub proof fn lemma_json_string_decodes(a: Seq<char>, b: Seq<char>, x: Seq<char>, y: Seq<char>)
    requires
        json_string(a) + x == json_string(b) + y,
    ensures
        a == b,
        x == y,
{
    let left = json_string(a) + x;
    let right = json_string(b) + y;
    assert(left.skip(1) =~= json_chars(a) + (seq!['"'] + x));
    assert(right.skip(1) =~= json_chars(b) + (seq!['"'] + y));
    lemma_json_chars_decode(a, b, x, y);
}

proof fn lemma_json_chars_decode(a: Seq<char>, b: Seq<char>, x: Seq<char>, y: Seq<char>)
    requires
        json_chars(a) + (seq!['"'] + x) == json_chars(b) + (seq!['"'] + y),
    ensures
        a == b,
        x == y,
    decreases a.len(),
{
    let p = seq!['"'] + x;
    let q = seq!['"'] + y;
    let left = json_chars(a) + p;
    let right = json_chars(b) + q;
    if a.len() == 0 || b.len() == 0 {
        if a.len() > 0 {
            assert(left[0] == json_char(a[0])[0]);
            assert(right[0] == q[0]);
            assert(false);
        }
        if b.len() > 0 {
            assert(right[0] == json_char(b[0])[0]);
            assert(left[0] == p[0]);
            assert(false);
        }
        assert(left =~= p && right =~= q);
        assert(x =~= p.skip(1) && y =~= q.skip(1));
        assert(a =~= b);
    } else {
        assert(left =~= json_char(a[0]) + (json_chars(a.skip(1)) + p));
        assert(right =~= json_char(b[0]) + (json_chars(b.skip(1)) + q));
        lemma_json_char_is_prefix_free(
            a[0],
            b[0],
            json_chars(a.skip(1)) + p,
            json_chars(b.skip(1)) + q,
        );
        lemma_json_chars_decode(a.skip(1), b.skip(1), x, y);
        assert(a =~= seq![a[0]] + a.skip(1));
        assert(b =~= seq![b[0]] + b.skip(1));
    }
}

// ---------------------------------------------------------------------------
// Laws
// ---------------------------------------------------------------------------

/// A text is a number exactly where it has a character and each is a digit, a
/// sign, a point or the mark of an exponent.
pub proof fn law_number_text_is_made_of_number_characters(text: Seq<char>)
    ensures
        is_number_text(text) <==> text.len() > 0 && forall|i: int|
            0 <= i < text.len() ==> {
                let c = #[trigger] text[i];
                '0' <= c <= '9' || c == '-' || c == '+' || c == '.' || c == 'e' || c == 'E'
            },
{
    if text.len() > 0 && forall|i: int|
        0 <= i < text.len() ==> {
            let c = #[trigger] text[i];
            '0' <= c <= '9' || c == '-' || c == '+' || c == '.' || c == 'e' || c == 'E'
        } {
        assert forall|i: int| 0 <= i < text.len() implies is_number_char(#[trigger] text[i]) by {}
    } else if is_number_text(text) {
        assert forall|i: int| 0 <= i < text.len() implies {
            let c = #[trigger] text[i];
            '0' <= c <= '9' || c == '-' || c == '+' || c == '.' || c == 'e' || c == 'E'
        } by {
            assert(is_number_char(text[i]));
        }
    }
}

/// The items of an array stand in order, all of them, with one comma between
/// each and the next.
pub proof fn law_array_has_every_item(items: Seq<Seq<char>>, item: Seq<char>)
    ensures
        array_items(Seq::<Seq<char>>::empty()) == Seq::<char>::empty(),
        array_items(seq![item]) == item,
        items.len() > 0 ==> array_items(items.push(item)) == array_items(items) + ","@ + item,
{
    lemma_array_items_of_push(items, item);
    lemma_array_items_of_push(Seq::<Seq<char>>::empty(), item);
    assert(Seq::<Seq<char>>::empty().push(item) =~= seq![item]);
    assert(Seq::<char>::empty() + Seq::<char>::empty() + item =~= item);
}

} // verus!
