//! How a text stands inside a JSON string.

use vstd::prelude::*;
use vstd::string::*;

verus! {

/// The sixteen hexadecimal digits, in order.
pub open spec fn hex_digits() -> Seq<char> {
    "0123456789abcdef"@
}

/// How one character stands inside a JSON string: a quote and a backslash
/// behind a backslash, a control character (below 0x20) as `\u00` and its two
/// hexadecimal digits, and every other character as it is.
pub open spec fn escape_char(c: char) -> Seq<char> {
    if c == '"' {
        seq!['\\', '"']
    } else if c == '\\' {
        seq!['\\', '\\']
    } else if (c as u32) < 0x20 {
        seq![
            '\\',
            'u',
            '0',
            '0',
            if (c as u32) < 0x10 {
                '0'
            } else {
                '1'
            },
            hex_digits()[(c as u32 % 0x10) as int],
        ]
    } else {
        seq![c]
    }
}

/// How a text stands inside a JSON string, between the quotes: its characters
/// escaped, one after the other.
pub open spec fn json_escape(text: Seq<char>) -> Seq<char>
    decreases text.len(),
{
    if text.len() == 0 {
        seq![]
    } else {
        json_escape(text.drop_last()) + escape_char(text.last())
    }
}

/// Appends `c` to `text` with `String::push`. Trusted: the text afterwards is
/// the text before with `c` at its end.
#[verifier::external_body]
fn push_char(text: &mut String, c: char)
    ensures
        final(text)@ == old(text)@.push(c),
{
    text.push(c);
}

/// Appends one character to `out` as it stands inside a JSON string.
fn push_escaped(out: &mut String, c: char)
    ensures
        final(out)@ == old(out)@ + escape_char(c),
{
    if c == '"' {
        push_char(out, '\\');
        push_char(out, '"');
    } else if c == '\\' {
        push_char(out, '\\');
        push_char(out, '\\');
    } else if (c as u32) < 0x20 {
        proof {
            reveal_strlit("0123456789abcdef");
        }
        let low = "0123456789abcdef".get_char((c as u32 % 0x10) as usize);
        push_char(out, '\\');
        push_char(out, 'u');
        push_char(out, '0');
        push_char(out, '0');
        push_char(out, if (c as u32) < 0x10 { '0' } else { '1' });
        push_char(out, low);
    } else {
        push_char(out, c);
    }
    assert(out@ =~= old(out)@ + escape_char(c));
}

/// Escapes a text for its place inside a JSON string.
pub fn escape(text: &str) -> (out: String)
    ensures
        out@ == json_escape(text@),
{
    let mut out = String::new();
    for c in it: text.chars()
        invariant
            it.seq() == text@,
            out@ == json_escape(it.seq().take(it.index())),
    {
        proof {
            let done = it.seq().take(it.index());
            assert(it.seq().take(it.index() + 1) =~= done.push(c));
            assert(done.push(c).drop_last() =~= done);
        }
        push_escaped(&mut out, c);
    }
    assert(text@.take(text@.len() as int) =~= text@);
    out
}

/// The escape of one character is the escape of the text that holds it alone.
proof fn lemma_escape_one(c: char)
    ensures
        json_escape(seq![c]) == escape_char(c),
{
    assert(seq![c].drop_last() =~= Seq::<char>::empty());
    assert(json_escape(seq![c]) =~= escape_char(c)) by {
        reveal_with_fuel(json_escape, 2);
    }
}

/// A text in two parts is escaped part by part.
pub proof fn lemma_escape_concat(a: Seq<char>, b: Seq<char>)
    ensures
        json_escape(a + b) == json_escape(a) + json_escape(b),
    decreases b.len(),
{
    if b.len() == 0 {
        assert(a + b =~= a);
        assert(json_escape(a) + json_escape(b) =~= json_escape(a));
    } else {
        lemma_escape_concat(a, b.drop_last());
        assert((a + b).drop_last() =~= a + b.drop_last());
        assert(json_escape(a + b) =~= json_escape(a) + json_escape(b));
    }
}

/// The escape of a text begins with the escape of its first character.
proof fn lemma_escape_front(text: Seq<char>)
    requires
        text.len() > 0,
    ensures
        json_escape(text) == escape_char(text[0]) + json_escape(text.drop_first()),
{
    lemma_escape_one(text[0]);
    lemma_escape_concat(seq![text[0]], text.drop_first());
    assert(seq![text[0]] + text.drop_first() =~= text);
}

/// No two hexadecimal digits are the same.
proof fn lemma_hex_digits_differ(i: int, j: int)
    requires
        0 <= i < 16,
        0 <= j < 16,
        hex_digits()[i] == hex_digits()[j],
    ensures
        i == j,
{
    reveal_strlit("0123456789abcdef");
}

/// The escape of a character never begins with a quote.
proof fn lemma_escape_char_opening(c: char)
    ensures
        escape_char(c).len() > 0,
        escape_char(c)[0] != '"',
{
}

/// What begins with the escape of a character tells which character it was,
/// and what follows the escape.
proof fn lemma_escape_char_prefix(c: char, s: Seq<char>, d: char, t: Seq<char>)
    requires
        escape_char(c) + s == escape_char(d) + t,
    ensures
        c == d,
        s == t,
{
    let left = escape_char(c) + s;
    let right = escape_char(d) + t;
    assert(left[0] == right[0]);
    assert(left[0] == escape_char(c)[0]);
    assert(right[0] == escape_char(d)[0]);
    let c_special = c == '"' || c == '\\' || (c as u32) < 0x20;
    let d_special = d == '"' || d == '\\' || (d as u32) < 0x20;
    if c_special {
        assert(d_special);
        assert(left[1] == right[1]);
        assert(left[1] == escape_char(c)[1]);
        assert(right[1] == escape_char(d)[1]);
        if (c as u32) < 0x20 {
            assert((d as u32) < 0x20);
            assert(left[4] == right[4]);
            assert(left[4] == escape_char(c)[4]);
            assert(right[4] == escape_char(d)[4]);
            assert(left[5] == right[5]);
            assert(left[5] == escape_char(c)[5]);
            assert(right[5] == escape_char(d)[5]);
            lemma_hex_digits_differ((c as u32 % 0x10) as int, (d as u32 % 0x10) as int);
            assert(c as u32 == d as u32);
        }
    } else {
        assert(!d_special);
    }
    assert(c == d);
    assert(s =~= left.skip(escape_char(c).len() as int));
    assert(t =~= right.skip(escape_char(d).len() as int));
}

/// An escaped text ends where the first bare quote stands: two escaped texts,
/// each followed by a quote and by anything at all, are the same only where
/// the texts are the same and what follows is the same. So no text can pass
/// for another, nor reach into what stands behind it.
pub proof fn lemma_escape_ends_at_quote(a: Seq<char>, x: Seq<char>, b: Seq<char>, y: Seq<char>)
    requires
        json_escape(a) + seq!['"'] + x == json_escape(b) + seq!['"'] + y,
    ensures
        a == b,
        x == y,
    decreases a.len(),
{
    let left = json_escape(a) + seq!['"'] + x;
    let right = json_escape(b) + seq!['"'] + y;
    if a.len() == 0 && b.len() == 0 {
        assert(a =~= b);
        assert(x =~= left.skip(1));
        assert(y =~= right.skip(1));
    } else if a.len() == 0 {
        lemma_escape_front(b);
        lemma_escape_char_opening(b[0]);
        assert(left[0] == '"');
        assert(right[0] == escape_char(b[0])[0]);
    } else if b.len() == 0 {
        lemma_escape_front(a);
        lemma_escape_char_opening(a[0]);
        assert(right[0] == '"');
        assert(left[0] == escape_char(a[0])[0]);
    } else {
        lemma_escape_front(a);
        lemma_escape_front(b);
        let rest_a = json_escape(a.drop_first()) + seq!['"'] + x;
        let rest_b = json_escape(b.drop_first()) + seq!['"'] + y;
        assert(left =~= escape_char(a[0]) + rest_a);
        assert(right =~= escape_char(b[0]) + rest_b);
        lemma_escape_char_prefix(a[0], rest_a, b[0], rest_b);
        lemma_escape_ends_at_quote(a.drop_first(), x, b.drop_first(), y);
        assert(a =~= seq![a[0]] + a.drop_first());
        assert(b =~= seq![b[0]] + b.drop_first());
    }
}

} // verus!
