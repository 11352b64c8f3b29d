//! Character-level building blocks: escaping for XML output, zero-padded decimals and
//! the attribute lists of tags.
use vstd::prelude::*;

verus! {

/// Relies on `String::push`: the character is appended at the end.
pub assume_specification[ String::push ](s: &mut String, ch: char)
    ensures
        final(s)@ == old(s)@.push(ch),
;

/// What `&`, `"`, `<` and `>` become inside a quoted attribute value.
pub open spec fn escape_attr_char(c: char) -> Seq<char> {
    if c == '&' {
        "&amp;"@
    } else if c == '"' {
        "&quot;"@
    } else if c == '<' {
        "&lt;"@
    } else if c == '>' {
        "&gt;"@
    } else {
        seq![c]
    }
}

/// An attribute value with each special character replaced by its entity.
pub open spec fn escape_attr(s: Seq<char>) -> Seq<char>
    decreases s.len(),
{
    if s.len() == 0 {
        Seq::empty()
    } else {
        escape_attr(s.drop_last()) + escape_attr_char(s.last())
    }
}

/// What `&`, `<` and `>` become in character data.
pub open spec fn escape_text_char(c: char) -> Seq<char> {
    if c == '&' {
        "&amp;"@
    } else if c == '<' {
        "&lt;"@
    } else if c == '>' {
        "&gt;"@
    } else {
        seq![c]
    }
}

/// Character data with each special character replaced by its entity.
pub open spec fn escape_text(s: Seq<char>) -> Seq<char>
    decreases s.len(),
{
    if s.len() == 0 {
        Seq::empty()
    } else {
        escape_text(s.drop_last()) + escape_text_char(s.last())
    }
}

/// What a conforming XML reader makes of an attribute value's text: each of the entity
/// references `&amp;`, `&quot;`, `&lt;` and `&gt;` stands for its character, and every
/// other character for itself.
pub open spec fn unescape(s: Seq<char>) -> Seq<char>
    decreases s.len(),
{
    if s.len() == 0 {
        Seq::empty()
    } else if s.len() >= 5 && s.subrange(0, 5) == "&amp;"@ {
        seq!['&'] + unescape(s.skip(5))
    } else if s.len() >= 6 && s.subrange(0, 6) == "&quot;"@ {
        seq!['"'] + unescape(s.skip(6))
    } else if s.len() >= 4 && s.subrange(0, 4) == "&lt;"@ {
        seq!['<'] + unescape(s.skip(4))
    } else if s.len() >= 4 && s.subrange(0, 4) == "&gt;"@ {
        seq!['>'] + unescape(s.skip(4))
    } else {
        seq![s[0]] + unescape(s.skip(1))
    }
}

proof fn lemma_unescape_escaped_char(c: char, rest: Seq<char>)
    ensures
        unescape(escape_attr_char(c) + rest) == seq![c] + unescape(rest),
{
    reveal_strlit("&amp;");
    reveal_strlit("&quot;");
    reveal_strlit("&lt;");
    reveal_strlit("&gt;");
    let t = escape_attr_char(c) + rest;
    let n = escape_attr_char(c).len() as int;
    assert(t.skip(n) =~= rest);
    if c == '&' {
        assert(t.subrange(0, 5) =~= "&amp;"@);
    } else if c == '"' {
        assert(t.subrange(0, 6) =~= "&quot;"@);
        assert(t[1] != "&amp;"@[1]);
    } else if c == '<' {
        assert(t.subrange(0, 4) =~= "&lt;"@);
        assert(t[1] != "&amp;"@[1]);
        assert(t[1] != "&quot;"@[1]);
    } else if c == '>' {
        assert(t.subrange(0, 4) =~= "&gt;"@);
        assert(t[1] != "&amp;"@[1]);
        assert(t[1] != "&quot;"@[1]);
        assert(t[1] != "&lt;"@[1]);
    } else {
        assert(t[0] == c);
        assert(t[0] != "&amp;"@[0]);
        assert(t.len() >= 5 ==> t.subrange(0, 5)[0] != "&amp;"@[0]);
        assert(t.len() >= 6 ==> t.subrange(0, 6)[0] != "&quot;"@[0]);
        assert(t.len() >= 4 ==> t.subrange(0, 4)[0] != "&lt;"@[0]);
        assert(t.len() >= 4 ==> t.subrange(0, 4)[0] != "&gt;"@[0]);
    }
}

proof fn lemma_escape_attr_front(s: Seq<char>)
    requires
        s.len() > 0,
    ensures
        escape_attr(s) == escape_attr_char(s[0]) + escape_attr(s.drop_first()),
    decreases s.len(),
{
    if s.len() == 1 {
        assert(s.drop_last() =~= Seq::<char>::empty());
        assert(s.drop_first() =~= Seq::<char>::empty());
        assert(escape_attr(s.drop_last()) == Seq::<char>::empty());
        assert(escape_attr(s.drop_first()) == Seq::<char>::empty());
        assert(s.last() == s[0]);
        assert(escape_attr(s) =~= escape_attr_char(s[0]) + escape_attr(s.drop_first()));
    } else {
        lemma_escape_attr_front(s.drop_last());
        assert(s.drop_last().drop_first() =~= s.drop_first().drop_last());
        assert(s.drop_first().last() == s.last());
        assert(escape_attr(s) =~= escape_attr_char(s[0]) + escape_attr(s.drop_first()));
    }
}

/// Round trip: a value written with attribute escaping reads back, entity by entity, as
/// the value itself.
pub proof fn law_attribute_escaping_round_trips(value: Seq<char>)
    ensures
        unescape(escape_attr(value)) == value,
    decreases value.len(),
{
    if value.len() == 0 {
        assert(escape_attr(value) =~= Seq::<char>::empty());
    } else {
        lemma_escape_attr_front(value);
        lemma_unescape_escaped_char(value[0], escape_attr(value.drop_first()));
        law_attribute_escaping_round_trips(value.drop_first());
        assert(value =~= seq![value[0]] + value.drop_first());
    }
}

/// Appends `value` to `out` with attribute escaping.
pub fn push_escaped_attr(out: &mut String, value: &str)
    ensures
        final(out)@ == old(out)@ + escape_attr(value@),
{
    let ghost start = out@;
    for c in it: value.chars()
        invariant
            it.seq() == value@,
            out@ == start + escape_attr(it.seq().take(it.index() as int)),
    {
        assert(it.seq().take(it.index() + 1).drop_last() == it.seq().take(it.index() as int));
        if c == '&' {
            out.append("&amp;");
        } else if c == '"' {
            out.append("&quot;");
        } else if c == '<' {
            out.append("&lt;");
        } else if c == '>' {
            out.append("&gt;");
        } else {
            out.push(c);
        }
    }
    assert(value@.take(value@.len() as int) == value@);
}

/// Appends `value` to `out` with character-data escaping.
pub fn push_escaped_text(out: &mut String, value: &str)
    ensures
        final(out)@ == old(out)@ + escape_text(value@),
{
    let ghost start = out@;
    for c in it: value.chars()
        invariant
            it.seq() == value@,
            out@ == start + escape_text(it.seq().take(it.index() as int)),
    {
        assert(it.seq().take(it.index() + 1).drop_last() == it.seq().take(it.index() as int));
        if c == '&' {
            out.append("&amp;");
        } else if c == '<' {
            out.append("&lt;");
        } else if c == '>' {
            out.append("&gt;");
        } else {
            out.push(c);
        }
    }
    assert(value@.take(value@.len() as int) == value@);
}

/// The character of a decimal digit.
pub open spec fn digit_char(d: nat) -> char {
    if d == 0 {
        '0'
    } else if d == 1 {
        '1'
    } else if d == 2 {
        '2'
    } else if d == 3 {
        '3'
    } else if d == 4 {
        '4'
    } else if d == 5 {
        '5'
    } else if d == 6 {
        '6'
    } else if d == 7 {
        '7'
    } else if d == 8 {
        '8'
    } else {
        '9'
    }
}

/// The value of a decimal digit character.
pub open spec fn digit_value(c: char) -> nat {
    if c == '1' {
        1
    } else if c == '2' {
        2
    } else if c == '3' {
        3
    } else if c == '4' {
        4
    } else if c == '5' {
        5
    } else if c == '6' {
        6
    } else if c == '7' {
        7
    } else if c == '8' {
        8
    } else if c == '9' {
        9
    } else {
        0
    }
}

pub open spec fn is_digit(c: char) -> bool {
    '0' <= c && c <= '9'
}

/// `n` in decimal, padded on the left with zeros to at least `width` characters.
pub open spec fn padded_decimal(n: nat, width: nat) -> Seq<char>
    decreases n, width,
{
    if n < 10 && width <= 1 {
        seq![digit_char(n)]
    } else {
        padded_decimal(n / 10, if width > 0 { (width - 1) as nat } else { 0 }).push(
            digit_char(n % 10),
        )
    }
}

/// `n` in decimal, without leading zeros.
pub open spec fn decimal(n: nat) -> Seq<char> {
    padded_decimal(n, 1)
}

/// The number that a string of decimal digits denotes.
pub open spec fn decimal_value(s: Seq<char>) -> nat
    decreases s.len(),
{
    if s.len() == 0 {
        0
    } else {
        decimal_value(s.drop_last()) * 10 + digit_value(s.last())
    }
}

/// Reading back a padded decimal gives the number.
pub proof fn lemma_padded_decimal_value(n: nat, width: nat)
    ensures
        decimal_value(padded_decimal(n, width)) == n,
    decreases n, width,
{
    if n < 10 && width <= 1 {
        let s = padded_decimal(n, width);
        assert(s.drop_last() =~= Seq::<char>::empty());
        assert(digit_value(digit_char(n)) == n);
        assert(decimal_value(s) == decimal_value(s.drop_last()) * 10 + digit_value(s.last()));
    } else {
        let w = if width > 0 { (width - 1) as nat } else { 0 };
        lemma_padded_decimal_value(n / 10, w);
        let s = padded_decimal(n, width);
        assert(s.drop_last() == padded_decimal(n / 10, w));
        assert(digit_value(digit_char(n % 10)) == n % 10);
        assert(n == (n / 10) * 10 + n % 10);
        assert(decimal_value(s) == decimal_value(s.drop_last()) * 10 + digit_value(s.last()));
    }
}

/// Two numbers padded to the same width give the same text only if they are equal.
pub proof fn lemma_padded_decimal_injective(n: nat, m: nat, width: nat)
    requires
        padded_decimal(n, width) == padded_decimal(m, width),
    ensures
        n == m,
{
    lemma_padded_decimal_value(n, width);
    lemma_padded_decimal_value(m, width);
}

/// Appends `n` in decimal, zero-padded to at least `width` characters.
pub fn push_padded_decimal(out: &mut String, n: u64, width: u64)
    ensures
        final(out)@ == old(out)@ + padded_decimal(n as nat, width as nat),
    decreases n, width,
{
    if n < 10 && width <= 1 {
        push_digit(out, n);
    } else {
        let w: u64 = if width > 0 {
            width - 1
        } else {
            0
        };
        push_padded_decimal(out, n / 10, w);
        push_digit(out, n % 10);
    }
}

fn push_digit(out: &mut String, d: u64)
    requires
        d < 10,
    ensures
        final(out)@ == old(out)@.push(digit_char(d as nat)),
{
    let c = if d == 0 {
        '0'
    } else if d == 1 {
        '1'
    } else if d == 2 {
        '2'
    } else if d == 3 {
        '3'
    } else if d == 4 {
        '4'
    } else if d == 5 {
        '5'
    } else if d == 6 {
        '6'
    } else if d == 7 {
        '7'
    } else if d == 8 {
        '8'
    } else {
        '9'
    };
    out.push(c);
}

/// One attribute as it is written in a tag: ` key="escaped value"`.
pub open spec fn attr_text(key: Seq<char>, value: Seq<char>) -> Seq<char> {
    " "@ + key + "=\""@ + escape_attr(value) + "\""@
}

/// The views of a list of key/value attributes.
pub open spec fn attr_views(attrs: Seq<(String, String)>) -> Seq<(Seq<char>, Seq<char>)> {
    attrs.map_values(|a: (String, String)| (a.0@, a.1@))
}

/// A list of attributes as it is written in a tag, in order.
pub open spec fn attrs_text(attrs: Seq<(Seq<char>, Seq<char>)>) -> Seq<char>
    decreases attrs.len(),
{
    if attrs.len() == 0 {
        Seq::empty()
    } else {
        attrs_text(attrs.drop_last()) + attr_text(attrs.last().0, attrs.last().1)
    }
}

/// Appends the attributes as they are written in a tag.
pub fn push_attrs(out: &mut String, attrs: &Vec<(String, String)>)
    ensures
        final(out)@ == old(out)@ + attrs_text(attr_views(attrs@)),
{
    let ghost start = out@;
    let mut i: usize = 0;
    while i < attrs.len()
        invariant
            i <= attrs.len(),
            out@ == start + attrs_text(attr_views(attrs@.take(i as int))),
        decreases attrs.len() - i,
    {
        let ghost before = out@;
        out.append(" ");
        out.append(attrs[i].0.as_str());
        out.append("=\"");
        push_escaped_attr(out, attrs[i].1.as_str());
        out.append("\"");
        proof {
            let t = attr_views(attrs@.take(i + 1));
            assert(t.drop_last() =~= attr_views(attrs@.take(i as int)));
            assert(out@ =~= before + attr_text(t.last().0, t.last().1));
        }
        i = i + 1;
    }
    assert(attrs@.take(attrs.len() as int) =~= attrs@);
}

} // verus!
