//! Number formatting and JSON string escaping over `String`.
use vstd::prelude::*;

verus! {

/// `String::push` appends one character.
pub assume_specification[ String::push ](s: &mut String, ch: char)
    ensures
        final(s)@ == old(s)@.push(ch),
;

/// `String::push_str` appends the characters of `string`.
pub assume_specification[ String::push_str ](s: &mut String, string: &str)
    ensures
        final(s)@ == old(s)@ + string@,
;

/// The lower-case hexadecimal digit for `d`.
pub open spec fn digit(d: int) -> char {
    if d == 0 {
        '0'
    } else if d == 1 {
        '1'
    } else if d == 2 {
        '2'
    } else if d == 3 {
        '3'
    } else if d == 4 {
        '4'
    } else if d == 5 {
        '5'
    } else if d == 6 {
        '6'
    } else if d == 7 {
        '7'
    } else if d == 8 {
        '8'
    } else if d == 9 {
        '9'
    } else if d == 10 {
        'a'
    } else if d == 11 {
        'b'
    } else if d == 12 {
        'c'
    } else if d == 13 {
        'd'
    } else if d == 14 {
        'e'
    } else {
        'f'
    }
}

/// `n` in decimal, without leading zeros.
pub open spec fn decimal(n: nat) -> Seq<char>
    decreases n,
{
    if n < 10 {
        seq![digit(n as int)]
    } else {
        decimal(n / 10).push(digit((n % 10) as int))
    }
}

/// The low `width` hexadecimal digits of `n`.
pub open spec fn hex(n: nat, width: nat) -> Seq<char>
    decreases width,
{
    if width == 0 {
        Seq::empty()
    } else {
        hex(n / 16, (width - 1) as nat).push(digit((n % 16) as int))
    }
}

/// `n` in hexadecimal, without leading zeros.
pub open spec fn short_hex(n: nat) -> Seq<char>
    decreases n,
{
    if n < 16 {
        seq![digit(n as int)]
    } else {
        short_hex(n / 16).push(digit((n % 16) as int))
    }
}

/// A capital hexadecimal digit.
pub open spec fn capital(d: u8) -> char {
    match d {
        10 => 'A',
        11 => 'B',
        12 => 'C',
        13 => 'D',
        14 => 'E',
        15 => 'F',
        _ => digit(d as int),
    }
}

/// A byte as two capital hexadecimal digits.
pub open spec fn capital_hex(b: u8) -> Seq<char> {
    seq![capital(b / 16), capital(b % 16)]
}

/// One character of a string inside JSON quotes.
pub open spec fn escaped_char(c: char) -> Seq<char> {
    if c == '"' {
        seq!['\\', '"']
    } else if c == '\\' {
        seq!['\\', '\\']
    } else if c == '\n' {
        seq!['\\', 'n']
    } else if c == '\r' {
        seq!['\\', 'r']
    } else if c == '\t' {
        seq!['\\', 't']
    } else if (c as u32) < 0x20 {
        seq!['\\', 'u'] + hex(c as nat, 4)
    } else {
        seq![c]
    }
}

/// The body of a JSON string.
pub open spec fn escaped(s: Seq<char>) -> Seq<char>
    decreases s.len(),
{
    if s.len() == 0 {
        Seq::empty()
    } else {
        escaped(s.drop_last()) + escaped_char(s.last())
    }
}

/// A JSON string, quotes included.
pub open spec fn json_string(s: Seq<char>) -> Seq<char> {
    seq!['"'] + escaped(s) + seq!['"']
}

/// The value of a hexadecimal digit.
pub open spec fn digit_value(c: char) -> int {
    if '0' <= c <= '9' {
        c as int - '0' as int
    } else if 'a' <= c <= 'f' {
        c as int - 'a' as int + 10
    } else {
        -1
    }
}

/// The value of four hexadecimal digits.
pub open spec fn four_digits(h: Seq<char>) -> int {
    digit_value(h[0]) * 4096 + digit_value(h[1]) * 256 + digit_value(h[2]) * 16 + digit_value(h[3])
}

/// The code point of a character.
pub open spec fn code_point(c: char) -> int {
    c as int
}

/// The character that an escape sequence stands for, and how long the sequence is;
/// `None` where `t` starts with none.
pub open spec fn read_escape(t: Seq<char>) -> Option<(char, int)> {
    if t.len() < 2 || t[0] != '\\' {
        None
    } else if t[1] == '"' || t[1] == '\\' {
        Some((t[1], 2))
    } else if t[1] == 'n' {
        Some(('\n', 2))
    } else if t[1] == 'r' {
        Some(('\r', 2))
    } else if t[1] == 't' {
        Some(('\t', 2))
    } else if t[1] == 'u' && t.len() >= 6 {
        Some((choose|c: char| #[trigger] code_point(c) == four_digits(t.subrange(2, 6)), 6))
    } else {
        None
    }
}

/// Reads the body of a JSON string up to its closing quote: the string, and what comes
/// after the quote. `None` where the body is not well formed.
pub open spec fn read_body(t: Seq<char>) -> Option<(Seq<char>, Seq<char>)>
    decreases t.len(),
{
    if t.len() == 0 || (t[0] as u32) < 0x20 {
        None
    } else if t[0] == '"' {
        Some((Seq::empty(), t.skip(1)))
    } else if t[0] == '\\' {
        match read_escape(t) {
            None => None,
            Some((c, n)) => match read_body(t.skip(if n == 6 { 6 } else { 2 })) {
                None => None,
                Some((s, rest)) => Some((seq![c] + s, rest)),
            },
        }
    } else {
        match read_body(t.skip(1)) {
            None => None,
            Some((s, rest)) => Some((seq![t[0]] + s, rest)),
        }
    }
}

/// Escaping goes character by character.
proof fn lemma_escaped_first(s: Seq<char>)
    requires
        s.len() > 0,
    ensures
        escaped(s) == escaped_char(s[0]) + escaped(s.skip(1)),
    decreases s.len(),
{
    if s.len() == 1 {
        assert(s.drop_last() =~= Seq::<char>::empty());
        assert(s.skip(1) =~= Seq::<char>::empty());
        assert(escaped(s) =~= escaped_char(s[0]) + escaped(s.skip(1)));
    } else {
        lemma_escaped_first(s.drop_last());
        assert(s.drop_last().skip(1) =~= s.skip(1).drop_last());
        assert(escaped(s) =~= escaped_char(s[0]) + escaped(s.skip(1)));
    }
}

/// The four digits of a control character.
proof fn lemma_control_digits(c: char)
    requires
        (c as u32) < 0x20,
    ensures
        hex(c as nat, 4).len() == 4,
        four_digits(hex(c as nat, 4)) == code_point(c),
{
    reveal_with_fuel(hex, 5);
    let n = c as nat;
    assert(n / 16 < 2 && n / 16 / 16 == 0 && n / 16 / 16 / 16 == 0);
}

/// Whatever the text, its JSON string reads back as that text, and nothing of what
/// follows is taken into it.
pub proof fn law_json_string_reads_back(s: Seq<char>, rest: Seq<char>)
    ensures
        json_string(s)[0] == '"',
        read_body((json_string(s) + rest).skip(1)) == Some((s, rest)),
    decreases s.len(),
{
    let t = (json_string(s) + rest).skip(1);
    assert(t =~= escaped(s) + (seq!['"'] + rest));
    if s.len() == 0 {
        assert(t.skip(1) =~= rest);
        assert(s =~= Seq::<char>::empty());
    } else {
        let c = s[0];
        let u = (json_string(s.skip(1)) + rest).skip(1);
        lemma_escaped_first(s);
        law_json_string_reads_back(s.skip(1), rest);
        assert(u =~= escaped(s.skip(1)) + (seq!['"'] + rest));
        assert(t =~= escaped_char(c) + u);
        if (c as u32) < 0x20 && c != '\n' && c != '\r' && c != '\t' {
            lemma_control_digits(c);
            let h = hex(c as nat, 4);
            assert(t[0] == '\\' && t[1] == 'u');
            assert(t.subrange(2, 6) =~= h);
            assert(code_point(c) == four_digits(t.subrange(2, 6)));
            assert(read_escape(t) == Some((c, 6int)));
            assert(t.skip(6) =~= u);
        } else if escaped_char(c).len() == 2 {
            assert(read_escape(t) == Some((c, 2int)));
            assert(t.skip(2) =~= u);
        } else {
            assert(t[0] == c);
            assert(t.skip(1) =~= u);
        }
        assert(seq![c] + s.skip(1) =~= s);
    }
}

fn digit_char(d: u32) -> (c: char)
    requires
        d < 16,
    ensures
        c == digit(d as int),
{
    match d {
        0 => '0',
        1 => '1',
        2 => '2',
        3 => '3',
        4 => '4',
        5 => '5',
        6 => '6',
        7 => '7',
        8 => '8',
        9 => '9',
        10 => 'a',
        11 => 'b',
        12 => 'c',
        13 => 'd',
        14 => 'e',
        _ => 'f',
    }
}

/// Appends `n` in decimal.
pub fn push_decimal(s: &mut String, n: u64)
    ensures
        final(s)@ == old(s)@ + decimal(n as nat),
    decreases n,
{
    if n >= 10 {
        push_decimal(s, n / 10);
    }
    s.push(digit_char((n % 10) as u32));
    proof {
        if n >= 10 {
            assert(s@ =~= old(s)@ + decimal((n / 10) as nat).push(digit((n % 10) as int)));
        } else {
            assert(s@ =~= old(s)@ + seq![digit(n as int)]);
        }
    }
}

/// Appends the low `width` hexadecimal digits of `n`.
pub fn push_hex(s: &mut String, n: u32, width: u32)
    ensures
        final(s)@ == old(s)@ + hex(n as nat, width as nat),
    decreases width,
{
    if width > 0 {
        push_hex(s, n / 16, width - 1);
        s.push(digit_char(n % 16));
        proof {
            assert(s@ =~= old(s)@ + hex((n / 16) as nat, (width - 1) as nat).push(
                digit((n % 16) as int),
            ));
        }
    } else {
        proof {
            assert(s@ =~= old(s)@ + hex(n as nat, 0));
        }
    }
}

/// Appends `n` in hexadecimal, without leading zeros.
pub fn push_short_hex(s: &mut String, n: u64)
    ensures
        final(s)@ == old(s)@ + short_hex(n as nat),
    decreases n,
{
    if n >= 16 {
        push_short_hex(s, n / 16);
    }
    s.push(digit_char((n % 16) as u32));
    proof {
        if n >= 16 {
            assert(s@ =~= old(s)@ + short_hex((n / 16) as nat).push(digit((n % 16) as int)));
        } else {
            assert(s@ =~= old(s)@ + seq![digit(n as int)]);
        }
    }
}

fn capital_char(d: u8) -> (c: char)
    requires
        d < 16,
    ensures
        c == capital(d),
{
    match d {
        10 => 'A',
        11 => 'B',
        12 => 'C',
        13 => 'D',
        14 => 'E',
        15 => 'F',
        _ => digit_char(d as u32),
    }
}

/// Appends a byte as two capital hexadecimal digits.
pub fn push_capital_hex(s: &mut String, b: u8)
    ensures
        final(s)@ == old(s)@ + capital_hex(b),
{
    s.push(capital_char(b / 16));
    s.push(capital_char(b % 16));
    proof {
        assert(s@ =~= old(s)@ + capital_hex(b));
    }
}

/// Appends the JSON string for `text`, quotes included.
pub fn push_json(s: &mut String, text: &str)
    ensures
        final(s)@ == old(s)@ + json_string(text@),
{
    s.push('"');
    let ghost start = s@;
    let n: usize = text.unicode_len();
    let mut i: usize = 0;
    proof {
        assert(text@.take(0) =~= Seq::<char>::empty());
        assert(start + escaped(text@.take(0)) =~= start);
    }
    while i < n
        invariant
            n == text@.len(),
            i <= n,
            s@ == start + escaped(text@.take(i as int)),
        decreases n - i,
    {
        let c: char = text.get_char(i);
        let ghost before = s@;
        proof {
            reveal_strlit("\\\"");
            reveal_strlit("\\\\");
            reveal_strlit("\\n");
            reveal_strlit("\\r");
            reveal_strlit("\\t");
            reveal_strlit("\\u");
        }
        if c == '"' {
            s.push_str("\\\"");
            assert("\\\""@ =~= escaped_char(c));
        } else if c == '\\' {
            s.push_str("\\\\");
            assert("\\\\"@ =~= escaped_char(c));
        } else if c == '\n' {
            s.push_str("\\n");
            assert("\\n"@ =~= escaped_char(c));
        } else if c == '\r' {
            s.push_str("\\r");
            assert("\\r"@ =~= escaped_char(c));
        } else if c == '\t' {
            s.push_str("\\t");
            assert("\\t"@ =~= escaped_char(c));
        } else if (c as u32) < 0x20 {
            s.push_str("\\u");
            push_hex(s, c as u32, 4);
            assert("\\u"@ =~= seq!['\\', 'u']);
            assert(s@ =~= before + escaped_char(c));
        } else {
            s.push(c);
            assert(s@ =~= before + escaped_char(c));
        }
        proof {
            let t = text@.take(i + 1);
            assert(t.drop_last() =~= text@.take(i as int));
            assert(t.last() == c);
            assert(s@ =~= start + escaped(t));
        }
        i += 1;
    }
    s.push('"');
    proof {
        assert(text@.take(n as int) =~= text@);
        assert(s@ =~= old(s)@ + json_string(text@));
    }
}

} // verus!
