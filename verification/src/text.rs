//! Text building: numerals, string literals, and sequences of parts.

use vstd::prelude::*;
use vstd::string::*;

verus! {

/// The digit `d` of a numeral, as a text of one character.
pub open spec fn digit(d: nat) -> Seq<char> {
    "0123456789abcdef"@.subrange(d as int, d as int + 1)
}

/// `n` in decimal, most significant digit first, without leading zeros.
pub open spec fn decimal(n: nat) -> Seq<char>
    decreases n,
{
    if n < 10 {
        digit(n)
    } else {
        decimal(n / 10) + digit(n % 10)
    }
}

/// `n` in hexadecimal, most significant digit first, in lower case, without
/// leading zeros.
pub open spec fn hexadecimal(n: nat) -> Seq<char>
    decreases n,
{
    if n < 16 {
        digit(n)
    } else {
        hexadecimal(n / 16) + digit(n % 16)
    }
}

/// Writes `n` in decimal.
pub fn decimal_string(n: usize) -> (r: String)
    ensures
        r@ == decimal(n as nat),
    decreases n,
{
    proof {
        reveal_strlit("0123456789abcdef");
    }
    if n < 10 {
        let d = "0123456789abcdef".substring_char(n, n + 1);
        d.to_string()
    } else {
        let d = "0123456789abcdef".substring_char(n % 10, n % 10 + 1);
        let mut r = decimal_string(n / 10);
        r.append(d);
        r
    }
}

/// Writes `n` in hexadecimal.
pub fn hexadecimal_string(n: u32) -> (r: String)
    ensures
        r@ == hexadecimal(n as nat),
    decreases n,
{
    proof {
        reveal_strlit("0123456789abcdef");
    }
    if n < 16 {
        let d = "0123456789abcdef".substring_char(n as usize, n as usize + 1);
        d.to_string()
    } else {
        let low = (n % 16) as usize;
        let d = "0123456789abcdef".substring_char(low, low + 1);
        let mut r = hexadecimal_string(n / 16);
        r.append(d);
        r
    }
}

/// Whether `c` stands for itself inside a string literal: the printable
/// characters of ASCII but `"` and `\`.
pub open spec fn is_plain(c: char) -> bool {
    0x20 <= c as u32 <= 0x7e && c as u32 != 0x22 && c as u32 != 0x5c
}

/// How `c` is written inside a string literal: as itself where it is plain,
/// else as the escape `\u{..}` with its code in hexadecimal.
pub open spec fn escape(c: char) -> Seq<char> {
    if is_plain(c) {
        seq![c]
    } else {
        "\\u{"@ + hexadecimal(c as nat) + "}"@
    }
}

/// The characters of `s`, each escaped.
pub open spec fn escaped(s: Seq<char>) -> Seq<char>
    decreases s.len(),
{
    if s.len() == 0 {
        Seq::empty()
    } else {
        escaped(s.drop_last()) + escape(s.last())
    }
}

/// The string literal that denotes `s`: its escaped characters between
/// double quotes.
pub open spec fn literal(s: Seq<char>) -> Seq<char> {
    "\""@ + escaped(s) + "\""@
}

/// Writes the string literal that denotes `s`.
pub fn string_literal(s: &str) -> (r: String)
    ensures
        r@ == literal(s@),
{
    let n = s.unicode_len();
    let mut body = String::new();
    let mut i: usize = 0;
    while i < n
        invariant
            n == s@.len(),
            i <= n,
            body@ == escaped(s@.take(i as int)),
        decreases n - i,
    {
        let c = s.get_char(i);
        let code = c as u32;
        proof {
            let next = s@.take(i + 1);
            assert(next.drop_last() =~= s@.take(i as int));
            assert(next.last() == c);
        }
        if 0x20 <= code && code <= 0x7e && code != 0x22 && code != 0x5c {
            let same = s.substring_char(i, i + 1);
            assert(same@ =~= seq![c]);
            body.append(same);
        } else {
            let hex = hexadecimal_string(code);
            let mut esc = "\\u{".to_string();
            esc.append(hex.as_str());
            esc.append("}");
            body.append(esc.as_str());
        }
        i = i + 1;
    }
    assert(s@.take(n as int) =~= s@);
    let mut r = "\"".to_string();
    r.append(body.as_str());
    r.append("\"");
    r
}

/// `part(0) + part(1) + .. + part(n - 1)`.
pub open spec fn concat_of(n: nat, part: spec_fn(int) -> Seq<char>) -> Seq<char>
    decreases n,
{
    if n == 0 {
        Seq::empty()
    } else {
        concat_of((n - 1) as nat, part) + part(n - 1)
    }
}

/// `part(0)`, `part(1)`, .. `part(n - 1)` with `sep` between neighbours.
pub open spec fn joined(n: nat, part: spec_fn(int) -> Seq<char>, sep: Seq<char>) -> Seq<char>
    decreases n,
{
    if n == 0 {
        Seq::empty()
    } else if n == 1 {
        part(0)
    } else {
        joined((n - 1) as nat, part, sep) + sep + part(n - 1)
    }
}

} // verus!
