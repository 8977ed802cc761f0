//! A small JSON text layer for the relay wire protocol.
//!
//! Frames on the wire are JSON objects whose interesting fields are strings
//! (or, for subscriptions, a list of strings).  The functions here parse and
//! print exactly that language: objects, arrays, strings with every escape
//! form of the standard, numbers and the three keyword literals, with
//! whitespace allowed between tokens.  Every executable function is proved
//! to agree with the specification functions, which define the grammar.

use vstd::prelude::*;
use vstd::string::StrSliceExecFns;

verus! {

/// JSON insignificant whitespace.
pub open spec fn is_ws(c: char) -> bool {
    c == ' ' || c == '\t' || c == '\n' || c == '\r'
}

/// First index at or after `i` that does not hold whitespace.
pub open spec fn sp_skip_ws(s: Seq<char>, i: int) -> int
    decreases s.len() - i,
{
    if 0 <= i < s.len() && is_ws(s[i]) {
        sp_skip_ws(s, i + 1)
    } else {
        i
    }
}

/// Characters that stand after a backslash in a string, and what they mean.
pub open spec fn sp_unescape_char(c: char) -> Option<char> {
    if c == '"' {
        Some('"')
    } else if c == '\\' {
        Some('\\')
    } else if c == '/' {
        Some('/')
    } else if c == 'n' {
        Some('\n')
    } else if c == 't' {
        Some('\t')
    } else if c == 'r' {
        Some('\r')
    } else if c == 'b' {
        Some('\u{0008}')
    } else if c == 'f' {
        Some('\u{000C}')
    } else {
        None
    }
}

/// A control character, which JSON forbids raw inside a string.
pub open spec fn is_ctrl(c: char) -> bool {
    (c as u32) < 0x20
}

/// Characters with a one-letter escape of their own.
pub open spec fn has_short_escape(c: char) -> bool {
    c == '"' || c == '\\' || c == '\n' || c == '\t' || c == '\r' || c == '\u{0008}' || c
        == '\u{000C}'
}

/// The character that stands for `c` after a backslash.
pub open spec fn sp_escape_code(c: char) -> char {
    if c == '"' {
        '"'
    } else if c == '\\' {
        '\\'
    } else if c == '\n' {
        'n'
    } else if c == '\t' {
        't'
    } else if c == '\r' {
        'r'
    } else if c == '\u{0008}' {
        'b'
    } else {
        'f'
    }
}

/// The lower-case digit printed for a value below sixteen.
pub open spec fn sp_hex_digit(n: int) -> char {
    if n == 0 {
        '0'
    } else if n == 1 {
        '1'
    } else if n == 2 {
        '2'
    } else if n == 3 {
        '3'
    } else if n == 4 {
        '4'
    } else if n == 5 {
        '5'
    } else if n == 6 {
        '6'
    } else if n == 7 {
        '7'
    } else if n == 8 {
        '8'
    } else if n == 9 {
        '9'
    } else if n == 10 {
        'a'
    } else if n == 11 {
        'b'
    } else if n == 12 {
        'c'
    } else if n == 13 {
        'd'
    } else if n == 14 {
        'e'
    } else {
        'f'
    }
}

/// The value of a hexadecimal digit, either case.
pub open spec fn sp_hex_val(c: char) -> Option<int> {
    if c == '0' {
        Some(0)
    } else if c == '1' {
        Some(1)
    } else if c == '2' {
        Some(2)
    } else if c == '3' {
        Some(3)
    } else if c == '4' {
        Some(4)
    } else if c == '5' {
        Some(5)
    } else if c == '6' {
        Some(6)
    } else if c == '7' {
        Some(7)
    } else if c == '8' {
        Some(8)
    } else if c == '9' {
        Some(9)
    } else if c == 'a' || c == 'A' {
        Some(10)
    } else if c == 'b' || c == 'B' {
        Some(11)
    } else if c == 'c' || c == 'C' {
        Some(12)
    } else if c == 'd' || c == 'D' {
        Some(13)
    } else if c == 'e' || c == 'E' {
        Some(14)
    } else if c == 'f' || c == 'F' {
        Some(15)
    } else {
        None
    }
}

/// How one character is printed inside a string: short escapes for the
/// common characters, `\u00..` for the other control characters, the
/// character itself for everything else.
pub open spec fn sp_escape_char(c: char) -> Seq<char> {
    if has_short_escape(c) {
        seq!['\\', sp_escape_code(c)]
    } else if is_ctrl(c) {
        seq![
            '\\',
            'u',
            '0',
            '0',
            sp_hex_digit((c as u32) as int / 16),
            sp_hex_digit((c as u32) as int % 16),
        ]
    } else {
        seq![c]
    }
}

/// The value of the four hexadecimal digits standing at `i`.
pub open spec fn sp_hex4(s: Seq<char>, i: int) -> Option<int> {
    if 0 <= i && i + 4 <= s.len() {
        match (sp_hex_val(s[i]), sp_hex_val(s[i + 1]), sp_hex_val(s[i + 2]), sp_hex_val(s[i + 3])) {
            (Some(a), Some(b), Some(c), Some(d)) => Some(a * 0x1000 + b * 0x100 + c * 0x10 + d),
            _ => None,
        }
    } else {
        None
    }
}

/// Decodes the `\u` escape whose backslash stands at `i`: four hexadecimal
/// digits, or a surrogate pair as two such escapes.  Yields the character
/// and the index after the escape.
pub open spec fn sp_u_escape(s: Seq<char>, i: int) -> Option<(char, int)> {
    match sp_hex4(s, i + 2) {
        None => None,
        Some(h) => {
            if 0xD800 <= h < 0xDC00 {
                if i + 8 <= s.len() && s[i + 6] == '\\' && s[i + 7] == 'u' {
                    match sp_hex4(s, i + 8) {
                        None => None,
                        Some(l) => if 0xDC00 <= l < 0xE000 {
                            Some(
                                (
                                    ((0x10000 + (h - 0xD800) * 0x400 + (l - 0xDC00)) as u32) as char,
                                    i + 12,
                                ),
                            )
                        } else {
                            None
                        },
                    }
                } else {
                    None
                }
            } else if 0xDC00 <= h < 0xE000 {
                None
            } else {
                Some(((h as u32) as char, i + 6))
            }
        },
    }
}

/// How a whole string body is printed, escapes applied.
pub open spec fn sp_escape(s: Seq<char>) -> Seq<char>
    decreases s.len(),
{
    if s.len() == 0 {
        Seq::<char>::empty()
    } else {
        sp_escape_char(s[0]) + sp_escape(s.subrange(1, s.len() as int))
    }
}

/// A string as it stands on the wire: quoted and escaped.
pub open spec fn sp_quote(s: Seq<char>) -> Seq<char> {
    seq!['"'] + sp_escape(s) + seq!['"']
}

/// Parses a string body from `i` up to a closing quote; `acc` holds what was
/// already read.  Yields the decoded content and the index after the quote.
pub open spec fn sp_parse_str_body(s: Seq<char>, i: int, acc: Seq<char>) -> Option<(Seq<char>, int)>
    decreases s.len() - i,
{
    if i < 0 || i >= s.len() {
        None
    } else if s[i] == '"' {
        Some((acc, i + 1))
    } else if s[i] == '\\' {
        if i + 1 < s.len() {
            if s[i + 1] == 'u' {
                match sp_u_escape(s, i) {
                    Some((c, next)) => if i < next <= s.len() {
                        sp_parse_str_body(s, next, acc.push(c))
                    } else {
                        None
                    },
                    None => None,
                }
            } else {
                match sp_unescape_char(s[i + 1]) {
                    Some(c) => sp_parse_str_body(s, i + 2, acc.push(c)),
                    None => None,
                }
            }
        } else {
            None
        }
    } else if is_ctrl(s[i]) {
        None
    } else {
        sp_parse_str_body(s, i + 1, acc.push(s[i]))
    }
}

/// Parses a quoted string whose opening quote stands at `i`.
pub open spec fn sp_parse_string(s: Seq<char>, i: int) -> Option<(Seq<char>, int)> {
    if 0 <= i < s.len() && s[i] == '"' {
        sp_parse_str_body(s, i + 1, Seq::<char>::empty())
    } else {
        None
    }
}

/// The characters of a string, one by one.
pub fn str_to_chars(s: &str) -> (r: Vec<char>)
    ensures
        r@ == s@,
{
    let n = s.unicode_len();
    let mut r: Vec<char> = Vec::new();
    let mut i: usize = 0;
    while i < n
        invariant
            n == s@.len(),
            i <= n,
            r@ == s@.subrange(0, i as int),
        decreases n - i,
    {
        r.push(s.get_char(i));
        i = i + 1;
        proof {
            assert(r@ =~= s@.subrange(0, i as int));
        }
    }
    proof {
        assert(r@ =~= s@);
    }
    r
}

/// Relies on `String`'s `FromIterator<char>` impl of std: collecting the
/// characters of `v`, in order, into an owned string.
#[verifier::external_body]
pub fn chars_to_string(v: &Vec<char>) -> (r: String)
    ensures
        r@ == v@,
{
    v.iter().collect()
}

/// Skips whitespace starting at `i`.
pub fn skip_ws(v: &Vec<char>, i: usize) -> (r: usize)
    requires
        i <= v@.len(),
    ensures
        r == sp_skip_ws(v@, i as int),
        i <= r <= v@.len(),
        r < v@.len() ==> !is_ws(v@[r as int]),
{
    let mut j: usize = i;
    while j < v.len() && is_ws_exec(v[j])
        invariant
            i <= j <= v@.len(),
            sp_skip_ws(v@, i as int) == sp_skip_ws(v@, j as int),
        decreases v@.len() - j,
    {
        j = j + 1;
    }
    j
}

/// Whether `c` is JSON whitespace.
pub fn is_ws_exec(c: char) -> (r: bool)
    ensures
        r == is_ws(c),
{
    c == ' ' || c == '\t' || c == '\n' || c == '\r'
}

/// The meaning of an escape code, if it has one.
pub fn unescape_char(c: char) -> (r: Option<char>)
    ensures
        r == sp_unescape_char(c),
{
    if c == '"' {
        Some('"')
    } else if c == '\\' {
        Some('\\')
    } else if c == '/' {
        Some('/')
    } else if c == 'n' {
        Some('\n')
    } else if c == 't' {
        Some('\t')
    } else if c == 'r' {
        Some('\r')
    } else if c == 'b' {
        Some('\u{0008}')
    } else if c == 'f' {
        Some('\u{000C}')
    } else {
        None
    }
}

/// The value of a hexadecimal digit, either case.
pub fn hex_val_exec(c: char) -> (r: Option<u32>)
    ensures
        match r {
            Some(x) => sp_hex_val(c) == Some(x as int) && x < 16,
            None => sp_hex_val(c) is None,
        },
{
    if '0' <= c && c <= '9' {
        Some((c as u32) - ('0' as u32))
    } else if 'a' <= c && c <= 'f' {
        Some((c as u32) - ('a' as u32) + 10)
    } else if 'A' <= c && c <= 'F' {
        Some((c as u32) - ('A' as u32) + 10)
    } else {
        None
    }
}

/// The value of the four hexadecimal digits standing at `i`.
pub fn hex4(v: &Vec<char>, i: usize) -> (r: Option<u32>)
    requires
        i <= v@.len(),
    ensures
        match r {
            Some(h) => sp_hex4(v@, i as int) == Some(h as int) && h < 0x10000 && i + 4 <= v@.len(),
            None => sp_hex4(v@, i as int) is None,
        },
{
    if v.len() - i < 4 {
        return None;
    }
    match (hex_val_exec(v[i]), hex_val_exec(v[i + 1]), hex_val_exec(v[i + 2]), hex_val_exec(
        v[i + 3],
    )) {
        (Some(a), Some(b), Some(c), Some(d)) => Some(a * 0x1000 + b * 0x100 + c * 0x10 + d),
        _ => None,
    }
}

/// Relies on `char::from_u32` of std: for a Unicode scalar value it returns
/// the character with exactly that value.
#[verifier::external_body]
fn char_from_code(u: u32) -> (r: char)
    requires
        u < 0xD800 || (0xE000 <= u && u <= 0x10FFFF),
    ensures
        r as u32 == u,
{
    char::from_u32(u).unwrap()
}

/// Decodes the `\u` escape whose backslash stands at `i`.
pub fn u_escape(v: &Vec<char>, i: usize) -> (r: Option<(char, usize)>)
    requires
        i < v@.len(),
    ensures
        match r {
            Some((c, next)) => sp_u_escape(v@, i as int) == Some((c, next as int)) && i < next
                <= v@.len(),
            None => sp_u_escape(v@, i as int) is None,
        },
{
    if v.len() - i < 6 {
        return None;
    }
    let h = match hex4(v, i + 2) {
        Some(h) => h,
        None => {
            return None;
        },
    };
    if 0xD800 <= h && h < 0xDC00 {
        if v.len() - i >= 8 && v[i + 6] == '\\' && v[i + 7] == 'u' {
            let l = match hex4(v, i + 8) {
                Some(l) => l,
                None => {
                    return None;
                },
            };
            if 0xDC00 <= l && l < 0xE000 {
                let code = 0x10000 + (h - 0xD800) * 0x400 + (l - 0xDC00);
                let c = char_from_code(code);
                proof {
                    vstd::utf8::char_u32_cast(c, code);
                }
                Some((c, i + 12))
            } else {
                None
            }
        } else {
            None
        }
    } else if 0xDC00 <= h && h < 0xE000 {
        None
    } else {
        let c = char_from_code(h);
        proof {
            vstd::utf8::char_u32_cast(c, h);
        }
        Some((c, i + 6))
    }
}

/// Parses the quoted string at `i`, yielding its content and the index after
/// the closing quote.
pub fn parse_string(v: &Vec<char>, i: usize) -> (r: Option<(Vec<char>, usize)>)
    requires
        i <= v@.len(),
    ensures
        match r {
            Some((cs, e)) => sp_parse_string(v@, i as int) == Some((cs@, e as int)) && i < e
                <= v@.len(),
            None => sp_parse_string(v@, i as int) is None,
        },
{
    if !(i < v.len() && v[i] == '"') {
        return None;
    }
    let mut j: usize = i + 1;
    let mut acc: Vec<char> = Vec::new();
    loop
        invariant
            i + 1 <= j <= v@.len(),
            sp_parse_string(v@, i as int) == sp_parse_str_body(v@, j as int, acc@),
        decreases v@.len() - j,
    {
        if j >= v.len() {
            return None;
        }
        let c = v[j];
        if c == '"' {
            return Some((acc, j + 1));
        } else if c == '\\' {
            if j + 1 >= v.len() {
                return None;
            }
            if v[j + 1] == 'u' {
                match u_escape(v, j) {
                    Some((d, next)) => {
                        acc.push(d);
                        j = next;
                    },
                    None => {
                        return None;
                    },
                }
            } else {
                match unescape_char(v[j + 1]) {
                    Some(d) => {
                        acc.push(d);
                        j = j + 2;
                    },
                    None => {
                        return None;
                    },
                }
            }
        } else if (c as u32) < 0x20 {
            return None;
        } else {
            acc.push(c);
            j = j + 1;
        }
    }
}

} // verus!

verus! {

/// A decimal digit.
pub open spec fn is_digit(c: char) -> bool {
    '0' <= c && c <= '9'
}

/// First index at or after `i` that does not hold a digit.
pub open spec fn sp_skip_digits(s: Seq<char>, i: int) -> int
    decreases s.len() - i,
{
    if 0 <= i < s.len() && is_digit(s[i]) {
        sp_skip_digits(s, i + 1)
    } else {
        i
    }
}

/// The integer part of a number: `0`, or a nonzero digit and more digits.
pub open spec fn sp_skip_int_part(s: Seq<char>, i: int) -> Option<int> {
    if 0 <= i < s.len() && s[i] == '0' {
        Some(i + 1)
    } else if 0 <= i < s.len() && '1' <= s[i] && s[i] <= '9' {
        Some(sp_skip_digits(s, i + 1))
    } else {
        None
    }
}

/// The optional fraction part: a point and at least one digit.
pub open spec fn sp_skip_frac(s: Seq<char>, i: int) -> Option<int> {
    if 0 <= i < s.len() && s[i] == '.' {
        if sp_skip_digits(s, i + 1) > i + 1 {
            Some(sp_skip_digits(s, i + 1))
        } else {
            None
        }
    } else {
        Some(i)
    }
}

/// The optional exponent part: `e` or `E`, an optional sign, digits.
pub open spec fn sp_skip_exp(s: Seq<char>, i: int) -> Option<int> {
    if 0 <= i < s.len() && (s[i] == 'e' || s[i] == 'E') {
        let j = if i + 1 < s.len() && (s[i + 1] == '+' || s[i + 1] == '-') {
            i + 2
        } else {
            i + 1
        };
        if sp_skip_digits(s, j) > j {
            Some(sp_skip_digits(s, j))
        } else {
            None
        }
    } else {
        Some(i)
    }
}

/// Skips one JSON number whose first character stands at `i`.
pub open spec fn sp_skip_number(s: Seq<char>, i: int) -> Option<int> {
    let start = if 0 <= i < s.len() && s[i] == '-' {
        i + 1
    } else {
        i
    };
    match sp_skip_int_part(s, start) {
        None => None,
        Some(a) => match sp_skip_frac(s, a) {
            None => None,
            Some(b) => sp_skip_exp(s, b),
        },
    }
}

/// Skips the keyword `w` if it stands at `i`.
pub open spec fn sp_skip_keyword(s: Seq<char>, i: int, w: Seq<char>) -> Option<int> {
    if 0 <= i && i + w.len() <= s.len() && s.subrange(i, i + w.len() as int) == w {
        Some(i + w.len() as int)
    } else {
        None
    }
}

/// Skips one JSON value whose first token starts at or after `i` (leading
/// whitespace allowed); yields the index just past the value.
pub open spec fn sp_skip_value(s: Seq<char>, i: int) -> Option<int>
    decreases s.len() - i, 0int,
{
    if i < 0 || i >= s.len() {
        None
    } else if is_ws(s[i]) {
        sp_skip_value(s, i + 1)
    } else if s[i] == '"' {
        match sp_parse_string(s, i) {
            Some((_, e)) => Some(e),
            None => None,
        }
    } else if s[i] == '{' {
        sp_skip_members(s, i + 1, true)
    } else if s[i] == '[' {
        sp_skip_elems(s, i + 1, true)
    } else if s[i] == 't' {
        sp_skip_keyword(s, i, "true"@)
    } else if s[i] == 'f' {
        sp_skip_keyword(s, i, "false"@)
    } else if s[i] == 'n' {
        sp_skip_keyword(s, i, "null"@)
    } else if s[i] == '-' || is_digit(s[i]) {
        sp_skip_number(s, i)
    } else {
        None
    }
}

/// Skips the members of an object from `i` (just after `{` or a comma) up to
/// and past the closing `}`.  `first` says whether `}` may come directly.
pub open spec fn sp_skip_members(s: Seq<char>, i: int, first: bool) -> Option<int>
    decreases s.len() - i, 1int,
{
    if i < 0 || i >= s.len() {
        None
    } else if is_ws(s[i]) {
        sp_skip_members(s, i + 1, first)
    } else if first && s[i] == '}' {
        Some(i + 1)
    } else {
        match sp_parse_string(s, i) {
            None => None,
            Some((k, e)) => {
                let c = sp_skip_ws(s, e);
                if c < s.len() && s[c] == ':' && i < c + 1 {
                    match sp_skip_value(s, c + 1) {
                        None => None,
                        Some(endv) => {
                            let d = sp_skip_ws(s, endv);
                            if d < s.len() && s[d] == ',' && i < d + 1 {
                                sp_skip_members(s, d + 1, false)
                            } else if d < s.len() && s[d] == '}' {
                                Some(d + 1)
                            } else {
                                None
                            }
                        },
                    }
                } else {
                    None
                }
            },
        }
    }
}

/// Skips the elements of an array from `i` (just after `[` or a comma) up to
/// and past the closing `]`.
pub open spec fn sp_skip_elems(s: Seq<char>, i: int, first: bool) -> Option<int>
    decreases s.len() - i, 2int,
{
    if i < 0 || i >= s.len() {
        None
    } else if is_ws(s[i]) {
        sp_skip_elems(s, i + 1, first)
    } else if first && s[i] == ']' {
        Some(i + 1)
    } else {
        match sp_skip_value(s, i) {
            None => None,
            Some(e) => {
                let d = sp_skip_ws(s, e);
                if d < s.len() && s[d] == ',' && i < d + 1 {
                    sp_skip_elems(s, d + 1, false)
                } else if d < s.len() && s[d] == ']' {
                    Some(d + 1)
                } else {
                    None
                }
            },
        }
    }
}

/// Looks for the member named `key` from `i` (just after `{` or a comma);
/// yields the index where its value starts, whitespace skipped.
pub open spec fn sp_find_field(s: Seq<char>, i: int, key: Seq<char>) -> Option<int>
    decreases s.len() - i,
{
    if i < 0 || i >= s.len() {
        None
    } else if is_ws(s[i]) {
        sp_find_field(s, i + 1, key)
    } else {
        match sp_parse_string(s, i) {
            None => None,
            Some((k, e)) => {
                let c = sp_skip_ws(s, e);
                if c < s.len() && s[c] == ':' && i < c + 1 {
                    if k == key {
                        Some(sp_skip_ws(s, c + 1))
                    } else {
                        match sp_skip_value(s, c + 1) {
                            None => None,
                            Some(endv) => {
                                let d = sp_skip_ws(s, endv);
                                if d < s.len() && s[d] == ',' && i < d + 1 {
                                    sp_find_field(s, d + 1, key)
                                } else {
                                    None
                                }
                            },
                        }
                    }
                } else {
                    None
                }
            },
        }
    }
}

/// Collects the string elements of an array from `i` (just after `[` or a
/// comma); fails if an element is not a string.
pub open spec fn sp_parse_list_items(
    s: Seq<char>,
    i: int,
    first: bool,
    acc: Seq<Seq<char>>,
) -> Option<(Seq<Seq<char>>, int)>
    decreases s.len() - i,
{
    if i < 0 || i >= s.len() {
        None
    } else if is_ws(s[i]) {
        sp_parse_list_items(s, i + 1, first, acc)
    } else if first && s[i] == ']' {
        Some((acc, i + 1))
    } else {
        match sp_parse_string(s, i) {
            None => None,
            Some((x, e)) => {
                let d = sp_skip_ws(s, e);
                if d < s.len() && s[d] == ',' && i < d + 1 {
                    sp_parse_list_items(s, d + 1, false, acc.push(x))
                } else if d < s.len() && s[d] == ']' {
                    Some((acc.push(x), d + 1))
                } else {
                    None
                }
            },
        }
    }
}

/// Parses the array of strings whose `[` stands at `i`.
pub open spec fn sp_parse_string_list(s: Seq<char>, i: int) -> Option<(Seq<Seq<char>>, int)> {
    if 0 <= i < s.len() && s[i] == '[' {
        sp_parse_list_items(s, i + 1, true, Seq::<Seq<char>>::empty())
    } else {
        None
    }
}

pub proof fn lemma_skip_value_ws(s: Seq<char>, i: int)
    requires
        0 <= i,
    ensures
        sp_skip_value(s, i) == sp_skip_value(s, sp_skip_ws(s, i)),
    decreases s.len() - i,
{
    if i < s.len() && is_ws(s[i]) {
        lemma_skip_value_ws(s, i + 1);
    }
}

pub proof fn lemma_skip_members_ws(s: Seq<char>, i: int, first: bool)
    requires
        0 <= i,
    ensures
        sp_skip_members(s, i, first) == sp_skip_members(s, sp_skip_ws(s, i), first),
    decreases s.len() - i,
{
    if i < s.len() && is_ws(s[i]) {
        lemma_skip_members_ws(s, i + 1, first);
    }
}

pub proof fn lemma_skip_elems_ws(s: Seq<char>, i: int, first: bool)
    requires
        0 <= i,
    ensures
        sp_skip_elems(s, i, first) == sp_skip_elems(s, sp_skip_ws(s, i), first),
    decreases s.len() - i,
{
    if i < s.len() && is_ws(s[i]) {
        lemma_skip_elems_ws(s, i + 1, first);
    }
}

pub proof fn lemma_find_field_ws(s: Seq<char>, i: int, key: Seq<char>)
    requires
        0 <= i,
    ensures
        sp_find_field(s, i, key) == sp_find_field(s, sp_skip_ws(s, i), key),
    decreases s.len() - i,
{
    if i < s.len() && is_ws(s[i]) {
        lemma_find_field_ws(s, i + 1, key);
    }
}

pub proof fn lemma_parse_list_items_ws(s: Seq<char>, i: int, first: bool, acc: Seq<Seq<char>>)
    requires
        0 <= i,
    ensures
        sp_parse_list_items(s, i, first, acc) == sp_parse_list_items(s, sp_skip_ws(s, i), first, acc),
    decreases s.len() - i,
{
    if i < s.len() && is_ws(s[i]) {
        lemma_parse_list_items_ws(s, i + 1, first, acc);
    }
}

/// Whether `c` is a decimal digit.
pub fn is_digit_exec(c: char) -> (r: bool)
    ensures
        r == is_digit(c),
{
    '0' <= c && c <= '9'
}

/// Skips digits starting at `i`.
pub fn skip_digits(v: &Vec<char>, i: usize) -> (r: usize)
    requires
        i <= v@.len(),
    ensures
        r == sp_skip_digits(v@, i as int),
        i <= r <= v@.len(),
{
    let mut j: usize = i;
    while j < v.len() && is_digit_exec(v[j])
        invariant
            i <= j <= v@.len(),
            sp_skip_digits(v@, i as int) == sp_skip_digits(v@, j as int),
        decreases v@.len() - j,
    {
        j = j + 1;
    }
    j
}

/// Skips one JSON number whose first character stands at `i`.
pub fn skip_number(v: &Vec<char>, i: usize) -> (r: Option<usize>)
    requires
        i <= v@.len(),
    ensures
        match r {
            Some(j) => sp_skip_number(v@, i as int) == Some(j as int) && i <= j <= v@.len(),
            None => sp_skip_number(v@, i as int) is None,
        },
{
    let start = if i < v.len() && v[i] == '-' {
        i + 1
    } else {
        i
    };
    let a = if start < v.len() && v[start] == '0' {
        start + 1
    } else if start < v.len() && '1' <= v[start] && v[start] <= '9' {
        skip_digits(v, start + 1)
    } else {
        return None;
    };
    let b = if a < v.len() && v[a] == '.' {
        let d = skip_digits(v, a + 1);
        if d > a + 1 {
            d
        } else {
            return None;
        }
    } else {
        a
    };
    if b < v.len() && (v[b] == 'e' || v[b] == 'E') {
        let j = if b + 1 < v.len() && (v[b + 1] == '+' || v[b + 1] == '-') {
            b + 2
        } else {
            b + 1
        };
        let d = skip_digits(v, j);
        if d > j {
            Some(d)
        } else {
            None
        }
    } else {
        Some(b)
    }
}

/// Skips the keyword `w` if it stands at `i`.
pub fn skip_keyword(v: &Vec<char>, i: usize, w: &Vec<char>) -> (r: Option<usize>)
    requires
        i <= v@.len(),
    ensures
        match r {
            Some(j) => sp_skip_keyword(v@, i as int, w@) == Some(j as int) && i <= j <= v@.len(),
            None => sp_skip_keyword(v@, i as int, w@) is None,
        },
{
    if v.len() - i < w.len() {
        return None;
    }
    let mut k: usize = 0;
    while k < w.len()
        invariant
            i + w@.len() <= v@.len(),
            v@.len() <= usize::MAX,
            k <= w@.len(),
            forall|t: int| 0 <= t < k ==> v@[i + t] == w@[t],
        decreases w@.len() - k,
    {
        if v[i + k] != w[k] {
            proof {
                assert(v@.subrange(i as int, i + w@.len() as int)[k as int] != w@[k as int]);
            }
            return None;
        }
        k = k + 1;
    }
    proof {
        assert(v@.subrange(i as int, i + w@.len() as int) =~= w@);
    }
    Some(i + w.len())
}

/// Skips one JSON value starting at or after `i`.
pub fn skip_value(v: &Vec<char>, i: usize) -> (r: Option<usize>)
    requires
        i <= v@.len(),
    ensures
        match r {
            Some(j) => sp_skip_value(v@, i as int) == Some(j as int) && i <= j <= v@.len(),
            None => sp_skip_value(v@, i as int) is None,
        },
    decreases v@.len() - i, 0int,
{
    let j = skip_ws(v, i);
    proof {
        lemma_skip_value_ws(v@, i as int);
    }
    if j >= v.len() {
        return None;
    }
    let c = v[j];
    if c == '"' {
        match parse_string(v, j) {
            Some((_, e)) => Some(e),
            None => None,
        }
    } else if c == '{' {
        skip_members(v, j + 1, true)
    } else if c == '[' {
        skip_elems(v, j + 1, true)
    } else if c == 't' {
        let w = str_to_chars("true");
        skip_keyword(v, j, &w)
    } else if c == 'f' {
        let w = str_to_chars("false");
        skip_keyword(v, j, &w)
    } else if c == 'n' {
        let w = str_to_chars("null");
        skip_keyword(v, j, &w)
    } else if c == '-' || is_digit_exec(c) {
        skip_number(v, j)
    } else {
        None
    }
}

/// Skips the members of an object from `i` up to and past the closing `}`.
pub fn skip_members(v: &Vec<char>, i: usize, first: bool) -> (r: Option<usize>)
    requires
        i <= v@.len(),
    ensures
        match r {
            Some(j) => sp_skip_members(v@, i as int, first) == Some(j as int) && i <= j <= v@.len(),
            None => sp_skip_members(v@, i as int, first) is None,
        },
    decreases v@.len() - i, 1int,
{
    let j = skip_ws(v, i);
    proof {
        lemma_skip_members_ws(v@, i as int, first);
    }
    if j >= v.len() {
        return None;
    }
    if first && v[j] == '}' {
        return Some(j + 1);
    }
    match parse_string(v, j) {
        None => None,
        Some((_, e)) => {
            let c = skip_ws(v, e);
            if c < v.len() && v[c] == ':' {
                match skip_value(v, c + 1) {
                    None => None,
                    Some(endv) => {
                        let d = skip_ws(v, endv);
                        if d < v.len() && v[d] == ',' {
                            skip_members(v, d + 1, false)
                        } else if d < v.len() && v[d] == '}' {
                            Some(d + 1)
                        } else {
                            None
                        }
                    },
                }
            } else {
                None
            }
        },
    }
}

/// Skips the elements of an array from `i` up to and past the closing `]`.
pub fn skip_elems(v: &Vec<char>, i: usize, first: bool) -> (r: Option<usize>)
    requires
        i <= v@.len(),
    ensures
        match r {
            Some(j) => sp_skip_elems(v@, i as int, first) == Some(j as int) && i <= j <= v@.len(),
            None => sp_skip_elems(v@, i as int, first) is None,
        },
    decreases v@.len() - i, 2int,
{
    let j = skip_ws(v, i);
    proof {
        lemma_skip_elems_ws(v@, i as int, first);
    }
    if j >= v.len() {
        return None;
    }
    if first && v[j] == ']' {
        return Some(j + 1);
    }
    match skip_value(v, j) {
        None => None,
        Some(e) => {
            let d = skip_ws(v, e);
            if d < v.len() && v[d] == ',' {
                skip_elems(v, d + 1, false)
            } else if d < v.len() && v[d] == ']' {
                Some(d + 1)
            } else {
                None
            }
        },
    }
}

/// Whether two character sequences are equal.
pub fn chars_eq(a: &Vec<char>, b: &Vec<char>) -> (r: bool)
    ensures
        r == (a@ == b@),
{
    if a.len() != b.len() {
        proof {
            assert(a@.len() != b@.len());
        }
        return false;
    }
    let mut i: usize = 0;
    while i < a.len()
        invariant
            a@.len() == b@.len(),
            i <= a@.len(),
            forall|t: int| 0 <= t < i ==> a@[t] == b@[t],
        decreases a@.len() - i,
    {
        if a[i] != b[i] {
            return false;
        }
        i = i + 1;
    }
    proof {
        assert(a@ =~= b@);
    }
    true
}

/// Looks for the member named `key` from `i`; yields where its value starts.
pub fn find_field(v: &Vec<char>, i: usize, key: &Vec<char>) -> (r: Option<usize>)
    requires
        i <= v@.len(),
    ensures
        match r {
            Some(p) => sp_find_field(v@, i as int, key@) == Some(p as int) && p <= v@.len(),
            None => sp_find_field(v@, i as int, key@) is None,
        },
    decreases v@.len() - i,
{
    let j = skip_ws(v, i);
    proof {
        lemma_find_field_ws(v@, i as int, key@);
    }
    if j >= v.len() {
        return None;
    }
    match parse_string(v, j) {
        None => None,
        Some((k, e)) => {
            let c = skip_ws(v, e);
            if c < v.len() && v[c] == ':' {
                if chars_eq(&k, key) {
                    Some(skip_ws(v, c + 1))
                } else {
                    match skip_value(v, c + 1) {
                        None => None,
                        Some(endv) => {
                            let d = skip_ws(v, endv);
                            if d < v.len() && v[d] == ',' {
                                find_field(v, d + 1, key)
                            } else {
                                None
                            }
                        },
                    }
                }
            } else {
                None
            }
        },
    }
}

/// Collects the string elements of the array whose `[` stands at `i`.
pub fn parse_string_list(v: &Vec<char>, i: usize) -> (r: Option<(Vec<String>, usize)>)
    requires
        i <= v@.len(),
    ensures
        match r {
            Some((xs, e)) => {
                &&& sp_parse_string_list(v@, i as int) matches Some((g, ge))
                &&& ge == e as int
                &&& e <= v@.len()
                &&& xs@.len() == g.len()
                &&& forall|t: int| 0 <= t < g.len() ==> xs@[t]@ == g[t]
            },
            None => sp_parse_string_list(v@, i as int) is None,
        },
{
    if !(i < v.len() && v[i] == '[') {
        return None;
    }
    let mut out: Vec<String> = Vec::new();
    let mut j: usize = i + 1;
    let mut first: bool = true;
    proof {
        assert(out@.map_values(|x: String| x@) =~= Seq::<Seq<char>>::empty());
    }
    loop
        invariant
            i + 1 <= j <= v@.len(),
            sp_parse_string_list(v@, i as int) == sp_parse_list_items(
                v@,
                j as int,
                first,
                out@.map_values(|x: String| x@),
            ),
        decreases v@.len() - j,
    {
        let ghost acc = out@.map_values(|x: String| x@);
        let p = skip_ws(v, j);
        proof {
            lemma_parse_list_items_ws(v@, j as int, first, acc);
        }
        if p >= v.len() {
            return None;
        }
        if first && v[p] == ']' {
            proof {
                assert(sp_parse_list_items(v@, p as int, first, acc) == Some((acc, p + 1)));
            }
            return Some((out, p + 1));
        }
        match parse_string(v, p) {
            None => {
                return None;
            },
            Some((x, e)) => {
                let d = skip_ws(v, e);
                if d < v.len() && v[d] == ',' {
                    let xs = chars_to_string(&x);
                    proof {
                        assert(acc.push(x@) =~= out@.push(xs).map_values(|y: String| y@));
                    }
                    out.push(xs);
                    j = d + 1;
                    first = false;
                } else if d < v.len() && v[d] == ']' {
                    let xs = chars_to_string(&x);
                    proof {
                        assert(acc.push(x@) =~= out@.push(xs).map_values(|y: String| y@));
                    }
                    out.push(xs);
                    return Some((out, d + 1));
                } else {
                    return None;
                }
            },
        }
    }
}

} // verus!

verus! {

/// Escaping distributes over concatenation.
pub proof fn lemma_escape_app(a: Seq<char>, b: Seq<char>)
    ensures
        sp_escape(a + b) == sp_escape(a) + sp_escape(b),
    decreases a.len(),
{
    if a.len() == 0 {
        assert(a + b =~= b);
        assert(sp_escape(a) + sp_escape(b) =~= sp_escape(b));
    } else {
        let at = a.subrange(1, a.len() as int);
        lemma_escape_app(at, b);
        assert((a + b).subrange(1, (a + b).len() as int) =~= at + b);
        assert((a + b)[0] == a[0]);
        assert(sp_escape_char(a[0]) + (sp_escape(at) + sp_escape(b)) =~= (sp_escape_char(a[0])
            + sp_escape(at)) + sp_escape(b));
    }
}

/// Whether `c` has a one-letter escape of its own.
pub fn has_short_escape_exec(c: char) -> (r: bool)
    ensures
        r == has_short_escape(c),
{
    c == '"' || c == '\\' || c == '\n' || c == '\t' || c == '\r' || c == '\u{0008}' || c
        == '\u{000C}'
}

/// The character that stands for `c` after a backslash.
pub fn escape_code_exec(c: char) -> (r: char)
    ensures
        r == sp_escape_code(c),
{
    if c == '"' {
        '"'
    } else if c == '\\' {
        '\\'
    } else if c == '\n' {
        'n'
    } else if c == '\t' {
        't'
    } else if c == '\r' {
        'r'
    } else if c == '\u{0008}' {
        'b'
    } else {
        'f'
    }
}

/// The lower-case digit printed for a value below sixteen.
pub fn hex_digit_exec(n: u32) -> (r: char)
    requires
        n < 16,
    ensures
        r == sp_hex_digit(n as int),
{
    if n == 0 {
        '0'
    } else if n == 1 {
        '1'
    } else if n == 2 {
        '2'
    } else if n == 3 {
        '3'
    } else if n == 4 {
        '4'
    } else if n == 5 {
        '5'
    } else if n == 6 {
        '6'
    } else if n == 7 {
        '7'
    } else if n == 8 {
        '8'
    } else if n == 9 {
        '9'
    } else if n == 10 {
        'a'
    } else if n == 11 {
        'b'
    } else if n == 12 {
        'c'
    } else if n == 13 {
        'd'
    } else if n == 14 {
        'e'
    } else {
        'f'
    }
}

/// Appends one character.
pub fn push_char(out: &mut Vec<char>, c: char)
    ensures
        final(out)@ == old(out)@ + seq![c],
{
    out.push(c);
    proof {
        assert(out@ =~= old(out)@ + seq![c]);
    }
}

/// Appends `s` as a JSON string: quoted, escapes applied.
pub fn push_quoted(out: &mut Vec<char>, s: &Vec<char>)
    ensures
        final(out)@ == old(out)@ + sp_quote(s@),
{
    push_char(out, '"');
    let mut i: usize = 0;
    while i < s.len()
        invariant
            i <= s@.len(),
            out@ == old(out)@ + seq!['"'] + sp_escape(s@.subrange(0, i as int)),
        decreases s@.len() - i,
    {
        let c = s[i];
        proof {
            lemma_escape_app(s@.subrange(0, i as int), seq![c]);
            assert(s@.subrange(0, i + 1 as int) =~= s@.subrange(0, i as int) + seq![c]);
            assert(seq![c].subrange(1, 1) =~= Seq::<char>::empty());
            assert(sp_escape(seq![c]) == sp_escape_char(c) + sp_escape(Seq::<char>::empty()));
            assert(sp_escape(Seq::<char>::empty()) =~= Seq::<char>::empty());
            assert(sp_escape_char(c) + Seq::<char>::empty() =~= sp_escape_char(c));
        }
        if has_short_escape_exec(c) {
            push_char(out, '\\');
            push_char(out, escape_code_exec(c));
        } else if (c as u32) < 0x20 {
            let u = c as u32;
            push_char(out, '\\');
            push_char(out, 'u');
            push_char(out, '0');
            push_char(out, '0');
            push_char(out, hex_digit_exec(u / 16));
            push_char(out, hex_digit_exec(u % 16));
        } else {
            push_char(out, c);
        }
        proof {
            assert(out@ =~= old(out)@ + seq!['"'] + sp_escape(s@.subrange(0, i + 1 as int)));
        }
        i = i + 1;
    }
    push_char(out, '"');
    proof {
        assert(s@.subrange(0, s@.len() as int) =~= s@);
        assert(out@ =~= old(out)@ + sp_quote(s@));
    }
}

} // verus!
