//! 128-bit identifiers for aggregates, events and commands.
//!
//! An identifier is held as a plain `u128`, so that contracts can speak of
//! its value directly.  Parsing accepts the four textual forms: the
//! canonical hyphenated form (8-4-4-4-12 hexadecimal digits), the simple
//! form (32 hexadecimal digits), the braced hyphenated form, and the
//! hyphenated form behind a `urn:uuid:` prefix — digits and prefix in
//! either case.  Rendering produces the canonical lowercase hyphenated
//! form.

use vstd::prelude::*;

verus! {

/// A 128-bit identifier.  The zero value is the nil identifier.
#[derive(Clone, Copy, Debug, Hash, PartialEq, Eq, Structural)]
pub struct Uuid {
    pub value: u128,
}

/// Alias kept for callers that use the capitalised name.
pub type UUID = Uuid;

/// An error returned when a string is not a well-formed identifier.
#[derive(Clone, Copy, Debug, PartialEq, Eq, Structural)]
pub struct UuidError;

/// True if `c` is a hexadecimal digit in either case.
pub open spec fn is_hex_digit(c: char) -> bool {
    ('0' <= c && c <= '9') || ('a' <= c && c <= 'f') || ('A' <= c && c <= 'F')
}

/// The numeric value of the hexadecimal digit `c`.
pub open spec fn hex_digit_value(c: char) -> int {
    if '0' <= c && c <= '9' {
        c as int - '0' as int
    } else if 'a' <= c && c <= 'f' {
        c as int - 'a' as int + 10
    } else {
        c as int - 'A' as int + 10
    }
}

/// The lowercase hexadecimal digit for the value `v`.
pub open spec fn hex_char_of(v: int) -> char {
    if v == 0 {
        '0'
    } else if v == 1 {
        '1'
    } else if v == 2 {
        '2'
    } else if v == 3 {
        '3'
    } else if v == 4 {
        '4'
    } else if v == 5 {
        '5'
    } else if v == 6 {
        '6'
    } else if v == 7 {
        '7'
    } else if v == 8 {
        '8'
    } else if v == 9 {
        '9'
    } else if v == 10 {
        'a'
    } else if v == 11 {
        'b'
    } else if v == 12 {
        'c'
    } else if v == 13 {
        'd'
    } else if v == 14 {
        'e'
    } else {
        'f'
    }
}

/// True if `i` is the place of one of the four hyphens of the canonical form.
pub open spec fn is_dash_position(i: int) -> bool {
    i == 8 || i == 13 || i == 18 || i == 23
}

/// True if `s` spells 32 bare hexadecimal digits.
pub open spec fn is_simple_uuid_chars(s: Seq<char>) -> bool {
    s.len() == 32 && forall|i: int| 0 <= i < 32 ==> is_hex_digit(#[trigger] s[i])
}

/// True if `s` spells the canonical hyphenated form: 32 hexadecimal
/// digits broken by hyphens into the 8-4-4-4-12 groups.
pub open spec fn is_hyphenated_uuid_chars(s: Seq<char>) -> bool {
    s.len() == 36 && forall|i: int|
        0 <= i < 36 ==> if is_dash_position(i) {
            #[trigger] s[i] == '-'
        } else {
            is_hex_digit(s[i])
        }
}

/// True if `s` spells `urn:uuid:`, in either case.
pub open spec fn is_urn_prefix_chars(s: Seq<char>) -> bool {
    &&& s.len() == 9
    &&& (s[0] == 'u' || s[0] == 'U')
    &&& (s[1] == 'r' || s[1] == 'R')
    &&& (s[2] == 'n' || s[2] == 'N')
    &&& s[3] == ':'
    &&& (s[4] == 'u' || s[4] == 'U')
    &&& (s[5] == 'u' || s[5] == 'U')
    &&& (s[6] == 'i' || s[6] == 'I')
    &&& (s[7] == 'd' || s[7] == 'D')
    &&& s[8] == ':'
}

/// True if `s` spells an identifier in any of the four accepted forms:
/// simple, hyphenated, braced hyphenated, or `urn:uuid:` plus hyphenated.
pub open spec fn is_valid_uuid_chars(s: Seq<char>) -> bool {
    ||| is_simple_uuid_chars(s)
    ||| is_hyphenated_uuid_chars(s)
    ||| (s.len() == 38 && s[0] == '{' && s[37] == '}' && is_hyphenated_uuid_chars(
        s.subrange(1, 37),
    ))
    ||| (s.len() == 45 && is_urn_prefix_chars(s.subrange(0, 9)) && is_hyphenated_uuid_chars(
        s.subrange(9, 45),
    ))
}

/// The digits of `s`, hyphens of the canonical form removed.
pub open spec fn uuid_digits(s: Seq<char>) -> Seq<char> {
    if s.len() == 36 {
        s.subrange(0, 8) + s.subrange(9, 13) + s.subrange(14, 18) + s.subrange(19, 23)
            + s.subrange(24, 36)
    } else {
        s
    }
}

/// The integer read from the hexadecimal digits of `s`, most significant
/// first.
pub open spec fn hex_value(s: Seq<char>) -> int
    decreases s.len(),
{
    if s.len() == 0 {
        0
    } else {
        16 * hex_value(s.drop_last()) + hex_digit_value(s.last())
    }
}

/// The value spelled by `s`: the wrapper of its form stripped, hyphens
/// ignored.
pub open spec fn uuid_chars_value(s: Seq<char>) -> int {
    if s.len() == 38 {
        hex_value(uuid_digits(s.subrange(1, 37)))
    } else if s.len() == 45 {
        hex_value(uuid_digits(s.subrange(9, 45)))
    } else {
        hex_value(uuid_digits(s))
    }
}

/// The canonical lowercase hyphenated spelling of the value `v`: the
/// character at each of the 36 places.
pub open spec fn uuid_char_at(v: u128, i: int) -> char {
    if is_dash_position(i) {
        '-'
    } else {
        let k = i - (if i > 8 { 1int } else { 0int }) - (if i > 13 { 1int } else { 0int }) - (
        if i > 18 { 1int } else { 0int }) - (if i > 23 { 1int } else { 0int });
        hex_char_of(((v >> ((31 - k) * 4)) & 0xf) as int)
    }
}

/// The canonical lowercase hyphenated spelling of the value `v`.
pub open spec fn uuid_text(v: u128) -> Seq<char> {
    Seq::new(36, |i: int| uuid_char_at(v, i))
}

/// 16 to the power `n`.
pub open spec fn pow16(n: nat) -> int
    decreases n,
{
    if n == 0 {
        1
    } else {
        16 * pow16((n - 1) as nat)
    }
}

proof fn lemma_pow16_monotone(m: nat, n: nat)
    requires
        m <= n,
    ensures
        1 <= pow16(m) <= pow16(n),
    decreases n,
{
    if n > 0 {
        if m == n {
            lemma_pow16_monotone(0, (n - 1) as nat);
        } else {
            lemma_pow16_monotone(m, (n - 1) as nat);
        }
    }
}

proof fn lemma_nibble_bound(x: u128)
    ensures
        x & 0xf < 16,
{
    assert(x & 0xf < 16) by (bit_vector);
}

/// Appends the lowercase hexadecimal digit of `v` to `s`.
pub(crate) fn append_hex_char(s: &mut String, v: u8)
    requires
        v < 16,
    ensures
        final(s)@ == old(s)@.push(hex_char_of(v as int)),
{
    if v == 0 {
        s.append("0");
        proof {
            reveal_strlit("0");
        }
    } else if v == 1 {
        s.append("1");
        proof {
            reveal_strlit("1");
        }
    } else if v == 2 {
        s.append("2");
        proof {
            reveal_strlit("2");
        }
    } else if v == 3 {
        s.append("3");
        proof {
            reveal_strlit("3");
        }
    } else if v == 4 {
        s.append("4");
        proof {
            reveal_strlit("4");
        }
    } else if v == 5 {
        s.append("5");
        proof {
            reveal_strlit("5");
        }
    } else if v == 6 {
        s.append("6");
        proof {
            reveal_strlit("6");
        }
    } else if v == 7 {
        s.append("7");
        proof {
            reveal_strlit("7");
        }
    } else if v == 8 {
        s.append("8");
        proof {
            reveal_strlit("8");
        }
    } else if v == 9 {
        s.append("9");
        proof {
            reveal_strlit("9");
        }
    } else if v == 10 {
        s.append("a");
        proof {
            reveal_strlit("a");
        }
    } else if v == 11 {
        s.append("b");
        proof {
            reveal_strlit("b");
        }
    } else if v == 12 {
        s.append("c");
        proof {
            reveal_strlit("c");
        }
    } else if v == 13 {
        s.append("d");
        proof {
            reveal_strlit("d");
        }
    } else if v == 14 {
        s.append("e");
        proof {
            reveal_strlit("e");
        }
    } else {
        s.append("f");
        proof {
            reveal_strlit("f");
        }
    }
    proof {
        assert(s@ =~= old(s)@.push(hex_char_of(v as int)));
    }
}

impl Uuid {
    /// The nil identifier (all bits zero).
    pub fn nil() -> (id: Uuid)
        ensures
            id.value == 0,
    {
        Uuid { value: 0 }
    }

    /// Builds an identifier from its 128-bit value.
    pub fn from_u128(value: u128) -> (id: Uuid)
        ensures
            id.value == value,
    {
        Uuid { value }
    }

    /// Returns the 128-bit value of the identifier.
    pub fn as_u128(&self) -> (value: u128)
        ensures
            value == self.value,
    {
        self.value
    }

    /// Renders the identifier in the canonical lowercase hyphenated form.
    pub fn to_text(&self) -> (s: String)
        ensures
            s@ == uuid_text(self.value),
    {
        let mut s = String::new();
        let mut i: usize = 0;
        let mut k: usize = 0;
        while i < 36
            invariant
                i <= 36,
                k == i - (if i > 8 { 1int } else { 0int }) - (if i > 13 { 1int } else { 0int })
                    - (if i > 18 { 1int } else { 0int }) - (if i > 23 { 1int } else { 0int }),
                s@.len() == i,
                forall|j: int| 0 <= j < i ==> s@[j] == uuid_char_at(self.value, j),
            decreases 36 - i,
        {
            if i == 8 || i == 13 || i == 18 || i == 23 {
                let ghost pre = s@;
                s.append("-");
                proof {
                    reveal_strlit("-");
                    assert(s@ =~= pre.push('-'));
                }
            } else {
                let shift: u32 = ((31 - k) as u32) * 4;
                proof {
                    lemma_nibble_bound(self.value >> shift);
                }
                let nibble: u8 = ((self.value >> shift) & 0xf) as u8;
                let ghost pre = s@;
                append_hex_char(&mut s, nibble);
                proof {
                    assert(shift == (31 - k as int) * 4);
                    assert(nibble as int == (self.value >> ((31 - k as int) * 4)) & 0xf);
                    assert(s@[i as int] == uuid_char_at(self.value, i as int));
                }
                k = k + 1;
            }
            i = i + 1;
        }
        proof {
            assert(s@ =~= uuid_text(self.value));
        }
        s
    }
}

/// The numeric value of the hexadecimal digit `c`, or `None` if `c` is no
/// such digit.
fn hex_digit(c: char) -> (r: Option<u8>)
    ensures
        r is Some <==> is_hex_digit(c),
        r is Some ==> r->0 == hex_digit_value(c) && r->0 <= 15,
{
    if '0' <= c && c <= '9' {
        Some((c as u8) - 48)
    } else if 'a' <= c && c <= 'f' {
        Some((c as u8) - 97 + 10)
    } else if 'A' <= c && c <= 'F' {
        Some((c as u8) - 65 + 10)
    } else {
        None
    }
}

/// Parses the simple or hyphenated digits standing in `s` at the places
/// `start` to `start + core_len`.
fn parse_core(s: &str, start: usize, core_len: usize) -> (r: Result<Uuid, UuidError>)
    requires
        core_len == 32 || core_len == 36,
        start + core_len <= s@.len(),
        start + core_len <= usize::MAX,
    ensures
        r is Ok <==> is_simple_uuid_chars(s@.subrange(start as int, start + core_len))
            || is_hyphenated_uuid_chars(s@.subrange(start as int, start + core_len)),
        r is Ok ==> r->Ok_0.value == hex_value(
            uuid_digits(s@.subrange(start as int, start + core_len)),
        ),
{
    let ghost core = s@.subrange(start as int, start + core_len);
    let hyphenated = core_len == 36;
    let ghost digits = uuid_digits(core);
    let mut acc: u128 = 0;
    let mut dcount: usize = 0;
    let mut i: usize = 0;
    while i < core_len
        invariant
            core_len == 32 || core_len == 36,
            start + core_len <= s@.len(),
            start + core_len <= usize::MAX,
            core == s@.subrange(start as int, start + core_len),
            core.len() == core_len,
            hyphenated == (core_len == 36),
            digits == uuid_digits(core),
            digits.len() == 32,
            i <= core_len,
            dcount <= 32,
            hyphenated ==> dcount == i - (if i > 8 { 1int } else { 0int }) - (if i > 13 {
                1int
            } else {
                0int
            }) - (if i > 18 { 1int } else { 0int }) - (if i > 23 { 1int } else { 0int }),
            !hyphenated ==> dcount == i,
            acc == hex_value(digits.subrange(0, dcount as int)),
            acc < pow16(dcount as nat),
            forall|j: int| 0 <= j < i && !(hyphenated && is_dash_position(j)) ==> is_hex_digit(
                #[trigger] core[j],
            ),
            forall|j: int| 0 <= j < i && hyphenated && is_dash_position(j) ==> #[trigger] core[j]
                == '-',
        decreases core_len - i,
    {
        let c = s.get_char(start + i);
        proof {
            assert(core[i as int] == s@[start + i]);
        }
        if hyphenated && (i == 8 || i == 13 || i == 18 || i == 23) {
            if c != '-' {
                return Err(UuidError);
            }
        } else {
            match hex_digit(c) {
                Some(v) => {
                    proof {
                        assert(digits[dcount as int] == core[i as int]);
                        assert(digits.subrange(0, dcount as int + 1) =~= digits.subrange(
                            0,
                            dcount as int,
                        ).push(digits[dcount as int]));
                        assert(digits.subrange(0, dcount as int + 1).drop_last() =~= digits
                            .subrange(0, dcount as int));
                        lemma_pow16_monotone(dcount as nat + 1, 32);
                        assert(pow16(32) == 0x1_0000_0000_0000_0000_0000_0000_0000_0000int) by {
                            reveal_with_fuel(pow16, 33);
                        }
                    }
                    acc = acc * 16 + (v as u128);
                    dcount = dcount + 1;
                },
                None => {
                    return Err(UuidError);
                },
            }
        }
        i = i + 1;
    }
    proof {
        assert(digits.subrange(0, 32) =~= digits);
        if !hyphenated {
            assert(uuid_digits(core) =~= core);
        }
    }
    Ok(Uuid { value: acc })
}

/// Parses an identifier from any of the four accepted textual forms.
pub fn parse(s: &str) -> (r: Result<Uuid, UuidError>)
    ensures
        r is Ok <==> is_valid_uuid_chars(s@),
        r is Ok ==> r->Ok_0.value == uuid_chars_value(s@),
{
    let n = s.unicode_len();
    if n == 32 || n == 36 {
        let r = parse_core(s, 0, n);
        proof {
            assert(s@.subrange(0, n as int) =~= s@);
        }
        r
    } else if n == 38 {
        if s.get_char(0) != '{' || s.get_char(37) != '}' {
            return Err(UuidError);
        }
        parse_core(s, 1, 36)
    } else if n == 45 {
        let c0 = s.get_char(0);
        let c1 = s.get_char(1);
        let c2 = s.get_char(2);
        let c3 = s.get_char(3);
        let c4 = s.get_char(4);
        let c5 = s.get_char(5);
        let c6 = s.get_char(6);
        let c7 = s.get_char(7);
        let c8 = s.get_char(8);
        let prefix_ok = (c0 == 'u' || c0 == 'U') && (c1 == 'r' || c1 == 'R') && (c2 == 'n' || c2
            == 'N') && c3 == ':' && (c4 == 'u' || c4 == 'U') && (c5 == 'u' || c5 == 'U') && (c6
            == 'i' || c6 == 'I') && (c7 == 'd' || c7 == 'D') && c8 == ':';
        proof {
            assert(prefix_ok == is_urn_prefix_chars(s@.subrange(0, 9)));
        }
        if !prefix_ok {
            return Err(UuidError);
        }
        parse_core(s, 9, 36)
    } else {
        Err(UuidError)
    }
}

/// Parses an identifier from a string that is known to be well formed.
pub fn must_parse(s: &str) -> (id: Uuid)
    requires
        is_valid_uuid_chars(s@),
    ensures
        id.value == uuid_chars_value(s@),
{
    match parse(s) {
        Ok(id) => id,
        Err(_) => {
            proof {
                assert(false);
            }
            Uuid { value: 0 }
        },
    }
}

/// Relies on `uuid::Uuid::new_v4`: a fresh random identifier whose version
/// nibble is 4 and whose variant bits are `10`.
#[verifier::external_body]
pub fn new() -> (id: Uuid)
    ensures
        (id.value >> 76) & 0xf == 4,
        (id.value >> 62) & 0x3 == 2,
{
    Uuid { value: ::uuid::Uuid::new_v4().as_u128() }
}

} // verus!
