//! Text that the library writes: decimal numbers and the UUID text forms.

use vstd::prelude::*;

use uuid::Error as UuidError;

verus! {

/// The ASCII digit for `d`, where `d < 10`.
pub open spec fn decimal_digit(d: nat) -> char {
    (48 + d) as char
}

/// `n` written in decimal, most significant digit first, without leading zeros.
pub open spec fn decimal(n: nat) -> Seq<char>
    decreases n,
{
    if n < 10 {
        seq![decimal_digit(n)]
    } else {
        decimal(n / 10).push(decimal_digit(n % 10))
    }
}

/// A decimal numeral has at least one digit, and two from 10 on.
pub proof fn lemma_decimal_len(n: nat)
    ensures
        decimal(n).len() >= 1,
        n >= 10 ==> decimal(n).len() >= 2,
    decreases n,
{
    if n >= 10 {
        lemma_decimal_len(n / 10);
    }
}

/// Distinct numbers have distinct decimal numerals.
pub proof fn lemma_decimal_injective(a: nat, b: nat)
    requires
        decimal(a) == decimal(b),
    ensures
        a == b,
    decreases a,
{
    lemma_decimal_len(a);
    lemma_decimal_len(b);
    if a < 10 && b < 10 {
        assert(decimal(a) == seq![decimal_digit(a)]);
        assert(decimal(b) == seq![decimal_digit(b)]);
        assert(decimal_digit(a) == decimal(a)[0]);
        assert(decimal_digit(a) == decimal_digit(b));
        assert(decimal_digit(a) as int == 48 + a);
        assert(decimal_digit(b) as int == 48 + b);
        assert(a == b);
    } else if a >= 10 && b >= 10 {
        let da = decimal(a);
        let db = decimal(b);
        assert(da.last() == db.last());
        assert(da.last() == decimal_digit(a % 10));
        assert(db.last() == decimal_digit(b % 10));
        assert(decimal_digit(a % 10) as int == 48 + a % 10);
        assert(decimal_digit(b % 10) as int == 48 + b % 10);
        assert(da.drop_last() =~= decimal(a / 10));
        assert(db.drop_last() =~= decimal(b / 10));
        lemma_decimal_injective(a / 10, b / 10);
        assert(a == (a / 10) * 10 + a % 10);
        assert(b == (b / 10) * 10 + b % 10);
        assert(a == b);
    } else if a < 10 {
        assert(decimal(a).len() == 1);
    } else {
        assert(decimal(b).len() == 1);
    }
}

/// Appends one character to a string (`String::push`).
#[verifier::external_body]
pub(crate) fn push_char(s: &mut String, c: char)
    ensures
        final(s)@ == old(s)@.push(c),
{
    s.push(c)
}

/// Appends `n` in decimal.
pub fn push_decimal(s: &mut String, n: usize)
    ensures
        final(s)@ == old(s)@ + decimal(n as nat),
    decreases n,
{
    if n >= 10 {
        push_decimal(s, n / 10);
    }
    let d: u8 = (n % 10) as u8;
    let c: char = (48u8 + d) as char;
    push_char(s, c);
}

/// The lowercase hexadecimal digit for `n`, where `n < 16`.
pub open spec fn hex_digit(n: int) -> char {
    if n < 10 {
        (48 + n) as char
    } else {
        (87 + n) as char
    }
}

/// The simple text form: two lowercase hex digits per byte, high nibble first.
pub open spec fn simple_text(b: Seq<u8>) -> Seq<char> {
    Seq::new(
        2 * b.len(),
        |i: int|
            if i % 2 == 0 {
                hex_digit(b[i / 2] as int / 16)
            } else {
                hex_digit(b[i / 2] as int % 16)
            },
    )
}

/// The lowercase hyphenated form of RFC 9562 §4:
/// `xxxxxxxx-xxxx-xxxx-xxxx-xxxxxxxxxxxx`.
pub open spec fn hyphenated_text(b: Seq<u8>) -> Seq<char> {
    let s = simple_text(b);
    s.subrange(0, 8) + seq!['-'] + s.subrange(8, 12) + seq!['-'] + s.subrange(12, 16) + seq!['-']
        + s.subrange(16, 20) + seq!['-'] + s.subrange(20, 32)
}

/// The value of a hexadecimal digit of either case.
pub open spec fn hex_value(c: char) -> Option<int> {
    let x = c as int;
    if 48 <= x <= 57 {
        Some(x - 48)
    } else if 97 <= x <= 102 {
        Some(x - 87)
    } else if 65 <= x <= 70 {
        Some(x - 55)
    } else {
        None
    }
}

/// The 16 bytes that 32 hex digits spell, if every character is a hex digit.
pub open spec fn hex32_value(h: Seq<char>) -> Option<Seq<u8>> {
    if h.len() == 32 && forall|i: int| 0 <= i < 32 ==> (#[trigger] hex_value(h[i])) is Some {
        Some(
            Seq::new(
                16,
                |j: int|
                    (hex_value(h[2 * j]).unwrap() * 16 + hex_value(h[2 * j + 1]).unwrap()) as u8,
            ),
        )
    } else {
        None
    }
}

/// The bytes that a 36-character hyphenated form spells: hyphens at 8, 13,
/// 18 and 23 and hex digits of either case elsewhere.
pub open spec fn hyphenated_value(s: Seq<char>) -> Option<Seq<u8>> {
    if s.len() == 36 && s[8] == '-' && s[13] == '-' && s[18] == '-' && s[23] == '-' {
        hex32_value(
            s.subrange(0, 8) + s.subrange(9, 13) + s.subrange(14, 18) + s.subrange(19, 23)
                + s.subrange(24, 36),
        )
    } else {
        None
    }
}

/// ASCII lowercase of one character.
pub open spec fn ascii_lower(c: char) -> char {
    if 65 <= c as int <= 90 {
        (c as int + 32) as char
    } else {
        c
    }
}

/// Whether `p` is `urn:uuid:` in any ASCII case.
pub open spec fn is_urn_prefix(p: Seq<char>) -> bool {
    let urn = seq!['u', 'r', 'n', ':', 'u', 'u', 'i', 'd', ':'];
    p.len() == 9 && forall|i: int| 0 <= i < 9 ==> ascii_lower(#[trigger] p[i]) == urn[i]
}

/// The bytes that a textual UUID spells, in any of the forms that
/// `uuid::Uuid::parse_str` reads: simple (32 hex digits), hyphenated,
/// braced (`{..}` around the hyphenated form) and URN (`urn:uuid:` in any
/// case before it); hex digits of either case. `None` for any other text.
pub open spec fn parsed_text(s: Seq<char>) -> Option<Seq<u8>> {
    if s.len() == 32 {
        hex32_value(s)
    } else if s.len() == 36 {
        hyphenated_value(s)
    } else if s.len() == 38 && s[0] == '{' && s[37] == '}' {
        hyphenated_value(s.subrange(1, 37))
    } else if s.len() == 45 && is_urn_prefix(s.subrange(0, 9)) {
        hyphenated_value(s.subrange(9, 45))
    } else {
        None
    }
}

#[verifier::external_type_specification]
#[verifier::external_body]
pub struct ExUuidError(UuidError);

/// `Display` of `uuid::Uuid` (via `to_string`) on the UUID with these bytes:
/// the lowercase hyphenated form.
#[verifier::external_body]
pub(crate) fn uuid_hyphenated(b: &[u8; 16]) -> (r: String)
    ensures
        r@ == hyphenated_text(b@),
{
    uuid::Uuid::from_bytes(*b).to_string()
}

/// `uuid::Uuid::parse_str`, taken as the bytes of the parsed UUID: it accepts
/// exactly the texts that `parsed_text` reads, and gives their bytes.
#[verifier::external_body]
pub(crate) fn uuid_parse(s: &str) -> (r: Result<[u8; 16], UuidError>)
    ensures
        match r {
            Ok(b) => parsed_text(s@) == Some(b@),
            Err(_) => parsed_text(s@) is None,
        },
{
    uuid::Uuid::parse_str(s).map(uuid::Uuid::into_bytes)
}

proof fn lemma_hex_digit_value(n: int)
    requires
        0 <= n < 16,
    ensures
        hex_value(hex_digit(n)) == Some(n),
{
}

/// Reading back the hyphenated form of 16 bytes gives those bytes.
pub proof fn lemma_hyphenated_value(b: Seq<u8>)
    requires
        b.len() == 16,
    ensures
        hyphenated_value(hyphenated_text(b)) == Some(b),
        parsed_text(hyphenated_text(b)) == Some(b),
        hyphenated_text(b).len() == 36,
{
    let s = simple_text(b);
    let t = hyphenated_text(b);
    assert(t.len() == 36);
    assert(t[8] == '-' && t[13] == '-' && t[18] == '-' && t[23] == '-');
    let h = t.subrange(0, 8) + t.subrange(9, 13) + t.subrange(14, 18) + t.subrange(19, 23)
        + t.subrange(24, 36);
    assert(h =~= s);
    assert forall|i: int| 0 <= i < 32 implies (#[trigger] hex_value(s[i])) is Some by {
        if i % 2 == 0 {
            lemma_hex_digit_value(b[i / 2] as int / 16);
        } else {
            lemma_hex_digit_value(b[i / 2] as int % 16);
        }
    }
    let v = hex32_value(s).unwrap();
    assert forall|j: int| 0 <= j < 16 implies v[j] == b[j] by {
        lemma_hex_digit_value(b[j] as int / 16);
        lemma_hex_digit_value(b[j] as int % 16);
        assert(s[2 * j] == hex_digit(b[j] as int / 16));
        assert(s[2 * j + 1] == hex_digit(b[j] as int % 16));
    }
    assert(v =~= b);
}

/// Every text form of the same 16 bytes reads back as those bytes: the
/// simple form, the hyphenated form, the braced form and the URN.
pub proof fn lemma_text_forms(b: Seq<u8>)
    requires
        b.len() == 16,
    ensures
        parsed_text(simple_text(b)) == Some(b),
        parsed_text(hyphenated_text(b)) == Some(b),
        parsed_text(seq!['{'] + hyphenated_text(b) + seq!['}']) == Some(b),
        parsed_text(seq!['u', 'r', 'n', ':', 'u', 'u', 'i', 'd', ':'] + hyphenated_text(b))
            == Some(b),
{
    lemma_hyphenated_value(b);
    let s = simple_text(b);
    let h = hyphenated_text(b);
    let t = h.subrange(0, 8) + h.subrange(9, 13) + h.subrange(14, 18) + h.subrange(19, 23)
        + h.subrange(24, 36);
    assert(t =~= s);
    let braced = seq!['{'] + h + seq!['}'];
    assert(braced.subrange(1, 37) =~= h);
    let urn = seq!['u', 'r', 'n', ':', 'u', 'u', 'i', 'd', ':'];
    let u = urn + h;
    assert(u.subrange(0, 9) =~= urn);
    assert(u.subrange(9, 45) =~= h);
    assert(is_urn_prefix(u.subrange(0, 9)));
}

/// The lowercase hexadecimal digits, in order of value.
pub open spec fn lower_hex_digits() -> Seq<char> {
    seq!['0', '1', '2', '3', '4', '5', '6', '7', '8', '9', 'a', 'b', 'c', 'd', 'e', 'f']
}

/// ASCII uppercase of one character.
pub open spec fn ascii_upper(c: char) -> char {
    if 97 <= c as int <= 122 {
        (c as int - 32) as char
    } else {
        c
    }
}

/// The text of 16 bytes is 36 characters: hyphens at 8, 13, 18 and 23, and
/// elsewhere the lowercase hex digits of the bytes in order, high nibble
/// first. So it is lowercase, and it is fixed by the bytes alone.
pub proof fn lemma_hyphenated_layout(b: Seq<u8>)
    requires
        b.len() == 16,
    ensures
        hyphenated_text(b).len() == 36,
        forall|k: int|
            0 <= k < 36 ==> {
                let c = #[trigger] hyphenated_text(b)[k];
                let d = if k < 8 {
                    k
                } else if k < 13 {
                    k - 1
                } else if k < 18 {
                    k - 2
                } else if k < 23 {
                    k - 3
                } else {
                    k - 4
                };
                if k == 8 || k == 13 || k == 18 || k == 23 {
                    c == '-'
                } else if d % 2 == 0 {
                    c == lower_hex_digits()[b[d / 2] as int / 16]
                } else {
                    c == lower_hex_digits()[b[d / 2] as int % 16]
                }
            },
        forall|k: int|
            0 <= k < 36 && k != 8 && k != 13 && k != 18 && k != 23 ==> {
                let x = #[trigger] hyphenated_text(b)[k] as int;
                48 <= x <= 57 || 97 <= x <= 102
            },
{
    let t = hyphenated_text(b);
    let s = simple_text(b);
    assert forall|n: int| 0 <= n < 16 implies #[trigger] hex_digit(n) == lower_hex_digits()[n] by {
        let x = hex_digit(n) as int;
        if n < 10 {
            assert(x == 48 + n);
        } else {
            assert(x == 87 + n);
        }
        assert(lower_hex_digits()[n] as int == x);
    }
    assert forall|k: int| 0 <= k < 36 implies {
        let c = #[trigger] hyphenated_text(b)[k];
        let d = if k < 8 {
            k
        } else if k < 13 {
            k - 1
        } else if k < 18 {
            k - 2
        } else if k < 23 {
            k - 3
        } else {
            k - 4
        };
        if k == 8 || k == 13 || k == 18 || k == 23 {
            c == '-'
        } else if d % 2 == 0 {
            c == lower_hex_digits()[b[d / 2] as int / 16]
        } else {
            c == lower_hex_digits()[b[d / 2] as int % 16]
        }
    } by {
        let d = if k < 8 {
            k
        } else if k < 13 {
            k - 1
        } else if k < 18 {
            k - 2
        } else if k < 23 {
            k - 3
        } else {
            k - 4
        };
        if !(k == 8 || k == 13 || k == 18 || k == 23) {
            assert(t[k] == s[d]);
            assert(0 <= b[d / 2] as int / 16 < 16);
            assert(0 <= b[d / 2] as int % 16 < 16);
        }
    }
    assert forall|k: int| 0 <= k < 36 && k != 8 && k != 13 && k != 18 && k != 23 implies {
        let x = #[trigger] hyphenated_text(b)[k] as int;
        48 <= x <= 57 || 97 <= x <= 102
    } by {
        let d = if k < 8 {
            k
        } else if k < 13 {
            k - 1
        } else if k < 18 {
            k - 2
        } else if k < 23 {
            k - 3
        } else {
            k - 4
        };
        assert(t[k] == s[d]);
        let n = if d % 2 == 0 {
            b[d / 2] as int / 16
        } else {
            b[d / 2] as int % 16
        };
        assert(0 <= n < 16);
        assert(s[d] == hex_digit(n));
    }
}

/// A hex digit has the same value in either case, and any other character
/// is no digit in either case.
proof fn lemma_hex_value_ignores_case(c: char, e: char)
    requires
        ascii_lower(c) == ascii_lower(e),
    ensures
        hex_value(c) == hex_value(e),
        c == '-' <==> e == '-',
        c == '{' <==> e == '{',
        c == '}' <==> e == '}',
{
    let x = c as int;
    let y = e as int;
    assert(ascii_lower(c) as int == if 65 <= x <= 90 { x + 32 } else { x });
    assert(ascii_lower(e) as int == if 65 <= y <= 90 { y + 32 } else { y });
}

/// Two texts of the same length that agree up to ASCII case spell the same
/// 32 hex digits.
proof fn lemma_hex32_ignores_case(s: Seq<char>, t: Seq<char>)
    requires
        s.len() == t.len(),
        forall|i: int| 0 <= i < s.len() ==> ascii_lower(#[trigger] s[i]) == ascii_lower(t[i]),
    ensures
        hex32_value(s) == hex32_value(t),
{
    assert forall|i: int| 0 <= i < s.len() implies #[trigger] hex_value(s[i]) == hex_value(t[i]) by {
        lemma_hex_value_ignores_case(s[i], t[i]);
    }
    if s.len() == 32 {
        if forall|i: int| 0 <= i < 32 ==> (#[trigger] hex_value(s[i])) is Some {
            assert forall|i: int| 0 <= i < 32 implies (#[trigger] hex_value(t[i])) is Some by {
                assert(hex_value(s[i]) == hex_value(t[i]));
            }
            assert(hex32_value(s).unwrap() =~= hex32_value(t).unwrap());
        } else {
            let i = choose|i: int| 0 <= i < 32 && !(hex_value(s[i]) is Some);
            assert(hex_value(s[i]) == hex_value(t[i]));
        }
    }
}

/// Two texts of the same length that agree up to ASCII case spell the same
/// hyphenated value.
proof fn lemma_hyphenated_ignores_case(s: Seq<char>, t: Seq<char>)
    requires
        s.len() == t.len(),
        forall|i: int| 0 <= i < s.len() ==> ascii_lower(#[trigger] s[i]) == ascii_lower(t[i]),
    ensures
        hyphenated_value(s) == hyphenated_value(t),
{
    if s.len() == 36 {
        lemma_hex_value_ignores_case(s[8], t[8]);
        lemma_hex_value_ignores_case(s[13], t[13]);
        lemma_hex_value_ignores_case(s[18], t[18]);
        lemma_hex_value_ignores_case(s[23], t[23]);
        let hs = s.subrange(0, 8) + s.subrange(9, 13) + s.subrange(14, 18) + s.subrange(19, 23)
            + s.subrange(24, 36);
        let ht = t.subrange(0, 8) + t.subrange(9, 13) + t.subrange(14, 18) + t.subrange(19, 23)
            + t.subrange(24, 36);
        assert forall|i: int| 0 <= i < hs.len() implies ascii_lower(#[trigger] hs[i])
            == ascii_lower(ht[i]) by {
            let j = if i < 8 {
                i
            } else if i < 12 {
                i + 1
            } else if i < 16 {
                i + 2
            } else if i < 20 {
                i + 3
            } else {
                i + 4
            };
            assert(hs[i] == s[j]);
            assert(ht[i] == t[j]);
        }
        lemma_hex32_ignores_case(hs, ht);
    }
}

/// Texts that agree up to ASCII case parse alike.
pub proof fn lemma_parse_ignores_case_of(s: Seq<char>, t: Seq<char>)
    requires
        s.len() == t.len(),
        forall|i: int| 0 <= i < s.len() ==> ascii_lower(#[trigger] s[i]) == ascii_lower(t[i]),
    ensures
        parsed_text(s) == parsed_text(t),
{
    lemma_hex32_ignores_case(s, t);
    lemma_hyphenated_ignores_case(s, t);
    if s.len() == 38 {
        lemma_hex_value_ignores_case(s[0], t[0]);
        lemma_hex_value_ignores_case(s[37], t[37]);
        let a = s.subrange(1, 37);
        let c = t.subrange(1, 37);
        assert forall|i: int| 0 <= i < a.len() implies ascii_lower(#[trigger] a[i]) == ascii_lower(
            c[i],
        ) by {
            assert(a[i] == s[i + 1]);
            assert(c[i] == t[i + 1]);
        }
        lemma_hyphenated_ignores_case(a, c);
    }
    if s.len() == 45 {
        let a = s.subrange(0, 9);
        let c = t.subrange(0, 9);
        assert forall|i: int| 0 <= i < 9 implies ascii_lower(#[trigger] a[i]) == ascii_lower(c[i]) by {
            assert(a[i] == s[i]);
            assert(c[i] == t[i]);
        }
        let urn = seq!['u', 'r', 'n', ':', 'u', 'u', 'i', 'd', ':'];
        if is_urn_prefix(a) {
            assert forall|i: int| 0 <= i < 9 implies ascii_lower(#[trigger] c[i]) == urn[i] by {
                assert(ascii_lower(a[i]) == urn[i]);
            }
        }
        if is_urn_prefix(c) {
            assert forall|i: int| 0 <= i < 9 implies ascii_lower(#[trigger] a[i]) == urn[i] by {
                assert(ascii_lower(c[i]) == urn[i]);
            }
        }
        assert(is_urn_prefix(a) == is_urn_prefix(c));
        let a2 = s.subrange(9, 45);
        let c2 = t.subrange(9, 45);
        assert forall|i: int| 0 <= i < a2.len() implies ascii_lower(#[trigger] a2[i])
            == ascii_lower(c2[i]) by {
            assert(a2[i] == s[i + 9]);
            assert(c2[i] == t[i + 9]);
        }
        lemma_hyphenated_ignores_case(a2, c2);
    }
}

/// Parsing ignores letter case, in every form: the text in uppercase and the
/// text in lowercase parse as the text itself does.
pub proof fn lemma_parse_ignores_case(s: Seq<char>)
    ensures
        parsed_text(s.map_values(|c: char| ascii_upper(c))) == parsed_text(s),
        parsed_text(s.map_values(|c: char| ascii_lower(c))) == parsed_text(s),
{
    let u = s.map_values(|c: char| ascii_upper(c));
    let l = s.map_values(|c: char| ascii_lower(c));
    assert forall|i: int| 0 <= i < s.len() implies ascii_lower(#[trigger] s[i]) == ascii_lower(
        u[i],
    ) by {
        let x = s[i] as int;
        assert(ascii_upper(s[i]) as int == if 97 <= x <= 122 { x - 32 } else { x });
    }
    assert forall|i: int| 0 <= i < s.len() implies ascii_lower(#[trigger] s[i]) == ascii_lower(
        l[i],
    ) by {
        let x = s[i] as int;
        assert(ascii_lower(s[i]) as int == if 65 <= x <= 90 { x + 32 } else { x });
    }
    lemma_parse_ignores_case_of(s, u);
    lemma_parse_ignores_case_of(s, l);
}

/// Every text form of 16 bytes reads back as those bytes in uppercase too,
/// the braced uppercase form among them.
pub proof fn lemma_uppercase_forms(b: Seq<u8>)
    requires
        b.len() == 16,
    ensures
        parsed_text(hyphenated_text(b).map_values(|c: char| ascii_upper(c))) == Some(b),
        parsed_text(
            (seq!['{'] + hyphenated_text(b) + seq!['}']).map_values(|c: char| ascii_upper(c)),
        ) == Some(b),
        parsed_text(simple_text(b).map_values(|c: char| ascii_upper(c))) == Some(b),
{
    lemma_text_forms(b);
    lemma_parse_ignores_case(hyphenated_text(b));
    lemma_parse_ignores_case(seq!['{'] + hyphenated_text(b) + seq!['}']);
    lemma_parse_ignores_case(simple_text(b));
}

} // verus!
