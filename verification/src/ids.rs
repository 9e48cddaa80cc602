use vstd::prelude::*;

verus! {

/// Sixteen to the power `n`.
pub open spec fn pow16(n: nat) -> nat
    decreases n,
{
    if n == 0 {
        1
    } else {
        16 * pow16((n - 1) as nat)
    }
}

/// The last `count` base-16 digits of `v`, most significant first.
pub open spec fn hex_digits(v: nat, count: nat) -> Seq<nat>
    decreases count,
{
    if count == 0 {
        Seq::empty()
    } else {
        hex_digits(v / 16, (count - 1) as nat).push(v % 16)
    }
}

/// The number that base-16 digits stand for, most significant first.
pub open spec fn hex_number(ds: Seq<nat>) -> nat
    decreases ds.len(),
{
    if ds.len() == 0 {
        0
    } else {
        hex_number(ds.drop_last()) * 16 + ds.last()
    }
}

/// The lower-case hexadecimal character of a digit below 16.
pub open spec fn lower_hex_char(d: nat) -> char {
    seq!['0', '1', '2', '3', '4', '5', '6', '7', '8', '9', 'a', 'b', 'c', 'd', 'e', 'f'][d as int]
}

/// The value of a hexadecimal character of either case.
pub open spec fn hex_char_value(c: char) -> Option<nat> {
    let n = c as u32;
    if '0' as u32 <= n <= '9' as u32 {
        Some((n - '0' as u32) as nat)
    } else if 'a' as u32 <= n <= 'f' as u32 {
        Some((n - 'a' as u32 + 10) as nat)
    } else if 'A' as u32 <= n <= 'F' as u32 {
        Some((n - 'A' as u32 + 10) as nat)
    } else {
        None
    }
}

/// The 32 lower-case hexadecimal digits of an identifier.
pub open spec fn uuid_hex(id: u128) -> Seq<char> {
    hex_digits(id as nat, 32).map_values(|d: nat| lower_hex_char(d))
}

/// The hyphenated text of an identifier, as `uuid::Uuid` displays it:
/// 8, 4, 4, 4 and 12 lower-case hex digits joined by `-`.
pub open spec fn uuid_text(id: u128) -> Seq<char> {
    let h = uuid_hex(id);
    h.subrange(0, 8) + seq!['-'] + h.subrange(8, 12) + seq!['-'] + h.subrange(12, 16) + seq!['-']
        + h.subrange(16, 20) + seq!['-'] + h.subrange(20, 32)
}

/// The 32 characters of a 36-character hyphenated text that are not hyphens.
pub open spec fn hyphenated_hex(s: Seq<char>) -> Seq<char> {
    s.subrange(0, 8) + s.subrange(9, 13) + s.subrange(14, 18) + s.subrange(19, 23) + s.subrange(
        24,
        36,
    )
}

/// The identifier that a hyphenated text stands for (hex digits of either
/// case, hyphens at positions 8, 13, 18 and 23), or `None` when `s` is not
/// such a text.
pub open spec fn hyphenated_uuid_value(s: Seq<char>) -> Option<u128> {
    let h = hyphenated_hex(s);
    if s.len() == 36 && s[8] == '-' && s[13] == '-' && s[18] == '-' && s[23] == '-' && (forall|
        i: int,
    |
        0 <= i < 32 ==> (#[trigger] hex_char_value(h[i])) is Some) {
        Some(hex_number(h.map_values(|c: char| hex_char_value(c).unwrap())) as u128)
    } else {
        None
    }
}

/// Whether every character of `s` is ASCII.
pub open spec fn is_ascii_text(s: Seq<char>) -> bool {
    forall|i: int| 0 <= i < s.len() ==> (#[trigger] s[i]) as u32 <= 0x7f
}

/// The identifier that 32 hexadecimal digits of either case stand for, or
/// `None` when `s` is not such a text.
pub open spec fn simple_uuid_value(s: Seq<char>) -> Option<u128> {
    if s.len() == 32 && (forall|i: int| 0 <= i < 32 ==> (#[trigger] hex_char_value(s[i])) is Some) {
        Some(hex_number(s.map_values(|c: char| hex_char_value(c).unwrap())) as u128)
    } else {
        None
    }
}

/// Whether `c` equals the lower-case or punctuation character `p` once ASCII
/// case is ignored.
pub open spec fn matches_ignoring_ascii_case(c: char, p: char) -> bool {
    c == p || ('A' as u32 <= c as u32 <= 'Z' as u32 && c as u32 + 32 == p as u32)
}

/// The prefix of a URN-form identifier.
pub open spec fn urn_prefix() -> Seq<char> {
    seq!['u', 'r', 'n', ':', 'u', 'u', 'i', 'd', ':']
}

/// What `uuid::Uuid::parse_str` gives for a text: 32 bare hex digits, the
/// hyphenated form, the hyphenated form in braces, or the hyphenated form
/// after `urn:uuid:` (any ASCII case) give the identifier; any other text,
/// and any text holding a non-ASCII character, is refused.
pub open spec fn uuid_parse(s: Seq<char>) -> Option<u128> {
    if !is_ascii_text(s) {
        None
    } else if s.len() == 32 {
        simple_uuid_value(s)
    } else if s.len() == 36 {
        hyphenated_uuid_value(s)
    } else if s.len() == 38 {
        if s[0] == '{' && s[37] == '}' {
            hyphenated_uuid_value(s.subrange(1, 37))
        } else {
            None
        }
    } else if s.len() == 45 {
        if forall|i: int| 0 <= i < 9 ==> #[trigger] matches_ignoring_ascii_case(s[i], urn_prefix()[i]) {
            hyphenated_uuid_value(s.subrange(9, 45))
        } else {
            None
        }
    } else {
        None
    }
}

proof fn lemma_pow16_positive(n: nat)
    ensures
        pow16(n) > 0,
    decreases n,
{
    if n > 0 {
        lemma_pow16_positive((n - 1) as nat);
    }
}

proof fn lemma_hex_digits(v: nat, count: nat)
    ensures
        hex_digits(v, count).len() == count,
        forall|i: int| 0 <= i < count ==> #[trigger] hex_digits(v, count)[i] < 16,
        hex_number(hex_digits(v, count)) == v % pow16(count),
    decreases count,
{
    if count > 0 {
        let c1 = (count - 1) as nat;
        lemma_hex_digits(v / 16, c1);
        lemma_pow16_positive(c1);
        let d = hex_digits(v, count);
        assert(d.drop_last() =~= hex_digits(v / 16, c1));
        vstd::arithmetic::div_mod::lemma_mod_breakdown(v as int, 16, pow16(c1) as int);
    }
}

proof fn lemma_hex_char_round_trip(d: nat)
    requires
        d < 16,
    ensures
        hex_char_value(lower_hex_char(d)) == Some(d),
        lower_hex_char(d) != '-',
        lower_hex_char(d) as u32 <= 0x7f,
{
}

/// Reading back the hyphenated text of an identifier gives the identifier.
pub proof fn lemma_uuid_text_round_trip(id: u128)
    ensures
        uuid_text(id).len() == 36,
        hyphenated_uuid_value(uuid_text(id)) == Some(id),
        uuid_parse(uuid_text(id)) == Some(id),
{
    let digits = hex_digits(id as nat, 32);
    lemma_hex_digits(id as nat, 32);
    let h = uuid_hex(id);
    let s = uuid_text(id);
    assert(hyphenated_hex(s) =~= h);
    assert forall|i: int| 0 <= i < 32 implies (#[trigger] hex_char_value(h[i])) is Some && hex_char_value(
        h[i],
    ).unwrap() == digits[i] by {
        lemma_hex_char_round_trip(digits[i]);
    }
    assert(h.map_values(|c: char| hex_char_value(c).unwrap()) =~= digits);
    assert forall|i: int| 0 <= i < s.len() implies (#[trigger] s[i]) as u32 <= 0x7f by {
        if i < 8 {
            lemma_hex_char_round_trip(digits[i]);
        } else if 8 < i < 13 {
            lemma_hex_char_round_trip(digits[i - 1]);
        } else if 13 < i < 18 {
            lemma_hex_char_round_trip(digits[i - 2]);
        } else if 18 < i < 23 {
            lemma_hex_char_round_trip(digits[i - 3]);
        } else if 23 < i {
            lemma_hex_char_round_trip(digits[i - 4]);
        }
    }
    reveal_with_fuel(pow16, 33);
    assert(pow16(32) == 0x1_0000_0000_0000_0000_0000_0000_0000_0000nat);
}

#[verifier::external_body]
/// Calls `uuid::Uuid::new_v4`, which draws a random identifier and then fixes
/// its version digit to 4 and its variant bits to `10`; the identifier is
/// taken as the big-endian number of its bytes (`Uuid::as_u128`). Which
/// identifier comes out is left open: it rests on chance.
pub(crate) fn random_uuid() -> (id: u128)
    ensures
        (id >> 76u128) & 0xfu128 == 4,
        (id >> 62u128) & 0x3u128 == 2,
{
    uuid::Uuid::new_v4().as_u128()
}

#[verifier::external_body]
/// Calls `uuid::Uuid::to_string` on `Uuid::from_u128(id)`; the uuid crate
/// displays an identifier as its hyphenated lower-case hex text.
pub(crate) fn format_uuid(id: u128) -> (s: String)
    ensures
        s@ == uuid_text(id),
{
    uuid::Uuid::from_u128(id).to_string()
}

#[verifier::external_body]
/// Calls `uuid::Uuid::parse_str`, which takes the forms that `uuid_parse`
/// lists: it checks the text's byte length (32, 36, 38 or 45) and then every
/// byte, so a non-ASCII character is always refused.
pub(crate) fn parse_uuid(s: &str) -> (r: Option<u128>)
    ensures
        r == uuid_parse(s@),
{
    match uuid::Uuid::parse_str(s) {
        Ok(u) => Some(u.as_u128()),
        Err(_) => None,
    }
}

} // verus!
