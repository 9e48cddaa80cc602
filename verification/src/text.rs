use vstd::prelude::*;

verus! {

/// The characters that Rust's `char::is_whitespace` accepts: those with the
/// Unicode `White_Space` property.
pub open spec fn is_white_space(c: char) -> bool {
    let n = c as u32;
    ||| 0x09 <= n <= 0x0d
    ||| n == 0x20
    ||| n == 0x85
    ||| n == 0xa0
    ||| n == 0x1680
    ||| 0x2000 <= n <= 0x200a
    ||| n == 0x2028
    ||| n == 0x2029
    ||| n == 0x202f
    ||| n == 0x205f
    ||| n == 0x3000
}

/// Index of the first character at or after `i` that is not white space
/// (or the length of `s` when there is none).
pub open spec fn skip_white_from(s: Seq<char>, i: int) -> int
    decreases s.len() - i,
{
    if 0 <= i < s.len() && is_white_space(s[i]) {
        skip_white_from(s, i + 1)
    } else {
        i
    }
}

/// End of `s[lo..j]` once its trailing white space is removed.
pub open spec fn strip_white_until(s: Seq<char>, lo: int, j: int) -> int
    decreases j - lo,
{
    if lo < j && j <= s.len() && is_white_space(s[j - 1]) {
        strip_white_until(s, lo, j - 1)
    } else {
        j
    }
}

/// `s` without its leading and trailing white space, as `str::trim` gives it.
pub open spec fn trimmed(s: Seq<char>) -> Seq<char> {
    let start = skip_white_from(s, 0);
    s.subrange(start, strip_white_until(s, start, s.len() as int))
}

/// Index of the first `sep` at or after `from`, or the length of `s`.
pub open spec fn field_end(s: Seq<char>, sep: char, from: int) -> int
    decreases s.len() - from,
{
    if from < 0 || from >= s.len() {
        s.len() as int
    } else if s[from] == sep {
        from
    } else {
        field_end(s, sep, from + 1)
    }
}

/// The `n`-th field of `s` split at each `sep` (counting from 0), starting the
/// search at `from`; `None` when `s` has fewer fields.
pub open spec fn field_from(s: Seq<char>, sep: char, from: int, n: nat) -> Option<Seq<char>>
    decreases n,
{
    let end = field_end(s, sep, from);
    if n == 0 {
        Some(s.subrange(from, end))
    } else if end >= s.len() {
        None
    } else {
        field_from(s, sep, end + 1, (n - 1) as nat)
    }
}

/// The `n`-th piece that `str::split(sep)` yields on `s`, if there is one.
pub open spec fn split_field(s: Seq<char>, sep: char, n: nat) -> Option<Seq<char>> {
    field_from(s, sep, 0, n)
}

/// The characters of `s`, in order.
pub fn chars_of(s: &str) -> (v: Vec<char>)
    ensures
        v@ == s@,
{
    let mut v: Vec<char> = Vec::new();
    for c in iter: s.chars()
        invariant
            v@ == iter.seq().take(iter.index()),
    {
        v.push(c);
    }
    v
}

/// Whether `c` is white space in the sense of `char::is_whitespace`.
pub fn white_space(c: char) -> (b: bool)
    ensures
        b == is_white_space(c),
{
    let n = c as u32;
    (0x09 <= n && n <= 0x0d) || n == 0x20 || n == 0x85 || n == 0xa0 || n == 0x1680 || (0x2000
        <= n && n <= 0x200a) || n == 0x2028 || n == 0x2029 || n == 0x202f || n == 0x205f || n
        == 0x3000
}

/// Whether the two texts hold the same characters.
pub fn same_text(a: &str, b: &str) -> (r: bool)
    ensures
        r == (a@ == b@),
{
    let x = String::from_str(a);
    let y = String::from_str(b);
    x == y
}

/// The characters `s[from..to]` as an owned string.
pub fn slice_text(s: &str, from: usize, to: usize) -> (r: String)
    requires
        from <= to <= s@.len(),
    ensures
        r@ == s@.subrange(from as int, to as int),
{
    String::from_str(s.substring_char(from, to))
}

/// `s` without leading or trailing white space, as `str::trim` returns it.
pub fn trim_text(s: &str) -> (r: String)
    ensures
        r@ == trimmed(s@),
{
    let cs = chars_of(s);
    let len = cs.len();
    let mut i: usize = 0;
    while i < len && white_space(cs[i])
        invariant
            cs@ == s@,
            len == s@.len(),
            i <= len,
            skip_white_from(s@, 0) == skip_white_from(s@, i as int),
        decreases len - i,
    {
        i = i + 1;
    }
    let mut j: usize = len;
    while j > i && white_space(cs[j - 1])
        invariant
            cs@ == s@,
            len == s@.len(),
            i <= j <= len,
            skip_white_from(s@, 0) == i,
            strip_white_until(s@, i as int, len as int) == strip_white_until(s@, i as int, j as int),
        decreases j - i,
    {
        j = j - 1;
    }
    slice_text(s, i, j)
}

/// Index of the first `sep` at or after `from` in `cs`, or its length.
fn find_sep(cs: &Vec<char>, sep: char, from: usize) -> (e: usize)
    requires
        from <= cs@.len(),
    ensures
        e == field_end(cs@, sep, from as int),
        from <= e <= cs@.len(),
{
    let mut k = from;
    while k < cs.len() && cs[k] != sep
        invariant
            from <= k <= cs@.len(),
            field_end(cs@, sep, from as int) == field_end(cs@, sep, k as int),
        decreases cs@.len() - k,
    {
        k = k + 1;
    }
    k
}

/// The first two pieces of `s` split at `sep`; the second is `None` when `s`
/// holds no `sep`.
pub fn first_two_fields(s: &str, sep: char) -> (r: (String, Option<String>))
    ensures
        Some(r.0@) == split_field(s@, sep, 0),
        match r.1 {
            Some(f) => split_field(s@, sep, 1) == Some(f@),
            None => split_field(s@, sep, 1) is None,
        },
{
    let cs = chars_of(s);
    let e1 = find_sep(&cs, sep, 0);
    let first = slice_text(s, 0, e1);
    if e1 >= cs.len() {
        (first, None)
    } else {
        let e2 = find_sep(&cs, sep, e1 + 1);
        let second = slice_text(s, e1 + 1, e2);
        assert(field_from(s@, sep, (e1 + 1) as int, 0) == Some(s@.subrange(e1 + 1, e2 as int)));
        (first, Some(second))
    }
}


/// The ASCII digit for `d` (taken modulo 10).
pub open spec fn decimal_digit(d: nat) -> char {
    ((d % 10) + 48) as char
}

/// `n` written in base ten without leading zeros, as `u64::to_string` gives it.
pub open spec fn decimal_text(n: nat) -> Seq<char>
    decreases n,
{
    if n < 10 {
        seq![decimal_digit(n)]
    } else {
        decimal_text(n / 10).push(decimal_digit(n % 10))
    }
}

/// The one-character text of the digit `d`.
fn digit_text(d: u64) -> (s: &'static str)
    requires
        d < 10,
    ensures
        s@ == seq![decimal_digit(d as nat)],
{
    let s = match d {
        0 => "0",
        1 => "1",
        2 => "2",
        3 => "3",
        4 => "4",
        5 => "5",
        6 => "6",
        7 => "7",
        8 => "8",
        _ => "9",
    };
    proof {
        reveal_strlit("0");
        reveal_strlit("1");
        reveal_strlit("2");
        reveal_strlit("3");
        reveal_strlit("4");
        reveal_strlit("5");
        reveal_strlit("6");
        reveal_strlit("7");
        reveal_strlit("8");
        reveal_strlit("9");
    }
    s
}

/// `n` in base ten, as `n.to_string()` writes it.
pub fn decimal_string(n: u64) -> (s: String)
    ensures
        s@ == decimal_text(n as nat),
    decreases n,
{
    if n < 10 {
        String::from_str(digit_text(n))
    } else {
        let mut s = decimal_string(n / 10);
        s.append(digit_text(n % 10));
        s
    }
}

} // verus!
