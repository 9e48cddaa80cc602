use vstd::prelude::*;

verus! {

/// Characters that sanitizing always removes: path separators and the other
/// characters Windows refuses, and control characters.
pub open spec fn is_forbidden_in_file_name(c: char) -> bool {
    let n = c as u32;
    ||| c == '/'
    ||| c == '?'
    ||| c == '<'
    ||| c == '>'
    ||| c == '\\'
    ||| c == ':'
    ||| c == '*'
    ||| c == '|'
    ||| c == '"'
    ||| n <= 0x1f
    ||| 0x80 <= n <= 0x9f
}

/// Whether `s` holds no character that sanitizing removes and is neither
/// `.` nor `..`: joined to a directory, it names an entry directly inside it
/// (or, when empty, the directory itself).
pub open spec fn is_plain_file_name(s: Seq<char>) -> bool {
    &&& forall|i: int| 0 <= i < s.len() ==> !is_forbidden_in_file_name(#[trigger] s[i])
    &&& s != seq!['.']
    &&& s != seq!['.', '.']
}

/// `s` without its forbidden characters.
pub open spec fn without_forbidden(s: Seq<char>) -> Seq<char>
    decreases s.len(),
{
    if s.len() == 0 {
        s
    } else {
        let rest = without_forbidden(s.drop_last());
        if is_forbidden_in_file_name(s.last()) {
            rest
        } else {
            rest.push(s.last())
        }
    }
}

/// Whether `s` is one or more dots and nothing else.
pub open spec fn is_all_dots(s: Seq<char>) -> bool {
    s.len() > 0 && forall|i: int| 0 <= i < s.len() ==> s[i] == '.'
}

/// Whether `c` is the lower-case ASCII character `p`, or its upper-case form.
pub open spec fn same_letter(c: char, p: char) -> bool {
    c == p || ('A' as u32 <= c as u32 <= 'Z' as u32 && c as u32 + 32 == p as u32)
}

/// Whether `s` starts with the lower-case word `w`, ignoring ASCII case.
pub open spec fn starts_with_word(s: Seq<char>, w: Seq<char>) -> bool {
    s.len() >= w.len() && forall|i: int| 0 <= i < w.len() ==> #[trigger] same_letter(s[i], w[i])
}

/// Whether `s` ends at `k` or has a dot there.
pub open spec fn ends_or_dot_at(s: Seq<char>, k: int) -> bool {
    s.len() == k || (s.len() > k && s[k] == '.')
}

/// Whether `s` is a Windows device name (`con`, `prn`, `aux`, `nul`, `com0`
/// to `com9`, `lpt0` to `lpt9`, in any ASCII case), alone or followed by a dot
/// and anything.
pub open spec fn is_windows_device_name(s: Seq<char>) -> bool {
    ||| (starts_with_word(s, seq!['c', 'o', 'n']) || starts_with_word(s, seq!['p', 'r', 'n'])
        || starts_with_word(s, seq!['a', 'u', 'x']) || starts_with_word(s, seq!['n', 'u', 'l']))
        && ends_or_dot_at(s, 3)
    ||| (starts_with_word(s, seq!['c', 'o', 'm']) || starts_with_word(s, seq!['l', 'p', 't']))
        && s.len() >= 4 && '0' as u32 <= s[3] as u32 <= '9' as u32 && ends_or_dot_at(s, 4)
}

/// `s` without its trailing dots and spaces.
pub open spec fn without_trailing_dots_spaces(s: Seq<char>) -> Seq<char>
    decreases s.len(),
{
    if s.len() > 0 && (s.last() == '.' || s.last() == ' ') {
        without_trailing_dots_spaces(s.drop_last())
    } else {
        s
    }
}

/// How many bytes UTF-8 takes for `c`.
pub open spec fn utf8_len(c: char) -> nat {
    let n = c as u32;
    if n < 0x80 {
        1
    } else if n < 0x800 {
        2
    } else if n < 0x10000 {
        3
    } else {
        4
    }
}

/// How many bytes UTF-8 takes for `s`.
pub open spec fn utf8_bytes(s: Seq<char>) -> nat
    decreases s.len(),
{
    if s.len() == 0 {
        0
    } else {
        utf8_bytes(s.drop_last()) + utf8_len(s.last())
    }
}

/// The longest prefix of `s` that fits in 255 bytes of UTF-8.
pub open spec fn fit_255_bytes(s: Seq<char>) -> Seq<char>
    decreases s.len(),
{
    if s.len() == 0 || utf8_bytes(s) <= 255 {
        s
    } else {
        fit_255_bytes(s.drop_last())
    }
}

/// What `sanitize_filename::sanitize_with_options` makes of `name`, with
/// Windows rules or not, truncation on and an empty replacement: the forbidden
/// characters go; a name of dots only becomes empty; under Windows rules a
/// device name becomes empty and trailing dots and spaces go; the result is
/// cut to at most 255 bytes.
pub open spec fn sanitized_name(name: Seq<char>, windows: bool) -> Seq<char> {
    let a = without_forbidden(name);
    let b = if is_all_dots(a) {
        Seq::empty()
    } else {
        a
    };
    let c = if windows {
        without_trailing_dots_spaces(
            if is_windows_device_name(b) {
                Seq::empty()
            } else {
                b
            },
        )
    } else {
        b
    };
    fit_255_bytes(c)
}

#[verifier::external_body]
/// Calls `sanitize_filename::sanitize_with_options` with `windows` as given,
/// truncation on and an empty replacement (the options that `sanitize` uses on
/// the platform that `windows` names). The crate removes the matches of its
/// illegal-character and control-character patterns, replaces a name that is
/// dots only, under Windows rules also a device name and then the trailing
/// dots and spaces, and cuts the text at the last character boundary within
/// 255 bytes, which is what `sanitized_name` states.
pub(crate) fn sanitize_title(name: &str, windows: bool) -> (r: String)
    ensures
        r@ == sanitized_name(name@, windows),
{
    let options = sanitize_filename::Options { windows, truncate: true, replacement: "" };
    sanitize_filename::sanitize_with_options(name, options)
}

proof fn lemma_without_forbidden_is_plain(s: Seq<char>)
    ensures
        has_no_forbidden(without_forbidden(s)),
    decreases s.len(),
{
    if s.len() > 0 {
        lemma_without_forbidden_is_plain(s.drop_last());
        let rest = without_forbidden(s.drop_last());
        if !is_forbidden_in_file_name(s.last()) {
            assert forall|i: int| 0 <= i < rest.push(s.last()).len() implies !is_forbidden_in_file_name(
                #[trigger] rest.push(s.last())[i],
            ) by {
                if i < rest.len() {
                    assert(rest.push(s.last())[i] == rest[i]);
                }
            }
        }
    }
}

/// Whether no character of `s` is forbidden.
spec fn has_no_forbidden(s: Seq<char>) -> bool {
    forall|i: int| 0 <= i < s.len() ==> !is_forbidden_in_file_name(#[trigger] s[i])
}

proof fn lemma_prefix_of_plain(s: Seq<char>, k: int)
    requires
        has_no_forbidden(s),
        0 <= k <= s.len(),
    ensures
        has_no_forbidden(s.subrange(0, k)),
{
    assert forall|i: int| 0 <= i < k implies !is_forbidden_in_file_name(#[trigger] s.subrange(0, k)[i]) by {
        assert(s.subrange(0, k)[i] == s[i]);
    }
}

proof fn lemma_trailing_strip_is_prefix(s: Seq<char>)
    ensures
        without_trailing_dots_spaces(s).len() <= s.len(),
        without_trailing_dots_spaces(s) == s.subrange(0, without_trailing_dots_spaces(s).len() as int),
    decreases s.len(),
{
    if s.len() > 0 && (s.last() == '.' || s.last() == ' ') {
        lemma_trailing_strip_is_prefix(s.drop_last());
        let r = without_trailing_dots_spaces(s.drop_last());
        assert(s.drop_last().subrange(0, r.len() as int) =~= s.subrange(0, r.len() as int));
    } else {
        assert(s.subrange(0, s.len() as int) =~= s);
    }
}

proof fn lemma_fit_is_prefix(s: Seq<char>)
    ensures
        fit_255_bytes(s).len() <= s.len(),
        fit_255_bytes(s) == s.subrange(0, fit_255_bytes(s).len() as int),
        utf8_bytes(fit_255_bytes(s)) <= 255,
    decreases s.len(),
{
    if s.len() == 0 || utf8_bytes(s) <= 255 {
        assert(s.subrange(0, s.len() as int) =~= s);
    } else {
        lemma_fit_is_prefix(s.drop_last());
        let r = fit_255_bytes(s.drop_last());
        assert(s.drop_last().subrange(0, r.len() as int) =~= s.subrange(0, r.len() as int));
    }
}

proof fn lemma_bytes_at_least_chars(s: Seq<char>)
    ensures
        utf8_bytes(s) >= s.len(),
    decreases s.len(),
{
    if s.len() > 0 {
        lemma_bytes_at_least_chars(s.drop_last());
    }
}

proof fn lemma_strip_ends_plainly(s: Seq<char>)
    ensures
        without_trailing_dots_spaces(s).len() == 0 || (without_trailing_dots_spaces(s).last() != '.'
            && without_trailing_dots_spaces(s).last() != ' '),
    decreases s.len(),
{
    if s.len() > 0 && (s.last() == '.' || s.last() == ' ') {
        lemma_strip_ends_plainly(s.drop_last());
    }
}

/// Cutting a text longer than 255 bytes keeps at least 252 of them, since no
/// character takes more than four.
proof fn lemma_fit_keeps_most(s: Seq<char>)
    requires
        utf8_bytes(s) > 255,
    ensures
        utf8_bytes(fit_255_bytes(s)) >= 252,
    decreases s.len(),
{
    if utf8_bytes(s.drop_last()) > 255 {
        lemma_fit_keeps_most(s.drop_last());
    } else {
        assert(fit_255_bytes(s.drop_last()) == s.drop_last());
    }
}

/// A sanitized name holds no forbidden character, is neither `.` nor `..`,
/// and has at most 255 characters.
pub proof fn lemma_sanitized_name_is_plain(name: Seq<char>, windows: bool)
    ensures
        is_plain_file_name(sanitized_name(name, windows)),
        sanitized_name(name, windows).len() <= 255,
{
    let one_dot = seq!['.'];
    let two_dots = seq!['.', '.'];
    assert(is_all_dots(one_dot));
    assert(is_all_dots(two_dots));
    let a = without_forbidden(name);
    lemma_without_forbidden_is_plain(name);
    let b = if is_all_dots(a) {
        Seq::<char>::empty()
    } else {
        a
    };
    assert(has_no_forbidden(b));
    assert(b != one_dot && b != two_dots);
    let c = if windows {
        let d = if is_windows_device_name(b) {
            Seq::<char>::empty()
        } else {
            b
        };
        assert(has_no_forbidden(d));
        lemma_trailing_strip_is_prefix(d);
        lemma_prefix_of_plain(d, without_trailing_dots_spaces(d).len() as int);
        lemma_strip_ends_plainly(d);
        let e = without_trailing_dots_spaces(d);
        assert(e != one_dot && e != two_dots) by {
            if e.len() > 0 {
                assert(e.last() != '.');
                assert(one_dot.last() == '.');
                assert(two_dots.last() == '.');
            }
        }
        e
    } else {
        b
    };
    assert(has_no_forbidden(c));
    assert(c != one_dot && c != two_dots);
    lemma_fit_is_prefix(c);
    lemma_prefix_of_plain(c, fit_255_bytes(c).len() as int);
    lemma_bytes_at_least_chars(fit_255_bytes(c));
    let f = fit_255_bytes(c);
    if utf8_bytes(c) > 255 {
        lemma_fit_keeps_most(c);
        reveal_with_fuel(utf8_bytes, 3);
        assert(one_dot.drop_last() =~= Seq::<char>::empty());
        assert(two_dots.drop_last() =~= one_dot);
        assert(utf8_bytes(one_dot) == 1);
        assert(utf8_bytes(two_dots) == 2);
    }
    assert(f != one_dot && f != two_dots);
}

} // verus!
