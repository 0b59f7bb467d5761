//! Checks that keep requests path-safe and bounded.

use vstd::prelude::*;

use crate::error::TaskmarketError;
use crate::text::{
    chars_of, is_hex_digit, lemma_trim_idempotent, lower_text, lowercase_str, string_views, trim,
    trim_str,
};

verus! {

/// The largest number of blocked terms that one screening accepts.
pub const MAX_BLOCKED_TERMS: usize = 20;

/// The largest number of characters of one blocked term.
pub const MAX_TERM_CHARS: usize = 64;

/// The number of characters of a response body kept in an error message.
pub const MAX_MESSAGE_CHARS: usize = 1024;

/// `value` can stand as one segment of a URL path: it is non-empty and holds
/// no `/`, `?` or `#`.
pub open spec fn is_path_safe(value: Seq<char>) -> bool {
    &&& value.len() > 0
    &&& forall|i: int| 0 <= i < value.len() ==> #[trigger] value[i] != '/' && value[i] != '?'
        && value[i] != '#'
}

/// `address` is a 20-byte EVM address: `0x` followed by 40 hexadecimal digits.
pub open spec fn is_evm_address(address: Seq<char>) -> bool {
    &&& address.len() == 42
    &&& address[0] == '0'
    &&& address[1] == 'x'
    &&& forall|i: int| 2 <= i < 42 ==> is_hex_digit(#[trigger] address[i])
}

/// A blocked term, once trimmed, holds 1 to 64 characters.
pub open spec fn is_valid_term(term: Seq<char>) -> bool {
    0 < trim(term).len() <= 64
}

/// The normalized form of a blocked term: trimmed and lowercased.
pub open spec fn normalized_term(term: Seq<char>) -> Seq<char> {
    lower_text(trim(term))
}

/// A message cut to its first 1024 characters, with an ellipsis when cut.
pub open spec fn bounded(message: Seq<char>) -> Seq<char> {
    if message.len() <= 1024 {
        message
    } else {
        message.take(1024) + "…"@
    }
}

/// Checks that `value` can be used as a path segment; `name` names the argument
/// in the error.
pub fn validate_path_id(value: &str, name: &str) -> (out: Result<(), TaskmarketError>)
    ensures
        is_path_safe(value@) ==> out is Ok,
        !is_path_safe(value@) ==> (out matches Err(TaskmarketError::InvalidArgument(m)) && m@
            == name@ + " must be a non-empty path-safe identifier"@),
{
    let v = chars_of(value);
    let n = v.len();
    let mut ok = n > 0;
    let mut i: usize = 0;
    while i < n
        invariant
            n == v@.len(),
            v@ == value@,
            i <= n,
            ok == (n > 0 && forall|j: int| 0 <= j < i ==> v@[j] != '/' && v@[j] != '?' && v@[j]
                != '#'),
        decreases n - i,
    {
        let c = v[i];
        if c == '/' || c == '?' || c == '#' {
            ok = false;
        }
        i = i + 1;
    }
    if !ok {
        let mut m = String::from_str(name);
        m.append(" must be a non-empty path-safe identifier");
        return Err(TaskmarketError::InvalidArgument(m));
    }
    Ok(())
}

/// Whether `c` is an ASCII hexadecimal digit.
fn is_hex_digit_char(c: char) -> (b: bool)
    ensures
        b == is_hex_digit(c),
{
    ('0' <= c && c <= '9') || ('a' <= c && c <= 'f') || ('A' <= c && c <= 'F')
}

/// Checks that `address` is a 0x-prefixed 20-byte EVM address.
pub fn validate_address(address: &str) -> (out: Result<(), TaskmarketError>)
    ensures
        is_evm_address(address@) ==> out is Ok,
        !is_evm_address(address@) ==> (out matches Err(TaskmarketError::InvalidArgument(m)) && m@
            == "address must be a 20-byte 0x-prefixed EVM address"@),
{
    let v = chars_of(address);
    let mut ok = v.len() == 42;
    if ok {
        ok = v[0] == '0' && v[1] == 'x';
        let mut i: usize = 2;
        while i < 42
            invariant
                v@ == address@,
                v@.len() == 42,
                2 <= i <= 42,
                ok == (v@[0] == '0' && v@[1] == 'x' && forall|j: int| 2 <= j < i ==> is_hex_digit(
                    #[trigger] v@[j],
                )),
            decreases 42 - i,
        {
            if !is_hex_digit_char(v[i]) {
                ok = false;
            }
            i = i + 1;
        }
    }
    if !ok {
        return Err(
            TaskmarketError::InvalidArgument(
                String::from_str("address must be a 20-byte 0x-prefixed EVM address"),
            ),
        );
    }
    Ok(())
}

/// The terms given to a screening, by their characters (none is no terms).
pub open spec fn given_terms(terms: Option<&[String]>) -> Seq<Seq<char>> {
    match terms {
        Some(t) => string_views(t@),
        None => Seq::empty(),
    }
}

/// Every term is valid.
pub open spec fn all_terms_valid(ts: Seq<Seq<char>>) -> bool {
    forall|i: int| 0 <= i < ts.len() ==> is_valid_term(#[trigger] ts[i])
}

/// Validates and normalizes blocked terms: at most 20 terms, each of 1 to 64
/// characters once trimmed; the result holds each term trimmed and lowercased,
/// in the given order. No terms at all is the same as an empty list.
pub fn normalize_blocked_terms(terms: Option<&[String]>) -> (out: Result<
    Vec<String>,
    TaskmarketError,
>)
    ensures
        given_terms(terms).len() > 20 ==> (out matches Err(TaskmarketError::InvalidArgument(m))
            && m@ == "blocked_terms accepts at most 20 entries"@),
        given_terms(terms).len() <= 20 && !all_terms_valid(given_terms(terms)) ==> (out matches Err(
            TaskmarketError::InvalidArgument(m),
        ) && m@ == "blocked terms must contain 1 to 64 characters"@),
        given_terms(terms).len() <= 20 && all_terms_valid(given_terms(terms)) ==> (out matches Ok(
            v,
        ) && string_views(v@) == given_terms(terms).map_values(|t: Seq<char>| normalized_term(t))),
{
    let ts: &[String] = match terms {
        Some(t) => t,
        None => &[],
    };
    let ghost views = string_views(ts@);
    assert(views == given_terms(terms));
    let n = ts.len();
    if n > MAX_BLOCKED_TERMS {
        return Err(
            TaskmarketError::InvalidArgument(
                String::from_str("blocked_terms accepts at most 20 entries"),
            ),
        );
    }
    let mut out: Vec<String> = Vec::new();
    let mut i: usize = 0;
    while i < n
        invariant
            n == ts@.len(),
            n <= 20,
            views == string_views(ts@),
            views == given_terms(terms),
            i <= n,
            forall|j: int| 0 <= j < i ==> is_valid_term(#[trigger] views[j]),
            string_views(out@) == views.take(i as int).map_values(
                |t: Seq<char>| normalized_term(t),
            ),
        decreases n - i,
    {
        let term = trim_str(ts[i].as_str());
        let len = term.unicode_len();
        assert(views[i as int] == ts@[i as int]@);
        if len == 0 || len > MAX_TERM_CHARS {
            assert(trim(views[i as int]) == term@);
            assert(!is_valid_term(views[i as int]));
            return Err(
                TaskmarketError::InvalidArgument(
                    String::from_str("blocked terms must contain 1 to 64 characters"),
                ),
            );
        }
        let lowered = lowercase_str(term);
        let ghost before = out@;
        out.push(lowered);
        assert(string_views(out@) =~= string_views(before).push(lowered@));
        assert(views.take(i + 1) =~= views.take(i as int).push(views[i as int]));
        assert(views.take(i + 1).map_values(|t: Seq<char>| normalized_term(t)) =~= views.take(
            i as int,
        ).map_values(|t: Seq<char>| normalized_term(t)).push(normalized_term(views[i as int])));
        i = i + 1;
    }
    assert(views.take(n as int) =~= views);
    Ok(out)
}

/// Cuts a response body to its first 1024 characters, appending `…` when
/// anything was cut.
pub fn bounded_message(message: &str) -> (out: String)
    ensures
        out@ == bounded(message@),
{
    let n = message.unicode_len();
    if n <= MAX_MESSAGE_CHARS {
        String::from_str(message)
    } else {
        let mut s = String::from_str(message.substring_char(0, MAX_MESSAGE_CHARS));
        s.append("…");
        assert(message@.subrange(0, 1024) =~= message@.take(1024));
        s
    }
}

/// A bounded message never exceeds 1025 characters, always begins with the
/// message's own first characters (up to 1024 of them), and is the message
/// itself when that is short enough.
pub proof fn lemma_bounded_message(message: Seq<char>)
    ensures
        bounded(message).len() <= 1025,
        message.len() <= 1024 ==> bounded(message) == message,
        message.len() > 1024 ==> bounded(message).take(1024) == message.take(1024),
        message.len() > 1024 ==> bounded(message).len() == 1025,
{
    reveal_strlit("…");
    if message.len() > 1024 {
        assert((message.take(1024) + "…"@).take(1024) =~= message.take(1024));
    }
}

/// Surrounding white space never changes whether a blocked term is accepted
/// nor what it normalizes to.
pub proof fn lemma_terms_ignore_surrounding_white_space(term: Seq<char>)
    ensures
        is_valid_term(trim(term)) == is_valid_term(term),
        normalized_term(trim(term)) == normalized_term(term),
{
    lemma_trim_idempotent(term);
}

/// The hexadecimal digits are exactly the 22 characters `0`-`9`, `a`-`f` and
/// `A`-`F`.
pub proof fn lemma_hex_digits(c: char)
    ensures
        is_hex_digit(c) <==> set![
            '0', '1', '2', '3', '4', '5', '6', '7', '8', '9',
            'a', 'b', 'c', 'd', 'e', 'f',
            'A', 'B', 'C', 'D', 'E', 'F',
        ].contains(c),
{
}

/// An address is accepted exactly when it is `0x` followed by 40 characters,
/// each one of `0`-`9`, `a`-`f` or `A`-`F`; so, for example, `0x` and forty
/// `f`s is an address.
pub proof fn lemma_evm_address_shape(address: Seq<char>)
    ensures
        is_evm_address(address) <==> {
            &&& address.len() == 42
            &&& address[0] == '0'
            &&& address[1] == 'x'
            &&& forall|i: int|
                2 <= i < 42 ==> set![
                    '0', '1', '2', '3', '4', '5', '6', '7', '8', '9',
                    'a', 'b', 'c', 'd', 'e', 'f',
                    'A', 'B', 'C', 'D', 'E', 'F',
                ].contains(#[trigger] address[i])
        },
{
    assert forall|i: int| 2 <= i < address.len() implies is_hex_digit(#[trigger] address[i])
        <==> set![
        '0', '1', '2', '3', '4', '5', '6', '7', '8', '9',
        'a', 'b', 'c', 'd', 'e', 'f',
        'A', 'B', 'C', 'D', 'E', 'F',
    ].contains(address[i]) by {
        lemma_hex_digits(address[i]);
    }
}

/// An identifier is path-safe exactly when it is non-empty and contains none
/// of `/`, `?` and `#`; its length is otherwise free.
pub proof fn lemma_path_safe_chars(value: Seq<char>)
    ensures
        is_path_safe(value) <==> (value.len() > 0 && !value.contains('/') && !value.contains('?')
            && !value.contains('#')),
{
    if value.len() > 0 && !value.contains('/') && !value.contains('?') && !value.contains('#') {
        assert forall|i: int| 0 <= i < value.len() implies #[trigger] value[i] != '/' && value[i]
            != '?' && value[i] != '#' by {
            if value[i] == '/' {
                assert(value.contains('/'));
            }
            if value[i] == '?' {
                assert(value.contains('?'));
            }
            if value[i] == '#' {
                assert(value.contains('#'));
            }
        }
    }
}

/// Joining two path-safe identifiers gives a path-safe identifier, so path
/// safety holds at every length.
pub proof fn lemma_path_safe_concat(a: Seq<char>, b: Seq<char>)
    requires
        is_path_safe(a),
        is_path_safe(b),
    ensures
        is_path_safe(a + b),
{
    assert forall|i: int| 0 <= i < (a + b).len() implies #[trigger] (a + b)[i] != '/' && (a
        + b)[i] != '?' && (a + b)[i] != '#' by {
        if i < a.len() {
            assert((a + b)[i] == a[i]);
        } else {
            assert((a + b)[i] == b[i - a.len()]);
        }
    }
}

} // verus!
