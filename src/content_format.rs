use vstd::prelude::*;
use crate::error::ClientError;

verus! {

/// A CoAP content-format: the registry code of a payload's media type.
#[derive(Debug, Clone, Copy, PartialEq, Eq, Structural)]
pub struct ContentFormat {
    pub code: u16,
}

/// The codes of the CoAP content-format registry.
pub open spec fn is_registered_code(n: int) -> bool {
    set![
        0int, 16, 17, 18, 19, 21, 22, 23, 40, 41, 42, 47, 50, 51, 52, 60, 61, 62, 63,
        96, 97, 98, 101, 102, 110, 111, 112, 113, 114, 115, 140, 256, 271, 272, 280,
        281, 284, 285, 286, 287, 290, 291, 310, 311, 320, 322, 340, 341, 432, 836,
        10000, 10001, 10002, 11050, 11060, 11542, 11543, 11544, 20000, 30000,
    ].contains(n)
}

/// The media types that may be named instead of a number, with their codes.
pub open spec fn media_type_code(s: Seq<char>) -> Option<u16> {
    if s == "text/plain"@ {
        Some(0)
    } else if s == "application/json"@ {
        Some(50)
    } else if s == "application/xml"@ {
        Some(41)
    } else if s == "application/cbor"@ {
        Some(60)
    } else if s == "application/octet-stream"@ {
        Some(42)
    } else {
        None
    }
}

pub open spec fn is_digit(c: char) -> bool {
    '0' <= c && c <= '9'
}

pub open spec fn all_digits(s: Seq<char>) -> bool {
    forall|i: int| 0 <= i < s.len() ==> is_digit(#[trigger] s[i])
}

/// The value of a string of decimal digits, most significant first.
pub open spec fn decimal_value(s: Seq<char>) -> nat
    decreases s.len(),
{
    if s.len() == 0 {
        0
    } else {
        decimal_value(s.drop_last()) * 10 + (s.last() as nat - '0' as nat) as nat
    }
}

/// The digits of a token once an optional leading `+` is set aside.
pub open spec fn numeral_digits(s: Seq<char>) -> Seq<char> {
    if s.len() > 0 && s[0] == '+' {
        s.drop_first()
    } else {
        s
    }
}

/// The value of an unsigned decimal numeral (an optional `+`, then at least
/// one digit) that fits in a `usize`; `None` for any other token.
pub open spec fn numeral_value(s: Seq<char>) -> Option<nat> {
    let d = numeral_digits(s);
    if d.len() > 0 && all_digits(d) && decimal_value(d) <= usize::MAX {
        Some(decimal_value(d))
    } else {
        None
    }
}

/// Whether a token is a non-negative decimal integer: an optional `+`, then
/// at least one digit, of any size.
pub open spec fn is_numeral(s: Seq<char>) -> bool {
    numeral_digits(s).len() > 0 && all_digits(numeral_digits(s))
}

/// What a content-format token stands for: a numeral is looked up in the
/// registry, anything else in the table of media types.
pub open spec fn translate(s: Seq<char>) -> Result<ContentFormat, ClientError> {
    if is_numeral(s) {
        let n = decimal_value(numeral_digits(s));
        if is_registered_code(n as int) {
            Ok(ContentFormat { code: n as u16 })
        } else {
            Err(ClientError::UnknownContentFormatCode)
        }
    } else {
        match media_type_code(s) {
            Some(c) => Ok(ContentFormat { code: c }),
            None => Err(ClientError::UnsupportedContentFormatString),
        }
    }
}

proof fn lemma_decimal_prefix_monotone(s: Seq<char>, j: int, k: int)
    requires
        0 <= j <= k <= s.len(),
        all_digits(s),
    ensures
        decimal_value(s.subrange(0, j)) <= decimal_value(s.subrange(0, k)),
    decreases k - j,
{
    if j < k {
        lemma_decimal_prefix_monotone(s, j, k - 1);
        assert(s.subrange(0, k).drop_last() =~= s.subrange(0, k - 1));
        assert(is_digit(s[k - 1]));
    }
}

/// Whether two strings hold the same characters.
pub fn str_eq(a: &str, b: &str) -> (r: bool)
    ensures
        r == (a@ == b@),
{
    let n = a.unicode_len();
    if n != b.unicode_len() {
        return false;
    }
    let mut i: usize = 0;
    while i < n
        invariant
            n == a@.len(),
            n == b@.len(),
            i <= n,
            a@.subrange(0, i as int) == b@.subrange(0, i as int),
        decreases n - i,
    {
        if a.get_char(i) != b.get_char(i) {
            return false;
        }
        assert(a@.subrange(0, i + 1) =~= a@.subrange(0, i as int).push(a@[i as int]));
        assert(b@.subrange(0, i + 1) =~= b@.subrange(0, i as int).push(b@[i as int]));
        i = i + 1;
    }
    assert(a@ =~= a@.subrange(0, n as int));
    assert(b@ =~= b@.subrange(0, n as int));
    true
}

/// Whether a token is a non-negative decimal integer.
pub fn is_numeral_token(s: &str) -> (r: bool)
    ensures
        r == is_numeral(s@),
{
    let n = s.unicode_len();
    let start: usize = if n > 0 && s.get_char(0) == '+' { 1 } else { 0 };
    let ghost d = numeral_digits(s@);
    assert(d =~= s@.subrange(start as int, n as int));
    if start == n {
        return false;
    }
    let mut i: usize = start;
    while i < n
        invariant
            n == s@.len(),
            start <= i <= n,
            d == s@.subrange(start as int, n as int),
            d == numeral_digits(s@),
            d.len() > 0,
            forall|j: int| 0 <= j < i - start ==> is_digit(#[trigger] d[j]),
        decreases n - i,
    {
        let c = s.get_char(i);
        if c < '0' || c > '9' {
            assert(d[i - start] == s@[i as int]);
            assert(!is_digit(d[i - start]));
            assert(!all_digits(d));
            return false;
        }
        assert(d[i - start] == c);
        i = i + 1;
    }
    true
}

/// Reads an unsigned decimal numeral as `str::parse::<usize>` does: an
/// optional `+`, then one or more ASCII digits whose value fits in a `usize`.
pub fn parse_numeral(s: &str) -> (r: Option<usize>)
    ensures
        match numeral_value(s@) {
            Some(v) => r == Some(v as usize),
            None => r is None,
        },
{
    let n = s.unicode_len();
    let start: usize = if n > 0 && s.get_char(0) == '+' { 1 } else { 0 };
    let ghost d = numeral_digits(s@);
    assert(d =~= s@.subrange(start as int, n as int));
    if start == n {
        return None;
    }
    let mut acc: usize = 0;
    let mut i: usize = start;
    while i < n
        invariant
            n == s@.len(),
            start <= i <= n,
            d == s@.subrange(start as int, n as int),
            d == numeral_digits(s@),
            d.len() > 0,
            all_digits(d.subrange(0, i - start)),
            acc as nat == decimal_value(d.subrange(0, i - start)),
        decreases n - i,
    {
        let c = s.get_char(i);
        if c < '0' || c > '9' {
            assert(d[i - start] == s@[i as int]);
            assert(!is_digit(d[i - start]));
            assert(!all_digits(d));
            return None;
        }
        let digit: usize = (c as u32 - '0' as u32) as usize;
        let ghost next = d.subrange(0, i - start + 1);
        assert(next.drop_last() =~= d.subrange(0, i - start));
        assert(decimal_value(next) == acc * 10 + digit);
        if acc > (usize::MAX - digit) / 10 {
            assert(decimal_value(next) > usize::MAX) by (nonlinear_arith)
                requires
                    decimal_value(next) == acc * 10 + digit,
                    acc > (usize::MAX - digit) / 10,
                    digit <= 9,
            ;
            proof {
                if all_digits(d) {
                    lemma_decimal_prefix_monotone(d, i - start + 1, d.len() as int);
                    assert(d.subrange(0, d.len() as int) =~= d);
                    assert(decimal_value(d) > usize::MAX);
                }
            }
            return None;
        }
        assert(acc * 10 + digit <= usize::MAX) by (nonlinear_arith)
            requires
                acc <= (usize::MAX - digit) / 10,
                digit <= 9,
        ;
        acc = acc * 10 + digit;
        i = i + 1;
    }
    assert(d.subrange(0, n - start) =~= d);
    Some(acc)
}

/// Relies on coap-lite's `TryFrom<usize>` for its `ContentFormat`, which
/// succeeds on exactly the registry codes of `is_registered_code`.
#[verifier::external_body]
fn registry_accepts(n: usize) -> (r: bool)
    ensures
        r == is_registered_code(n as int),
{
    coap_lite::ContentFormat::try_from(n).is_ok()
}

/// Translates a content-format token, either a registry number or a media
/// type, into the content-format it names.
pub fn parse_content_format(s: &str) -> (r: Result<ContentFormat, ClientError>)
    ensures
        r == translate(s@),
{
    if is_numeral_token(s) {
        match parse_numeral(s) {
            Some(n) => {
                if registry_accepts(n) {
                    Ok(ContentFormat { code: n as u16 })
                } else {
                    Err(ClientError::UnknownContentFormatCode)
                }
            },
            None => {
                assert(decimal_value(numeral_digits(s@)) > usize::MAX);
                assert(!is_registered_code(decimal_value(numeral_digits(s@)) as int));
                Err(ClientError::UnknownContentFormatCode)
            },
        }
    } else if str_eq(s, "text/plain") {
        Ok(ContentFormat { code: 0 })
    } else if str_eq(s, "application/json") {
        Ok(ContentFormat { code: 50 })
    } else if str_eq(s, "application/xml") {
        Ok(ContentFormat { code: 41 })
    } else if str_eq(s, "application/cbor") {
        Ok(ContentFormat { code: 60 })
    } else if str_eq(s, "application/octet-stream") {
        Ok(ContentFormat { code: 42 })
    } else {
        Err(ClientError::UnsupportedContentFormatString)
    }
}

/// The 16-bit wire value of a content-format.
pub fn content_format_as_u16(cf: ContentFormat) -> (r: u16)
    ensures
        r == cf.code,
{
    cf.code
}

/// A media type of the table and any numeral of its registry code name the
/// same content-format: the two forms of a token agree.
pub proof fn lemma_media_type_agrees_with_code(s: Seq<char>, t: Seq<char>)
    requires
        media_type_code(s) is Some,
        is_numeral(t),
        decimal_value(numeral_digits(t)) == media_type_code(s).unwrap() as nat,
    ensures
        translate(s) is Ok,
        translate(s) == translate(t),
{
    reveal_strlit("text/plain");
    reveal_strlit("application/json");
    reveal_strlit("application/xml");
    reveal_strlit("application/cbor");
    reveal_strlit("application/octet-stream");
    assert(!is_digit(s[0]));
    assert(s[0] != '+');
    assert(numeral_digits(s) == s);
    assert(!all_digits(s));
    assert(!is_numeral(s));
}

} // verus!
