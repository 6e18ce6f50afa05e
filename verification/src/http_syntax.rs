//! What the `http` crate accepts as a method, a URI, a header name and a
//! header value. The crate is asked; its answers are taken on trust, and
//! everything built on them is verified.

use vstd::prelude::*;
use crate::text::ascii_lowered;

verus! {

/// A character that may stand in a token: a letter or digit of ASCII, or
/// one of ``! # $ % & ' * + - . ^ _ ` | ~``.
pub open spec fn is_tchar(c: char) -> bool {
    ||| ('0' <= c && c <= '9')
    ||| ('A' <= c && c <= 'Z')
    ||| ('a' <= c && c <= 'z')
    ||| c == '!'
    ||| c == '#'
    ||| c == '$'
    ||| c == '%'
    ||| c == '&'
    ||| c == '\''
    ||| c == '*'
    ||| c == '+'
    ||| c == '-'
    ||| c == '.'
    ||| c == '^'
    ||| c == '_'
    ||| c == '`'
    ||| c == '|'
    ||| c == '~'
}

/// Every character of `text` may stand in a token.
pub open spec fn all_tchars(text: Seq<char>) -> bool {
    forall|i: int| 0 <= i < text.len() ==> is_tchar(#[trigger] text[i])
}

/// `text` is a token: one or more token characters. This is what a request
/// method has to be.
pub open spec fn is_token(text: Seq<char>) -> bool {
    text.len() > 0 && all_tchars(text)
}

/// The longest header name, in bytes.
pub open spec fn max_header_name_len() -> nat {
    65535
}

/// The header name that `name` stands for: `name` in ASCII lowercase, where
/// it is a token of at most 65535 characters.
pub open spec fn header_name_text(name: Seq<char>) -> Option<Seq<char>> {
    if is_token(name) && name.len() <= max_header_name_len() {
        Some(ascii_lowered(name))
    } else {
        None
    }
}

/// A character that may stand in a header value: a tab, or anything from
/// the space upwards but DEL.
pub open spec fn is_value_char(c: char) -> bool {
    c == '\t' || (c as u32 >= 32 && c as u32 != 127)
}

/// `value` can be a header value: it holds no control character but tabs.
pub open spec fn is_header_value(value: Seq<char>) -> bool {
    forall|i: int| 0 <= i < value.len() ==> is_value_char(#[trigger] value[i])
}

/// The text in which the `http` crate writes the URI that it reads from
/// `token`; none where it reads no URI from it.
pub uninterp spec fn http_uri_text(token: Seq<char>) -> Option<Seq<char>>;

/// Lowering the ASCII letters of a token leaves a token of the same length,
/// and lowering it again changes nothing. So a header name in canonical
/// form stands for itself.
pub proof fn lemma_canonical_name_is_stable(name: Seq<char>)
    requires
        header_name_text(name) is Some,
    ensures
        header_name_text(header_name_text(name)->0) == header_name_text(name),
{
    let lower = ascii_lowered(name);
    assert(lower.len() == name.len());
    assert forall|i: int| 0 <= i < lower.len() implies is_tchar(#[trigger] lower[i]) by {
        assert(is_tchar(name[i]));
    }
    assert(ascii_lowered(lower) =~= lower);
}

/// `http::Method::from_bytes` on the bytes of `token`, and `as_str` on the
/// method. A method is accepted exactly when it is a token, and then reads
/// as it was written.
#[verifier::external_body]
pub(crate) fn method_text(token: &str) -> (method: Option<String>)
    ensures
        method is Some <==> is_token(token@),
        method matches Some(m) ==> m@ == token@,
{
    match http::Method::from_bytes(token.as_bytes()) {
        Ok(method) => Some(method.as_str().to_string()),
        Err(_) => None,
    }
}

/// `http::Uri::from_str` on `token`, and the URI written out again through
/// its `Display`. What comes back is a function of the token alone; it is
/// known here only by its name.
#[verifier::external_body]
pub(crate) fn uri_text(token: &str) -> (uri: Option<String>)
    ensures
        match uri {
            Some(u) => http_uri_text(token@) == Some(u@),
            None => http_uri_text(token@) is None,
        },
{
    match token.parse::<http::Uri>() {
        Ok(uri) => Some(uri.to_string()),
        Err(_) => None,
    }
}

/// `http::header::HeaderName::from_bytes` on the bytes of `name`, and
/// `as_str` on the header name. A name is accepted exactly when it is a
/// token of at most 65535 bytes, and is then kept in ASCII lowercase.
#[verifier::external_body]
pub(crate) fn header_name(name: &str) -> (canonical: Option<String>)
    ensures
        match canonical {
            Some(n) => header_name_text(name@) == Some(n@),
            None => header_name_text(name@) is None,
        },
{
    match http::header::HeaderName::from_bytes(name.as_bytes()) {
        Ok(name) => Some(name.as_str().to_string()),
        Err(_) => None,
    }
}

/// `http::header::HeaderValue::from_str`. A value is accepted exactly when
/// each of its bytes is a tab or at least 32 and not 127.
#[verifier::external_body]
pub(crate) fn header_value_accepted(value: &str) -> (ok: bool)
    ensures
        ok == is_header_value(value@),
{
    http::header::HeaderValue::from_str(value).is_ok()
}

} // verus!
