//! Contracts for the outside functions that the library calls: std string
//! functions without a specification in vstd, `trading_types::Symbol`,
//! `serde_json` string encoding and `url` parsing. Each contract below is
//! believed, not proved; its doc comment says what it claims.
use vstd::prelude::*;
use crate::market::symbol::{Symbol, SymbolError};
use crate::text::{all_ascii, ascii_upper, count_char, split_once_spec};

verus! {

/// What `str::to_uppercase` returns for a text (Unicode upper-casing).
pub uninterp spec fn unicode_uppercase(s: Seq<char>) -> Seq<char>;

/// Upper-casing as the library uses it: ASCII text upper-cased letter by
/// letter, any other text as `str::to_uppercase` does it.
pub open spec fn upper(s: Seq<char>) -> Seq<char> {
    if all_ascii(s) {
        ascii_upper(s)
    } else {
        unicode_uppercase(s)
    }
}

/// `String::push`: appends one character to the string.
#[verifier::external_body]
pub fn push_char(s: &mut String, c: char)
    ensures
        final(s)@ == old(s)@.push(c),
{
    s.push(c);
}

/// `str::to_uppercase`: claims that the result is the named Unicode
/// upper-casing of the text and that, for ASCII text, it is the letters
/// `a..=z` turned into `A..=Z` with every other character kept.
#[verifier::external_body]
pub fn str_to_uppercase(s: &str) -> (res: String)
    ensures
        res@ == unicode_uppercase(s@),
        all_ascii(s@) ==> res@ == ascii_upper(s@),
{
    s.to_uppercase()
}

/// `trading_types::Symbol::new(eg, cb, cq)`: claims, as its source shows,
/// that the exchange is kept and that base and quote currencies are
/// upper-cased with `str::to_uppercase`.
#[verifier::external_body]
pub fn tt_symbol_new(eg: String, cb: String, cq: String) -> (res: Symbol)
    ensures
        res.eg@ == eg@,
        res.bs@ == unicode_uppercase(cb@),
        res.qt@ == unicode_uppercase(cq@),
        all_ascii(cb@) ==> res.bs@ == ascii_upper(cb@),
        all_ascii(cq@) ==> res.qt@ == ascii_upper(cq@),
{
    let s = trading_types::Symbol::new(eg, cb, cq);
    Symbol { eg: s.eg, bs: s.bs, qt: s.qt }
}

/// The pieces of a symbol text `EXG:BASE/QUOTE`: the text must hold exactly
/// one `:`, and the part after it exactly one `/`.
pub open spec fn symbol_parts(text: Seq<char>) -> Option<(Seq<char>, Seq<char>, Seq<char>)> {
    match split_once_spec(text, ':') {
        Some((eg, rest)) => if count_char(text, ':') == 1 && count_char(rest, '/') == 1 {
            match split_once_spec(rest, '/') {
                Some((b, q)) => Some((eg, b, q)),
                None => None,
            }
        } else {
            None
        },
        None => None,
    }
}

/// The text that `trading_types::Symbol::try_from` reports in its error for
/// `text`: all of it when the `:` count is wrong, else the part after `:`.
pub open spec fn symbol_error_text(text: Seq<char>) -> Seq<char> {
    match split_once_spec(text, ':') {
        Some((_eg, rest)) => if count_char(text, ':') == 1 {
            rest
        } else {
            text
        },
        None => text,
    }
}

/// `trading_types::Symbol::try_from(&str)`: claims, as its source shows
/// (splits at `:` then at `/`, each into exactly two parts, then
/// `Symbol::new`), when it succeeds, the fields it gives, and the text that
/// its `BadSymbol` error carries.
#[verifier::external_body]
pub fn tt_symbol_try_from(text: &str) -> (res: Result<Symbol, SymbolError>)
    ensures
        res is Ok <==> symbol_parts(text@) is Some,
        res matches Ok(s) ==> {
            let parts = symbol_parts(text@)->0;
            &&& s.eg@ == parts.0
            &&& s.bs@ == unicode_uppercase(parts.1)
            &&& s.qt@ == unicode_uppercase(parts.2)
            &&& all_ascii(parts.1) ==> s.bs@ == ascii_upper(parts.1)
            &&& all_ascii(parts.2) ==> s.qt@ == ascii_upper(parts.2)
        },
        res matches Err(SymbolError::BadSymbol(t)) ==> t@ == symbol_error_text(text@),
{
    match trading_types::Symbol::try_from(text) {
        Ok(s) => Ok(Symbol { eg: s.eg, bs: s.bs, qt: s.qt }),
        Err(trading_types::SymbolError::BadSymbol(t)) => Err(SymbolError::BadSymbol(t)),
    }
}

/// What `serde_json::to_string` gives for a string: the JSON string literal.
pub uninterp spec fn json_string_literal(s: Seq<char>) -> Seq<char>;

/// The text needs no escape in a JSON string: no `"`, no `\` and no control
/// character below U+0020.
pub open spec fn json_plain(s: Seq<char>) -> bool {
    forall|i: int| 0 <= i < s.len() ==> (#[trigger] s[i]) != '"' && s[i] != '\\' && s[i] as u32 >= 0x20
}

/// `serde_json::to_string(&str)`: claims that it succeeds (its source writes
/// into a `Vec`, which cannot fail), that the result is the named JSON
/// literal of the text, and, as its escape table shows, that a text needing
/// no escape comes back between two `"`.
#[verifier::external_body]
pub fn json_quote(s: &str) -> (res: Result<String, serde_json::Error>)
    ensures
        res is Ok,
        res matches Ok(t) ==> t@ == json_string_literal(s@),
        res matches Ok(t) ==> (json_plain(s@) ==> t@ == seq!['"'] + s@ + seq!['"']),
{
    serde_json::to_string(s)
}

/// What `url::Url::parse` gives for a text: the serialization of the parsed
/// URL, or `None` where it reports a parse error.
pub uninterp spec fn url_parse_result(text: Seq<char>) -> Option<Seq<char>>;

/// `url::Url::parse`, serialized back to text: claims only that the result
/// is the named one for the text; which texts parse, and how they are
/// normalized, is left to the name.
#[verifier::external_body]
pub fn parse_url(text: &str) -> (res: Option<String>)
    ensures
        match res {
            Some(u) => url_parse_result(text@) == Some(u@),
            None => url_parse_result(text@) is None,
        },
{
    match url::Url::parse(text) {
        Ok(u) => Some(String::from(u)),
        Err(_) => None,
    }
}

/// `serde_json::Error`, the error type of `serde_json::to_string`.
#[verifier::external_type_specification]
#[verifier::external_body]
pub struct ExJsonError(serde_json::Error);

} // verus!
