use vstd::prelude::*;

use crate::errors::Error;
use crate::scan;

verus! {

/// The anchor the extractor locates first: the key `crate`, quotes included.
pub open spec fn crate_anchor() -> Seq<char> {
    seq!['"', 'c', 'r', 'a', 't', 'e', '"']
}

/// The key whose string value is the result: `newest_version`, quotes
/// included.
pub open spec fn version_key() -> Seq<char> {
    seq!['"', 'n', 'e', 'w', 'e', 's', 't', '_', 'v', 'e', 'r', 's', 'i', 'o', 'n', '"']
}

/// The ways extraction can fail, one for each scanning step.
pub enum ExtractFailure {
    /// No `"crate"` anywhere in the body.
    MissingCrate,
    /// No `"newest_version"` at or after the `"crate"` anchor.
    MissingVersionKey,
    /// No `:` after the `"newest_version"` key.
    MissingColon,
    /// The first non-whitespace character after the colon is not a quote.
    MissingQuote,
    /// No closing quote after the value's opening quote.
    UnclosedQuote,
}

/// What scanning `body` yields: the characters between the quotes that follow
/// the first `"newest_version"` key at or after the first `"crate"` anchor,
/// with any whitespace between the key's colon and the opening quote skipped;
/// or the first scanning step that fails.
pub open spec fn extract_spec(body: Seq<char>) -> Result<Seq<char>, ExtractFailure> {
    match scan::find_spec(body, crate_anchor(), 0) {
        Option::None => Err(ExtractFailure::MissingCrate),
        Option::Some(anchor) => match scan::find_spec(body, version_key(), anchor) {
            Option::None => Err(ExtractFailure::MissingVersionKey),
            Option::Some(key) => {
                let colon = scan::find_char_spec(body, ':', key + version_key().len());
                if colon == body.len() {
                    Err(ExtractFailure::MissingColon)
                } else {
                    let open = scan::skip_ws_spec(body, colon + 1);
                    if open == body.len() || body[open] != '"' {
                        Err(ExtractFailure::MissingQuote)
                    } else {
                        let close = scan::find_char_spec(body, '"', open + 1);
                        if close == body.len() {
                            Err(ExtractFailure::UnclosedQuote)
                        } else {
                            Ok(body.subrange(open + 1, close))
                        }
                    }
                }
            },
        },
    }
}

/// The message reported for each extraction failure.
pub open spec fn extract_failure_text(f: ExtractFailure) -> Seq<char> {
    match f {
        ExtractFailure::MissingCrate => "'crate' field not found in response"@,
        ExtractFailure::MissingVersionKey => "'newest_version' field not found in response"@,
        ExtractFailure::MissingColon => "malformed JSON: missing colon after newest_version"@,
        ExtractFailure::MissingQuote => "malformed JSON: expected quote after newest_version colon"@,
        ExtractFailure::UnclosedQuote => "malformed JSON: unclosed version string"@,
    }
}

/// Extract the `newest_version` field from a registry JSON response by plain
/// text scanning, without a general JSON parser: find `"crate"`, then
/// `"newest_version"` from there, then the colon, skip whitespace, and read
/// the quoted value verbatim, with no escape decoding. Tolerates compact,
/// spaced and pretty-printed bodies alike.
pub fn extract_newest_version(body: &str) -> (r: Result<String, Error>)
    ensures
        r matches Ok(v) ==> extract_spec(body@) == Ok::<Seq<char>, ExtractFailure>(v@),
        r matches Err(e) ==> ({
            &&& extract_spec(body@) is Err
            &&& e matches Error::ParseError(m) && m@ == extract_failure_text(
                extract_spec(body@)->Err_0,
            )
        }),
{
    let n = body.unicode_len();
    proof {
        reveal_strlit("\"crate\"");
        reveal_strlit("\"newest_version\"");
        assert("\"crate\""@ =~= crate_anchor());
        assert("\"newest_version\""@ =~= version_key());
    }
    let anchor = match scan::find(body, "\"crate\"", 0) {
        Option::Some(a) => a,
        Option::None => {
            return Err(Error::ParseError("'crate' field not found in response".to_owned()));
        },
    };
    let key = match scan::find(body, "\"newest_version\"", anchor) {
        Option::Some(k) => k,
        Option::None => {
            return Err(
                Error::ParseError("'newest_version' field not found in response".to_owned()),
            );
        },
    };
    let colon = scan::find_char(body, ':', key + 16);
    if colon == n {
        return Err(
            Error::ParseError("malformed JSON: missing colon after newest_version".to_owned()),
        );
    }
    let open = scan::skip_ws(body, colon + 1);
    if open == n || body.get_char(open) != '"' {
        return Err(
            Error::ParseError(
                "malformed JSON: expected quote after newest_version colon".to_owned(),
            ),
        );
    }
    let close = scan::find_char(body, '"', open + 1);
    if close == n {
        return Err(Error::ParseError("malformed JSON: unclosed version string".to_owned()));
    }
    Ok(body.substring_char(open + 1, close).to_owned())
}

} // verus!
