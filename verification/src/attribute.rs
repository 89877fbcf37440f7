//! The argument of the model attribute: a string literal that names the model
//! file.

use vstd::prelude::*;

use crate::text::join;

verus! {

/// The value of the string literal that a source text without carriage returns
/// consists of, escapes resolved, or `None` where the text is not exactly one
/// string literal.
pub uninterp spec fn literal_value(source: Seq<char>) -> Option<Seq<char>>;

/// Reads a source text with `syn::parse_str` as a `syn::LitStr`, and gives what
/// `LitStr::value` gives for it, or syn's own words for what is wrong.
///
/// Trusted: which texts without a carriage return are string literals, and
/// which value each has, is a function of the text ([`literal_value`]). The
/// lexer in use is that of proc-macro2, and inside a macro expansion the
/// compiler's own after it. The two may treat line ends with a carriage return
/// differently, so nothing is said of texts with one. Nothing is said of the
/// words of a failure either: they come from the lexer.
#[verifier::external_body]
fn parse_literal(source: &str) -> (r: Result<String, String>)
    ensures
        !source@.contains('\r') ==> match r {
            Ok(value) => literal_value(source@) == Some(value@),
            Err(_) => literal_value(source@) is None,
        },
{
    match syn::parse_str::<syn::LitStr>(source) {
        Ok(literal) => Ok(literal.value()),
        Err(error) => Err(error.to_string()),
    }
}

/// The message for an argument that is not a string literal.
pub open spec fn not_a_literal(reason: Seq<char>) -> Seq<char> {
    "expected string literal: "@ + reason
}

/// The model path for an argument that was read as a literal with this outcome:
/// the literal's value, or a message with the reason in it.
pub fn path_from_literal(parsed: Result<String, String>) -> (r: Result<String, String>)
    ensures
        match parsed {
            Ok(value) => r == Ok::<String, String>(value),
            Err(reason) => r matches Err(message) && message@ == not_a_literal(reason@),
        },
{
    match parsed {
        Ok(value) => Ok(value),
        Err(reason) => Err(join("expected string literal: ", reason.as_str())),
    }
}

/// The model path that the attribute's argument names, as written there: the
/// value of its string literal. Any other argument is refused. How line ends
/// with a carriage return inside the literal are read depends on the lexer.
pub fn model_path_from_attr(attr: &str) -> (r: Result<String, String>)
    ensures
        !attr@.contains('\r') ==> match r {
            Ok(path) => literal_value(attr@) == Some(path@),
            Err(_) => literal_value(attr@) is None,
        },
        r matches Err(message) ==> exists|reason: Seq<char>|
            message@ == #[trigger] not_a_literal(reason),
{
    path_from_literal(parse_literal(attr))
}

} // verus!
