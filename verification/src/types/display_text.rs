//! `DisplayText` — text to be shown to an end user, tagged with the language it is written in.

use vstd::prelude::*;

use super::extensions::Extensions;
use super::string::{ocpi_string_conformant, ocpi_string_error, OcpiString};
use super::text::InvalidString;

verus! {

/// Text to be shown to an end user, tagged with its ISO 639-1 language code; no markup.
#[derive(Debug)]
#[non_exhaustive]
pub struct DisplayText {
    /// Language Code ISO 639-1.
    pub language: OcpiString<2>,
    /// Text to be displayed to an end user.
    pub text: OcpiString<512>,
    /// Undocumented JSON fields, preserved verbatim.
    pub extensions: Extensions,
}

impl DisplayText {
    /// A `DisplayText`, refusing a language code longer than two characters, a text longer than
    /// 512, or either holding a control character; the language is checked first.
    pub fn new(language: &str, text: &str) -> (r: Result<Self, InvalidString>)
        ensures
            !ocpi_string_conformant(language@, 2) ==> r == Err::<DisplayText, InvalidString>(
                ocpi_string_error(language@, 2),
            ),
            ocpi_string_conformant(language@, 2) && !ocpi_string_conformant(text@, 512) ==> r == Err::<
                DisplayText,
                InvalidString,
            >(ocpi_string_error(text@, 512)),
            ocpi_string_conformant(language@, 2) && ocpi_string_conformant(text@, 512) ==> (r matches Ok(d)
                && d.language@ == language@ && d.text@ == text@ && d.extensions.spec_fields().len() == 0),
    {
        let language = match OcpiString::<2>::new(language) {
            Ok(l) => l,
            Err(e) => return Err(e),
        };
        let text = match OcpiString::<512>::new(text) {
            Ok(t) => t,
            Err(e) => return Err(e),
        };
        Ok(DisplayText { language, text, extensions: Extensions::new() })
    }
}

} // verus!
