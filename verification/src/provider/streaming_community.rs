//! The single-source catalogue's site: the asset version its home page
//! declares.
use crate::json::{field, json_of, member, parse_json, text_at, text_in};
use crate::providers::{html_first_attr, html_first_attr_of, ProviderError};
use crate::text::{chars_of, extend_str, string_of};
use vstd::prelude::*;

verus! {

/// The site the single-source catalogue reads.
pub const BASE_URL: &'static str = "https://streamingcommunityz.name";

/// The asset version the home page declares in the page data of its
/// `div#app`, or the message of the parse error that stops the reading.
pub open spec fn page_version_of(html: Seq<char>) -> Result<Seq<char>, Seq<char>> {
    match html_first_attr_of(html, "div#app"@, "data-page"@) {
        None => Err("No #app div found"@),
        Some(None) => Err("No data-page attribute"@),
        Some(Some(d)) => match json_of(d) {
            Err(e) => Err("Invalid data-page JSON: "@ + e),
            Ok(p) => match text_at(field(Some(p), "version"@)) {
                None => Err("No version in data-page"@),
                Some(v) => Ok(v),
            },
        },
    }
}

/// The asset version a home page declares.
pub fn extract_version_from_html(html: &str) -> (r: Result<String, ProviderError>)
    ensures
        match page_version_of(html@) {
            Ok(v) => r matches Ok(x) && x@ == v,
            Err(m) => r matches Err(ProviderError::Parse(x)) && x@ == m,
        },
{
    let data = match html_first_attr(html, "div#app", "data-page") {
        None => return Err(ProviderError::Parse("No #app div found".to_string())),
        Some(None) => return Err(ProviderError::Parse("No data-page attribute".to_string())),
        Some(Some(d)) => d,
    };
    match parse_json(data.as_str()) {
        Ok(p) => match text_in(member(Some(&p), "version")) {
            Some(v) => Ok(v),
            None => Err(ProviderError::Parse("No version in data-page".to_string())),
        },
        Err(e) => {
            let mut m = chars_of("Invalid data-page JSON: ");
            extend_str(&mut m, e.as_str());
            Err(ProviderError::Parse(string_of(&m)))
        },
    }
}

} // verus!
