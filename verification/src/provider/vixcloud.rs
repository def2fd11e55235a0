//! The player of the single-source catalogue: the source of a title's
//! player frame, and the stream its script describes.
use crate::providers::models::texts;
use crate::providers::streaming_community::text_of;
use crate::providers::{
    capture_group, has_pair, has_pair_exec, html_first_attr, html_first_attr_of, html_inner,
    html_inner_of, query_pairs, regex_group, url_error_of, url_parse_error, url_query_of,
    url_raw_query_of, with_raw_query, ProviderError, StreamUrl, EXPIRES_PATTERN, FHD_PATTERN,
    TOKEN_PATTERN, URL_PATTERN,
};
use crate::text::{chars_of, extend_str, string_of};
use vstd::prelude::*;

verus! {

/// The query a stream address is given: `h=1` when full HD may play,
/// `b=1` when the address had it, then the token and the expiry, joined by
/// `&`.
pub open spec fn player_query(fhd: bool, has_b: bool, token: Seq<char>, expires: Seq<char>) -> Seq<char> {
    (if fhd {
        "h=1&"@
    } else {
        Seq::empty()
    }) + (if has_b {
        "b=1&"@
    } else {
        Seq::empty()
    }) + "token="@ + token + "&expires="@ + expires
}

/// Whether the query of an address has the pair `b=1`.
pub open spec fn base_has_b(base: Seq<char>) -> bool {
    match url_query_of(base) {
        Some(p) => has_pair(p, "b"@, "1"@),
        None => false,
    }
}

/// Whether a player script says full HD may play.
pub open spec fn script_fhd(script: Seq<char>) -> bool {
    regex_group(FHD_PATTERN@, script, 1) == Some("true"@)
}

/// `r` is what a player script gives: the stream at its address with the
/// query replaced by the token, the expiry and the quality flags; else an
/// error naming the first missing part, or why the address does not parse.
pub open spec fn player_outcome(script: Seq<char>, r: Result<StreamUrl, ProviderError>) -> bool {
    match (
        regex_group(TOKEN_PATTERN@, script, 1),
        regex_group(EXPIRES_PATTERN@, script, 1),
        regex_group(URL_PATTERN@, script, 1),
    ) {
        (None, _, _) => r matches Err(ProviderError::StreamExtraction(m)) && m@ == "No token found"@,
        (Some(_), None, _) => r matches Err(ProviderError::StreamExtraction(m)) && m@ == "No expires found"@,
        (Some(_), Some(_), None) => r matches Err(ProviderError::StreamExtraction(m)) && m@ == "No URL found"@,
        (Some(t), Some(e), Some(base)) => match url_error_of(base) {
            Some(err) => r matches Err(ProviderError::Parse(m)) && m@ == "Invalid stream URL: "@ + err,
            None => r matches Ok(s) && Some(s.url@) == url_raw_query_of(
                base,
                player_query(script_fhd(script), base_has_b(base), t, e),
            ) && s.headers@.len() == 0,
        },
    }
}

/// The stream a player script describes.
pub fn stream_from_player(script: &str) -> (r: Result<StreamUrl, ProviderError>)
    ensures
        player_outcome(script@, r),
{
    let token = match capture_group(TOKEN_PATTERN, script, 1) {
        Some(t) => t,
        None => return Err(ProviderError::StreamExtraction("No token found".to_string())),
    };
    let expires = match capture_group(EXPIRES_PATTERN, script, 1) {
        Some(e) => e,
        None => return Err(ProviderError::StreamExtraction("No expires found".to_string())),
    };
    let base = match capture_group(URL_PATTERN, script, 1) {
        Some(u) => u,
        None => return Err(ProviderError::StreamExtraction("No URL found".to_string())),
    };
    let fhd = match capture_group(FHD_PATTERN, script, 1) {
        Some(f) => crate::text::chars_equal(&chars_of(f.as_str()), &chars_of("true")),
        None => false,
    };
    if let Some(err) = url_parse_error(base.as_str()) {
        let mut m = chars_of("Invalid stream URL: ");
        extend_str(&mut m, err.as_str());
        return Err(ProviderError::Parse(string_of(&m)));
    }
    let has_b = match query_pairs(base.as_str()) {
        Some(p) => has_pair_exec(&p, "b", "1"),
        None => false,
    };
    let mut q: Vec<char> = Vec::new();
    if fhd {
        extend_str(&mut q, "h=1&");
    }
    if has_b {
        extend_str(&mut q, "b=1&");
    }
    extend_str(&mut q, "token=");
    extend_str(&mut q, token.as_str());
    extend_str(&mut q, "&expires=");
    extend_str(&mut q, expires.as_str());
    assert(q@ =~= player_query(fhd, has_b, token@, expires@));
    match with_raw_query(base.as_str(), string_of(&q).as_str()) {
        Some(u) => Ok(StreamUrl { url: u, headers: Vec::new() }),
        None => Err(ProviderError::Parse("Invalid stream URL: ".to_string())),
    }
}

/// The source of a page's first player frame; an error when it names none.
pub fn iframe_src(html: &str) -> (r: Result<String, ProviderError>)
    ensures
        match html_first_attr_of(html@, "iframe"@, "src"@) {
            Some(Some(s)) => r matches Ok(t) && t@ == s,
            _ => r matches Err(ProviderError::Parse(m)) && m@ == "No iframe src found"@,
        },
{
    match html_first_attr(html, "iframe", "src") {
        Some(Some(s)) => Ok(s),
        _ => Err(ProviderError::Parse("No iframe src found".to_string())),
    }
}

/// The first script of a page's body, or the empty text.
pub open spec fn first_body_script(html: Seq<char>) -> Seq<char> {
    let s = html_inner_of(html, "body script"@);
    if s.len() > 0 {
        s[0]
    } else {
        Seq::empty()
    }
}

/// The stream a player page describes in the first script of its body.
pub fn player_stream(html: &str) -> (r: Result<StreamUrl, ProviderError>)
    ensures
        player_outcome(first_body_script(html@), r),
{
    let scripts = html_inner(html, "body script");
    let script = if scripts.len() > 0 {
        scripts[0].clone()
    } else {
        String::new()
    };
    assert(texts(scripts@).len() == scripts@.len());
    proof {
        if scripts@.len() > 0 {
            assert(texts(scripts@)[0] == scripts@[0]@);
        }
    }
    stream_from_player(script.as_str())
}

} // verus!
