//! Provider-independent pieces: the catalogue model, provider errors and
//! the identifier hash that providers without numeric ids use.
use crate::providers::streaming_community::text_of;
use crate::text::{chars_of, extend_str, has_prefix, occurs_at_exec, string_of};
use vstd::prelude::*;
use vstd::string::StringSliceAdditionalSpecFns;

pub mod animeunity;
pub mod aurora;
pub mod aurora_pages;
pub mod models;
pub mod raiplay;
pub mod raiplay_pages;
pub mod sc_pages;
pub mod streaming_community;

pub use models::{Episode, MediaEntry, MediaType, Season, StreamUrl};

verus! {

/// Browser identity sent with every provider request.
pub const USER_AGENT: &'static str = "Mozilla/5.0 (Macintosh; Intel Mac OS X 10_15_7) AppleWebKit/537.36 (KHTML, like Gecko) Chrome/133.0.0.0 Safari/537.36";

/// Where the current domains of the mirror-hopping providers are listed.
pub const DOMAINS_URL: &'static str = "https://raw.githubusercontent.com/Arrowar/SC_Domains/refs/heads/main/domains.json";

/// The polynomial string hash `h = h * 31 + byte` over the bytes, modulo 2^64.
pub open spec fn hash_bytes(b: Seq<u8>) -> u64
    decreases b.len(),
{
    if b.len() == 0 {
        0
    } else {
        ((hash_bytes(b.drop_last()) as nat * 31 + b.last() as nat) % 0x1_0000_0000_0000_0000) as u64
    }
}

/// Hash of a byte sequence, `h = h * 31 + byte` with wrapping arithmetic.
pub fn hash_byte_slice(b: &[u8]) -> (h: u64)
    ensures
        h == hash_bytes(b@),
{
    let mut h: u64 = 0;
    let mut i: usize = 0;
    assert(b@.take(0) =~= Seq::<u8>::empty());
    while i < b.len()
        invariant
            i <= b@.len(),
            h == hash_bytes(b@.take(i as int)),
        decreases b@.len() - i,
    {
        let ghost prev = h;
        let m = h.wrapping_mul(31);
        h = m.wrapping_add(b[i] as u64);
        assert(b@.take(i + 1).drop_last() =~= b@.take(i as int));
        assert(b@.take(i + 1).last() == b@[i as int]);
        proof {
            let p = prev as nat * 31;
            assert(m == (p % 0x1_0000_0000_0000_0000) as u64);
            let q = m as nat + b@[i as int] as nat;
            assert(h == (q % 0x1_0000_0000_0000_0000) as u64);
            vstd::arithmetic::div_mod::lemma_add_mod_noop(
                p as int,
                b@[i as int] as int,
                0x1_0000_0000_0000_0000,
            );
            vstd::arithmetic::div_mod::lemma_small_mod(
                b@[i as int] as nat,
                0x1_0000_0000_0000_0000,
            );
        }
        i = i + 1;
    }
    assert(b@.take(b@.len() as int) =~= b@);
    h
}

/// Stable identifier derived from a string (its UTF-8 bytes), for providers
/// whose titles have no numeric id.
pub fn provider_hash(s: &str) -> (h: u64)
    ensures
        h == hash_bytes(s.spec_bytes()),
{
    hash_byte_slice(s.as_bytes())
}

/// The hash continued from `h` over more bytes.
pub open spec fn hash_from(h: u64, b: Seq<u8>) -> u64
    decreases b.len(),
{
    if b.len() == 0 {
        h
    } else {
        ((hash_from(h, b.drop_last()) as nat * 31 + b.last() as nat) % 0x1_0000_0000_0000_0000) as u64
    }
}

proof fn lemma_hash_bytes_concat(a: Seq<u8>, b: Seq<u8>)
    ensures
        hash_bytes(a + b) == hash_from(hash_bytes(a), b),
    decreases b.len(),
{
    if b.len() == 0 {
        assert(a + b =~= a);
    } else {
        lemma_hash_bytes_concat(a, b.drop_last());
        assert((a + b).drop_last() =~= a + b.drop_last());
        assert((a + b).last() == b.last());
    }
}

proof fn lemma_encode_utf8_concat(a: Seq<char>, b: Seq<char>)
    ensures
        vstd::utf8::encode_utf8(a + b) == vstd::utf8::encode_utf8(a) + vstd::utf8::encode_utf8(b),
    decreases a.len(),
{
    if a.len() == 0 {
        assert(a + b =~= b);
        assert(vstd::utf8::encode_utf8(a) + vstd::utf8::encode_utf8(b) =~= vstd::utf8::encode_utf8(b));
    } else {
        lemma_encode_utf8_concat(a.drop_first(), b);
        assert((a + b).drop_first() =~= a.drop_first() + b);
        assert((a + b)[0] == a[0]);
        let e = vstd::utf8::encode_scalar(a[0] as u32);
        assert(e + (vstd::utf8::encode_utf8(a.drop_first()) + vstd::utf8::encode_utf8(b)) =~= (e
            + vstd::utf8::encode_utf8(a.drop_first())) + vstd::utf8::encode_utf8(b));
    }
}

/// The provider hash of the empty text is 0, and the hash of a joined text
/// is the hash of its second part's bytes continued from the hash of its
/// first part.
pub proof fn law_provider_hash_concat(s: Seq<char>, t: Seq<char>)
    ensures
        hash_bytes(vstd::utf8::encode_utf8(Seq::<char>::empty())) == 0,
        hash_bytes(vstd::utf8::encode_utf8(s + t)) == hash_from(
            hash_bytes(vstd::utf8::encode_utf8(s)),
            vstd::utf8::encode_utf8(t),
        ),
{
    lemma_encode_utf8_concat(s, t);
    lemma_hash_bytes_concat(vstd::utf8::encode_utf8(s), vstd::utf8::encode_utf8(t));
}

/// Why a provider request failed.
#[derive(Debug, Clone)]
pub enum ProviderError {
    Network(String),
    Parse(String),
    StreamExtraction(String),
}

/// The message shown for a provider error.
pub open spec fn provider_error_text(e: ProviderError) -> Seq<char> {
    match e {
        ProviderError::Network(m) => "Network error: "@ + m@,
        ProviderError::Parse(m) => "Parse error: "@ + m@,
        ProviderError::StreamExtraction(m) => "Stream extraction error: "@ + m@,
    }
}

impl ProviderError {
    /// The user-facing message: the kind of failure, a colon, and the detail.
    pub fn to_string(&self) -> (r: String)
        ensures
            r@ == provider_error_text(*self),
    {
        let (prefix, m) = match self {
            ProviderError::Network(m) => ("Network error: ", m),
            ProviderError::Parse(m) => ("Parse error: ", m),
            ProviderError::StreamExtraction(m) => ("Stream extraction error: ", m),
        };
        let mut v = chars_of(prefix);
        extend_str(&mut v, m.as_str());
        string_of(&v)
    }
}

/// Finds the token of a player script.
pub const TOKEN_PATTERN: &'static str = "(?:['\"]token['\"]|token)\\s*:\\s*['\"]([^'\"]+)['\"]";

/// Finds the expiry of a player script.
pub const EXPIRES_PATTERN: &'static str = "(?:['\"]expires['\"]|expires)\\s*:\\s*['\"]([^'\"]+)['\"]";

/// Finds the playlist address of a player script.
pub const URL_PATTERN: &'static str = "(?:['\"]url['\"]|url)\\s*:\\s*['\"](?P<url>https?://[^'\"]+)['\"]";

/// Finds whether the player may play full HD.
pub const FHD_PATTERN: &'static str = "window\\.canPlayFHD\\s*=\\s*(true|false)";

/// What capture group `n` of the first match of `pattern` in `text` holds,
/// as the `regex` crate finds it (nothing when the pattern does not compile,
/// there is no match, or the group took no part in it).
pub uninterp spec fn regex_group(pattern: Seq<char>, text: Seq<char>, n: nat) -> Option<Seq<char>>;

/// `Regex::new(pattern)` and `captures(text)`, then group `n` of the match.
#[verifier::external_body]
pub(crate) fn capture_group(pattern: &str, text: &str, n: usize) -> (r: Option<String>)
    ensures
        text_of(r) == regex_group(pattern@, text@, n as nat),
{
    regex::Regex::new(pattern).ok()?.captures(text)?.get(n).map(|m| m.as_str().to_string())
}

/// The inner HTML of each element of a document that a CSS selector picks,
/// in document order, as the `scraper` crate parses them (none when the
/// selector does not parse).
pub uninterp spec fn html_inner_of(html: Seq<char>, selector: Seq<char>) -> Seq<Seq<char>>;

/// The text of each element of a document that a CSS selector picks, in
/// document order, as the `scraper` crate parses them (none when the
/// selector does not parse).
pub uninterp spec fn html_text_of(html: Seq<char>, selector: Seq<char>) -> Seq<Seq<char>>;

/// An attribute of the first element of a document that a CSS selector
/// picks, as the `scraper` crate parses it: nothing when no element is
/// picked, an absent value when that element lacks the attribute.
pub uninterp spec fn html_first_attr_of(html: Seq<char>, selector: Seq<char>, attr: Seq<char>) -> Option<Option<Seq<char>>>;

/// The text with the first match of `pattern` replaced by `replacement`
/// (its `$n` naming the match's groups), as the `regex` crate computes it
/// (the text unchanged when the pattern does not compile or match).
pub uninterp spec fn regex_replaced_of(pattern: Seq<char>, text: Seq<char>, replacement: Seq<char>) -> Seq<char>;

/// `Regex::new(pattern)` and `replace(text, replacement)`.
#[verifier::external_body]
pub(crate) fn regex_replace_first(pattern: &str, text: &str, replacement: &str) -> (r: String)
    ensures
        r@ == regex_replaced_of(pattern@, text@, replacement@),
{
    match regex::Regex::new(pattern) {
        Ok(re) => re.replace(text, replacement).to_string(),
        Err(_) => text.to_string(),
    }
}

/// `Html::parse_document`, `Selector::parse` and `select`, then each
/// element's `inner_html`.
#[verifier::external_body]
pub(crate) fn html_inner(html: &str, selector: &str) -> (r: Vec<String>)
    ensures
        crate::providers::models::texts(r@) == html_inner_of(html@, selector@),
{
    let sel = match scraper::Selector::parse(selector) {
        Ok(s) => s,
        Err(_) => return Vec::new(),
    };
    scraper::Html::parse_document(html).select(&sel).map(|el| el.inner_html()).collect()
}

/// `Html::parse_document`, `Selector::parse` and `select`, then each
/// element's text pieces joined.
#[verifier::external_body]
pub(crate) fn html_text(html: &str, selector: &str) -> (r: Vec<String>)
    ensures
        crate::providers::models::texts(r@) == html_text_of(html@, selector@),
{
    let sel = match scraper::Selector::parse(selector) {
        Ok(s) => s,
        Err(_) => return Vec::new(),
    };
    scraper::Html::parse_document(html).select(&sel).map(|el| el.text().collect::<String>()).collect()
}

/// `Html::parse_document`, `Selector::parse` and `select`, then `attr` of
/// the first element.
#[verifier::external_body]
pub(crate) fn html_first_attr(html: &str, selector: &str, attr: &str) -> (r: Option<Option<String>>)
    ensures
        match r {
            Some(a) => html_first_attr_of(html@, selector@, attr@) == Some(text_of(a)),
            None => html_first_attr_of(html@, selector@, attr@) is None,
        },
{
    let sel = scraper::Selector::parse(selector).ok()?;
    let doc = scraper::Html::parse_document(html);
    let el = doc.select(&sel).next()?;
    Some(el.value().attr(attr).map(|a| a.to_string()))
}

/// Whether form encoding keeps a byte as it is: ASCII letters and digits
/// and `*`, `-`, `.`, `_`.
pub open spec fn form_keeps(b: u8) -> bool {
    (48 <= b <= 57) || (65 <= b <= 90) || (97 <= b <= 122) || b == 42 || b == 45 || b == 46 || b == 95
}

/// An upper-case hexadecimal digit.
pub open spec fn hex_digit_upper(d: nat) -> char {
    if d < 10 {
        (48 + d) as char
    } else {
        (55 + d) as char
    }
}

/// The `application/x-www-form-urlencoded` form of some bytes: kept bytes
/// as they are, a space as `+`, any other byte as `%` and two upper-case
/// hex digits.
pub open spec fn form_encoded(b: Seq<u8>) -> Seq<char>
    decreases b.len(),
{
    if b.len() == 0 {
        Seq::empty()
    } else {
        let c = b[0];
        (if form_keeps(c) {
            seq![c as char]
        } else if c == 32 {
            seq!['+']
        } else {
            seq!['%', hex_digit_upper(c as nat / 16), hex_digit_upper(c as nat % 16)]
        }) + form_encoded(b.drop_first())
    }
}

/// `url::form_urlencoded::byte_serialize` over the UTF-8 bytes of a text.
#[verifier::external_body]
pub(crate) fn form_urlencode(s: &str) -> (r: String)
    ensures
        r@ == form_encoded(s.spec_bytes()),
{
    url::form_urlencoded::byte_serialize(s.as_bytes()).collect()
}

/// The decoded query pairs of an address, as the `url` crate parses it
/// (nothing when it does not parse).
pub uninterp spec fn url_query_of(url: Seq<char>) -> Option<Seq<(Seq<char>, Seq<char>)>>;

/// The address with its query replaced by the pairs, as the `url` crate
/// serialises it (nothing when it does not parse).
pub uninterp spec fn url_with_query_of(url: Seq<char>, pairs: Seq<(Seq<char>, Seq<char>)>) -> Option<Seq<char>>;

/// Text pairs as values.
pub open spec fn pairs_of(v: Seq<(String, String)>) -> Seq<(Seq<char>, Seq<char>)> {
    v.map_values(|p: (String, String)| (p.0@, p.1@))
}

/// Why the `url` crate does not parse an address: its error's message
/// (nothing when the address parses).
pub uninterp spec fn url_error_of(url: Seq<char>) -> Option<Seq<char>>;

/// The address with its query set to a raw query text, as the `url` crate
/// serialises it (nothing when it does not parse).
pub uninterp spec fn url_raw_query_of(url: Seq<char>, query: Seq<char>) -> Option<Seq<char>>;

/// `Url::parse`, and the message of its error.
#[verifier::external_body]
pub(crate) fn url_parse_error(url: &str) -> (r: Option<String>)
    ensures
        text_of(r) == url_error_of(url@),
{
    url::Url::parse(url).err().map(|e| e.to_string())
}

/// `Url::parse` and `set_query`, then the address as text.
#[verifier::external_body]
pub(crate) fn with_raw_query(url: &str, query: &str) -> (r: Option<String>)
    ensures
        text_of(r) == url_raw_query_of(url@, query@),
        r is Some <==> url_error_of(url@) is None,
{
    let mut u = url::Url::parse(url).ok()?;
    u.set_query(Some(query));
    Some(u.to_string())
}

/// `Url::parse` and `query_pairs`.
#[verifier::external_body]
pub(crate) fn query_pairs(url: &str) -> (r: Option<Vec<(String, String)>>)
    ensures
        match r {
            Some(v) => url_query_of(url@) == Some(pairs_of(v@)),
            None => url_query_of(url@) is None,
        },
        r is Some <==> url_error_of(url@) is None,
{
    let u = url::Url::parse(url).ok()?;
    Some(u.query_pairs().map(|(k, v)| (k.into_owned(), v.into_owned())).collect())
}

/// `Url::parse`, then `query_pairs_mut` cleared and given the pairs in
/// order, then the address as text.
#[verifier::external_body]
fn with_query(url: &str, pairs: &Vec<(String, String)>) -> (r: Option<String>)
    ensures
        text_of(r) == url_with_query_of(url@, pairs_of(pairs@)),
{
    let mut u = url::Url::parse(url).ok()?;
    {
        let mut q = u.query_pairs_mut();
        q.clear();
        for (k, v) in pairs {
            q.append_pair(k, v);
        }
    }
    Some(u.to_string())
}

/// Some pair of the query is `k=v`.
pub open spec fn has_pair(pairs: Seq<(Seq<char>, Seq<char>)>, k: Seq<char>, v: Seq<char>) -> bool {
    exists|i: int| 0 <= i < pairs.len() && #[trigger] pairs[i] == (k, v)
}

/// Whether some pair of the query is `k=v`.
pub(crate) fn has_pair_exec(pairs: &Vec<(String, String)>, k: &str, v: &str) -> (r: bool)
    ensures
        r == has_pair(pairs_of(pairs@), k@, v@),
{
    let ghost pv = pairs_of(pairs@);
    let mut i: usize = 0;
    while i < pairs.len()
        invariant
            i <= pairs@.len(),
            pv == pairs_of(pairs@),
            forall|j: int| 0 <= j < i ==> #[trigger] pv[j] != (k@, v@),
        decreases pairs@.len() - i,
    {
        let (a, b) = &pairs[i];
        assert(pv[i as int] == (a@, b@));
        if crate::text::chars_equal(&chars_of(a.as_str()), &chars_of(k)) && crate::text::chars_equal(
            &chars_of(b.as_str()),
            &chars_of(v),
        ) {
            return true;
        }
        i = i + 1;
    }
    false
}

/// The playlist address of a player script: its address with the query
/// rebuilt as `h=1` (when full HD may play), `b=1` (when the address had
/// it), then the token and the expiry.
pub open spec fn vixcloud_url(script: Seq<char>) -> Option<Seq<char>> {
    match (
        regex_group(TOKEN_PATTERN@, script, 1),
        regex_group(EXPIRES_PATTERN@, script, 1),
        regex_group(URL_PATTERN@, script, 1),
    ) {
        (Some(token), Some(expires), Some(base)) => match url_query_of(base) {
            Some(pairs) => {
                let fhd = regex_group(FHD_PATTERN@, script, 1) == Some("true"@);
                let has_b = has_pair(pairs, "b"@, "1"@);
                url_with_query_of(
                    base,
                    (if fhd {
                        seq![("h"@, "1"@)]
                    } else {
                        Seq::empty()
                    }) + (if has_b {
                        seq![("b"@, "1"@)]
                    } else {
                        Seq::empty()
                    }) + seq![("token"@, token), ("expires"@, expires)],
                )
            },
            None => None,
        },
        _ => None,
    }
}

/// Appends a pair of texts.
fn push_pair(v: &mut Vec<(String, String)>, k: &str, val: &str)
    ensures
        pairs_of(final(v)@) == pairs_of(old(v)@).push((k@, val@)),
{
    let ghost before = v@;
    v.push((k.to_owned(), val.to_owned()));
    assert(pairs_of(v@) =~= pairs_of(before).push((k@, val@)));
}

/// The playlist address of a player script, if it names one.
pub fn parse_vixcloud_hls(script: &str) -> (r: Option<String>)
    ensures
        text_of(r) == vixcloud_url(script@),
{
    let token = match capture_group(TOKEN_PATTERN, script, 1) {
        Some(t) => t,
        None => return None,
    };
    let expires = match capture_group(EXPIRES_PATTERN, script, 1) {
        Some(e) => e,
        None => return None,
    };
    let base = match capture_group(URL_PATTERN, script, 1) {
        Some(u) => u,
        None => return None,
    };
    let fhd = match capture_group(FHD_PATTERN, script, 1) {
        Some(f) => crate::text::chars_equal(&chars_of(f.as_str()), &chars_of("true")),
        None => false,
    };
    let pairs = match query_pairs(base.as_str()) {
        Some(p) => p,
        None => return None,
    };
    let has_b = has_pair_exec(&pairs, "b", "1");
    let mut q: Vec<(String, String)> = Vec::new();
    if fhd {
        push_pair(&mut q, "h", "1");
    }
    if has_b {
        push_pair(&mut q, "b", "1");
    }
    push_pair(&mut q, "token", token.as_str());
    push_pair(&mut q, "expires", expires.as_str());
    assert(pairs_of(q@) =~= (if fhd {
        seq![("h"@, "1"@)]
    } else {
        Seq::empty()
    }) + (if has_b {
        seq![("b"@, "1"@)]
    } else {
        Seq::empty()
    }) + seq![("token"@, token@), ("expires"@, expires@)]);
    with_query(base.as_str(), &q)
}

/// `s` without trailing slashes.
pub open spec fn trim_slashes(s: Seq<char>) -> Seq<char>
    decreases s.len(),
{
    if s.len() > 0 && s.last() == '/' {
        trim_slashes(s.drop_last())
    } else {
        s
    }
}

/// The address a domain list gives for a site, without trailing slashes,
/// when it is an `http` address.
pub open spec fn domain_text(full_url: Option<String>) -> Option<Seq<char>> {
    domain_of_text(text_of(full_url))
}

/// The address a `full_url` text gives: without trailing slashes, when it
/// is a web address.
pub open spec fn domain_of_text(full_url: Option<Seq<char>>) -> Option<Seq<char>> {
    match full_url {
        Some(u) => if has_prefix(trim_slashes(u), "http"@) {
            Some(trim_slashes(u))
        } else {
            None
        },
        None => None,
    }
}

/// The current address of a mirror-hopping site, from the `full_url` the
/// domain list gives for it.
pub fn domain_from(full_url: &Option<String>) -> (r: Option<String>)
    ensures
        text_of(r) == domain_text(*full_url),
{
    let u = match full_url {
        Some(u) => u,
        None => return None,
    };
    let v = chars_of(u.as_str());
    let mut n: usize = v.len();
    assert(v@.take(n as int) =~= v@);
    while n > 0 && v[n - 1] == '/'
        invariant
            n <= v@.len(),
            trim_slashes(v@) == trim_slashes(v@.take(n as int)),
        decreases n,
    {
        assert(v@.take(n as int).drop_last() =~= v@.take(n - 1));
        n = n - 1;
    }
    let mut out: Vec<char> = Vec::new();
    let mut i: usize = 0;
    while i < n
        invariant
            i <= n <= v@.len(),
            out@ =~= v@.take(i as int),
        decreases n - i,
    {
        out.push(v[i]);
        i = i + 1;
    }
    assert(trim_slashes(v@.take(n as int)) == v@.take(n as int));
    let http = chars_of("http");
    if occurs_at_exec(&out, &http, 0) {
        Some(string_of(&out))
    } else {
        None
    }
}

/// The current address of a site in the domain list: the `full_url` of
/// its entry, with trailing slashes removed.
pub fn domain_in_list(list: &crate::json::Json, key: &str) -> (r: Option<String>)
    ensures
        text_of(r) == domain_of_text(
            crate::json::text_at(crate::json::field(crate::json::field(Some(list@), key@), "full_url"@)),
        ),
{
    let full = crate::json::text_in(crate::json::member(crate::json::member(Some(list), key), "full_url"));
    domain_from(&full)
}

/// How long to wait after failed domain lookup number `attempt` (from 0)
/// before the next: half a second more each time, and no further attempt
/// after the third.
pub fn retry_delay_ms(attempt: u64) -> (r: Option<u64>)
    ensures
        attempt < 2 ==> r == Some((500 * (attempt + 1)) as u64),
        attempt >= 2 ==> r is None,
{
    if attempt < 2 {
        Some(500 * (attempt + 1))
    } else {
        None
    }
}

} // verus!
