use streamvault::provider::streaming_community::extract_version_from_html;
use streamvault::provider::vixcloud::{iframe_src, player_stream, stream_from_player};
use streamvault::providers::{domain_from, parse_vixcloud_hls, retry_delay_ms, ProviderError};

const SCRIPT: &str = "window.masterPlaylist = { params: { 'token': 'abc', 'expires': '123', }, url: 'https://vixcloud.example/playlist/1?b=1', }; window.canPlayFHD = false";

#[test]
fn playlist_address_of_a_script() {
    assert_eq!(
        parse_vixcloud_hls(SCRIPT).as_deref(),
        Some("https://vixcloud.example/playlist/1?b=1&token=abc&expires=123")
    );
    assert_eq!(parse_vixcloud_hls("token: 'x'"), None);
}

#[test]
fn player_script_stream_with_raw_query() {
    let s = stream_from_player(SCRIPT).unwrap();
    assert_eq!(s.url, "https://vixcloud.example/playlist/1?b=1&token=abc&expires=123");
    assert!(s.headers.is_empty());
    let fhd = SCRIPT.replace("false", "true").replace("?b=1", "?x=2");
    assert_eq!(
        stream_from_player(&fhd).unwrap().url,
        "https://vixcloud.example/playlist/1?h=1&token=abc&expires=123"
    );
    match stream_from_player("nothing") {
        Err(ProviderError::StreamExtraction(m)) => assert_eq!(m, "No token found"),
        other => panic!("unexpected {other:?}"),
    }
    match stream_from_player("'token': 'a'") {
        Err(ProviderError::StreamExtraction(m)) => assert_eq!(m, "No expires found"),
        other => panic!("unexpected {other:?}"),
    }
    match stream_from_player("'token': 'a', 'expires': 'b'") {
        Err(ProviderError::StreamExtraction(m)) => assert_eq!(m, "No URL found"),
        other => panic!("unexpected {other:?}"),
    }
}

#[test]
fn player_page_and_frame() {
    let html = format!("<html><body><script>{SCRIPT}</script><script>var z;</script></body></html>");
    assert_eq!(
        player_stream(&html).unwrap().url,
        "https://vixcloud.example/playlist/1?b=1&token=abc&expires=123"
    );
    assert_eq!(iframe_src("<iframe src=\"https://f.example/e\"></iframe>").unwrap(), "https://f.example/e");
    match iframe_src("<iframe data-src=\"x\"></iframe>") {
        Err(ProviderError::Parse(m)) => assert_eq!(m, "No iframe src found"),
        other => panic!("unexpected {other:?}"),
    }
}

#[test]
fn home_page_version() {
    let html = "<div id=\"app\" data-page=\"{&quot;version&quot;:&quot;v9&quot;}\"></div>";
    assert_eq!(extract_version_from_html(html).unwrap(), "v9");
    let cases = [
        ("<p></p>", "No #app div found"),
        ("<div id=\"app\"></div>", "No data-page attribute"),
        ("<div id=\"app\" data-page=\"{}\"></div>", "No version in data-page"),
    ];
    for (html, msg) in cases {
        match extract_version_from_html(html) {
            Err(ProviderError::Parse(m)) => assert_eq!(m, msg),
            other => panic!("unexpected {other:?}"),
        }
    }
    match extract_version_from_html("<div id=\"app\" data-page=\"{\"></div>") {
        Err(ProviderError::Parse(m)) => assert!(m.starts_with("Invalid data-page JSON: ")),
        other => panic!("unexpected {other:?}"),
    }
}

#[test]
fn domains_and_retries() {
    assert_eq!(domain_from(&Some("https://sc.example///".into())).as_deref(), Some("https://sc.example"));
    assert_eq!(domain_from(&Some("ftp://x".into())), None);
    assert_eq!(domain_from(&None), None);
    assert_eq!(retry_delay_ms(0), Some(500));
    assert_eq!(retry_delay_ms(1), Some(1000));
    assert_eq!(retry_delay_ms(2), None);
}
