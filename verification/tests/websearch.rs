use openrust_core::websearch::{
    attempt_note, decode, engines_for, extract, fallback_note, no_results_text, parse_bing, parse_ddg,
    results_text, search_limit, strip_tags, AttemptFailure, Engine, Sr,
};

#[test]
fn strips() {
    assert_eq!(strip_tags("<b>Hi</b>"), "Hi");
}

#[test]
fn decodes() {
    assert_eq!(decode("&amp;&lt;"), "&<");
}

#[test]
fn extracts() {
    assert_eq!(
        extract(r#"<div class="title">Hello</div>"#, "title\">", "</div>").as_deref(),
        Some("Hello")
    );
}

#[test]
fn parses_bing_results() {
    let html = r#"<ol id="b_results">
<li class="b_algo"><h2><a href="https://example.com/a" target="_blank">Example Title</a></h2>
<div class="b_caption"><p>First snippet here.</p></div></li>
<li class="b_algo"><h2><a href="https://example.com/b">Second &amp; Title</a></h2>
<div class="b_caption"><p class="b_lineclamp2">Second snippet.</p></div></li>
</ol>"#;
    let results = parse_bing(html, 10);
    assert_eq!(results.len(), 2);
    assert_eq!(results[0].title, "Example Title");
    assert_eq!(results[0].url, "https://example.com/a");
    assert_eq!(results[0].snippet, "First snippet here.");
    assert_eq!(results[1].title, "Second & Title");
    assert_eq!(results[1].snippet, "Second snippet.");
}

#[test]
fn parses_ddg_results() {
    let html = r#"<div class="result__body">
<a class="result__a" href="https://ddg.example/x">DDG Title</a>
<a class="result__url" href="https://ddg.example/x">ddg.example</a>
<a class="result__snippet">DDG snippet text</a>
</div>"#;
    let results = parse_ddg(html, 10);
    assert_eq!(results.len(), 1);
    assert_eq!(results[0].title, "DDG Title");
    assert_eq!(results[0].snippet, "DDG snippet text");
}

#[test]
fn limit_caps_result_count() {
    let html = r#"<li class="b_algo"><h2><a href="https://a">A</a></h2><li class="b_algo"><h2><a href="https://b">B</a></h2>"#;
    assert_eq!(parse_bing(html, 1).len(), 1);
    assert_eq!(parse_bing(html, 0).len(), 0);
    assert_eq!(parse_bing(html, 5).len(), 2);
}

#[test]
fn engine_urls_are_percent_encoded() {
    assert_eq!(Engine::Bing.url("a b&c"), "https://www.bing.com/search?q=a%20b%26c");
    assert_eq!(Engine::DuckDuckGo.url("é"), "https://html.duckduckgo.com/html/?q=%C3%A9");
    assert_eq!(Engine::Bing.name(), "bing");
    assert_eq!(Engine::DuckDuckGo.name(), "duckduckgo");
}

#[test]
fn decode_replaces_all_occurrences() {
    assert_eq!(decode("&quot;x&quot; &#x27;y&#x27; &gt;"), "\"x\" 'y' >");
}

#[test]
fn engine_preference_picks_engines() {
    assert_eq!(engines_for("bing"), vec![Engine::Bing]);
    assert_eq!(engines_for("DDG"), vec![Engine::DuckDuckGo]);
    assert_eq!(engines_for("DuckDuckGo"), vec![Engine::DuckDuckGo]);
    assert_eq!(engines_for("auto"), vec![Engine::Bing, Engine::DuckDuckGo]);
    assert_eq!(engines_for(""), vec![Engine::Bing, Engine::DuckDuckGo]);
}

#[test]
fn search_limit_defaults_and_caps() {
    assert_eq!(search_limit(None), 10);
    assert_eq!(search_limit(Some(5)), 5);
    assert_eq!(search_limit(Some(50)), 20);
}

#[test]
fn results_are_numbered_under_the_engine() {
    let results = vec![
        Sr { title: "A".to_string(), url: "https://a".to_string(), snippet: "first".to_string() },
        Sr { title: "B".to_string(), url: "https://b".to_string(), snippet: "second".to_string() },
    ];
    assert_eq!(
        results_text(Engine::Bing, &results),
        "[engine: bing]\n1. A\n   https://a\n   first\n\n2. B\n   https://b\n   second"
    );
    assert_eq!(results_text(Engine::DuckDuckGo, &Vec::new()), "[engine: duckduckgo]\n");
}

#[test]
fn failed_attempts_are_noted() {
    let notes = vec![
        attempt_note(Engine::Bing, &AttemptFailure::Http(429)),
        attempt_note(Engine::DuckDuckGo, &AttemptFailure::NoResults),
    ];
    assert_eq!(notes[0], "bing: HTTP 429");
    assert_eq!(notes[1], "duckduckgo: no results (possible rate-limit)");
    assert_eq!(attempt_note(Engine::Bing, &AttemptFailure::ReadFailed("eof".to_string())), "bing: read failed (eof)");
    assert_eq!(attempt_note(Engine::Bing, &AttemptFailure::RequestFailed("dns".to_string())), "bing: request failed (dns)");
    assert_eq!(
        no_results_text(&notes),
        "No results found for this query. (attempts: bing: HTTP 429; duckduckgo: no results (possible rate-limit))"
    );
    assert_eq!(fallback_note(&notes).unwrap(), "bing: HTTP 429; duckduckgo: no results (possible rate-limit)");
    assert!(fallback_note(&Vec::new()).is_none());
}
