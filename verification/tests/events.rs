use wikidumpgrep::ScanError;
use wikidumpgrep::events::Event;
use wikidumpgrep::pattern::Pattern;
use wikidumpgrep::scan::scan_events;

fn start(name: &str) -> Event {
    Event::Start(name.to_string())
}

fn text(content: &str) -> Event {
    Event::Text(content.to_string())
}

fn end(name: &str) -> Event {
    Event::End(name.to_string())
}

fn page(title: &str, ns: &str, body: &str) -> Vec<Event> {
    vec![
        start("page"),
        start("title"),
        text(title),
        end("title"),
        start("ns"),
        text(ns),
        end("ns"),
        start("text"),
        text(body),
        end("text"),
        end("page"),
    ]
}

fn nss(items: &[&str]) -> Vec<String> {
    items.iter().map(|s| s.to_string()).collect()
}

#[test]
fn pattern_compile_rejects_bad_syntax() {
    assert!(matches!(Pattern::compile("["), Err(ScanError::PatternError)));
    assert!(matches!(Pattern::compile("(unclosed"), Err(ScanError::PatternError)));
    assert!(Pattern::compile("a(b)?c").is_ok());
}

#[test]
fn pattern_is_match_searches_substrings() {
    let p = Pattern::compile("l.ha").unwrap();
    assert!(p.is_match("some alpha here"));
    assert!(!p.is_match("beta"));
}

#[test]
fn event_scan_empty_stream() {
    let events = vec![Event::Eof];
    let p = Pattern::compile("alpha").unwrap();
    let r = scan_events(&events, &p, &nss(&[]));
    assert_eq!(r, Ok(vec![]));
}

#[test]
fn event_scan_matching_page() {
    let mut events = page("A", "0", "alpha beta");
    events.push(Event::Eof);
    let p = Pattern::compile("alpha").unwrap();
    let r = scan_events(&events, &p, &nss(&[]));
    assert_eq!(r, Ok(vec!["A".to_string()]));
}

#[test]
fn event_scan_skips_excluded_namespace() {
    let mut events = page("Hidden", "1", "alpha");
    events.extend(page("Seen", "0", "alpha"));
    events.push(Event::Eof);
    let p = Pattern::compile("alpha").unwrap();
    let r = scan_events(&events, &p, &nss(&["0"]));
    assert_eq!(r, Ok(vec!["Seen".to_string()]));
}

#[test]
fn event_scan_malformed_title() {
    let events = vec![start("page"), start("title"), start("b"), Event::Eof];
    let p = Pattern::compile("alpha").unwrap();
    let r = scan_events(&events, &p, &nss(&[]));
    assert_eq!(r, Err(ScanError::ParseError));
}

#[test]
fn event_scan_stream_without_eof_marker() {
    let events = page("A", "0", "alpha");
    let p = Pattern::compile("alpha").unwrap();
    let r = scan_events(&events, &p, &nss(&[]));
    assert_eq!(r, Err(ScanError::ParseError));
}

#[test]
fn event_scan_eof_inside_skip_is_malformed() {
    let events = vec![
        start("page"),
        start("ns"),
        text("1"),
        end("ns"),
        Event::Eof,
    ];
    let p = Pattern::compile("alpha").unwrap();
    let r = scan_events(&events, &p, &nss(&["0"]));
    assert_eq!(r, Err(ScanError::ParseError));
}

#[test]
fn event_scan_other_events_are_ignored() {
    let mut events = vec![Event::Other, start("mediawiki"), text("  ")];
    events.extend(page("A", "0", "alpha"));
    events.push(end("mediawiki"));
    events.push(Event::Eof);
    let p = Pattern::compile("alpha").unwrap();
    let r = scan_events(&events, &p, &nss(&[]));
    assert_eq!(r, Ok(vec!["A".to_string()]));
}

#[test]
fn event_scan_skip_counts_nested_page_elements() {
    let mut events = vec![
        start("page"),
        start("title"),
        text("Outer"),
        end("title"),
        start("ns"),
        text("1"),
        end("ns"),
        start("page"),
        text("alpha nested"),
        end("page"),
        start("text"),
        text("alpha outer"),
        end("text"),
        end("page"),
    ];
    events.extend(page("Kept", "0", "alpha"));
    events.push(Event::Eof);
    let p = Pattern::compile("alpha").unwrap();
    let r = scan_events(&events, &p, &nss(&["0"]));
    assert_eq!(r, Ok(vec!["Kept".to_string()]));
}

#[test]
fn event_scan_skip_ends_at_matching_close() {
    let events = vec![
        start("page"),
        start("ns"),
        text("1"),
        start("page"),
        end("page"),
        end("page"),
        Event::Eof,
    ];
    let p = Pattern::compile("alpha").unwrap();
    let r = scan_events(&events, &p, &nss(&["0"]));
    assert_eq!(r, Ok(vec![]));
}
