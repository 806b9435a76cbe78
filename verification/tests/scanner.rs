use wikidumpgrep::ScanError;
use wikidumpgrep::scan::search_dump;

fn nss(items: &[&str]) -> Vec<String> {
    items.iter().map(|s| s.to_string()).collect()
}

fn three_pages() -> String {
    let mut s = String::new();
    s.push_str("<mediawiki>\n");
    s.push_str("  <page><title>A</title><ns>0</ns><text>alpha beta</text></page>\n");
    s.push_str("  <page><title>B</title><ns>1</ns><text>gamma alpha</text></page>\n");
    s.push_str("  <page><title>C</title><ns>0</ns><text>delta</text></page>\n");
    s.push_str("</mediawiki>\n");
    s
}

#[test]
fn empty_dump_no_matches() {
    let xml = "<mediawiki></mediawiki>";
    let r = search_dump("alpha", xml.as_bytes(), &nss(&[]));
    assert_eq!(r, Ok(vec![]));
}

#[test]
fn empty_input_is_well_formed() {
    let r = search_dump("alpha", b"", &nss(&[]));
    assert_eq!(r, Ok(vec![]));
}

#[test]
fn scenario_three_pages() {
    let xml = three_pages();
    let r = search_dump("alpha", xml.as_bytes(), &nss(&["0"]));
    assert_eq!(r, Ok(vec!["A".to_string()]));
}

#[test]
fn empty_allow_set_admits_all_namespaces() {
    let xml = three_pages();
    let r = search_dump("alpha", xml.as_bytes(), &nss(&[]));
    assert_eq!(r, Ok(vec!["A".to_string(), "B".to_string()]));
}

#[test]
fn match_order_follows_page_order() {
    let mut s = String::new();
    s.push_str("<mediawiki>");
    s.push_str("<page><title>W</title><ns>0</ns><text>none</text></page>");
    s.push_str("<page><title>X</title><ns>0</ns><text>hit here</text></page>");
    s.push_str("<page><title>Y</title><ns>0</ns><text>quiet</text></page>");
    s.push_str("<page><title>Z</title><ns>0</ns><text>another hit</text></page>");
    s.push_str("</mediawiki>");
    let r = search_dump("hit", s.as_bytes(), &nss(&[]));
    assert_eq!(r, Ok(vec!["X".to_string(), "Z".to_string()]));

    let mut t = String::new();
    t.push_str("<mediawiki>");
    t.push_str("<page><title>Z</title><ns>0</ns><text>another hit</text></page>");
    t.push_str("<page><title>Y</title><ns>0</ns><text>quiet</text></page>");
    t.push_str("<page><title>X</title><ns>0</ns><text>hit here</text></page>");
    t.push_str("<page><title>W</title><ns>0</ns><text>none</text></page>");
    t.push_str("</mediawiki>");
    let r = search_dump("hit", t.as_bytes(), &nss(&[]));
    assert_eq!(r, Ok(vec!["Z".to_string(), "X".to_string()]));
}

#[test]
fn matching_page_title_appears_once() {
    let xml = "<mediawiki><page><title>Rep</title><ns>0</ns>\
               <text>alpha alpha alpha</text></page></mediawiki>";
    let r = search_dump("alpha", xml.as_bytes(), &nss(&[]));
    assert_eq!(r, Ok(vec!["Rep".to_string()]));
}

#[test]
fn invalid_pattern_reported_before_input_is_read() {
    // The input is not even well-formed; the pattern error still wins
    // because no byte of the input is consumed.
    let r = search_dump("[", b"<<<not markup", &nss(&[]));
    assert_eq!(r, Err(ScanError::PatternError));
}

#[test]
fn malformed_title_is_a_parse_error() {
    let xml = "<mediawiki><page><title><b>x</b></title><ns>0</ns>\
               <text>alpha</text></page></mediawiki>";
    let r = search_dump("alpha", xml.as_bytes(), &nss(&[]));
    assert_eq!(r, Err(ScanError::ParseError));
}

#[test]
fn truncated_input_is_a_parse_error() {
    let xml = "<mediawiki><page><title>";
    let r = search_dump("alpha", xml.as_bytes(), &nss(&[]));
    assert_eq!(r, Err(ScanError::ParseError));
}

#[test]
fn excluded_namespace_never_contributes() {
    let xml = "<mediawiki><page><title>Hidden</title><ns>1</ns>\
               <text>alpha would match</text></page></mediawiki>";
    let r = search_dump("alpha", xml.as_bytes(), &nss(&["0"]));
    assert_eq!(r, Ok(vec![]));
}

#[test]
fn skipped_page_content_is_not_decoded() {
    // The excluded page's body holds an undefined entity reference: decoding
    // it would fail, so a scanner that read the body would abort. The
    // skip-scan must discard it undecoded and go on to the next page.
    let mut s = String::new();
    s.push_str("<mediawiki>");
    s.push_str("<page><title>Bad</title><ns>1</ns><text>&bogus; alpha</text></page>");
    s.push_str("<page><title>Good</title><ns>0</ns><text>alpha</text></page>");
    s.push_str("</mediawiki>");
    let r = search_dump("alpha", s.as_bytes(), &nss(&["0"]));
    assert_eq!(r, Ok(vec!["Good".to_string()]));
}

#[test]
fn undefined_entity_in_scanned_body_is_a_parse_error() {
    let xml = "<mediawiki><page><title>Bad</title><ns>0</ns>\
               <text>&bogus; alpha</text></page></mediawiki>";
    let r = search_dump("alpha", xml.as_bytes(), &nss(&["0"]));
    assert_eq!(r, Err(ScanError::ParseError));
}

#[test]
fn escaped_content_is_decoded_before_matching() {
    let xml = "<mediawiki><page><title>A&amp;B</title><ns>0</ns>\
               <text>x &lt;alpha&gt; y</text></page></mediawiki>";
    let r = search_dump("<alpha>", xml.as_bytes(), &nss(&[]));
    assert_eq!(r, Ok(vec!["A&B".to_string()]));
}

#[test]
fn pattern_uses_regex_semantics_not_literal_search() {
    let xml = "<mediawiki><page><title>R</title><ns>0</ns>\
               <text>alpha</text></page></mediawiki>";
    assert_eq!(
        search_dump("al.ha", xml.as_bytes(), &nss(&[])),
        Ok(vec!["R".to_string()])
    );
    assert_eq!(search_dump("al[0-9]ha", xml.as_bytes(), &nss(&[])), Ok(vec![]));
    assert_eq!(
        search_dump("^alpha$", xml.as_bytes(), &nss(&[])),
        Ok(vec!["R".to_string()])
    );
}

#[test]
fn match_is_substring_search_not_anchored() {
    let xml = "<mediawiki><page><title>S</title><ns>0</ns>\
               <text>well alpha indeed</text></page></mediawiki>";
    assert_eq!(
        search_dump("alpha", xml.as_bytes(), &nss(&[])),
        Ok(vec!["S".to_string()])
    );
}

#[test]
fn element_attributes_are_tolerated() {
    let xml = "<mediawiki xmlns=\"x\"><page><title>T</title><ns>0</ns>\
               <text bytes=\"5\" xml:space=\"preserve\">alpha</text></page></mediawiki>";
    assert_eq!(
        search_dump("alpha", xml.as_bytes(), &nss(&[])),
        Ok(vec!["T".to_string()])
    );
}

#[test]
fn later_namespace_in_allow_set_is_found() {
    let xml = three_pages();
    let r = search_dump("alpha", xml.as_bytes(), &nss(&["7", "1"]));
    assert_eq!(r, Ok(vec!["B".to_string()]));
}

#[test]
fn nested_page_elements_in_skipped_page_are_counted() {
    // The skip of an excluded page must run to the matching close of its
    // own page element, not to the first close of a nested one: otherwise
    // the rest of the outer page would be scanned with a stale title.
    let mut s = String::new();
    s.push_str("<mediawiki>");
    s.push_str("<page><title>Outer</title><ns>1</ns>");
    s.push_str("<page><text>alpha inside nested</text></page>");
    s.push_str("<text>alpha inside outer</text>");
    s.push_str("</page>");
    s.push_str("<page><title>Kept</title><ns>0</ns><text>alpha</text></page>");
    s.push_str("</mediawiki>");
    let r = search_dump("alpha", s.as_bytes(), &nss(&["0"]));
    assert_eq!(r, Ok(vec!["Kept".to_string()]));
}
