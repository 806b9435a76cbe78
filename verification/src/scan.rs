use vstd::prelude::*;
use crate::ScanError;
use crate::events::{Event, EventView, page_tag, tag_eq, terminal_event};
use crate::machine::{
    Mode, Outcome, lemma_scan_tail_step, lemma_skip_close_bounds, scan_from, scan_spec, scan_tail,
    skip_close, step,
};
use crate::pattern::{Pattern, regex_valid};
use crate::tokenizer::{tokenizer_new, tokenizer_next, tokenizer_skip_page, tokens_of};

verus! {

/// Scans a dump for pages whose body text matches a pattern.
///
/// Compiles `pattern` first: `PatternError` is returned exactly when it is
/// not valid regular-expression syntax, before any event of `dump` is
/// consumed. Otherwise the dump is read as one forward pass of structural
/// events, and the result is exactly what `scan_spec` yields on the dump's
/// tokenization: the titles of the pages whose namespace is eligible under
/// `nss` (an empty `nss` admits every namespace) and whose body matches, in
/// stream order, or `ParseError` where the stream violates the expected
/// structure. A page of an excluded namespace is discarded in bulk, unread.
pub fn search_dump(pattern: &str, dump: &[u8], nss: &Vec<String>) -> (r: Result<
    Vec<String>,
    ScanError,
>)
    ensures
        (r matches Err(e) && e == ScanError::PatternError) <==> !regex_valid(pattern@),
        r matches Ok(titles) ==> scan_spec(tokens_of(dump@), pattern@, nss.deep_view()) == Some(
            titles.deep_view(),
        ),
        r matches Err(e) && e == ScanError::ParseError ==> scan_spec(
            tokens_of(dump@),
            pattern@,
            nss.deep_view(),
        ) is None,
{
    let pat = match Pattern::compile(pattern) {
        Ok(p) => p,
        Err(e) => { return Err(e); },
    };
    let ghost p = pattern@;
    let ghost ns = nss.deep_view();
    let ghost toks = tokens_of(dump@);
    let mut tok = tokenizer_new(dump);
    let mut out: Vec<String> = Vec::new();
    let mut title: String = String::new();
    let mut mode = Mode::Idle;
    proof {
        match scan_from(toks, 0, Mode::Idle, title@, p, ns) {
            Some(ms) => {
                assert(out.deep_view() + ms =~= ms);
            },
            None => {},
        }
    }
    loop
        invariant
            p == pattern@,
            ns == nss.deep_view(),
            pat.src() == p,
            regex_valid(p),
            toks == tokens_of(dump@),
            tok.input() == dump@,
            0 <= tok.taken(),
            tok.taken() < toks.len() || toks.len() == 0,
            scan_tail(toks, tok.taken(), mode, title@, out.deep_view(), p, ns) == scan_spec(
                toks,
                p,
                ns,
            ),
        decreases toks.len() - tok.taken(),
    {
        let ghost taken0 = tok.taken();
        let ghost mode0 = mode;
        let ghost title0 = title@;
        let ghost acc0 = out.deep_view();
        let ev = match tokenizer_next(&mut tok) {
            Some(ev) => ev,
            None => {
                proof {
                    assert(taken0 < toks.len());
                    assert(scan_from(toks, taken0, mode0, title0, p, ns) is None);
                }
                return Err(ScanError::ParseError);
            },
        };
        proof {
            assert(taken0 < toks.len());
            lemma_scan_tail_step(toks, taken0, mode0, title0, acc0, p, ns);
        }
        let (m2, act) = step(mode, &mut title, &ev, &pat, nss);
        mode = m2;
        match act {
            Outcome::Finished => {
                return Ok(out);
            },
            Outcome::Malformed => {
                return Err(ScanError::ParseError);
            },
            Outcome::Emit => {
                out.push(title.clone());
                proof {
                    assert(out.deep_view() =~= acc0.push(title@));
                    assert(!terminal_event(toks[taken0]));
                    if tok.taken() == toks.len() {
                        assert(toks.last() == toks[taken0]);
                        assert(false);
                    }
                }
            },
            Outcome::SkipPage => {
                if !tokenizer_skip_page(&mut tok) {
                    proof {
                        assert(scan_spec(toks, p, ns) is None);
                    }
                    return Err(ScanError::ParseError);
                }
                proof {
                    lemma_skip_close_bounds(toks, taken0 + 1, 0);
                    assert(toks[tok.taken() - 1] == EventView::End(page_tag()));
                    if tok.taken() == toks.len() {
                        assert(toks.last() == toks[tok.taken() - 1]);
                        assert(false);
                    }
                }
            },
            Outcome::Proceed => {
                proof {
                    assert(!terminal_event(toks[taken0]));
                    if tok.taken() == toks.len() {
                        assert(toks.last() == toks[taken0]);
                        assert(false);
                    }
                }
            },
        }
    }
}

/// The position just past the matching close of the enclosing page element,
/// scanning forward from `start` and counting nested page elements, exactly
/// as `skip_close` says; `None` when the events run out or reach the
/// end-of-stream marker first.
fn skip_events(events: &Vec<Event>, start: usize) -> (r: Option<usize>)
    requires
        start <= events.len(),
    ensures
        ({
            let sc = skip_close(events.deep_view(), start as int, 0);
            match r {
                Some(j) => sc == Some(j as int) && start < j <= events.len(),
                None => sc is None,
            }
        }),
{
    let ghost evs = events.deep_view();
    let mut k: usize = start;
    let mut depth: usize = 0;
    while k < events.len()
        invariant
            start <= k <= events.len(),
            depth <= k - start,
            evs == events.deep_view(),
            evs.len() == events.len(),
            skip_close(evs, start as int, 0) == skip_close(evs, k as int, depth as int),
        decreases events.len() - k,
    {
        proof {
            assert(evs[k as int] == events@[k as int]@);
        }
        match &events[k] {
            Event::Start(n) => {
                if tag_eq(n, "page") {
                    depth = depth + 1;
                }
                k = k + 1;
            },
            Event::End(n) => {
                if tag_eq(n, "page") {
                    if depth == 0 {
                        return Some(k + 1);
                    }
                    depth = depth - 1;
                }
                k = k + 1;
            },
            Event::Eof => {
                return None;
            },
            _ => {
                k = k + 1;
            },
        }
    }
    None
}

/// Scans a fully materialized event stream: returns the titles of the pages
/// whose body text matches `pat`, in stream order, restricted to the
/// namespaces of `nss` (an empty `nss` admits every namespace), exactly as
/// `scan_spec` says; returns `ParseError` exactly when the stream violates
/// the expected structure.
pub fn scan_events(events: &Vec<Event>, pat: &Pattern, nss: &Vec<String>) -> (r: Result<
    Vec<String>,
    ScanError,
>)
    ensures
        ({
            let s = scan_spec(events.deep_view(), pat.src(), nss.deep_view());
            match r {
                Ok(titles) => s == Some(titles.deep_view()),
                Err(e) => e == ScanError::ParseError && s is None,
            }
        }),
{
    let ghost evs = events.deep_view();
    let ghost p = pat.src();
    let ghost ns = nss.deep_view();
    let mut out: Vec<String> = Vec::new();
    let mut title: String = String::new();
    let mut mode = Mode::Idle;
    let mut i: usize = 0;
    proof {
        match scan_from(evs, 0, Mode::Idle, title@, p, ns) {
            Some(ms) => {
                assert(out.deep_view() + ms =~= ms);
            },
            None => {},
        }
    }
    loop
        invariant
            0 <= i <= events.len(),
            evs == events.deep_view(),
            p == pat.src(),
            ns == nss.deep_view(),
            evs.len() == events.len(),
            scan_tail(evs, i as int, mode, title@, out.deep_view(), p, ns) == scan_spec(
                evs,
                p,
                ns,
            ),
        decreases events.len() - i,
    {
        if i == events.len() {
            return Err(ScanError::ParseError);
        }
        let ghost i0 = i as int;
        let ghost mode0 = mode;
        let ghost title0 = title@;
        let ghost acc0 = out.deep_view();
        let ev = &events[i];
        proof {
            assert(evs[i0] == events@[i0]@);
            lemma_scan_tail_step(evs, i0, mode0, title0, acc0, p, ns);
        }
        let (m2, act) = step(mode, &mut title, ev, pat, nss);
        mode = m2;
        match act {
            Outcome::Finished => {
                return Ok(out);
            },
            Outcome::Malformed => {
                return Err(ScanError::ParseError);
            },
            Outcome::Emit => {
                out.push(title.clone());
                proof {
                    assert(out.deep_view() =~= acc0.push(title@));
                }
                i = i + 1;
            },
            Outcome::SkipPage => {
                match skip_events(events, i + 1) {
                    Some(j) => {
                        i = j;
                    },
                    None => {
                        return Err(ScanError::ParseError);
                    },
                }
            },
            Outcome::Proceed => {
                i = i + 1;
            },
        }
    }
}

} // verus!

