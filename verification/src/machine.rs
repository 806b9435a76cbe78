use vstd::prelude::*;
use crate::events::{Event, EventView, title_tag, ns_tag, body_tag, page_tag, tag_eq};
use crate::pattern::{Pattern, regex_match};

verus! {

/// Where the scanner stands between two events.
///
/// `Idle`: waiting for the next structural event. `InTitle`, `InNs`,
/// `InBody`: a title, namespace-id or body element was just opened, and the
/// very next event must be its text content.
#[derive(Clone, Copy)]
pub enum Mode {
    Idle,
    InTitle,
    InNs,
    InBody,
}

/// What one event asks the scanner's driver to do.
///
/// `Proceed`: nothing; go on with the next event. `SkipPage`: the current
/// page's namespace is excluded; discard everything up to the matching
/// close of the enclosing page element. `Emit`: the body matched; record
/// the current title. `Finished`: end-of-stream was reached in a
/// well-formed position. `Malformed`: the stream violates the expected
/// structure; abort.
#[derive(Clone, Copy)]
pub enum Outcome {
    Proceed,
    SkipPage,
    Emit,
    Finished,
    Malformed,
}

/// Whether a page with namespace identifier `ns` is eligible under the
/// allow-set `nss`: an empty allow-set admits every namespace.
pub open spec fn ns_allowed(ns: Seq<char>, nss: Seq<Seq<char>>) -> bool {
    nss.len() == 0 || nss.contains(ns)
}

/// One transition of the scanner: from a mode and a stored title, on one
/// event, to the next mode, the next stored title, and the action asked of
/// the driver.
pub open spec fn step_spec(
    mode: Mode,
    title: Seq<char>,
    ev: EventView,
    pat: Seq<char>,
    nss: Seq<Seq<char>>,
) -> (Mode, Seq<char>, Outcome) {
    match mode {
        Mode::Idle => match ev {
            EventView::Start(name) => {
                if name == title_tag() {
                    (Mode::InTitle, title, Outcome::Proceed)
                } else if name == ns_tag() {
                    (Mode::InNs, title, Outcome::Proceed)
                } else if name == body_tag() {
                    (Mode::InBody, title, Outcome::Proceed)
                } else {
                    (Mode::Idle, title, Outcome::Proceed)
                }
            },
            EventView::Eof => (Mode::Idle, title, Outcome::Finished),
            EventView::Undecodable => (Mode::Idle, title, Outcome::Malformed),
            EventView::Broken => (Mode::Idle, title, Outcome::Malformed),
            _ => (Mode::Idle, title, Outcome::Proceed),
        },
        Mode::InTitle => match ev {
            EventView::Text(t) => (Mode::Idle, t, Outcome::Proceed),
            _ => (Mode::InTitle, title, Outcome::Malformed),
        },
        Mode::InNs => match ev {
            EventView::Text(t) => {
                if ns_allowed(t, nss) {
                    (Mode::Idle, title, Outcome::Proceed)
                } else {
                    (Mode::Idle, title, Outcome::SkipPage)
                }
            },
            _ => (Mode::InNs, title, Outcome::Malformed),
        },
        Mode::InBody => match ev {
            EventView::Text(t) => {
                if regex_match(pat, t) {
                    (Mode::Idle, title, Outcome::Emit)
                } else {
                    (Mode::Idle, title, Outcome::Proceed)
                }
            },
            _ => (Mode::InBody, title, Outcome::Malformed),
        },
    }
}

/// The position just past the close of the enclosing page element, starting
/// at `i` with `depth` page elements opened since the skip began: nested
/// page elements are counted, exactly as the tokenizer's bulk skip counts
/// them. `None` when the stream ends, breaks, or reaches end-of-stream
/// before the matching close.
pub open spec fn skip_close(events: Seq<EventView>, i: int, depth: int) -> Option<int>
    decreases events.len() - i,
{
    if i < 0 || i >= events.len() {
        None
    } else {
        match events[i] {
            EventView::Start(n) => {
                if n == page_tag() {
                    skip_close(events, i + 1, depth + 1)
                } else {
                    skip_close(events, i + 1, depth)
                }
            },
            EventView::End(n) => {
                if n == page_tag() {
                    if depth == 0 {
                        Some(i + 1)
                    } else {
                        skip_close(events, i + 1, depth - 1)
                    }
                } else {
                    skip_close(events, i + 1, depth)
                }
            },
            EventView::Eof => None,
            EventView::Broken => None,
            _ => skip_close(events, i + 1, depth),
        }
    }
}

/// A successful skip lands strictly ahead, within the stream, and the event
/// just before the landing position is the close of a page element.
pub proof fn lemma_skip_close_bounds(events: Seq<EventView>, i: int, depth: int)
    requires
        skip_close(events, i, depth) is Some,
    ensures
        ({
            let j = skip_close(events, i, depth)->Some_0;
            i < j <= events.len() && events[j - 1] == EventView::End(page_tag())
        }),
    decreases events.len() - i,
{
    let j = skip_close(events, i, depth)->Some_0;
    match events[i] {
        EventView::Start(n) => {
            if n == page_tag() {
                lemma_skip_close_bounds(events, i + 1, depth + 1);
            } else {
                lemma_skip_close_bounds(events, i + 1, depth);
            }
        },
        EventView::End(n) => {
            if n == page_tag() {
                if depth == 0 {
                } else {
                    lemma_skip_close_bounds(events, i + 1, depth - 1);
                }
            } else {
                lemma_skip_close_bounds(events, i + 1, depth);
            }
        },
        _ => {
            lemma_skip_close_bounds(events, i + 1, depth);
        },
    }
}

/// The titles of the matching pages among the events `events[i..]`, scanned
/// from mode `mode` with stored title `title`, in stream order; `None` when
/// the stream violates the expected structure, including running out of
/// events before an end-of-stream event. A page whose namespace is excluded
/// is passed over in one leap, to just past the close of its page element.
pub open spec fn scan_from(
    events: Seq<EventView>,
    i: int,
    mode: Mode,
    title: Seq<char>,
    pat: Seq<char>,
    nss: Seq<Seq<char>>,
) -> Option<Seq<Seq<char>>>
    decreases events.len() - i,
    via scan_from_decreases
{
    if i < 0 || i >= events.len() {
        None
    } else {
        let (m2, t2, act) = step_spec(mode, title, events[i], pat, nss);
        match act {
            Outcome::Finished => Some(Seq::empty()),
            Outcome::Malformed => None,
            Outcome::Emit => match scan_from(events, i + 1, m2, t2, pat, nss) {
                Some(rest) => Some(seq![t2].add(rest)),
                None => None,
            },
            Outcome::SkipPage => match skip_close(events, i + 1, 0) {
                Some(j) => scan_from(events, j, m2, t2, pat, nss),
                None => None,
            },
            Outcome::Proceed => scan_from(events, i + 1, m2, t2, pat, nss),
        }
    }
}

#[via_fn]
proof fn scan_from_decreases(
    events: Seq<EventView>,
    i: int,
    mode: Mode,
    title: Seq<char>,
    pat: Seq<char>,
    nss: Seq<Seq<char>>,
) {
    if 0 <= i < events.len() {
        if skip_close(events, i + 1, 0) is Some {
            lemma_skip_close_bounds(events, i + 1, 0);
        }
    }
}

/// The titles of the matching pages of the whole event stream, in stream
/// order; `None` when the stream violates the expected structure.
pub open spec fn scan_spec(
    events: Seq<EventView>,
    pat: Seq<char>,
    nss: Seq<Seq<char>>,
) -> Option<Seq<Seq<char>>> {
    scan_from(events, 0, Mode::Idle, Seq::empty(), pat, nss)
}

/// The titles already emitted (`acc`) followed by the titles still to come
/// from `events[i..]`; `None` when the rest of the stream violates the
/// expected structure.
pub open spec fn scan_tail(
    events: Seq<EventView>,
    i: int,
    mode: Mode,
    title: Seq<char>,
    acc: Seq<Seq<char>>,
    pat: Seq<char>,
    nss: Seq<Seq<char>>,
) -> Option<Seq<Seq<char>>> {
    match scan_from(events, i, mode, title, pat, nss) {
        Some(ms) => Some(acc + ms),
        None => None,
    }
}

/// One unfolding of `scan_tail`: consuming the event at position `i` either
/// finishes with exactly the accumulated titles, aborts, leaps past a
/// skipped page, or continues at `i + 1` in the state that `step_spec`
/// gives, with the emitted title (if any) moved into the accumulator.
pub proof fn lemma_scan_tail_step(
    events: Seq<EventView>,
    i: int,
    mode: Mode,
    title: Seq<char>,
    acc: Seq<Seq<char>>,
    pat: Seq<char>,
    nss: Seq<Seq<char>>,
)
    requires
        0 <= i < events.len(),
    ensures
        ({
            let (m2, t2, act) = step_spec(mode, title, events[i], pat, nss);
            scan_tail(events, i, mode, title, acc, pat, nss) == (match act {
                Outcome::Finished => Some(acc),
                Outcome::Malformed => None::<Seq<Seq<char>>>,
                Outcome::Emit => scan_tail(events, i + 1, m2, t2, acc.push(t2), pat, nss),
                Outcome::SkipPage => match skip_close(events, i + 1, 0) {
                    Some(j) => scan_tail(events, j, m2, t2, acc, pat, nss),
                    None => None,
                },
                Outcome::Proceed => scan_tail(events, i + 1, m2, t2, acc, pat, nss),
            })
        }),
{
    let (m2, t2, act) = step_spec(mode, title, events[i], pat, nss);
    match act {
        Outcome::Finished => {
            assert(acc + Seq::<Seq<char>>::empty() =~= acc);
        },
        Outcome::Malformed => {},
        Outcome::Emit => {
            match scan_from(events, i + 1, m2, t2, pat, nss) {
                Some(rest) => {
                    assert(acc + (seq![t2].add(rest)) =~= acc.push(t2) + rest);
                },
                None => {},
            }
        },
        _ => {},
    }
}

/// Performs one transition of the scanner on the event `ev`, updating the
/// stored title in place and returning the next mode and the action asked of
/// the driver, exactly as `step_spec` says.
pub fn step(
    mode: Mode,
    title: &mut String,
    ev: &Event,
    pat: &Pattern,
    nss: &Vec<String>,
) -> (r: (Mode, Outcome))
    ensures
        ({
            let (m2, t2, out) = step_spec(mode, old(title)@, ev@, pat.src(), nss.deep_view());
            r.0 == m2 && final(title)@ == t2 && r.1 == out
        }),
{
    match mode {
        Mode::Idle => match ev {
            Event::Start(name) => {
                if tag_eq(name, "title") {
                    (Mode::InTitle, Outcome::Proceed)
                } else if tag_eq(name, "ns") {
                    (Mode::InNs, Outcome::Proceed)
                } else if tag_eq(name, "text") {
                    (Mode::InBody, Outcome::Proceed)
                } else {
                    (Mode::Idle, Outcome::Proceed)
                }
            },
            Event::Eof => (Mode::Idle, Outcome::Finished),
            _ => (Mode::Idle, Outcome::Proceed),
        },
        Mode::InTitle => match ev {
            Event::Text(t) => {
                *title = t.clone();
                (Mode::Idle, Outcome::Proceed)
            },
            _ => (Mode::InTitle, Outcome::Malformed),
        },
        Mode::InNs => match ev {
            Event::Text(t) => {
                if ns_in_set(t, nss) {
                    (Mode::Idle, Outcome::Proceed)
                } else {
                    (Mode::Idle, Outcome::SkipPage)
                }
            },
            _ => (Mode::InNs, Outcome::Malformed),
        },
        Mode::InBody => match ev {
            Event::Text(t) => {
                if pat.is_match(t.as_str()) {
                    (Mode::Idle, Outcome::Emit)
                } else {
                    (Mode::Idle, Outcome::Proceed)
                }
            },
            _ => (Mode::InBody, Outcome::Malformed),
        },
    }
}

/// Whether `ns` is eligible under the allow-set `nss`, as `ns_allowed` says:
/// an empty allow-set admits every namespace.
pub fn ns_in_set(ns: &String, nss: &Vec<String>) -> (r: bool)
    ensures
        r == ns_allowed(ns@, nss.deep_view()),
{
    if nss.len() == 0 {
        return true;
    }
    let mut i: usize = 0;
    while i < nss.len()
        invariant
            0 <= i <= nss.len(),
            forall|j: int| 0 <= j < i ==> nss.deep_view()[j] != ns@,
        decreases nss.len() - i,
    {
        if *ns == nss[i] {
            assert(nss.deep_view()[i as int] == ns@);
            return true;
        }
        i = i + 1;
    }
    assert(!nss.deep_view().contains(ns@));
    false
}

} // verus!
