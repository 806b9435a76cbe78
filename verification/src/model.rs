use vstd::prelude::*;
use crate::events::{EventView, body_tag, ns_tag, page_tag, title_tag};
use crate::machine::{
    Mode, Outcome, lemma_skip_close_bounds, ns_allowed, scan_from, scan_spec, skip_close,
    step_spec,
};
use crate::pattern::regex_match;

verus! {

/// One page record of a dump: its title, its namespace identifier, and its
/// body text.
pub struct PageView {
    pub title: Seq<char>,
    pub ns: Seq<char>,
    pub body: Seq<char>,
}

/// The event encoding of one page record: a page element holding a title
/// element, a namespace-id element and a body-text element, each a leaf
/// whose text directly follows its start.
pub open spec fn page_events(pg: PageView) -> Seq<EventView> {
    seq![
        EventView::Start(page_tag()),
        EventView::Start(title_tag()),
        EventView::Text(pg.title),
        EventView::End(title_tag()),
        EventView::Start(ns_tag()),
        EventView::Text(pg.ns),
        EventView::End(ns_tag()),
        EventView::Start(body_tag()),
        EventView::Text(pg.body),
        EventView::End(body_tag()),
        EventView::End(page_tag()),
    ]
}

/// The event stream of a well-formed dump: the pages' encodings in order,
/// closed by the end-of-stream marker.
pub open spec fn dump_events(pages: Seq<PageView>) -> Seq<EventView>
    decreases pages.len(),
{
    if pages.len() == 0 {
        seq![EventView::Eof]
    } else {
        page_events(pages[0]) + dump_events(pages.drop_first())
    }
}

/// The titles the scan owes on a well-formed dump: one title per page whose
/// namespace is eligible and whose body matches the pattern, in page order.
pub open spec fn expected_matches(
    pages: Seq<PageView>,
    pat: Seq<char>,
    nss: Seq<Seq<char>>,
) -> Seq<Seq<char>>
    decreases pages.len(),
{
    if pages.len() == 0 {
        Seq::empty()
    } else {
        let head: Seq<Seq<char>> = if ns_allowed(pages[0].ns, nss) && regex_match(
            pat,
            pages[0].body,
        ) {
            seq![pages[0].title]
        } else {
            Seq::empty()
        };
        head + expected_matches(pages.drop_first(), pat, nss)
    }
}

/// The pages of a dump whose namespace is eligible and whose body matches
/// the pattern, in page order.
pub open spec fn matching_pages(
    pages: Seq<PageView>,
    pat: Seq<char>,
    nss: Seq<Seq<char>>,
) -> Seq<PageView>
    decreases pages.len(),
{
    if pages.len() == 0 {
        Seq::empty()
    } else {
        let head: Seq<PageView> = if ns_allowed(pages[0].ns, nss) && regex_match(
            pat,
            pages[0].body,
        ) {
            seq![pages[0]]
        } else {
            Seq::empty()
        };
        head + matching_pages(pages.drop_first(), pat, nss)
    }
}

/// The four element names the scanner reacts to are pairwise distinct.
pub proof fn lemma_tags_distinct()
    ensures
        title_tag() != ns_tag(),
        title_tag() != body_tag(),
        title_tag() != page_tag(),
        ns_tag() != body_tag(),
        ns_tag() != page_tag(),
        body_tag() != page_tag(),
{
    reveal_strlit("title");
    reveal_strlit("ns");
    reveal_strlit("text");
    reveal_strlit("page");
    assert(title_tag().len() == 5);
    assert(ns_tag().len() == 2);
    assert(body_tag().len() == 4);
    assert(page_tag().len() == 4);
    assert(body_tag()[0] == 't');
    assert(page_tag()[0] == 'p');
}

/// The skip leap is oblivious to how the events reached their position:
/// from position `pre.len() + k` of `pre + rest` it lands where the leap
/// over `rest` from position `k` lands, moved by `pre.len()`.
pub proof fn lemma_skip_close_shift(pre: Seq<EventView>, rest: Seq<EventView>, k: int, d: int)
    requires
        0 <= k,
    ensures
        skip_close(pre + rest, pre.len() + k, d) == (match skip_close(rest, k, d) {
            Some(j) => Some(pre.len() + j),
            None => None,
        }),
    decreases rest.len() - k,
{
    if k >= rest.len() {
    } else {
        assert((pre + rest)[pre.len() + k] == rest[k]);
        match rest[k] {
            EventView::Start(n) => {
                if n == page_tag() {
                    lemma_skip_close_shift(pre, rest, k + 1, d + 1);
                } else {
                    lemma_skip_close_shift(pre, rest, k + 1, d);
                }
            },
            EventView::End(n) => {
                if n == page_tag() {
                    if d == 0 {
                    } else {
                        lemma_skip_close_shift(pre, rest, k + 1, d - 1);
                    }
                } else {
                    lemma_skip_close_shift(pre, rest, k + 1, d);
                }
            },
            EventView::Eof => {},
            EventView::Broken => {},
            _ => {
                lemma_skip_close_shift(pre, rest, k + 1, d);
            },
        }
    }
}

/// Scanning is oblivious to how the events reached their position: from
/// position `pre.len() + i` of `pre + rest` it yields what scanning `rest`
/// from position `i` yields.
pub proof fn lemma_scan_shift(
    pre: Seq<EventView>,
    rest: Seq<EventView>,
    i: int,
    mode: Mode,
    title: Seq<char>,
    pat: Seq<char>,
    nss: Seq<Seq<char>>,
)
    requires
        0 <= i,
    ensures
        scan_from(pre + rest, pre.len() + i, mode, title, pat, nss) == scan_from(
            rest,
            i,
            mode,
            title,
            pat,
            nss,
        ),
    decreases rest.len() - i,
{
    if i >= rest.len() {
    } else {
        assert((pre + rest)[pre.len() + i] == rest[i]);
        let (m2, t2, act) = step_spec(mode, title, rest[i], pat, nss);
        match act {
            Outcome::Finished => {},
            Outcome::Malformed => {},
            Outcome::SkipPage => {
                lemma_skip_close_shift(pre, rest, i + 1, 0);
                match skip_close(rest, i + 1, 0) {
                    Some(j) => {
                        lemma_skip_close_bounds(rest, i + 1, 0);
                        lemma_scan_shift(pre, rest, j, m2, t2, pat, nss);
                    },
                    None => {},
                }
            },
            _ => {
                lemma_scan_shift(pre, rest, i + 1, m2, t2, pat, nss);
            },
        }
    }
}

/// The scan of a well-formed dump, entered with any stored title, succeeds
/// and yields exactly the owed titles.
proof fn lemma_scan_pages_from(
    pages: Seq<PageView>,
    t0: Seq<char>,
    pat: Seq<char>,
    nss: Seq<Seq<char>>,
)
    ensures
        scan_from(dump_events(pages), 0, Mode::Idle, t0, pat, nss) == Some(
            expected_matches(pages, pat, nss),
        ),
    decreases pages.len(),
{
    lemma_tags_distinct();
    let evs = dump_events(pages);
    if pages.len() == 0 {
        assert(scan_from(evs, 0, Mode::Idle, t0, pat, nss) == Some(Seq::<Seq<char>>::empty()));
    } else {
        let p0 = pages[0];
        let rest = pages.drop_first();
        let pe = page_events(p0);
        let re = dump_events(rest);
        assert(evs == pe + re);
        assert(evs.len() == 11 + re.len());
        let t1 = p0.title;
        lemma_scan_shift(pe, re, 0, Mode::Idle, t1, pat, nss);
        lemma_scan_pages_from(rest, t1, pat, nss);
        let tail = expected_matches(rest, pat, nss);
        assert(scan_from(evs, 11, Mode::Idle, t1, pat, nss) == Some(tail));
        assert(scan_from(evs, 0, Mode::Idle, t0, pat, nss) == scan_from(
            evs,
            1,
            Mode::Idle,
            t0,
            pat,
            nss,
        ));
        assert(scan_from(evs, 1, Mode::Idle, t0, pat, nss) == scan_from(
            evs,
            2,
            Mode::InTitle,
            t0,
            pat,
            nss,
        ));
        assert(scan_from(evs, 2, Mode::InTitle, t0, pat, nss) == scan_from(
            evs,
            3,
            Mode::Idle,
            t1,
            pat,
            nss,
        ));
        assert(scan_from(evs, 3, Mode::Idle, t1, pat, nss) == scan_from(
            evs,
            4,
            Mode::Idle,
            t1,
            pat,
            nss,
        ));
        assert(scan_from(evs, 4, Mode::Idle, t1, pat, nss) == scan_from(
            evs,
            5,
            Mode::InNs,
            t1,
            pat,
            nss,
        ));
        if ns_allowed(p0.ns, nss) {
            assert(scan_from(evs, 5, Mode::InNs, t1, pat, nss) == scan_from(
                evs,
                6,
                Mode::Idle,
                t1,
                pat,
                nss,
            ));
            assert(scan_from(evs, 6, Mode::Idle, t1, pat, nss) == scan_from(
                evs,
                7,
                Mode::Idle,
                t1,
                pat,
                nss,
            ));
            assert(scan_from(evs, 7, Mode::Idle, t1, pat, nss) == scan_from(
                evs,
                8,
                Mode::InBody,
                t1,
                pat,
                nss,
            ));
            assert(scan_from(evs, 9, Mode::Idle, t1, pat, nss) == scan_from(
                evs,
                10,
                Mode::Idle,
                t1,
                pat,
                nss,
            ));
            assert(scan_from(evs, 10, Mode::Idle, t1, pat, nss) == scan_from(
                evs,
                11,
                Mode::Idle,
                t1,
                pat,
                nss,
            ));
            if regex_match(pat, p0.body) {
                assert(scan_from(evs, 8, Mode::InBody, t1, pat, nss) == Some(seq![t1].add(tail)));
                assert(expected_matches(pages, pat, nss) == seq![t1] + tail);
            } else {
                assert(scan_from(evs, 8, Mode::InBody, t1, pat, nss) == Some(tail));
                assert(expected_matches(pages, pat, nss) == Seq::<Seq<char>>::empty() + tail);
                assert(Seq::<Seq<char>>::empty() + tail =~= tail);
            }
        } else {
            assert(skip_close(evs, 6, 0) == skip_close(evs, 7, 0));
            assert(skip_close(evs, 7, 0) == skip_close(evs, 8, 0));
            assert(skip_close(evs, 8, 0) == skip_close(evs, 9, 0));
            assert(skip_close(evs, 9, 0) == skip_close(evs, 10, 0));
            assert(skip_close(evs, 10, 0) == Some(11int));
            assert(scan_from(evs, 5, Mode::InNs, t1, pat, nss) == scan_from(
                evs,
                11,
                Mode::Idle,
                t1,
                pat,
                nss,
            ));
            assert(expected_matches(pages, pat, nss) == Seq::<Seq<char>>::empty() + tail);
            assert(Seq::<Seq<char>>::empty() + tail =~= tail);
        }
    }
}

/// The scan of a well-formed dump succeeds and yields exactly the titles of
/// its matching pages, in page order: one title per page whose namespace is
/// eligible and whose body matches the pattern, and nothing for any other
/// page.
pub proof fn lemma_scan_well_formed_dump(pages: Seq<PageView>, pat: Seq<char>, nss: Seq<Seq<char>>)
    ensures
        scan_spec(dump_events(pages), pat, nss) == Some(expected_matches(pages, pat, nss)),
{
    lemma_scan_pages_from(pages, Seq::empty(), pat, nss);
}

/// Whether an event leaves the scanner idle: anything but the start of a
/// title, namespace-id or body-text element and the end-of-stream marker.
pub open spec fn neutral_in_idle(ev: EventView) -> bool {
    match ev {
        EventView::Start(n) => n != title_tag() && n != ns_tag() && n != body_tag(),
        EventView::Eof => false,
        EventView::Undecodable => false,
        EventView::Broken => false,
        _ => true,
    }
}

proof fn lemma_neutral_prefix(
    events: Seq<EventView>,
    i: int,
    k: int,
    title: Seq<char>,
    pat: Seq<char>,
    nss: Seq<Seq<char>>,
)
    requires
        0 <= i <= k < events.len(),
        events[k] == EventView::Eof,
        forall|j: int| i <= j < k ==> neutral_in_idle(#[trigger] events[j]),
    ensures
        scan_from(events, i, Mode::Idle, title, pat, nss) == Some(Seq::<Seq<char>>::empty()),
    decreases k - i,
{
    if i == k {
    } else {
        lemma_neutral_prefix(events, i + 1, k, title, pat, nss);
    }
}

/// An input with zero pages — one whose events up to the end-of-stream
/// marker never open a title, namespace-id or body-text element — scans
/// without error and yields no matches.
pub proof fn lemma_no_pages_no_matches(
    events: Seq<EventView>,
    k: int,
    pat: Seq<char>,
    nss: Seq<Seq<char>>,
)
    requires
        0 <= k < events.len(),
        events[k] == EventView::Eof,
        forall|j: int| 0 <= j < k ==> neutral_in_idle(#[trigger] events[j]),
    ensures
        scan_spec(events, pat, nss) == Some(Seq::<Seq<char>>::empty()),
{
    lemma_neutral_prefix(events, 0, k, Seq::empty(), pat, nss);
}

/// The owed titles are the titles of exactly the matching pages, in page
/// order: a page whose namespace is eligible and whose body matches
/// contributes its title once, at its page's position, and a page that is
/// excluded or does not match contributes nothing.
pub proof fn lemma_matches_are_titles_in_order(
    pages: Seq<PageView>,
    pat: Seq<char>,
    nss: Seq<Seq<char>>,
)
    ensures
        expected_matches(pages, pat, nss) == matching_pages(pages, pat, nss).map_values(
            |pg: PageView| pg.title,
        ),
    decreases pages.len(),
{
    let f = |pg: PageView| pg.title;
    if pages.len() == 0 {
        assert(matching_pages(pages, pat, nss).map_values(f) =~= Seq::<Seq<char>>::empty());
    } else {
        lemma_matches_are_titles_in_order(pages.drop_first(), pat, nss);
        let head: Seq<PageView> = if ns_allowed(pages[0].ns, nss) && regex_match(
            pat,
            pages[0].body,
        ) {
            seq![pages[0]]
        } else {
            Seq::empty()
        };
        assert((head + matching_pages(pages.drop_first(), pat, nss)).map_values(f)
            =~= head.map_values(f) + matching_pages(pages.drop_first(), pat, nss).map_values(f));
        assert(head.map_values(f) =~= (if ns_allowed(pages[0].ns, nss) && regex_match(
            pat,
            pages[0].body,
        ) {
            seq![pages[0].title]
        } else {
            Seq::<Seq<char>>::empty()
        }));
    }
}

/// A page whose namespace a non-empty allow-set excludes contributes
/// nothing, even when its body would match: the owed titles equal those of
/// the dump with that page left out.
pub proof fn lemma_excluded_page_contributes_nothing(
    pages: Seq<PageView>,
    i: int,
    pat: Seq<char>,
    nss: Seq<Seq<char>>,
)
    requires
        0 <= i < pages.len(),
        nss.len() > 0,
        !nss.contains(pages[i].ns),
    ensures
        expected_matches(pages, pat, nss) == expected_matches(pages.remove(i), pat, nss),
    decreases i,
{
    if i == 0 {
        assert(pages.remove(0) =~= pages.drop_first());
        assert(!ns_allowed(pages[0].ns, nss));
        assert(Seq::<Seq<char>>::empty() + expected_matches(pages.drop_first(), pat, nss)
            =~= expected_matches(pages.drop_first(), pat, nss));
    } else {
        assert(pages.remove(i).len() == pages.len() - 1);
        assert(pages.remove(i)[0] == pages[0]);
        assert(pages.remove(i).drop_first() =~= pages.drop_first().remove(i - 1));
        assert(pages.drop_first()[i - 1] == pages[i]);
        lemma_excluded_page_contributes_nothing(pages.drop_first(), i - 1, pat, nss);
    }
}

/// The titles of the pages whose body matches the pattern, with namespace
/// filtering disabled altogether.
pub open spec fn unfiltered_matches(pages: Seq<PageView>, pat: Seq<char>) -> Seq<Seq<char>>
    decreases pages.len(),
{
    if pages.len() == 0 {
        Seq::empty()
    } else {
        let head: Seq<Seq<char>> = if regex_match(pat, pages[0].body) {
            seq![pages[0].title]
        } else {
            Seq::empty()
        };
        head + unfiltered_matches(pages.drop_first(), pat)
    }
}

/// An empty allow-set behaves exactly as namespace filtering disabled:
/// every namespace is eligible.
pub proof fn lemma_empty_allow_set_is_no_filter(pages: Seq<PageView>, pat: Seq<char>)
    ensures
        expected_matches(pages, pat, Seq::empty()) == unfiltered_matches(pages, pat),
    decreases pages.len(),
{
    if pages.len() == 0 {
    } else {
        lemma_empty_allow_set_is_no_filter(pages.drop_first(), pat);
    }
}

/// A title element whose next event is another element start — not the text
/// content the format owes — aborts the whole scan with no result, whatever
/// follows on the stream.
pub proof fn lemma_malformed_title_aborts(
    events: Seq<EventView>,
    pat: Seq<char>,
    nss: Seq<Seq<char>>,
)
    requires
        events.len() >= 2,
        events[0] == EventView::Start(title_tag()),
        events[1] matches EventView::Start(_),
    ensures
        scan_spec(events, pat, nss) is None,
{
    assert(scan_from(events, 0, Mode::Idle, Seq::empty(), pat, nss) == scan_from(
        events,
        1,
        Mode::InTitle,
        Seq::empty(),
        pat,
        nss,
    ));
}

} // verus!
