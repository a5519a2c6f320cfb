use vstd::prelude::*;
use crate::builder::{EntryView, Route, dispatch_of, first_index, with_entry, lemma_first_index};
use crate::destination::{DestinationView, spec_normalized};
use crate::level::Level;
use crate::logger::{Logger, location_text, max_of};
use crate::write_options::WriteOptions;

verus! {

/// `r` is the entry that request `e` yields.
pub open spec fn yields(e: EntryView, avail: Seq<DestinationView>, r: Route) -> bool {
    &&& !(e.1 is Suppressed)
    &&& 0 <= first_index(avail, e.1) < avail.len()
    &&& avail[first_index(avail, e.1)] == e.1
    &&& r == (e.0, first_index(avail, e.1) as usize, e.2)
}

/// Some request of `cfg` yields `r`.
pub open spec fn has_origin(cfg: Seq<EntryView>, avail: Seq<DestinationView>, r: Route) -> bool {
    exists|j: int| 0 <= j < cfg.len() && yields(#[trigger] cfg[j], avail, r)
}

/// Every dispatch entry comes from a request whose destination is not
/// suppressed and has a writer, and points at that destination's writer.
pub proof fn lemma_dispatch_origin(cfg: Seq<EntryView>, avail: Seq<DestinationView>)
    ensures
        forall|k: int| 0 <= k < dispatch_of(cfg, avail).len() ==> has_origin(cfg, avail, #[trigger] dispatch_of(cfg, avail)[k]),
    decreases cfg.len(),
{
    if cfg.len() > 0 {
        let prev = cfg.drop_last();
        lemma_dispatch_origin(prev, avail);
        let e = cfg.last();
        lemma_first_index(avail, e.1);
        assert forall|k: int| 0 <= k < dispatch_of(cfg, avail).len() implies has_origin(cfg, avail, #[trigger] dispatch_of(cfg, avail)[k]) by {
            if k < dispatch_of(prev, avail).len() {
                assert(has_origin(prev, avail, dispatch_of(prev, avail)[k]));
                let j = choose|j: int| 0 <= j < prev.len() && yields(#[trigger] prev[j], avail, dispatch_of(prev, avail)[k]);
                assert(cfg[j] == prev[j]);
                assert(yields(cfg[j], avail, dispatch_of(cfg, avail)[k]));
            } else {
                assert(cfg[cfg.len() - 1] == e);
                assert(yields(cfg[cfg.len() - 1], avail, dispatch_of(cfg, avail)[k]));
            }
        }
    }
}

/// A request whose destination has a writer is wired, whatever became of the
/// other destinations: a sink that failed to open drops only its own entries.
pub proof fn lemma_request_wired(cfg: Seq<EntryView>, avail: Seq<DestinationView>, e: EntryView)
    requires
        cfg.contains(e),
        avail.contains(e.1),
        !(e.1 is Suppressed),
    ensures
        dispatch_of(cfg, avail).contains((e.0, first_index(avail, e.1) as usize, e.2)),
        avail[first_index(avail, e.1)] == e.1,
    decreases cfg.len(),
{
    lemma_first_index(avail, e.1);
    let prev = cfg.drop_last();
    let r = (e.0, first_index(avail, e.1) as usize, e.2);
    if cfg.last() == e {
        assert(dispatch_of(cfg, avail).last() == r);
        assert(dispatch_of(cfg, avail)[dispatch_of(cfg, avail).len() - 1] == r);
    } else {
        let j = choose|j: int| 0 <= j < cfg.len() && cfg[j] == e;
        assert(prev[j] == e);
        lemma_request_wired(prev, avail, e);
        let k = choose|k: int| 0 <= k < dispatch_of(prev, avail).len() && dispatch_of(prev, avail)[k] == r;
        assert(dispatch_of(cfg, avail)[k] == r);
    }
}

/// Requesting the same destination with the same options twice is the same
/// as requesting it once.
pub proof fn lemma_request_idempotent(cfg: Seq<EntryView>, e: EntryView)
    ensures
        with_entry(with_entry(cfg, e), e) == with_entry(cfg, e),
{
    if !cfg.contains(e) {
        assert(cfg.push(e)[cfg.len() as int] == e);
    }
}

/// With requests forming a set, no dispatch entry is repeated: a
/// destination requested for a level with given options is written once per
/// event, through one writer.
pub proof fn lemma_dispatch_distinct(cfg: Seq<EntryView>, avail: Seq<DestinationView>)
    requires
        cfg.no_duplicates(),
        avail.len() <= usize::MAX,
    ensures
        dispatch_of(cfg, avail).no_duplicates(),
    decreases cfg.len(),
{
    if cfg.len() > 0 {
        let prev = cfg.drop_last();
        let e = cfg.last();
        assert(prev.no_duplicates()) by {
            assert forall|a: int, b: int| 0 <= a < prev.len() && 0 <= b < prev.len() && a != b
                implies prev[a] != prev[b] by {
                assert(cfg[a] == prev[a] && cfg[b] == prev[b]);
            }
        }
        lemma_dispatch_distinct(prev, avail);
        lemma_dispatch_origin(prev, avail);
        lemma_first_index(avail, e.1);
        let d = dispatch_of(prev, avail);
        let i = first_index(avail, e.1);
        if !(e.1 is Suppressed) && i >= 0 {
            let r = (e.0, i as usize, e.2);
            assert(!d.contains(r)) by {
                if d.contains(r) {
                    let k = choose|k: int| 0 <= k < d.len() && d[k] == r;
                    assert(has_origin(prev, avail, d[k]));
                    let j = choose|j: int| 0 <= j < prev.len() && yields(#[trigger] prev[j], avail, d[k]);
                    let f = prev[j];
                    assert(first_index(avail, f.1) == i);
                    assert(f == e);
                    assert(cfg[j] == cfg[cfg.len() - 1]);
                }
            }
            assert forall|a: int, b: int| 0 <= a < d.push(r).len() && 0 <= b < d.push(r).len() && a != b
                implies d.push(r)[a] != d.push(r)[b] by {
                if a < d.len() && b < d.len() {
                } else if a < d.len() {
                    assert(d.contains(d[a]));
                } else {
                    assert(d.contains(d[b]));
                }
            }
        }
    }
}

/// The same destination requested for a level with two different option
/// sets gives two entries that share one writer.
pub proof fn lemma_options_share_writer(
    cfg: Seq<EntryView>,
    avail: Seq<DestinationView>,
    level: Level,
    d: DestinationView,
    o1: WriteOptions,
    o2: WriteOptions,
)
    requires
        cfg.contains((level, d, o1)),
        cfg.contains((level, d, o2)),
        o1 != o2,
        avail.contains(d),
        !(d is Suppressed),
    ensures
        ({
            let w = first_index(avail, d) as usize;
            &&& dispatch_of(cfg, avail).contains((level, w, o1))
            &&& dispatch_of(cfg, avail).contains((level, w, o2))
            &&& (level, w, o1) != (level, w, o2)
        }),
{
    lemma_request_wired(cfg, avail, (level, d, o1));
    lemma_request_wired(cfg, avail, (level, d, o2));
}

/// Two spellings of a path that the file system resolves to the same file
/// normalize to one destination, and so to one writer.
pub proof fn lemma_spellings_share_writer(
    a: Seq<char>,
    b: Seq<char>,
    canonical: Seq<char>,
    avail: Seq<DestinationView>,
)
    ensures
        spec_normalized(DestinationView::File(a), Some(canonical)) == spec_normalized(
            DestinationView::File(b),
            Some(canonical),
        ),
        first_index(avail, spec_normalized(DestinationView::File(a), Some(canonical))) == first_index(
            avail,
            spec_normalized(DestinationView::File(b), Some(canonical)),
        ),
{
}

/// No dispatch entry writes to a suppressed destination.
pub proof fn lemma_suppressed_never_routed(cfg: Seq<EntryView>, avail: Seq<DestinationView>)
    requires
        avail.len() <= usize::MAX,
    ensures
        forall|k: int| 0 <= k < dispatch_of(cfg, avail).len() ==> {
            let w = (#[trigger] dispatch_of(cfg, avail)[k]).1 as int;
            0 <= w < avail.len() && !(avail[w] is Suppressed)
        },
{
    lemma_dispatch_origin(cfg, avail);
    assert forall|k: int| 0 <= k < dispatch_of(cfg, avail).len() implies {
        let w = (#[trigger] dispatch_of(cfg, avail)[k]).1 as int;
        0 <= w < avail.len() && !(avail[w] is Suppressed)
    } by {
        assert(has_origin(cfg, avail, dispatch_of(cfg, avail)[k]));
        let j = choose|j: int| 0 <= j < cfg.len() && yields(#[trigger] cfg[j], avail, dispatch_of(cfg, avail)[k]);
    }
}

/// The threshold is the most verbose level that has an entry, and `Error`
/// when nothing is configured.
pub proof fn lemma_threshold(routes: Seq<Route>)
    ensures
        routes.len() == 0 ==> max_of(routes) == Level::Error,
        forall|k: int| 0 <= k < routes.len() ==> (#[trigger] routes[k]).0.rank() <= max_of(routes).rank(),
        routes.len() > 0 ==> exists|k: int| 0 <= k < routes.len() && (#[trigger] routes[k]).0 == max_of(routes),
    decreases routes.len(),
{
    if routes.len() > 0 {
        let prev = routes.drop_last();
        lemma_threshold(prev);
        assert forall|k: int| 0 <= k < routes.len() implies (#[trigger] routes[k]).0.rank() <= max_of(routes).rank() by {
            if k < prev.len() {
                assert(routes[k] == prev[k]);
            }
        }
        if prev.len() > 0 && max_of(routes) == max_of(prev) {
            let k = choose|k: int| 0 <= k < prev.len() && (#[trigger] prev[k]).0 == max_of(prev);
            assert(routes[k] == prev[k]);
        } else {
            assert(routes[routes.len() - 1] == routes.last());
        }
    }
}

/// Every writer that an entry names is one of the engine's writers, which
/// the flush list holds once each.
pub proof fn lemma_flush_covers(logger: &Logger)
    requires
        logger.wf(),
    ensures
        forall|k: int| 0 <= k < logger.routes().len() ==> (#[trigger] logger.routes()[k]).1 < logger.writer_count(),
{
    logger.lemma_routes_in_range();
}

/// With module, file, line and thread all enabled, the suffix reads
/// `(module; <file> #line; thread)`.
pub proof fn lemma_location_full(o: WriteOptions, m: Seq<char>, f: Seq<char>, l: Seq<char>, t: Seq<char>)
    requires
        o.module && o.file && o.line && o.thread,
    ensures
        location_text(o, m, f, l, t) == seq!['('] + m + seq![';', ' ', '<'] + f + seq!['>', ' ', '#'] + l
            + seq![';', ' '] + t + seq![')'],
{
    assert(location_text(o, m, f, l, t) =~= seq!['('] + m + seq![';', ' ', '<'] + f + seq!['>', ' ', '#']
        + l + seq![';', ' '] + t + seq![')']);
}

/// A field that is not enabled leaves nothing behind: with only the line
/// and the thread enabled, the suffix reads `(#line; thread)`.
pub proof fn lemma_location_omits(o: WriteOptions, m: Seq<char>, f: Seq<char>, l: Seq<char>, t: Seq<char>)
    requires
        !o.module && !o.file && o.line && o.thread,
    ensures
        location_text(o, m, f, l, t) == seq!['(', '#'] + l + seq![';', ' '] + t + seq![')'],
{
    assert(location_text(o, m, f, l, t) =~= seq!['(', '#'] + l + seq![';', ' '] + t + seq![')']);
}

/// With none of module, file, line and thread enabled there is no suffix.
pub proof fn lemma_location_empty(o: WriteOptions, m: Seq<char>, f: Seq<char>, l: Seq<char>, t: Seq<char>)
    requires
        !o.module && !o.file && !o.line && !o.thread,
    ensures
        location_text(o, m, f, l, t) == Seq::<char>::empty(),
{
}

} // verus!
