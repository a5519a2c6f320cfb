use vstd::prelude::*;
use crate::color::Color;
use crate::destination::{Destination, DestinationView, spec_normalized, views};
use crate::level::Level;
use crate::logger::{Logger, max_of};
use crate::write_options::WriteOptions;

verus! {

/// One requested output of a level: the level, where it goes, and how it is formatted.
pub type EntryView = (Level, DestinationView, WriteOptions);

/// One dispatch entry of a built logger: the level, the index of its writer,
/// and the formatting options.
pub type Route = (Level, usize, WriteOptions);

pub open spec fn entry_views(v: Seq<(Level, Destination, WriteOptions)>) -> Seq<EntryView> {
    v.map_values(|e: (Level, Destination, WriteOptions)| (e.0, e.1@, e.2))
}

/// The configuration after a request: requests form a set, so a request that
/// is already there changes nothing.
pub open spec fn with_entry(cfg: Seq<EntryView>, e: EntryView) -> Seq<EntryView> {
    if cfg.contains(e) {
        cfg
    } else {
        cfg.push(e)
    }
}

/// The options of a request: those given, or none.
pub open spec fn options_or_default(o: Option<WriteOptions>) -> WriteOptions {
    match o {
        Some(o) => o,
        None => WriteOptions::uniform(false),
    }
}

/// Slot of a level in the table of color overrides.
pub open spec fn level_slot(l: Level) -> int {
    l.rank() - 1
}

/// Position of the first `d` at or after `k` in `s`, or -1.
pub open spec fn find_from(s: Seq<DestinationView>, d: DestinationView, k: int) -> int
    decreases s.len() - k,
{
    if k < 0 || k >= s.len() {
        -1
    } else if s[k] == d {
        k
    } else {
        find_from(s, d, k + 1)
    }
}

/// Position of the first `d` in `s`, or -1.
pub open spec fn first_index(s: Seq<DestinationView>, d: DestinationView) -> int {
    find_from(s, d, 0)
}

/// The dispatch entries that a configuration yields once the destinations in
/// `avail` have writers: one per request whose destination has a writer, in
/// request order, pointing at the first writer of that destination.
/// Suppressed destinations never get an entry.
pub open spec fn dispatch_of(cfg: Seq<EntryView>, avail: Seq<DestinationView>) -> Seq<Route>
    decreases cfg.len(),
{
    if cfg.len() == 0 {
        seq![]
    } else {
        let prev = dispatch_of(cfg.drop_last(), avail);
        let e = cfg.last();
        let i = first_index(avail, e.1);
        if !(e.1 is Suppressed) && i >= 0 {
            prev.push((e.0, i as usize, e.2))
        } else {
            prev
        }
    }
}

pub proof fn lemma_find_from(s: Seq<DestinationView>, d: DestinationView, k: int)
    requires
        0 <= k <= s.len(),
    ensures
        find_from(s, d, k) == -1 <==> (forall|j: int| k <= j < s.len() ==> s[j] != d),
        find_from(s, d, k) != -1 ==> {
            let i = find_from(s, d, k);
            &&& k <= i < s.len()
            &&& s[i] == d
            &&& forall|j: int| k <= j < i ==> s[j] != d
        },
    decreases s.len() - k,
{
    if k < s.len() {
        lemma_find_from(s, d, k + 1);
    }
}

/// A destination that is in `s` is found there.
pub proof fn lemma_first_index(s: Seq<DestinationView>, d: DestinationView)
    ensures
        first_index(s, d) >= 0 <==> s.contains(d),
        s.contains(d) ==> s[first_index(s, d)] == d && first_index(s, d) < s.len(),
        s.no_duplicates() ==> forall|i: int| 0 <= i < s.len() ==> first_index(s, #[trigger] s[i]) == i,
{
    lemma_find_from(s, d, 0);
    if s.contains(d) {
        let w = choose|j: int| 0 <= j < s.len() && s[j] == d;
        assert(s[w] == d);
    }
    assert forall|i: int| s.no_duplicates() && 0 <= i < s.len() implies first_index(s, #[trigger] s[i]) == i by {
        lemma_find_from(s, s[i], 0);
    }
}

/// Where `d` first stands in `v`.
fn position(v: &Vec<Destination>, d: &Destination) -> (r: Option<usize>)
    ensures
        match r {
            Some(i) => first_index(views(v@), d@) == i as int,
            None => first_index(views(v@), d@) == -1,
        },
{
    let ghost s = views(v@);
    let mut i: usize = 0;
    while i < v.len()
        invariant
            i <= v.len(),
            s == views(v@),
            find_from(s, d@, i as int) == find_from(s, d@, 0),
        decreases v.len() - i,
    {
        if v[i].same(d) {
            return Some(i);
        }
        i = i + 1;
    }
    None
}

/// Accumulates, per level, the set of requested destinations with their
/// options, and the per-level color overrides.
pub struct LoggerBuilder {
    pub(crate) config: Vec<(Level, Destination, WriteOptions)>,
    pub(crate) colors: Vec<Option<Color>>,
}

impl LoggerBuilder {
    /// The requests, in the order they were first made.
    pub closed spec fn config_view(&self) -> Seq<EntryView> {
        entry_views(self.config@)
    }

    /// The color override of each level, by its slot.
    pub closed spec fn color_view(&self) -> Seq<Option<Color>> {
        self.colors@
    }

    pub closed spec fn wf(&self) -> bool {
        &&& self.config_view().no_duplicates()
        &&& self.colors@.len() == 5
    }

    /// A builder with no request and no color override.
    pub fn new() -> (r: LoggerBuilder)
        ensures
            r.wf(),
            r.config_view() == Seq::<EntryView>::empty(),
            r.color_view() == seq![None::<Color>, None, None, None, None],
    {
        let r = LoggerBuilder { config: Vec::new(), colors: vec![None, None, None, None, None] };
        assert(r.config_view() =~= Seq::<EntryView>::empty());
        assert(r.color_view() =~= seq![None::<Color>, None, None, None, None]);
        r
    }

    /// Whether the request is already recorded.
    pub fn has_entry(&self, level: Level, destination: &Destination, options: WriteOptions) -> (r: bool)
        ensures
            r == self.config_view().contains((level, destination@, options)),
    {
        let ghost e = (level, destination@, options);
        let mut i: usize = 0;
        while i < self.config.len()
            invariant
                i <= self.config.len(),
                e == (level, destination@, options),
                forall|j: int| 0 <= j < i ==> self.config_view()[j] != e,
            decreases self.config.len() - i,
        {
            let c = &self.config[i];
            assert(self.config_view()[i as int] == (c.0, c.1@, c.2));
            let same_level = c.0 == level;
            let same_dest = c.1.same(destination);
            let same_options = c.2 == options;
            if same_level && same_dest && same_options {
                return true;
            }
            i = i + 1;
        }
        false
    }

    /// Records a request for a destination that is already normalized.
    pub fn add_normalized(self, level: Level, destination: Destination, options: Option<WriteOptions>) -> (r: Self)
        requires
            self.wf(),
        ensures
            r.wf(),
            r.config_view() == with_entry(self.config_view(), (level, destination@, options_or_default(options))),
            r.color_view() == self.color_view(),
    {
        let mut this = self;
        let options = match options {
            Some(o) => o,
            None => WriteOptions::default(),
        };
        if !this.has_entry(level, &destination, options) {
            let ghost e = (level, destination@, options);
            let ghost before = this.config_view();
            this.config.push((level, destination, options));
            assert(this.config_view() =~= before.push(e));
            assert forall|i: int, j: int|
                0 <= i < this.config_view().len() && 0 <= j < this.config_view().len() && i != j
                implies this.config_view()[i] != this.config_view()[j] by {
                if i < before.len() && j < before.len() {
                    assert(before[i] != before[j]);
                } else if i < before.len() {
                    assert(before.contains(before[i]));
                } else {
                    assert(before.contains(before[j]));
                }
            }
        }
        this
    }

    /// Records a request: the destination is normalized first (a file path is
    /// made canonical where the file system can), then added to the level's
    /// set with the given options, or none.
    pub fn add_destination(self, level: Level, destination: Destination, options: Option<WriteOptions>) -> (r: Self)
        requires
            self.wf(),
        ensures
            r.wf(),
            exists|c: Option<Seq<char>>|
                r.config_view() == with_entry(
                    self.config_view(),
                    (level, #[trigger] spec_normalized(destination@, c), options_or_default(options)),
                ),
            r.color_view() == self.color_view(),
    {
        let ghost d = destination@;
        let normalized = destination.normalize();
        let ghost c = choose|c: Option<Seq<char>>| normalized@ == #[trigger] spec_normalized(d, c);
        let r = self.add_normalized(level, normalized, options);
        assert(r.config_view() == with_entry(self.config_view(), (level, spec_normalized(d, c), options_or_default(options))));
        r
    }

    pub fn with_stdout(self, level: Level, options: Option<WriteOptions>) -> (r: Self)
        requires
            self.wf(),
        ensures
            r.wf(),
            r.config_view() == with_entry(self.config_view(), (level, DestinationView::StdOut, options_or_default(options))),
            r.color_view() == self.color_view(),
    {
        self.add_destination(level, Destination::StdOut, options)
    }

    pub fn with_stderr(self, level: Level, options: Option<WriteOptions>) -> (r: Self)
        requires
            self.wf(),
        ensures
            r.wf(),
            r.config_view() == with_entry(self.config_view(), (level, DestinationView::StdErr, options_or_default(options))),
            r.color_view() == self.color_view(),
    {
        self.add_destination(level, Destination::StdErr, options)
    }

    pub fn with_file(self, level: Level, path: &str, options: Option<WriteOptions>) -> (r: Self)
        requires
            self.wf(),
        ensures
            r.wf(),
            exists|c: Option<Seq<char>>|
                r.config_view() == with_entry(
                    self.config_view(),
                    (level, #[trigger] spec_normalized(DestinationView::File(path@), c), options_or_default(options)),
                ),
            r.color_view() == self.color_view(),
    {
        self.add_destination(level, Destination::File(path.to_string()), options)
    }

    /// Records a request for a custom sink, known by its unique name.
    pub fn with_custom(self, level: Level, name: String, options: Option<WriteOptions>) -> (r: Self)
        requires
            self.wf(),
        ensures
            r.wf(),
            r.config_view() == with_entry(self.config_view(), (level, DestinationView::Custom(name@), options_or_default(options))),
            r.color_view() == self.color_view(),
    {
        self.add_destination(level, Destination::Custom(name), options)
    }

    pub fn with_color(self, level: Level, color: Color) -> (r: Self)
        requires
            self.wf(),
        ensures
            r.wf(),
            r.config_view() == self.config_view(),
            r.color_view() == self.color_view().update(level_slot(level), Some(color)),
    {
        let mut this = self;
        let slot = (level.severity_rank() - 1) as usize;
        this.colors.set(slot, Some(color));
        this
    }

    pub fn with_color_all(self, color: Color) -> (r: Self)
        requires
            self.wf(),
        ensures
            r.wf(),
            r.config_view() == self.config_view(),
            r.color_view() == seq![Some(color), Some(color), Some(color), Some(color), Some(color)],
    {
        let r = self.with_color(Level::Error, color)
            .with_color(Level::Warn, color)
            .with_color(Level::Info, color)
            .with_color(Level::Debug, color)
            .with_color(Level::Trace, color);
        assert(r.color_view() =~= seq![Some(color), Some(color), Some(color), Some(color), Some(color)]);
        r
    }

    /// The distinct destinations that need a writer: every requested one but
    /// `Suppressed`, each once, in the order of first request.
    pub fn destinations_to_open(&self) -> (r: Vec<Destination>)
        requires
            self.wf(),
        ensures
            views(r@).no_duplicates(),
            forall|x: DestinationView|
                views(r@).contains(x) <==> (!(x is Suppressed) && exists|j: int|
                    0 <= j < self.config_view().len() && (#[trigger] self.config_view()[j]).1 == x),
    {
        let mut r: Vec<Destination> = Vec::new();
        let mut i: usize = 0;
        while i < self.config.len()
            invariant
                i <= self.config.len(),
                views(r@).no_duplicates(),
                forall|x: DestinationView|
                    views(r@).contains(x) <==> (!(x is Suppressed) && exists|j: int|
                        0 <= j < i && (#[trigger] self.config_view()[j]).1 == x),
            decreases self.config.len() - i,
        {
            let d = &self.config[i].1;
            let ghost cv = self.config_view();
            assert(cv[i as int].1 == d@);
            let ghost before = views(r@);
            let keep = match d {
                Destination::Suppressed => false,
                _ => position(&r, d).is_none(),
            };
            if keep {
                proof { lemma_first_index(before, d@); }
                r.push(d.duplicate());
                assert(views(r@) =~= before.push(d@));
                assert forall|a: int, b: int| 0 <= a < views(r@).len() && 0 <= b < views(r@).len() && a != b
                    implies views(r@)[a] != views(r@)[b] by {
                    if a < before.len() && b < before.len() {
                    } else if a < before.len() {
                        assert(before.contains(before[a]));
                    } else {
                        assert(before.contains(before[b]));
                    }
                }
            } else {
                proof { lemma_first_index(before, d@); }
            }
            assert forall|x: DestinationView|
                views(r@).contains(x) <==> (!(x is Suppressed) && exists|j: int|
                    0 <= j < i + 1 && (#[trigger] cv[j]).1 == x) by {
                if views(r@).contains(x) && x != d@ {
                    if keep {
                        let k = choose|k: int| 0 <= k < views(r@).len() && views(r@)[k] == x;
                        assert(before.contains(x)) by { assert(before[k] == x); }
                    }
                }
                if !(x is Suppressed) && (exists|j: int| 0 <= j < i + 1 && (#[trigger] cv[j]).1 == x) {
                    if x != d@ {
                        let j = choose|j: int| 0 <= j < i + 1 && (#[trigger] cv[j]).1 == x;
                        assert(j < i);
                        assert(before.contains(x));
                        let k = choose|k: int| 0 <= k < before.len() && before[k] == x;
                        assert(views(r@)[k] == x);
                    } else if keep {
                        assert(views(r@)[before.len() as int] == x);
                    }
                }
                if before.contains(x) {
                    let k = choose|k: int| 0 <= k < before.len() && before[k] == x;
                    assert(views(r@)[k] == x);
                }
            }
            i = i + 1;
        }
        r
    }

    /// Assembles the dispatch engine once the destinations in `available` have
    /// writers, writer `k` serving `available[k]`. Every request whose
    /// destination is available becomes an entry; the others are dropped.
    pub fn build(self, available: &Vec<Destination>) -> (r: Logger)
        requires
            self.wf(),
        ensures
            r.wf(),
            r.routes() == dispatch_of(self.config_view(), views(available@)),
            r.writer_count() == available.len(),
            r.color_view() == self.color_view(),
    {
        let ghost cfg = self.config_view();
        let ghost avail = views(available@);
        let mut entries: Vec<Route> = Vec::new();
        let mut max_level = Level::Error;
        let mut i: usize = 0;
        while i < self.config.len()
            invariant
                i <= self.config.len(),
                cfg == self.config_view(),
                avail == views(available@),
                entries@ == dispatch_of(cfg.subrange(0, i as int), avail),
                max_level == max_of(entries@),
                forall|k: int| 0 <= k < entries.len() ==> (#[trigger] entries@[k]).1 < available.len(),
            decreases self.config.len() - i,
        {
            let e = &self.config[i];
            assert(cfg.subrange(0, i + 1).drop_last() =~= cfg.subrange(0, i as int));
            assert(cfg.subrange(0, i + 1).last() == (e.0, e.1@, e.2));
            proof { lemma_first_index(avail, e.1@); lemma_find_from(avail, e.1@, 0); }
            let slot = match &e.1 {
                Destination::Suppressed => None,
                d => position(available, d),
            };
            match slot {
                Some(k) => {
                    let ghost prev = entries@;
                    entries.push((e.0, k, e.2));
                    assert(entries@.drop_last() =~= prev);
                    max_level = Level::more_verbose(max_level, e.0);
                },
                None => {},
            }
            i = i + 1;
        }
        assert(cfg.subrange(0, self.config.len() as int) =~= cfg);
        Logger::assemble(entries, available.len(), max_level, self.colors)
    }
}

} // verus!
