use vstd::prelude::*;
use crate::builder::{LoggerBuilder, Route};
use crate::color::{Color, default_color};
use crate::level::Level;
use crate::text::{decimal, decimal_text};
use crate::write_options::WriteOptions;
use vstd::string::*;

verus! {

/// The most verbose level among the entries, and `Error` when there is none.
pub open spec fn max_of(entries: Seq<Route>) -> Level
    decreases entries.len(),
{
    if entries.len() == 0 {
        Level::Error
    } else {
        Level::spec_max(max_of(entries.drop_last()), entries.last().0)
    }
}

/// The writers and options of one level's entries, in order.
pub open spec fn targets_of(routes: Seq<Route>, level: Level) -> Seq<(usize, WriteOptions)>
    decreases routes.len(),
{
    if routes.len() == 0 {
        seq![]
    } else {
        let prev = targets_of(routes.drop_last(), level);
        let e = routes.last();
        if e.0 == level {
            prev.push((e.1, e.2))
        } else {
            prev
        }
    }
}

/// A log event, as the library sees it.
pub struct Event {
    pub level: Level,
    pub message: String,
    pub module: Option<String>,
    pub file: Option<String>,
    pub line: Option<u32>,
}

pub open spec fn text_or_empty(o: Option<String>) -> Seq<char> {
    match o {
        Some(s) => s@,
        None => seq![],
    }
}

pub open spec fn line_or_zero(o: Option<u32>) -> nat {
    match o {
        Some(n) => n as nat,
        None => 0,
    }
}

/// The parenthesized location suffix: module, `<file>`, `#line` and thread,
/// each only when enabled, in that order; nothing when none is enabled.
pub open spec fn location_text(
    o: WriteOptions,
    module: Seq<char>,
    file: Seq<char>,
    line: Seq<char>,
    thread: Seq<char>,
) -> Seq<char> {
    if o.module || o.file || o.line || o.thread {
        seq!['('] + module_part(o, module) + file_part(o, file) + line_part(o, line)
            + thread_part(o, thread) + seq![')']
    } else {
        seq![]
    }
}

pub open spec fn module_part(o: WriteOptions, module: Seq<char>) -> Seq<char> {
    if o.module { module } else { seq![] }
}

/// `<file>`, after `"; "` when the module stands before it.
pub open spec fn file_part(o: WriteOptions, file: Seq<char>) -> Seq<char> {
    if o.file {
        (if o.module { seq![';', ' '] } else { seq![] }) + seq!['<'] + file + seq!['>']
    } else {
        seq![]
    }
}

/// `#line`, after a space when the module or file stands before it.
pub open spec fn line_part(o: WriteOptions, line: Seq<char>) -> Seq<char> {
    if o.line {
        (if o.module || o.file { seq![' '] } else { seq![] }) + seq!['#'] + line
    } else {
        seq![]
    }
}

/// The thread, after `"; "` when anything stands before it.
pub open spec fn thread_part(o: WriteOptions, thread: Seq<char>) -> Seq<char> {
    if o.thread {
        (if o.module || o.file || o.line { seq![';', ' '] } else { seq![] }) + thread
    } else {
        seq![]
    }
}

/// The text of an event: `[stamp] `, the level text, the message and a space,
/// the location suffix, a line break, and the backtrace with a line break;
/// each part only when its option is set.
pub open spec fn record_text(
    ev: Event,
    o: WriteOptions,
    stamp: Seq<char>,
    level_text: Seq<char>,
    thread: Seq<char>,
    trace: Seq<char>,
) -> Seq<char> {
    (if o.timestamp { seq!['['] + stamp + seq![']', ' '] } else { seq![] })
        + (if o.level { level_text } else { seq![] })
        + ev.message@ + seq![' ']
        + location_text(o, text_or_empty(ev.module), text_or_empty(ev.file), decimal_text(line_or_zero(ev.line)), thread)
        + seq!['\n']
        + (if o.backtrace { trace + seq!['\n'] } else { seq![] })
}

/// The plain level text: the upper-case name and `": "`.
pub open spec fn level_heading(level: Level) -> Seq<char> {
    level.spec_label() + seq![':', ' ']
}

/// Relies on chrono's `Local::now` and `format`: the local time as
/// `YYYY-MM-DD hh:mm:ss.mmm`. It depends on the clock.
#[verifier::external_body]
fn timestamp_now() -> (r: String) {
    chrono::Local::now().format("%Y-%m-%d %H:%M:%S%.3f").to_string()
}

/// Relies on colored's `Colorize::truecolor`: the text wrapped in a
/// true-color escape. Whether and how it colors depends on the environment.
#[verifier::external_body]
fn paint(text: &str, c: Color) -> (r: String) {
    colored::Colorize::truecolor(text, c.r, c.g, c.b).to_string()
}

/// Relies on backtrace's `Backtrace::new` and its `Debug` form: the current
/// stack. It depends on the machine and the call site.
#[verifier::external_body]
fn backtrace_text() -> (r: String) {
    format!("{:?}", backtrace::Backtrace::new())
}

/// The built dispatch engine: for each level the writers to call with their
/// options, the number of distinct writers, the most verbose enabled level
/// and the color overrides. Writers are known by their index.
pub struct Logger {
    pub(crate) entries: Vec<Route>,
    pub(crate) writer_count: usize,
    pub(crate) max_level: Level,
    pub(crate) colors: Vec<Option<Color>>,
}

impl Logger {
    /// The dispatch entries, in order.
    pub closed spec fn routes(&self) -> Seq<Route> {
        self.entries@
    }

    /// How many distinct writers the engine holds.
    pub closed spec fn writer_count(&self) -> nat {
        self.writer_count as nat
    }

    /// The color override of each level, by its slot.
    pub closed spec fn color_view(&self) -> Seq<Option<Color>> {
        self.colors@
    }

    /// The most verbose level with an entry, or `Error`.
    pub open spec fn max_level(&self) -> Level {
        max_of(self.routes())
    }

    pub closed spec fn wf(&self) -> bool {
        &&& forall|k: int| 0 <= k < self.entries.len() ==> (#[trigger] self.entries@[k]).1 < self.writer_count
        &&& self.max_level == max_of(self.entries@)
        &&& self.colors@.len() == 5
    }

    pub proof fn lemma_routes_in_range(&self)
        requires
            self.wf(),
        ensures
            forall|k: int| 0 <= k < self.routes().len() ==> (#[trigger] self.routes()[k]).1 < self.writer_count(),
    {
    }

    pub(crate) fn assemble(entries: Vec<Route>, writer_count: usize, max_level: Level, colors: Vec<Option<Color>>) -> (r: Logger)
        requires
            forall|k: int| 0 <= k < entries.len() ==> (#[trigger] entries@[k]).1 < writer_count,
            max_level == max_of(entries@),
            colors@.len() == 5,
        ensures
            r.wf(),
            r.routes() == entries@,
            r.writer_count() == writer_count,
            r.color_view() == colors@,
    {
        Logger { entries, writer_count, max_level, colors }
    }

    pub fn builder() -> (r: LoggerBuilder)
        ensures
            r.wf(),
            r.config_view() == Seq::<crate::builder::EntryView>::empty(),
            r.color_view() == seq![None::<Color>, None, None, None, None],
    {
        LoggerBuilder::new()
    }

    /// Whether events of `level` are let through: `level` is at least as
    /// severe as the most verbose level with an entry.
    pub fn enabled(&self, level: Level) -> (r: bool)
        requires
            self.wf(),
        ensures
            r == (level.rank() <= self.max_level().rank()),
    {
        level.severity_rank() <= self.max_level.severity_rank()
    }

    /// The writers to call, with their options, for an event of `level`:
    /// none when the level is not enabled.
    pub fn targets(&self, level: Level) -> (r: Vec<(usize, WriteOptions)>)
        requires
            self.wf(),
        ensures
            r@ == (if level.rank() <= self.max_level().rank() {
                targets_of(self.routes(), level)
            } else {
                seq![]
            }),
            forall|k: int| 0 <= k < r@.len() ==> (#[trigger] r@[k]).0 < self.writer_count(),
    {
        let mut r: Vec<(usize, WriteOptions)> = Vec::new();
        if !self.enabled(level) {
            return r;
        }
        let mut i: usize = 0;
        while i < self.entries.len()
            invariant
                self.wf(),
                i <= self.entries.len(),
                r@ == targets_of(self.entries@.subrange(0, i as int), level),
                forall|k: int| 0 <= k < r@.len() ==> (#[trigger] r@[k]).0 < self.writer_count,
            decreases self.entries.len() - i,
        {
            let e = self.entries[i];
            assert(self.entries@.subrange(0, i + 1).drop_last() =~= self.entries@.subrange(0, i as int));
            assert(self.entries@[i as int] == e);
            if e.0 == level {
                r.push((e.1, e.2));
            }
            i = i + 1;
        }
        assert(self.entries@.subrange(0, self.entries.len() as int) =~= self.entries@);
        r
    }

    /// The writers to flush: each distinct writer once.
    pub fn flush_targets(&self) -> (r: Vec<usize>)
        ensures
            r@.len() == self.writer_count(),
            forall|k: int| 0 <= k < r@.len() ==> r@[k] == k,
    {
        let mut r: Vec<usize> = Vec::new();
        let mut i: usize = 0;
        while i < self.writer_count
            invariant
                i <= self.writer_count,
                r@.len() == i,
                forall|k: int| 0 <= k < r@.len() ==> r@[k] == k,
            decreases self.writer_count - i,
        {
            r.push(i);
            i = i + 1;
        }
        r
    }

    /// The color of a level: its override, else the built-in one.
    pub fn level_color(&self, level: Level) -> (c: Color)
        requires
            self.wf(),
        ensures
            c == (match self.color_view()[level.rank() - 1] {
                Some(o) => o,
                None => default_color(level),
            }),
    {
        let slot = (level.severity_rank() - 1) as usize;
        match self.colors[slot] {
            Some(c) => c,
            None => Color::of_level(level),
        }
    }

    fn file_piece(options: WriteOptions, file: &str) -> (r: String)
        ensures
            r@ == file_part(options, file@),
    {
        proof {
            reveal_strlit("; ");
            reveal_strlit("<");
            reveal_strlit(">");
        }
        let mut r = String::new();
        if options.file {
            if options.module {
                r.append("; ");
            }
            r.append("<");
            r.append(file);
            r.append(">");
        }
        assert(r@ =~= file_part(options, file@));
        r
    }

    fn line_piece(options: WriteOptions, line_no: u32) -> (r: String)
        ensures
            r@ == line_part(options, decimal_text(line_no as nat)),
    {
        proof {
            reveal_strlit(" ");
            reveal_strlit("#");
        }
        let mut r = String::new();
        if options.line {
            if options.module || options.file {
                r.append(" ");
            }
            r.append("#");
            let digits = decimal(line_no);
            r.append(digits.as_str());
        }
        assert(r@ =~= line_part(options, decimal_text(line_no as nat)));
        r
    }

    fn thread_piece(options: WriteOptions, thread: &str) -> (r: String)
        ensures
            r@ == thread_part(options, thread@),
    {
        proof {
            reveal_strlit("; ");
        }
        let mut r = String::new();
        if options.thread {
            if options.module || options.file || options.line {
                r.append("; ");
            }
            r.append(thread);
        }
        assert(r@ =~= thread_part(options, thread@));
        r
    }

    /// The parenthesized location suffix of an event.
    pub fn location(ev: &Event, options: WriteOptions, thread: &str) -> (r: String)
        ensures
            r@ == location_text(
                options,
                text_or_empty(ev.module),
                text_or_empty(ev.file),
                decimal_text(line_or_zero(ev.line)),
                thread@,
            ),
    {
        proof {
            reveal_strlit("");
            reveal_strlit("(");
            reveal_strlit(")");
        }
        let mut loc = String::new();
        if !(options.module || options.file || options.line || options.thread) {
            return loc;
        }
        let module: &str = match &ev.module {
            Some(m) => m.as_str(),
            None => "",
        };
        let file: &str = match &ev.file {
            Some(f) => f.as_str(),
            None => "",
        };
        let line_no: u32 = match ev.line {
            Some(n) => n,
            None => 0,
        };
        assert(module@ == text_or_empty(ev.module));
        assert(file@ == text_or_empty(ev.file));
        let ghost mp = module_part(options, module@);
        let ghost fp = file_part(options, file@);
        let ghost lp = line_part(options, decimal_text(line_no as nat));
        let ghost tp = thread_part(options, thread@);
        loc.append("(");
        if options.module {
            loc.append(module);
        }
        assert(loc@ =~= seq!['('] + mp);
        let f = Logger::file_piece(options, file);
        loc.append(f.as_str());
        assert(loc@ =~= seq!['('] + mp + fp);
        let l = Logger::line_piece(options, line_no);
        loc.append(l.as_str());
        assert(loc@ =~= seq!['('] + mp + fp + lp);
        let t = Logger::thread_piece(options, thread);
        loc.append(t.as_str());
        assert(loc@ =~= seq!['('] + mp + fp + lp + tp);
        loc.append(")");
        assert(loc@ =~= seq!['('] + mp + fp + lp + tp + seq![')']);
        assert(decimal_text(line_no as nat) == decimal_text(line_or_zero(ev.line)));
        assert(loc@ =~= location_text(
            options,
            text_or_empty(ev.module),
            text_or_empty(ev.file),
            decimal_text(line_or_zero(ev.line)),
            thread@,
        ));
        loc
    }

    /// Lays out an event from its parts: the time stamp, the level text
    /// (colored or not), the thread name and the backtrace.
    pub fn compose_record(
        ev: &Event,
        options: WriteOptions,
        stamp: &str,
        level_text: &str,
        thread: &str,
        trace: &str,
    ) -> (r: String)
        ensures
            r@ == record_text(*ev, options, stamp@, level_text@, thread@, trace@),
    {
        proof {
            reveal_strlit("[");
            reveal_strlit("] ");
            reveal_strlit(" ");
            reveal_strlit("\n");
        }
        let mut s = String::new();
        let ghost p0 = s@;
        if options.timestamp {
            s.append("[");
            s.append(stamp);
            s.append("] ");
        }
        if options.level {
            s.append(level_text);
        }
        s.append(ev.message.as_str());
        s.append(" ");
        let loc = Logger::location(ev, options, thread);
        s.append(loc.as_str());
        s.append("\n");
        if options.backtrace {
            s.append(trace);
            s.append("\n");
        }
        assert(s@ =~= record_text(*ev, options, stamp@, level_text@, thread@, trace@));
        s
    }

    /// The text of an event for one entry. The time stamp, the colored level
    /// and the backtrace come from the clock, the terminal settings and the
    /// stack; the plain level text is `NAME: `.
    pub fn record_as_string(&self, ev: &Event, options: WriteOptions, thread: &str) -> (r: String)
        requires
            self.wf(),
        ensures
            exists|stamp: Seq<char>, lt: Seq<char>, trace: Seq<char>|
                #[trigger] record_text(*ev, options, stamp, lt, thread@, trace) == r@
                    && (!options.level_color ==> lt == level_heading(ev.level)),
    {
        let stamp = if options.timestamp { timestamp_now() } else { String::new() };
        let heading = ev.level.label().to_string();
        proof { reveal_strlit(": "); }
        let heading = heading.concat(": ");
        assert(heading@ =~= level_heading(ev.level));
        let level_text = if options.level_color {
            paint(heading.as_str(), self.level_color(ev.level))
        } else {
            heading
        };
        let trace = if options.backtrace { backtrace_text() } else { String::new() };
        let r = Logger::compose_record(ev, options, stamp.as_str(), level_text.as_str(), thread, trace.as_str());
        assert(record_text(*ev, options, stamp@, level_text@, thread@, trace@) == r@);
        r
    }
}

} // verus!
