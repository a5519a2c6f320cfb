use vstd::prelude::*;

verus! {

/// Formatting toggles of one destination: eight independent flags.
#[derive(Debug, Clone, Copy, PartialEq, Eq, Structural, PartialOrd, Ord, Hash)]
pub struct WriteOptions {
    pub timestamp: bool,
    pub level: bool,
    pub file: bool,
    pub line: bool,
    pub module: bool,
    pub thread: bool,
    pub backtrace: bool,
    pub level_color: bool,
}

impl WriteOptions {
    /// The options with every flag equal to `on`.
    pub open spec fn uniform(on: bool) -> WriteOptions {
        WriteOptions {
            timestamp: on,
            level: on,
            file: on,
            line: on,
            module: on,
            thread: on,
            backtrace: on,
            level_color: on,
        }
    }

    pub open spec fn spec_union(self, o: WriteOptions) -> WriteOptions {
        WriteOptions {
            timestamp: self.timestamp || o.timestamp,
            level: self.level || o.level,
            file: self.file || o.file,
            line: self.line || o.line,
            module: self.module || o.module,
            thread: self.thread || o.thread,
            backtrace: self.backtrace || o.backtrace,
            level_color: self.level_color || o.level_color,
        }
    }

    pub open spec fn spec_intersection(self, o: WriteOptions) -> WriteOptions {
        WriteOptions {
            timestamp: self.timestamp && o.timestamp,
            level: self.level && o.level,
            file: self.file && o.file,
            line: self.line && o.line,
            module: self.module && o.module,
            thread: self.thread && o.thread,
            backtrace: self.backtrace && o.backtrace,
            level_color: self.level_color && o.level_color,
        }
    }

    pub open spec fn spec_difference(self, o: WriteOptions) -> WriteOptions {
        WriteOptions {
            timestamp: self.timestamp && !o.timestamp,
            level: self.level && !o.level,
            file: self.file && !o.file,
            line: self.line && !o.line,
            module: self.module && !o.module,
            thread: self.thread && !o.thread,
            backtrace: self.backtrace && !o.backtrace,
            level_color: self.level_color && !o.level_color,
        }
    }

    /// Every flag of `o` is set in `self`.
    pub open spec fn spec_contains(self, o: WriteOptions) -> bool {
        &&& o.timestamp ==> self.timestamp
        &&& o.level ==> self.level
        &&& o.file ==> self.file
        &&& o.line ==> self.line
        &&& o.module ==> self.module
        &&& o.thread ==> self.thread
        &&& o.backtrace ==> self.backtrace
        &&& o.level_color ==> self.level_color
    }

    /// Timestamp, level name and level color.
    pub open spec fn spec_basic() -> WriteOptions {
        WriteOptions { timestamp: true, level: true, level_color: true, ..WriteOptions::uniform(false) }
    }

    /// The basic flags with file, line, module and thread.
    pub open spec fn spec_expanded() -> WriteOptions {
        WriteOptions { backtrace: false, ..WriteOptions::uniform(true) }
    }

    pub open spec fn spec_level_color() -> WriteOptions {
        WriteOptions { level_color: true, ..WriteOptions::uniform(false) }
    }

    pub fn none() -> (r: WriteOptions)
        ensures
            r == WriteOptions::uniform(false),
    {
        WriteOptions {
            timestamp: false,
            level: false,
            file: false,
            line: false,
            module: false,
            thread: false,
            backtrace: false,
            level_color: false,
        }
    }

    pub fn all() -> (r: WriteOptions)
        ensures
            r == WriteOptions::uniform(true),
    {
        WriteOptions {
            timestamp: true,
            level: true,
            file: true,
            line: true,
            module: true,
            thread: true,
            backtrace: true,
            level_color: true,
        }
    }

    pub fn timestamp() -> (r: WriteOptions)
        ensures
            r == (WriteOptions { timestamp: true, ..WriteOptions::uniform(false) }),
    {
        WriteOptions { timestamp: true, ..WriteOptions::none() }
    }

    pub fn level() -> (r: WriteOptions)
        ensures
            r == (WriteOptions { level: true, ..WriteOptions::uniform(false) }),
    {
        WriteOptions { level: true, ..WriteOptions::none() }
    }

    pub fn file() -> (r: WriteOptions)
        ensures
            r == (WriteOptions { file: true, ..WriteOptions::uniform(false) }),
    {
        WriteOptions { file: true, ..WriteOptions::none() }
    }

    pub fn line() -> (r: WriteOptions)
        ensures
            r == (WriteOptions { line: true, ..WriteOptions::uniform(false) }),
    {
        WriteOptions { line: true, ..WriteOptions::none() }
    }

    pub fn module() -> (r: WriteOptions)
        ensures
            r == (WriteOptions { module: true, ..WriteOptions::uniform(false) }),
    {
        WriteOptions { module: true, ..WriteOptions::none() }
    }

    pub fn thread() -> (r: WriteOptions)
        ensures
            r == (WriteOptions { thread: true, ..WriteOptions::uniform(false) }),
    {
        WriteOptions { thread: true, ..WriteOptions::none() }
    }

    pub fn backtrace() -> (r: WriteOptions)
        ensures
            r == (WriteOptions { backtrace: true, ..WriteOptions::uniform(false) }),
    {
        WriteOptions { backtrace: true, ..WriteOptions::none() }
    }

    pub fn level_color() -> (r: WriteOptions)
        ensures
            r == WriteOptions::spec_level_color(),
    {
        WriteOptions { level_color: true, ..WriteOptions::none() }
    }

    pub fn union(self, o: WriteOptions) -> (r: WriteOptions)
        ensures
            r == self.spec_union(o),
    {
        WriteOptions {
            timestamp: self.timestamp || o.timestamp,
            level: self.level || o.level,
            file: self.file || o.file,
            line: self.line || o.line,
            module: self.module || o.module,
            thread: self.thread || o.thread,
            backtrace: self.backtrace || o.backtrace,
            level_color: self.level_color || o.level_color,
        }
    }

    pub fn intersection(self, o: WriteOptions) -> (r: WriteOptions)
        ensures
            r == self.spec_intersection(o),
    {
        WriteOptions {
            timestamp: self.timestamp && o.timestamp,
            level: self.level && o.level,
            file: self.file && o.file,
            line: self.line && o.line,
            module: self.module && o.module,
            thread: self.thread && o.thread,
            backtrace: self.backtrace && o.backtrace,
            level_color: self.level_color && o.level_color,
        }
    }

    pub fn difference(self, o: WriteOptions) -> (r: WriteOptions)
        ensures
            r == self.spec_difference(o),
    {
        WriteOptions {
            timestamp: self.timestamp && !o.timestamp,
            level: self.level && !o.level,
            file: self.file && !o.file,
            line: self.line && !o.line,
            module: self.module && !o.module,
            thread: self.thread && !o.thread,
            backtrace: self.backtrace && !o.backtrace,
            level_color: self.level_color && !o.level_color,
        }
    }

    pub fn contains(&self, o: WriteOptions) -> (r: bool)
        ensures
            r == self.spec_contains(o),
    {
        (!o.timestamp || self.timestamp) && (!o.level || self.level) && (!o.file || self.file)
            && (!o.line || self.line) && (!o.module || self.module) && (!o.thread || self.thread)
            && (!o.backtrace || self.backtrace) && (!o.level_color || self.level_color)
    }

    pub fn basic() -> (r: WriteOptions)
        ensures
            r == WriteOptions::spec_basic(),
    {
        WriteOptions::timestamp().union(WriteOptions::level()).union(WriteOptions::level_color())
    }

    pub fn expanded() -> (r: WriteOptions)
        ensures
            r == WriteOptions::spec_expanded(),
    {
        WriteOptions::basic().union(WriteOptions::file()).union(WriteOptions::line()).union(
            WriteOptions::module(),
        ).union(WriteOptions::thread())
    }

    pub fn basic_uncolored() -> (r: WriteOptions)
        ensures
            r == WriteOptions::spec_basic().spec_difference(WriteOptions::spec_level_color()),
    {
        WriteOptions::basic().difference(WriteOptions::level_color())
    }

    pub fn expanded_uncolored() -> (r: WriteOptions)
        ensures
            r == WriteOptions::spec_expanded().spec_difference(WriteOptions::spec_level_color()),
    {
        WriteOptions::expanded().difference(WriteOptions::level_color())
    }

    pub fn all_uncolored() -> (r: WriteOptions)
        ensures
            r == WriteOptions::uniform(true).spec_difference(WriteOptions::spec_level_color()),
    {
        WriteOptions::all().difference(WriteOptions::level_color())
    }
}

impl Default for WriteOptions {
    /// No option set.
    fn default() -> (r: WriteOptions)
        ensures
            r == WriteOptions::uniform(false),
    {
        WriteOptions::none()
    }
}

} // verus!
