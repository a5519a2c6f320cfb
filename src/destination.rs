use vstd::prelude::*;

verus! {

/// Where output goes. A custom sink is known by its unique name.
#[derive(Debug, Hash)]
pub enum Destination {
    Suppressed,
    StdOut,
    StdErr,
    File(String),
    Custom(String),
}

/// The mathematical value of a destination.
pub enum DestinationView {
    Suppressed,
    StdOut,
    StdErr,
    File(Seq<char>),
    Custom(Seq<char>),
}

impl View for Destination {
    type V = DestinationView;

    open spec fn view(&self) -> DestinationView {
        match self {
            Destination::Suppressed => DestinationView::Suppressed,
            Destination::StdOut => DestinationView::StdOut,
            Destination::StdErr => DestinationView::StdErr,
            Destination::File(p) => DestinationView::File(p@),
            Destination::Custom(n) => DestinationView::Custom(n@),
        }
    }
}

/// The views of a list of destinations.
pub open spec fn views(v: Seq<Destination>) -> Seq<DestinationView> {
    v.map_values(|d: Destination| d@)
}

/// The text of an optional string.
pub open spec fn opt_view(o: Option<String>) -> Option<Seq<char>> {
    match o {
        Some(s) => Some(s@),
        None => None,
    }
}

/// A destination after normalization, given what the file system said of a
/// file path (`Some` canonical form, or `None` when it could not be resolved).
pub open spec fn spec_normalized(d: DestinationView, canonical: Option<Seq<char>>) -> DestinationView {
    match d {
        DestinationView::File(p) => match canonical {
            Some(c) => DestinationView::File(c),
            None => DestinationView::File(p),
        },
        _ => d,
    }
}

/// Relies on `Path::canonicalize` and `Path::to_str`: the absolute form of an
/// existing path, when it is valid UTF-8. What comes back depends on the disk.
#[verifier::external_body]
fn canonical_path(path: &str) -> (r: Option<String>) {
    match std::path::Path::new(path).canonicalize() {
        Ok(buf) => match buf.to_str() {
            Some(s) => Some(s.to_string()),
            None => None,
        },
        Err(_) => None,
    }
}

impl Destination {
    /// Equality of the denoted sinks.
    pub fn same(&self, o: &Destination) -> (r: bool)
        ensures
            r == (self@ == o@),
    {
        match self {
            Destination::Suppressed => match o {
                Destination::Suppressed => true,
                _ => false,
            },
            Destination::StdOut => match o {
                Destination::StdOut => true,
                _ => false,
            },
            Destination::StdErr => match o {
                Destination::StdErr => true,
                _ => false,
            },
            Destination::File(a) => match o {
                Destination::File(b) => a.eq(b),
                _ => false,
            },
            Destination::Custom(a) => match o {
                Destination::Custom(b) => a.eq(b),
                _ => false,
            },
        }
    }

    /// An independent copy.
    pub fn duplicate(&self) -> (r: Destination)
        ensures
            r@ == self@,
    {
        match self {
            Destination::Suppressed => Destination::Suppressed,
            Destination::StdOut => Destination::StdOut,
            Destination::StdErr => Destination::StdErr,
            Destination::File(p) => Destination::File(p.clone()),
            Destination::Custom(n) => Destination::Custom(n.clone()),
        }
    }

    /// Normalization with a known answer for a file path: the canonical form
    /// when there is one, else the path as written; other destinations are
    /// kept.
    pub fn normalized_with(self, canonical: Option<String>) -> (r: Destination)
        ensures
            r@ == spec_normalized(self@, opt_view(canonical)),
    {
        match self {
            Destination::File(p) => match canonical {
                Some(c) => Destination::File(c),
                None => Destination::File(p),
            },
            other => other,
        }
    }

    /// Normalization: a file path is resolved to its canonical absolute form
    /// where the file system can, else kept as written.
    pub fn normalize(self) -> (r: Destination)
        ensures
            exists|c: Option<Seq<char>>| r@ == #[trigger] spec_normalized(self@, c),
    {
        let canonical = match &self {
            Destination::File(p) => canonical_path(p.as_str()),
            _ => None,
        };
        let ghost c = opt_view(canonical);
        let r = self.normalized_with(canonical);
        assert(r@ == spec_normalized(self@, c));
        r
    }
}

} // verus!
