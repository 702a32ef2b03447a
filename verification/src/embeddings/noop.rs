use vstd::prelude::*;

verus! {

/// No-op embedding backend: its vectors are all zeros.
///
/// Useful for testing and for consumers who only need FTS5 search. The
/// vectors themselves are floating point and are produced by the
/// application layer from `dimensions`.
pub struct NoopBackend {
    dims: usize,
}

impl NoopBackend {
    /// Create with the specified number of dimensions.
    pub fn new(dims: usize) -> (b: NoopBackend)
        ensures
            b.dimensions_spec() == dims,
    {
        NoopBackend { dims }
    }

    /// The number of dimensions of the vectors.
    pub closed spec fn dimensions_spec(&self) -> usize {
        self.dims
    }

    /// Number of dimensions in output vectors.
    pub fn dimensions(&self) -> (d: usize)
        ensures
            d == self.dimensions_spec(),
    {
        self.dims
    }

    /// The backend is always ready.
    pub fn is_available(&self) -> (r: bool)
        ensures
            r,
    {
        true
    }

    /// Model identifier for tracking which model produced a vector.
    pub fn model_name(&self) -> (s: &'static str)
        ensures
            s@ == "noop"@,
    {
        "noop"
    }
}

} // verus!
