use vstd::prelude::*;

verus! {

/// A font family, by name or by generic kind.
#[derive(Debug, Clone, PartialEq, Eq)]
pub enum FontFamily {
    /// A family given by its name, such as `"Inter"`.
    Name(String),
    Serif,
    SansSerif,
    Cursive,
    Fantasy,
    Monospace,
}

} // verus!
