use vstd::prelude::*;

verus! {

/// A string that is either a borrowed slice or an owned `String`: the
/// source and target type of the conversions on [`MStr`](crate::MStr).
#[derive(Debug, PartialEq)]
pub enum MCow<'a> {
    Borrowed(&'a str),
    Owned(String),
}

impl<'a> View for MCow<'a> {
    type V = Seq<char>;

    open spec fn view(&self) -> Seq<char> {
        match self {
            MCow::Borrowed(s) => s@,
            MCow::Owned(s) => s@,
        }
    }
}

impl<'a> MCow<'a> {
    /// Whether this value carries its own allocation.
    pub open spec fn spec_is_owned(&self) -> bool {
        self is Owned
    }
}

} // verus!
