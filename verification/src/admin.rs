use vstd::prelude::*;

verus! {

/// The column headings a read-only administration listing shows for the
/// registered collections.
#[derive(Clone, Copy, PartialEq, Eq, Structural, Hash, Debug)]
pub enum BasicColumn {
    Name,
    Count,
    Rate,
}

impl BasicColumn {
    pub fn as_str(&self) -> (r: &'static str)
        ensures
            *self == BasicColumn::Name ==> r@ == "Name"@,
            *self == BasicColumn::Count ==> r@ == "Count"@,
            *self == BasicColumn::Rate ==> r@ == "Rate"@,
    {
        match *self {
            BasicColumn::Name => "Name",
            BasicColumn::Count => "Count",
            BasicColumn::Rate => "Rate",
        }
    }
}

} // verus!
