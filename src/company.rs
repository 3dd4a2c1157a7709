//! Company records as reported by a source.

use vstd::prelude::*;

verus! {

/// One listing read from a source: a ticker symbol and a display name.
///
/// The symbol is the identity of the company; the name may be empty when a
/// source only exposes the symbol.
#[derive(Debug, Clone)]
pub struct Company {
    pub symbol: String,
    pub name: String,
}

/// The mathematical value of a [`Company`].
pub struct CompanyView {
    pub symbol: Seq<char>,
    pub name: Seq<char>,
}

impl View for Company {
    type V = CompanyView;

    open spec fn view(&self) -> CompanyView {
        CompanyView { symbol: self.symbol@, name: self.name@ }
    }
}

impl Company {
    /// Builds a record from its two parts.
    pub fn new(symbol: String, name: String) -> (r: Company)
        ensures
            r.symbol@ == symbol@,
            r.name@ == name@,
    {
        Company { symbol, name }
    }

    /// A copy of this record with the same symbol and name.
    pub fn duplicate(&self) -> (r: Company)
        ensures
            r@ == self@,
    {
        Company { symbol: self.symbol.clone(), name: self.name.clone() }
    }
}

/// Two records stand for the same company exactly when their symbols agree.
impl PartialEq for Company {
    fn eq(&self, other: &Company) -> (r: bool) {
        self.symbol == other.symbol
    }
}

impl vstd::std_specs::cmp::PartialEqSpecImpl for Company {
    open spec fn obeys_eq_spec() -> bool {
        true
    }

    open spec fn eq_spec(&self, other: &Company) -> bool {
        self.symbol@ == other.symbol@
    }
}

impl Eq for Company {
}

} // verus!
