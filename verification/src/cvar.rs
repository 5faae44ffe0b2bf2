//! The record that describes one console variable.

use vstd::prelude::*;
use crate::pattern::texts;

verus! {

/// One console variable as listed by the server.
#[derive(Debug, Clone, PartialEq, Eq)]
pub struct Cvar {
    /// The variable's name.
    pub name: String,
    /// Its default value, possibly empty.
    pub default: String,
    /// Its flags, in the order in which the listing shows them.
    pub attributes: Vec<String>,
    /// Its description, empty where the listing gives none.
    pub description: String,
}

/// The mathematical content of a [`Cvar`].
pub struct CvarView {
    pub name: Seq<char>,
    pub default: Seq<char>,
    pub attributes: Seq<Seq<char>>,
    pub description: Seq<char>,
}

impl View for Cvar {
    type V = CvarView;

    open spec fn view(&self) -> CvarView {
        CvarView {
            name: self.name@,
            default: self.default@,
            attributes: texts(self.attributes@),
            description: self.description@,
        }
    }
}

/// The contents of a vector of records.
pub open spec fn cvar_views(v: Seq<Cvar>) -> Seq<CvarView> {
    Seq::new(v.len(), |i: int| v[i]@)
}

} // verus!
