//! A transfer: the move of one table from a source to a destination.

use crate::keyed::Keyed;
use vstd::prelude::*;

verus! {

/// The write mode applied when data is moved into a destination.
#[derive(Debug, Clone, Copy, PartialEq, Eq, Structural)]
pub enum Operation {
    Overwrite,
    Update,
    Upsert,
}

/// Where data is read from: a path and the options handed to the driver
/// that opens it. The options are not interpreted here; their order counts.
#[derive(Debug, Clone)]
pub struct Source {
    pub path: String,
    pub option: Vec<String>,
}

/// Where data is written to: a path and the options handed to the driver
/// that opens it. The options are not interpreted here; their order counts.
#[derive(Debug, Clone)]
pub struct Destination {
    pub path: String,
    pub option: Vec<String>,
}

/// One table transfer between a source and a destination.
#[derive(Debug, Clone)]
pub struct Transfer {
    pub id: u32,
    pub operation: Operation,
    pub src: Source,
    pub dst: Destination,
}

/// The characters of each string, string by string.
pub open spec fn texts(strings: Seq<String>) -> Seq<Seq<char>> {
    Seq::new(strings.len(), |i: int| strings[i]@)
}

/// The mathematical value of a [`Source`] or a [`Destination`].
pub struct EndpointView {
    pub path: Seq<char>,
    pub option: Seq<Seq<char>>,
}

/// The mathematical value of a [`Transfer`].
pub struct TransferView {
    pub id: u32,
    pub operation: Operation,
    pub src: EndpointView,
    pub dst: EndpointView,
}

impl EndpointView {
    /// An endpoint names a path.
    pub open spec fn valid(self) -> bool {
        self.path.len() > 0
    }
}

impl TransferView {
    /// Both endpoints of a transfer name a path.
    pub open spec fn valid(self) -> bool {
        self.src.valid() && self.dst.valid()
    }
}

impl View for Source {
    type V = EndpointView;

    open spec fn view(&self) -> EndpointView {
        EndpointView { path: self.path@, option: texts(self.option@) }
    }
}

impl View for Destination {
    type V = EndpointView;

    open spec fn view(&self) -> EndpointView {
        EndpointView { path: self.path@, option: texts(self.option@) }
    }
}

impl View for Transfer {
    type V = TransferView;

    open spec fn view(&self) -> TransferView {
        TransferView { id: self.id, operation: self.operation, src: self.src@, dst: self.dst@ }
    }
}

impl Keyed for Transfer {
    open spec fn key(&self) -> u32 {
        self.id
    }

    fn id(&self) -> u32 {
        self.id
    }
}

/// Whether two lists hold the same strings in the same order.
pub fn same_texts(a: &Vec<String>, b: &Vec<String>) -> (r: bool)
    ensures
        r == (texts(a@) == texts(b@)),
{
    if a.len() != b.len() {
        assert(texts(a@).len() != texts(b@).len());
        return false;
    }
    let mut i: usize = 0;
    while i < a.len()
        invariant
            i <= a.len(),
            a.len() == b.len(),
            forall|k: int| 0 <= k < i ==> a@[k]@ == b@[k]@,
        decreases a.len() - i,
    {
        if a[i] != b[i] {
            assert(texts(a@)[i as int] != texts(b@)[i as int]);
            return false;
        }
        i += 1;
    }
    assert(texts(a@) =~= texts(b@));
    true
}

impl PartialEq for Source {
    /// Whether the two hold the same values, field for field.
    fn eq(&self, other: &Source) -> (r: bool) {
        self.path == other.path && same_texts(&self.option, &other.option)
    }
}

impl Eq for Source {

}

/// `==` compares by value.
impl vstd::std_specs::cmp::PartialEqSpecImpl for Source {
    open spec fn obeys_eq_spec() -> bool {
        true
    }

    open spec fn eq_spec(&self, other: &Source) -> bool {
        self@ == other@
    }
}

impl PartialEq for Destination {
    /// Whether the two hold the same values, field for field.
    fn eq(&self, other: &Destination) -> (r: bool) {
        self.path == other.path && same_texts(&self.option, &other.option)
    }
}

impl Eq for Destination {

}

/// `==` compares by value.
impl vstd::std_specs::cmp::PartialEqSpecImpl for Destination {
    open spec fn obeys_eq_spec() -> bool {
        true
    }

    open spec fn eq_spec(&self, other: &Destination) -> bool {
        self@ == other@
    }
}

impl PartialEq for Transfer {
    /// Whether the two hold the same values, field for field.
    fn eq(&self, other: &Transfer) -> (r: bool) {
        self.id == other.id && self.operation == other.operation && self.src == other.src
            && self.dst == other.dst
    }
}

impl Eq for Transfer {

}

/// `==` compares by value.
impl vstd::std_specs::cmp::PartialEqSpecImpl for Transfer {
    open spec fn obeys_eq_spec() -> bool {
        true
    }

    open spec fn eq_spec(&self, other: &Transfer) -> bool {
        self@ == other@
    }
}

impl Source {
    /// Whether the source names a path.
    pub fn is_valid(&self) -> (r: bool)
        ensures
            r == self@.valid(),
    {
        !self.path.as_str().is_empty()
    }
}

impl Destination {
    /// Whether the destination names a path.
    pub fn is_valid(&self) -> (r: bool)
        ensures
            r == self@.valid(),
    {
        !self.path.as_str().is_empty()
    }
}

impl Transfer {
    /// Whether both endpoints name a path.
    pub fn is_valid(&self) -> (r: bool)
        ensures
            r == self@.valid(),
    {
        self.src.is_valid() && self.dst.is_valid()
    }
}

} // verus!
