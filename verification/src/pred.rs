use vstd::prelude::*;
use crate::entry::Entry;
use crate::error::LinkError;
use crate::internal::{InternalLinker, spec_links};

verus! {

/// How the number of links is compared with the bound.
#[derive(Clone, Copy, Debug, PartialEq, Eq, Structural)]
pub enum LinkCountOp {
    LT,
    EQ,
    GT,
}

/// The number of links `count` stands in the relation `op` to `n`.
pub open spec fn spec_compare(op: LinkCountOp, count: nat, n: nat) -> bool {
    match op {
        LinkCountOp::LT => count < n,
        LinkCountOp::EQ => count == n,
        LinkCountOp::GT => count > n,
    }
}

/// A test on entries by the number of their links: the number compared
/// with `n` by `op`; where the links do not read, `errfn` decides.
pub struct FilterLinkCount<E> {
    op: LinkCountOp,
    n: usize,
    errfn: E,
}

impl<E: Fn(&LinkError) -> bool> FilterLinkCount<E> {
    /// The comparison.
    pub closed spec fn op(&self) -> LinkCountOp {
        self.op
    }

    /// The bound.
    pub closed spec fn bound(&self) -> usize {
        self.n
    }

    /// What decides on an entry whose links do not read.
    pub closed spec fn errfn(&self) -> E {
        self.errfn
    }

    /// A test that compares the number of links with `n` by `op`; where
    /// the links of an entry do not read, `errfn` decides whether the
    /// entry passes.
    pub fn new(op: LinkCountOp, n: usize, errfn: E) -> (r: FilterLinkCount<E>)
        ensures
            r.op() == op,
            r.bound() == n,
            r.errfn() == errfn,
    {
        FilterLinkCount { op, n, errfn }
    }

    /// Whether `entry` passes the test.
    pub fn filter(&self, entry: &Entry) -> (r: bool)
        requires
            forall|e: &LinkError| #[trigger] self.errfn().requires((e,)),
        ensures
            match spec_links(entry@.header) {
                Err(e) => self.errfn().ensures((&e,), r),
                Ok(ls) => r == spec_compare(self.op(), ls.len(), self.bound() as nat),
            },
            spec_links(entry@.header) matches Ok(ls) ==> (self.op() == LinkCountOp::LT ==> (r <==> ls.len() < self.bound())),
            spec_links(entry@.header) matches Ok(ls) ==> (self.op() == LinkCountOp::EQ ==> (r <==> ls.len() == self.bound())),
            spec_links(entry@.header) matches Ok(ls) ==> (self.op() == LinkCountOp::GT ==> (r <==> ls.len() > self.bound())),
    {
        match entry.get_internal_links() {
            Err(e) => {
                assert(self.errfn().requires((&e,)));
                (self.errfn)(&e)
            },
            Ok(links) => match self.op {
                LinkCountOp::LT => links.count() < self.n,
                LinkCountOp::EQ => links.count() == self.n,
                LinkCountOp::GT => links.count() > self.n,
            },
        }
    }
}

} // verus!
