//! Indentation state for tree dumps: a stateless builder carrying the
//! accumulated tabulation, branched once per child level.  Rendering the
//! strings is the caller's business; this only builds them.

use vstd::prelude::*;

verus! {

/// The tabulation accumulated along one path of a tree dump.
pub struct TreePrinter {
    pub tabulation: String,
}

impl TreePrinter {
    /// A printer at the tree's root, with no tabulation.
    pub fn new() -> (r: TreePrinter)
        ensures
            r.tabulation@ == Seq::<char>::empty(),
    {
        TreePrinter { tabulation: String::new() }
    }

    /// The current tabulation, to print before a branch marker.
    pub fn tab(&self) -> (r: &str)
        ensures
            r@ == self.tabulation@,
    {
        self.tabulation.as_str()
    }

    /// The marker introducing a child: a corner for the last child of its
    /// parent, a tee for any other.
    pub fn branch_marker(last: bool) -> (r: &'static str)
        ensures
            last ==> r@ == "`-- "@,
            !last ==> r@ == "|-- "@,
    {
        if last {
            "`-- "
        } else {
            "|-- "
        }
    }

    /// The printer for the children of a branch: the tabulation grows by a
    /// blank column under a last child, by a rule column otherwise.
    pub fn new_branch(&self, last: bool) -> (r: TreePrinter)
        ensures
            last ==> r.tabulation@ == self.tabulation@ + "    "@,
            !last ==> r.tabulation@ == self.tabulation@ + "|   "@,
    {
        let mut tabulation = self.tabulation.clone();
        if last {
            tabulation.append("    ");
        } else {
            tabulation.append("|   ");
        }
        TreePrinter { tabulation }
    }
}

} // verus!
