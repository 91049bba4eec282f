//! Support for tests.

use vstd::prelude::*;

verus! {

/// Runs the test `test`, which goes by the name `name`.
pub fn run_test<F: FnOnce() -> ()>(name: &str, test: F)
    requires
        test.requires(()),
    ensures
        test.ensures((), ()),
{
    test()
}

} // verus!
