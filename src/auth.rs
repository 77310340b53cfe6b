use vstd::prelude::*;

verus! {

/// Whether `claimed` may act on a record whose owner is `recorded`.
pub open spec fn permits_spec(claimed: Seq<char>, recorded: Seq<char>) -> bool {
    claimed == recorded
}

/// Decides whether the caller `claimed` may act on a record owned by `recorded`.
pub fn permits(claimed: &String, recorded: &String) -> (r: bool)
    ensures
        r == permits_spec(claimed@, recorded@),
{
    *claimed == *recorded
}

} // verus!
