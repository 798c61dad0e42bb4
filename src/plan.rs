use vstd::prelude::*;
use crate::options::ShredOptions;

verus! {

/// The pattern that one pass writes over a file.
#[derive(Clone, Copy, Debug, PartialEq, Eq, Structural)]
pub enum PassKind {
    Zero,
    Random,
}

/// The passes that `options` ask for: all random passes, then all zero passes.
pub open spec fn pass_plan(options: ShredOptions) -> Seq<PassKind> {
    Seq::new(
        (options.rand_passes + options.zero_passes) as nat,
        |i: int| if i < options.rand_passes { PassKind::Random } else { PassKind::Zero },
    )
}

/// Builds the ordered list of passes for one file.
pub fn plan_passes(options: &ShredOptions) -> (r: Vec<PassKind>)
    ensures
        r@ == pass_plan(*options),
{
    let mut r: Vec<PassKind> = Vec::new();
    let mut i: u8 = 0;
    while i < options.rand_passes
        invariant
            i <= options.rand_passes,
            r@.len() == i,
            forall|k: int| 0 <= k < i ==> r@[k] == PassKind::Random,
        decreases options.rand_passes - i,
    {
        r.push(PassKind::Random);
        i = i + 1;
    }
    let mut j: u8 = 0;
    while j < options.zero_passes
        invariant
            j <= options.zero_passes,
            r@.len() == options.rand_passes + j,
            forall|k: int| 0 <= k < options.rand_passes ==> r@[k] == PassKind::Random,
            forall|k: int| options.rand_passes <= k < r@.len() ==> r@[k] == PassKind::Zero,
        decreases options.zero_passes - j,
    {
        r.push(PassKind::Zero);
        j = j + 1;
    }
    assert(r@ =~= pass_plan(*options));
    r
}

} // verus!
