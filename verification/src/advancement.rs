use vstd::prelude::*;

use crate::stages::finished::Finished;

verus! {

/// What advancing a stage produced: the next stage of the round, or an
/// early `Finished` because a single active player remained.
pub enum Advancement<NextStage> {
    NextStage(NextStage),
    Finished(Finished),
}

} // verus!
