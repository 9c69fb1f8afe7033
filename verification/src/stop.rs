//! The command that stops the environments of an integration.

use vstd::prelude::*;
use crate::integration::texts;

verus! {

/// What the command was given.
#[derive(Debug, PartialEq)]
pub struct Cli {
    /// The integration.
    pub integration: String,
    /// The environment; all that are up where there is none.
    pub environment: Option<String>,
    /// Whether to go by the settings of the test where the environment
    /// is not up.
    pub force: bool,
}

/// What there is to stop.
#[derive(Debug, PartialEq)]
pub enum StopPlan {
    /// The integration is of the old kind: its one set of containers.
    Old,
    /// Each of the named environments, in order.
    Environments(Vec<String>),
    /// Nothing: no environment of the integration is up.
    NothingActive,
}

/// The mathematical content of a [`StopPlan`].
pub enum StopPlanView {
    Old,
    Environments(Seq<Seq<char>>),
    NothingActive,
}

impl View for StopPlan {
    type V = StopPlanView;

    open spec fn view(&self) -> StopPlanView {
        match self {
            StopPlan::Old => StopPlanView::Old,
            StopPlan::Environments(names) => StopPlanView::Environments(texts(names@)),
            StopPlan::NothingActive => StopPlanView::NothingActive,
        }
    }
}

impl Cli {
    /// What the command stops. A named environment is stopped, and it
    /// alone. Without a name, an integration of the old kind is stopped
    /// as such; of any other, every environment that is up, in the order
    /// of `active`. Whether the integration is of the old kind,
    /// `old_exists`, and which environments are up, `active`, are read
    /// only where no environment is named.
    pub fn exec(&self, old_exists: bool, active: &Vec<String>) -> (plan: StopPlan)
        ensures
            plan@ == (match self.environment {
                Some(environment) => StopPlanView::Environments(seq![environment@]),
                None => if old_exists {
                    StopPlanView::Old
                } else if active@.len() == 0 {
                    StopPlanView::NothingActive
                } else {
                    StopPlanView::Environments(texts(active@))
                },
            }),
    {
        match &self.environment {
            Some(environment) => {
                let mut names: Vec<String> = Vec::new();
                names.push(environment.clone());
                assert(texts(names@) =~= seq![environment@]);
                StopPlan::Environments(names)
            },
            None => {
                if old_exists {
                    StopPlan::Old
                } else if active.len() == 0 {
                    StopPlan::NothingActive
                } else {
                    let mut names: Vec<String> = Vec::new();
                    let mut i: usize = 0;
                    while i < active.len()
                        invariant
                            i <= active@.len(),
                            names@.len() == i,
                            forall|j: int| 0 <= j < i ==> names@[j]@ == active@[j]@,
                        decreases active@.len() - i,
                    {
                        names.push(active[i].clone());
                        i += 1;
                    }
                    assert(texts(names@) =~= texts(active@));
                    StopPlan::Environments(names)
                }
            },
        }
    }
}

} // verus!
