//! # Reconciliation driver
//!
//! The order of the steps that bring one server's managed rules to the
//! current address: fetch the rules, compare them, and, only when a rule
//! must change, apply the change the way the product's API takes it. The
//! caller performs each step and asks for the next one.
use vstd::prelude::*;

verus! {

/// The product a configured server runs on.
#[derive(Debug, Clone, Copy, PartialEq, Eq, Structural)]
pub enum MachineType {
    QcloudCvm,
    QcloudLighthouse,
    AliyunEcs,
    AliyunSas,
    RainyunRcs,
}

/// How a product's API applies changed rules.
#[derive(Debug, Clone, Copy, PartialEq, Eq, Structural)]
pub enum Mutation {
    /// Delete the changed rules, then create them again.
    DeleteThenCreate,
    /// Send the whole rule set back at once.
    ReplaceAll,
    /// Send each changed rule on its own.
    ModifyEach,
}

/// A step of one server's reconciliation.
#[derive(Debug, Clone, Copy, PartialEq, Eq, Structural)]
pub enum Step {
    FetchingRules,
    DeletingRules,
    CreatingRules,
    ModifyingRules,
    Done,
}

/// How each product applies changed rules.
pub open spec fn mutation_of(mt: MachineType) -> Mutation {
    match mt {
        MachineType::AliyunEcs | MachineType::AliyunSas => Mutation::DeleteThenCreate,
        MachineType::QcloudCvm | MachineType::QcloudLighthouse => Mutation::ReplaceAll,
        MachineType::RainyunRcs => Mutation::ModifyEach,
    }
}

/// The step after `step`: after fetching, done when nothing must change;
/// otherwise delete then create, or modify, as the product does it.
pub open spec fn step_after(m: Mutation, step: Step, require_update: bool) -> Step {
    match step {
        Step::FetchingRules => if !require_update {
            Step::Done
        } else if m == Mutation::DeleteThenCreate {
            Step::DeletingRules
        } else {
            Step::ModifyingRules
        },
        Step::DeletingRules => Step::CreatingRules,
        _ => Step::Done,
    }
}

impl MachineType {
    /// How this product applies changed rules.
    pub fn mutation(&self) -> (r: Mutation)
        ensures
            r == mutation_of(*self),
    {
        match self {
            MachineType::AliyunEcs | MachineType::AliyunSas => Mutation::DeleteThenCreate,
            MachineType::QcloudCvm | MachineType::QcloudLighthouse => Mutation::ReplaceAll,
            MachineType::RainyunRcs => Mutation::ModifyEach,
        }
    }

    /// Whether the product's rules hold IPv6 addresses too, so that the
    /// current IPv6 address is compared as well.
    pub fn uses_ipv6(&self) -> (r: bool)
        ensures
            r == (*self == MachineType::AliyunEcs || *self == MachineType::QcloudCvm),
    {
        match self {
            MachineType::AliyunEcs | MachineType::QcloudCvm => true,
            _ => false,
        }
    }
}

/// The step that follows `step` on a server of type `mt`; `require_update`
/// is what the comparison of the fetched rules said.
pub fn next_step(mt: MachineType, step: Step, require_update: bool) -> (r: Step)
    ensures
        r == step_after(mutation_of(mt), step, require_update),
{
    match step {
        Step::FetchingRules => {
            if !require_update {
                Step::Done
            } else if mt.mutation() == Mutation::DeleteThenCreate {
                Step::DeletingRules
            } else {
                Step::ModifyingRules
            }
        },
        Step::DeletingRules => Step::CreatingRules,
        _ => Step::Done,
    }
}

/// The steps from fetching to done.
pub open spec fn run_of(m: Mutation, require_update: bool) -> Seq<Step> {
    if !require_update {
        seq![Step::FetchingRules, Step::Done]
    } else if m == Mutation::DeleteThenCreate {
        seq![Step::FetchingRules, Step::DeletingRules, Step::CreatingRules, Step::Done]
    } else {
        seq![Step::FetchingRules, Step::ModifyingRules, Step::Done]
    }
}

/// A reconciliation is a fixed run of steps: it starts by fetching, each
/// step follows from the one before, it ends done, and it changes rules
/// only when the comparison asked for it, deleting before creating.
pub proof fn lemma_steps_run(m: Mutation, require_update: bool)
    ensures
        run_of(m, require_update)[0] == Step::FetchingRules,
        run_of(m, require_update).last() == Step::Done,
        forall|i: int|
            0 <= i < run_of(m, require_update).len() - 1 ==> #[trigger] run_of(
                m,
                require_update,
            )[i + 1] == step_after(m, run_of(m, require_update)[i], require_update),
        !require_update ==> run_of(m, require_update).len() == 2,
{
}

/// The text naming a step.
pub open spec fn label_of(step: Step) -> Seq<char> {
    match step {
        Step::FetchingRules => "Fetching firewall rules"@,
        Step::DeletingRules => "Deleting firewall rules"@,
        Step::CreatingRules => "Adding firewall rules"@,
        Step::ModifyingRules => "Modifying firewall rules"@,
        Step::Done => "Done"@,
    }
}

/// A short text naming a step, for progress reports; different steps have
/// different texts.
pub fn step_label(step: Step) -> (r: &'static str)
    ensures
        r@ == label_of(step),
        forall|other: Step| other != step ==> label_of(other) != r@,
{
    proof {
        reveal_strlit("Fetching firewall rules");
        reveal_strlit("Deleting firewall rules");
        reveal_strlit("Adding firewall rules");
        reveal_strlit("Modifying firewall rules");
        reveal_strlit("Done");
        assert(label_of(Step::FetchingRules).len() == 23 && label_of(Step::FetchingRules)[0] == 'F');
        assert(label_of(Step::DeletingRules).len() == 23 && label_of(Step::DeletingRules)[0] == 'D');
        assert(label_of(Step::CreatingRules).len() == 21);
        assert(label_of(Step::ModifyingRules).len() == 24);
        assert(label_of(Step::Done).len() == 4);
    }
    match step {
        Step::FetchingRules => "Fetching firewall rules",
        Step::DeletingRules => "Deleting firewall rules",
        Step::CreatingRules => "Adding firewall rules",
        Step::ModifyingRules => "Modifying firewall rules",
        Step::Done => "Done",
    }
}

} // verus!
