//! Landlock: what a sandbox may reach in its own file system.
use vstd::prelude::*;

use crate::error::Error;
use crate::error::ErrorModel;
use crate::policy::compile;
use crate::policy::compile::LandlockPlan;
use crate::policy::compile::LandlockPlanModel;
use crate::policy::compile::LandlockRuleModel;
use crate::policy::landlock_bits;
use crate::runtime::plan::Act;
use crate::runtime::plan::ActModel;
use crate::runtime::plan::Blame;
use crate::runtime::plan::Step;
use crate::runtime::plan::StepModel;
use crate::text;

verus! {

/// What the kernel's answer to the version question means: an ABI, or that Landlock or the wanted
/// ABI is not there.
pub fn probe_landlock_abi(min_abi: u32, answer: i64) -> (r: Result<u32, Error>)
    ensures
        r is Ok <==> answer >= 0 && answer as u32 >= min_abi,
        r matches Ok(abi) ==> abi == answer as u32,
        answer < 0 ==> (r matches Err(e) && e@ == (ErrorModel::KernelFeatureMissing {
            feature: "Landlock LSM"@,
            min_kernel: "5.13"@,
        })),
        answer >= 0 && (answer as u32) < min_abi ==> (r matches Err(e) && e@ == (ErrorModel::KernelFeatureMissing {
            feature: "Landlock ABI (see min_abi in error context)"@,
            min_kernel: "5.13+"@,
        })),
{
    if answer < 0 {
        return Err(Error::KernelFeatureMissing { feature: "Landlock LSM", min_kernel: "5.13" });
    }
    let abi: u32 = answer as u32;
    if abi < min_abi {
        return Err(
            Error::KernelFeatureMissing {
                feature: "Landlock ABI (see min_abi in error context)",
                min_kernel: "5.13+",
            },
        );
    }
    Ok(abi)
}

/// Opens a path and allows accesses beneath it.
pub open spec fn rule_steps(path: Seq<char>, access: u64) -> Seq<StepModel> {
    seq![
        StepModel {
            act: ActModel::OpenPath(path),
            blame: Blame::Mount,
            lead: "open path for Landlock: "@,
            invalid_ok: false,
        },
        StepModel {
            act: ActModel::AddRule { path, access },
            blame: Blame::Launch,
            lead: "landlock_add_rule for "@ + path + ": "@,
            invalid_ok: false,
        },
    ]
}

/// The steps for a list of rules. A rule that would allow nothing is left out.
pub open spec fn rules_steps(rules: Seq<LandlockRuleModel>, handled: u64) -> Seq<StepModel>
    decreases rules.len(),
{
    if rules.len() == 0 {
        Seq::empty()
    } else {
        let before = rules_steps(rules.drop_last(), handled);
        let access = rules.last().access_mask & handled;
        if access == 0 {
            before
        } else {
            before + rule_steps(rules.last().path, access)
        }
    }
}

/// Makes a ruleset of all that the ABI knows, fills it, and puts the process under it.
pub open spec fn landlock_steps(plan: LandlockPlanModel) -> Seq<StepModel> {
    let handled = landlock_bits::known(plan.abi);
    seq![
        StepModel {
            act: ActModel::CreateRuleset { files: handled, network: 0 },
            blame: Blame::Launch,
            lead: "landlock_create_ruleset: "@,
            invalid_ok: false,
        },
    ] + rules_steps(plan.rules, handled) + seq![
        StepModel {
            act: ActModel::RestrictSelf,
            blame: Blame::Launch,
            lead: "landlock_restrict_self: "@,
            invalid_ok: false,
        },
    ]
}

/// How to put the process under a plan.
pub fn apply_landlock(plan: &LandlockPlan) -> (r: Vec<Step>)
    ensures
        compile::views(r@) == landlock_steps(plan@),
{
    let handled: u64 = landlock_bits::known_at_abi(plan.abi);
    let mut out: Vec<Step> = Vec::new();
    out.push(Step::new(Act::CreateRuleset { files: handled, network: 0 }, Blame::Launch, "landlock_create_ruleset: "));
    let ghost lead = compile::views(out@);
    let ghost all = compile::views(plan.rules@);
    let mut i: usize = 0;
    proof {
        assert(lead + rules_steps(all.take(0), handled) =~= lead);
    }
    while i < plan.rules.len()
        invariant
            i <= plan.rules@.len(),
            all == compile::views(plan.rules@),
            compile::views(out@) == lead + rules_steps(all.take(i as int), handled),
        decreases plan.rules@.len() - i,
    {
        let rule = &plan.rules[i];
        let ghost done = compile::views(out@);
        proof {
            assert(all.take(i + 1).drop_last() =~= all.take(i as int));
            assert(all.take(i + 1).last() == rule@);
        }
        let access: u64 = rule.access_mask & handled;
        if access != 0 {
            out.push(Step::new(Act::OpenPath(rule.path.clone()), Blame::Mount, "open path for Landlock: "));
            out.push(
                Step::new(
                    Act::AddRule { path: rule.path.clone(), access },
                    Blame::Launch,
                    text::cat3("landlock_add_rule for ", rule.path.as_str(), ": ").as_str(),
                ),
            );
            proof {
                assert(compile::views(out@) =~= done + rule_steps(rule.path@, access));
                assert(done + rule_steps(rule.path@, access) =~= lead + (rules_steps(all.take(i as int), handled)
                    + rule_steps(rule.path@, access)));
            }
        }
        i = i + 1;
    }
    proof {
        assert(all.take(i as int) =~= all);
    }
    let ghost done = compile::views(out@);
    out.push(Step::new(Act::RestrictSelf, Blame::Launch, "landlock_restrict_self: "));
    proof {
        assert(compile::views(out@) =~= done.push(landlock_steps(plan@).last()));
        assert(lead[0] == landlock_steps(plan@)[0]);
        assert(compile::views(out@) =~= landlock_steps(plan@));
    }
    out
}

proof fn rules_steps_are_narrow(rules: Seq<LandlockRuleModel>, handled: u64, i: int)
    requires
        0 <= i < rules_steps(rules, handled).len(),
    ensures
        match rules_steps(rules, handled)[i].act {
            ActModel::AddRule { path, access } => access != 0 && access & handled == access && exists|k: int|
                0 <= k < rules.len() && (#[trigger] rules[k]).path == path && access == rules[k].access_mask & handled,
            ActModel::OpenPath(_) => true,
            _ => false,
        },
    decreases rules.len(),
{
    let before = rules_steps(rules.drop_last(), handled);
    if i < before.len() {
        rules_steps_are_narrow(rules.drop_last(), handled, i);
        assert(rules_steps(rules, handled)[i] == before[i]);
        if let ActModel::AddRule { path, access } = before[i].act {
            let k = choose|k: int|
                0 <= k < rules.drop_last().len() && (#[trigger] rules.drop_last()[k]).path == path && access
                    == rules.drop_last()[k].access_mask & handled;
            assert(rules[k] == rules.drop_last()[k]);
        }
    } else {
        let mask = rules.last().access_mask;
        assert(((mask & handled) & handled) == (mask & handled)) by (bit_vector);
        assert(rules[rules.len() - 1] == rules.last());
    }
}

/// Every right that is asked for is one that the ruleset handles and that a rule of the plan on
/// the same path grants; and nothing but paths of the plan is opened.
pub proof fn requests_stay_within_the_plan(plan: LandlockPlanModel, i: int, path: Seq<char>, access: u64)
    requires
        0 <= i < landlock_steps(plan).len(),
        landlock_steps(plan)[i].act == (ActModel::AddRule { path, access }),
    ensures
        access != 0,
        access & landlock_bits::known(plan.abi) == access,
        exists|k: int|
            0 <= k < plan.rules.len() && (#[trigger] plan.rules[k]).path == path && access
                == plan.rules[k].access_mask & landlock_bits::known(plan.abi),
{
    let handled = landlock_bits::known(plan.abi);
    let middle = rules_steps(plan.rules, handled);
    assert(landlock_steps(plan).len() == middle.len() + 2);
    if 0 < i <= middle.len() {
        assert(landlock_steps(plan)[i] == middle[i - 1]);
        rules_steps_are_narrow(plan.rules, handled, i - 1);
    }
}

/// The process is put under the ruleset last, once every rule is in it.
pub proof fn restriction_comes_last(plan: LandlockPlanModel, i: int)
    requires
        0 <= i < landlock_steps(plan).len(),
    ensures
        landlock_steps(plan)[i].act is RestrictSelf <==> i == landlock_steps(plan).len() - 1,
        landlock_steps(plan)[0].act == (ActModel::CreateRuleset { files: landlock_bits::known(plan.abi), network: 0 }),
{
    let handled = landlock_bits::known(plan.abi);
    let middle = rules_steps(plan.rules, handled);
    if 0 < i <= middle.len() {
        assert(landlock_steps(plan)[i] == middle[i - 1]);
        rules_steps_are_narrow(plan.rules, handled, i - 1);
    }
}

} // verus!
