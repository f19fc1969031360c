//! Running a pipeline: each rule in the dependency order, with the outputs
//! of the rules that ran before it.

use vstd::prelude::*;
use crate::ast::UnifiedAST;
use crate::engine::PipelineError;
use crate::text::{same_text, string_views};
use crate::violation::RuleViolation;

verus! {

/// What a rule hands on to the rules that depend on it.
pub struct RuleOutput {
    pub rule_id: String,
    pub rule_name: String,
    pub data: serde_json::Value,
}

/// The position of the last rule registered under `id`, or -1 when none is.
pub open spec fn last_index(ids: Seq<Seq<char>>, id: Seq<char>) -> int
    decreases ids.len(),
{
    if ids.len() == 0 {
        -1
    } else if ids.last() == id {
        ids.len() - 1
    } else {
        last_index(ids.drop_last(), id)
    }
}

/// The findings of several rules joined in the order they ran.
pub open spec fn joined(fs: Seq<Vec<RuleViolation>>) -> Seq<RuleViolation>
    decreases fs.len(),
{
    if fs.len() == 0 {
        seq![]
    } else {
        joined(fs.drop_last()) + fs.last()@
    }
}

/// A record of running the rules of `order` one after another: the `k`-th
/// call checks the rule registered last under `order[k]`, with `ast` and a
/// context holding the outputs of the rules run before it, in order
/// (`ctxs[k]`); it found `fs[k]`, and the rule then handed on `outs[k]`,
/// generated from those findings.
pub open spec fn ran_in_order<FC, FO>(
    check: FC,
    output: FO,
    ast: &UnifiedAST,
    ids: Seq<Seq<char>>,
    order: Seq<Seq<char>>,
    ctxs: Seq<Vec<RuleOutput>>,
    fs: Seq<Vec<RuleViolation>>,
    outs: Seq<RuleOutput>,
) -> bool where
    FC: Fn(usize, &UnifiedAST, &Vec<RuleOutput>) -> Vec<RuleViolation>,
    FO: Fn(usize, &Vec<RuleViolation>) -> RuleOutput,
 {
    &&& ctxs.len() == order.len()
    &&& fs.len() == order.len()
    &&& outs.len() == order.len()
    &&& forall|k: int|
        0 <= k < order.len() ==> {
            &&& (#[trigger] ctxs[k])@ == outs.take(k)
            &&& check.ensures((last_index(ids, order[k]) as usize, ast, &ctxs[k]), fs[k])
            &&& output.ensures((last_index(ids, order[k]) as usize, &fs[k]), outs[k])
        }
}

/// Every id of `order` names a rule of `ids`.
pub open spec fn all_present(ids: Seq<Seq<char>>, order: Seq<Seq<char>>) -> bool {
    forall|k: int| 0 <= k < order.len() ==> ids.contains(#[trigger] order[k])
}

/// `d` is the first id of `order` that names no rule of `ids`.
pub open spec fn first_missing(ids: Seq<Seq<char>>, order: Seq<Seq<char>>, d: Seq<char>) -> bool {
    exists|k: int|
        0 <= k < order.len() && #[trigger] order[k] == d && !ids.contains(d) && all_present(
            ids,
            order.take(k),
        )
}

/// The position of the rule with id `id`: the last one registered under it.
fn rule_position(ids: &Vec<String>, id: &str) -> (r: Option<usize>)
    ensures
        match r {
            Some(i) => i as int == last_index(string_views(ids@), id@) && i < ids@.len()
                && ids@[i as int]@ == id@,
            None => last_index(string_views(ids@), id@) == -1 && !string_views(ids@).contains(id@),
        },
{
    let ghost iv = string_views(ids@);
    let mut found: Option<usize> = None;
    let mut i: usize = 0;
    while i < ids.len()
        invariant
            i <= ids@.len(),
            iv == string_views(ids@),
            match found {
                Some(j) => j < i && ids@[j as int]@ == id@ && j as int == last_index(
                    iv.take(i as int),
                    id@,
                ),
                None => last_index(iv.take(i as int), id@) == -1 && forall|j: int|
                    0 <= j < i ==> ids@[j]@ != id@,
            },
        decreases ids.len() - i,
    {
        proof {
            assert(iv.take(i as int + 1).drop_last() =~= iv.take(i as int));
            assert(iv.take(i as int + 1).last() == ids@[i as int]@);
        }
        if same_text(ids[i].as_str(), id) {
            found = Some(i);
        }
        i += 1;
    }
    proof {
        assert(iv.take(ids@.len() as int) =~= iv);
        if found is None && iv.contains(id@) {
            let j = choose|j: int| 0 <= j < ids@.len() && iv[j] == id@;
            assert(ids@[j]@ == id@);
        }
    }
    found
}

/// Runs the rules named by `order`, one after another, and joins their
/// findings in that order. The rule for an id is the one registered last
/// under it (`ids[i]` is the id of the rule at position `i`); running it
/// calls `check` with its position, `ast` and the outputs of the rules run
/// before it, in order, then `output` with its position and its findings.
/// Fails, before running anything past it, with the first id of `order`
/// that names no rule. What the rules find and hand on is up to `check` and
/// `output`.
pub fn run_in_order<FC, FO>(
    ids: &Vec<String>,
    order: &Vec<String>,
    ast: &UnifiedAST,
    check: FC,
    output: FO,
) -> (r: Result<Vec<RuleViolation>, PipelineError>) where
    FC: Fn(usize, &UnifiedAST, &Vec<RuleOutput>) -> Vec<RuleViolation>,
    FO: Fn(usize, &Vec<RuleViolation>) -> RuleOutput,

    requires
        forall|i: usize, c: &Vec<RuleOutput>| i < ids@.len() ==> #[trigger] check.requires((i, ast, c)),
        forall|i: usize, vs: &Vec<RuleViolation>| i < ids@.len() ==> #[trigger] output.requires((i, vs)),
    ensures
        match r {
            Ok(v) => all_present(string_views(ids@), string_views(order@)) && exists|
                ctxs: Seq<Vec<RuleOutput>>,
                fs: Seq<Vec<RuleViolation>>,
                outs: Seq<RuleOutput>,
            |
                #[trigger] ran_in_order(
                    check,
                    output,
                    ast,
                    string_views(ids@),
                    string_views(order@),
                    ctxs,
                    fs,
                    outs,
                ) && v@ == joined(fs),
            Err(PipelineError::MissingDependency(d)) => first_missing(
                string_views(ids@),
                string_views(order@),
                d@,
            ),
            Err(_) => false,
        },
{
    let ghost iv = string_views(ids@);
    let ghost ov = string_views(order@);
    let ghost mut ctxs: Seq<Vec<RuleOutput>> = seq![];
    let ghost mut fs: Seq<Vec<RuleViolation>> = seq![];
    let mut all_violations: Vec<RuleViolation> = Vec::new();
    let mut context: Vec<RuleOutput> = Vec::new();
    let mut k: usize = 0;
    while k < order.len()
        invariant
            k <= order@.len(),
            iv == string_views(ids@),
            ov == string_views(order@),
            forall|i: usize, c: &Vec<RuleOutput>| i < ids@.len() ==> #[trigger] check.requires((i, ast, c)),
            forall|i: usize, vs: &Vec<RuleViolation>| i < ids@.len() ==> #[trigger] output.requires((i, vs)),
            all_present(iv, ov.take(k as int)),
            ran_in_order(check, output, ast, iv, ov.take(k as int), ctxs, fs, context@),
            all_violations@ == joined(fs),
        decreases order.len() - k,
    {
        match rule_position(ids, order[k].as_str()) {
            None => {
                let d = order[k].clone();
                proof {
                    assert(ov[k as int] == d@);
                }
                return Err(PipelineError::MissingDependency(d));
            },
            Some(i) => {
                assert(ov[k as int] == order@[k as int]@);
                let ghost before = context;
                let violations = check(i, ast, &context);
                let out = output(i, &violations);
                proof {
                    let ov1 = ov.take(k as int + 1);
                    let outs0 = context@;
                    let ctxs1 = ctxs.push(before);
                    let fs1 = fs.push(violations);
                    let outs1 = outs0.push(out);
                    assert(ov1[k as int] == ov[k as int]);
                    assert forall|j: int| 0 <= j < k + 1 implies {
                        &&& (#[trigger] ctxs1[j])@ == outs1.take(j)
                        &&& check.ensures((last_index(iv, ov1[j]) as usize, ast, &ctxs1[j]), fs1[j])
                        &&& output.ensures((last_index(iv, ov1[j]) as usize, &fs1[j]), outs1[j])
                    } by {
                        if j < k {
                            assert(ctxs1[j] == ctxs[j]);
                            assert(ov1[j] == ov.take(k as int)[j]);
                            assert(outs1.take(j) =~= outs0.take(j));
                        } else {
                            assert(outs1.take(j) =~= outs0);
                        }
                    }
                    assert(fs1.drop_last() =~= fs);
                    assert forall|j: int| 0 <= j < k + 1 implies iv.contains(#[trigger] ov1[j]) by {
                        if j < k {
                            assert(ov1[j] == ov.take(k as int)[j]);
                        } else {
                            assert(iv[i as int] == ov[k as int]);
                        }
                    }
                    ctxs = ctxs1;
                    fs = fs1;
                }
                context.push(out);
                let mut violations = violations;
                all_violations.append(&mut violations);
                proof {
                    assert(all_violations@ =~= joined(fs));
                    assert(ran_in_order(check, output, ast, iv, ov.take(k as int + 1), ctxs, fs, context@));
                }
            },
        }
        k += 1;
    }
    assert(ov.take(ov.len() as int) =~= ov);
    assert(ran_in_order(check, output, ast, iv, ov, ctxs, fs, context@));
    Ok(all_violations)
}

} // verus!
