//! Properties of the deployment pipeline, stated over the model that
//! `Deployment::start` and `Deployment::record` are specified by.
use vstd::prelude::*;
use crate::deploy::{failures, first_named, resolve, survivors, FailureView, NodeView, Stage};

verus! {

/// The nodes deployed and the report after the three stages, where `o1`,
/// `o2` and `o3` are the outcomes of the transfer, build and spawn calls.
pub open spec fn pipeline_outcome(
    c: Seq<NodeView>,
    o1: Seq<Result<(), String>>,
    o2: Seq<Result<(), String>>,
    o3: Seq<Result<(), String>>,
) -> (Seq<NodeView>, Seq<FailureView>) {
    let c1 = survivors(c, o1);
    let c2 = survivors(c1, o2);
    (survivors(c2, o3), failures(Stage::Transfer, c, o1) + failures(Stage::Build, c1, o2) + failures(
        Stage::Spawn,
        c2,
        o3,
    ))
}

pub open spec fn all_ok(o: Seq<Result<(), String>>) -> bool {
    forall|i: int| 0 <= i < o.len() ==> (#[trigger] o[i]) is Ok
}

/// No two nodes share a name.
pub open spec fn names_distinct(c: Seq<NodeView>) -> bool {
    forall|a: int, b: int| 0 <= a < b < c.len() ==> c[a].1 != c[b].1
}

/// Number of report entries that name node `name`.
pub open spec fn count_named(fs: Seq<FailureView>, name: Seq<char>) -> nat
    decreases fs.len(),
{
    if fs.len() == 0 {
        0
    } else {
        count_named(fs.drop_last(), name) + if fs.last().1 == name {
            1nat
        } else {
            0nat
        }
    }
}

/// A stage whose calls all succeed keeps every candidate and reports nothing.
pub proof fn healthy_stage_keeps_all(stage: Stage, c: Seq<NodeView>, o: Seq<Result<(), String>>)
    requires
        o.len() == c.len(),
        all_ok(o),
    ensures
        survivors(c, o) == c,
        failures(stage, c, o) == Seq::<FailureView>::empty(),
    decreases c.len(),
{
    if c.len() > 0 {
        assert(all_ok(o.drop_last()));
        healthy_stage_keeps_all(stage, c.drop_last(), o.drop_last());
        assert(c.drop_last().push(c.last()) =~= c);
        assert(o.last() == o[o.len() - 1]);
    }
}

/// A deployment against nodes that answer every call successfully deploys
/// every candidate and ends with an empty report. Each deployment starts by
/// purging the project, so deploying again ends the same way.
pub proof fn healthy_deployment_is_clean(
    c: Seq<NodeView>,
    o1: Seq<Result<(), String>>,
    o2: Seq<Result<(), String>>,
    o3: Seq<Result<(), String>>,
)
    requires
        o1.len() == c.len(),
        o2.len() == c.len(),
        o3.len() == c.len(),
        all_ok(o1),
        all_ok(o2),
        all_ok(o3),
    ensures
        pipeline_outcome(c, o1, o2, o3) == (c, Seq::<FailureView>::empty()),
{
    healthy_stage_keeps_all(Stage::Transfer, c, o1);
    healthy_stage_keeps_all(Stage::Build, c, o2);
    healthy_stage_keeps_all(Stage::Spawn, c, o3);
    assert(Seq::<FailureView>::empty() + Seq::<FailureView>::empty() + Seq::<FailureView>::empty()
        =~= Seq::<FailureView>::empty());
}

/// Each survivor of a stage is a candidate whose call succeeded.
proof fn lemma_survivor_origin(c: Seq<NodeView>, o: Seq<Result<(), String>>)
    requires
        o.len() == c.len(),
    ensures
        forall|k: int| 0 <= k < survivors(c, o).len() ==> exists|j: int|
            0 <= j < c.len() && o[j] is Ok && #[trigger] survivors(c, o)[k] == c[j],
    decreases c.len(),
{
    if c.len() > 0 {
        lemma_survivor_origin(c.drop_last(), o.drop_last());
        let prev = survivors(c.drop_last(), o.drop_last());
        assert forall|k: int| 0 <= k < survivors(c, o).len() implies exists|j: int|
            0 <= j < c.len() && o[j] is Ok && #[trigger] survivors(c, o)[k] == c[j] by {
            if k < prev.len() {
                let j = choose|j: int| 0 <= j < c.len() - 1 && o.drop_last()[j] is Ok && prev[k] == c.drop_last()[j];
                assert(survivors(c, o)[k] == c[j]);
            } else {
                assert(survivors(c, o)[k] == c[c.len() - 1]);
            }
        }
    }
}

/// A candidate whose call succeeded survives the stage.
proof fn lemma_survivor_kept(c: Seq<NodeView>, o: Seq<Result<(), String>>, j: int)
    requires
        o.len() == c.len(),
        0 <= j < c.len(),
        o[j] is Ok,
    ensures
        survivors(c, o).contains(c[j]),
    decreases c.len(),
{
    let prev = survivors(c.drop_last(), o.drop_last());
    if j == c.len() - 1 {
        assert(survivors(c, o) == prev.push(c[j]));
        assert(survivors(c, o)[prev.len() as int] == c[j]);
    } else {
        lemma_survivor_kept(c.drop_last(), o.drop_last(), j);
        let k = choose|k: int| 0 <= k < prev.len() && prev[k] == c.drop_last()[j];
        if o.last() is Ok {
            assert(survivors(c, o)[k] == c[j]);
        } else {
            assert(survivors(c, o)[k] == c[j]);
        }
    }
}

/// A stage reports nothing of a node that is not among its candidates.
proof fn lemma_not_candidate_not_reported(stage: Stage, c: Seq<NodeView>, o: Seq<Result<(), String>>, name: Seq<char>)
    requires
        forall|k: int| 0 <= k < c.len() ==> (#[trigger] c[k]).1 != name,
    ensures
        count_named(failures(stage, c, o), name) == 0,
    decreases c.len(),
{
    if c.len() > 0 && o.len() > 0 {
        assert(forall|k: int| 0 <= k < c.len() - 1 ==> c.drop_last()[k] == c[k]);
        lemma_not_candidate_not_reported(stage, c.drop_last(), o.drop_last(), name);
        let prev = failures(stage, c.drop_last(), o.drop_last());
        assert(c.last() == c[c.len() - 1]);
        match o.last() {
            Err(e) => {
                assert(failures(stage, c, o).drop_last() =~= prev);
            },
            Ok(_) => {},
        }
    }
}

/// A stage reports a failed candidate with a unique name exactly once.
proof fn lemma_failed_reported_once(stage: Stage, c: Seq<NodeView>, o: Seq<Result<(), String>>, i: int)
    requires
        names_distinct(c),
        o.len() == c.len(),
        0 <= i < c.len(),
        o[i] is Err,
    ensures
        count_named(failures(stage, c, o), c[i].1) == 1,
    decreases c.len(),
{
    let prev = failures(stage, c.drop_last(), o.drop_last());
    let last = c.len() - 1;
    if i == last {
        assert forall|k: int| 0 <= k < c.drop_last().len() implies (#[trigger] c.drop_last()[k]).1 != c[i].1 by {
            assert(c.drop_last()[k] == c[k]);
        }
        lemma_not_candidate_not_reported(stage, c.drop_last(), o.drop_last(), c[i].1);
        assert(failures(stage, c, o).drop_last() =~= prev);
    } else {
        assert(names_distinct(c.drop_last()));
        assert(c.drop_last()[i] == c[i]);
        lemma_failed_reported_once(stage, c.drop_last(), o.drop_last(), i);
        assert(c[last].1 != c[i].1);
        match o.last() {
            Err(e) => {
                assert(failures(stage, c, o).drop_last() =~= prev);
            },
            Ok(_) => {},
        }
    }
}

proof fn lemma_count_concat(a: Seq<FailureView>, b: Seq<FailureView>, name: Seq<char>)
    ensures
        count_named(a + b, name) == count_named(a, name) + count_named(b, name),
    decreases b.len(),
{
    if b.len() > 0 {
        lemma_count_concat(a, b.drop_last(), name);
        assert((a + b).drop_last() =~= a + b.drop_last());
        assert((a + b).last() == b.last());
    }
}

/// A node whose transfer fails is reported exactly once, for the transfer,
/// and receives neither the build nor the spawn call; every node whose
/// transfer succeeds goes on to the build.
pub proof fn failed_transfer_is_contained(
    c: Seq<NodeView>,
    o1: Seq<Result<(), String>>,
    o2: Seq<Result<(), String>>,
    o3: Seq<Result<(), String>>,
    i: int,
)
    requires
        names_distinct(c),
        o1.len() == c.len(),
        o2.len() == survivors(c, o1).len(),
        o3.len() == survivors(survivors(c, o1), o2).len(),
        0 <= i < c.len(),
        o1[i] is Err,
    ensures
        count_named(pipeline_outcome(c, o1, o2, o3).1, c[i].1) == 1,
        count_named(failures(Stage::Transfer, c, o1), c[i].1) == 1,
        forall|k: int| 0 <= k < survivors(c, o1).len() ==> (#[trigger] survivors(c, o1)[k]).1 != c[i].1,
        forall|k: int|
            0 <= k < survivors(survivors(c, o1), o2).len() ==> (#[trigger] survivors(survivors(c, o1), o2)[k]).1
                != c[i].1,
        forall|j: int| 0 <= j < c.len() && (#[trigger] o1[j]) is Ok ==> survivors(c, o1).contains(c[j]),
{
    let c1 = survivors(c, o1);
    let c2 = survivors(c1, o2);
    lemma_failed_reported_once(Stage::Transfer, c, o1, i);
    lemma_survivor_origin(c, o1);
    assert forall|k: int| 0 <= k < c1.len() implies (#[trigger] c1[k]).1 != c[i].1 by {
        let j = choose|j: int| 0 <= j < c.len() && o1[j] is Ok && c1[k] == c[j];
        assert(j != i);
    }
    lemma_survivor_origin(c1, o2);
    assert forall|k: int| 0 <= k < c2.len() implies (#[trigger] c2[k]).1 != c[i].1 by {
        let j = choose|j: int| 0 <= j < c1.len() && o2[j] is Ok && c2[k] == c1[j];
        assert(c1[j].1 != c[i].1);
    }
    lemma_not_candidate_not_reported(Stage::Build, c1, o2, c[i].1);
    lemma_not_candidate_not_reported(Stage::Spawn, c2, o3, c[i].1);
    let f1 = failures(Stage::Transfer, c, o1);
    let f2 = failures(Stage::Build, c1, o2);
    let f3 = failures(Stage::Spawn, c2, o3);
    lemma_count_concat(f1, f2, c[i].1);
    lemma_count_concat(f1 + f2, f3, c[i].1);
    assert forall|j: int| 0 <= j < c.len() && (#[trigger] o1[j]) is Ok implies survivors(c, o1).contains(c[j]) by {
        lemma_survivor_kept(c, o1, j);
    }
}

/// Where none of the project's node names designates a registered node,
/// nothing resolves, so the deployment does not start and no stage runs.
pub proof fn unknown_targets_resolve_to_nothing(names: Seq<Seq<char>>, reg: Seq<NodeView>)
    requires
        forall|k: int| 0 <= k < names.len() ==> first_named(reg, #[trigger] names[k], 0) is None,
    ensures
        resolve(names, reg).len() == 0,
    decreases names.len(),
{
    if names.len() > 0 {
        assert(forall|k: int| 0 <= k < names.len() - 1 ==> names.drop_last()[k] == names[k]);
        unknown_targets_resolve_to_nothing(names.drop_last(), reg);
        assert(names.last() == names[names.len() - 1]);
    }
}

} // verus!
