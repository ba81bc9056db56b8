//! The deployment orchestrator: resolves a project's target nodes against the
//! registry and runs the fixed pipeline transfer, build, spawn over them,
//! dropping a node from later stages as soon as one of its calls fails.
//!
//! The orchestrator makes no call itself. The caller reads the stage and the
//! candidate nodes, performs the stage's call on each of them (concurrently if
//! it likes), and hands the outcomes back to `Deployment::record`.
use vstd::prelude::*;
use crate::text::views;

verus! {

/// A registered agent endpoint.
#[derive(Debug, Clone)]
pub struct Node {
    pub node_id: String,
    pub name: String,
    pub addr: String,
}

/// Identifier, display name and address of a node.
pub type NodeView = (Seq<char>, Seq<char>, Seq<char>);

impl View for Node {
    type V = NodeView;

    open spec fn view(&self) -> NodeView {
        (self.node_id@, self.name@, self.addr@)
    }
}

impl Node {
    pub fn new(node_id: &str, name: &str, addr: &str) -> (r: Node)
        ensures
            r@ == (node_id@, name@, addr@),
    {
        Node { node_id: String::from_str(node_id), name: String::from_str(name), addr: String::from_str(addr) }
    }

    /// A node with the same identifier, name and address.
    pub fn copy(&self) -> (r: Node)
        ensures
            r@ == self@,
    {
        Node { node_id: self.node_id.clone(), name: self.name.clone(), addr: self.addr.clone() }
    }
}

/// A project's declarative descriptor.
#[derive(Debug, Default, Clone)]
pub struct Config {
    pub proj_name: String,
    /// Names of the nodes the project deploys to, in order.
    pub node_names: Vec<String>,
    /// `[host port, container port]` pairs.
    pub port_mapping: Vec<[u16; 2]>,
    /// `[host directory, container directory]` pairs.
    pub volume_mapping: Vec<[String; 2]>,
    /// Path globs left out of the file transfer.
    pub ignore: Vec<String>,
}

pub open spec fn nodes_view(v: Seq<Node>) -> Seq<NodeView> {
    v.map_values(|n: Node| n@)
}

/// Index of the first node at or after `from` whose name is `name`.
pub open spec fn first_named(reg: Seq<NodeView>, name: Seq<char>, from: int) -> Option<int>
    decreases reg.len() - from,
{
    if from < 0 || from >= reg.len() {
        None
    } else if reg[from].1 == name {
        Some(from)
    } else {
        first_named(reg, name, from + 1)
    }
}

/// The nodes that `names` designate, in order: for each name, the first
/// registered node of that name; names without one are skipped.
pub open spec fn resolve(names: Seq<Seq<char>>, reg: Seq<NodeView>) -> Seq<NodeView>
    decreases names.len(),
{
    if names.len() == 0 {
        seq![]
    } else {
        let prev = resolve(names.drop_last(), reg);
        match first_named(reg, names.last(), 0) {
            Some(i) => prev.push(reg[i]),
            None => prev,
        }
    }
}

/// The names, in order, that designate no registered node.
pub open spec fn unresolved(names: Seq<Seq<char>>, reg: Seq<NodeView>) -> Seq<Seq<char>>
    decreases names.len(),
{
    if names.len() == 0 {
        seq![]
    } else {
        let prev = unresolved(names.drop_last(), reg);
        match first_named(reg, names.last(), 0) {
            Some(i) => prev,
            None => prev.push(names.last()),
        }
    }
}

/// Index of the first node in `reg` named `name`.
fn find_named(reg: &Vec<Node>, name: &String) -> (r: Option<usize>)
    ensures
        r is None ==> first_named(nodes_view(reg@), name@, 0) is None,
        r matches Some(i) ==> first_named(nodes_view(reg@), name@, 0) == Some(i as int) && i < reg@.len(),
{
    let mut j: usize = 0;
    while j < reg.len()
        invariant
            j <= reg@.len(),
            first_named(nodes_view(reg@), name@, 0) == first_named(nodes_view(reg@), name@, j as int),
        decreases reg@.len() - j,
    {
        if reg[j].name == *name {
            return Some(j);
        }
        j = j + 1;
    }
    None
}

/// Matches the project's node names against the registry: the nodes found,
/// in the order of the names, and the names that designate no node.
pub fn resolve_targets(names: &Vec<String>, registry: &Vec<Node>) -> (r: (Vec<Node>, Vec<String>))
    ensures
        nodes_view(r.0@) == resolve(views(names@), nodes_view(registry@)),
        views(r.1@) == unresolved(views(names@), nodes_view(registry@)),
{
    let ghost reg = nodes_view(registry@);
    let mut found: Vec<Node> = Vec::new();
    let mut missing: Vec<String> = Vec::new();
    let mut i: usize = 0;
    while i < names.len()
        invariant
            i <= names@.len(),
            reg == nodes_view(registry@),
            nodes_view(found@) == resolve(views(names@).subrange(0, i as int), reg),
            views(missing@) == unresolved(views(names@).subrange(0, i as int), reg),
        decreases names@.len() - i,
    {
        let ghost pre = views(names@).subrange(0, i as int);
        let ghost cur = views(names@).subrange(0, i + 1);
        assert(cur.drop_last() =~= pre);
        assert(cur.last() == names@[i as int]@);
        match find_named(registry, &names[i]) {
            Some(j) => {
                let n = registry[j].copy();
                assert(nodes_view(found@.push(n)) =~= nodes_view(found@).push(n@));
                found.push(n);
            },
            None => {
                let s = names[i].clone();
                assert(views(missing@.push(s)) =~= views(missing@).push(s@));
                missing.push(s);
            },
        }
        i = i + 1;
    }
    assert(views(names@).subrange(0, names@.len() as int) =~= views(names@));
    (found, missing)
}

/// A stage of the deployment pipeline.
#[derive(Debug, Clone, Copy, PartialEq, Eq, Structural)]
pub enum Stage {
    Transfer,
    Build,
    Spawn,
}

/// The stage after `s`, or `None` after the last one.
pub open spec fn next_stage(s: Option<Stage>) -> Option<Stage> {
    match s {
        Some(Stage::Transfer) => Some(Stage::Build),
        Some(Stage::Build) => Some(Stage::Spawn),
        _ => None,
    }
}

pub open spec fn stage_name(s: Stage) -> Seq<char> {
    match s {
        Stage::Transfer => "transfer"@,
        Stage::Build => "build"@,
        Stage::Spawn => "spawn"@,
    }
}

pub open spec fn stage_action(s: Stage) -> Seq<char> {
    match s {
        Stage::Transfer => "transfer files to"@,
        Stage::Build => "build image on"@,
        Stage::Spawn => "spawn container on"@,
    }
}

impl Stage {
    /// Short name of the stage.
    pub fn name(&self) -> (r: &'static str)
        ensures
            r@ == stage_name(*self),
    {
        match self {
            Stage::Transfer => "transfer",
            Stage::Build => "build",
            Stage::Spawn => "spawn",
        }
    }

    fn action(&self) -> (r: &'static str)
        ensures
            r@ == stage_action(*self),
    {
        match self {
            Stage::Transfer => "transfer files to",
            Stage::Build => "build image on",
            Stage::Spawn => "spawn container on",
        }
    }
}

/// One entry of a deployment report: the stage, the node's name, and the
/// text of the error.
#[derive(Debug, Clone)]
pub struct Failure {
    pub stage: Stage,
    pub node_name: String,
    pub cause: String,
}

pub type FailureView = (Stage, Seq<char>, Seq<char>);

impl View for Failure {
    type V = FailureView;

    open spec fn view(&self) -> FailureView {
        (self.stage, self.node_name@, self.cause@)
    }
}

pub open spec fn failures_view(v: Seq<Failure>) -> Seq<FailureView> {
    v.map_values(|f: Failure| f@)
}

pub open spec fn failure_message(f: FailureView) -> Seq<char> {
    "Failed to "@ + stage_action(f.0) + " node `"@ + f.1 + "` -> "@ + f.2
}

impl Failure {
    /// The line that reports this failure to the user.
    pub fn message(&self) -> (r: String)
        ensures
            r@ == failure_message(self@),
    {
        let mut m = String::from_str("Failed to ");
        m.append(self.stage.action());
        m.append(" node `");
        m.append(self.node_name.as_str());
        m.append("` -> ");
        m.append(self.cause.as_str());
        m
    }
}

/// The candidates whose call succeeded, in order.
pub open spec fn survivors(c: Seq<NodeView>, o: Seq<Result<(), String>>) -> Seq<NodeView>
    decreases c.len(),
{
    if c.len() == 0 || o.len() == 0 {
        seq![]
    } else {
        let prev = survivors(c.drop_last(), o.drop_last());
        if o.last() is Ok {
            prev.push(c.last())
        } else {
            prev
        }
    }
}

/// One report entry for each candidate whose call failed, in order.
pub open spec fn failures(stage: Stage, c: Seq<NodeView>, o: Seq<Result<(), String>>) -> Seq<FailureView>
    decreases c.len(),
{
    if c.len() == 0 || o.len() == 0 {
        seq![]
    } else {
        let prev = failures(stage, c.drop_last(), o.drop_last());
        match o.last() {
            Err(e) => prev.push((stage, c.last().1, e@)),
            Ok(_) => prev,
        }
    }
}

/// Why a deployment could not start.
#[derive(Debug, Clone, Copy, PartialEq, Eq, Structural)]
pub enum DeployError {
    /// None of the project's node names designates a registered node.
    NoValidNodes,
}

/// One deployment in progress.
#[derive(Debug)]
pub struct Deployment {
    /// The stage whose calls are due, or `None` once the pipeline is over.
    pub stage: Option<Stage>,
    /// The nodes still in the pipeline; after the last stage, the nodes
    /// that were deployed.
    pub candidates: Vec<Node>,
    /// Every failure so far, in the order the stages met them.
    pub report: Vec<Failure>,
    /// Target names that designate no registered node.
    pub unresolved: Vec<String>,
}

impl Deployment {
    /// Starts a deployment of `config` on the registry's nodes: the
    /// candidates are the resolved targets and the first stage is the
    /// transfer. Where no target resolves, the deployment does not start.
    pub fn start(config: &Config, registry: &Vec<Node>) -> (r: Result<Deployment, DeployError>)
        ensures
            resolve(views(config.node_names@), nodes_view(registry@)).len() == 0
                <==> r matches Err(DeployError::NoValidNodes),
            r matches Ok(d) ==> {
                &&& d.stage == Some(Stage::Transfer)
                &&& nodes_view(d.candidates@) == resolve(views(config.node_names@), nodes_view(registry@))
                &&& d.report@.len() == 0
                &&& views(d.unresolved@) == unresolved(views(config.node_names@), nodes_view(registry@))
            },
    {
        let (candidates, unresolved) = resolve_targets(&config.node_names, registry);
        if candidates.len() == 0 {
            return Err(DeployError::NoValidNodes);
        }
        Ok(Deployment { stage: Some(Stage::Transfer), candidates, report: Vec::new(), unresolved })
    }

    /// The pipeline is over.
    pub fn is_done(&self) -> (r: bool)
        ensures
            r == (self.stage is None),
    {
        self.stage.is_none()
    }

    /// Takes the outcomes of the current stage's calls, one per candidate in
    /// order: the candidates whose call failed leave the pipeline and are
    /// reported, and the next stage becomes due.
    pub fn record(&mut self, outcomes: &Vec<Result<(), String>>)
        requires
            old(self).stage is Some,
            outcomes@.len() == old(self).candidates@.len(),
        ensures
            final(self).stage == next_stage(old(self).stage),
            nodes_view(final(self).candidates@) == survivors(nodes_view(old(self).candidates@), outcomes@),
            failures_view(final(self).report@) == failures_view(old(self).report@)
                + failures(old(self).stage->0, nodes_view(old(self).candidates@), outcomes@),
            final(self).unresolved == old(self).unresolved,
    {
        let stage = match self.stage {
            Some(s) => s,
            None => Stage::Spawn,
        };
        let ghost c = nodes_view(self.candidates@);
        let ghost report0 = failures_view(self.report@);
        let mut kept: Vec<Node> = Vec::new();
        let mut i: usize = 0;
        while i < self.candidates.len()
            invariant
                stage == old(self).stage->0,
                self.candidates == old(self).candidates,
                self.stage == old(self).stage,
                self.unresolved == old(self).unresolved,
                c == nodes_view(self.candidates@),
                report0 == failures_view(old(self).report@),
                outcomes@.len() == c.len(),
                i <= c.len(),
                nodes_view(kept@) == survivors(c.subrange(0, i as int), outcomes@.subrange(0, i as int)),
                failures_view(self.report@) == report0 + failures(stage, c.subrange(0, i as int), outcomes@.subrange(0, i as int)),
            decreases c.len() - i,
        {
            let ghost c1 = c.subrange(0, i + 1);
            let ghost o1 = outcomes@.subrange(0, i + 1);
            assert(c1.drop_last() =~= c.subrange(0, i as int));
            assert(o1.drop_last() =~= outcomes@.subrange(0, i as int));
            match &outcomes[i] {
                Ok(_) => {
                    let n = self.candidates[i].copy();
                    assert(nodes_view(kept@.push(n)) =~= nodes_view(kept@).push(n@));
                    kept.push(n);
                },
                Err(e) => {
                    let f = Failure { stage, node_name: self.candidates[i].name.clone(), cause: e.clone() };
                    assert(failures_view(self.report@.push(f)) =~= failures_view(self.report@).push(f@));
                    self.report.push(f);
                },
            }
            i = i + 1;
        }
        assert(c.subrange(0, c.len() as int) =~= c);
        assert(outcomes@.subrange(0, c.len() as int) =~= outcomes@);
        self.candidates = kept;
        self.stage = match stage {
            Stage::Transfer => Some(Stage::Build),
            Stage::Build => Some(Stage::Spawn),
            Stage::Spawn => None,
        };
    }
}

/// Index of the first registered node whose identifier is `node_id`.
pub fn node_with_id(registry: &Vec<Node>, node_id: &str) -> (r: Option<usize>)
    ensures
        r matches Some(i) ==> i < registry@.len() && registry@[i as int].node_id@ == node_id@
            && forall|j: int| 0 <= j < i ==> (#[trigger] registry@[j]).node_id@ != node_id@,
        r is None ==> forall|j: int| 0 <= j < registry@.len() ==> (#[trigger] registry@[j]).node_id@ != node_id@,
{
    let id = String::from_str(node_id);
    let mut i: usize = 0;
    while i < registry.len()
        invariant
            id@ == node_id@,
            i <= registry@.len(),
            forall|j: int| 0 <= j < i ==> (#[trigger] registry@[j]).node_id@ != node_id@,
        decreases registry@.len() - i,
    {
        if registry[i].node_id == id {
            return Some(i);
        }
        i = i + 1;
    }
    None
}

impl Config {
    /// Adds `name` to the project's target nodes, unless it is there
    /// already; tells whether it was added.
    pub fn add_upstream(&mut self, name: String) -> (r: bool)
        ensures
            r == !views(old(self).node_names@).contains(name@),
            r ==> views(final(self).node_names@) == views(old(self).node_names@).push(name@),
            !r ==> final(self).node_names@ == old(self).node_names@,
            final(self).proj_name == old(self).proj_name,
            final(self).port_mapping == old(self).port_mapping,
            final(self).volume_mapping == old(self).volume_mapping,
            final(self).ignore == old(self).ignore,
    {
        let mut i: usize = 0;
        while i < self.node_names.len()
            invariant
                self.node_names == old(self).node_names,
                self.proj_name == old(self).proj_name,
                self.port_mapping == old(self).port_mapping,
                self.volume_mapping == old(self).volume_mapping,
                self.ignore == old(self).ignore,
                i <= self.node_names@.len(),
                forall|j: int| 0 <= j < i ==> (#[trigger] views(self.node_names@)[j]) != name@,
            decreases self.node_names@.len() - i,
        {
            if self.node_names[i] == name {
                assert(views(self.node_names@)[i as int] == name@);
                return false;
            }
            i = i + 1;
        }
        let ghost before = views(self.node_names@);
        self.node_names.push(name);
        assert(views(self.node_names@) =~= before.push(name@));
        true
    }
}

/// No two nodes share an identifier.
pub open spec fn ids_unique(r: Seq<NodeView>) -> bool {
    forall|a: int, b: int| 0 <= a < b < r.len() ==> r[a].0 != r[b].0
}

/// Index of the first node at or after `from` whose identifier is `id`.
pub open spec fn first_with_node_id(r: Seq<NodeView>, id: Seq<char>, from: int) -> Option<int>
    decreases r.len() - from,
{
    if from < 0 || from >= r.len() {
        None
    } else if r[from].0 == id {
        Some(from)
    } else {
        first_with_node_id(r, id, from + 1)
    }
}

proof fn lemma_first_with_node_id(r: Seq<NodeView>, id: Seq<char>, from: int)
    requires
        0 <= from,
    ensures
        first_with_node_id(r, id, from) matches Some(i) ==> from <= i < r.len() && r[i].0 == id,
        first_with_node_id(r, id, from) is None ==> forall|k: int| from <= k < r.len() ==> r[k].0 != id,
    decreases r.len() - from,
{
    if from < r.len() && r[from].0 != id {
        lemma_first_with_node_id(r, id, from + 1);
    }
}

/// The registry after writing the nodes `incoming` in order: a node whose
/// identifier is registered already replaces that entry, any other is added
/// at the end.
pub open spec fn merged(reg: Seq<NodeView>, incoming: Seq<NodeView>) -> Seq<NodeView>
    decreases incoming.len(),
{
    if incoming.len() == 0 {
        reg
    } else {
        let m = merged(reg, incoming.drop_last());
        let x = incoming.last();
        match first_with_node_id(m, x.0, 0) {
            Some(i) => m.update(i, x),
            None => m.push(x),
        }
    }
}

/// Index of the first node whose identifier is `id`.
fn id_position(registry: &Vec<Node>, id: &String) -> (r: Option<usize>)
    ensures
        r is None ==> first_with_node_id(nodes_view(registry@), id@, 0) is None,
        r matches Some(i) ==> first_with_node_id(nodes_view(registry@), id@, 0) == Some(i as int),
{
    let mut j: usize = 0;
    while j < registry.len()
        invariant
            j <= registry@.len(),
            first_with_node_id(nodes_view(registry@), id@, 0) == first_with_node_id(nodes_view(registry@), id@, j as int),
        decreases registry@.len() - j,
    {
        if registry[j].node_id == *id {
            return Some(j);
        }
        j = j + 1;
    }
    None
}

/// Writes `incoming` into the registry as `merged` says, so that an
/// identifier is never registered twice.
pub fn merge_nodes(registry: &mut Vec<Node>, incoming: &Vec<Node>)
    ensures
        nodes_view(final(registry)@) == merged(nodes_view(old(registry)@), nodes_view(incoming@)),
        ids_unique(nodes_view(old(registry)@)) ==> ids_unique(nodes_view(final(registry)@)),
{
    let ghost reg0 = nodes_view(registry@);
    let ghost inc = nodes_view(incoming@);
    let mut k: usize = 0;
    while k < incoming.len()
        invariant
            reg0 == nodes_view(old(registry)@),
            inc == nodes_view(incoming@),
            k <= inc.len(),
            nodes_view(registry@) == merged(reg0, inc.subrange(0, k as int)),
            ids_unique(reg0) ==> ids_unique(nodes_view(registry@)),
        decreases inc.len() - k,
    {
        let ghost m = nodes_view(registry@);
        assert(inc.subrange(0, k + 1).drop_last() =~= inc.subrange(0, k as int));
        assert(inc[k as int] == incoming@[k as int]@);
        let n = incoming[k].copy();
        let found = id_position(registry, &n.node_id);
        proof {
            lemma_first_with_node_id(m, n@.0, 0);
        }
        match found {
            Some(i) => {
                registry.remove(i);
                registry.insert(i, n);
                assert(nodes_view(registry@) =~= m.update(i as int, n@));
            },
            None => {
                registry.push(n);
                assert(nodes_view(registry@) =~= m.push(n@));
            },
        }
        k = k + 1;
    }
    assert(inc.subrange(0, inc.len() as int) =~= inc);
}

} // verus!
