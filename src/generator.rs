//! The configuration synthesis engine: agents, the shared prototype, and the
//! memory cells and rule statements they hold.

use crate::args::{texts, Opt, OptView};
use crate::text::{decimal, push_decimal};
use vstd::prelude::*;
use vstd::string::StringExecFns;

verus! {

/// The rows `0..rows` of `cols` items each, `f(row, col)`, row after row.
pub open spec fn grid(rows: nat, cols: nat, f: spec_fn(nat, nat) -> Seq<char>) -> Seq<Seq<char>>
    decreases rows,
{
    if rows == 0 {
        Seq::empty()
    } else {
        grid((rows - 1) as nat, cols, f) + Seq::new(cols, |s: int| f((rows - 1) as nat, s as nat))
    }
}

/// The name of the memory cell of step `step` of chain `chain`: `a{chain}_{step}`.
pub open spec fn cell_name(chain: nat, step: nat) -> Seq<char> {
    "a"@ + decimal(chain) + "_"@ + decimal(step)
}

/// The declaration of the memory cell of step `step` of chain `chain`.
pub open spec fn cell_decl(chain: nat, step: nat) -> Seq<char> {
    "integer:"@ + cell_name(chain, step) + ":0"@
}

/// The memory-cell declarations of the prototype.
pub open spec fn prototype_memory(chains: nat, length: nat) -> Seq<Seq<char>> {
    seq!["bool:start:false"@, "bool:start_all:false"@] + grid(chains, length, |c: nat, s: nat| cell_decl(c, s))
}

/// The step rule of step `step` of chain `chain`, for chains of `length` steps.
/// The last step consumes the token; any other step moves it to the next step.
pub open spec fn step_rule(chain: nat, step: nat, length: nat) -> Seq<char> {
    let here = cell_name(chain, step);
    if step + 1 == length {
        "rule last_step"@ + decimal(chain) + " on "@ + here + " for "@ + here + " > 0 do "@ + here
            + " = 0"@
    } else {
        "rule step"@ + decimal(chain) + "_"@ + decimal(step) + " on "@ + here + " for "@ + here
            + " > 0 do "@ + cell_name(chain, step + 1) + " = "@ + here + "; "@ + here + " = 0"@
    }
}

/// The chains that the start rule seeds, in order: `0, 1, ..., width - 1`.
pub open spec fn start_targets(width: nat) -> Seq<nat> {
    Seq::new(width, |i: int| i as nat)
}

/// The assignments ` a{c}_0 = {value};` of the start rule, one per chain of `chains`.
pub open spec fn start_assignments(chains: Seq<nat>, value: nat) -> Seq<char>
    decreases chains.len(),
{
    if chains.len() == 0 {
        Seq::empty()
    } else {
        start_assignments(chains.drop_last(), value) + " "@ + cell_name(chains.last(), 0) + " = "@
            + decimal(value) + ";"@
    }
}

/// The start rule: it seeds the first `width` chains with `value`, then clears `start`.
pub open spec fn start_rule(width: nat, value: nat) -> Seq<char> {
    "rule start on start for start do"@ + start_assignments(start_targets(width), value)
        + " start = false"@
}

/// The broadcast rule that raises `start` on every neighbour.
pub open spec fn start_all_rule() -> Seq<char> {
    "rule start_all on start_all for all this.start_all do ext.start = true"@
}

/// The rule that raises `start` locally and clears `start_all`.
pub open spec fn start_local_rule() -> Seq<char> {
    "rule start_local on start_all for start_all do start = true; start_all = false"@
}

/// The rule statements of the prototype: the three control rules, then the
/// step rules of each chain, chain after chain.
pub open spec fn prototype_rules(p: OptView) -> Seq<Seq<char>> {
    seq![start_rule(p.chain_width, p.devices_length), start_all_rule(), start_local_rule()]
        + grid(p.chains_number, p.chain_length, |c: nat, s: nat| step_rule(c, s, p.chain_length))
}

/// One agent record: a simulated device.
#[derive(Debug, Clone, PartialEq)]
pub struct Agent {
    pub prototype: String,
    pub memory_controller: String,
    pub memory: Vec<String>,
    pub rules: Vec<String>,
    pub tick: String,
}

/// Mathematical model of [`Agent`].
pub ghost struct AgentView {
    pub prototype: Seq<char>,
    pub memory_controller: Seq<char>,
    pub memory: Seq<Seq<char>>,
    pub rules: Seq<Seq<char>>,
    pub tick: Seq<char>,
}

impl View for Agent {
    type V = AgentView;

    open spec fn view(&self) -> AgentView {
        AgentView {
            prototype: self.prototype@,
            memory_controller: self.memory_controller@,
            memory: texts(self.memory@),
            rules: texts(self.rules@),
            tick: self.tick@,
        }
    }
}

/// The models of keyed agent records.
pub open spec fn agent_entries(v: Seq<(String, Agent)>) -> Seq<(Seq<char>, AgentView)> {
    v.map_values(|e: (String, Agent)| (e.0@, e.1@))
}

/// The name of the shared prototype.
pub open spec fn prototype_key() -> Seq<char> {
    "agent"@
}

/// The key of the agent of device `id`: `agent{id}`.
pub open spec fn agent_key(id: nat) -> Seq<char> {
    "agent"@ + decimal(id)
}

/// The devices activated by device `id` among `n` devices with fan-out `width`:
/// `(id + 1) % n, (id + 2) % n, ..., (id + width) % n`.
pub open spec fn neighbors(id: nat, n: nat, width: nat) -> Seq<nat> {
    Seq::new(width, |k: int| ((id + k + 1) % (n as int)) as nat)
}

/// The test `ext.id == {id}`.
pub open spec fn id_test(id: nat) -> Seq<char> {
    "ext.id == "@ + decimal(id)
}

/// The condition `ext.id == i0 || ext.id == i1 || ...` over `ids`, in order.
pub open spec fn disjunction(ids: Seq<nat>) -> Seq<char>
    decreases ids.len(),
{
    if ids.len() == 0 {
        Seq::empty()
    } else if ids.len() == 1 {
        id_test(ids[0])
    } else {
        disjunction(ids.drop_last()) + " || "@ + id_test(ids.last())
    }
}

/// The activation rule of chain `chain` on device `id`: when the last step of
/// the chain holds a token, each neighbour gets it, decremented, at step 0.
pub open spec fn activation_rule(id: nat, chain: nat, p: OptView) -> Seq<char> {
    let last = cell_name(chain, (p.chain_length - 1) as nat);
    "rule activate"@ + decimal(chain) + " on "@ + last + " for all this."@ + last + " > 0 && ("@
        + disjunction(neighbors(id, p.devices_number, p.devices_width)) + ") do ext."@
        + cell_name(chain, 0) + " = (this."@ + last + " - 1)"@
}

/// The agent of device `id`.
pub open spec fn agent_of(id: nat, p: OptView) -> AgentView {
    AgentView {
        prototype: prototype_key(),
        memory_controller: p.memory_controller,
        memory: seq!["integer:id:"@ + decimal(id)],
        rules: Seq::new(p.chains_number, |c: int| activation_rule(id, c as nat, p)),
        tick: p.tick,
    }
}

/// The keyed agents of all devices, by ascending id.
pub open spec fn devices_of(p: OptView) -> Seq<(Seq<char>, AgentView)> {
    Seq::new(p.devices_number, |i: int| (agent_key(i as nat), agent_of(i as nat, p)))
}

/// The shared template of memory cells and rules that every agent refers to.
#[derive(Debug, Clone, PartialEq)]
pub struct Prototype {
    pub memory_controller: String,
    pub memory: Vec<String>,
    pub rules: Vec<String>,
    pub tick: String,
}

/// Mathematical model of [`Prototype`].
pub ghost struct PrototypeView {
    pub memory_controller: Seq<char>,
    pub memory: Seq<Seq<char>>,
    pub rules: Seq<Seq<char>>,
    pub tick: Seq<char>,
}

impl View for Prototype {
    type V = PrototypeView;

    open spec fn view(&self) -> PrototypeView {
        PrototypeView {
            memory_controller: self.memory_controller@,
            memory: texts(self.memory@),
            rules: texts(self.rules@),
            tick: self.tick@,
        }
    }
}

/// The models of keyed prototypes.
pub open spec fn prototype_entries(v: Seq<(String, Prototype)>) -> Seq<(Seq<char>, PrototypeView)> {
    v.map_values(|e: (String, Prototype)| (e.0@, e.1@))
}

/// The shared prototype.
pub open spec fn prototype_of(p: OptView) -> PrototypeView {
    PrototypeView {
        memory_controller: p.memory_controller,
        memory: prototype_memory(p.chains_number, p.chain_length),
        rules: prototype_rules(p),
        tick: p.tick,
    }
}

/// A generated configuration: identity fields, the agents keyed by name and
/// the prototypes keyed by name.
#[derive(Debug, Clone, PartialEq)]
pub struct Config {
    pub version: String,
    pub image: String,
    pub coordinator_image: String,
    pub namespace: String,
    pub includes: Vec<String>,
    pub agents: Vec<(String, Agent)>,
    pub prototypes: Vec<(String, Prototype)>,
}

/// Mathematical model of [`Config`].
pub ghost struct ConfigView {
    pub version: Seq<char>,
    pub image: Seq<char>,
    pub coordinator_image: Seq<char>,
    pub namespace: Seq<char>,
    pub includes: Seq<Seq<char>>,
    pub agents: Seq<(Seq<char>, AgentView)>,
    pub prototypes: Seq<(Seq<char>, PrototypeView)>,
}

impl View for Config {
    type V = ConfigView;

    open spec fn view(&self) -> ConfigView {
        ConfigView {
            version: self.version@,
            image: self.image@,
            coordinator_image: self.coordinator_image@,
            namespace: self.namespace@,
            includes: texts(self.includes@),
            agents: agent_entries(self.agents@),
            prototypes: prototype_entries(self.prototypes@),
        }
    }
}

/// The configuration synthesised from `p`.
pub open spec fn config_of(p: OptView) -> ConfigView {
    ConfigView {
        version: p.configuration_version,
        image: p.image,
        coordinator_image: p.coordinator_image,
        namespace: p.namespace,
        includes: p.includes,
        agents: devices_of(p),
        prototypes: seq![(prototype_key(), prototype_of(p))],
    }
}

fn push_cell_name(s: &mut String, chain: u32, step: u32)
    ensures
        final(s)@ == old(s)@ + cell_name(chain as nat, step as nat),
{
    s.append("a");
    push_decimal(s, chain as u64);
    s.append("_");
    push_decimal(s, step as u64);
    proof {
        assert(final(s)@ =~= old(s)@ + cell_name(chain as nat, step as nat));
    }
}

/// The memory-cell declarations of the prototype: the two control flags,
/// then one integer cell per step of each chain, chain after chain.
pub fn generate_memory(opt: &Opt) -> (memory: Vec<String>)
    ensures
        texts(memory@) == prototype_memory(opt@.chains_number, opt@.chain_length),
{
    let mut memory: Vec<String> = Vec::new();
    memory.push("bool:start:false".to_owned());
    memory.push("bool:start_all:false".to_owned());
    let ghost head = seq!["bool:start:false"@, "bool:start_all:false"@];
    assert(texts(memory@) =~= head);
    let ghost f = |c: nat, s: nat| cell_decl(c, s);
    let mut chain: u32 = 0;
    while chain < opt.chains_number
        invariant
            chain <= opt.chains_number,
            f == (|c: nat, s: nat| cell_decl(c, s)),
            texts(memory@) == head + grid(chain as nat, opt.chain_length as nat, f),
        decreases opt.chains_number - chain,
    {
        let ghost before = texts(memory@);
        let mut step: u32 = 0;
        while step < opt.chain_length
            invariant
                chain < opt.chains_number,
                step <= opt.chain_length,
                f == (|c: nat, s: nat| cell_decl(c, s)),
                texts(memory@) == before + Seq::new(step as nat, |t: int| f(chain as nat, t as nat)),
            decreases opt.chain_length - step,
        {
            let mut cell = "integer:".to_owned();
            push_cell_name(&mut cell, chain, step);
            cell.append(":0");
            assert(cell@ =~= f(chain as nat, step as nat));
            let ghost prev = memory@;
            memory.push(cell);
            assert(texts(memory@) =~= texts(prev) + seq![f(chain as nat, step as nat)]);
            step = step + 1;
            assert(texts(memory@) =~= before + Seq::new(step as nat, |t: int| f(chain as nat, t as nat)));
        }
        chain = chain + 1;
        assert(texts(memory@) =~= head + grid(chain as nat, opt.chain_length as nat, f));
    }
    memory
}

/// The step rule of step `step_index` of chain `chain_index`.
pub fn get_rule(opt: &Opt, chain_index: u32, step_index: u32) -> (rule: String)
    requires
        step_index < opt.chain_length,
    ensures
        rule@ == step_rule(chain_index as nat, step_index as nat, opt.chain_length as nat),
{
    let mut rule: String;
    if step_index == opt.chain_length - 1 {
        rule = "rule last_step".to_owned();
        push_decimal(&mut rule, chain_index as u64);
        rule.append(" on ");
        push_cell_name(&mut rule, chain_index, step_index);
        rule.append(" for ");
        push_cell_name(&mut rule, chain_index, step_index);
        rule.append(" > 0 do ");
        push_cell_name(&mut rule, chain_index, step_index);
        rule.append(" = 0");
    } else {
        rule = "rule step".to_owned();
        push_decimal(&mut rule, chain_index as u64);
        rule.append("_");
        push_decimal(&mut rule, step_index as u64);
        rule.append(" on ");
        push_cell_name(&mut rule, chain_index, step_index);
        rule.append(" for ");
        push_cell_name(&mut rule, chain_index, step_index);
        rule.append(" > 0 do ");
        push_cell_name(&mut rule, chain_index, step_index + 1);
        rule.append(" = ");
        push_cell_name(&mut rule, chain_index, step_index);
        rule.append("; ");
        push_cell_name(&mut rule, chain_index, step_index);
        rule.append(" = 0");
    }
    assert(rule@ =~= step_rule(chain_index as nat, step_index as nat, opt.chain_length as nat));
    rule
}

/// The rule statements of the prototype: the start, start_all and start_local
/// control rules, then one step rule per step of each chain, chain after chain.
pub fn generate_rules(opt: &Opt) -> (rules: Vec<String>)
    requires
        opt@.valid(),
    ensures
        texts(rules@) == prototype_rules(opt@),
{
    let mut start = "rule start on start for start do".to_owned();
    let mut chain: u32 = 0;
    while chain < opt.chain_width
        invariant
            chain <= opt.chain_width,
            start@ == "rule start on start for start do"@ + start_assignments(
                start_targets(chain as nat),
                opt.devices_length as nat,
            ),
        decreases opt.chain_width - chain,
    {
        start.append(" ");
        push_cell_name(&mut start, chain, 0);
        start.append(" = ");
        push_decimal(&mut start, opt.devices_length as u64);
        start.append(";");
        chain = chain + 1;
        assert(start_targets(chain as nat).drop_last() =~= start_targets((chain - 1) as nat));
        assert(start@ =~= "rule start on start for start do"@ + start_assignments(
            start_targets(chain as nat),
            opt.devices_length as nat,
        ));
    }
    start.append(" start = false");
    let mut rules: Vec<String> = Vec::new();
    rules.push(start);
    rules.push("rule start_all on start_all for all this.start_all do ext.start = true".to_owned());
    rules.push(
        "rule start_local on start_all for start_all do start = true; start_all = false".to_owned(),
    );
    let ghost head = seq![start_rule(opt@.chain_width, opt@.devices_length), start_all_rule(), start_local_rule()];
    assert(texts(rules@) =~= head);
    let ghost f = |c: nat, s: nat| step_rule(c, s, opt.chain_length as nat);
    let mut chain: u32 = 0;
    while chain < opt.chains_number
        invariant
            chain <= opt.chains_number,
            f == (|c: nat, s: nat| step_rule(c, s, opt.chain_length as nat)),
            texts(rules@) == head + grid(chain as nat, opt.chain_length as nat, f),
        decreases opt.chains_number - chain,
    {
        let ghost before = texts(rules@);
        let mut step: u32 = 0;
        while step < opt.chain_length
            invariant
                chain < opt.chains_number,
                step <= opt.chain_length,
                f == (|c: nat, s: nat| step_rule(c, s, opt.chain_length as nat)),
                texts(rules@) == before + Seq::new(step as nat, |t: int| f(chain as nat, t as nat)),
            decreases opt.chain_length - step,
        {
            let rule = get_rule(opt, chain, step);
            let ghost prev = rules@;
            rules.push(rule);
            assert(texts(rules@) =~= texts(prev) + seq![f(chain as nat, step as nat)]);
            step = step + 1;
            assert(texts(rules@) =~= before + Seq::new(step as nat, |t: int| f(chain as nat, t as nat)));
        }
        chain = chain + 1;
        assert(texts(rules@) =~= head + grid(chain as nat, opt.chain_length as nat, f));
    }
    rules
}

fn activation_rule_text(opt: &Opt, id: u32, chain: u32) -> (rule: String)
    requires
        opt@.valid(),
        id < opt.devices_number,
    ensures
        rule@ == activation_rule(id as nat, chain as nat, opt@),
{
    let last = opt.chain_length - 1;
    let mut cond = String::new();
    let mut k: u32 = 0;
    while k < opt.devices_width
        invariant
            opt@.valid(),
            id < opt.devices_number,
            k <= opt.devices_width,
            cond@ == disjunction(neighbors(id as nat, opt.devices_number as nat, k as nat)),
        decreases opt.devices_width - k,
    {
        if k > 0 {
            cond.append(" || ");
        }
        cond.append("ext.id == ");
        let neighbor = (id as u64 + k as u64 + 1) % (opt.devices_number as u64);
        push_decimal(&mut cond, neighbor);
        k = k + 1;
        assert(neighbors(id as nat, opt.devices_number as nat, k as nat).drop_last()
            =~= neighbors(id as nat, opt.devices_number as nat, (k - 1) as nat));
        assert(cond@ =~= disjunction(neighbors(id as nat, opt.devices_number as nat, k as nat)));
    }
    let mut rule = "rule activate".to_owned();
    push_decimal(&mut rule, chain as u64);
    rule.append(" on ");
    push_cell_name(&mut rule, chain, last);
    rule.append(" for all this.");
    push_cell_name(&mut rule, chain, last);
    rule.append(" > 0 && (");
    rule.append(cond.as_str());
    rule.append(") do ext.");
    push_cell_name(&mut rule, chain, 0);
    rule.append(" = (this.");
    push_cell_name(&mut rule, chain, last);
    rule.append(" - 1)");
    assert(rule@ =~= activation_rule(id as nat, chain as nat, opt@));
    rule
}

fn generate_agent(opt: &Opt, id: u32) -> (agent: Agent)
    requires
        opt@.valid(),
        id < opt.devices_number,
    ensures
        agent@ == agent_of(id as nat, opt@),
{
    let mut rules: Vec<String> = Vec::new();
    let mut chain: u32 = 0;
    while chain < opt.chains_number
        invariant
            opt@.valid(),
            id < opt.devices_number,
            chain <= opt.chains_number,
            texts(rules@) == Seq::new(chain as nat, |c: int| activation_rule(id as nat, c as nat, opt@)),
        decreases opt.chains_number - chain,
    {
        let rule = activation_rule_text(opt, id, chain);
        let ghost prev = rules@;
        rules.push(rule);
        assert(texts(rules@) =~= texts(prev) + seq![activation_rule(id as nat, chain as nat, opt@)]);
        chain = chain + 1;
        assert(texts(rules@) =~= Seq::new(chain as nat, |c: int| activation_rule(id as nat, c as nat, opt@)));
    }
    let mut cell = "integer:id:".to_owned();
    push_decimal(&mut cell, id as u64);
    let mut memory: Vec<String> = Vec::new();
    memory.push(cell);
    assert(texts(memory@) =~= seq!["integer:id:"@ + decimal(id as nat)]);
    let agent = Agent {
        prototype: "agent".to_owned(),
        memory_controller: opt.memory_controller.clone(),
        memory,
        rules,
        tick: opt.tick.clone(),
    };
    assert(agent@ =~= agent_of(id as nat, opt@));
    agent
}

/// The agents of all devices, keyed `agent{id}`, by ascending id.
pub fn generate_devices(opt: &Opt) -> (devices: Vec<(String, Agent)>)
    requires
        opt@.valid(),
    ensures
        agent_entries(devices@) == devices_of(opt@),
{
    let mut devices: Vec<(String, Agent)> = Vec::new();
    let mut id: u32 = 0;
    while id < opt.devices_number
        invariant
            opt@.valid(),
            id <= opt.devices_number,
            agent_entries(devices@) == devices_of(opt@).take(id as int),
        decreases opt.devices_number - id,
    {
        let mut key = "agent".to_owned();
        push_decimal(&mut key, id as u64);
        let agent = generate_agent(opt, id);
        let ghost prev = devices@;
        devices.push((key, agent));
        assert(agent_entries(devices@) =~= agent_entries(prev) + seq![(agent_key(id as nat), agent_of(id as nat, opt@))]);
        id = id + 1;
        assert(agent_entries(devices@) =~= devices_of(opt@).take(id as int));
    }
    assert(devices_of(opt@).take(id as int) =~= devices_of(opt@));
    devices
}

/// The prototypes of the configuration: the single shared one, keyed `agent`.
pub fn generate_prototypes(opt: &Opt) -> (prototypes: Vec<(String, Prototype)>)
    requires
        opt@.valid(),
    ensures
        prototype_entries(prototypes@) == seq![(prototype_key(), prototype_of(opt@))],
{
    let prototype = Prototype {
        memory_controller: opt.memory_controller.clone(),
        memory: generate_memory(opt),
        rules: generate_rules(opt),
        tick: opt.tick.clone(),
    };
    let mut prototypes: Vec<(String, Prototype)> = Vec::new();
    prototypes.push(("agent".to_owned(), prototype));
    assert(prototype_entries(prototypes@) =~= seq![(prototype_key(), prototype_of(opt@))]);
    prototypes
}

impl Config {
    /// A configuration with default identity fields and no agents or prototypes.
    pub fn new() -> (config: Config)
        ensures
            config@ == (ConfigView {
                version: "1.0"@,
                image: "abulang/abusim-goabu-agent:latest"@,
                coordinator_image: "abulang/abusim-coordinator:latest"@,
                namespace: "abusim-example"@,
                includes: Seq::empty(),
                agents: Seq::empty(),
                prototypes: Seq::empty(),
            }),
    {
        let config = Config {
            version: "1.0".to_owned(),
            image: "abulang/abusim-goabu-agent:latest".to_owned(),
            coordinator_image: "abulang/abusim-coordinator:latest".to_owned(),
            namespace: "abusim-example".to_owned(),
            includes: Vec::new(),
            agents: Vec::new(),
            prototypes: Vec::new(),
        };
        assert(config@.includes =~= Seq::empty());
        assert(config@.agents =~= Seq::empty());
        assert(config@.prototypes =~= Seq::empty());
        config
    }

    /// Synthesises the configuration described by `opt`.
    pub fn from(opt: Opt) -> (config: Config)
        requires
            opt@.valid(),
        ensures
            config@ == config_of(opt@),
    {
        let agents = generate_devices(&opt);
        let prototypes = generate_prototypes(&opt);
        Config {
            version: opt.configuration_version,
            image: opt.image,
            coordinator_image: opt.coordinator_image,
            namespace: opt.namespace,
            includes: opt.includes,
            agents,
            prototypes,
        }
    }
}

} // verus!
