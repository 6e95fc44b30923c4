use aeg::args::Opt;
use aeg::generator::{
    generate_devices, generate_memory, generate_prototypes, generate_rules, get_rule, Agent,
    Config,
};
use aeg::text::push_decimal;

fn params(
    devices_number: u32,
    chains_number: u32,
    chain_length: u32,
    chain_width: u32,
    devices_width: u32,
    devices_length: u32,
) -> Opt {
    Opt {
        devices_number,
        chains_number,
        chain_length,
        chain_width,
        devices_width,
        devices_length,
        image: "img".to_string(),
        coordinator_image: "coord".to_string(),
        tick: "2s".to_string(),
        namespace: "ns".to_string(),
        includes: vec!["a.abu".to_string(), "b.abu".to_string()],
        memory_controller: "basic".to_string(),
        configuration_version: "1.0".to_string(),
    }
}

fn agent<'a>(config: &'a Config, key: &str) -> &'a Agent {
    let found: Vec<&(String, Agent)> = config.agents.iter().filter(|e| e.0 == key).collect();
    assert_eq!(found.len(), 1);
    &found[0].1
}

fn decimal(n: u64) -> String {
    let mut s = String::new();
    push_decimal(&mut s, n);
    s
}

#[test]
fn three_devices_one_chain_example() {
    let config = Config::from(params(3, 1, 2, 1, 1, 5));
    assert_eq!(config.agents.len(), 3);
    for id in 0..3u32 {
        let a = agent(&config, &format!("agent{}", id));
        assert_eq!(a.prototype, "agent");
        assert_eq!(a.memory, vec![format!("integer:id:{}", id)]);
        assert_eq!(a.rules.len(), 1);
        assert_eq!(
            a.rules[0],
            format!(
                "rule activate0 on a0_1 for all this.a0_1 > 0 && (ext.id == {}) do ext.a0_0 = (this.a0_1 - 1)",
                (id + 1) % 3
            )
        );
    }
    assert_eq!(config.prototypes.len(), 1);
    assert_eq!(config.prototypes[0].0, "agent");
    let proto = &config.prototypes[0].1;
    assert_eq!(
        proto.memory,
        vec!["bool:start:false", "bool:start_all:false", "integer:a0_0:0", "integer:a0_1:0"]
    );
    assert_eq!(
        proto.rules,
        vec![
            "rule start on start for start do a0_0 = 5; start = false",
            "rule start_all on start_all for all this.start_all do ext.start = true",
            "rule start_local on start_all for start_all do start = true; start_all = false",
            "rule step0_0 on a0_0 for a0_0 > 0 do a0_1 = a0_0; a0_0 = 0",
            "rule last_step0 on a0_1 for a0_1 > 0 do a0_1 = 0",
        ]
    );
}

#[test]
fn single_device_activates_itself() {
    let config = Config::from(params(1, 1, 1, 1, 1, 1));
    assert_eq!(config.agents.len(), 1);
    let a = agent(&config, "agent0");
    assert_eq!(
        a.rules,
        vec!["rule activate0 on a0_0 for all this.a0_0 > 0 && (ext.id == 0) do ext.a0_0 = (this.a0_0 - 1)"]
    );
}

#[test]
fn synthesis_is_deterministic() {
    let first = Config::from(params(5, 3, 4, 2, 3, 6));
    let second = Config::from(params(5, 3, 4, 2, 3, 6));
    assert_eq!(first, second);
}

#[test]
fn cardinalities_follow_parameters() {
    let config = Config::from(params(4, 3, 5, 2, 2, 1));
    assert_eq!(config.agents.len(), 4);
    for (_, a) in config.agents.iter() {
        assert_eq!(a.rules.len(), 3);
        assert_eq!(a.memory.len(), 1);
    }
    assert_eq!(config.prototypes.len(), 1);
    assert_eq!(config.prototypes[0].1.memory.len(), 2 + 3 * 5);
    assert_eq!(config.prototypes[0].1.rules.len(), 3 + 3 * 5);
}

#[test]
fn identity_fields_are_copied() {
    let config = Config::from(params(2, 1, 1, 1, 1, 1));
    assert_eq!(config.version, "1.0");
    assert_eq!(config.image, "img");
    assert_eq!(config.coordinator_image, "coord");
    assert_eq!(config.namespace, "ns");
    assert_eq!(config.includes, vec!["a.abu", "b.abu"]);
    let a = agent(&config, "agent1");
    assert_eq!(a.memory_controller, "basic");
    assert_eq!(a.tick, "2s");
    assert_eq!(config.prototypes[0].1.tick, "2s");
    assert_eq!(config.prototypes[0].1.memory_controller, "basic");
}

#[test]
fn rule_cells_are_declared() {
    let opt = params(2, 3, 4, 2, 1, 1);
    let memory = generate_memory(&opt);
    let rules = generate_rules(&opt);
    for chain in 0..3 {
        for step in 0..4 {
            let decl = format!("integer:a{}_{}:0", chain, step);
            assert!(memory.contains(&decl));
        }
    }
    for rule in rules.iter() {
        for word in rule.split(|c: char| c == ' ' || c == '.' || c == '(' || c == ')' || c == ';') {
            if word.starts_with('a') && word.contains('_') && word[1..2].chars().all(|c| c.is_ascii_digit()) {
                assert!(memory.contains(&format!("integer:{}:0", word)), "{}", word);
            }
        }
    }
}

#[test]
fn start_rule_seeds_first_chains_only() {
    let rules = generate_rules(&params(1, 3, 1, 2, 1, 7));
    assert_eq!(rules[0], "rule start on start for start do a0_0 = 7; a1_0 = 7; start = false");
    let all = generate_rules(&params(1, 3, 1, 3, 1, 7));
    assert_eq!(all[0], "rule start on start for start do a0_0 = 7; a1_0 = 7; a2_0 = 7; start = false");
}

#[test]
fn neighbors_wrap_around_the_ring() {
    let devices = generate_devices(&params(4, 1, 1, 1, 3, 1));
    assert_eq!(devices.len(), 4);
    assert_eq!(devices[2].0, "agent2");
    assert_eq!(
        devices[2].1.rules[0],
        "rule activate0 on a0_0 for all this.a0_0 > 0 && (ext.id == 3 || ext.id == 0 || ext.id == 1) do ext.a0_0 = (this.a0_0 - 1)"
    );
}

#[test]
fn wide_fan_out_repeats_neighbors() {
    let devices = generate_devices(&params(2, 1, 1, 1, 3, 1));
    assert!(devices[0].1.rules[0].contains("(ext.id == 1 || ext.id == 0 || ext.id == 1)"));
}

#[test]
fn step_and_last_step_rules() {
    let opt = params(1, 2, 3, 1, 1, 1);
    assert_eq!(get_rule(&opt, 1, 0), "rule step1_0 on a1_0 for a1_0 > 0 do a1_1 = a1_0; a1_0 = 0");
    assert_eq!(get_rule(&opt, 1, 2), "rule last_step1 on a1_2 for a1_2 > 0 do a1_2 = 0");
}

#[test]
fn many_devices_have_distinct_keys() {
    let devices = generate_devices(&params(12, 1, 1, 1, 1, 1));
    let mut keys: Vec<&String> = devices.iter().map(|e| &e.0).collect();
    assert_eq!(keys[11], "agent11");
    assert_eq!(devices[11].1.memory[0], "integer:id:11");
    keys.sort();
    keys.dedup();
    assert_eq!(keys.len(), 12);
}

#[test]
fn prototypes_hold_one_agent_template() {
    let protos = generate_prototypes(&params(1, 1, 1, 1, 1, 1));
    assert_eq!(protos.len(), 1);
    assert_eq!(protos[0].0, "agent");
    assert_eq!(protos[0].1.memory, vec!["bool:start:false", "bool:start_all:false", "integer:a0_0:0"]);
}

#[test]
fn empty_configuration_defaults() {
    let config = Config::new();
    assert_eq!(config.version, "1.0");
    assert_eq!(config.image, "abulang/abusim-goabu-agent:latest");
    assert_eq!(config.coordinator_image, "abulang/abusim-coordinator:latest");
    assert_eq!(config.namespace, "abusim-example");
    assert!(config.includes.is_empty());
    assert!(config.agents.is_empty());
    assert!(config.prototypes.is_empty());
}

#[test]
fn decimal_text() {
    assert_eq!(decimal(0), "0");
    assert_eq!(decimal(7), "7");
    assert_eq!(decimal(10), "10");
    assert_eq!(decimal(4294967295), "4294967295");
    assert_eq!(decimal(u64::MAX), "18446744073709551615");
}
