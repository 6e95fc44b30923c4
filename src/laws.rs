//! Properties of the synthesised configuration, stated over its model.

use crate::args::OptView;
use crate::generator::{
    agent_key, cell_decl, config_of, grid, neighbors, prototype_memory, prototype_of,
    prototype_rules, start_rule, start_targets, step_rule, Config,
};
use crate::text::{decimal, lemma_decimal_injective};
use vstd::prelude::*;

verus! {

proof fn lemma_grid_len(rows: nat, cols: nat, f: spec_fn(nat, nat) -> Seq<char>)
    ensures
        grid(rows, cols, f).len() == rows * cols,
    decreases rows,
{
    if rows > 0 {
        lemma_grid_len((rows - 1) as nat, cols, f);
        assert((rows - 1) * cols + cols == rows * cols) by (nonlinear_arith);
    }
}

proof fn lemma_grid_contains(rows: nat, cols: nat, f: spec_fn(nat, nat) -> Seq<char>, r: nat, c: nat)
    requires
        r < rows,
        c < cols,
    ensures
        grid(rows, cols, f).contains(f(r, c)),
    decreases rows,
{
    let prev = grid((rows - 1) as nat, cols, f);
    let row = Seq::new(cols, |s: int| f((rows - 1) as nat, s as nat));
    if r + 1 == rows {
        assert((prev + row)[prev.len() + c as int] == f(r, c));
    } else {
        lemma_grid_contains((rows - 1) as nat, cols, f, r, c);
        let i = choose|i: int| 0 <= i < prev.len() && prev[i] == f(r, c);
        assert((prev + row)[i] == f(r, c));
    }
}

/// Synthesis is a function of its parameters: two configurations synthesised
/// from the same parameters are equal.
pub proof fn lemma_synthesis_deterministic(p: OptView, first: &Config, second: &Config)
    requires
        first@ == config_of(p),
        second@ == config_of(p),
    ensures
        first@ == second@,
{
}

/// One agent per device, each with one rule per chain; one prototype, with
/// `2 + chains * length` memory cells and `3 + chains * length` rules.
pub proof fn lemma_cardinality(p: OptView)
    requires
        p.valid(),
    ensures
        config_of(p).agents.len() == p.devices_number,
        forall|i: int|
            0 <= i < p.devices_number ==> #[trigger] config_of(p).agents[i].1.rules.len()
                == p.chains_number,
        config_of(p).prototypes.len() == 1,
        config_of(p).prototypes[0].1.memory.len() == 2 + p.chains_number * p.chain_length,
        config_of(p).prototypes[0].1.rules.len() == 3 + p.chains_number * p.chain_length,
{
    lemma_grid_len(p.chains_number, p.chain_length, |c: nat, s: nat| cell_decl(c, s));
    lemma_grid_len(
        p.chains_number,
        p.chain_length,
        |c: nat, s: nat| step_rule(c, s, p.chain_length),
    );
}

/// The cells named by the step rule of `(chain, step)`: the cell itself and,
/// unless it is the last step, the next one.
pub open spec fn step_rule_cells(chain: nat, step: nat, length: nat) -> Seq<(nat, nat)> {
    if step + 1 == length {
        seq![(chain, step)]
    } else {
        seq![(chain, step), (chain, step + 1)]
    }
}

/// The cells named by the activation rule of chain `chain`: its last step and its first.
pub open spec fn activation_rule_cells(chain: nat, length: nat) -> Seq<(nat, nat)> {
    seq![(chain, (length - 1) as nat), (chain, 0)]
}

/// The cells named by the start rule: step 0 of each seeded chain.
pub open spec fn start_rule_cells(width: nat) -> Seq<(nat, nat)> {
    start_targets(width).map_values(|c: nat| (c, 0nat))
}

/// Whether cell `(chain, step)` is declared in the prototype's memory.
pub open spec fn declared(p: OptView, cell: (nat, nat)) -> bool {
    prototype_of(p).memory.contains(cell_decl(cell.0, cell.1))
}

/// Every cell that a step rule, an activation rule or the start rule names is
/// declared in the prototype, for every chain and step that the generator covers.
pub proof fn lemma_referential_integrity(p: OptView)
    requires
        p.valid(),
    ensures
        forall|chain: nat, step: nat, i: int|
            chain < p.chains_number && step < p.chain_length && 0 <= i < step_rule_cells(
                chain,
                step,
                p.chain_length,
            ).len() ==> declared(p, #[trigger] step_rule_cells(chain, step, p.chain_length)[i]),
        forall|chain: nat, i: int|
            chain < p.chains_number && 0 <= i < 2 ==> declared(
                p,
                #[trigger] activation_rule_cells(chain, p.chain_length)[i],
            ),
        forall|i: int|
            0 <= i < p.chain_width ==> declared(p, #[trigger] start_rule_cells(p.chain_width)[i]),
{
    let f = |c: nat, s: nat| cell_decl(c, s);
    let head = seq!["bool:start:false"@, "bool:start_all:false"@];
    assert forall|c: nat, s: nat| c < p.chains_number && s < p.chain_length implies declared(
        p,
        (c, s),
    ) by {
        lemma_grid_contains(p.chains_number, p.chain_length, f, c, s);
        let g = grid(p.chains_number, p.chain_length, f);
        let k = choose|k: int| 0 <= k < g.len() && g[k] == f(c, s);
        assert(prototype_memory(p.chains_number, p.chain_length) == head + g);
        assert((head + g)[head.len() + k] == cell_decl(c, s));
    }
}

/// The start rule seeds exactly the chains `0..chain_width`, each once, all of
/// them existing chains; it depends on `chain_width` and `devices_length` alone.
pub proof fn lemma_start_rule_coverage(p: OptView)
    requires
        p.valid(),
    ensures
        prototype_rules(p)[0] == start_rule(p.chain_width, p.devices_length),
        start_targets(p.chain_width).len() == p.chain_width,
        start_targets(p.chain_width).no_duplicates(),
        start_targets(p.chain_width).to_set() == Set::new(|c: nat| c < p.chain_width),
        forall|i: int|
            0 <= i < p.chain_width ==> #[trigger] start_targets(p.chain_width)[i] < p.chains_number,
{
    let t = start_targets(p.chain_width);
    assert forall|c: nat| c < p.chain_width implies t.to_set().contains(c) by {
        assert(t[c as int] == c);
    }
    assert(t.to_set() =~= Set::new(|c: nat| c < p.chain_width));
}

proof fn lemma_mod_distinct(a: int, b: int, n: int)
    requires
        0 <= a < b,
        b - a < n,
    ensures
        a % n != b % n,
{
    vstd::arithmetic::div_mod::lemma_fundamental_div_mod(a, n);
    vstd::arithmetic::div_mod::lemma_fundamental_div_mod(b, n);
    let qa = a / n;
    let qb = b / n;
    if a % n == b % n {
        let r = a % n;
        assert(b - a == (qb - qa) * n) by (nonlinear_arith)
            requires
                a == n * qa + r,
                b == n * qb + r,
        ;
        if qb - qa <= 0 {
            assert((qb - qa) * n <= 0) by (nonlinear_arith)
                requires
                    qb - qa <= 0,
                    n > 0,
            ;
        } else {
            assert((qb - qa) * n >= n) by (nonlinear_arith)
                requires
                    qb - qa >= 1,
                    n > 0,
            ;
        }
    }
}

/// Device `id` moved `k` places along a ring of `n` devices.
pub open spec fn wrapped(id: nat, k: nat, n: nat) -> nat {
    (id + k) % n
}

/// Device `id` of `n` activates `(id + 1) % n, ..., (id + width) % n`, and when
/// `width <= n` each of them once.
pub proof fn lemma_neighbor_wrap_around(id: nat, n: nat, width: nat)
    requires
        id < n,
    ensures
        neighbors(id, n, width).len() == width,
        neighbors(id, n, width).to_set() == Set::new(
            |x: nat| exists|k: nat| 1 <= k <= width && x == #[trigger] wrapped(id, k, n),
        ),
        width <= n ==> neighbors(id, n, width).no_duplicates(),
{
    let ns = neighbors(id, n, width);
    let target = Set::new(
        |x: nat| exists|k: nat| 1 <= k <= width && x == #[trigger] wrapped(id, k, n),
    );
    assert forall|x: nat| ns.to_set().contains(x) implies target.contains(x) by {
        let i = choose|i: int| 0 <= i < ns.len() && ns[i] == x;
        assert(x == wrapped(id, (i + 1) as nat, n));
    }
    assert forall|x: nat| target.contains(x) implies ns.to_set().contains(x) by {
        let k = choose|k: nat| 1 <= k <= width && x == #[trigger] wrapped(id, k, n);
        assert(ns[k - 1] == x);
    }
    assert(ns.to_set() =~= target);
    if width <= n {
        assert forall|i: int, j: int| 0 <= i < ns.len() && 0 <= j < ns.len() && i != j implies ns[i]
            != ns[j] by {
            if i < j {
                lemma_mod_distinct(id + i + 1, id + j + 1, n as int);
            } else {
                lemma_mod_distinct(id + j + 1, id + i + 1, n as int);
            }
        }
    }
}

/// Agent keys are pairwise distinct, and every agent refers to a prototype of
/// the configuration.
pub proof fn lemma_keys_well_formed(p: OptView)
    requires
        p.valid(),
    ensures
        forall|i: int, j: int|
            0 <= i < p.devices_number && 0 <= j < p.devices_number && i != j
                ==> #[trigger] config_of(p).agents[i].0 != #[trigger] config_of(p).agents[j].0,
        config_of(p).prototypes.len() == 1,
        forall|i: int|
            0 <= i < p.devices_number ==> #[trigger] config_of(p).agents[i].1.prototype
                == config_of(p).prototypes[0].0,
{
    assert forall|i: int, j: int|
        0 <= i < p.devices_number && 0 <= j < p.devices_number && i != j implies #[trigger] config_of(
        p,
    ).agents[i].0 != #[trigger] config_of(p).agents[j].0 by {
        let ki = agent_key(i as nat);
        let kj = agent_key(j as nat);
        if ki == kj {
            assert(ki.subrange(5, ki.len() as int) =~= decimal(i as nat)) by {
                reveal_strlit("agent");
            }
            assert(kj.subrange(5, kj.len() as int) =~= decimal(j as nat)) by {
                reveal_strlit("agent");
            }
            lemma_decimal_injective(i as nat, j as nat);
        }
    }
}

} // verus!
