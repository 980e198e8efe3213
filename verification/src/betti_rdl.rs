//! Betti RDL backend: generates executable workloads for the Betti RDL
//! runtime, with deterministic process placement, seeded event injection,
//! and bounded-resource validation.

use vstd::prelude::*;
use crate::backend::{
    grid_coords, grid_x, grid_y, sort_entries_by_name, spacing_ok, validate_program,
    all_coords_valid, entry_view, entry_views, view_names_sorted, BackendError, CodeGenMetadata,
    CodeGenOutput, ConfigOption, EventOrdering, ExecutionTelemetry, ProcessPlacement,
    RuntimeConfig,
};
use crate::engine::{node_id, run_consumes, sat_add_u64, ModelEngine};
use crate::ir::{assoc_lookup, Coord, IrProgram, IrValue};
use crate::text::{dec_digits, usize_to_string};

verus! {

/// Configuration of the Betti RDL backend.
#[derive(Debug, Clone)]
pub struct BettiConfig {
    /// Default process placement strategy.
    pub process_placement: ProcessPlacement,
    /// Maximum events to process per run.
    pub max_events: i32,
    /// Seed used for deterministic injection patterns.
    pub seed: u64,
    /// Enable detailed telemetry collection.
    pub telemetry_enabled: bool,
    /// Coordinate bounds checking.
    pub validate_coordinates: bool,
}

impl Default for BettiConfig {
    /// The default configuration: unit-spacing grid placement, 1000 events,
    /// seed 42, telemetry and coordinate validation on.
    fn default() -> (d: Self)
        ensures
            d.process_placement == (ProcessPlacement::GridLayout { spacing: 1i32 }),
            d.max_events == 1000,
            d.seed == 42,
            d.telemetry_enabled,
            d.validate_coordinates,
    {
        BettiConfig {
            process_placement: ProcessPlacement::GridLayout { spacing: 1 },
            max_events: 1000,
            seed: 42,
            telemetry_enabled: true,
            validate_coordinates: true,
        }
    }
}

/// One step of the 64-bit xorshift generator.
pub open spec fn xs_step(x: u64) -> u64 {
    let a = x ^ (x << 13);
    let b = a ^ (a >> 7);
    b ^ (b << 17)
}

/// The generator state after `k` draws from a seed. The zero seed is replaced
/// by 1, since zero is a fixed point of xorshift.
pub open spec fn xs_state(seed: u64, k: nat) -> u64
    decreases k,
{
    if k == 0 {
        if seed == 0 {
            1u64
        } else {
            seed
        }
    } else {
        xs_step(xs_state(seed, (k - 1) as nat))
    }
}

/// A 64-bit xorshift pseudo-random generator; the injection schedule's only
/// source of values.
struct XorShift64 {
    state: u64,
}

impl XorShift64 {
    fn new(seed: u64) -> (r: XorShift64)
        ensures
            r.state == xs_state(seed, 0),
    {
        XorShift64 { state: if seed == 0 { 1 } else { seed } }
    }

    fn next_u64(&mut self) -> (r: u64)
        ensures
            r == xs_step(old(self).state),
            final(self).state == xs_step(old(self).state),
    {
        let mut x = self.state;
        x = x ^ (x << 13);
        x = x ^ (x >> 7);
        x = x ^ (x << 17);
        self.state = x;
        x
    }
}

/// The process index drawn for the `j`-th injection (0-based): the
/// (2j+1)-th generator state, reduced modulo the process count.
pub open spec fn injection_idx(seed: u64, count: int, j: int) -> int {
    xs_state(seed, (2 * j + 1) as nat) as int % count
}

/// The payload drawn for the `j`-th injection: the (2j+2)-th generator
/// state modulo 5, plus 1.
pub open spec fn injection_value(seed: u64, j: int) -> int {
    xs_state(seed, (2 * j + 2) as nat) as int % 5 + 1
}

/// How many injections are made for a given process count: at most 4.
pub open spec fn injection_count(count: int) -> int {
    if count < 4 {
        count
    } else {
        4
    }
}

/// Draw the deterministic injection schedule for `count` placed processes:
/// `min(4, count)` pairs of (process index, payload), with the index drawn
/// before the payload on each round, in that exact order.
pub fn injection_schedule(seed: u64, count: usize) -> (v: Vec<(usize, i32)>)
    requires
        count >= 1,
    ensures
        v@.len() == injection_count(count as int),
        schedule_matches(v@, seed, count as int),
        forall|j: int|
            0 <= j < v@.len() ==> {
                &&& (#[trigger] v@[j]).0 as int == injection_idx(seed, count as int, j)
                &&& v@[j].1 as int == injection_value(seed, j)
                &&& v@[j].0 < count
                &&& 1 <= v@[j].1 <= 5
            },
{
    let mut rng = XorShift64::new(seed);
    let injections: usize = if count < 4 {
        count
    } else {
        4
    };
    let mut v: Vec<(usize, i32)> = Vec::new();
    let mut j: usize = 0;
    while j < injections
        invariant
            count >= 1,
            injections as int == injection_count(count as int),
            j <= injections,
            rng.state == xs_state(seed, (2 * j) as nat),
            v@.len() == j,
            forall|i: int|
                0 <= i < j ==> {
                    &&& (#[trigger] v@[i]).0 as int == injection_idx(seed, count as int, i)
                    &&& v@[i].1 as int == injection_value(seed, i)
                    &&& v@[i].0 < count
                    &&& 1 <= v@[i].1 <= 5
                },
        decreases injections - j,
    {
        let draw_idx = rng.next_u64();
        let idx = (draw_idx % (count as u64)) as usize;
        let draw_value = rng.next_u64();
        let value = ((draw_value % 5) as i32) + 1;
        proof {
            assert(xs_state(seed, (2 * j + 1) as nat) == xs_step(xs_state(seed, (2 * j) as nat)));
            assert(xs_state(seed, (2 * j + 2) as nat) == xs_step(
                xs_state(seed, (2 * j + 1) as nat),
            ));
        }
        v.push((idx, value));
        j += 1;
    }
    v
}


/// What the injection schedule promises of a drawn vector: one entry per
/// scheduled injection, each drawn from the generator states in order.
pub open spec fn schedule_matches(v: Seq<(usize, i32)>, seed: u64, count: int) -> bool {
    &&& v.len() == injection_count(count)
    &&& forall|j: int|
        0 <= j < v.len() ==> (#[trigger] v[j]).0 as int == injection_idx(seed, count, j)
            && v[j].1 as int == injection_value(seed, j)
}

/// The same seed and process count always yield the identical injection
/// sequence: any two schedules drawn for them agree entry for entry.
pub proof fn lemma_same_seed_same_schedule(
    a: Seq<(usize, i32)>,
    b: Seq<(usize, i32)>,
    seed: u64,
    count: int,
)
    requires
        schedule_matches(a, seed, count),
        schedule_matches(b, seed, count),
    ensures
        a =~= b,
{
    assert forall|j: int| 0 <= j < a.len() implies a[j] == b[j] by {
        assert(a[j].0 as int == injection_idx(seed, count, j));
        assert(b[j].0 as int == injection_idx(seed, count, j));
        assert(a[j].1 as int == injection_value(seed, j));
        assert(b[j].1 as int == injection_value(seed, j));
    }
}

/// Saturating multiplication on `u64`.
pub open spec fn sat_mul_u64(a: int, b: int) -> int {
    if a * b > u64::MAX {
        u64::MAX as int
    } else {
        a * b
    }
}

fn mul_u64_saturating(a: u64, b: u64) -> (r: u64)
    ensures
        r as int == sat_mul_u64(a as int, b as int),
{
    proof {
        assert((a as int) * (b as int) < 0x100000000000000000000000000000000int) by (nonlinear_arith)
            requires a <= 0xffff_ffff_ffff_ffffu64 && b <= 0xffff_ffff_ffff_ffffu64;
    }
    let p: u128 = (a as u128) * (b as u128);
    if p > u64::MAX as u128 {
        u64::MAX
    } else {
        p as u64
    }
}

fn add_u64_saturating(a: u64, b: u64) -> (r: u64)
    ensures
        r as int == sat_add_u64(a as int, b as int),
{
    let s: u128 = (a as u128) + (b as u128);
    if s > u64::MAX as u128 {
        u64::MAX
    } else {
        s as u64
    }
}

/// The deterministic execution-time estimate: 1000ns per bounded event plus
/// 500ns per runtime process, saturating.
pub open spec fn estimate_time(event_count: int, max_events: int, rc: int) -> int {
    let me = if max_events > 0 {
        max_events
    } else {
        event_count
    };
    let bounded = if me == 0 {
        event_count
    } else if event_count < me {
        event_count
    } else {
        me
    };
    sat_add_u64(sat_mul_u64(bounded, 1000), sat_mul_u64(rc, 500))
}

/// The first positive integer bound to `key` among the program constants.
pub open spec fn positive_constant(constants: Seq<(String, IrValue)>, key: Seq<char>) -> Option<
    int,
> {
    match assoc_lookup(constants, key) {
        Some(IrValue::Integer(i)) => if i > 0 {
            Some(i as int)
        } else {
            None
        },
        _ => None,
    }
}

/// The runtime process count a grid layout resolves to: the constant
/// `RUNTIME_PROCESSES` if declared, else `MAX_PROCESSES`, taking the value
/// only if it is a positive integer; otherwise at least one process per
/// declared process, and at least one.
pub open spec fn grid_runtime_count(constants: Seq<(String, IrValue)>, declared: int) -> int {
    let from_constants = match assoc_lookup(constants, "RUNTIME_PROCESSES"@) {
        Some(v) => match v {
            IrValue::Integer(i) => if i > 0 {
                Some(i as int)
            } else {
                None
            },
            _ => None,
        },
        None => positive_constant(constants, "MAX_PROCESSES"@),
    };
    match from_constants {
        Some(c) => c,
        None => if declared >= 1 {
            declared
        } else {
            1
        },
    }
}

/// The runtime process count for a placement strategy.
pub open spec fn resolved_count(
    placement: ProcessPlacement,
    constants: Seq<(String, IrValue)>,
    declared: int,
) -> int {
    match placement {
        ProcessPlacement::SingleNode => 1,
        ProcessPlacement::GridLayout { .. } => grid_runtime_count(constants, declared),
        ProcessPlacement::Custom(m) => if m@.len() >= 1 {
            m@.len() as int
        } else {
            1
        },
    }
}

/// How many coordinates a placement strategy actually places for a resolved
/// runtime count.
pub open spec fn placement_size(placement: ProcessPlacement, rc: int) -> int {
    match placement {
        ProcessPlacement::SingleNode => 1,
        ProcessPlacement::GridLayout { .. } => rc,
        ProcessPlacement::Custom(m) => m@.len() as int,
    }
}

/// The event cap one execution runs under: the configured cap when
/// positive; a zero or negative cap falls back to the program's own event
/// count, never to unbounded execution.
pub open spec fn effective_cap(max_events: int, event_count: int) -> int {
    if max_events > 0 {
        max_events
    } else if event_count < 0x7fff_ffff {
        event_count
    } else {
        0x7fff_ffff
    }
}

/// The number of events one execution delivers: the injection schedule,
/// truncated by the effective cap.
pub open spec fn executed_events(
    placement: ProcessPlacement,
    rc: int,
    max_events: int,
    event_count: int,
) -> int {
    let psize = placement_size(placement, rc);
    let injected = if psize == 0 {
        0
    } else {
        injection_count(psize)
    };
    let cap = effective_cap(max_events, event_count);
    if cap <= 0 {
        0
    } else {
        run_consumes(injected, cap)
    }
}

/// Two executions of the same generated output under the same configuration
/// deliver the same number of events and report the same clock: the counts
/// are a function of the placement, the resolved process count, and the cap
/// alone.
pub proof fn lemma_execution_deterministic(
    t1: ExecutionTelemetry,
    t2: ExecutionTelemetry,
    placement: ProcessPlacement,
    rc: int,
    max_events: int,
    event_count: int,
)
    requires
        t1.events_processed as int == executed_events(placement, rc, max_events, event_count),
        t2.events_processed as int == executed_events(placement, rc, max_events, event_count),
        t1.current_time as int == executed_events(placement, rc, max_events, event_count),
        t2.current_time as int == executed_events(placement, rc, max_events, event_count),
    ensures
        t1.events_processed == t2.events_processed,
        t1.current_time == t2.current_time,
{
}

/// A placement a generated output may carry: bounded spacing for grids, and
/// distinct process names for custom maps (a name-keyed map holds each name
/// once). Oversized custom maps are not excluded here; they are rejected by
/// code generation's admission control.
pub open spec fn placement_wf(placement: ProcessPlacement) -> bool {
    match placement {
        ProcessPlacement::SingleNode => true,
        ProcessPlacement::GridLayout { spacing } => spacing_ok(spacing as int),
        ProcessPlacement::Custom(m) => crate::backend::names_distinct(m@),
    }
}

/// What `generate_code` guarantees of its output, and what `execute` relies
/// on: a validated runtime process count and a well-formed placement.
pub open spec fn output_wf(out: CodeGenOutput) -> bool {
    &&& 1 <= out.metadata.runtime_process_count <= 2048
    &&& placement_wf(out.runtime_config.process_placement)
    &&& placement_size(
        out.runtime_config.process_placement,
        out.metadata.runtime_process_count as int,
    ) <= 2048
}


/// One line of the generated coordinate table.
pub open spec fn coord_line(name: Seq<char>, c: Coord) -> Seq<char> {
    "        executable.process_coords.insert(\""@ + name + "\".to_string(), ("@ + crate::text::dec_int(
        c.x as int,
    ) + ", "@ + crate::text::dec_int(c.y as int) + ", "@ + crate::text::dec_int(c.z as int)
        + "));\n"@
}

/// The first `k` coordinate-table lines, in entry order.
pub open spec fn coord_lines(entries: Seq<(Seq<char>, Coord)>, k: int) -> Seq<char>
    decreases k,
{
    if k <= 0 {
        Seq::empty()
    } else {
        coord_lines(entries, k - 1) + coord_line(entries[k - 1].0, entries[k - 1].1)
    }
}

/// One line of the generated spawn sequence.
pub open spec fn spawn_line(name: Seq<char>, c: Coord) -> Seq<char> {
    "        self.kernel.spawn_process("@ + crate::text::dec_int(c.x as int) + ", "@
        + crate::text::dec_int(c.y as int) + ", "@ + crate::text::dec_int(c.z as int) + "); // "@
        + name + "\n"@
}

/// The first `k` spawn lines, in entry order.
pub open spec fn spawn_lines(entries: Seq<(Seq<char>, Coord)>, k: int) -> Seq<char>
    decreases k,
{
    if k <= 0 {
        Seq::empty()
    } else {
        spawn_lines(entries, k - 1) + spawn_line(entries[k - 1].0, entries[k - 1].1)
    }
}

/// The complete text of the generated executable artifact, as a function of
/// the program name, the (sorted) placement entries, and the event cap.
pub open spec fn executable_text(
    name: Seq<char>,
    entries: Seq<(Seq<char>, Coord)>,
    max_events: int,
) -> Seq<char> {
    "//! Auto-generated Betti RDL executable for "@ + name
        + "\n//! This file was generated by the Grey compiler backend.\n\nuse betti_rdl::Kernel;\nuse std::collections::HashMap;\n\npub struct "@
        + name
        + "Executable {\n    kernel: Kernel,\n    process_coords: HashMap<String, (i32, i32, i32)>,\n}\n\nimpl "@
        + name
        + "Executable {\n    pub fn new() -> Self {\n        let mut executable = Self {\n            kernel: Kernel::new(),\n            process_coords: HashMap::new(),\n        };\n        \n        // Initialize process coordinates\n"@
        + coord_lines(entries, entries.len() as int)
        + "        executable\n    }\n\n    pub fn spawn_processes(&mut self) -> Result<(), Box<dyn std::error::Error>> {\n"@
        + spawn_lines(entries, entries.len() as int)
        + "        Ok(())\n    }\n\n    pub fn inject_events(&mut self) -> Result<(), Box<dyn std::error::Error>> {\n"@
        + (if entries.len() > 0 {
        "        // Inject initial events to first process\n        if let Some((x, y, z)) = self.process_coords.get(\"p0\") {\n            // Inject seed events to trigger process execution\n            self.kernel.inject_event(*x, *y, *z, 1);\n        }\n"@
    } else {
        Seq::<char>::empty()
    })
        + "        Ok(())\n    }\n\n    pub fn run(&mut self, max_events: i32) -> Result<HashMap<String, u64>, Box<dyn std::error::Error>> {\n        let events_in_run = self.kernel.run(max_events);\n\n        let mut results = HashMap::new();\n        results.insert(\"events_in_run\".to_string(), events_in_run as u64);\n        results.insert(\"events_processed\".to_string(), self.kernel.events_processed());\n        results.insert(\"current_time\".to_string(), self.kernel.current_time());\n        results.insert(\"process_count\".to_string(), self.kernel.process_count() as u64);\n        Ok(results)\n    }\n\n}\n\n"@
        + "\n#[cfg(test)]\nmod tests {\n    use super::*;\n    \n    #[test]\n    fn test_"@ + name
        + "_execution() {\n        let mut executable = "@ + name
        + "Executable::new();\n        executable.spawn_processes().unwrap();\n        executable.inject_events().unwrap();\n        \n        let results = executable.run("@
        + crate::text::dec_int(max_events)
        + ").unwrap();\n        \n        assert!(results.contains_key(\"events_processed\"));\n        assert_eq!(results[\"process_count\"], "@
        + dec_digits(entries.len() as int)
        + " as u64);\n    }\n}\n"@
}

/// The complete text of the generated validator artifact.
pub open spec fn validation_text(name: Seq<char>, expected_processes: int, expected_events: int) -> Seq<
    char,
> {
    "//! Validation code for "@ + name
        + " Betti RDL program\n//! This provides assertions for testing against reference implementations.\n\npub struct "@
        + name
        + "Validator {\n    expected_processes: usize,\n    expected_events: usize,\n}\n\nimpl "@
        + name
        + "Validator {\n    pub fn new() -> Self {\n        Self {\n            expected_processes: "@
        + dec_digits(expected_processes) + ",\n            expected_events: "@ + dec_digits(
        expected_events,
    )
        + ",\n        }\n    }\n    \n    pub fn validate_execution(&self, telemetry: &crate::ExecutionTelemetry) -> Result<(), String> {\n        if telemetry.events_processed == 0 {\n            return Err(\"No events were processed\".to_string());\n        }\n        \n        if telemetry.process_states.len() != self.expected_processes {\n            return Err(format!(\n                \"Expected {} processes, got {}\",\n                self.expected_processes,\n                telemetry.process_states.len()\n            ));\n        }\n        \n        Ok(())\n    }\n}\n\n#[cfg(test)]\nmod tests {\n    use super::*;\n    \n    #[test]\n    fn test_validator_creation() {\n        let validator = "@
        + name + "Validator::new();\n        // Add actual validation tests\n    }\n}\n"@
}

/// The view-level placement entries a strategy generates for a resolved
/// runtime count: synthetic "p{i}" names on the grid, "p0" at the origin for
/// a single node, and the custom map as given.
pub open spec fn placement_entry_views(placement: ProcessPlacement, rc: int) -> Seq<
    (Seq<char>, Coord),
> {
    match placement {
        ProcessPlacement::SingleNode => seq![("p0"@, Coord { x: 0i32, y: 0i32, z: 0i32 })],
        ProcessPlacement::GridLayout { spacing } => Seq::new(
            rc as nat,
            |i: int|
                (
                    "p"@ + dec_digits(i),
                    Coord {
                        x: grid_x(rc, spacing as int, i) as i32,
                        y: grid_y(rc, spacing as int, i) as i32,
                        z: 0i32,
                    },
                ),
        ),
        ProcessPlacement::Custom(m) => crate::backend::entry_views(m@),
    }
}


/// The entries a well-formed placement generates carry pairwise distinct
/// names: synthetic grid names embed distinct indices, the single node has
/// one name, and a custom map's names are distinct by its invariant.
pub proof fn lemma_placement_views_distinct(placement: ProcessPlacement, rc: int)
    requires
        placement_wf(placement),
    ensures
        crate::backend::view_names_distinct(placement_entry_views(placement, rc)),
{
    let es = placement_entry_views(placement, rc);
    match placement {
        ProcessPlacement::SingleNode => {},
        ProcessPlacement::GridLayout { spacing } => {
            reveal_strlit("p");
            assert forall|i: int, j: int| 0 <= i < j < es.len() implies (#[trigger] es[i]).0 != (
            #[trigger] es[j]).0 by {
                crate::text::lemma_dec_digits_injective(i, j);
                if es[i].0 == es[j].0 {
                    let di = crate::text::dec_digits(i);
                    let dj = crate::text::dec_digits(j);
                    assert(("p"@).len() == 1);
                    assert(("p"@ + di).len() == ("p"@ + dj).len());
                    assert forall|k: int| 0 <= k < di.len() implies di[k] == dj[k] by {
                        assert(("p"@ + di)[k + 1] == di[k]);
                        assert(("p"@ + dj)[k + 1] == dj[k]);
                    }
                    assert(di =~= dj);
                }
            }
        },
        ProcessPlacement::Custom(m) => {
            assert forall|i: int, j: int| 0 <= i < j < es.len() implies (#[trigger] es[i]).0 != (
            #[trigger] es[j]).0 by {
                assert(es[i].0 == m@[i].0@);
                assert(es[j].0 == m@[j].0@);
            }
        },
    }
}

/// Placement-derived quantities depend only on the placement's view: equal
/// views give equal well-formedness, size, and generated entries.
pub proof fn lemma_placement_eq_derived(
    a: ProcessPlacement,
    b: ProcessPlacement,
    rc: int,
    max_events: int,
    event_count: int,
)
    requires
        crate::backend::placement_eq(a, b),
    ensures
        placement_wf(a) == placement_wf(b),
        placement_size(a, rc) == placement_size(b, rc),
        placement_entry_views(a, rc) == placement_entry_views(b, rc),
        executed_events(a, rc, max_events, event_count) == executed_events(
            b,
            rc,
            max_events,
            event_count,
        ),
        forall|cs: Seq<Coord>|
            coords_of_placement(a, rc, cs) == #[trigger] coords_of_placement(b, rc, cs),
{
    match (a, b) {
        (ProcessPlacement::Custom(ma), ProcessPlacement::Custom(mb)) => {
            assert(entry_views(ma@).len() == ma@.len());
            assert(entry_views(mb@).len() == mb@.len());
            // Distinctness of names is a property of the entry views.
            if crate::backend::names_distinct(ma@) {
                assert forall|i: int, j: int| 0 <= i < j < mb@.len() implies (
                #[trigger] mb@[i]).0@ != (#[trigger] mb@[j]).0@ by {
                    assert(entry_views(ma@)[i] == entry_views(mb@)[i]);
                    assert(entry_views(ma@)[j] == entry_views(mb@)[j]);
                }
            }
            if crate::backend::names_distinct(mb@) {
                assert forall|i: int, j: int| 0 <= i < j < ma@.len() implies (
                #[trigger] ma@[i]).0@ != (#[trigger] ma@[j]).0@ by {
                    assert(entry_views(ma@)[i] == entry_views(mb@)[i]);
                    assert(entry_views(ma@)[j] == entry_views(mb@)[j]);
                }
            }
        },
        _ => {},
    }
}


/// Entries are keyed by strictly increasing node ids: a sorted map with each
/// id appearing once.
pub open spec fn states_sorted(s: Seq<(usize, i32)>) -> bool {
    forall|i: int, j: int| 0 <= i < j < s.len() ==> (#[trigger] s[i]).0 < (#[trigger] s[j]).0
}

/// Some entry of the table carries this node id.
pub open spec fn has_state_key(s: Seq<(usize, i32)>, pid: usize) -> bool {
    exists|k: int| 0 <= k < s.len() && (#[trigger] s[k]).0 == pid
}

/// The engine node id of a coordinate, as a table key.
pub open spec fn coord_key(c: Coord) -> usize {
    crate::engine::node_id_spec(c.x as int, c.y as int, c.z as int) as usize
}

/// `cs` is exactly the coordinate sequence a placement strategy spawns, in
/// spawn order: the origin alone for a single node, the scaled row-major
/// grid, or the coordinates of the custom entries taken in name-sorted
/// order.
pub open spec fn coords_of_placement(placement: ProcessPlacement, rc: int, cs: Seq<Coord>) -> bool {
    match placement {
        ProcessPlacement::SingleNode => cs.len() == 1 && cs[0] == (Coord { x: 0i32, y: 0i32, z: 0i32 }),
        ProcessPlacement::GridLayout { spacing } => {
            &&& cs.len() == rc
            &&& forall|i: int|
                0 <= i < rc ==> {
                    &&& (#[trigger] cs[i]).x as int == grid_x(rc, spacing as int, i)
                    &&& cs[i].y as int == grid_y(rc, spacing as int, i)
                    &&& cs[i].z == 0
                }
        },
        ProcessPlacement::Custom(m) => exists|es: Seq<(Seq<char>, Coord)>|
            {
                &&& view_names_sorted(es)
                &&& es.to_multiset() == entry_views(m@).to_multiset()
                &&& cs.len() == es.len()
                &&& forall|i: int| 0 <= i < cs.len() ==> (#[trigger] cs[i]) == es[i].1
            },
    }
}

/// This node id belongs to one of the placed coordinates.
pub open spec fn key_placed(cs: Seq<Coord>, pid: usize) -> bool {
    exists|j: int| 0 <= j < cs.len() && coord_key(#[trigger] cs[j]) == pid
}

/// The table's keys are exactly the node ids of the placed coordinates:
/// every placed coordinate's node id is present, and every key is some
/// placed coordinate's node id.
pub open spec fn table_keys_of(table: Seq<(usize, i32)>, cs: Seq<Coord>) -> bool {
    &&& (forall|j: int| 0 <= j < cs.len() ==> has_state_key(table, coord_key(#[trigger] cs[j])))
    &&& (forall|k: int| 0 <= k < table.len() ==> key_placed(cs, (#[trigger] table[k]).0))
}

/// The execution time the adapter reports: the deterministic estimate carried
/// by the generated output, and at least one nanosecond.
pub open spec fn effective_time(estimate: Option<u64>) -> int {
    match estimate {
        Some(v) => if v >= 1 {
            v as int
        } else {
            1
        },
        None => 1,
    }
}

/// Betti RDL backend implementation.
pub struct BettiRdlBackend {
    pub config: BettiConfig,
}

impl BettiRdlBackend {
    /// A backend with the given configuration.
    pub fn new(config: BettiConfig) -> (b: Self)
        ensures
            b.config == config,
    {
        BettiRdlBackend { config }
    }

    /// A backend with the default configuration.
    pub fn new_with_defaults() -> (b: Self)
        ensures
            b.config.process_placement == (ProcessPlacement::GridLayout { spacing: 1i32 }),
            b.config.max_events == 1000,
            b.config.seed == 42,
            b.config.telemetry_enabled,
            b.config.validate_coordinates,
    {
        BettiRdlBackend { config: BettiConfig::default() }
    }

    /// The configured view, for contracts.
    pub open spec fn spec_config(&self) -> BettiConfig {
        self.config
    }

    /// The deterministic execution-time estimate for a program under this
    /// configuration.
    fn estimate_execution_time_ns(&self, program: &IrProgram, runtime_process_count: usize) -> (r:
        u64)
        ensures
            r as int == estimate_time(
                program.events@.len() as int,
                self.spec_config().max_events as int,
                runtime_process_count as int,
            ),
            runtime_process_count >= 1 ==> r >= 500,
    {
        let event_count = program.events.len() as u64;
        let max_events = if self.config.max_events > 0 {
            self.config.max_events as u64
        } else {
            event_count
        };
        let bounded_events = if max_events == 0 {
            event_count
        } else if event_count < max_events {
            event_count
        } else {
            max_events
        };
        let per_event = mul_u64_saturating(bounded_events, 1000);
        let per_process = mul_u64_saturating(runtime_process_count as u64, 500);
        add_u64_saturating(per_event, per_process)
    }

    /// Resolve the runtime process count for this configuration; see
    /// `resolved_count` for the precedence rules.
    fn resolve_runtime_count(&self, program: &IrProgram) -> (rc: u64)
        ensures
            rc as int == resolved_count(
                self.spec_config().process_placement,
                program.constants@,
                program.processes@.len() as int,
            ),
            rc >= 1,
    {
        match &self.config.process_placement {
            ProcessPlacement::SingleNode => 1,
            ProcessPlacement::Custom(coords) => {
                let n = coords.len();
                if n >= 1 {
                    n as u64
                } else {
                    1
                }
            },
            ProcessPlacement::GridLayout { .. } => {
                let first = crate::ir::constants_get(&program.constants, "RUNTIME_PROCESSES");
                let from_constants: Option<u64> = match first {
                    Some(v) => match v {
                        IrValue::Integer(i) => if *i > 0 {
                            Some(*i as u64)
                        } else {
                            None
                        },
                        _ => None,
                    },
                    None => {
                        match crate::ir::constants_get(&program.constants, "MAX_PROCESSES") {
                            Some(v) => match v {
                                IrValue::Integer(i) => if *i > 0 {
                                    Some(*i as u64)
                                } else {
                                    None
                                },
                                _ => None,
                            },
                            None => None,
                        }
                    },
                };
                match from_constants {
                    Some(c) => c,
                    None => {
                        let n = program.processes.len();
                        if n >= 1 {
                            n as u64
                        } else {
                            1
                        }
                    },
                }
            },
        }
    }

    /// Serialize the placement into the executable artifact's text. Entries
    /// must already be in lexicographically sorted name order, so that the
    /// emitted text is byte-for-byte reproducible.
    fn generate_executable_code(&self, program: &IrProgram, entries: &Vec<(String, Coord)>) -> (r:
        String)
        ensures
            r@ == executable_text(
                program.name@,
                crate::backend::entry_views(entries@),
                self.spec_config().max_events as int,
            ),
    {
        let ghost views = crate::backend::entry_views(entries@);
        let mut code = String::new();
        code.append("//! Auto-generated Betti RDL executable for ");
        code.append(program.name.as_str());
        code.append(
            "\n//! This file was generated by the Grey compiler backend.\n\nuse betti_rdl::Kernel;\nuse std::collections::HashMap;\n\npub struct ",
        );
        code.append(program.name.as_str());
        code.append(
            "Executable {\n    kernel: Kernel,\n    process_coords: HashMap<String, (i32, i32, i32)>,\n}\n\nimpl ",
        );
        code.append(program.name.as_str());
        code.append(
            "Executable {\n    pub fn new() -> Self {\n        let mut executable = Self {\n            kernel: Kernel::new(),\n            process_coords: HashMap::new(),\n        };\n        \n        // Initialize process coordinates\n",
        );
        let ghost header = code@;
        let mut i: usize = 0;
        while i < entries.len()
            invariant
                i <= entries@.len(),
                views == crate::backend::entry_views(entries@),
                code@ == header + coord_lines(views, i as int),
            decreases entries@.len() - i,
        {
            code.append("        executable.process_coords.insert(\"");
            code.append(entries[i].0.as_str());
            code.append("\".to_string(), (");
            code.append(crate::text::i32_to_string(entries[i].1.x).as_str());
            code.append(", ");
            code.append(crate::text::i32_to_string(entries[i].1.y).as_str());
            code.append(", ");
            code.append(crate::text::i32_to_string(entries[i].1.z).as_str());
            code.append("));\n");
            proof {
                assert(views[i as int] == crate::backend::entry_view(entries@[i as int]));
                assert(code@ =~= header + coord_lines(views, i + 1));
            }
            i += 1;
        }
        code.append(
            "        executable\n    }\n\n    pub fn spawn_processes(&mut self) -> Result<(), Box<dyn std::error::Error>> {\n",
        );
        let ghost mid = code@;
        let mut i: usize = 0;
        while i < entries.len()
            invariant
                i <= entries@.len(),
                views == crate::backend::entry_views(entries@),
                code@ == mid + spawn_lines(views, i as int),
            decreases entries@.len() - i,
        {
            code.append("        self.kernel.spawn_process(");
            code.append(crate::text::i32_to_string(entries[i].1.x).as_str());
            code.append(", ");
            code.append(crate::text::i32_to_string(entries[i].1.y).as_str());
            code.append(", ");
            code.append(crate::text::i32_to_string(entries[i].1.z).as_str());
            code.append("); // ");
            code.append(entries[i].0.as_str());
            code.append("\n");
            proof {
                assert(views[i as int] == crate::backend::entry_view(entries@[i as int]));
                assert(code@ =~= mid + spawn_lines(views, i + 1));
            }
            i += 1;
        }
        code.append(
            "        Ok(())\n    }\n\n    pub fn inject_events(&mut self) -> Result<(), Box<dyn std::error::Error>> {\n",
        );
        if entries.len() > 0 {
            code.append(
                "        // Inject initial events to first process\n        if let Some((x, y, z)) = self.process_coords.get(\"p0\") {\n            // Inject seed events to trigger process execution\n            self.kernel.inject_event(*x, *y, *z, 1);\n        }\n",
            );
        }
        code.append(
            "        Ok(())\n    }\n\n    pub fn run(&mut self, max_events: i32) -> Result<HashMap<String, u64>, Box<dyn std::error::Error>> {\n        let events_in_run = self.kernel.run(max_events);\n\n        let mut results = HashMap::new();\n        results.insert(\"events_in_run\".to_string(), events_in_run as u64);\n        results.insert(\"events_processed\".to_string(), self.kernel.events_processed());\n        results.insert(\"current_time\".to_string(), self.kernel.current_time());\n        results.insert(\"process_count\".to_string(), self.kernel.process_count() as u64);\n        Ok(results)\n    }\n\n}\n\n",
        );
        code.append("\n#[cfg(test)]\nmod tests {\n    use super::*;\n    \n    #[test]\n    fn test_");
        code.append(program.name.as_str());
        code.append("_execution() {\n        let mut executable = ");
        code.append(program.name.as_str());
        code.append(
            "Executable::new();\n        executable.spawn_processes().unwrap();\n        executable.inject_events().unwrap();\n        \n        let results = executable.run(",
        );
        code.append(crate::text::i32_to_string(self.config.max_events).as_str());
        code.append(
            ").unwrap();\n        \n        assert!(results.contains_key(\"events_processed\"));\n        assert_eq!(results[\"process_count\"], ",
        );
        code.append(usize_to_string(entries.len()).as_str());
        code.append(" as u64);\n    }\n}\n");
        proof {
            assert(code@ =~= executable_text(
                program.name@,
                views,
                self.spec_config().max_events as int,
            ));
        }
        code
    }

    /// Serialize the expected process and event counts into the companion
    /// validator artifact.
    fn generate_validation_code(&self, program: &IrProgram, expected_processes: u64) -> (r:
        String)
        ensures
            r@ == validation_text(
                program.name@,
                expected_processes as int,
                program.events@.len() as int,
            ),
    {
        let mut code = String::new();
        code.append("//! Validation code for ");
        code.append(program.name.as_str());
        code.append(
            " Betti RDL program\n//! This provides assertions for testing against reference implementations.\n\npub struct ",
        );
        code.append(program.name.as_str());
        code.append(
            "Validator {\n    expected_processes: usize,\n    expected_events: usize,\n}\n\nimpl ",
        );
        code.append(program.name.as_str());
        code.append(
            "Validator {\n    pub fn new() -> Self {\n        Self {\n            expected_processes: ",
        );
        code.append(crate::text::u64_to_string(expected_processes).as_str());
        code.append(",\n            expected_events: ");
        code.append(usize_to_string(program.events.len()).as_str());
        code.append(
            ",\n        }\n    }\n    \n    pub fn validate_execution(&self, telemetry: &crate::ExecutionTelemetry) -> Result<(), String> {\n        if telemetry.events_processed == 0 {\n            return Err(\"No events were processed\".to_string());\n        }\n        \n        if telemetry.process_states.len() != self.expected_processes {\n            return Err(format!(\n                \"Expected {} processes, got {}\",\n                self.expected_processes,\n                telemetry.process_states.len()\n            ));\n        }\n        \n        Ok(())\n    }\n}\n\n#[cfg(test)]\nmod tests {\n    use super::*;\n    \n    #[test]\n    fn test_validator_creation() {\n        let validator = ",
        );
        code.append(program.name.as_str());
        code.append("Validator::new();\n        // Add actual validation tests\n    }\n}\n");
        proof {
            assert(code@ =~= validation_text(
                program.name@,
                expected_processes as int,
                program.events@.len() as int,
            ));
        }
        code
    }

    /// The named placement entries this configuration generates: one synthetic
    /// "p{i}" name per grid cell, "p0" alone for a single node, or the custom
    /// map as given.
    fn placement_entries(&self, runtime_process_count: usize) -> (v: Vec<(String, Coord)>)
        requires
            placement_wf(self.spec_config().process_placement),
            1 <= runtime_process_count <= 2048,
        ensures
            v@.len() == placement_size(
                self.spec_config().process_placement,
                runtime_process_count as int,
            ),
            crate::backend::entry_views(v@) == placement_entry_views(
                self.spec_config().process_placement,
                runtime_process_count as int,
            ),
    {
        let ghost target = placement_entry_views(
            self.spec_config().process_placement,
            runtime_process_count as int,
        );
        match &self.config.process_placement {
            ProcessPlacement::SingleNode => {
                let mut v: Vec<(String, Coord)> = Vec::new();
                v.push((String::from_str("p0"), Coord::new(0, 0, 0)));
                proof {
                    assert(entry_views(v@) =~~= target);
                }
                v
            },
            ProcessPlacement::GridLayout { spacing } => {
                let coords = grid_coords(runtime_process_count, *spacing);
                let mut v: Vec<(String, Coord)> = Vec::new();
                let mut i: usize = 0;
                while i < coords.len()
                    invariant
                        i <= coords@.len(),
                        coords@.len() == runtime_process_count,
                        target == placement_entry_views(
                            self.spec_config().process_placement,
                            runtime_process_count as int,
                        ),
                        target.len() == runtime_process_count,
                        self.spec_config().process_placement matches ProcessPlacement::GridLayout {
                            spacing: s,
                        } && s == spacing,
                        forall|j: int|
                            0 <= j < coords@.len() ==> #[trigger] coords@[j] == target[j].1,
                        v@.len() == i,
                        forall|j: int|
                            0 <= j < i ==> #[trigger] entry_view(v@[j]) == target[j],
                    decreases coords@.len() - i,
                {
                    let name = String::from_str("p").concat(usize_to_string(i).as_str());
                    proof {
                        assert(name@ == "p"@ + dec_digits(i as int));
                    }
                    v.push((name, coords[i]));
                    i += 1;
                }
                proof {
                    assert(entry_views(v@) =~~= target);
                }
                v
            },
            ProcessPlacement::Custom(mapping) => {
                let mut copy: Vec<(String, Coord)> = Vec::new();
                let mut i: usize = 0;
                while i < mapping.len()
                    invariant
                        i <= mapping@.len(),
                        copy@.len() == i,
                        forall|j: int|
                            0 <= j < i ==> #[trigger] entry_view(copy@[j]) == entry_view(
                                mapping@[j],
                            ),
                    decreases mapping@.len() - i,
                {
                    let name = mapping[i].0.clone();
                    copy.push((name, mapping[i].1));
                    i += 1;
                }
                proof {
                    assert(entry_views(copy@) =~~= target);
                }
                copy
            },
        }
    }

    /// Generate the Betti RDL artifacts for a program.
    ///
    /// Fails with a `ValidationError`, and only then, when a declared
    /// coordinate is out of bounds, the declared process count exceeds the
    /// declared ceiling, the resolved runtime process count exceeds that
    /// ceiling, or the runtime count exceeds the engine's fixed pool of 2048
    /// processes (whatever the IR's own ceiling says).
    pub fn generate_code(&self, program: &IrProgram) -> (r: Result<CodeGenOutput, BackendError>)
        requires
            placement_wf(self.spec_config().process_placement),
        ensures
            ({
                let rc = resolved_count(
                    self.spec_config().process_placement,
                    program.constants@,
                    program.processes@.len() as int,
                );
                let admissible = {
                    &&& all_coords_valid(*program)
                    &&& program.processes@.len() <= program.resources.max_processes
                    &&& rc <= program.resources.max_processes as int
                    &&& rc <= 2048
                };
                match r {
                    Ok(out) => {
                        &&& admissible
                        &&& out.metadata.runtime_process_count as int == rc
                        &&& out.metadata.process_count == program.processes@.len()
                        &&& out.metadata.event_count == program.events@.len()
                        &&& out.metadata.source_name@ == program.name@
                        &&& out.metadata.expected_execution_time == Some(
                            estimate_time(
                                program.events@.len() as int,
                                self.spec_config().max_events as int,
                                rc,
                            ) as u64,
                        )
                        &&& out.runtime_config.max_events == self.spec_config().max_events
                        &&& crate::backend::placement_eq(
                            out.runtime_config.process_placement,
                            self.spec_config().process_placement,
                        )
                        &&& out.runtime_config.event_ordering is Deterministic
                        &&& output_wf(out)
                        &&& out.files@.len() == 2
                        &&& out.files@[0].0@ == program.name@ + "_betti.rs"@
                        &&& out.files@[1].0@ == program.name@ + "_validation.rs"@
                        &&& exists|es: Seq<(Seq<char>, Coord)>|
                            {
                                &&& view_names_sorted(es)
                                &&& crate::backend::view_names_distinct(es)
                                &&& es.to_multiset() == placement_entry_views(
                                    self.spec_config().process_placement,
                                    rc,
                                ).to_multiset()
                                &&& out.files@[0].1@ == executable_text(
                                    program.name@,
                                    es,
                                    self.spec_config().max_events as int,
                                )
                            }
                        &&& out.files@[1].1@ == validation_text(
                            program.name@,
                            grid_runtime_count(
                                program.constants@,
                                program.processes@.len() as int,
                            ),
                            program.events@.len() as int,
                        )
                    },
                    Err(e) => {
                        &&& e is ValidationError
                        &&& !admissible
                    },
                }
            }),
    {
        if let Err(e) = validate_program(program) {
            return Err(e);
        }
        let rc64 = self.resolve_runtime_count(program);
        if rc64 > program.resources.max_processes as u64 {
            let msg = String::from_str("Runtime process count ").concat(
                crate::text::u64_to_string(rc64).as_str(),
            ).concat(" exceeds max_processes ").concat(
                usize_to_string(program.resources.max_processes).as_str(),
            );
            return Err(BackendError::ValidationError(msg));
        }
        // The engine has a fixed process pool.
        if rc64 > 2048 {
            let msg = String::from_str("Runtime process count ").concat(
                crate::text::u64_to_string(rc64).as_str(),
            ).concat(" exceeds kernel hard limit 2048");
            return Err(BackendError::ValidationError(msg));
        }
        let runtime_process_count = rc64 as usize;

        let entries = self.placement_entries(runtime_process_count);
        let sorted = crate::backend::sort_entries_by_name(entries);

        let executable_code = self.generate_executable_code(program, &sorted);
        let expected = self.resolve_validation_count(program);
        let validation_code = self.generate_validation_code(program, expected);
        proof {
            let es = entry_views(sorted@);
            let rc = resolved_count(
                self.spec_config().process_placement,
                program.constants@,
                program.processes@.len() as int,
            );
            assert(view_names_sorted(es));
            assert(es.to_multiset() == placement_entry_views(
                self.spec_config().process_placement,
                rc,
            ).to_multiset());
            lemma_placement_views_distinct(self.spec_config().process_placement, rc);
            crate::backend::lemma_multiset_names_distinct(
                placement_entry_views(self.spec_config().process_placement, rc),
                es,
            );
            assert(crate::backend::view_names_distinct(es));
            assert(executable_code@ == executable_text(
                program.name@,
                es,
                self.spec_config().max_events as int,
            ));
        }

        let mut files: Vec<(String, String)> = Vec::new();
        files.push((program.name.clone().concat("_betti.rs"), executable_code));
        files.push((program.name.clone().concat("_validation.rs"), validation_code));

        let runtime_config = RuntimeConfig {
            max_events: self.config.max_events,
            process_placement: self.config.process_placement.clone(),
            event_ordering: EventOrdering::Deterministic,
        };
        proof {
            lemma_placement_eq_derived(
                self.spec_config().process_placement,
                runtime_config.process_placement,
                rc64 as int,
                self.spec_config().max_events as int,
                program.events@.len() as int,
            );
        }

        let metadata = CodeGenMetadata {
            source_name: program.name.clone(),
            process_count: program.processes.len(),
            runtime_process_count,
            event_count: program.events.len(),
            expected_execution_time: Some(
                self.estimate_execution_time_ns(program, runtime_process_count),
            ),
        };

        Ok(CodeGenOutput { files, runtime_config, metadata })
    }

    /// The expected process count embedded in the validator artifact: always
    /// the constants-derived count, whatever the placement strategy.
    fn resolve_validation_count(&self, program: &IrProgram) -> (rc: u64)
        ensures
            rc as int == grid_runtime_count(
                program.constants@,
                program.processes@.len() as int,
            ),
    {
        let first = crate::ir::constants_get(&program.constants, "RUNTIME_PROCESSES");
        let from_constants: Option<u64> = match first {
            Some(v) => match v {
                IrValue::Integer(i) => if *i > 0 {
                    Some(*i as u64)
                } else {
                    None
                },
                _ => None,
            },
            None => {
                match crate::ir::constants_get(&program.constants, "MAX_PROCESSES") {
                    Some(v) => match v {
                        IrValue::Integer(i) => if *i > 0 {
                            Some(*i as u64)
                        } else {
                            None
                        },
                        _ => None,
                    },
                    None => None,
                }
            },
        };
        match from_constants {
            Some(c) => c,
            None => {
                let n = program.processes.len();
                if n >= 1 {
                    n as u64
                } else {
                    1
                }
            },
        }
    }

    /// The coordinates a generated output spawns, in spawn order: the origin
    /// alone for a single node, the scaled row-major grid, or the custom
    /// entries' coordinates in name-sorted order.
    fn spawn_coords(placement: &ProcessPlacement, runtime_process_count: usize) -> (v: Vec<Coord>)
        requires
            placement_wf(*placement),
            1 <= runtime_process_count <= 2048,
        ensures
            v@.len() == placement_size(*placement, runtime_process_count as int),
            coords_of_placement(*placement, runtime_process_count as int, v@),
    {
        match placement {
            ProcessPlacement::SingleNode => {
                let mut v: Vec<Coord> = Vec::new();
                v.push(Coord::new(0, 0, 0));
                v
            },
            ProcessPlacement::GridLayout { spacing } => grid_coords(
                runtime_process_count,
                *spacing,
            ),
            ProcessPlacement::Custom(mapping) => {
                let sorted = sort_entries_by_name(crate::backend::clone_entries(mapping));
                let mut v: Vec<Coord> = Vec::new();
                let mut i: usize = 0;
                while i < sorted.len()
                    invariant
                        i <= sorted@.len(),
                        v@.len() == i,
                        forall|j: int| 0 <= j < i ==> (#[trigger] v@[j]) == sorted@[j].1,
                    decreases sorted@.len() - i,
                {
                    v.push(sorted[i].1);
                    i += 1;
                }
                proof {
                    let es = entry_views(sorted@);
                    // The sorted copy has one entry per custom entry.
                    assert(sorted@.len() == mapping@.len()) by {
                        assert(es.len() == sorted@.len());
                        assert(entry_views(mapping@).len() == mapping@.len());
                    }
                    assert(view_names_sorted(es));
                    assert(forall|j: int| 0 <= j < v@.len() ==> (#[trigger] v@[j]) == es[j].1);
                    assert(coords_of_placement(*placement, runtime_process_count as int, v@));
                }
                v
            },
        }
    }

    /// Insert one (node id, state) reading, keeping the table sorted by node
    /// id with each id appearing once; a repeated id leaves the table as it
    /// was (the reading for a node id never varies within one collection).
    fn record_state(table: &mut Vec<(usize, i32)>, pid: usize, st: i32)
        requires
            states_sorted(old(table)@),
            old(table)@.len() < usize::MAX,
        ensures
            states_sorted(final(table)@),
            old(table)@.len() <= final(table)@.len() <= old(table)@.len() + 1,
            final(table)@.len() >= 1,
            has_state_key(final(table)@, pid),
            forall|q: usize| has_state_key(old(table)@, q) ==> has_state_key(final(table)@, q),
            forall|k: int|
                0 <= k < final(table)@.len() ==> (#[trigger] final(table)@[k]) == (pid, st)
                    || old(table)@.contains(final(table)@[k]),
    {
        let ghost before = table@;
        let mut i: usize = 0;
        while i < table.len() && table[i].0 < pid
            invariant
                states_sorted(before),
                table@ == before,
                i <= before.len(),
                forall|j: int| 0 <= j < i ==> (#[trigger] before[j]).0 < pid,
            decreases before.len() - i,
        {
            i += 1;
        }
        if i < table.len() && table[i].0 == pid {
            proof {
                assert(before.contains(before[i as int]));
                assert(table@[i as int].0 == pid);
            }
            return ;
        }
        proof {
            before.insert_ensures(i as int, (pid, st));
        }
        table.insert(i, (pid, st));
        proof {
            assert(table@ == before.insert(i as int, (pid, st)));
            assert forall|k: int| 0 <= k < table@.len() implies (#[trigger] table@[k]) == (
            pid,
            st,
            ) || before.contains(table@[k]) by {
                if k < i {
                    assert(table@[k] == before[k]);
                    assert(before.contains(before[k]));
                } else if k > i {
                    assert(table@[k] == before[k - 1]);
                    assert(before.contains(before[k - 1]));
                }
            }
            assert(table@[i as int].0 == pid);
            assert forall|q: usize| has_state_key(before, q) implies has_state_key(
                table@,
                q,
            ) by {
                let k = choose|k: int| 0 <= k < before.len() && (#[trigger] before[k]).0 == q;
                if k < i {
                    assert(table@[k].0 == q);
                } else {
                    assert(table@[k + 1].0 == q);
                }
            }
            // The scan stopped at the first key not below `pid`, and that key
            // is not `pid` itself, so everything at or past the insertion
            // point is strictly greater.
            assert forall|k: int| i <= k < before.len() implies (#[trigger] before[k]).0 > pid by {
                if k == i {
                    assert(before[i as int].0 >= pid);
                    assert(before[i as int].0 != pid);
                } else {
                    assert(before[i as int].0 >= pid);
                    assert(before[i as int].0 != pid);
                    assert(before[i as int].0 < before[k].0);
                }
            }
            assert forall|a: int, b: int| 0 <= a < b < table@.len() implies (
            #[trigger] table@[a]).0 < (#[trigger] table@[b]).0 by {
                if b == i {
                    assert(table@[a] == before[a]);
                } else if a == i {
                    assert(table@[b] == before[b - 1]);
                } else if a < i && b > i {
                    assert(table@[a] == before[a]);
                    assert(table@[b] == before[b - 1]);
                } else if a < i && b < i {
                    assert(table@[a] == before[a]);
                    assert(table@[b] == before[b]);
                } else {
                    assert(table@[a] == before[a - 1]);
                    assert(table@[b] == before[b - 1]);
                }
            }
        }
    }

    /// Read back one state per distinct placed node id, as a sorted table:
    /// the keys are exactly the node ids of the placed coordinates, and each
    /// value is the engine's state for that node.
    fn collect_telemetry_states(engine: &ModelEngine, coords: &Vec<Coord>) -> (table: Vec<
        (usize, i32),
    >)
        requires
            engine.wf(),
            coords@.len() <= 2048,
        ensures
            states_sorted(table@),
            table@.len() <= coords@.len(),
            coords@.len() >= 1 ==> table@.len() >= 1,
            table_keys_of(table@, coords@),
            forall|k: int|
                0 <= k < table@.len() ==> (#[trigger] table@[k]).1 as int == crate::engine::state_of(
                    engine.spawned@,
                    engine.states@,
                    table@[k].0,
                ),
    {
        let mut table: Vec<(usize, i32)> = Vec::new();
        let mut i: usize = 0;
        while i < coords.len()
            invariant
                engine.wf(),
                coords@.len() <= 2048,
                i <= coords@.len(),
                states_sorted(table@),
                table@.len() <= i,
                i >= 1 ==> table@.len() >= 1,
                forall|j: int| 0 <= j < i ==> has_state_key(table@, coord_key(#[trigger] coords@[j])),
                forall|k: int|
                    0 <= k < table@.len() ==> key_placed(coords@.take(i as int), (
                    #[trigger] table@[k]).0) && table@[k].1 as int == crate::engine::state_of(
                        engine.spawned@,
                        engine.states@,
                        table@[k].0,
                    ),
            decreases coords@.len() - i,
        {
            let pid = node_id(&coords[i]);
            let st = engine.process_state(pid);
            let ghost before = table@;
            Self::record_state(&mut table, pid as usize, st);
            proof {
                assert(pid as usize == coord_key(coords@[i as int]));
                assert forall|k: int| 0 <= k < table@.len() implies key_placed(
                    coords@.take(i + 1),
                    (#[trigger] table@[k]).0,
                ) && table@[k].1 as int == crate::engine::state_of(
                    engine.spawned@,
                    engine.states@,
                    table@[k].0,
                ) by {
                    if table@[k] == (pid as usize, st) {
                        assert(coords@.take(i + 1)[i as int] == coords@[i as int]);
                        assert(coord_key(coords@.take(i + 1)[i as int]) == table@[k].0);
                    } else {
                        assert(before.contains(table@[k]));
                        let k0 = choose|k0: int|
                            0 <= k0 < before.len() && before[k0] == table@[k];
                        assert(key_placed(coords@.take(i as int), before[k0].0));
                        let j0 = choose|j0: int|
                            0 <= j0 < coords@.take(i as int).len() && coord_key(
                                #[trigger] coords@.take(i as int)[j0],
                            ) == before[k0].0;
                        assert(coords@.take(i + 1)[j0] == coords@[j0]);
                        assert(coord_key(coords@.take(i + 1)[j0]) == table@[k].0);
                    }
                }
            }
            i += 1;
        }
        proof {
            assert(coords@.take(coords@.len() as int) =~= coords@);
            assert(table_keys_of(table@, coords@));
        }
        table
    }

    /// Execute the generated workload on the deterministic in-process engine:
    /// spawn every placed coordinate in placement order, perform the seeded
    /// injection schedule, run under the effective cap (a zero or negative
    /// configured cap falls back to the program's own event count, never to
    /// unbounded execution), then collect telemetry, keyed by the node ids
    /// of the placed coordinates. The event and clock counts are a function
    /// of the placement, the resolved process count, and the caps alone, so
    /// repeated executions agree.
    pub fn execute(&self, output: &CodeGenOutput) -> (r: Result<ExecutionTelemetry, BackendError>)
        requires
            output_wf(*output),
        ensures
            r is Ok,
            match r {
                Ok(t) => {
                    let psize = placement_size(
                        output.runtime_config.process_placement,
                        output.metadata.runtime_process_count as int,
                    );
                    &&& t.events_processed as int == executed_events(
                        output.runtime_config.process_placement,
                        output.metadata.runtime_process_count as int,
                        output.runtime_config.max_events as int,
                        output.metadata.event_count as int,
                    )
                    &&& t.current_time == t.events_processed
                    &&& t.execution_time_ns as int == effective_time(
                        output.metadata.expected_execution_time,
                    )
                    &&& t.execution_time_ns >= 1
                    &&& t.memory_usage_kb is None
                    &&& states_sorted(t.process_states@)
                    &&& (self.spec_config().telemetry_enabled ==> t.process_states@.len() <= psize
                        && (psize >= 1 ==> t.process_states@.len() >= 1) && exists|cs: Seq<Coord>|
                        coords_of_placement(
                            output.runtime_config.process_placement,
                            output.metadata.runtime_process_count as int,
                            cs,
                        ) && table_keys_of(t.process_states@, cs))
                    &&& (!self.spec_config().telemetry_enabled ==> t.process_states@.len() == 0)
                },
                Err(_) => false,
            },
    {
        let mut engine = ModelEngine::new();

        // Spawn processes according to the placement configuration.
        let coords = Self::spawn_coords(
            &output.runtime_config.process_placement,
            output.metadata.runtime_process_count,
        );
        let mut i: usize = 0;
        while i < coords.len()
            invariant
                engine.wf(),
                coords@.len() <= 2048,
                i <= coords@.len(),
                engine.spawned@.len() == i,
                engine.queue@.len() == 0,
                engine.events_processed == 0,
                engine.current_time == 0,
            decreases coords@.len() - i,
        {
            engine.spawn_process(coords[i].x, coords[i].y, coords[i].z);
            i += 1;
        }

        // Inject the deterministic initial events.
        if coords.len() > 0 {
            let schedule = injection_schedule(self.config.seed, coords.len());
            let mut j: usize = 0;
            while j < schedule.len()
                invariant
                    engine.wf(),
                    schedule@.len() <= 4,
                    j <= schedule@.len(),
                    forall|k: int| 0 <= k < schedule@.len() ==> (#[trigger] schedule@[k]).0
                        < coords@.len(),
                    engine.spawned@.len() == coords@.len(),
                    engine.queue@.len() == j,
                    engine.events_processed == 0,
                    engine.current_time == 0,
                decreases schedule@.len() - j,
            {
                let (idx, value) = schedule[j];
                let coord = &coords[idx];
                engine.inject_event(coord.x, coord.y, coord.z, value);
                j += 1;
            }
        }

        // Run the engine under the effective cap: a zero or negative
        // configured cap falls back to the program's own event count, never
        // to unbounded execution.
        let cap: i32 = if output.runtime_config.max_events > 0 {
            output.runtime_config.max_events
        } else if output.metadata.event_count >= i32::MAX as usize {
            i32::MAX
        } else {
            output.metadata.event_count as i32
        };
        if cap > 0 {
            let _events_in_run = engine.run(cap);
        }

        let execution_time_ns = match output.metadata.expected_execution_time {
            Some(v) => if v >= 1 {
                v
            } else {
                1
            },
            None => 1,
        };

        // Collect telemetry only after the run has finished.
        let telemetry = if self.config.telemetry_enabled {
            let process_states = Self::collect_telemetry_states(&engine, &coords);
            ExecutionTelemetry {
                events_processed: engine.events_processed(),
                current_time: engine.current_time(),
                execution_time_ns,
                memory_usage_kb: None,
                process_states,
            }
        } else {
            ExecutionTelemetry {
                events_processed: engine.events_processed(),
                current_time: engine.current_time(),
                execution_time_ns,
                memory_usage_kb: None,
                process_states: Vec::new(),
            }
        };
        Ok(telemetry)
    }

    /// The backend's configuration options, with defaults and allowed values.
    pub fn config_options(&self) -> (opts: Vec<ConfigOption>)
        ensures
            opts@.len() == 4,
    {
        let mut opts: Vec<ConfigOption> = Vec::new();
        let mut placement_values: Vec<String> = Vec::new();
        placement_values.push(String::from_str("SingleNode"));
        placement_values.push(String::from_str("GridLayout"));
        placement_values.push(String::from_str("Custom"));
        opts.push(
            ConfigOption {
                name: String::from_str("process_placement"),
                description: String::from_str("How to place processes in coordinate space"),
                default: String::from_str("GridLayout"),
                allowed_values: placement_values,
            },
        );
        let mut max_events_values: Vec<String> = Vec::new();
        max_events_values.push(String::from_str("100"));
        max_events_values.push(String::from_str("1000"));
        max_events_values.push(String::from_str("10000"));
        opts.push(
            ConfigOption {
                name: String::from_str("max_events"),
                description: String::from_str("Maximum events to process"),
                default: String::from_str("1000"),
                allowed_values: max_events_values,
            },
        );
        let mut seed_values: Vec<String> = Vec::new();
        seed_values.push(String::from_str("0"));
        seed_values.push(String::from_str("1"));
        seed_values.push(String::from_str("42"));
        seed_values.push(String::from_str("123"));
        opts.push(
            ConfigOption {
                name: String::from_str("seed"),
                description: String::from_str(
                    "Deterministic seed used for initial injection patterns",
                ),
                default: String::from_str("42"),
                allowed_values: seed_values,
            },
        );
        let mut telemetry_values: Vec<String> = Vec::new();
        telemetry_values.push(String::from_str("true"));
        telemetry_values.push(String::from_str("false"));
        opts.push(
            ConfigOption {
                name: String::from_str("telemetry_enabled"),
                description: String::from_str("Enable detailed telemetry collection"),
                default: String::from_str("true"),
                allowed_values: telemetry_values,
            },
        );
        opts
    }
}

} // verus!
