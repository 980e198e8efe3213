//! Shared backend machinery: runtime configuration, placement strategies,
//! generated-output descriptions, telemetry, backend errors, and the
//! deterministic placement arithmetic used by code generation and execution.

use vstd::prelude::*;
use vstd::multiset::Multiset;
use crate::ir::{Coord, IrError, IrProgram, coord_valid};
use crate::text::lex_lt;

verus! {

/// How to place processes in coordinate space.
#[derive(Debug)]
pub enum ProcessPlacement {
    /// Single node at origin.
    SingleNode,
    /// Grid layout based on process count.
    GridLayout { spacing: i32 },
    /// Custom coordinate mapping, one entry per process name.
    Custom(Vec<(String, Coord)>),
}

/// Two placements are interchangeable when they agree on strategy, spacing,
/// and the views of any custom entries: every placement-derived quantity in
/// this crate is a function of exactly that much.
pub open spec fn placement_eq(a: ProcessPlacement, b: ProcessPlacement) -> bool {
    match (a, b) {
        (ProcessPlacement::SingleNode, ProcessPlacement::SingleNode) => true,
        (
            ProcessPlacement::GridLayout { spacing: sa },
            ProcessPlacement::GridLayout { spacing: sb },
        ) => sa == sb,
        (ProcessPlacement::Custom(ma), ProcessPlacement::Custom(mb)) => entry_views(ma@)
            == entry_views(mb@),
        _ => false,
    }
}

impl Clone for ProcessPlacement {
    fn clone(&self) -> (r: Self)
        ensures
            placement_eq(*self, r),
    {
        match self {
            ProcessPlacement::SingleNode => ProcessPlacement::SingleNode,
            ProcessPlacement::GridLayout { spacing } => ProcessPlacement::GridLayout {
                spacing: *spacing,
            },
            ProcessPlacement::Custom(m) => {
                let mut copy: Vec<(String, Coord)> = Vec::new();
                let mut i: usize = 0;
                while i < m.len()
                    invariant
                        i <= m@.len(),
                        copy@.len() == i,
                        forall|j: int|
                            0 <= j < i ==> #[trigger] entry_view(copy@[j]) == entry_view(m@[j]),
                    decreases m@.len() - i,
                {
                    let name = m[i].0.clone();
                    copy.push((name, m[i].1));
                    i += 1;
                }
                proof {
                    assert(entry_views(copy@) =~~= entry_views(m@));
                }
                ProcessPlacement::Custom(copy)
            },
        }
    }
}

/// Event ordering guarantees.
#[derive(Debug, Clone)]
pub enum EventOrdering {
    /// FIFO ordering within the same timestamp.
    Fifo,
    /// Deterministic tie-breaking by coordinates.
    Deterministic,
}

/// Runtime execution configuration.
#[derive(Debug, Clone)]
pub struct RuntimeConfig {
    /// Maximum events to process.
    pub max_events: i32,
    /// Process placement hint.
    pub process_placement: ProcessPlacement,
    /// Event ordering configuration.
    pub event_ordering: EventOrdering,
}

impl Default for RuntimeConfig {
    /// The default runtime configuration: 10000 events, one node at the
    /// origin, deterministic ordering.
    fn default() -> (d: Self)
        ensures
            d.max_events == 10000,
            d.process_placement is SingleNode,
            d.event_ordering is Deterministic,
    {
        RuntimeConfig {
            max_events: 10000,
            process_placement: ProcessPlacement::SingleNode,
            event_ordering: EventOrdering::Deterministic,
        }
    }
}

/// Metadata for validation and debugging.
#[derive(Debug, Clone)]
pub struct CodeGenMetadata {
    pub source_name: String,
    /// Number of processes the IR declares.
    pub process_count: usize,
    /// Number of processes the backend will actually run; derived, never
    /// taken verbatim from the IR's process list except as a fallback.
    pub runtime_process_count: usize,
    pub event_count: usize,
    pub expected_execution_time: Option<u64>,
}

/// Output artifacts from code generation: named textual files, the runtime
/// configuration, and derived metadata.
#[derive(Debug, Clone)]
pub struct CodeGenOutput {
    /// Generated source files, as (file name, content) pairs.
    pub files: Vec<(String, String)>,
    /// Runtime execution configuration.
    pub runtime_config: RuntimeConfig,
    /// Metadata for validation.
    pub metadata: CodeGenMetadata,
}

/// Backend-specific error types.
#[derive(Debug, Clone)]
pub enum BackendError {
    IrError(IrError),
    CodegenFailed(String),
    RuntimeError(String),
    ValidationError(String),
}

impl BackendError {
    /// A human-readable description of the error.
    pub fn message(&self) -> (m: String) {
        match self {
            BackendError::IrError(e) => String::from_str("IR error: ").concat(
                e.message().as_str(),
            ),
            BackendError::CodegenFailed(s) => String::from_str("Code generation failed: ").concat(
                s.as_str(),
            ),
            BackendError::RuntimeError(s) => String::from_str(
                "Runtime execution failed: ",
            ).concat(s.as_str()),
            BackendError::ValidationError(s) => String::from_str("Validation failed: ").concat(
                s.as_str(),
            ),
        }
    }
}

/// Telemetry from runtime execution. `process_states` maps engine node ids
/// to process states, sorted by node id with each id appearing once.
#[derive(Debug, Clone)]
pub struct ExecutionTelemetry {
    pub events_processed: u64,
    pub current_time: u64,
    pub execution_time_ns: u64,
    pub memory_usage_kb: Option<u64>,
    pub process_states: Vec<(usize, i32)>,
}

/// Configuration option for backends.
#[derive(Debug, Clone)]
pub struct ConfigOption {
    pub name: String,
    pub description: String,
    pub default: String,
    pub allowed_values: Vec<String>,
}

/// Every process coordinate declared by the program is within bounds.
pub open spec fn all_coords_valid(program: IrProgram) -> bool {
    forall|i: int|
        0 <= i < program.processes.len() ==> coord_valid(
            #[trigger] program.processes[i].coord.x as int,
            program.processes[i].coord.y as int,
            program.processes[i].coord.z as int,
        )
}

/// Validate an IR program for backend compatibility: every declared
/// coordinate must be in bounds and the declared process count must not
/// exceed the declared resource ceiling.
pub fn validate_program(program: &IrProgram) -> (r: Result<(), BackendError>)
    ensures
        r is Ok <==> (all_coords_valid(*program) && program.processes.len()
            <= program.resources.max_processes),
        r is Err ==> r.get_Err_0() is ValidationError,
{
    let mut i: usize = 0;
    while i < program.processes.len()
        invariant
            i <= program.processes@.len(),
            forall|j: int|
                0 <= j < i ==> coord_valid(
                    #[trigger] program.processes@[j].coord.x as int,
                    program.processes@[j].coord.y as int,
                    program.processes@[j].coord.z as int,
                ),
        decreases program.processes@.len() - i,
    {
        if !program.processes[i].coord.is_valid() {
            let msg = String::from_str("Process ").concat(
                program.processes[i].name.as_str(),
            ).concat(" has invalid coordinate");
            return Err(BackendError::ValidationError(msg));
        }
        i += 1;
    }
    if program.processes.len() > program.resources.max_processes {
        return Err(BackendError::ValidationError(String::from_str("Too many processes")));
    }
    Ok(())
}

/// The side of the smallest square grid with at least `n` cells, scanning
/// upward from `g`; the scan also stops once `g` reaches `n`, which for
/// positive `g` already satisfies `g * g >= n`.
pub open spec fn grid_dim_from(n: int, g: int) -> int
    decreases n - g,
{
    if g * g >= n || g >= n {
        g
    } else {
        grid_dim_from(n, g + 1)
    }
}

/// The grid side used for `n` processes: the smallest `g >= 1` with
/// `g * g >= n` (and 1 when `n <= 1`).
pub open spec fn grid_dim(n: int) -> int {
    grid_dim_from(n, 1)
}

/// The grid side is at least 1, its square covers `n`, and it is minimal.
pub proof fn lemma_grid_dim_bounds(n: int)
    requires
        1 <= n,
    ensures
        1 <= grid_dim(n),
        grid_dim(n) * grid_dim(n) >= n,
        grid_dim(n) == 1 || (grid_dim(n) - 1) * (grid_dim(n) - 1) < n,
        grid_dim(n) <= n,
{
    lemma_grid_dim_from_bounds(n, 1);
}

proof fn lemma_grid_dim_from_bounds(n: int, g: int)
    requires
        1 <= g <= n,
        g == 1 || (g - 1) * (g - 1) < n,
    ensures
        g <= grid_dim_from(n, g) <= n,
        grid_dim_from(n, g) * grid_dim_from(n, g) >= n,
        grid_dim_from(n, g) == 1 || (grid_dim_from(n, g) - 1) * (grid_dim_from(n, g) - 1) < n,
    decreases n - g,
{
    if g * g >= n || g >= n {
        if g >= n {
            assert(g * g >= n) by (nonlinear_arith)
                requires 1 <= g && g >= n;
        }
    } else {
        lemma_grid_dim_from_bounds(n, g + 1);
    }
}

/// Processes placed on a grid never overflow `i32` coordinates when the
/// spacing is within this range: grid indices stay at or below 46, and
/// 46 * 40_000_000 fits in an `i32`.
pub open spec fn spacing_ok(s: int) -> bool {
    -40_000_000 <= s <= 40_000_000
}

/// Compute the grid side for `n` processes: the smallest positive integer
/// whose square is at least `n`.
pub fn grid_size(n: usize) -> (g: i32)
    requires
        1 <= n <= 2048,
    ensures
        g as int == grid_dim(n as int),
        1 <= g <= 46,
        g as int * g as int >= n as int,
{
    proof {
        lemma_grid_dim_bounds(n as int);
    }
    let mut g: i32 = 1;
    loop
        invariant
            1 <= g <= 46,
            1 <= n <= 2048,
            grid_dim(n as int) == grid_dim_from(n as int, g as int),
            g == 1 || (g - 1) * (g - 1) < n,
        ensures
            1 <= g <= 46,
            g as int == grid_dim(n as int),
            g as int * g as int >= n as int,
        decreases 46 - g,
    {
        let gu = g as usize;
        proof {
            assert(gu * gu <= 2116) by (nonlinear_arith)
                requires gu <= 46;
        }
        if gu * gu >= n {
            proof {
                assert(grid_dim_from(n as int, g as int) == g as int);
            }
            break;
        }
        proof {
            assert(g < n) by (nonlinear_arith)
                requires 1 <= g && g * g < n;
            assert(g + 1 <= 46) by (nonlinear_arith)
                requires 1 <= g && g * g < n <= 2048;
            assert(grid_dim_from(n as int, g as int) == grid_dim_from(n as int, g as int + 1));
        }
        g += 1;
    }
    g
}

/// The coordinates of the `i`-th process in a grid of `n` processes scaled
/// by `spacing`: row-major order, z fixed at 0.
pub open spec fn grid_x(n: int, spacing: int, i: int) -> int {
    (i % grid_dim(n)) * spacing
}

/// The y coordinate of the `i`-th grid cell.
pub open spec fn grid_y(n: int, spacing: int, i: int) -> int {
    (i / grid_dim(n)) * spacing
}

/// Generate the grid placement for `n` processes: index `i` maps to
/// `((i mod g) * spacing, (i div g) * spacing, 0)` where `g` is the grid side.
pub fn grid_coords(n: usize, spacing: i32) -> (v: Vec<Coord>)
    requires
        1 <= n <= 2048,
        spacing_ok(spacing as int),
    ensures
        v@.len() == n,
        forall|i: int|
            0 <= i < n ==> {
                &&& (#[trigger] v@[i]).x as int == grid_x(n as int, spacing as int, i)
                &&& v@[i].y as int == grid_y(n as int, spacing as int, i)
                &&& v@[i].z == 0
            },
{
    let g = grid_size(n);
    let mut v: Vec<Coord> = Vec::new();
    let mut i: usize = 0;
    while i < n
        invariant
            i <= n <= 2048,
            spacing_ok(spacing as int),
            1 <= g <= 46,
            g as int == grid_dim(n as int),
            g as int * g as int >= n as int,
            v@.len() == i,
            forall|j: int|
                0 <= j < i ==> {
                    &&& (#[trigger] v@[j]).x as int == grid_x(n as int, spacing as int, j)
                    &&& v@[j].y as int == grid_y(n as int, spacing as int, j)
                    &&& v@[j].z == 0
                },
        decreases n - i,
    {
        let xi = (i as i32) % g;
        let yi = (i as i32) / g;
        proof {
            assert(0 <= xi < g);
            assert(0 <= yi <= 46) by (nonlinear_arith)
                requires
                    0 <= i < n <= 2048,
                    1 <= g <= 46,
                    g as int * g as int >= n as int,
                    yi == i as i32 / g,
            ;
            assert(-1_880_000_000 <= xi as int * spacing as int <= 1_880_000_000)
                by (nonlinear_arith)
                requires 0 <= xi <= 46 && spacing_ok(spacing as int);
            assert(-1_880_000_000 <= yi as int * spacing as int <= 1_880_000_000)
                by (nonlinear_arith)
                requires 0 <= yi <= 46 && spacing_ok(spacing as int);
        }
        let x = xi * spacing;
        let y = yi * spacing;
        v.push(Coord { x, y, z: 0 });
        i += 1;
    }
    v
}

/// Generate a deterministic coordinate assignment for a list of named
/// processes: the `i`-th process is placed on the unscaled grid.
pub fn generate_process_coords(processes: &Vec<crate::ir::IrProcess>) -> (v: Vec<(String, Coord)>)
    requires
        1 <= processes@.len() <= 2048,
    ensures
        v@.len() == processes@.len(),
        forall|i: int|
            0 <= i < v@.len() ==> {
                &&& (#[trigger] v@[i]).0@ == processes@[i].name@
                &&& v@[i].1.x as int == grid_x(processes@.len() as int, 1, i)
                &&& v@[i].1.y as int == grid_y(processes@.len() as int, 1, i)
                &&& v@[i].1.z == 0
            },
{
    let coords = grid_coords(processes.len(), 1);
    let mut v: Vec<(String, Coord)> = Vec::new();
    let mut i: usize = 0;
    while i < processes.len()
        invariant
            i <= processes@.len(),
            coords@.len() == processes@.len(),
            forall|j: int|
                0 <= j < processes@.len() ==> {
                    &&& (#[trigger] coords@[j]).x as int == grid_x(processes@.len() as int, 1, j)
                    &&& coords@[j].y as int == grid_y(processes@.len() as int, 1, j)
                    &&& coords@[j].z == 0
                },
            v@.len() == i,
            forall|j: int|
                0 <= j < i ==> {
                    &&& (#[trigger] v@[j]).0@ == processes@[j].name@
                    &&& v@[j].1 == coords@[j]
                },
        decreases processes@.len() - i,
    {
        let name = processes[i].name.clone();
        proof {
            assert(name@ == processes@[i as int].name@);
        }
        v.push((name, coords[i]));
        i += 1;
    }
    v
}


/// Grid placement produces distinct coordinates: for a nonzero spacing, two
/// different indices in [0, n) land on different cells of the
/// ceil(sqrt(n))-sided grid, scaled by the spacing, at z = 0.
pub proof fn lemma_grid_coords_distinct(n: int, s: int, i: int, j: int)
    requires
        1 <= n <= 2048,
        s != 0,
        0 <= i < n,
        0 <= j < n,
        i != j,
    ensures
        grid_x(n, s, i) != grid_x(n, s, j) || grid_y(n, s, i) != grid_y(n, s, j),
{
    let g = grid_dim(n);
    lemma_grid_dim_bounds(n);
    vstd::arithmetic::div_mod::lemma_fundamental_div_mod(i, g);
    vstd::arithmetic::div_mod::lemma_fundamental_div_mod(j, g);
    vstd::arithmetic::div_mod::lemma_mod_bound(i, g);
    vstd::arithmetic::div_mod::lemma_mod_bound(j, g);
    if i % g == j % g && i / g == j / g {
        assert(i == g * (i / g) + i % g);
        assert(j == g * (j / g) + j % g);
        assert(false);
    }
    if i % g != j % g {
        assert((i % g) * s != (j % g) * s) by (nonlinear_arith)
            requires s != 0 && i % g != j % g;
    } else {
        assert((i / g) * s != (j / g) * s) by (nonlinear_arith)
            requires s != 0 && i / g != j / g;
    }
}

/// Entries are in non-decreasing lexicographic order of their names.
pub open spec fn names_sorted(s: Seq<(String, Coord)>) -> bool {
    forall|i: int, j: int| 0 <= i < j < s.len() ==> !lex_lt(#[trigger] s[j].0@, #[trigger] s[i].0@)
}

/// A placement entry reduced to its mathematical content: the name's
/// character sequence and the coordinate.
pub open spec fn entry_view(e: (String, Coord)) -> (Seq<char>, Coord) {
    (e.0@, e.1)
}

/// The views of a sequence of placement entries.
pub open spec fn entry_views(s: Seq<(String, Coord)>) -> Seq<(Seq<char>, Coord)> {
    s.map_values(|e: (String, Coord)| entry_view(e))
}

/// View-level entries in non-decreasing lexicographic name order.
pub open spec fn view_names_sorted(s: Seq<(Seq<char>, Coord)>) -> bool {
    forall|i: int, j: int| 0 <= i < j < s.len() ==> !lex_lt(#[trigger] s[j].0, #[trigger] s[i].0)
}

/// No two entries share a name: the invariant a name-keyed placement map
/// carries, under which the sorted order of its entries is unique.
pub open spec fn names_distinct(s: Seq<(String, Coord)>) -> bool {
    forall|i: int, j: int| 0 <= i < j < s.len() ==> (#[trigger] s[i]).0@ != (#[trigger] s[j]).0@
}


/// View-level entries with pairwise distinct names.
pub open spec fn view_names_distinct(s: Seq<(Seq<char>, Coord)>) -> bool {
    forall|i: int, j: int| 0 <= i < j < s.len() ==> (#[trigger] s[i]).0 != (#[trigger] s[j]).0
}

/// Under distinct names the sorted arrangement of a set of placement
/// entries is unique: two name-sorted, duplicate-free sequences with the
/// same entries are the same sequence. The generated artifact text is
/// therefore a function of the placement alone.
pub proof fn lemma_sorted_views_unique(a: Seq<(Seq<char>, Coord)>, b: Seq<(Seq<char>, Coord)>)
    requires
        view_names_sorted(a),
        view_names_sorted(b),
        view_names_distinct(a),
        view_names_distinct(b),
        a.to_multiset() == b.to_multiset(),
    ensures
        a == b,
    decreases a.len(),
{
    broadcast use vstd::seq_lib::group_to_multiset_ensures;

    a.to_multiset_ensures();
    b.to_multiset_ensures();
    assert(a.len() == b.len());
    if a.len() == 0 {
        assert(a =~= b);
    } else {
        // The head of each sequence occurs in the other.
        assert(a.contains(a[0]));
        assert(b.to_multiset().count(a[0]) > 0);
        assert(b.contains(a[0]));
        let j = choose|j: int| 0 <= j < b.len() && b[j] == a[0];
        assert(b.contains(b[0]));
        assert(a.to_multiset().count(b[0]) > 0);
        assert(a.contains(b[0]));
        let i = choose|i: int| 0 <= i < a.len() && a[i] == b[0];
        // Each head is no greater than the other, so the names agree.
        assert(!lex_lt(a[0].0, b[0].0)) by {
            if j > 0 {
                assert(!lex_lt(b[j].0, b[0].0));
            } else {
                crate::text::lemma_lex_lt_irreflexive(b[0].0);
            }
        }
        assert(!lex_lt(b[0].0, a[0].0)) by {
            if i > 0 {
                assert(!lex_lt(a[i].0, a[0].0));
            } else {
                crate::text::lemma_lex_lt_irreflexive(a[0].0);
            }
        }
        if a[0].0 != b[0].0 {
            crate::text::lemma_lex_lt_total(a[0].0, b[0].0);
        }
        assert(a[0].0 == b[0].0);
        // Distinct names pin the occurrence to the head.
        assert(b[j].0 == b[0].0);
        if j != 0 {
            assert(false);
        }
        assert(a[0] == b[0]);
        // Peel the heads and recurse.
        assert(a.remove(0).to_multiset() =~= a.to_multiset().remove(a[0]));
        assert(b.remove(0).to_multiset() =~= b.to_multiset().remove(b[0]));
        assert(a.remove(0) =~= a.skip(1));
        assert(b.remove(0) =~= b.skip(1));
        assert(a.skip(1).to_multiset() == b.skip(1).to_multiset());
        assert(view_names_sorted(a.skip(1))) by {
            assert(forall|x: int, y: int|
                0 <= x < y < a.skip(1).len() ==> a.skip(1)[x] == a[x + 1] && a.skip(1)[y] == a[y
                    + 1]);
        }
        assert(view_names_sorted(b.skip(1))) by {
            assert(forall|x: int, y: int|
                0 <= x < y < b.skip(1).len() ==> b.skip(1)[x] == b[x + 1] && b.skip(1)[y] == b[y
                    + 1]);
        }
        assert(view_names_distinct(a.skip(1)));
        assert(view_names_distinct(b.skip(1)));
        lemma_sorted_views_unique(a.skip(1), b.skip(1));
        assert forall|k: int| 0 <= k < a.len() implies a[k] == b[k] by {
            if k > 0 {
                assert(a.skip(1)[k - 1] == a[k]);
                assert(b.skip(1)[k - 1] == b[k]);
            }
        }
        assert(a =~= b);
    }
}


/// Distinct names carry across to any rearrangement of the same entries.
pub proof fn lemma_multiset_names_distinct(a: Seq<(Seq<char>, Coord)>, b: Seq<(Seq<char>, Coord)>)
    requires
        view_names_distinct(a),
        a.to_multiset() == b.to_multiset(),
    ensures
        view_names_distinct(b),
{
    broadcast use vstd::seq_lib::group_to_multiset_ensures;

    a.to_multiset_ensures();
    b.to_multiset_ensures();
    assert forall|j1: int, j2: int| 0 <= j1 < j2 < b.len() implies (#[trigger] b[j1]).0 != (
    #[trigger] b[j2]).0 by {
        if b[j1].0 == b[j2].0 {
            if b[j1] == b[j2] {
                // The same entry twice would be counted twice.
                let s0 = b.subrange(0, j2);
                let s1 = b.subrange(j2, b.len() as int);
                assert(b =~= s0 + s1);
                vstd::seq_lib::lemma_multiset_commutative(s0, s1);
                assert(s0[j1] == b[j1]);
                assert(s0.contains(b[j1]));
                assert(s1[0] == b[j2]);
                assert(s1.contains(b[j1]));
                s0.to_multiset_ensures();
                s1.to_multiset_ensures();
                assert(b.to_multiset().count(b[j1]) >= 2);
                // But the distinct-named entries each occur once.
                assert(a.no_duplicates()) by {
                    assert forall|x: int, y: int|
                        0 <= x < y < a.len() implies a[x] != a[y] by {
                        assert(a[x].0 != a[y].0);
                    }
                }
                a.lemma_multiset_has_no_duplicates();
                assert(a.to_multiset().count(b[j1]) > 0);
                assert(a.to_multiset().contains(b[j1]));
                assert(false);
            } else {
                // Two different entries sharing a name would both occur
                // among the distinct-named entries.
                assert(b.contains(b[j1]));
                assert(a.to_multiset().count(b[j1]) > 0);
                assert(a.contains(b[j1]));
                let i1 = choose|i: int| 0 <= i < a.len() && a[i] == b[j1];
                assert(b.contains(b[j2]));
                assert(a.to_multiset().count(b[j2]) > 0);
                assert(a.contains(b[j2]));
                let i2 = choose|i: int| 0 <= i < a.len() && a[i] == b[j2];
                assert(i1 != i2);
                assert(a[i1].0 == a[i2].0);
                assert(false);
            }
        }
    }
}

/// Copy placement entries, preserving their views: names by character
/// content, coordinates by value.
pub fn clone_entries(entries: &Vec<(String, Coord)>) -> (r: Vec<(String, Coord)>)
    ensures
        entry_views(r@) == entry_views(entries@),
{
    let mut copy: Vec<(String, Coord)> = Vec::new();
    let mut i: usize = 0;
    while i < entries.len()
        invariant
            i <= entries@.len(),
            copy@.len() == i,
            forall|j: int| 0 <= j < i ==> #[trigger] entry_view(copy@[j]) == entry_view(
                entries@[j],
            ),
        decreases entries@.len() - i,
    {
        let name = entries[i].0.clone();
        copy.push((name, entries[i].1));
        i += 1;
    }
    proof {
        assert(entry_views(copy@) =~~= entry_views(entries@));
    }
    copy
}

/// Sort placement entries by process name, lexicographically. Consumers that
/// need indexed order sort names first so iteration is deterministic across
/// runs and across languages.
pub fn sort_entries_by_name(entries: Vec<(String, Coord)>) -> (r: Vec<(String, Coord)>)
    ensures
        names_sorted(r@),
        view_names_sorted(entry_views(r@)),
        r@.to_multiset() == entries@.to_multiset(),
        entry_views(r@).to_multiset() == entry_views(entries@).to_multiset(),
        r@.len() == entries@.len(),
{
    broadcast use vstd::seq_lib::group_to_multiset_ensures;

    let ghost input = entries@;
    let mut rest = entries;
    let mut out: Vec<(String, Coord)> = Vec::new();
    while rest.len() > 0
        invariant
            out@.to_multiset().add(rest@.to_multiset()) =~= input.to_multiset(),
            entry_views(out@).to_multiset().add(entry_views(rest@).to_multiset())
                =~= entry_views(input).to_multiset(),
            out@.len() + rest@.len() == input.len(),
            names_sorted(out@),
            forall|i: int, j: int|
                0 <= i < out@.len() && 0 <= j < rest@.len() ==> !lex_lt(
                    #[trigger] rest@[j].0@,
                    #[trigger] out@[i].0@,
                ),
        decreases rest@.len(),
    {
        // Find the index of the minimal remaining name.
        let mut m: usize = 0;
        let mut k: usize = 1;
        proof {
            crate::text::lemma_lex_lt_irreflexive(rest@[0].0@);
        }
        while k < rest.len()
            invariant
                rest@.len() > 0,
                m < k <= rest@.len(),
                forall|j: int| 0 <= j < k ==> !lex_lt(#[trigger] rest@[j].0@, rest@[m as int].0@),
            decreases rest@.len() - k,
        {
            if crate::text::str_lt(rest[k].0.as_str(), rest[m].0.as_str()) {
                proof {
                    assert forall|j: int| 0 <= j < k implies !lex_lt(
                        #[trigger] rest@[j].0@,
                        rest@[k as int].0@,
                    ) by {
                        if lex_lt(rest@[j].0@, rest@[k as int].0@) {
                            crate::text::lemma_lex_lt_transitive(
                                rest@[j].0@,
                                rest@[k as int].0@,
                                rest@[m as int].0@,
                            );
                        }
                    }
                }
                m = k;
            }
            proof {
                crate::text::lemma_lex_lt_irreflexive(rest@[m as int].0@);
            }
            k += 1;
        }
        let ghost old_out = out@;
        let ghost old_rest = rest@;
        let e = rest.remove(m);
        out.push(e);
        proof {
            old_out.to_multiset_ensures();
            old_rest.to_multiset_ensures();
            assert(out@ == old_out.push(e));
            assert(rest@ == old_rest.remove(m as int));
            assert(old_out.push(e).to_multiset() =~= old_out.to_multiset().insert(e));
            assert(old_rest.remove(m as int).to_multiset() =~= old_rest.to_multiset().remove(
                old_rest[m as int],
            ));
            assert(e == old_rest[m as int]);
            assert(old_rest.to_multiset().count(e) > 0);
            // The same bookkeeping at the view level.
            entry_views(old_out).to_multiset_ensures();
            entry_views(old_rest).to_multiset_ensures();
            assert(entry_views(out@) =~= entry_views(old_out).push(entry_view(e)));
            assert(entry_views(rest@) =~= entry_views(old_rest).remove(m as int));
            assert(entry_views(old_out).push(entry_view(e)).to_multiset() =~= entry_views(
                old_out,
            ).to_multiset().insert(entry_view(e)));
            assert(entry_views(old_rest).remove(m as int).to_multiset() =~= entry_views(
                old_rest,
            ).to_multiset().remove(entry_views(old_rest)[m as int]));
            assert(entry_views(old_rest)[m as int] == entry_view(e));
            assert(entry_views(old_rest).to_multiset().count(entry_view(e)) > 0);
            assert(entry_views(out@).to_multiset().add(entry_views(rest@).to_multiset())
                =~= entry_views(old_out).to_multiset().add(entry_views(old_rest).to_multiset()));
            assert(out@.to_multiset().add(rest@.to_multiset()) =~= old_out.to_multiset().add(
                old_rest.to_multiset(),
            ));
            // Every element remaining in `rest` was at some index other than
            // `m`, so the minimality of `m` carries over.
            assert forall|i: int, j: int|
                0 <= i < out@.len() && 0 <= j < rest@.len() implies !lex_lt(
                #[trigger] rest@[j].0@,
                #[trigger] out@[i].0@,
            ) by {
                let jj = if j < m { j } else { j + 1 };
                assert(rest@[j] == old_rest[jj]);
                if i < old_out.len() {
                    assert(!lex_lt(old_rest[jj].0@, old_out[i].0@));
                } else {
                    assert(out@[i] == e);
                    assert(!lex_lt(old_rest[jj].0@, old_rest[m as int].0@));
                }
            }
            assert(names_sorted(out@)) by {
                assert forall|i: int, j: int| 0 <= i < j < out@.len() implies !lex_lt(
                    #[trigger] out@[j].0@,
                    #[trigger] out@[i].0@,
                ) by {
                    if j == out@.len() - 1 {
                        assert(out@[j] == e);
                        assert(!lex_lt(old_rest[m as int].0@, old_out[i].0@));
                    }
                }
            }
        }
    }
    proof {
        assert(rest@.to_multiset() =~= Multiset::empty());
        assert(out@.to_multiset() =~= input.to_multiset());
        assert(entry_views(rest@) =~= Seq::empty());
        assert(entry_views(rest@).to_multiset() =~= Multiset::empty());
        assert(entry_views(out@).to_multiset() =~= entry_views(input).to_multiset());
    }
    out
}

} // verus!
