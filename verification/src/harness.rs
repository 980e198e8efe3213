//! Cross-implementation parity harness: runs a program through this
//! backend, parses the reference implementation's reported results, and
//! certifies field-by-field agreement between the two runs.

use vstd::prelude::*;
use crate::backend::{spacing_ok, ProcessPlacement};
use crate::betti_rdl::{
    coords_of_placement, executed_events, states_sorted, table_keys_of, BettiConfig,
    BettiRdlBackend,
};
use crate::text::{parse_u64, str_to_chars};

verus! {

/// A flattened, serializable snapshot of one run.
#[derive(Debug, Clone)]
pub struct ExecutionResult {
    pub seed_used: u64,
    pub max_events: i32,
    pub runtime_processes: usize,
    pub spacing: i32,
    pub events_processed: u64,
    pub current_time: u64,
    pub execution_time_ns: u64,
    /// Process states keyed by node id, sorted by id, each id once.
    pub process_states: Vec<(usize, i32)>,
}

/// The outcome of comparing a local run against the reference run.
#[derive(Debug, Clone)]
pub struct ComparisonResult {
    pub grey: ExecutionResult,
    pub cpp: ExecutionResult,
    pub events_match: bool,
    pub current_time_match: bool,
    pub state_differences: Vec<String>,
    pub parity_achieved: bool,
}

/// Harness configuration.
#[derive(Debug, Clone)]
pub struct HarnessConfig {
    pub seed: u64,
    pub max_events: i32,
    pub spacing: i32,
    /// Path of the demo program, for the caller that reads it.
    pub demo_path: String,
    /// If set, the caller uses this executable directly instead of building
    /// the reference project.
    pub cpp_exe_override: Option<String>,
}

impl Default for HarnessConfig {
    /// The default harness run: seed 42, 1000 events, unit spacing, the
    /// bundled demo program, reference built from source.
    fn default() -> (d: Self)
        ensures
            d.seed == 42,
            d.max_events == 1000,
            d.spacing == 1,
            d.demo_path@ == "examples/sir_demo.grey"@,
            d.cpp_exe_override is None,
    {
        HarnessConfig {
            seed: 42,
            max_events: 1000,
            spacing: 1,
            demo_path: String::from_str("examples/sir_demo.grey"),
            cpp_exe_override: None,
        }
    }
}

/// A harness failure, tagged with the pipeline stage it arose in.
#[derive(Debug, Clone)]
pub enum HarnessError {
    CompileFailed(String),
    IrFailed(String),
    CodegenFailed(String),
    ExecutionFailed(String),
    ReferenceOutput(String),
}

impl HarnessError {
    /// A human-readable description of the error.
    pub fn message(&self) -> (m: String) {
        match self {
            HarnessError::CompileFailed(s) => String::from_str("compilation failed: ").concat(
                s.as_str(),
            ),
            HarnessError::IrFailed(s) => String::from_str("IR build failed: ").concat(s.as_str()),
            HarnessError::CodegenFailed(s) => String::from_str("codegen failed: ").concat(
                s.as_str(),
            ),
            HarnessError::ExecutionFailed(s) => String::from_str("execution failed: ").concat(
                s.as_str(),
            ),
            HarnessError::ReferenceOutput(s) => String::from_str(
                "parsing reference output failed: ",
            ).concat(s.as_str()),
        }
    }
}

/// The two runs report the same processed-event count.
pub open spec fn spec_events_match(a: ExecutionResult, b: ExecutionResult) -> bool {
    a.events_processed == b.events_processed
}

/// The two runs report the same final clock.
pub open spec fn spec_current_time_match(a: ExecutionResult, b: ExecutionResult) -> bool {
    a.current_time == b.current_time
}

/// The state a sorted table assigns to a node id, if any.
pub open spec fn lookup_state(s: Seq<(usize, i32)>, pid: usize) -> Option<i32>
    decreases s.len(),
{
    if s.len() == 0 {
        None
    } else if s[0].0 == pid {
        Some(s[0].1)
    } else {
        lookup_state(s.skip(1), pid)
    }
}

/// Two state tables agree on every node id.
pub open spec fn states_agree(a: Seq<(usize, i32)>, b: Seq<(usize, i32)>) -> bool {
    forall|pid: usize| lookup_state(a, pid) == lookup_state(b, pid)
}

/// Identical tables agree; in particular a run always agrees with itself, so
/// self-comparison of one deterministic run yields no state differences.
pub proof fn lemma_states_agree_reflexive(a: Seq<(usize, i32)>)
    ensures
        states_agree(a, a),
{
}

/// Comparison idempotence: two runs that report the same counts, clock, and
/// state table match on every compared field, so comparing a deterministic
/// run against a repetition of itself achieves parity on events, clock, and
/// states. Execution is such a deterministic function of the generated
/// output; see the backend's determinism lemma for the counts.
pub proof fn lemma_self_comparison_matches(a: ExecutionResult, b: ExecutionResult)
    requires
        a.events_processed == b.events_processed,
        a.current_time == b.current_time,
        a.process_states@ == b.process_states@,
    ensures
        spec_events_match(a, b),
        spec_current_time_match(a, b),
        states_agree(a.process_states@, b.process_states@),
{
}

/// The text one optional state is reported as: `Some(state)` or `None`.
pub open spec fn opt_state_text(v: Option<i32>) -> Seq<char> {
    match v {
        Some(s) => "Some("@ + crate::text::dec_int(s as int) + ")"@,
        None => "None"@,
    }
}

/// The report line for one differing node id.
pub open spec fn difference_line(pid: usize, g: Option<i32>, c: Option<i32>) -> Seq<char> {
    "pid "@ + crate::text::dec_digits(pid as int) + ": grey="@ + opt_state_text(g) + " cpp="@
        + opt_state_text(c)
}

/// The report lists exactly these node ids, in order: one line per listed
/// id, each id listed once, each differing between the two tables.
pub open spec fn reported_pids(
    lines: Seq<String>,
    a: Seq<(usize, i32)>,
    b: Seq<(usize, i32)>,
    pids: Seq<usize>,
) -> bool {
    &&& pids.len() == lines.len()
    &&& (forall|k1: int, k2: int|
        0 <= k1 < k2 < pids.len() ==> (#[trigger] pids[k1]) != (#[trigger] pids[k2]))
    &&& forall|k: int|
        0 <= k < pids.len() ==> lookup_state(a, #[trigger] pids[k]) != lookup_state(b, pids[k])
            && (lines[k])@ == difference_line(
            pids[k],
            lookup_state(a, pids[k]),
            lookup_state(b, pids[k]),
        )
}

/// The report holds the difference line for this node id.
pub open spec fn reports_pid(
    lines: Seq<String>,
    a: Seq<(usize, i32)>,
    b: Seq<(usize, i32)>,
    pid: usize,
) -> bool {
    exists|k: int|
        0 <= k < lines.len() && (#[trigger] lines[k])@ == difference_line(
            pid,
            lookup_state(a, pid),
            lookup_state(b, pid),
        )
}

/// Build the difference line for one node id:
/// `pid {id}: grey={local} cpp={reference}`, with each side shown as
/// `Some(state)` or `None`.
fn format_state_difference(pid: usize, g: Option<i32>, c: Option<i32>) -> (line: String)
    ensures
        line@ == difference_line(pid, g, c),
{
    let mut line = String::from_str("pid ");
    line.append(crate::text::usize_to_string(pid).as_str());
    line.append(": grey=");
    match g {
        Some(v) => {
            line.append("Some(");
            line.append(crate::text::i32_to_string(v).as_str());
            line.append(")");
        },
        None => {
            line.append("None");
        },
    }
    line.append(" cpp=");
    match c {
        Some(v) => {
            line.append("Some(");
            line.append(crate::text::i32_to_string(v).as_str());
            line.append(")");
        },
        None => {
            line.append("None");
        },
    }
    proof {
        assert(line@ =~= difference_line(pid, g, c));
    }
    line
}

/// A key present at any index looks up successfully.
proof fn lemma_lookup_present(s: Seq<(usize, i32)>, pid: usize, k: int)
    requires
        0 <= k < s.len(),
        s[k].0 == pid,
    ensures
        lookup_state(s, pid) is Some,
    decreases k,
{
    if s[0].0 != pid {
        assert(s.skip(1)[k - 1] == s[k]);
        lemma_lookup_present(s.skip(1), pid, k - 1);
    }
}

/// A successful lookup names an index holding the id.
proof fn lemma_lookup_some_index(s: Seq<(usize, i32)>, pid: usize)
    requires
        lookup_state(s, pid) is Some,
    ensures
        exists|k: int| 0 <= k < s.len() && (#[trigger] s[k]).0 == pid,
    decreases s.len(),
{
    if s.len() > 0 {
        if s[0].0 == pid {
            assert(s[0].0 == pid);
        } else {
            lemma_lookup_some_index(s.skip(1), pid);
            let k = choose|k: int| 0 <= k < s.skip(1).len() && (#[trigger] s.skip(1)[k]).0 == pid;
            assert(s[k + 1].0 == pid);
        }
    }
}

proof fn lemma_lookup_at(s: Seq<(usize, i32)>, pid: usize, i: int)
    requires
        0 <= i <= s.len(),
        forall|j: int| 0 <= j < i ==> (#[trigger] s[j]).0 != pid,
        i < s.len() ==> s[i].0 == pid,
    ensures
        lookup_state(s, pid) == if i < s.len() {
            Some(s[i].1)
        } else {
            None::<i32>
        },
    decreases i,
{
    if i == 0 {
        if s.len() > 0 && s[0].0 != pid {
            assert(false);
        }
    } else {
        assert(s[0].0 != pid);
        lemma_lookup_at(s.skip(1), pid, i - 1);
    }
}

/// Look up a node id in a sorted state table.
fn get_state(s: &Vec<(usize, i32)>, pid: usize) -> (r: Option<i32>)
    ensures
        r == lookup_state(s@, pid),
{
    let mut i: usize = 0;
    while i < s.len()
        invariant
            i <= s@.len(),
            forall|j: int| 0 <= j < i ==> (#[trigger] s@[j]).0 != pid,
        decreases s@.len() - i,
    {
        if s[i].0 == pid {
            proof {
                lemma_lookup_at(s@, pid, i as int);
            }
            return Some(s[i].1);
        }
        i += 1;
    }
    proof {
        lemma_lookup_at(s@, pid, s@.len() as int);
    }
    None
}

/// Compare the local and reference runs field by field: event counts, final
/// clocks, and, for the union of node ids reported by either side, the two
/// per-node states. Parity holds exactly when everything matches.
#[verifier::rlimit(50)]
pub fn compare_runs(grey: ExecutionResult, cpp: ExecutionResult) -> (r: ComparisonResult)
    requires
        states_sorted(grey.process_states@),
        states_sorted(cpp.process_states@),
    ensures
        r.grey == grey,
        r.cpp == cpp,
        r.events_match == spec_events_match(grey, cpp),
        r.current_time_match == spec_current_time_match(grey, cpp),
        r.parity_achieved == (r.events_match && r.current_time_match
            && r.state_differences@.len() == 0),
        (r.state_differences@.len() == 0) == states_agree(
            grey.process_states@,
            cpp.process_states@,
        ),
        forall|k: int|
            0 <= k < r.state_differences@.len() ==> exists|pid: usize|
                lookup_state(grey.process_states@, pid) != lookup_state(
                    cpp.process_states@,
                    pid,
                ) && (#[trigger] r.state_differences@[k])@ == difference_line(
                    pid,
                    lookup_state(grey.process_states@, pid),
                    lookup_state(cpp.process_states@, pid),
                ),
        forall|pid: usize|
            lookup_state(grey.process_states@, pid) != lookup_state(cpp.process_states@, pid)
                ==> reports_pid(
                r.state_differences@,
                grey.process_states@,
                cpp.process_states@,
                pid,
            ),
        exists|pids: Seq<usize>|
            #[trigger] reported_pids(
                r.state_differences@,
                grey.process_states@,
                cpp.process_states@,
                pids,
            ),
{
    let ghost gs = grey.process_states@;
    let ghost cs = cpp.process_states@;
    let ghost mut pids: Seq<usize> = Seq::empty();
    let mut state_differences: Vec<String> = Vec::new();

    // Walk the union of node ids present on either side, in order.
    let mut i: usize = 0;
    while i < grey.process_states.len()
        invariant
            i <= gs.len(),
            gs == grey.process_states@,
            cs == cpp.process_states@,
            states_sorted(gs),
            states_sorted(cs),
            states_agree(gs, cs) ==> state_differences@.len() == 0,
            state_differences@.len() == 0 ==> forall|k: int|
                0 <= k < i ==> lookup_state(gs, (#[trigger] gs[k]).0) == lookup_state(
                    cs,
                    gs[k].0,
                ),
            forall|k: int|
                0 <= k < state_differences@.len() ==> exists|pid: usize|
                    lookup_state(gs, pid) != lookup_state(cs, pid) && (
                    #[trigger] state_differences@[k])@ == difference_line(
                        pid,
                        lookup_state(gs, pid),
                        lookup_state(cs, pid),
                    ),
            forall|k: int|
                0 <= k < i && lookup_state(gs, (#[trigger] gs[k]).0) != lookup_state(
                    cs,
                    gs[k].0,
                ) ==> reports_pid(state_differences@, gs, cs, gs[k].0),
            pids.len() == state_differences@.len(),
            forall|k: int|
                0 <= k < pids.len() ==> exists|idx: int|
                    0 <= idx < i && (#[trigger] pids[k]) == gs[idx].0,
            forall|k1: int, k2: int|
                0 <= k1 < k2 < pids.len() ==> (#[trigger] pids[k1]) != (#[trigger] pids[k2]),
            forall|k: int|
                0 <= k < pids.len() ==> lookup_state(gs, #[trigger] pids[k]) != lookup_state(
                    cs,
                    pids[k],
                ) && (state_differences@[k])@ == difference_line(
                    pids[k],
                    lookup_state(gs, pids[k]),
                    lookup_state(cs, pids[k]),
                ),
        decreases gs.len() - i,
    {
        let pid = grey.process_states[i].0;
        let g = get_state(&grey.process_states, pid);
        let c = get_state(&cpp.process_states, pid);
        if !option_i32_eq(&g, &c) {
            proof {
                assert(lookup_state(gs, pid) != lookup_state(cs, pid));
            }
            let ghost old_diffs = state_differences@;
            state_differences.push(format_state_difference(pid, g, c));
            proof {
                assert forall|q: usize| reports_pid(old_diffs, gs, cs, q) implies reports_pid(
                    state_differences@,
                    gs,
                    cs,
                    q,
                ) by {
                    let k = choose|k: int|
                        0 <= k < old_diffs.len() && (#[trigger] old_diffs[k])@ == difference_line(
                            q,
                            lookup_state(gs, q),
                            lookup_state(cs, q),
                        );
                    assert(state_differences@[k] == old_diffs[k]);
                }
                assert(state_differences@[state_differences@.len() - 1]@ == difference_line(
                    pid,
                    lookup_state(gs, pid),
                    lookup_state(cs, pid),
                ));
                let ghost old_pids = pids;
                pids = pids.push(pid);
                assert forall|k1: int, k2: int|
                    0 <= k1 < k2 < pids.len() implies (#[trigger] pids[k1]) != (
                #[trigger] pids[k2]) by {
                    if k2 == pids.len() - 1 {
                        let idx = choose|idx: int| 0 <= idx < i && old_pids[k1] == gs[idx].0;
                        assert(gs[idx].0 < gs[i as int].0);
                    }
                }
                assert forall|k: int| 0 <= k < pids.len() implies exists|idx: int|
                    0 <= idx < i + 1 && (#[trigger] pids[k]) == gs[idx].0 by {
                    if k == pids.len() - 1 {
                        assert(pids[k] == gs[i as int].0);
                    } else {
                        let idx = choose|idx: int| 0 <= idx < i && old_pids[k] == gs[idx].0;
                        assert(pids[k] == gs[idx].0);
                    }
                }
            }
        }
        i += 1;
    }
    proof {
        // Every first-pass pid is a key of the local table.
        assert forall|k: int| 0 <= k < pids.len() implies lookup_state(
            gs,
            #[trigger] pids[k],
        ) is Some by {
            let idx = choose|idx: int| 0 <= idx < gs.len() && pids[k] == gs[idx].0;
            lemma_lookup_present(gs, pids[k], idx);
        }
    }
    let mut j: usize = 0;
    while j < cpp.process_states.len()
        invariant
            j <= cs.len(),
            gs == grey.process_states@,
            cs == cpp.process_states@,
            states_sorted(gs),
            states_sorted(cs),
            states_agree(gs, cs) ==> state_differences@.len() == 0,
            state_differences@.len() == 0 ==> forall|k: int|
                0 <= k < gs.len() ==> lookup_state(gs, (#[trigger] gs[k]).0) == lookup_state(
                    cs,
                    gs[k].0,
                ),
            state_differences@.len() == 0 ==> forall|k: int|
                0 <= k < j ==> lookup_state(gs, (#[trigger] cs[k]).0) is Some || lookup_state(
                    cs,
                    cs[k].0,
                ) is None,
            forall|k: int|
                0 <= k < state_differences@.len() ==> exists|pid: usize|
                    lookup_state(gs, pid) != lookup_state(cs, pid) && (
                    #[trigger] state_differences@[k])@ == difference_line(
                        pid,
                        lookup_state(gs, pid),
                        lookup_state(cs, pid),
                    ),
            forall|k: int|
                0 <= k < gs.len() && lookup_state(gs, (#[trigger] gs[k]).0) != lookup_state(
                    cs,
                    gs[k].0,
                ) ==> reports_pid(state_differences@, gs, cs, gs[k].0),
            forall|k: int|
                0 <= k < j && lookup_state(gs, (#[trigger] cs[k]).0) is None && lookup_state(
                    cs,
                    cs[k].0,
                ) is Some ==> reports_pid(state_differences@, gs, cs, cs[k].0),
            pids.len() == state_differences@.len(),
            forall|k: int|
                0 <= k < pids.len() ==> lookup_state(gs, #[trigger] pids[k]) is Some || exists|
                    idx: int,
                |
                    0 <= idx < j && pids[k] == cs[idx].0,
            forall|k1: int, k2: int|
                0 <= k1 < k2 < pids.len() ==> (#[trigger] pids[k1]) != (#[trigger] pids[k2]),
            forall|k: int|
                0 <= k < pids.len() ==> lookup_state(gs, #[trigger] pids[k]) != lookup_state(
                    cs,
                    pids[k],
                ) && (state_differences@[k])@ == difference_line(
                    pids[k],
                    lookup_state(gs, pids[k]),
                    lookup_state(cs, pids[k]),
                ),
        decreases cs.len() - j,
    {
        let pid = cpp.process_states[j].0;
        let g = get_state(&grey.process_states, pid);
        // Only ids absent on the local side are new: matching ids were
        // already compared in the first pass.
        if g.is_none() {
            let c = get_state(&cpp.process_states, pid);
            if !option_i32_eq(&g, &c) {
                proof {
                    assert(lookup_state(gs, pid) != lookup_state(cs, pid));
                }
                let ghost old_diffs = state_differences@;
            state_differences.push(format_state_difference(pid, g, c));
            proof {
                assert forall|q: usize| reports_pid(old_diffs, gs, cs, q) implies reports_pid(
                    state_differences@,
                    gs,
                    cs,
                    q,
                ) by {
                    let k = choose|k: int|
                        0 <= k < old_diffs.len() && (#[trigger] old_diffs[k])@ == difference_line(
                            q,
                            lookup_state(gs, q),
                            lookup_state(cs, q),
                        );
                    assert(state_differences@[k] == old_diffs[k]);
                }
                assert(state_differences@[state_differences@.len() - 1]@ == difference_line(
                    pid,
                    lookup_state(gs, pid),
                    lookup_state(cs, pid),
                ));
                let ghost old_pids = pids;
                pids = pids.push(pid);
                assert forall|k1: int, k2: int|
                    0 <= k1 < k2 < pids.len() implies (#[trigger] pids[k1]) != (
                #[trigger] pids[k2]) by {
                    if k2 == pids.len() - 1 {
                        if lookup_state(gs, old_pids[k1]) is Some {
                        } else {
                            let idx = choose|idx: int|
                                0 <= idx < j && old_pids[k1] == cs[idx].0;
                            assert(cs[idx].0 < cs[j as int].0);
                        }
                    }
                }
                assert forall|k: int| 0 <= k < pids.len() implies lookup_state(
                    gs,
                    #[trigger] pids[k],
                ) is Some || exists|idx: int| 0 <= idx < j + 1 && pids[k] == cs[idx].0 by {
                    if k == pids.len() - 1 {
                        assert(pids[k] == cs[j as int].0);
                    } else {
                        if !(lookup_state(gs, old_pids[k]) is Some) {
                            let idx = choose|idx: int|
                                0 <= idx < j && old_pids[k] == cs[idx].0;
                            assert(pids[k] == cs[idx].0);
                        }
                    }
                }
            }
            }
        }
        j += 1;
    }
    proof {
        assert forall|pid: usize|
            lookup_state(gs, pid) != lookup_state(cs, pid) implies reports_pid(
            state_differences@,
            gs,
            cs,
            pid,
        ) by {
            if lookup_state(gs, pid) is Some {
                lemma_lookup_some_index(gs, pid);
                let k = choose|k: int| 0 <= k < gs.len() && (#[trigger] gs[k]).0 == pid;
                assert(lookup_state(gs, gs[k].0) != lookup_state(cs, gs[k].0));
            } else {
                assert(lookup_state(cs, pid) is Some);
                lemma_lookup_some_index(cs, pid);
                let k = choose|k: int| 0 <= k < cs.len() && (#[trigger] cs[k]).0 == pid;
                assert(lookup_state(gs, cs[k].0) is None && lookup_state(cs, cs[k].0) is Some);
            }
        }
        if state_differences@.len() == 0 {
            assert forall|pid: usize| lookup_state(gs, pid) == lookup_state(cs, pid) by {
                if lookup_state(gs, pid) is Some {
                    lemma_lookup_some_index(gs, pid);
                    let k = choose|k: int| 0 <= k < gs.len() && (#[trigger] gs[k]).0 == pid;
                    assert(lookup_state(gs, gs[k].0) == lookup_state(cs, gs[k].0));
                } else if lookup_state(cs, pid) is Some {
                    lemma_lookup_some_index(cs, pid);
                    let k = choose|k: int| 0 <= k < cs.len() && (#[trigger] cs[k]).0 == pid;
                    assert(lookup_state(gs, cs[k].0) is Some || lookup_state(
                        cs,
                        cs[k].0,
                    ) is None);
                }
            }
            assert(states_agree(gs, cs));
        }
    }

    proof {
        assert(reported_pids(state_differences@, gs, cs, pids));
    }

    let events_match = grey.events_processed == cpp.events_processed;
    let current_time_match = grey.current_time == cpp.current_time;
    let no_differences = state_differences.len() == 0;
    let parity_achieved = events_match && current_time_match && no_differences;

    let result = ComparisonResult {
        grey,
        cpp,
        events_match,
        current_time_match,
        state_differences,
        parity_achieved,
    };
    proof {
        assert(reported_pids(
            result.state_differences@,
            result.grey.process_states@,
            result.cpp.process_states@,
            pids,
        ));
    }
    result
}

/// Equality of two optional states.
fn option_i32_eq(a: &Option<i32>, b: &Option<i32>) -> (r: bool)
    ensures
        r == (a == b),
{
    match (a, b) {
        (Some(x), Some(y)) => x == y,
        (None, None) => true,
        _ => false,
    }
}


/// Whether a character is JSON whitespace.
pub open spec fn is_json_ws(c: char) -> bool {
    c == ' ' || c == '\t' || c == '\r' || c == '\n'
}


/// Position of the first non-whitespace character at or after `pos`.
pub open spec fn ws_end(chars: Seq<char>, pos: int, end: int) -> int
    decreases end - pos,
{
    if pos < end && is_json_ws(chars[pos]) {
        ws_end(chars, pos + 1, end)
    } else {
        pos
    }
}

/// Position just past the digit run starting at `pos`.
pub open spec fn digits_end(chars: Seq<char>, pos: int, end: int) -> int
    decreases end - pos,
{
    if pos < end && crate::text::is_digit(chars[pos]) {
        digits_end(chars, pos + 1, end)
    } else {
        pos
    }
}

pub proof fn lemma_digits_end_bounds(chars: Seq<char>, pos: int, end: int)
    requires
        0 <= pos <= end <= chars.len(),
    ensures
        pos <= digits_end(chars, pos, end) <= end,
        crate::text::all_digits(chars.subrange(pos, digits_end(chars, pos, end))),
    decreases end - pos,
{
    if pos < end && crate::text::is_digit(chars[pos]) {
        lemma_digits_end_bounds(chars, pos + 1, end);
        let d = digits_end(chars, pos, end);
        assert(d == digits_end(chars, pos + 1, end));
        assert forall|i: int| 0 <= i < d - pos implies crate::text::is_digit(
            #[trigger] chars.subrange(pos, d)[i],
        ) by {
            assert(chars.subrange(pos, d)[i] == chars[pos + i]);
            if i > 0 {
                assert(chars.subrange(pos + 1, d)[i - 1] == chars[pos + i]);
                assert(crate::text::is_digit(chars.subrange(pos + 1, d)[i - 1]));
            }
        }
    } else {
        assert(chars.subrange(pos, pos) =~= Seq::<char>::empty());
    }
}

/// What parsing an unsigned decimal token yields: the digit run's value and
/// the position past it, or nothing when no digit starts at `pos` or the
/// value does not fit in a `u64`.
pub open spec fn spec_u64_token(chars: Seq<char>, pos: int, end: int) -> Option<(u64, int)> {
    let d = digits_end(chars, pos, end);
    if d == pos {
        None
    } else if crate::text::dec_value(chars.subrange(pos, d)) > u64::MAX {
        None
    } else {
        Some((crate::text::dec_value(chars.subrange(pos, d)) as u64, d))
    }
}

/// What parsing a signed decimal token yields.
pub open spec fn spec_i64_token(chars: Seq<char>, pos: int, end: int) -> Option<(i64, int)> {
    if pos < end && chars[pos] == '-' {
        match spec_u64_token(chars, pos + 1, end) {
            Some((v, p)) => if v > 0x8000_0000_0000_0000u64 {
                None
            } else if v == 0x8000_0000_0000_0000u64 {
                Some((i64::MIN, p))
            } else {
                Some(((-(v as int)) as i64, p))
            },
            None => None,
        }
    } else {
        match spec_u64_token(chars, pos, end) {
            Some((v, p)) => if v > i64::MAX as u64 {
                None
            } else {
                Some((v as i64, p))
            },
            None => None,
        }
    }
}

/// Position of the first quote character at or after `pos`.
pub open spec fn string_close(chars: Seq<char>, pos: int, end: int) -> int
    decreases end - pos,
{
    if pos < end && chars[pos] != '"' {
        string_close(chars, pos + 1, end)
    } else {
        pos
    }
}

/// What parsing a plain string token yields: the content's character range
/// and the position past the closing quote, or nothing when no quoted
/// string starts at `pos`.
pub open spec fn spec_string_token(chars: Seq<char>, pos: int, end: int) -> Option<
    (int, int, int),
> {
    if pos >= end || chars[pos] != '"' {
        None
    } else {
        let e = string_close(chars, pos + 1, end);
        if e >= end {
            None
        } else {
            Some((pos + 1, e, e + 1))
        }
    }
}

/// Position just past the run of ASCII letters starting at `pos`.
pub open spec fn word_end(chars: Seq<char>, pos: int, end: int) -> int
    decreases end - pos,
{
    if pos < end && (('a' <= chars[pos] && chars[pos] <= 'z') || ('A' <= chars[pos] && chars[pos]
        <= 'Z')) {
        word_end(chars, pos + 1, end)
    } else {
        pos
    }
}

/// Where skipping one unrecognized value ends: a string, a number, a bare
/// word, or an object of such values; mirrored by `skip_value`.
pub open spec fn spec_skip_value(chars: Seq<char>, pos: int, end: int) -> Option<int>
    decreases end - pos, 1int,
{
    if pos >= end {
        None
    } else if chars[pos] == '"' {
        match spec_string_token(chars, pos, end) {
            Some((_, _, p)) => Some(p),
            None => None,
        }
    } else if chars[pos] == '-' || crate::text::is_digit(chars[pos]) {
        let from = if chars[pos] == '-' {
            pos + 1
        } else {
            pos
        };
        let p = digits_end(chars, from, end);
        if p == from {
            None
        } else {
            Some(p)
        }
    } else if chars[pos] == '{' {
        let p = ws_end(chars, pos + 1, end);
        if p < end && chars[p] == '}' {
            Some(p + 1)
        } else if pos < p && p <= end {
            spec_skip_object_pairs(chars, p, end)
        } else {
            None
        }
    } else {
        let p = word_end(chars, pos, end);
        if p == pos {
            None
        } else {
            Some(p)
        }
    }
}

/// Where skipping the remaining key/value pairs of an unrecognized object
/// ends.
pub open spec fn spec_skip_object_pairs(chars: Seq<char>, p: int, end: int) -> Option<int>
    decreases end - p, 0int,
{
    match spec_string_token(chars, p, end) {
        None => None,
        Some((ks, ke, after_key)) => {
            let q = ws_end(chars, after_key, end);
            if !(q < end && chars[q] == ':') {
                None
            } else {
                let q2 = ws_end(chars, q + 1, end);
                if !(p < q2 <= end) {
                    None
                } else {
                    match spec_skip_value(chars, q2, end) {
                        None => None,
                        Some(after_value) => {
                            let q3 = ws_end(chars, after_value, end);
                            if q3 < end && chars[q3] == ',' {
                                let next = ws_end(chars, q3 + 1, end);
                                if p < next && next <= end {
                                    spec_skip_object_pairs(chars, next, end)
                                } else {
                                    None
                                }
                            } else if q3 < end && chars[q3] == '}' {
                                Some(q3 + 1)
                            } else {
                                None
                            }
                        },
                    }
                }
            }
        },
    }
}


/// Binding one node state in a sorted table: an existing binding of the id
/// takes the new value; otherwise the entry goes to its sorted position.
pub open spec fn spec_set_state(s: Seq<(usize, i32)>, pid: usize, st: i32) -> Seq<(usize, i32)>
    decreases s.len(),
{
    if s.len() == 0 {
        seq![(pid, st)]
    } else if s[0].0 < pid {
        seq![s[0]] + spec_set_state(s.skip(1), pid, st)
    } else if s[0].0 == pid {
        seq![(pid, st)] + s.skip(1)
    } else {
        seq![(pid, st)] + s
    }
}

/// The scan-based insertion used by the executable code agrees with the
/// recursive definition: at the first index whose id is not below `pid`, the
/// entry is replaced or inserted.
proof fn lemma_spec_set_state_at(s: Seq<(usize, i32)>, pid: usize, st: i32, i: int)
    requires
        0 <= i <= s.len(),
        forall|j: int| 0 <= j < i ==> (#[trigger] s[j]).0 < pid,
        i < s.len() ==> s[i].0 >= pid,
    ensures
        spec_set_state(s, pid, st) == (if i < s.len() && s[i].0 == pid {
            s.update(i, (pid, st))
        } else {
            s.insert(i, (pid, st))
        }),
    decreases i,
{
    if i == 0 {
        if s.len() == 0 {
            assert(spec_set_state(s, pid, st) =~= s.insert(0, (pid, st)));
        } else if s[0].0 == pid {
            assert(spec_set_state(s, pid, st) =~= s.update(0, (pid, st)));
        } else {
            assert(s[0].0 > pid);
            assert(spec_set_state(s, pid, st) =~= s.insert(0, (pid, st)));
        }
    } else {
        assert(s[0].0 < pid);
        lemma_spec_set_state_at(s.skip(1), pid, st, i - 1);
        if i < s.len() && s[i].0 == pid {
            assert(s.skip(1)[i - 1].0 == pid);
            assert(spec_set_state(s, pid, st) =~= s.update(i, (pid, st)));
        } else {
            assert(spec_set_state(s, pid, st) =~= s.insert(i, (pid, st)));
        }
    }
}

/// Where parsing the remaining pairs of the node-state object ends, and the
/// table they build over `table`; mirrored by the loop in
/// `parse_states_token`.
pub open spec fn spec_states_pairs(
    chars: Seq<char>,
    p: int,
    end: int,
    table: Seq<(usize, i32)>,
) -> Option<(Seq<(usize, i32)>, int)>
    decreases end - p,
{
    match spec_string_token(chars, p, end) {
        None => None,
        Some((ks, ke, after_key)) => {
            if !(ks < ke && crate::text::all_digits(chars.subrange(ks, ke))
                && crate::text::dec_value(chars.subrange(ks, ke)) <= u64::MAX) {
                None
            } else if crate::text::dec_value(chars.subrange(ks, ke)) > usize::MAX {
                None
            } else {
                let pid = crate::text::dec_value(chars.subrange(ks, ke)) as usize;
                let q = ws_end(chars, after_key, end);
                if !(q < end && chars[q] == ':') {
                    None
                } else {
                    let q2 = ws_end(chars, q + 1, end);
                    match spec_i64_token(chars, q2, end) {
                        None => None,
                        Some((st, after_value)) => {
                            if st > i32::MAX || st < i32::MIN {
                                None
                            } else {
                                let table2 = spec_set_state(table, pid, st as i32);
                                let q3 = ws_end(chars, after_value, end);
                                if q3 < end && chars[q3] == ',' {
                                    let next = ws_end(chars, q3 + 1, end);
                                    if p < next && next <= end {
                                        spec_states_pairs(chars, next, end, table2)
                                    } else {
                                        None
                                    }
                                } else if q3 < end && chars[q3] == '}' {
                                    Some((table2, q3 + 1))
                                } else {
                                    None
                                }
                            }
                        },
                    }
                }
            }
        },
    }
}

/// Where parsing the node-state object ends, and the table it carries.
pub open spec fn spec_states_token(chars: Seq<char>, pos: int, end: int) -> Option<
    (Seq<(usize, i32)>, int),
> {
    if pos >= end || chars[pos] != '{' {
        None
    } else {
        let p = ws_end(chars, pos + 1, end);
        if p < end && chars[p] == '}' {
            Some((Seq::empty(), p + 1))
        } else {
            spec_states_pairs(chars, p, end, Seq::empty())
        }
    }
}

/// The fields gathered while parsing a snapshot line, each present once its
/// key has been seen; a repeated key takes the later value.
pub open spec fn spec_line_fields(
    chars: Seq<char>,
    p: int,
    end: int,
    draft: (
        Option<u64>,
        Option<i32>,
        Option<usize>,
        Option<i32>,
        Option<u64>,
        Option<u64>,
        Option<Seq<(usize, i32)>>,
    ),
) -> Option<
    (
        (
            Option<u64>,
            Option<i32>,
            Option<usize>,
            Option<i32>,
            Option<u64>,
            Option<u64>,
            Option<Seq<(usize, i32)>>,
        ),
        int,
    ),
>
    decreases end - p,
{
    match spec_string_token(chars, p, end) {
        None => None,
        Some((ks, ke, after_key)) => {
            let q = ws_end(chars, after_key, end);
            if !(q < end && chars[q] == ':') {
                None
            } else {
                let q2 = ws_end(chars, q + 1, end);
                let key = chars.subrange(ks, ke);
                let step: Option<
                    (
                        (
                            Option<u64>,
                            Option<i32>,
                            Option<usize>,
                            Option<i32>,
                            Option<u64>,
                            Option<u64>,
                            Option<Seq<(usize, i32)>>,
                        ),
                        int,
                    ),
                > = if key == "seed_used"@ {
                    match spec_u64_token(chars, q2, end) {
                        Some((v, a)) => Some((
                            (Some(v), draft.1, draft.2, draft.3, draft.4, draft.5, draft.6),
                            a,
                        )),
                        None => None,
                    }
                } else if key == "max_events"@ {
                    match spec_i64_token(chars, q2, end) {
                        Some((v, a)) => if v > i32::MAX || v < i32::MIN {
                            None
                        } else {
                            Some((
                                (
                                    draft.0,
                                    Some(v as i32),
                                    draft.2,
                                    draft.3,
                                    draft.4,
                                    draft.5,
                                    draft.6,
                                ),
                                a,
                            ))
                        },
                        None => None,
                    }
                } else if key == "runtime_processes"@ {
                    match spec_u64_token(chars, q2, end) {
                        Some((v, a)) => if v > usize::MAX {
                            None
                        } else {
                            Some((
                                (
                                    draft.0,
                                    draft.1,
                                    Some(v as usize),
                                    draft.3,
                                    draft.4,
                                    draft.5,
                                    draft.6,
                                ),
                                a,
                            ))
                        },
                        None => None,
                    }
                } else if key == "spacing"@ {
                    match spec_i64_token(chars, q2, end) {
                        Some((v, a)) => if v > i32::MAX || v < i32::MIN {
                            None
                        } else {
                            Some((
                                (
                                    draft.0,
                                    draft.1,
                                    draft.2,
                                    Some(v as i32),
                                    draft.4,
                                    draft.5,
                                    draft.6,
                                ),
                                a,
                            ))
                        },
                        None => None,
                    }
                } else if key == "events_processed"@ {
                    match spec_u64_token(chars, q2, end) {
                        Some((v, a)) => Some((
                            (draft.0, draft.1, draft.2, draft.3, Some(v), draft.5, draft.6),
                            a,
                        )),
                        None => None,
                    }
                } else if key == "current_time"@ {
                    match spec_u64_token(chars, q2, end) {
                        Some((v, a)) => Some((
                            (draft.0, draft.1, draft.2, draft.3, draft.4, Some(v), draft.6),
                            a,
                        )),
                        None => None,
                    }
                } else if key == "process_states"@ {
                    match spec_states_token(chars, q2, end) {
                        Some((t, a)) => Some((
                            (draft.0, draft.1, draft.2, draft.3, draft.4, draft.5, Some(t)),
                            a,
                        )),
                        None => None,
                    }
                } else {
                    match spec_skip_value(chars, q2, end) {
                        Some(a) => Some((draft, a)),
                        None => None,
                    }
                };
                match step {
                    None => None,
                    Some((draft2, after_value)) => {
                        let q3 = ws_end(chars, after_value, end);
                        if q3 < end && chars[q3] == ',' {
                            let next = ws_end(chars, q3 + 1, end);
                            if p < next && next <= end {
                                spec_line_fields(chars, next, end, draft2)
                            } else {
                                None
                            }
                        } else if q3 < end && chars[q3] == '}' {
                            Some((draft2, q3 + 1))
                        } else {
                            None
                        }
                    },
                }
            }
        },
    }
}


/// Assemble the parsed snapshot from a finished field draft: every protocol
/// field is required.
pub open spec fn finish_line(
    outcome: Option<
        (
            (
                Option<u64>,
                Option<i32>,
                Option<usize>,
                Option<i32>,
                Option<u64>,
                Option<u64>,
                Option<Seq<(usize, i32)>>,
            ),
            int,
        ),
    >,
) -> Option<(u64, i32, usize, i32, u64, u64, Seq<(usize, i32)>)> {
    match outcome {
        None => None,
        Some((d, _)) => match (d.0, d.1, d.2, d.3, d.4, d.5, d.6) {
            (
                Some(seed_used),
                Some(max_events),
                Some(runtime_processes),
                Some(spacing),
                Some(events_processed),
                Some(current_time),
                Some(states),
            ) => Some(
                (
                    seed_used,
                    max_events,
                    runtime_processes,
                    spacing,
                    events_processed,
                    current_time,
                    states,
                ),
            ),
            _ => None,
        },
    }
}

/// What one snapshot line parses to: the seven protocol fields, all of which
/// are required; unrecognized keys are skipped.
pub open spec fn spec_parse_line(chars: Seq<char>, start: int, end: int) -> Option<
    (u64, i32, usize, i32, u64, u64, Seq<(usize, i32)>),
> {
    let p = ws_end(chars, start, end);
    if !(p < end && chars[p] == '{') {
        None
    } else {
        let p2 = ws_end(chars, p + 1, end);
        if p2 < end && chars[p2] == '}' {
            None
        } else {
            finish_line(
                spec_line_fields(chars, p2, end, (None, None, None, None, None, None, None)),
            )
        }
    }
}

/// The last line of the output whose first non-whitespace character is `{`,
/// scanning from `i` with the current line starting at `line_start` and
/// `best` the last qualifying line seen so far.
pub open spec fn spec_scan_lines(
    chars: Seq<char>,
    i: int,
    line_start: int,
    best: Option<(int, int)>,
) -> Option<(int, int)>
    decreases chars.len() - i,
{
    if i >= chars.len() {
        let p = ws_end(chars, line_start, chars.len() as int);
        if p < chars.len() && chars[p] == '{' {
            Some((line_start, chars.len() as int))
        } else {
            best
        }
    } else if chars[i] == '\n' {
        let p = ws_end(chars, line_start, i);
        let best2 = if p < i && chars[p] == '{' {
            Some((line_start, i))
        } else {
            best
        };
        spec_scan_lines(chars, i + 1, i + 1, best2)
    } else {
        spec_scan_lines(chars, i + 1, line_start, best)
    }
}

/// What the reference output parses to: the snapshot carried by the last
/// line beginning with `{`, if there is one and it is well formed.
pub open spec fn spec_snapshot(chars: Seq<char>) -> Option<
    (u64, i32, usize, i32, u64, u64, Seq<(usize, i32)>),
> {
    match spec_scan_lines(chars, 0, 0, None) {
        None => None,
        Some((s, e)) => spec_parse_line(chars, s, e),
    }
}

fn skip_ws(chars: &Vec<char>, pos: usize, end: usize) -> (p: usize)
    requires
        pos <= end <= chars@.len(),
    ensures
        pos <= p <= end,
        p as int == ws_end(chars@, pos as int, end as int),
{
    let mut p = pos;
    while p < end && (chars[p] == ' ' || chars[p] == '\t' || chars[p] == '\r' || chars[p] == '\n')
        invariant
            pos <= p <= end <= chars@.len(),
            ws_end(chars@, pos as int, end as int) == ws_end(chars@, p as int, end as int),
        decreases end - p,
    {
        p += 1;
    }
    p
}

/// Compare a character range against a literal, character by character.
fn segment_eq(chars: &Vec<char>, from: usize, to: usize, lit: &str) -> (r: bool)
    requires
        from <= to <= chars@.len(),
    ensures
        r == (chars@.subrange(from as int, to as int) == lit@),
{
    let llen = lit.unicode_len();
    if to - from != llen {
        proof {
            assert(chars@.subrange(from as int, to as int).len() != lit@.len());
        }
        return false;
    }
    let mut i: usize = 0;
    while i < llen
        invariant
            from <= to <= chars@.len(),
            to - from == llen == lit@.len(),
            i <= llen,
            forall|j: int| 0 <= j < i ==> chars@[from + j] == lit@[j],
        decreases llen - i,
    {
        if chars[from + i] != lit.get_char(i) {
            proof {
                assert(chars@.subrange(from as int, to as int)[i as int] != lit@[i as int]);
            }
            return false;
        }
        i += 1;
    }
    proof {
        assert(chars@.subrange(from as int, to as int) =~= lit@);
    }
    true
}

/// Parse a plain (escape-free) JSON string token; returns the content's
/// character range and the position after the closing quote.
fn parse_string_token(chars: &Vec<char>, pos: usize, end: usize) -> (r: Result<
    (usize, usize, usize),
    String,
>)
    requires
        pos <= end <= chars@.len(),
    ensures
        match r {
            Ok((s, e, p)) => pos < s <= e < p <= end && spec_string_token(
                chars@,
                pos as int,
                end as int,
            ) == Some((s as int, e as int, p as int)),
            Err(_) => spec_string_token(chars@, pos as int, end as int) is None,
        },
{
    if pos >= end || chars[pos] != '"' {
        return Err(String::from_str("expected a string"));
    }
    let start = pos + 1;
    let mut p = start;
    while p < end && chars[p] != '"'
        invariant
            start <= p <= end <= chars@.len(),
            string_close(chars@, start as int, end as int) == string_close(
                chars@,
                p as int,
                end as int,
            ),
        decreases end - p,
    {
        p += 1;
    }
    if p >= end {
        return Err(String::from_str("unterminated string"));
    }
    Ok((start, p, p + 1))
}

/// Parse an unsigned decimal token.
fn parse_u64_token(chars: &Vec<char>, pos: usize, end: usize) -> (r: Result<(u64, usize), String>)
    requires
        pos <= end <= chars@.len(),
    ensures
        match r {
            Ok((v, p)) => pos < p <= end && spec_u64_token(chars@, pos as int, end as int)
                == Some((v, p as int)),
            Err(_) => spec_u64_token(chars@, pos as int, end as int) is None,
        },
{
    let mut p = pos;
    while p < end && '0' <= chars[p] && chars[p] <= '9'
        invariant
            pos <= p <= end <= chars@.len(),
            digits_end(chars@, pos as int, end as int) == digits_end(chars@, p as int, end as int),
        decreases end - p,
    {
        p += 1;
    }
    proof {
        assert(p as int == digits_end(chars@, pos as int, end as int));
        lemma_digits_end_bounds(chars@, pos as int, end as int);
    }
    if p == pos {
        return Err(String::from_str("expected digits"));
    }
    match parse_u64(chars, pos, p) {
        Some(v) => Ok((v, p)),
        None => Err(String::from_str("number out of range")),
    }
}

/// Parse a signed decimal token.
fn parse_i64_token(chars: &Vec<char>, pos: usize, end: usize) -> (r: Result<(i64, usize), String>)
    requires
        pos <= end <= chars@.len(),
    ensures
        match r {
            Ok((v, p)) => pos < p <= end && spec_i64_token(chars@, pos as int, end as int)
                == Some((v, p as int)),
            Err(_) => spec_i64_token(chars@, pos as int, end as int) is None,
        },
{
    if pos < end && chars[pos] == '-' {
        match parse_u64_token(chars, pos + 1, end) {
            Ok((v, p)) => {
                if v > 0x8000_0000_0000_0000u64 {
                    Err(String::from_str("number out of range"))
                } else if v == 0x8000_0000_0000_0000u64 {
                    Ok((i64::MIN, p))
                } else {
                    Ok((-(v as i64), p))
                }
            },
            Err(e) => Err(e),
        }
    } else {
        match parse_u64_token(chars, pos, end) {
            Ok((v, p)) => {
                if v > i64::MAX as u64 {
                    Err(String::from_str("number out of range"))
                } else {
                    Ok((v as i64, p))
                }
            },
            Err(e) => Err(e),
        }
    }
}

/// Skip one JSON value the protocol might carry under an unrecognized key:
/// a string, a number, a bare word, or an object of such values.
fn skip_value(chars: &Vec<char>, pos: usize, end: usize) -> (r: Result<usize, String>)
    requires
        pos <= end <= chars@.len(),
    ensures
        match r {
            Ok(p) => pos < p <= end && spec_skip_value(chars@, pos as int, end as int) == Some(
                p as int,
            ),
            Err(_) => spec_skip_value(chars@, pos as int, end as int) is None,
        },
    decreases end - pos,
{
    if pos >= end {
        return Err(String::from_str("expected a value"));
    }
    let c = chars[pos];
    if c == '"' {
        match parse_string_token(chars, pos, end) {
            Ok((_, _, p)) => Ok(p),
            Err(e) => Err(e),
        }
    } else if c == '-' || ('0' <= c && c <= '9') {
        let from = if c == '-' {
            pos + 1
        } else {
            pos
        };
        let mut p = from;
        while p < end && '0' <= chars[p] && chars[p] <= '9'
            invariant
                from <= p <= end <= chars@.len(),
                digits_end(chars@, from as int, end as int) == digits_end(
                    chars@,
                    p as int,
                    end as int,
                ),
            decreases end - p,
        {
            p += 1;
        }
        if p == from {
            Err(String::from_str("expected digits"))
        } else {
            Ok(p)
        }
    } else if c == '{' {
        let mut p = skip_ws(chars, pos + 1, end);
        if p < end && chars[p] == '}' {
            return Ok(p + 1);
        }
        loop
            invariant
                pos < p <= end <= chars@.len(),
                spec_skip_value(chars@, pos as int, end as int) == spec_skip_object_pairs(
                    chars@,
                    p as int,
                    end as int,
                ),
            decreases end - p,
        {
            let key = parse_string_token(chars, p, end);
            let (_, _, after_key) = match key {
                Ok(t) => t,
                Err(e) => {
                    return Err(e);
                },
            };
            let mut q = skip_ws(chars, after_key, end);
            if q >= end || chars[q] != ':' {
                return Err(String::from_str("expected ':'"));
            }
            q = skip_ws(chars, q + 1, end);
            proof {
                assert(p < q <= end);
            }
            let after_value = match skip_value(chars, q, end) {
                Ok(v) => v,
                Err(e) => {
                    return Err(e);
                },
            };
            q = skip_ws(chars, after_value, end);
            if q < end && chars[q] == ',' {
                let next = skip_ws(chars, q + 1, end);
                if next <= p {
                    return Err(String::from_str("malformed object"));
                }
                p = next;
            } else if q < end && chars[q] == '}' {
                return Ok(q + 1);
            } else {
                return Err(String::from_str("expected ',' or '}'"));
            }
        }
    } else {
        // A bare word such as true, false, or null.
        let mut p = pos;
        while p < end && (('a' <= chars[p] && chars[p] <= 'z') || ('A' <= chars[p] && chars[p]
            <= 'Z'))
            invariant
                pos <= p <= end <= chars@.len(),
                word_end(chars@, pos as int, end as int) == word_end(chars@, p as int, end as int),
            decreases end - p,
        {
            p += 1;
        }
        if p == pos {
            Err(String::from_str("unsupported value"))
        } else {
            Ok(p)
        }
    }
}

/// Record one node state, keeping the table sorted by node id with each id
/// once; a repeated id takes the later value.
fn set_state(table: &mut Vec<(usize, i32)>, pid: usize, st: i32)
    requires
        states_sorted(old(table)@),
        old(table)@.len() < usize::MAX,
    ensures
        states_sorted(final(table)@),
        final(table)@ == spec_set_state(old(table)@, pid, st),
        final(table)@.len() <= old(table)@.len() + 1,
{
    let ghost before = table@;
    let mut i: usize = 0;
    while i < table.len() && table[i].0 < pid
        invariant
            states_sorted(before),
            table@ == before,
            i <= before.len(),
            forall|j: int| 0 <= j < i ==> (#[trigger] before[j]).0 < pid,
        decreases before.len() - i,
    {
        i += 1;
    }
    proof {
        lemma_spec_set_state_at(before, pid, st, i as int);
    }
    if i < table.len() && table[i].0 == pid {
        table[i] = (pid, st);
        proof {
            assert(table@ =~= before.update(i as int, (pid, st)));
            assert forall|a: int, b: int| 0 <= a < b < table@.len() implies (
            #[trigger] table@[a]).0 < (#[trigger] table@[b]).0 by {
                assert(table@[a].0 == before[a].0);
                assert(table@[b].0 == before[b].0);
            }
        }
        return ;
    }
    proof {
        before.insert_ensures(i as int, (pid, st));
    }
    table.insert(i, (pid, st));
    proof {
        assert(table@ == before.insert(i as int, (pid, st)));
        // Everything at or past the insertion point is strictly greater.
        assert forall|k: int| i <= k < before.len() implies (#[trigger] before[k]).0 > pid by {
            if k == i {
                assert(before[i as int].0 >= pid);
                assert(before[i as int].0 != pid);
            } else {
                assert(before[i as int].0 >= pid);
                assert(before[i as int].0 != pid);
                assert(before[i as int].0 < before[k].0);
            }
        }
        assert forall|a: int, b: int| 0 <= a < b < table@.len() implies (
        #[trigger] table@[a]).0 < (#[trigger] table@[b]).0 by {
            if b == i {
                assert(table@[a] == before[a]);
            } else if a == i {
                assert(table@[b] == before[b - 1]);
            } else if a < i && b > i {
                assert(table@[a] == before[a]);
                assert(table@[b] == before[b - 1]);
            } else if a < i && b < i {
                assert(table@[a] == before[a]);
                assert(table@[b] == before[b]);
            } else {
                assert(table@[a] == before[a - 1]);
                assert(table@[b] == before[b - 1]);
            }
        }
    }
}

/// Parse the nested `process_states` object: string-keyed node ids mapped to
/// integer states. A key that is not an unsigned integer is a fatal error.
fn parse_states_token(chars: &Vec<char>, pos: usize, end: usize) -> (r: Result<
    (Vec<(usize, i32)>, usize),
    String,
>)
    requires
        pos <= end <= chars@.len(),
    ensures
        match r {
            Ok((table, p)) => pos < p <= end && states_sorted(table@) && spec_states_token(
                chars@,
                pos as int,
                end as int,
            ) == Some((table@, p as int)),
            Err(_) => spec_states_token(chars@, pos as int, end as int) is None,
        },
{
    if pos >= end || chars[pos] != '{' {
        return Err(String::from_str("expected an object"));
    }
    let mut table: Vec<(usize, i32)> = Vec::new();
    let mut p = skip_ws(chars, pos + 1, end);
    if p < end && chars[p] == '}' {
        proof {
            assert(table@ =~= Seq::<(usize, i32)>::empty());
        }
        return Ok((table, p + 1));
    }
    loop
        invariant
            pos < p <= end <= chars@.len(),
            states_sorted(table@),
            table@.len() < p,
            spec_states_token(chars@, pos as int, end as int) == spec_states_pairs(
                chars@,
                p as int,
                end as int,
                table@,
            ),
        decreases end - p,
    {
        let key = parse_string_token(chars, p, end);
        let (ks, ke, after_key) = match key {
            Ok(t) => t,
            Err(e) => {
                return Err(e);
            },
        };
        let pid64 = match parse_u64(chars, ks, ke) {
            Some(v) => v,
            None => {
                return Err(String::from_str("invalid pid key"));
            },
        };
        if pid64 > usize::MAX as u64 {
            return Err(String::from_str("invalid pid key"));
        }
        let pid = pid64 as usize;
        let mut q = skip_ws(chars, after_key, end);
        if q >= end || chars[q] != ':' {
            return Err(String::from_str("expected ':'"));
        }
        q = skip_ws(chars, q + 1, end);
        let (st64, after_value) = match parse_i64_token(chars, q, end) {
            Ok(t) => t,
            Err(e) => {
                return Err(e);
            },
        };
        if st64 > i32::MAX as i64 || st64 < i32::MIN as i64 {
            return Err(String::from_str("state out of range"));
        }
        set_state(&mut table, pid, st64 as i32);
        q = skip_ws(chars, after_value, end);
        if q < end && chars[q] == ',' {
            let next = skip_ws(chars, q + 1, end);
            if next <= p {
                return Err(String::from_str("malformed object"));
            }
            p = next;
        } else if q < end && chars[q] == '}' {
            return Ok((table, q + 1));
        } else {
            return Err(String::from_str("expected ',' or '}'"));
        }
    }
}


/// The spec-level view of the field draft gathered by `parse_reference_line`.
pub open spec fn snapshot_draft(
    seed_used: Option<u64>,
    max_events: Option<i32>,
    runtime_processes: Option<usize>,
    spacing: Option<i32>,
    events_processed: Option<u64>,
    current_time: Option<u64>,
    process_states: Option<Vec<(usize, i32)>>,
) -> (
    Option<u64>,
    Option<i32>,
    Option<usize>,
    Option<i32>,
    Option<u64>,
    Option<u64>,
    Option<Seq<(usize, i32)>>,
) {
    (
        seed_used,
        max_events,
        runtime_processes,
        spacing,
        events_processed,
        current_time,
        match process_states {
            Some(t) => Some(t@),
            None => None,
        },
    )
}

/// Parse one reference-protocol line: a JSON object with the keys
/// `seed_used`, `max_events`, `runtime_processes`, `spacing`,
/// `events_processed`, `current_time`, and `process_states` (a string-keyed
/// map of node states). Every key is required; unrecognized keys are
/// ignored; the reported `execution_time_ns` of the snapshot is 0, since the
/// protocol does not carry it.
fn parse_reference_line(chars: &Vec<char>, start: usize, end: usize) -> (r: Result<
    ExecutionResult,
    String,
>)
    requires
        start <= end <= chars@.len(),
    ensures
        match r {
            Ok(res) => {
                &&& states_sorted(res.process_states@)
                &&& res.execution_time_ns == 0
                &&& spec_parse_line(chars@, start as int, end as int) == Some(
                    (
                        res.seed_used,
                        res.max_events,
                        res.runtime_processes,
                        res.spacing,
                        res.events_processed,
                        res.current_time,
                        res.process_states@,
                    ),
                )
            },
            Err(_) => spec_parse_line(chars@, start as int, end as int) is None,
        },
{
    let mut seed_used: Option<u64> = None;
    let mut max_events: Option<i32> = None;
    let mut runtime_processes: Option<usize> = None;
    let mut spacing: Option<i32> = None;
    let mut events_processed: Option<u64> = None;
    let mut current_time: Option<u64> = None;
    let mut process_states: Option<Vec<(usize, i32)>> = None;

    let mut p = skip_ws(chars, start, end);
    if p >= end || chars[p] != '{' {
        return Err(String::from_str("expected an object"));
    }
    p = skip_ws(chars, p + 1, end);
    if p < end && chars[p] == '}' {
        return Err(String::from_str("missing fields"));
    }
    let ghost p0 = p;
    loop
        invariant
            start < p <= end <= chars@.len(),
            spec_parse_line(chars@, start as int, end as int) == finish_line(
                spec_line_fields(
                    chars@,
                    p0 as int,
                    end as int,
                    (None, None, None, None, None, None, None),
                ),
            ),
            match process_states {
                Some(t) => states_sorted(t@),
                None => true,
            },
            spec_line_fields(
                chars@,
                p0 as int,
                end as int,
                (None, None, None, None, None, None, None),
            ) == spec_line_fields(
                chars@,
                p as int,
                end as int,
                snapshot_draft(
                    seed_used,
                    max_events,
                    runtime_processes,
                    spacing,
                    events_processed,
                    current_time,
                    process_states,
                ),
            ),
        ensures
            match process_states {
                Some(t) => states_sorted(t@),
                None => true,
            },
            exists|fin: int|
                spec_line_fields(
                    chars@,
                    p0 as int,
                    end as int,
                    (None, None, None, None, None, None, None),
                ) == Some(
                    (
                        #[trigger] snapshot_draft(
                            seed_used,
                            max_events,
                            runtime_processes,
                            spacing,
                            events_processed,
                            current_time,
                            process_states,
                        ),
                        fin,
                    ),
                ),
        decreases end - p,
    {
        let key = parse_string_token(chars, p, end);
        let (ks, ke, after_key) = match key {
            Ok(t) => t,
            Err(e) => {
                return Err(e);
            },
        };
        let mut q = skip_ws(chars, after_key, end);
        if q >= end || chars[q] != ':' {
            return Err(String::from_str("expected ':'"));
        }
        q = skip_ws(chars, q + 1, end);
        let after_value: usize;
        if segment_eq(chars, ks, ke, "seed_used") {
            let (v, a) = match parse_u64_token(chars, q, end) {
                Ok(t) => t,
                Err(e) => {
                    return Err(e);
                },
            };
            seed_used = Some(v);
            after_value = a;
        } else if segment_eq(chars, ks, ke, "max_events") {
            let (v, a) = match parse_i64_token(chars, q, end) {
                Ok(t) => t,
                Err(e) => {
                    return Err(e);
                },
            };
            if v > i32::MAX as i64 || v < i32::MIN as i64 {
                return Err(String::from_str("max_events out of range"));
            }
            max_events = Some(v as i32);
            after_value = a;
        } else if segment_eq(chars, ks, ke, "runtime_processes") {
            let (v, a) = match parse_u64_token(chars, q, end) {
                Ok(t) => t,
                Err(e) => {
                    return Err(e);
                },
            };
            if v > usize::MAX as u64 {
                return Err(String::from_str("runtime_processes out of range"));
            }
            runtime_processes = Some(v as usize);
            after_value = a;
        } else if segment_eq(chars, ks, ke, "spacing") {
            let (v, a) = match parse_i64_token(chars, q, end) {
                Ok(t) => t,
                Err(e) => {
                    return Err(e);
                },
            };
            if v > i32::MAX as i64 || v < i32::MIN as i64 {
                return Err(String::from_str("spacing out of range"));
            }
            spacing = Some(v as i32);
            after_value = a;
        } else if segment_eq(chars, ks, ke, "events_processed") {
            let (v, a) = match parse_u64_token(chars, q, end) {
                Ok(t) => t,
                Err(e) => {
                    return Err(e);
                },
            };
            events_processed = Some(v);
            after_value = a;
        } else if segment_eq(chars, ks, ke, "current_time") {
            let (v, a) = match parse_u64_token(chars, q, end) {
                Ok(t) => t,
                Err(e) => {
                    return Err(e);
                },
            };
            current_time = Some(v);
            after_value = a;
        } else if segment_eq(chars, ks, ke, "process_states") {
            let (v, a) = match parse_states_token(chars, q, end) {
                Ok(t) => t,
                Err(e) => {
                    return Err(e);
                },
            };
            process_states = Some(v);
            after_value = a;
        } else {
            after_value = match skip_value(chars, q, end) {
                Ok(a) => a,
                Err(e) => {
                    return Err(e);
                },
            };
        }
        q = skip_ws(chars, after_value, end);
        if q < end && chars[q] == ',' {
            let next = skip_ws(chars, q + 1, end);
            if next <= p {
                return Err(String::from_str("malformed object"));
            }
            p = next;
        } else if q < end && chars[q] == '}' {
            break ;
        } else {
            return Err(String::from_str("expected ',' or '}'"));
        }
    }

    let seed_used = match seed_used {
        Some(v) => v,
        None => {
            return Err(String::from_str("missing seed_used"));
        },
    };
    let max_events = match max_events {
        Some(v) => v,
        None => {
            return Err(String::from_str("missing max_events"));
        },
    };
    let runtime_processes = match runtime_processes {
        Some(v) => v,
        None => {
            return Err(String::from_str("missing runtime_processes"));
        },
    };
    let spacing = match spacing {
        Some(v) => v,
        None => {
            return Err(String::from_str("missing spacing"));
        },
    };
    let events_processed = match events_processed {
        Some(v) => v,
        None => {
            return Err(String::from_str("missing events_processed"));
        },
    };
    let current_time = match current_time {
        Some(v) => v,
        None => {
            return Err(String::from_str("missing current_time"));
        },
    };
    let process_states = match process_states {
        Some(v) => v,
        None => {
            return Err(String::from_str("missing process_states"));
        },
    };
    Ok(
        ExecutionResult {
            seed_used,
            max_events,
            runtime_processes,
            spacing,
            events_processed,
            current_time,
            execution_time_ns: 0,
            process_states,
        },
    )
}

/// Parse the reference implementation's captured standard output: scan for
/// the last line whose first non-whitespace character is `{` and parse it as
/// a reference-protocol snapshot.
pub fn parse_reference_output(stdout: &str) -> (r: Result<ExecutionResult, HarnessError>)
    ensures
        r matches Err(e) ==> e is ReferenceOutput,
        match r {
            Ok(res) => {
                &&& states_sorted(res.process_states@)
                &&& res.execution_time_ns == 0
                &&& spec_snapshot(stdout@) == Some(
                    (
                        res.seed_used,
                        res.max_events,
                        res.runtime_processes,
                        res.spacing,
                        res.events_processed,
                        res.current_time,
                        res.process_states@,
                    ),
                )
            },
            Err(_) => spec_snapshot(stdout@) is None,
        },
{
    let chars = str_to_chars(stdout);
    let len = chars.len();
    let mut best: Option<(usize, usize)> = None;
    let mut line_start: usize = 0;
    let mut i: usize = 0;
    while i < len
        invariant
            line_start <= i <= len,
            len == chars@.len(),
            chars@ == stdout@,
            best matches Some((s, e)) ==> s <= e <= len,
            spec_scan_lines(chars@, 0, 0, None) == spec_scan_lines(
                chars@,
                i as int,
                line_start as int,
                match best {
                    Some((s, e)) => Some((s as int, e as int)),
                    None => None,
                },
            ),
        decreases len - i,
    {
        if chars[i] == '\n' {
            let p = skip_ws(&chars, line_start, i);
            if p < i && chars[p] == '{' {
                best = Some((line_start, i));
            }
            line_start = i + 1;
        }
        i += 1;
    }
    let p = skip_ws(&chars, line_start, len);
    if p < len && chars[p] == '{' {
        best = Some((line_start, len));
    }
    proof {
        assert(spec_scan_lines(chars@, 0, 0, None) == match best {
            Some((s, e)) => Some((s as int, e as int)),
            None => None::<(int, int)>,
        });
    }
    match best {
        Some((s, e)) => match parse_reference_line(&chars, s, e) {
            Ok(result) => Ok(result),
            Err(msg) => Err(HarnessError::ReferenceOutput(msg)),
        },
        None => Err(
            HarnessError::ReferenceOutput(
                String::from_str("output did not contain a JSON line"),
            ),
        ),
    }
}


/// Compile and execute the Grey program locally: compile the source, build
/// IR, generate the Betti RDL artifacts under the harness configuration, and
/// run them on the deterministic in-process engine.
#[verifier::rlimit(30)]
pub fn execute_grey(source: &str, config: &HarnessConfig) -> (r: Result<
    ExecutionResult,
    HarnessError,
>)
    requires
        spacing_ok(config.spacing as int),
    ensures
        !(r matches Err(HarnessError::ExecutionFailed(_))),
        !(r matches Err(HarnessError::ReferenceOutput(_))),
        match r {
            Ok(res) => {
                &&& res.seed_used == config.seed
                &&& res.max_events == config.max_events
                &&& res.spacing == config.spacing
                &&& res.current_time == res.events_processed
                &&& res.execution_time_ns >= 1
                &&& 1 <= res.runtime_processes <= 2048
                &&& states_sorted(res.process_states@)
                &&& (config.max_events > 0 ==> res.events_processed as int == executed_events(
                    ProcessPlacement::GridLayout { spacing: config.spacing },
                    res.runtime_processes as int,
                    config.max_events as int,
                    0,
                ))
                &&& exists|cs: Seq<crate::ir::Coord>|
                    (#[trigger] coords_of_placement(
                        ProcessPlacement::GridLayout { spacing: config.spacing },
                        res.runtime_processes as int,
                        cs,
                    )) && table_keys_of(res.process_states@, cs)
            },
            Err(_) => true,
        },
{
    let typed_program = match crate::compile(source) {
        Ok(tp) => tp,
        Err(e) => {
            return Err(
                HarnessError::CompileFailed(
                    String::from_str(crate::diagnostics::Diagnostic::message(&e)),
                ),
            );
        },
    };

    let mut builder = crate::ir::IrBuilder::new();
    let ir_program = match builder.build_program("sir_demo", &typed_program) {
        Ok(p) => p,
        Err(e) => {
            return Err(HarnessError::IrFailed(e.message()));
        },
    };

    let backend = BettiRdlBackend::new(
        BettiConfig {
            max_events: config.max_events,
            seed: config.seed,
            process_placement: ProcessPlacement::GridLayout { spacing: config.spacing },
            telemetry_enabled: true,
            validate_coordinates: true,
        },
    );

    let output = match backend.generate_code(&ir_program) {
        Ok(out) => out,
        Err(e) => {
            return Err(HarnessError::CodegenFailed(e.message()));
        },
    };

    let telemetry = match backend.execute(&output) {
        Ok(t) => t,
        Err(e) => {
            // Execution on the in-process engine cannot fail.
            proof {
                assert(false);
            }
            return Err(HarnessError::ExecutionFailed(e.message()));
        },
    };
    proof {
        crate::betti_rdl::lemma_placement_eq_derived(
            output.runtime_config.process_placement,
            ProcessPlacement::GridLayout { spacing: config.spacing },
            output.metadata.runtime_process_count as int,
            config.max_events as int,
            output.metadata.event_count as int,
        );
        if config.max_events > 0 {
            assert(executed_events(
                output.runtime_config.process_placement,
                output.metadata.runtime_process_count as int,
                config.max_events as int,
                output.metadata.event_count as int,
            ) == executed_events(
                ProcessPlacement::GridLayout { spacing: config.spacing },
                output.metadata.runtime_process_count as int,
                config.max_events as int,
                0,
            ));
        }
    }

    let res = ExecutionResult {
        seed_used: config.seed,
        max_events: config.max_events,
        runtime_processes: output.metadata.runtime_process_count,
        spacing: config.spacing,
        events_processed: telemetry.events_processed,
        current_time: telemetry.current_time,
        execution_time_ns: telemetry.execution_time_ns,
        process_states: telemetry.process_states,
    };
    proof {
        let rc = res.runtime_processes as int;
        let cs = choose|cs: Seq<crate::ir::Coord>|
            coords_of_placement(output.runtime_config.process_placement, rc, cs)
                && table_keys_of(res.process_states@, cs);
        assert(coords_of_placement(
            ProcessPlacement::GridLayout { spacing: config.spacing },
            rc,
            cs,
        ));
        assert(table_keys_of(res.process_states@, cs));
    }
    Ok(res)
}

/// Run the parity harness over a compiled source and the reference
/// implementation's captured output: execute locally, parse the reference
/// snapshot (the last stdout line beginning with `{`), and compare field by
/// field. The caller invokes the reference binary (with the local run's
/// resolved parameters) and passes its standard output here. Parsing the
/// reference output is refused exactly when the output holds no well-formed
/// snapshot line, and local execution itself never fails.
pub fn run_harness(config: &HarnessConfig, source: &str, reference_stdout: &str) -> (r: Result<
    ComparisonResult,
    HarnessError,
>)
    requires
        spacing_ok(config.spacing as int),
    ensures
        !(r matches Err(HarnessError::ExecutionFailed(_))),
        r matches Err(HarnessError::ReferenceOutput(_)) ==> spec_snapshot(
            reference_stdout@,
        ) is None,
        match r {
            Ok(c) => {
                &&& c.grey.seed_used == config.seed
                &&& c.grey.max_events == config.max_events
                &&& c.grey.spacing == config.spacing
                &&& c.grey.current_time == c.grey.events_processed
                &&& 1 <= c.grey.runtime_processes <= 2048
                &&& states_sorted(c.grey.process_states@)
                &&& states_sorted(c.cpp.process_states@)
                &&& c.cpp.execution_time_ns == 0
                &&& spec_snapshot(reference_stdout@) == Some(
                    (
                        c.cpp.seed_used,
                        c.cpp.max_events,
                        c.cpp.runtime_processes,
                        c.cpp.spacing,
                        c.cpp.events_processed,
                        c.cpp.current_time,
                        c.cpp.process_states@,
                    ),
                )
                &&& c.events_match == spec_events_match(c.grey, c.cpp)
                &&& c.current_time_match == spec_current_time_match(c.grey, c.cpp)
                &&& c.parity_achieved == (c.events_match && c.current_time_match
                    && c.state_differences@.len() == 0)
                &&& (c.state_differences@.len() == 0) == states_agree(
                    c.grey.process_states@,
                    c.cpp.process_states@,
                )
                &&& (forall|k: int|
                    0 <= k < c.state_differences@.len() ==> exists|pid: usize|
                        lookup_state(c.grey.process_states@, pid) != lookup_state(
                            c.cpp.process_states@,
                            pid,
                        ) && (#[trigger] c.state_differences@[k])@ == difference_line(
                            pid,
                            lookup_state(c.grey.process_states@, pid),
                            lookup_state(c.cpp.process_states@, pid),
                        ))
                &&& (forall|pid: usize|
                    lookup_state(c.grey.process_states@, pid) != lookup_state(
                        c.cpp.process_states@,
                        pid,
                    ) ==> reports_pid(
                        c.state_differences@,
                        c.grey.process_states@,
                        c.cpp.process_states@,
                        pid,
                    ))
                &&& exists|pids: Seq<usize>|
                    #[trigger] reported_pids(
                        c.state_differences@,
                        c.grey.process_states@,
                        c.cpp.process_states@,
                        pids,
                    )
            },
            Err(_) => true,
        },
{
    let grey = match execute_grey(source, config) {
        Ok(g) => g,
        Err(e) => {
            return Err(e);
        },
    };
    let cpp = match parse_reference_output(reference_stdout) {
        Ok(c) => c,
        Err(e) => {
            return Err(e);
        },
    };
    Ok(compare_runs(grey, cpp))
}

} // verus!
