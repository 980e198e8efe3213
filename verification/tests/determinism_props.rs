//! Property-level tests: coordinate validity bounds, grid placement shape,
//! admission control, seeded injection reproducibility, toroidal node ids,
//! comparison idempotence, and the end-to-end parity scenario.

use greyc::backend::{grid_coords, ProcessPlacement};
use greyc::betti_rdl::{injection_schedule, BettiConfig, BettiRdlBackend};
use greyc::engine::{node_id, ModelEngine};
use greyc::harness::{compare_runs, execute_grey, parse_reference_output, run_harness, HarnessConfig};
use greyc::ir::{Coord, IrProgram, IrProcess, IrResourceBounds, IrState, IrValue};

fn one_process_program(constants: Vec<(String, IrValue)>, max_processes: usize) -> IrProgram {
    IrProgram {
        name: "scenario".to_string(),
        processes: vec![IrProcess {
            name: "p".to_string(),
            coord: Coord::new(0, 0, 0),
            fields: Vec::new(),
            initial_state: IrState { values: Vec::new() },
            transitions: vec![],
        }],
        events: vec![],
        constants,
        resources: IrResourceBounds {
            max_processes,
            max_events_per_tick: 10000,
            max_coordinate_value: 31,
        },
    }
}

#[test]
fn coord_validity_covers_exact_bounds() {
    for v in [0, 1, 15, 31] {
        assert!(Coord::new(v, 0, 0).is_valid());
        assert!(Coord::new(0, v, 0).is_valid());
        assert!(Coord::new(0, 0, v).is_valid());
    }
    assert!(!Coord::new(-1, 0, 0).is_valid());
    assert!(!Coord::new(32, 0, 0).is_valid());
    assert!(!Coord::new(0, -1, 0).is_valid());
    assert!(!Coord::new(0, 32, 0).is_valid());
    assert!(!Coord::new(0, 0, -1).is_valid());
    assert!(!Coord::new(0, 0, 32).is_valid());
}

#[test]
fn grid_layout_four_processes_spacing_two() {
    let coords = grid_coords(4, 2);
    assert_eq!(coords.len(), 4);
    let expected = [(0, 0, 0), (2, 0, 0), (0, 2, 0), (2, 2, 0)];
    for (i, (x, y, z)) in expected.iter().enumerate() {
        assert_eq!(coords[i].x, *x);
        assert_eq!(coords[i].y, *y);
        assert_eq!(coords[i].z, *z);
    }
    // All distinct.
    for i in 0..4 {
        for j in 0..4 {
            if i != j {
                assert!(coords[i] != coords[j]);
            }
        }
    }
}

#[test]
fn runtime_count_above_declared_ceiling_is_rejected() {
    let program = one_process_program(
        vec![("RUNTIME_PROCESSES".to_string(), IrValue::Integer(50))],
        10,
    );
    let backend = BettiRdlBackend::new_with_defaults();
    let result = backend.generate_code(&program);
    match result {
        Err(greyc::backend::BackendError::ValidationError(msg)) => {
            assert!(msg.contains("exceeds max_processes"));
        }
        other => panic!("expected a validation error, got ok={}", other.is_ok()),
    }
}

#[test]
fn runtime_count_above_kernel_limit_is_rejected() {
    // The engine's fixed pool caps at 2048 even when the IR allows more.
    let program = one_process_program(
        vec![("RUNTIME_PROCESSES".to_string(), IrValue::Integer(5000))],
        100000,
    );
    let backend = BettiRdlBackend::new_with_defaults();
    let result = backend.generate_code(&program);
    match result {
        Err(greyc::backend::BackendError::ValidationError(msg)) => {
            assert!(msg.contains("kernel hard limit 2048"));
        }
        other => panic!("expected a validation error, got ok={}", other.is_ok()),
    }
}

#[test]
fn invalid_declared_coordinate_is_rejected() {
    let mut program = one_process_program(Vec::new(), 1024);
    program.processes[0].coord = Coord::new(40, 0, 0);
    let backend = BettiRdlBackend::new_with_defaults();
    let result = backend.generate_code(&program);
    match result {
        Err(greyc::backend::BackendError::ValidationError(msg)) => {
            assert!(msg.contains("invalid coordinate"));
        }
        other => panic!("expected a validation error, got ok={}", other.is_ok()),
    }
}

#[test]
fn injection_schedule_seed_42_is_reproducible() {
    // Index is drawn before the payload on every round.
    let schedule = injection_schedule(42, 10);
    assert_eq!(schedule, vec![(4, 2), (4, 2), (2, 3), (5, 5)]);

    let again = injection_schedule(42, 10);
    assert_eq!(schedule, again);

    let single = injection_schedule(42, 1);
    assert_eq!(single, vec![(0, 2)]);

    let four = injection_schedule(42, 4);
    assert_eq!(four, vec![(2, 2), (2, 2), (2, 3), (3, 5)]);
}

#[test]
fn injection_schedule_zero_seed_normalizes_to_one() {
    // Zero is a fixed point of xorshift, so seed 0 behaves as seed 1.
    assert_eq!(injection_schedule(0, 3), injection_schedule(1, 3));
}

#[test]
fn injection_schedule_caps_at_four() {
    assert_eq!(injection_schedule(7, 1).len(), 1);
    assert_eq!(injection_schedule(7, 3).len(), 3);
    assert_eq!(injection_schedule(7, 4).len(), 4);
    assert_eq!(injection_schedule(7, 100).len(), 4);
}

#[test]
fn node_id_combines_axes_in_base_32() {
    assert_eq!(node_id(&Coord::new(0, 0, 0)), 0);
    assert_eq!(node_id(&Coord::new(1, 2, 3)), 1 * 1024 + 2 * 32 + 3);
    assert_eq!(node_id(&Coord::new(31, 31, 31)), 32767);
}

#[test]
fn node_id_is_toroidal() {
    for (x, y, z) in [(0, 0, 0), (1, 2, 3), (31, 31, 31), (5, 17, 29)] {
        let base = node_id(&Coord::new(x, y, z));
        assert_eq!(node_id(&Coord::new(x + 32, y, z)), base);
        assert_eq!(node_id(&Coord::new(x, y + 32, z)), base);
        assert_eq!(node_id(&Coord::new(x, y, z + 32)), base);
        assert_eq!(node_id(&Coord::new(x + 64, y + 32, z)), base);
    }
    // Negative axes wrap around upward.
    assert_eq!(node_id(&Coord::new(-1, 0, 0)), 31 * 1024);
    assert_eq!(node_id(&Coord::new(-32, 0, 0)), 0);
    assert_eq!(node_id(&Coord::new(0, -33, 0)), 31 * 32);
}

#[test]
fn engine_delivers_queued_events_in_order() {
    let mut engine = ModelEngine::new();
    engine.spawn_process(0, 0, 0);
    engine.spawn_process(1, 0, 0);
    assert_eq!(engine.process_count(), 2);

    engine.inject_event(0, 0, 0, 5);
    engine.inject_event(1, 0, 0, 7);
    engine.inject_event(0, 0, 0, 1);

    let in_run = engine.run(2);
    assert_eq!(in_run, 2);
    assert_eq!(engine.events_processed(), 2);
    assert_eq!(engine.current_time(), 2);
    assert_eq!(engine.process_state(0), 5);
    assert_eq!(engine.process_state(1024), 7);

    // A non-positive cap drains the rest of the queue.
    let rest = engine.run(0);
    assert_eq!(rest, 1);
    assert_eq!(engine.events_processed(), 3);
    assert_eq!(engine.process_state(0), 6);
}

#[test]
fn self_comparison_achieves_parity() {
    let config = HarnessConfig::default();
    let source = "module SelfTest { process Only { counter: Int, method init() { this.counter = 0; } } }";
    let grey = execute_grey(source, &config).expect("local run");
    let again = execute_grey(source, &config).expect("local run again");

    assert_eq!(grey.events_processed, again.events_processed);
    assert_eq!(grey.current_time, again.current_time);
    assert_eq!(grey.process_states, again.process_states);

    let comparison = compare_runs(grey.clone(), again);
    assert!(comparison.events_match);
    assert!(comparison.current_time_match);
    assert!(comparison.state_differences.is_empty());
    assert!(comparison.parity_achieved);
}

#[test]
fn end_to_end_parity_scenario() {
    // One declared process, no RUNTIME_PROCESSES or MAX_PROCESSES constant,
    // grid layout with spacing 1, 1000 events, seed 42.
    let config = HarnessConfig::default();
    let source = "module Scenario { process Lone { counter: Int, method init() { this.counter = 0; } } }";

    let grey = execute_grey(source, &config).expect("local run");
    assert_eq!(grey.runtime_processes, 1);
    assert_eq!(grey.events_processed, 1);
    assert_eq!(grey.current_time, 1);
    assert_eq!(grey.process_states, vec![(0usize, 2i32)]);

    // A reference run reporting identical telemetry achieves parity.
    let matching = "building reference\n{\"seed_used\": 42, \"max_events\": 1000, \"runtime_processes\": 1, \"spacing\": 1, \"events_processed\": 1, \"current_time\": 1, \"process_states\": {\"0\": 2}}\n";
    let result = run_harness(&config, source, matching).expect("harness run");
    assert!(result.events_match);
    assert!(result.current_time_match);
    assert!(result.state_differences.is_empty());
    assert!(result.parity_achieved);

    // A reference run with a different count or state does not.
    let diverging = "{\"seed_used\": 42, \"max_events\": 1000, \"runtime_processes\": 1, \"spacing\": 1, \"events_processed\": 2, \"current_time\": 1, \"process_states\": {\"0\": 3}}";
    let result = run_harness(&config, source, diverging).expect("harness run");
    assert!(!result.events_match);
    assert!(result.current_time_match);
    assert_eq!(result.state_differences, vec!["pid 0: grey=Some(2) cpp=Some(3)".to_string()]);
    assert!(!result.parity_achieved);
}

#[test]
fn comparison_reports_one_sided_states() {
    let base = {
        let config = HarnessConfig::default();
        let source = "module OneSided { process Only { counter: Int, method init() { this.counter = 0; } } }";
        execute_grey(source, &config).expect("local run")
    };
    let mut cpp = base.clone();
    cpp.process_states = vec![(0usize, 2i32), (5usize, 1i32)];
    let result = compare_runs(base.clone(), cpp);
    assert!(!result.parity_achieved);
    assert_eq!(result.state_differences, vec!["pid 5: grey=None cpp=Some(1)".to_string()]);

    let mut cpp = base.clone();
    cpp.process_states = Vec::new();
    let result = compare_runs(base, cpp);
    assert_eq!(result.state_differences, vec!["pid 0: grey=Some(2) cpp=None".to_string()]);
}

#[test]
fn reference_output_takes_last_json_line() {
    let stdout = "noise\n{\"seed_used\": 1, \"max_events\": 1, \"runtime_processes\": 1, \"spacing\": 1, \"events_processed\": 1, \"current_time\": 1, \"process_states\": {}}\nmore noise\n  {\"seed_used\": 9, \"max_events\": 2, \"runtime_processes\": 3, \"spacing\": 4, \"events_processed\": 5, \"current_time\": 6, \"process_states\": {\"7\": 8, \"2\": -1}}\ntrailing";
    let parsed = parse_reference_output(stdout).expect("parse");
    assert_eq!(parsed.seed_used, 9);
    assert_eq!(parsed.max_events, 2);
    assert_eq!(parsed.runtime_processes, 3);
    assert_eq!(parsed.spacing, 4);
    assert_eq!(parsed.events_processed, 5);
    assert_eq!(parsed.current_time, 6);
    assert_eq!(parsed.execution_time_ns, 0);
    assert_eq!(parsed.process_states, vec![(2usize, -1i32), (7usize, 8i32)]);
}

#[test]
fn reference_output_rejects_bad_pid_keys() {
    let stdout = "{\"seed_used\": 1, \"max_events\": 1, \"runtime_processes\": 1, \"spacing\": 1, \"events_processed\": 1, \"current_time\": 1, \"process_states\": {\"x1\": 2}}";
    let result = parse_reference_output(stdout);
    assert!(result.is_err());
}

#[test]
fn reference_output_requires_a_json_line() {
    assert!(parse_reference_output("no snapshot here").is_err());
    assert!(parse_reference_output("").is_err());
    // A JSON line missing a required field is rejected too.
    assert!(parse_reference_output("{\"seed_used\": 1}").is_err());
}

#[test]
fn validator_artifact_embeds_expected_counts() {
    let program = one_process_program(
        vec![("MAX_PROCESSES".to_string(), IrValue::Integer(10))],
        1024,
    );
    let backend = BettiRdlBackend::new_with_defaults();
    let output = backend.generate_code(&program).unwrap();
    let (name, content) = &output.files[1];
    assert!(name.contains("_validation.rs"));
    assert!(content.contains("expected_processes: 10,"));
    assert!(content.contains("expected_events: 0,"));
    assert!(content.contains("Validator"));
}

#[test]
fn generated_artifacts_are_deterministic_text() {
    let program = one_process_program(Vec::new(), 1024);
    let backend = BettiRdlBackend::new_with_defaults();
    let a = backend.generate_code(&program).unwrap();
    let b = backend.generate_code(&program).unwrap();
    assert_eq!(a.files[0].1, b.files[0].1);
    assert_eq!(a.files[1].1, b.files[1].1);
    assert!(a.files[0].0.ends_with("_betti.rs"));
}

#[test]
fn estimate_reflects_bounded_events_and_processes() {
    // Two events bounded by the cap, one runtime process: 2 * 1000ns + 500ns.
    let mut program = one_process_program(Vec::new(), 1024);
    program.events.push(greyc::ir::IrEvent { name: "A".to_string(), fields: Vec::new() });
    program.events.push(greyc::ir::IrEvent { name: "B".to_string(), fields: Vec::new() });
    let backend = BettiRdlBackend::new_with_defaults();
    let output = backend.generate_code(&program).unwrap();
    assert_eq!(output.metadata.expected_execution_time, Some(2500));
    let telemetry = backend.execute(&output).unwrap();
    assert_eq!(telemetry.execution_time_ns, 2500);
}

#[test]
fn single_node_placement_resolves_to_one_process() {
    let program = one_process_program(
        vec![("RUNTIME_PROCESSES".to_string(), IrValue::Integer(64))],
        1024,
    );
    let backend = BettiRdlBackend::new(BettiConfig {
        process_placement: ProcessPlacement::SingleNode,
        max_events: 1000,
        seed: 42,
        telemetry_enabled: true,
        validate_coordinates: true,
    });
    // SingleNode ignores the runtime-count constants.
    let output = backend.generate_code(&program).unwrap();
    assert_eq!(output.metadata.runtime_process_count, 1);
}

#[test]
fn grid_count_resolution_precedence() {
    let backend = BettiRdlBackend::new_with_defaults();

    // RUNTIME_PROCESSES wins over MAX_PROCESSES.
    let program = one_process_program(
        vec![
            ("RUNTIME_PROCESSES".to_string(), IrValue::Integer(3)),
            ("MAX_PROCESSES".to_string(), IrValue::Integer(9)),
        ],
        1024,
    );
    let output = backend.generate_code(&program).unwrap();
    assert_eq!(output.metadata.runtime_process_count, 3);

    // MAX_PROCESSES is the fallback.
    let program = one_process_program(
        vec![("MAX_PROCESSES".to_string(), IrValue::Integer(9))],
        1024,
    );
    let output = backend.generate_code(&program).unwrap();
    assert_eq!(output.metadata.runtime_process_count, 9);

    // A non-positive constant falls back to the declared process list.
    let program = one_process_program(
        vec![("RUNTIME_PROCESSES".to_string(), IrValue::Integer(0))],
        1024,
    );
    let output = backend.generate_code(&program).unwrap();
    assert_eq!(output.metadata.runtime_process_count, 1);
}

#[test]
fn config_options_cover_the_backend_surface() {
    let backend = BettiRdlBackend::new_with_defaults();
    let options = backend.config_options();
    assert_eq!(options.len(), 4);
    let names: Vec<&str> = options.iter().map(|o| o.name.as_str()).collect();
    assert!(names.contains(&"process_placement"));
    assert!(names.contains(&"max_events"));
    assert!(names.contains(&"seed"));
    assert!(names.contains(&"telemetry_enabled"));
    assert_eq!(options[1].default, "1000");
}

#[test]
fn zero_cap_falls_back_to_event_count() {
    // A zero cap never means unbounded execution: the run is capped by the
    // program's own event count.
    let mut program = one_process_program(Vec::new(), 1024);
    program.events.push(greyc::ir::IrEvent { name: "A".to_string(), fields: Vec::new() });
    program.events.push(greyc::ir::IrEvent { name: "B".to_string(), fields: Vec::new() });
    let backend = BettiRdlBackend::new(BettiConfig {
        max_events: 0,
        ..Default::default()
    });
    let output = backend.generate_code(&program).unwrap();
    let telemetry = backend.execute(&output).unwrap();
    // One injection is scheduled and the effective cap (two events) admits it.
    assert_eq!(telemetry.events_processed, 1);

    // With no declared events the effective cap is zero: nothing runs.
    let program = one_process_program(Vec::new(), 1024);
    let output = backend.generate_code(&program).unwrap();
    let telemetry = backend.execute(&output).unwrap();
    assert_eq!(telemetry.events_processed, 0);
}

#[test]
fn oversized_custom_placement_is_rejected_not_excluded() {
    // A custom map larger than the engine pool flows to admission control.
    let mut mapping = Vec::new();
    for i in 0..3000usize {
        let x = (i % 32) as i32;
        let y = ((i / 32) % 32) as i32;
        let z = ((i / 1024) % 32) as i32;
        mapping.push((format!("n{}", i), Coord::new(x, y, z)));
    }
    let backend = BettiRdlBackend::new(BettiConfig {
        process_placement: ProcessPlacement::Custom(mapping),
        max_events: 1000,
        seed: 42,
        telemetry_enabled: true,
        validate_coordinates: true,
    });
    let program = one_process_program(Vec::new(), 100000);
    match backend.generate_code(&program) {
        Err(greyc::backend::BackendError::ValidationError(msg)) => {
            assert!(msg.contains("kernel hard limit 2048"));
        }
        other => panic!("expected a validation error, got ok={}", other.is_ok()),
    }
}

#[test]
fn redeclared_constant_takes_later_value() {
    let source = "module Redeclared { const RUNTIME_PROCESSES = 2; const RUNTIME_PROCESSES = 3; process P { counter: Int, } }";
    let typed = greyc::compile(source).expect("compile");
    let mut builder = greyc::ir::IrBuilder::new();
    let program = builder.build_program("redeclared", &typed).expect("ir");
    let backend = BettiRdlBackend::new_with_defaults();
    let output = backend.generate_code(&program).unwrap();
    assert_eq!(output.metadata.runtime_process_count, 3);
}

#[test]
fn top_level_content_must_be_a_module() {
    assert!(greyc::compile("junk module M { }").is_err());
    assert!(greyc::compile("42").is_err());
    assert!(greyc::compile("module M { }").is_ok());
}

#[test]
fn harness_defaults_match_the_protocol() {
    let config = HarnessConfig::default();
    assert_eq!(config.seed, 42);
    assert_eq!(config.max_events, 1000);
    assert_eq!(config.spacing, 1);
    assert_eq!(config.demo_path, "examples/sir_demo.grey");
    assert!(config.cpp_exe_override.is_none());
}

#[test]
fn compile_rejects_unterminated_strings() {
    let result = greyc::compile("module M { const S = \"unterminated; }");
    assert!(result.is_err());
}

#[test]
fn error_messages_name_their_stage() {
    let err = greyc::backend::BackendError::ValidationError("boom".to_string());
    assert_eq!(err.message(), "Validation failed: boom");
    let err = greyc::ir::IrError::TypeMismatch("bad".to_string());
    assert_eq!(err.message(), "Type mismatch: bad");
}

#[test]
fn decimal_rendering_is_exact() {
    assert_eq!(greyc::text::u64_to_string(0), "0");
    assert_eq!(greyc::text::u64_to_string(42), "42");
    assert_eq!(greyc::text::u64_to_string(18446744073709551615), "18446744073709551615");
    assert_eq!(greyc::text::i64_to_string(-1), "-1");
    assert_eq!(greyc::text::i64_to_string(-9223372036854775808), "-9223372036854775808");
    assert_eq!(greyc::text::i32_to_string(-2048), "-2048");
}
