//! Tests for the Betti RDL backend and the IR core.

use greyc::backend::ProcessPlacement;
use greyc::betti_rdl::{BettiConfig, BettiRdlBackend};
use greyc::ir::{Coord, IrBuilder, IrProcess, IrProgram, IrResourceBounds, IrState};
use greyc::types::TypedProgram;

fn create_test_program() -> IrProgram {
    IrProgram {
        name: "test_program".to_string(),
        processes: vec![IrProcess {
            name: "test_process".to_string(),
            coord: Coord::new(0, 0, 0),
            fields: Vec::new(),
            initial_state: IrState { values: Vec::new() },
            transitions: vec![],
        }],
        events: vec![],
        constants: Vec::new(),
        resources: IrResourceBounds::default(),
    }
}

#[test]
fn test_backend_creation() {
    let backend = BettiRdlBackend::new_with_defaults();
    assert_eq!(backend.config.max_events, 1000);
}

#[test]
fn test_code_generation() {
    let backend = BettiRdlBackend::new_with_defaults();
    let program = create_test_program();

    let output = backend.generate_code(&program).unwrap();
    assert!(!output.files.is_empty());
    assert!(output.metadata.process_count > 0);
}

#[test]
fn test_execution() {
    let backend = BettiRdlBackend::new_with_defaults();
    let program = create_test_program();

    let output = backend.generate_code(&program).unwrap();
    let telemetry = backend.execute(&output).unwrap();

    // events_processed is u64, so always >= 0
    assert!(telemetry.events_processed == telemetry.events_processed);
}

#[test]
fn test_coord_validation() {
    let valid = Coord::new(15, 0, 31);
    assert!(valid.is_valid());

    let invalid = Coord::new(-1, 32, 15);
    assert!(!invalid.is_valid());
}

#[test]
fn test_ir_builder() {
    let mut builder = IrBuilder::new();
    // Basic builder construction test: a fresh builder holds no program
    // state, and building from an empty typed program yields an empty one.
    let empty = TypedProgram { modules: Vec::new() };
    let program = builder.build_program("empty", &empty).unwrap();
    assert_eq!(program.processes.len(), 0);
    assert_eq!(program.events.len(), 0);
}

#[test]
fn test_single_node_placement() {
    let backend = BettiRdlBackend::new(BettiConfig {
        process_placement: ProcessPlacement::SingleNode,
        max_events: 1000,
        seed: 42,
        telemetry_enabled: true,
        validate_coordinates: true,
    });
    let program = create_test_program();
    let output = backend.generate_code(&program).unwrap();
    assert_eq!(output.metadata.runtime_process_count, 1);
    let telemetry = backend.execute(&output).unwrap();
    assert_eq!(telemetry.process_states.len(), 1);
}

#[test]
fn test_custom_placement_sorted_spawn_order() {
    let mapping = vec![
        ("beta".to_string(), Coord::new(1, 0, 0)),
        ("alpha".to_string(), Coord::new(2, 0, 0)),
    ];
    let backend = BettiRdlBackend::new(BettiConfig {
        process_placement: ProcessPlacement::Custom(mapping),
        max_events: 1000,
        seed: 42,
        telemetry_enabled: true,
        validate_coordinates: true,
    });
    let program = create_test_program();
    let output = backend.generate_code(&program).unwrap();
    assert_eq!(output.metadata.runtime_process_count, 2);
    // The generated coordinate table is sorted by name: alpha before beta.
    let (_, content) = &output.files[0];
    let alpha = content.find("\"alpha\"").unwrap();
    let beta = content.find("\"beta\"").unwrap();
    assert!(alpha < beta);
}
