use pirates::engine::{substeps, Engine, TICK_MS};
use pirates::noise::generate;

#[test]
fn table_generated_on_first_demand() {
    let mut engine = Engine::new();
    assert!(engine.table.is_none());
    engine.ensure_table(0xB00B5);
    let table = engine.table.as_ref().expect("table generated");
    assert_eq!(table.len(), 512);
    assert_eq!(table, &generate(0xB00B5));
}

#[test]
fn table_generated_only_once() {
    let mut engine = Engine::new();
    engine.ensure_table(0xB00B5);
    let first = engine.table.clone();
    engine.ensure_table(999);
    assert_eq!(engine.table, first);
}

#[test]
fn new_engine_has_no_pending_input() {
    let mut engine = Engine::new();
    assert_eq!(engine.inputs.len(), 0);
    engine.inputs.push(65, 0);
    assert_eq!(engine.inputs.len(), 1);
    assert_eq!(engine.inputs.pop(), Some((65, 0)));
}

#[test]
fn substep_schedule() {
    assert_eq!(TICK_MS, 50);
    assert_eq!(substeps(160), (3, 10));
    assert_eq!(substeps(16), (0, 16));
    assert_eq!(substeps(50), (1, 0));
    assert_eq!(substeps(0), (0, 0));
    assert_eq!(substeps(1000), (20, 0));
}

#[test]
fn substep_schedule_accounts_for_whole_frame() {
    for elapsed in [0u32, 1, 16, 49, 50, 51, 160, 333, 1000] {
        let (full, rest) = substeps(elapsed);
        assert_eq!(full * TICK_MS + rest, elapsed);
        assert!(rest < TICK_MS);
    }
}
