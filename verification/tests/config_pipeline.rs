use circom_scotia::circuit::InstantiateError;
use circom_scotia::config::{CircomConfig, CircomConfigError, EnginePending, PathKind};
use circom_scotia::field::FieldElement;
use circom_scotia::r1cs::R1CS;

/// A stand-in engine handle; the pipeline never looks inside it.
#[derive(Debug, PartialEq, Eq)]
struct DummyEngine(u32);

fn fe(v: u8) -> FieldElement {
    FieldElement::new(vec![v])
}

fn demo_shape() -> R1CS {
    R1CS {
        num_pub_in: 1,
        num_pub_out: 0,
        num_inputs: 2,
        num_aux: 2,
        num_variables: 4,
        constraints: vec![(vec![(0, fe(1))], vec![(1, fe(1))], vec![(2, fe(1))])],
    }
}

fn build_config(engine: DummyEngine, shape: R1CS) -> CircomConfig<DummyEngine> {
    let pending = EnginePending::start(
        Some(String::from("circuit.wasm")),
        Some(String::from("circuit.r1cs")),
    )
    .unwrap();
    let pending = pending.engine_loaded(Ok::<DummyEngine, String>(engine)).unwrap();
    pending.shape_loaded(Ok(shape)).unwrap()
}

#[test]
fn construction_succeeds_on_valid_parts() {
    let config = build_config(DummyEngine(7), demo_shape());
    assert_eq!(config.r1cs.num_variables, 4);
    assert_eq!(config.r1cs.num_inputs, 2);
    assert_eq!(config.r1cs.num_aux, 2);
    assert!(!config.sanity_check);
    assert_eq!(config.wtns, DummyEngine(7));
    assert_eq!(config.r1cs.validate(), Ok(()));
}

#[test]
fn missing_engine_path_is_a_filename_error() {
    let r = EnginePending::start(None, Some(String::from("circuit.r1cs")));
    assert_eq!(r.err(), Some(CircomConfigError::FilenameError { which: PathKind::Engine }));
}

#[test]
fn missing_shape_path_is_a_filename_error() {
    let r = EnginePending::start(Some(String::from("circuit.wasm")), None);
    assert_eq!(r.err(), Some(CircomConfigError::FilenameError { which: PathKind::Shape }));
}

#[test]
fn engine_failure_carries_the_engine_path() {
    let pending = EnginePending::start(
        Some(String::from("/nowhere/circuit.wasm")),
        Some(String::from("circuit.r1cs")),
    )
    .unwrap();
    let r = pending.engine_loaded(Err::<DummyEngine, String>(String::from("no such file")));
    // The build ends here: without the engine-loaded state, the shape-load
    // step cannot even be reached.
    assert_eq!(
        r.err(),
        Some(CircomConfigError::WitnessCalculatorInstantiationError {
            path: String::from("/nowhere/circuit.wasm"),
            source: String::from("no such file"),
        })
    );
}

#[test]
fn shape_failure_carries_the_shape_path() {
    let pending = EnginePending::start(
        Some(String::from("circuit.wasm")),
        Some(String::from("/nowhere/circuit.r1cs")),
    )
    .unwrap();
    let pending = pending.engine_loaded(Ok::<DummyEngine, String>(DummyEngine(1))).unwrap();
    let r = pending.shape_loaded(Err(String::from("bad header")));
    assert_eq!(
        r.err(),
        Some(CircomConfigError::LoadR1CSError {
            path: String::from("/nowhere/circuit.r1cs"),
            source: String::from("bad header"),
        })
    );
}

#[test]
fn instantiate_without_inputs_is_shape_only() {
    let config = build_config(DummyEngine(2), demo_shape());
    let inst = config.instantiate_without_inputs();
    assert!(inst.witness.is_none());
    assert_eq!(inst.r1cs, demo_shape());
}

#[test]
fn witness_of_right_length_binds() {
    let mut config = build_config(DummyEngine(2), demo_shape());
    config.sanity_check = true;
    let witness = vec![fe(1), fe(5), fe(6), fe(30)];
    let inst = config.bind_witness(Ok(witness.clone())).unwrap();
    assert_eq!(inst.witness, Some(witness));
    assert_eq!(inst.r1cs, demo_shape());
}

#[test]
fn truncated_witness_is_rejected_when_sanity_checking() {
    let mut config = build_config(DummyEngine(2), demo_shape());
    config.sanity_check = true;
    let r = config.bind_witness(Ok(vec![fe(1), fe(5)]));
    assert_eq!(r.err(), Some(InstantiateError::WitnessLength { expected: 4, actual: 2 }));
}

#[test]
fn truncated_witness_is_deferred_without_sanity_check() {
    let config = build_config(DummyEngine(2), demo_shape());
    let inst = config.bind_witness(Ok(vec![fe(1), fe(5)])).unwrap();
    assert_eq!(inst.witness, Some(vec![fe(1), fe(5)]));
}

#[test]
fn cloned_instance_matches_original() {
    let config = build_config(DummyEngine(2), demo_shape());
    let inst = config.bind_witness(Ok(vec![fe(1), fe(5), fe(6), fe(30)])).unwrap();
    let copy = inst.clone();
    assert_eq!(copy, inst);
}

#[test]
fn engine_compute_failure_is_passed_through() {
    let config = build_config(DummyEngine(2), demo_shape());
    let r = config.bind_witness(Err(String::from("assertion failed in circuit")));
    assert_eq!(
        r.err(),
        Some(InstantiateError::EngineCompute { source: String::from("assertion failed in circuit") })
    );
}
