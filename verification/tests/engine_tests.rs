use pecos::command_queue::CommandQueue;
use pecos::engine_types;
use pecos::engines::{
    can_run, new_quantum_engine, record_outcome, run_shot_commands, CliffordEngine, QuantumEngine,
    QueueError,
};
use pecos::gate::Gate;
use pecos::noise::{apply_noise_with, x_gates, y_gates, z_gate, PauliError, PI_BITS};
use pecos::phir::{Operation, PHIREngine, PHIRProgram};
use pecos::program_kind::{program_type, ProgramType};
use pecos::shot_statistics::{measurement_counts, KeyCounts};
use pecos::protocol::{
    command_batch_text, format_command, measurement_key_text, parse_measurement,
    process_quantum_command, read_engine_output, read_shot_output, record_measurement,
    result_reply, OutputState, ShotAction,
};
use pecos::qsim::pauli_prop::PauliProp;
use pecos::text::split_whitespace;
use pecos::text_map::TextMap;
use pecos::types::{GateType, QuantumCommand, QubitStats, ShotResult, ShotResults};

fn angles_of(parts: &[String]) -> Vec<Result<u64, String>> {
    parts
        .iter()
        .map(|p| p.parse::<f64>().map(f64::to_bits).map_err(|e| e.to_string()))
        .collect()
}

fn parse(cmd: &str) -> Result<QuantumCommand, String> {
    let parts = split_whitespace(cmd);
    let angles = angles_of(&parts);
    QuantumCommand::from_parts(&parts, &angles)
}

fn parse_engine(cmd: &str) -> Result<engine_types::QuantumCommand, String> {
    let parts = split_whitespace(cmd);
    let angles = angles_of(&parts);
    engine_types::QuantumCommand::from_parts(&parts, &angles)
}

fn cmd(gate: GateType, qubits: Vec<usize>) -> QuantumCommand {
    QuantumCommand { gate, qubits }
}

#[test]
fn test_qubit_stats_counts() {
    let mut s = QubitStats::new();
    s.add_measurement(0);
    s.add_measurement(1);
    s.add_measurement(1);
    s.add_measurement(7);
    assert_eq!(s.zeros, 1);
    assert_eq!(s.ones, 2);
    assert_eq!(s.total_measurements(), 3);
    assert_eq!(QubitStats::default().total_measurements(), 0);
}

#[test]
fn test_text_map_insert_get() {
    let mut m: TextMap<u32> = TextMap::new();
    m.insert("b".to_string(), 2);
    m.insert("a".to_string(), 1);
    m.insert("b".to_string(), 3);
    assert_eq!(m.len(), 2);
    assert_eq!(m.get("a"), Some(&1));
    assert_eq!(m.get("b"), Some(&3));
    assert_eq!(m.get("c"), None);
    let keys: Vec<&str> = m.entries().iter().map(|e| e.0.as_str()).collect();
    assert_eq!(keys, vec!["a", "b"]);
}

#[test]
fn test_shot_results_from_measurements() {
    let mut shot = ShotResult::new();
    shot.measurements.insert("measurement_1".to_string(), 1);
    shot.measurements.insert("measurement_0".to_string(), 0);
    shot.measurements.insert("c".to_string(), 42);
    let mut plain = ShotResult::default();
    plain.measurements.insert("x".to_string(), 5);
    let results = ShotResults::from_measurements(&[shot, plain]);
    assert_eq!(results.shots.len(), 2);
    assert_eq!(results.shots[0].get("result").map(|s| s.as_str()), Some("01"));
    assert_eq!(results.shots[0].get("c").map(|s| s.as_str()), Some("42"));
    assert_eq!(results.shots[0].get("measurement_0"), None);
    assert_eq!(results.shots[1].get("result"), None);
    assert_eq!(results.shots[1].get("x").map(|s| s.as_str()), Some("5"));
    assert_eq!(
        results.to_display_string(),
        "[\n  {\"c\": \"42\", \"result\": \"01\"},\n  {\"x\": \"5\"}\n]"
    );
    assert_eq!(ShotResults::new().to_display_string(), "[\n]");
}

#[test]
fn test_parse_commands() {
    let c = parse("RZ 0.5 1").unwrap();
    assert_eq!(c.gate, GateType::RZ { theta: 0.5f64.to_bits() });
    assert_eq!(c.qubits, vec![1]);
    let c = parse("R1XY 0.1 0.2 0").unwrap();
    assert_eq!(c.gate, GateType::R1XY { phi: 0.1f64.to_bits(), theta: 0.2f64.to_bits() });
    let c = parse("SZZ 0 1").unwrap();
    assert_eq!((c.gate, c.qubits), (GateType::SZZ, vec![0, 1]));
    let c = parse("M 0 42").unwrap();
    assert_eq!((c.gate, c.qubits), (GateType::Measure { result_id: 42 }, vec![0]));
    let c = parse("  H\t3 ").unwrap();
    assert_eq!((c.gate, c.qubits), (GateType::H, vec![3]));
    let c = parse("CX 2 5").unwrap();
    assert_eq!((c.gate, c.qubits), (GateType::CX, vec![2, 5]));
}

#[test]
fn test_parse_command_errors() {
    assert_eq!(parse("").unwrap_err(), "Unknown command type: <empty>");
    assert_eq!(parse("FOO 1").unwrap_err(), "Unknown command type: FOO");
    assert_eq!(parse("RZ 0.5").unwrap_err(), "Invalid RZ format");
    assert_eq!(parse("H 1 2").unwrap_err(), "Invalid H format");
    assert_eq!(
        parse("RZ abc 1").unwrap_err(),
        format!("Invalid theta: {}", "abc".parse::<f64>().unwrap_err())
    );
    assert_eq!(
        parse("H x").unwrap_err(),
        format!("Invalid qubit: {}", "x".parse::<usize>().unwrap_err())
    );
    assert_eq!(
        parse("M x y").unwrap_err(),
        format!("Invalid result_id: {}", "y".parse::<usize>().unwrap_err())
    );
    assert_eq!(
        parse("CX 1 -2").unwrap_err(),
        format!("Invalid target qubit: {}", "-2".parse::<usize>().unwrap_err())
    );
}

#[test]
fn test_parse_engine_commands() {
    let c = parse_engine("RXY 0.1 0.2 3").unwrap();
    assert_eq!(
        c.gate,
        engine_types::GateType::RXY { phi: 0.1f64.to_bits(), theta: 0.2f64.to_bits() }
    );
    assert_eq!(c.qubits, vec![3]);
    let c = parse_engine("ZZ 1 2").unwrap();
    assert_eq!((c.gate, c.qubits), (engine_types::GateType::ZZ, vec![1, 2]));
    assert_eq!(parse_engine("H 1").unwrap_err(), "Unknown command type: H");
    assert_eq!(parse_engine("ZZ 1").unwrap_err(), "Invalid ZZ format");
}

#[test]
fn test_clifford_engine() {
    let mut sim = PauliProp::new();
    sim.add_x(0);
    let mut engine = CliffordEngine::new(sim);
    assert_eq!(engine.process_command(&cmd(GateType::Measure { result_id: 0 }, vec![0])), Ok(Some(1)));
    assert_eq!(engine.process_command(&cmd(GateType::Measure { result_id: 1 }, vec![1])), Ok(Some(0)));
    assert_eq!(engine.process_command(&cmd(GateType::H, vec![0])), Ok(None));
    assert_eq!(engine.process_command(&cmd(GateType::Measure { result_id: 2 }, vec![0])), Ok(Some(0)));
    assert_eq!(engine.process_command(&cmd(GateType::CX, vec![0, 1])), Ok(None));
    assert_eq!(
        engine.process_command(&cmd(GateType::RZ { theta: PI_BITS }, vec![0])),
        Err(QueueError::OperationError(
            "This simulator only supports Clifford operations".to_string()
        ))
    );
    assert_eq!(engine.reset_state(), Ok(()));
    let mut fresh = new_quantum_engine(PauliProp::new());
    assert_eq!(fresh.process_command(&cmd(GateType::SZZ, vec![0, 1])), Ok(None));
    assert_eq!(fresh.process_command(&cmd(GateType::Measure { result_id: 0 }, vec![1])), Ok(Some(0)));
}

#[test]
fn test_queue_error_messages() {
    assert_eq!(
        QueueError::LockError("x".to_string()).message(),
        "Queue lock error: x"
    );
    assert_eq!(
        QueueError::OperationError("y".to_string()).message(),
        "Queue operation error: y"
    );
    assert_eq!(
        QueueError::ExecutionError("z".to_string()).message(),
        "Program execution error: z"
    );
    assert_eq!(
        QueueError::SerializationError("w".to_string()).message(),
        "Serialization error: w"
    );
}

type Mat = [[(f64, f64); 2]; 2];

fn mat_of(gate: GateType) -> Mat {
    let r = std::f64::consts::FRAC_1_SQRT_2;
    match gate {
        GateType::H => [[(r, 0.0), (r, 0.0)], [(r, 0.0), (-r, 0.0)]],
        GateType::RZ { theta } => {
            let t = f64::from_bits(theta) / 2.0;
            [[(t.cos(), -t.sin()), (0.0, 0.0)], [(0.0, 0.0), (t.cos(), t.sin())]]
        }
        _ => panic!("not a one-qubit gate of the noise model"),
    }
}

fn mat_mul(a: &Mat, b: &Mat) -> Mat {
    let mut m = [[(0.0, 0.0); 2]; 2];
    for i in 0..2 {
        for j in 0..2 {
            for k in 0..2 {
                let (x, y) = a[i][k];
                let (u, v) = b[k][j];
                m[i][j].0 += x * u - y * v;
                m[i][j].1 += x * v + y * u;
            }
        }
    }
    m
}

/// Whether the commands, applied in order, make `target` up to a global phase.
fn equals_up_to_phase(cmds: &[QuantumCommand], target: &Mat) -> bool {
    let mut m: Mat = [[(1.0, 0.0), (0.0, 0.0)], [(0.0, 0.0), (1.0, 0.0)]];
    for c in cmds {
        m = mat_mul(&mat_of(c.gate), &m);
    }
    // the phase c with m = c * target, read off the largest entry of target
    let (i, j) = if target[0][0].0.abs() + target[0][0].1.abs() > 0.5 { (0, 0) } else { (0, 1) };
    let (tr, ti) = target[i][j];
    let (mr, mi) = m[i][j];
    let d = tr * tr + ti * ti;
    let (cr, ci) = ((mr * tr + mi * ti) / d, (mi * tr - mr * ti) / d);
    if ((cr * cr + ci * ci) - 1.0).abs() > 1e-9 {
        return false;
    }
    (0..2).all(|a| {
        (0..2).all(|b| {
            let (x, y) = target[a][b];
            let (er, ei) = (cr * x - ci * y, cr * y + ci * x);
            (er - m[a][b].0).abs() < 1e-9 && (ei - m[a][b].1).abs() < 1e-9
        })
    })
}

#[test]
fn test_noise_gate_sequences() {
    let x = x_gates(3);
    assert_eq!(x.len(), 3);
    assert_eq!(x[0].gate, GateType::H);
    assert_eq!(x[1].gate, GateType::RZ { theta: PI_BITS });
    assert_eq!(x[2].gate, GateType::H);
    assert!(x.iter().all(|c| c.qubits == vec![3]));
    let y = y_gates(1);
    assert_eq!(y.len(), 4);
    assert!(y.iter().all(|c| c.qubits == vec![1]));
    assert_eq!(z_gate(2).gate, GateType::RZ { theta: PI_BITS });
    assert_eq!(z_gate(2).qubits, vec![2]);
    assert_eq!(PI_BITS, std::f64::consts::PI.to_bits());
    let pauli_x: Mat = [[(0.0, 0.0), (1.0, 0.0)], [(1.0, 0.0), (0.0, 0.0)]];
    let pauli_y: Mat = [[(0.0, 0.0), (0.0, -1.0)], [(0.0, 1.0), (0.0, 0.0)]];
    let pauli_z: Mat = [[(1.0, 0.0), (0.0, 0.0)], [(0.0, 0.0), (-1.0, 0.0)]];
    assert!(equals_up_to_phase(&x, &pauli_x));
    assert!(equals_up_to_phase(&y, &pauli_y));
    assert!(equals_up_to_phase(&[z_gate(0)], &pauli_z));
    assert!(!equals_up_to_phase(&x, &pauli_y));
}

#[test]
fn test_apply_noise_with() {
    let cmds = vec![cmd(GateType::CX, vec![0, 1]), cmd(GateType::H, vec![2])];
    let none = vec![vec![None, None], vec![None]];
    let out = apply_noise_with(&cmds, &none);
    assert_eq!(out.len(), 2);
    let errs = vec![vec![None, Some(PauliError::Z)], vec![Some(PauliError::X)]];
    let out = apply_noise_with(&cmds, &errs);
    let gates: Vec<GateType> = out.iter().map(|c| c.gate).collect();
    assert_eq!(
        gates,
        vec![
            GateType::CX,
            GateType::RZ { theta: PI_BITS },
            GateType::H,
            GateType::H,
            GateType::RZ { theta: PI_BITS },
            GateType::H
        ]
    );
    assert_eq!(out[1].qubits, vec![1]);
    assert_eq!(out[3].qubits, vec![2]);
}

#[test]
fn test_format_and_batch() {
    let none = String::new();
    let t = "0.5".to_string();
    let p = "0.1".to_string();
    assert_eq!(format_command(&cmd(GateType::RZ { theta: 0 }, vec![1]), &none, &t), "RZ 0.5 1");
    assert_eq!(
        format_command(&cmd(GateType::R1XY { phi: 0, theta: 0 }, vec![0]), &p, &t),
        "R1XY 0.1 0.5 0"
    );
    assert_eq!(format_command(&cmd(GateType::SZZ, vec![0, 12]), &none, &none), "SZZ 0 12");
    assert_eq!(format_command(&cmd(GateType::H, vec![7]), &none, &none), "H 7");
    assert_eq!(format_command(&cmd(GateType::CX, vec![1, 2]), &none, &none), "CX 1 2");
    assert_eq!(
        format_command(&cmd(GateType::Measure { result_id: 42 }, vec![0]), &none, &none),
        "M 0 42"
    );
    let batch = command_batch_text(&vec!["H 0".to_string(), "M 0 0".to_string()]);
    assert_eq!(batch, "FLUSH_BEGIN\nCMD H 0\nCMD M 0 0\nFLUSH_END\n");
}

#[test]
fn test_parse_measurement_lines() {
    assert_eq!(parse_measurement(" 1\n"), Ok(1));
    assert_eq!(parse_measurement("+7"), Ok(7));
    let e = parse_measurement("x").unwrap_err();
    assert_eq!(
        e,
        QueueError::OperationError(format!(
            "Invalid measurement: {}",
            "x".parse::<u32>().unwrap_err()
        ))
    );
}

#[test]
fn test_engine_output_reading() {
    let (s, c) = read_engine_output(OutputState::Seeking, "hello\n");
    assert_eq!((s, c), (OutputState::Seeking, None));
    let (s, c) = read_engine_output(s, " FLUSH_BEGIN\n");
    assert_eq!((s, c), (OutputState::InBlock, None));
    let (s, c) = read_engine_output(s, "CMD H 0\n");
    assert_eq!((s, c), (OutputState::InBlock, Some("H 0".to_string())));
    let (s, c) = read_engine_output(s, "noise\n");
    assert_eq!((s, c), (OutputState::InBlock, None));
    let (s, c) = read_engine_output(s, "FLUSH_END\n");
    assert_eq!((s, c), (OutputState::Done, None));
}

#[test]
fn test_shot_output_reading() {
    let (s, a) = read_shot_output(OutputState::Seeking, "FLUSH_BEGIN\n", 0);
    assert_eq!(s, OutputState::InBlock);
    assert!(matches!(a, ShotAction::Continue));
    let (s, a) = read_shot_output(s, "CMD H 0\n", 1);
    assert!(matches!(a, ShotAction::Continue));
    let (s, a) = read_shot_output(s, "CMD M 0 0\n", 1);
    assert!(matches!(a, ShotAction::Reply(1)));
    let (_, a) = read_shot_output(s, "CMD M 0\n", 1);
    match a {
        ShotAction::Fail(e) => assert_eq!(
            e,
            QueueError::OperationError("Invalid M command format".to_string())
        ),
        other => panic!("unexpected {other:?}"),
    }
    let (s, _) = read_shot_output(s, "FLUSH_END\n", 0);
    assert_eq!(s, OutputState::Seeking);
    let (s, a) = read_shot_output(s, "RESULT measurement_0 1\n", 0);
    assert_eq!(s, OutputState::Seeking);
    match a {
        ShotAction::Record { key, value } => {
            assert_eq!(key, "measurement_0");
            assert_eq!(value, 1);
        }
        other => panic!("unexpected {other:?}"),
    }
    let (_, a) = read_shot_output(OutputState::Seeking, "RESULT a b c\n", 0);
    assert!(matches!(a, ShotAction::Continue));
}

#[test]
fn test_process_quantum_command_replies() {
    assert_eq!(process_quantum_command("RZ 0.1 0", 1), Ok(None));
    assert_eq!(process_quantum_command("M 0 3", 0), Ok(Some(0)));
    assert_eq!(
        process_quantum_command("FOO", 0),
        Err(QueueError::OperationError("Unknown command: FOO".to_string()))
    );
}

#[test]
fn test_record_measurement_keys() {
    let mut r = ShotResult::new();
    record_measurement(&mut r, 1);
    record_measurement(&mut r, 0);
    assert_eq!(r.measurements.get("measurement_0"), Some(&1));
    assert_eq!(r.measurements.get("measurement_1"), Some(&0));
    assert_eq!(measurement_key_text(12), "measurement_12");
}

#[test]
fn test_command_queue_fifo() {
    let mut q = CommandQueue::new();
    assert!(q.is_empty());
    q.push(parse_engine("ZZ 0 1").unwrap());
    q.push(parse_engine("M 0 0").unwrap());
    assert_eq!(q.len(), 2);
    assert_eq!(q.pop().unwrap().gate, engine_types::GateType::ZZ);
    assert_eq!(q.pop().unwrap().gate, engine_types::GateType::Measure { result_id: 0 });
    assert!(q.pop().is_none());
}

fn arg(v: &str, i: usize) -> (String, usize) {
    (v.to_string(), i)
}

fn sample_program() -> PHIRProgram {
    PHIRProgram {
        format: "PHIR/JSON".to_string(),
        version: "0.1.0".to_string(),
        metadata: TextMap::new(),
        ops: vec![
            Operation::VariableDefinition {
                data: "qvar_define".to_string(),
                data_type: "qubits".to_string(),
                variable: "q".to_string(),
                size: 2,
            },
            Operation::VariableDefinition {
                data: "cvar_define".to_string(),
                data_type: "i64".to_string(),
                variable: "m".to_string(),
                size: 2,
            },
            Operation::QuantumOp {
                qop: "R1XY".to_string(),
                angles: Some((vec![0.1f64.to_bits(), 0.2f64.to_bits()], "rad".to_string())),
                args: vec![arg("q", 0)],
                outputs: vec![],
            },
            Operation::QuantumOp {
                qop: "Measure".to_string(),
                angles: None,
                args: vec![arg("q", 0)],
                outputs: vec![arg("m", 0)],
            },
            Operation::ClassicalOp {
                cop: "Result".to_string(),
                args: vec![arg("m", 0)],
                outputs: vec![arg("result", 0)],
            },
        ],
    }
}

#[test]
fn test_phir_engine_basic() {
    let mut engine = PHIREngine::from_program(sample_program()).unwrap();
    assert!(engine.ops_are_sound());
    let commands = engine.process_program().unwrap();
    assert_eq!(commands.len(), 2);
    engine.handle_measurement(1).unwrap();
    let results = engine.get_results().unwrap();
    assert_eq!(results.measurements.len(), 1);
    assert_eq!(results.measurements.get("m_0"), Some(&1));
}

#[test]
fn test_phir_engine_batches() {
    let mut engine = PHIREngine::from_program(sample_program()).unwrap();
    let commands = engine.process_program().unwrap();
    assert_eq!(commands.len(), 2);
    assert_eq!(
        commands[0].gate,
        GateType::R1XY { phi: 0.1f64.to_bits(), theta: 0.2f64.to_bits() }
    );
    assert_eq!(commands[0].qubits, vec![0]);
    assert_eq!(commands[1].gate, GateType::Measure { result_id: 0 });
    assert_eq!(commands[1].qubits, vec![0]);
    let rest = engine.process_program().unwrap();
    assert!(rest.is_empty());
    // A measurement that names no classical element is recorded as `measurement_n`.
    let mut p = sample_program();
    p.ops[3] = Operation::QuantumOp {
        qop: "Measure".to_string(),
        angles: None,
        args: vec![arg("q", 1)],
        outputs: vec![],
    };
    let mut e = PHIREngine::from_program(p).unwrap();
    let commands = e.process_program().unwrap();
    assert_eq!(commands[1].qubits, vec![1]);
    e.handle_measurement(0).unwrap();
    let results = e.get_results().unwrap();
    assert_eq!(results.measurements.get("measurement_0"), Some(&0));
}

#[test]
fn test_phir_engine_errors() {
    let mut p = sample_program();
    p.format = "XML".to_string();
    assert_eq!(
        PHIREngine::from_program(p).err().unwrap(),
        "Invalid format: expected PHIR/JSON"
    );
    let mut p = sample_program();
    p.version = "9".to_string();
    assert_eq!(PHIREngine::from_program(p).err().unwrap(), "Unsupported PHIR version: 9");
    let h = |q: &str, i: usize, op: &str| Operation::QuantumOp {
        qop: op.to_string(),
        angles: None,
        args: vec![arg(q, i)],
        outputs: vec![],
    };
    let mut p = sample_program();
    p.ops[2] = h("q", 5, "H");
    let mut e = PHIREngine::from_program(p).unwrap();
    assert_eq!(
        e.process_program().unwrap_err(),
        QueueError::OperationError(
            "Index 5 out of bounds for quantum variable q of size 2".to_string()
        )
    );
    let mut p = sample_program();
    p.ops[2] = h("r", 0, "T");
    let mut e = PHIREngine::from_program(p).unwrap();
    assert_eq!(
        e.process_program().unwrap_err(),
        QueueError::OperationError("Undefined variable: r".to_string())
    );
    let mut p = sample_program();
    p.ops[2] = h("q", 1, "T");
    let mut e = PHIREngine::from_program(p).unwrap();
    assert_eq!(
        e.process_program().unwrap_err(),
        QueueError::OperationError("Unknown quantum operation: T".to_string())
    );
    // `Result` checks what it reads, not where it writes.
    let mut p = sample_program();
    p.ops[4] = Operation::ClassicalOp {
        cop: "Result".to_string(),
        args: vec![arg("n", 0)],
        outputs: vec![arg("result", 0)],
    };
    let mut e = PHIREngine::from_program(p).unwrap();
    assert_eq!(
        e.process_program().unwrap_err(),
        QueueError::OperationError("Undefined variable: n".to_string())
    );
    // Other classical operations check their outputs too.
    let mut p = sample_program();
    p.ops[4] = Operation::ClassicalOp {
        cop: "Copy".to_string(),
        args: vec![arg("m", 0)],
        outputs: vec![arg("z", 0)],
    };
    let mut e = PHIREngine::from_program(p).unwrap();
    assert_eq!(
        e.process_program().unwrap_err(),
        QueueError::OperationError("Undefined variable: z".to_string())
    );
    let empty = PHIREngine::default();
    assert!(empty.ops_are_sound());
}

#[test]
fn test_command_text_round_trip() {
    let none = String::new();
    let commands = vec![
        cmd(GateType::CX, vec![1, 2]),
        cmd(GateType::H, vec![0]),
        cmd(GateType::SZZ, vec![3, 4]),
        cmd(GateType::Measure { result_id: 9 }, vec![5]),
    ];
    for c in commands {
        let text = format_command(&c, &none, &none);
        let back = parse(&text).unwrap();
        assert_eq!(back.gate, c.gate);
        assert_eq!(back.qubits, c.qubits);
    }
    let theta = 0.5f64;
    let rz = cmd(GateType::RZ { theta: theta.to_bits() }, vec![2]);
    let text = format_command(&rz, &none, &theta.to_string());
    let back = parse(&text).unwrap();
    assert_eq!(back.gate, rz.gate);
    assert_eq!(back.qubits, vec![2]);
}

#[test]
fn test_measurement_text_round_trip() {
    for m in [0u32, 1, 7, 4_000_000_000] {
        assert_eq!(parse_measurement(&format!("{m}\n")), Ok(m));
    }
}

#[test]
fn test_text_map_read_after_write() {
    let mut m: TextMap<u32> = TextMap::new();
    m.insert("k".to_string(), 1);
    m.insert("other".to_string(), 2);
    m.insert("k".to_string(), 3);
    assert_eq!(m.get("k"), Some(&3));
    assert_eq!(m.get("other"), Some(&2));
}

#[test]
fn program_type_from_extension_and_format() {
    assert_eq!(program_type(Some("ll"), None), Ok(ProgramType::QIR));
    assert_eq!(program_type(Some("json"), Some("PHIR/JSON")), Ok(ProgramType::PHIR));
    assert_eq!(
        program_type(Some("json"), Some("other")),
        Err("Invalid JSON format - expected PHIR/JSON".to_string())
    );
    assert_eq!(
        program_type(Some("json"), None),
        Err("Invalid JSON format - expected PHIR/JSON".to_string())
    );
    assert_eq!(
        program_type(Some("txt"), None),
        Err("Unsupported file format. Expected .ll or .json".to_string())
    );
    assert_eq!(
        program_type(None, None),
        Err("Unsupported file format. Expected .ll or .json".to_string())
    );
}

#[test]
fn test_measurement_counts_per_key() {
    let mut a = ShotResult::new();
    a.measurements.insert("m0".to_string(), 0);
    a.measurements.insert("m1".to_string(), 1);
    let mut b = ShotResult::new();
    b.measurements.insert("m0".to_string(), 1);
    b.measurements.insert("c".to_string(), 7);
    let mut c = ShotResult::new();
    c.measurements.insert("m0".to_string(), 0);
    let counts = measurement_counts(&[a, b, c]);
    let keys: Vec<&str> = counts.entries().iter().map(|e| e.0.as_str()).collect();
    assert_eq!(keys, vec!["c", "m0", "m1"]);
    assert_eq!(counts.get("m0"), Some(&KeyCounts { total: 3, zeros: 2, ones: 1 }));
    assert_eq!(counts.get("m1"), Some(&KeyCounts { total: 1, zeros: 0, ones: 1 }));
    assert_eq!(counts.get("c"), Some(&KeyCounts { total: 1, zeros: 0, ones: 0 }));
    assert_eq!(counts.get("x"), None);
    assert_eq!(measurement_counts(&[]).len(), 0);
}

#[test]
fn test_result_reply_lines() {
    assert_eq!(result_reply(3, "1\n"), "RESULT measurement_3 1");
    assert_eq!(result_reply(0, "  42 "), "RESULT measurement_0 42");
    let bad = result_reply(2, "x\n");
    assert_eq!(bad, format!("[ERROR] Failed to parse measurement: {}", "x".parse::<u32>().unwrap_err()));
    assert_eq!(
        result_reply(1, "\n"),
        "[ERROR] Failed to parse measurement: cannot parse integer from empty string"
    );
}

#[test]
fn test_result_reply_is_recorded() {
    let line = format!("{}\n", result_reply(7, "0\n"));
    let (state, action) = read_shot_output(OutputState::Seeking, &line, 1);
    assert_eq!(state, OutputState::Seeking);
    match action {
        ShotAction::Record { key, value } => {
            assert_eq!(key, "measurement_7");
            assert_eq!(value, 0);
        }
        other => panic!("unexpected action {other:?}"),
    }
}

#[test]
fn test_batch_read_back() {
    let lines = vec!["H 0".to_string(), "CX 0 1".to_string(), "M 1 3".to_string()];
    let text = command_batch_text(&lines);
    let mut state = OutputState::Seeking;
    let mut found = Vec::new();
    for line in text.split_inclusive('\n') {
        let (next, cmd) = read_engine_output(state, line);
        if let Some(c) = cmd {
            found.push(c);
        }
        state = next;
    }
    assert_eq!(state, OutputState::Done);
    assert_eq!(found, lines);
}

#[test]
fn test_phir_measurement_run() {
    let measure = |i: usize| Operation::QuantumOp {
        qop: "Measure".to_string(),
        angles: None,
        args: vec![arg("q", i)],
        outputs: vec![],
    };
    let program = PHIRProgram {
        format: "PHIR/JSON".to_string(),
        version: "0.1.0".to_string(),
        metadata: TextMap::new(),
        ops: vec![
            Operation::VariableDefinition {
                data: "qvar_define".to_string(),
                data_type: "qubits".to_string(),
                variable: "q".to_string(),
                size: 3,
            },
            measure(2),
            measure(0),
            measure(1),
        ],
    };
    let mut e = PHIREngine::from_program(program).unwrap();
    let cmds = e.process_program().unwrap();
    assert_eq!(cmds.len(), 3);
    for (j, (c, q)) in cmds.iter().zip([2usize, 0, 1]).enumerate() {
        assert_eq!(c.gate, GateType::Measure { result_id: j });
        assert_eq!(c.qubits, vec![q]);
    }
    assert!(e.process_program().unwrap().is_empty());
}

#[test]
fn test_qubit_stats_sequence() {
    let mut s = QubitStats::new();
    for v in [0u32, 1, 1, 2, 0, 0, 7] {
        s.add_measurement(v);
    }
    assert_eq!(s.zeros, 3);
    assert_eq!(s.ones, 2);
    assert_eq!(s.total_measurements(), 5);
}

#[test]
fn test_run_shot_commands() {
    let mut sim = PauliProp::new();
    sim.add_x(0);
    let mut engine = CliffordEngine::new(sim);
    // Before the shot the frame carries X on qubit 0; the shot starts from a reset.
    let cmds = vec![
        cmd(GateType::H, vec![0]),
        cmd(GateType::Measure { result_id: 3 }, vec![0]),
        cmd(GateType::CX, vec![0, 1]),
        cmd(GateType::Measure { result_id: 5 }, vec![1]),
    ];
    let shot = run_shot_commands(&mut engine, &cmds).unwrap();
    assert_eq!(shot.measurements.len(), 2);
    assert_eq!(shot.measurements.get("measurement_3"), Some(&0));
    assert_eq!(shot.measurements.get("measurement_5"), Some(&0));
    // A rotation is refused without reading a qubit.
    let rz = cmd(GateType::RZ { theta: PI_BITS }, vec![]);
    assert!(can_run(&rz));
    assert!(!can_run(&cmd(GateType::H, vec![])));
    assert_eq!(
        engine.process_command(&rz),
        Err(QueueError::OperationError(
            "This simulator only supports Clifford operations".to_string()
        ))
    );
    let with_rz = vec![cmd(GateType::H, vec![0]), rz];
    assert_eq!(
        run_shot_commands(&mut engine, &with_rz).unwrap_err(),
        QueueError::OperationError("This simulator only supports Clifford operations".to_string())
    );
    // Through a trait object, as the hybrid engine holds it.
    let mut boxed: Box<dyn QuantumEngine> = Box::new(CliffordEngine::new(PauliProp::new()));
    let shot = run_shot_commands(&mut *boxed, &cmds).unwrap();
    assert_eq!(shot.measurements.len(), 2);
}

#[test]
fn test_phir_checks_only_reached_operations() {
    let op = |qop: &str, args: Vec<(String, usize)>| Operation::QuantumOp {
        qop: qop.to_string(),
        angles: None,
        args,
        outputs: vec![],
    };
    let qvar = Operation::VariableDefinition {
        data: "qvar_define".to_string(),
        data_type: "qubits".to_string(),
        variable: "q".to_string(),
        size: 2,
    };
    let program = |ops: Vec<Operation>| PHIRProgram {
        format: "PHIR/JSON".to_string(),
        version: "0.1.0".to_string(),
        metadata: TextMap::new(),
        ops,
    };
    // The run stops at the out-of-range H before it reaches the measurement without qubits.
    let mut e = PHIREngine::from_program(program(vec![
        qvar.clone(),
        op("H", vec![arg("q", 5)]),
        op("Measure", vec![]),
    ]))
    .unwrap();
    assert!(!e.ops_are_sound());
    assert_eq!(
        e.process_program().unwrap_err(),
        QueueError::OperationError(
            "Index 5 out of bounds for quantum variable q of size 2".to_string()
        )
    );
    // A measurement without qubits that the run reaches is refused before it runs.
    let mut e = PHIREngine::from_program(program(vec![qvar.clone(), op("Measure", vec![])])).unwrap();
    assert!(e.try_process_program().is_none());
    let mut e = PHIREngine::from_program(program(vec![qvar, op("H", vec![arg("q", 1)])])).unwrap();
    let cmds = e.try_process_program().unwrap().unwrap();
    assert_eq!(cmds.len(), 1);
}

#[test]
fn test_gate_names() {
    let g = Gate::R1XY(0.1f64.to_bits(), 0.2f64.to_bits());
    assert_eq!(g, Gate::R1XY(0.1f64.to_bits(), 0.2f64.to_bits()));
    assert_ne!(Gate::H4, Gate::H5);
    assert_eq!(Gate::U(1, 2, 3), Gate::U(1, 2, 3));
}

#[test]
fn test_run_shot_records_answers() {
    let mut engine = CliffordEngine::new(PauliProp::new());
    let cmds = vec![
        cmd(GateType::Measure { result_id: 1 }, vec![0]),
        cmd(GateType::H, vec![1]),
        cmd(GateType::Measure { result_id: 1 }, vec![1]),
    ];
    let shot = run_shot_commands(&mut engine, &cmds).unwrap();
    assert_eq!(shot.measurements.len(), 1);
    assert_eq!(shot.measurements.get("measurement_1"), Some(&0));
    let mut s = ShotResult::new();
    record_outcome(&mut s, &cmd(GateType::Measure { result_id: 4 }, vec![0]), Some(1));
    record_outcome(&mut s, &cmd(GateType::H, vec![0]), Some(1));
    record_outcome(&mut s, &cmd(GateType::Measure { result_id: 5 }, vec![0]), None);
    assert_eq!(s.measurements.len(), 1);
    assert_eq!(s.measurements.get("measurement_4"), Some(&1));
}
