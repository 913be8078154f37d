use flash_rover::register::Register;
use flash_rover::trace_level::TraceLevel;

const LEVELS: [(TraceLevel, &str); 9] = [
    (TraceLevel::Off, "OFF"),
    (TraceLevel::Severe, "SEVERE"),
    (TraceLevel::Warning, "WARNING"),
    (TraceLevel::Info, "INFO"),
    (TraceLevel::Config, "CONFIG"),
    (TraceLevel::Fine, "FINE"),
    (TraceLevel::Finer, "FINER"),
    (TraceLevel::Finest, "FINEST"),
    (TraceLevel::All, "ALL"),
];

#[test]
fn trace_level_names() {
    for (level, name) in LEVELS.iter() {
        assert_eq!(level.to_string(), *name);
    }
}

#[test]
fn trace_level_parses_each_name() {
    for (level, name) in LEVELS.iter() {
        assert_eq!(TraceLevel::from_str(name), Ok(*level));
    }
}

#[test]
fn trace_level_round_trip() {
    for (level, _) in LEVELS.iter() {
        assert_eq!(TraceLevel::from_str(&level.to_string()), Ok(*level));
    }
}

#[test]
fn trace_level_rejects_unknown_names() {
    assert_eq!(
        TraceLevel::from_str("off"),
        Err("Invalid TraceLevel string off".to_string())
    );
    assert_eq!(
        TraceLevel::from_str(""),
        Err("Invalid TraceLevel string ".to_string())
    );
    assert_eq!(
        TraceLevel::from_str("VERBOSE"),
        Err("Invalid TraceLevel string VERBOSE".to_string())
    );
}

#[test]
fn register_names() {
    let expected = [
        (Register::R0, "R0"),
        (Register::R1, "R1"),
        (Register::R2, "R2"),
        (Register::R3, "R3"),
        (Register::R4, "R4"),
        (Register::R5, "R5"),
        (Register::R6, "R6"),
        (Register::R7, "R7"),
        (Register::R8, "R8"),
        (Register::R9, "R9"),
        (Register::R10, "R10"),
        (Register::R11, "R11"),
        (Register::R12, "R12"),
        (Register::MSP, "MSP"),
        (Register::PSP, "PSP"),
        (Register::LR, "LR"),
        (Register::PC, "PC"),
        (Register::XPSR, "XPSR"),
    ];
    for (register, name) in expected.iter() {
        assert_eq!(register.to_string(), *name);
    }
    for (a, _) in expected.iter() {
        for (b, _) in expected.iter() {
            assert_eq!(a.to_string() == b.to_string(), a == b);
        }
    }
}

#[test]
fn trace_level_parse_through_from_str_trait() {
    assert_eq!("FINEST".parse::<TraceLevel>(), Ok(TraceLevel::Finest));
    assert_eq!(
        "Finest".parse::<TraceLevel>(),
        Err("Invalid TraceLevel string Finest".to_string())
    );
}
