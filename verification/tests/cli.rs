//! Command lines.

use bcc::cli::{define, meaning_of, parse_args, CliError, CompileMode, Meaning, MemoryModel};

fn line(args: &[&str]) -> Vec<String> {
    args.iter().map(|a| a.to_string()).collect()
}

#[test]
fn a_plain_command_line() {
    let args = parse_args(&line(&["-S", "-ms", "HELLO.C"])).unwrap();
    assert_eq!(args.mode, CompileMode::Assembly);
    assert_eq!(args.memory_model, MemoryModel::Small);
    assert_eq!(args.sources, vec!["HELLO.C".to_string()]);
    assert!(args.defines.is_empty());
    assert!(!args.merge_strings);
    assert!(!args.unsigned_chars);
    assert!(!args.optimize);
    assert!(!args.target_186);
    assert!(!args.stack_check);
    assert!(!args.no_reg_vars);
}

#[test]
fn the_model_is_small_unless_another_is_named() {
    assert_eq!(parse_args(&line(&["-c", "A.C"])).unwrap().memory_model, MemoryModel::Small);
    let models = [
        ("-mt", MemoryModel::Tiny),
        ("-ms", MemoryModel::Small),
        ("-mc", MemoryModel::Compact),
        ("-mm", MemoryModel::Medium),
        ("-ml", MemoryModel::Large),
        ("-mh", MemoryModel::Huge),
    ];
    for (flag, model) in models {
        let args = parse_args(&line(&["-c", flag, "A.C"])).unwrap();
        assert_eq!(args.mode, CompileMode::Object);
        assert_eq!(args.memory_model, model);
    }
}

#[test]
fn of_two_modes_or_models_the_later_counts() {
    let args = parse_args(&line(&["-S", "-ml", "A.C", "-c", "-mt"])).unwrap();
    assert_eq!(args.mode, CompileMode::Object);
    assert_eq!(args.memory_model, MemoryModel::Tiny);
}

#[test]
fn every_flag_is_understood() {
    let all = ["-d", "-K", "-O", "-1", "-N", "-r-", "-G", "-A", "-f-", "-S", "A.C"];
    let args = parse_args(&line(&all)).unwrap();
    assert!(args.merge_strings);
    assert!(args.unsigned_chars);
    assert!(args.optimize);
    assert!(args.target_186);
    assert!(args.stack_check);
    assert!(args.no_reg_vars);
    let args = parse_args(&line(&["-O2", "-2", "-S", "A.C"])).unwrap();
    assert!(args.optimize);
    assert!(args.target_186);
    assert!(!args.stack_check);
}

#[test]
fn a_flag_without_effect_changes_nothing() {
    let with = parse_args(&line(&["-S", "-N", "-N-", "-G", "A.C"])).unwrap();
    let without = parse_args(&line(&["-S", "-N", "A.C"])).unwrap();
    assert_eq!(format!("{:?}", with), format!("{:?}", without));
    assert!(with.stack_check);
}

#[test]
fn definitions_are_parted_at_the_first_equals_sign() {
    let args = parse_args(&line(&["-S", "-DX", "-DN=1", "-DE=a=b", "-D", "A.C"])).unwrap();
    let expected = [("X", ""), ("N", "1"), ("E", "a=b"), ("", "")];
    assert_eq!(args.defines.len(), expected.len());
    for (got, want) in args.defines.iter().zip(expected.iter()) {
        assert_eq!((got.0.as_str(), got.1.as_str()), *want);
    }
    assert_eq!(define(&"-DA=".to_string()), ("A".to_string(), String::new()));
}

#[test]
fn source_files_keep_their_order() {
    let args = parse_args(&line(&["B.C", "-S", "A.C", "B.C"])).unwrap();
    assert_eq!(args.sources, line(&["B.C", "A.C", "B.C"]));
}

#[test]
fn an_unknown_flag_is_refused_before_anything_else() {
    for args in [line(&["-Z9", "-Q"]), line(&["-S", "A.C", "-Z9", "-Q"])] {
        match parse_args(&args) {
            Err(CliError::Unsupported(flag)) => assert_eq!(flag, "-Z9"),
            other => panic!("{:?}", other),
        }
    }
    assert!(matches!(parse_args(&line(&["-mx", "-S", "A.C"])), Err(CliError::Unsupported(_))));
    assert!(matches!(parse_args(&line(&["-"])), Err(CliError::Unsupported(_))));
}

#[test]
fn a_missing_mode_is_refused_before_a_missing_source() {
    assert!(matches!(parse_args(&line(&[])), Err(CliError::NoMode)));
    assert!(matches!(parse_args(&line(&["A.C"])), Err(CliError::NoMode)));
    assert!(matches!(parse_args(&line(&["-S", "-ms"])), Err(CliError::NoSource)));
}

#[test]
fn errors_have_their_messages() {
    assert_eq!(CliError::Usage.message(), "usage: bcc -S -ms <source>.C");
    assert_eq!(CliError::Unsupported("-x".to_string()).message(), "unsupported flag: -x");
    assert_eq!(CliError::NoSource.message(), "missing input file");
    assert_eq!(
        CliError::NoMode.message(),
        "compile mode not specified (need -S or -c)"
    );
}

#[test]
fn models_have_marker_bytes_and_call_distances() {
    let table = [
        (MemoryModel::Tiny, 0x08, false),
        (MemoryModel::Small, 0x09, false),
        (MemoryModel::Medium, 0x0A, true),
        (MemoryModel::Compact, 0x0B, false),
        (MemoryModel::Large, 0x0C, true),
        (MemoryModel::Huge, 0x0D, true),
    ];
    for (model, byte, far) in table {
        assert_eq!(model.marker_byte(), byte);
        assert_eq!(model.has_far_code(), far);
    }
}

#[test]
fn single_arguments_have_a_meaning() {
    assert_eq!(meaning_of(&"-S".to_string()), Meaning::Mode(CompileMode::Assembly));
    assert_eq!(meaning_of(&"-mh".to_string()), Meaning::Model(MemoryModel::Huge));
    assert_eq!(meaning_of(&"-DX".to_string()), Meaning::Define);
    assert_eq!(meaning_of(&"-d".to_string()), Meaning::MergeStrings);
    assert_eq!(meaning_of(&"-N-".to_string()), Meaning::Ignored);
    assert_eq!(meaning_of(&"-s".to_string()), Meaning::Unknown);
    assert_eq!(meaning_of(&String::new()), Meaning::Source);
    assert_eq!(meaning_of(&"S".to_string()), Meaning::Source);
}

#[test]
fn two_lines_in_a_row_join() {
    let first = line(&["-S", "-DA", "X.C"]);
    let second = line(&["-DB=2", "-mm", "Y.C"]);
    let both: Vec<String> = first.iter().chain(second.iter()).cloned().collect();
    let args = parse_args(&both).unwrap();
    assert_eq!(args.sources, line(&["X.C", "Y.C"]));
    assert_eq!(args.defines.len(), 2);
    assert_eq!(args.mode, CompileMode::Assembly);
    assert_eq!(args.memory_model, MemoryModel::Medium);
}
