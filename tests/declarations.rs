use command_line_spec::{
    validate_optional_identifiers, CommandLine, CommandLineError, MandatoryParameter,
    OptionalParameter,
};

fn s(text: &str) -> String {
    text.to_string()
}

#[test]
fn optional_without_any_identifier_is_invalid() {
    for max in [None, Some(0u8), Some(1u8), Some(9u8)] {
        let r = OptionalParameter::new(None, None, max);
        assert_eq!(r.err(), Some(CommandLineError::InvalidDeclaration));
    }
}

#[test]
fn optional_with_empty_long_is_invalid() {
    for short in [None, Some('i')] {
        let r = OptionalParameter::new(Some(s("")), short, Some(2));
        assert_eq!(r.err(), Some(CommandLineError::InvalidDeclaration));
    }
}

#[test]
fn optional_unspecified_or_zero_occurrence_is_one() {
    for max in [None, Some(0u8)] {
        let p = OptionalParameter::new(Some(s("input")), Some('i'), max).unwrap();
        assert_eq!(p.max_occurrence(), 1);
    }
    assert_eq!(OptionalParameter::get_max_occurrence(None), 1);
    assert_eq!(OptionalParameter::get_max_occurrence(Some(0)), 1);
}

#[test]
fn optional_explicit_occurrence_is_kept() {
    for n in [1u8, 2, 7, 255] {
        let p = OptionalParameter::new(None, Some('v'), Some(n)).unwrap();
        assert_eq!(p.max_occurrence(), n);
        assert_eq!(OptionalParameter::get_max_occurrence(Some(n)), n);
    }
}

#[test]
fn optional_keeps_its_identifiers() {
    let p = OptionalParameter::new(Some(s("input")), Some('i'), Some(3)).unwrap();
    assert_eq!(p.long(), &Some(s("input")));
    assert_eq!(p.short(), Some('i'));
    let q = OptionalParameter::new(Some(s("verbose")), None, None).unwrap();
    assert_eq!(q.long(), &Some(s("verbose")));
    assert_eq!(q.short(), None);
    let r = OptionalParameter::new(None, Some('x'), None).unwrap();
    assert_eq!(r.long(), &None);
    assert_eq!(r.short(), Some('x'));
}

#[test]
fn identifier_rules() {
    assert_eq!(validate_optional_identifiers(&None, &None), Err(CommandLineError::InvalidDeclaration));
    assert_eq!(validate_optional_identifiers(&Some(s("")), &None), Err(CommandLineError::InvalidDeclaration));
    assert_eq!(validate_optional_identifiers(&Some(s("")), &Some('a')), Err(CommandLineError::InvalidDeclaration));
    assert_eq!(validate_optional_identifiers(&Some(s("all")), &None), Ok(()));
    assert_eq!(validate_optional_identifiers(&None, &Some('a')), Ok(()));
    assert_eq!(validate_optional_identifiers(&Some(s("all")), &Some('a')), Ok(()));
}

#[test]
fn mandatory_with_zero_occurrence_is_invalid() {
    assert_eq!(MandatoryParameter::new(Some(0)).err(), Some(CommandLineError::InvalidDeclaration));
}

#[test]
fn mandatory_keeps_its_limit() {
    let unbounded = MandatoryParameter::new(None).unwrap();
    assert_eq!(unbounded.get_max_occurrence(), None);
    assert_eq!(unbounded.effective_max_occurrence(), 255);
    let three = MandatoryParameter::new(Some(3)).unwrap();
    assert_eq!(three.get_max_occurrence(), Some(3));
    assert_eq!(three.effective_max_occurrence(), 3);
    let one = MandatoryParameter::new(Some(1)).unwrap();
    assert_eq!(one.effective_max_occurrence(), 1);
}

#[test]
fn parameter_after_repeating_one_is_invalid() {
    let mut cl = CommandLine::new();
    assert_eq!(cl.add_parameter(s("a"), Some(5)), Ok(()));
    assert_eq!(cl.add_parameter(s("b"), None), Err(CommandLineError::InvalidDeclaration));
    assert_eq!(cl.parameter_names(), vec![s("a")]);
}

#[test]
fn parameter_after_unbounded_one_is_invalid() {
    let mut cl = CommandLine::new();
    assert_eq!(cl.add_parameter(s("a"), None), Ok(()));
    assert_eq!(cl.add_parameter(s("b"), Some(1)), Err(CommandLineError::InvalidDeclaration));
    assert_eq!(cl.parameter_count(), 1);
}

#[test]
fn parameter_after_single_occurrence_one() {
    let mut cl = CommandLine::new();
    assert_eq!(cl.add_parameter(s("a"), Some(1)), Ok(()));
    assert_eq!(cl.add_parameter(s("b"), Some(3)), Ok(()));
    assert_eq!(cl.parameter_names(), vec![s("a"), s("b")]);
    assert_eq!(cl.parameter_count(), 2);
}

#[test]
fn parameter_with_zero_occurrence_is_invalid() {
    let mut cl = CommandLine::new();
    assert_eq!(cl.add_parameter(s("a"), Some(0)), Err(CommandLineError::InvalidDeclaration));
    assert_eq!(cl.parameter_count(), 0);
    assert_eq!(cl.parameter(&s("a")), None);
}

#[test]
fn duplicate_parameter_name() {
    let mut cl = CommandLine::new();
    assert_eq!(cl.add_parameter(s("a"), Some(1)), Ok(()));
    assert_eq!(cl.add_parameter(s("a"), Some(1)), Err(CommandLineError::DuplicateName));
    assert_eq!(cl.add_parameter(s("a"), Some(0)), Err(CommandLineError::DuplicateName));
    assert_eq!(cl.parameter_count(), 1);
}

#[test]
fn duplicate_name_wins_over_repeating_last() {
    let mut cl = CommandLine::new();
    assert_eq!(cl.add_parameter(s("a"), Some(4)), Ok(()));
    assert_eq!(cl.add_parameter(s("a"), Some(1)), Err(CommandLineError::DuplicateName));
}

#[test]
fn duplicate_option_name() {
    let mut cl = CommandLine::new();
    assert_eq!(cl.add_option(s("verbose"), Some(s("verbose")), Some('v'), None), Ok(()));
    assert_eq!(
        cl.add_option(s("verbose"), Some(s("verbose")), Some('v'), None),
        Err(CommandLineError::DuplicateName)
    );
}

#[test]
fn duplicate_flag_name() {
    let mut cl = CommandLine::new();
    assert_eq!(cl.add_flag(s("quiet"), None, Some('q'), None), Ok(()));
    assert_eq!(cl.add_flag(s("quiet"), Some(s("quiet")), None, None), Err(CommandLineError::DuplicateName));
}

#[test]
fn flag_names_are_checked_against_flags() {
    let mut cl = CommandLine::new();
    assert_eq!(cl.add_option(s("verbose"), Some(s("verbose")), None, None), Ok(()));
    assert_eq!(cl.add_flag(s("verbose"), Some(s("verbose")), None, None), Ok(()));
    assert!(cl.option(&s("verbose")).is_some());
    assert!(cl.flag(&s("verbose")).is_some());
}

#[test]
fn invalid_option_is_not_inserted() {
    let mut cl = CommandLine::new();
    assert_eq!(cl.add_option(s("input"), None, None, Some(2)), Err(CommandLineError::InvalidDeclaration));
    assert!(cl.option(&s("input")).is_none());
    assert_eq!(cl.add_flag(s("debug"), Some(s("")), Some('d'), None), Err(CommandLineError::InvalidDeclaration));
    assert!(cl.flag(&s("debug")).is_none());
    assert_eq!(cl.add_option(s("input"), Some(s("input")), None, Some(2)), Ok(()));
}

#[test]
fn nested_action_keeps_its_own_parameters() {
    let mut child = CommandLine::new();
    assert_eq!(child.add_parameter(s("path"), Some(1)), Ok(()));
    let mut parent = CommandLine::new();
    assert_eq!(parent.add_parameter(s("root"), Some(1)), Ok(()));
    assert_eq!(parent.add_option(s("verbose"), Some(s("verbose")), None, None), Ok(()));
    assert_eq!(parent.add_action(s("add"), Some(child)), Ok(()));
    let add = parent.action(&s("add")).unwrap();
    assert_eq!(add.parameter_count(), 1);
    let (name, p) = add.parameter_at(0).unwrap();
    assert_eq!(name, s("path"));
    assert_eq!(p.get_max_occurrence(), Some(1));
    assert!(add.option(&s("verbose")).is_none());
    assert_eq!(parent.parameter_names(), vec![s("root")]);
}

#[test]
fn nested_action_with_unbounded_parameter() {
    let mut child = CommandLine::new();
    assert_eq!(child.add_parameter(s("path"), None), Ok(()));
    let mut parent = CommandLine::new();
    assert_eq!(parent.add_action(s("add"), Some(child)), Ok(()));
    let p = parent.action(&s("add")).unwrap().parameter(&s("path")).unwrap();
    assert_eq!(p.get_max_occurrence(), None);
    assert_eq!(p.effective_max_occurrence(), 255);
}

#[test]
fn default_action_is_empty() {
    let mut cl = CommandLine::new();
    assert_eq!(cl.add_action(s("commit"), None), Ok(()));
    let commit = cl.action(&s("commit")).unwrap();
    assert_eq!(commit.parameter_count(), 0);
    assert!(commit.option(&s("commit")).is_none());
    assert!(cl.action(&s("push")).is_none());
}

#[test]
fn duplicate_action_name() {
    let mut cl = CommandLine::new();
    assert_eq!(cl.add_action(s("add"), None), Ok(()));
    assert_eq!(cl.add_action(s("add"), Some(CommandLine::new())), Err(CommandLineError::DuplicateName));
}

#[test]
fn declarations_read_back() {
    let mut cl = CommandLine::new();
    assert_eq!(cl.add_option(s("input"), Some(s("input")), Some('i'), Some(0)), Ok(()));
    assert_eq!(cl.add_option(s("output"), Some(s("out")), None, Some(4)), Ok(()));
    assert_eq!(cl.add_flag(s("verbose"), None, Some('v'), Some(3)), Ok(()));
    assert_eq!(cl.add_parameter(s("source"), Some(1)), Ok(()));
    assert_eq!(cl.add_parameter(s("target"), None), Ok(()));

    let input = cl.option(&s("input")).unwrap();
    assert_eq!(input.long(), &Some(s("input")));
    assert_eq!(input.short(), Some('i'));
    assert_eq!(input.max_occurrence(), 1);
    let output = cl.option(&s("output")).unwrap();
    assert_eq!(output.long(), &Some(s("out")));
    assert_eq!(output.short(), None);
    assert_eq!(output.max_occurrence(), 4);
    let verbose = cl.flag(&s("verbose")).unwrap();
    assert_eq!(verbose.long(), &None);
    assert_eq!(verbose.short(), Some('v'));
    assert_eq!(verbose.max_occurrence(), 3);
    assert!(cl.flag(&s("input")).is_none());

    assert_eq!(cl.parameter_names(), vec![s("source"), s("target")]);
    let (first, p0) = cl.parameter_at(0).unwrap();
    assert_eq!(first, s("source"));
    assert_eq!(p0.get_max_occurrence(), Some(1));
    let (second, p1) = cl.parameter_at(1).unwrap();
    assert_eq!(second, s("target"));
    assert_eq!(p1.get_max_occurrence(), None);
    assert!(cl.parameter_at(2).is_none());
    assert_eq!(cl.parameter(&s("target")).unwrap().get_max_occurrence(), None);
    assert_eq!(cl.parameter(&s("source")).unwrap().get_max_occurrence(), Some(1));
    assert!(cl.parameter(&s("missing")).is_none());
}

#[test]
fn empty_command_line() {
    let cl = CommandLine::new();
    assert_eq!(cl.parameter_count(), 0);
    assert!(cl.parameter_names().is_empty());
    assert!(cl.parameter_at(0).is_none());
    assert!(cl.option(&s("a")).is_none());
    assert!(cl.flag(&s("a")).is_none());
    assert!(cl.action(&s("a")).is_none());
}
