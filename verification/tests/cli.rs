use rustmerge::cli::{parse_args, Args, ArgsError};

fn args(list: &[&str]) -> Vec<String> {
    list.iter().map(|s| s.to_string()).collect()
}

#[test]
fn the_subcommand_name_is_required() {
    assert_eq!(parse_args(&args(&[])), Err(ArgsError::Usage));
    assert_eq!(parse_args(&args(&["cargo"])), Err(ArgsError::Usage));
    assert_eq!(parse_args(&args(&["cargo", "merge"])), Err(ArgsError::Usage));
    assert_eq!(parse_args(&args(&["cargo", "--all", "rustmerge"])), Err(ArgsError::Usage));
}

#[test]
fn arguments_are_read_in_any_order() {
    assert_eq!(
        parse_args(&args(&["cargo", "rustmerge"])),
        Ok(Args { package_name: None, output_path: None, process_all: false })
    );
    assert_eq!(
        parse_args(&args(&["cargo", "rustmerge", "test_package"])),
        Ok(Args { package_name: Some("test_package".to_string()), output_path: None, process_all: false })
    );
    assert_eq!(
        parse_args(&args(&["cargo", "rustmerge", "--output", "out.rs", "pkg", "--all"])),
        Ok(Args {
            package_name: Some("pkg".to_string()),
            output_path: Some("out.rs".to_string()),
            process_all: true
        })
    );
    assert_eq!(
        parse_args(&args(&["cargo", "rustmerge", "--all", "--all"])),
        Ok(Args { package_name: None, output_path: None, process_all: true })
    );
    assert_eq!(
        parse_args(&args(&["cargo", "rustmerge", "--output", "a", "--output", "--all"])),
        Ok(Args { package_name: None, output_path: Some("--all".to_string()), process_all: false })
    );
    assert_eq!(
        parse_args(&args(&["cargo", "rustmerge", "rustmerge"])),
        Ok(Args { package_name: Some("rustmerge".to_string()), output_path: None, process_all: false })
    );
}

#[test]
fn bad_arguments_are_refused() {
    assert_eq!(parse_args(&args(&["cargo", "rustmerge", "--output"])), Err(ArgsError::OutputNeedsPath));
    assert_eq!(
        parse_args(&args(&["cargo", "rustmerge", "a", "--output"])),
        Err(ArgsError::OutputNeedsPath)
    );
    assert_eq!(
        parse_args(&args(&["cargo", "rustmerge", "a", "b", "--output"])),
        Err(ArgsError::UnexpectedArgument { argument: "b".to_string() })
    );
}

#[test]
fn argument_errors_have_messages() {
    assert_eq!(
        ArgsError::Usage.message(),
        "Usage: cargo rustmerge [--all] [<package_name>] [--output <path>]"
    );
    assert_eq!(ArgsError::OutputNeedsPath.message(), "Error: --output option requires a path");
    assert_eq!(
        ArgsError::UnexpectedArgument { argument: "x".to_string() }.message(),
        "Error: Unexpected argument 'x'"
    );
}
