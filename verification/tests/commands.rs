//! The command line and the output of commands.
use e_waste::args::parse_target_disk_arg;
use e_waste::powershell::{
    decode_powershell_stdout, exe_path_to_string, parse_elevation_output,
};

#[test]
fn elevation_output_true_is_elevated() {
    assert_eq!(parse_elevation_output("True\r\n"), Ok(true));
}

#[test]
fn elevation_output_false_is_not_elevated() {
    assert_eq!(parse_elevation_output("False\n"), Ok(false));
}

#[test]
fn elevation_output_tolerates_surrounding_whitespace() {
    assert_eq!(parse_elevation_output("  True  "), Ok(true));
}

#[test]
fn elevation_output_empty_is_error() {
    assert!(parse_elevation_output("").is_err());
}

#[test]
fn elevation_output_unexpected_text_is_error() {
    assert!(parse_elevation_output("Access is denied.").is_err());
}

#[test]
fn parse_target_disk_arg_returns_none_when_absent() {
    let args = vec!["E-Waste.exe".to_string()];

    assert_eq!(parse_target_disk_arg(&args), Ok(None));
}

#[test]
fn parse_target_disk_arg_parses_a_valid_number() {
    let args = vec![
        "E-Waste.exe".to_string(),
        "--target-disk".to_string(),
        "1".to_string(),
    ];

    assert_eq!(parse_target_disk_arg(&args), Ok(Some(1)));
}

#[test]
fn parse_target_disk_arg_errors_when_value_is_missing() {
    let args = vec!["E-Waste.exe".to_string(), "--target-disk".to_string()];

    assert!(parse_target_disk_arg(&args).is_err());
}

#[test]
fn parse_target_disk_arg_errors_when_value_is_not_a_number() {
    let args = vec![
        "E-Waste.exe".to_string(),
        "--target-disk".to_string(),
        "abc".to_string(),
    ];

    assert!(parse_target_disk_arg(&args).is_err());
}

#[test]
fn decode_powershell_stdout_rejects_non_utf8() {
    assert!(decode_powershell_stdout(b"C:\\\xff\xfe").is_err());
}

#[test]
fn decode_powershell_stdout_trims_valid_output() {
    assert_eq!(
        decode_powershell_stdout(b"  []  \r\n").unwrap(),
        "[]".to_string()
    );
}

#[test]
fn exe_path_to_string_accepts_utf8_path() {
    let path = std::path::Path::new("C:\\tools\\e-waste.exe");
    assert_eq!(
        exe_path_to_string(path.to_str()).unwrap(),
        "C:\\tools\\e-waste.exe".to_string()
    );
}
