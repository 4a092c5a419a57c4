use solyan_airplay::airplay::control::StreamControl;
use solyan_airplay::cli::{parse_cli_args, CliCommand};

fn args(v: &[&str]) -> Vec<String> {
    v.iter().map(|s| s.to_string()).collect()
}

#[test]
fn command_line_options() {
    assert_eq!(parse_cli_args(&args(&["solyan"])), CliCommand::Scan);
    assert_eq!(parse_cli_args(&args(&[])), CliCommand::Scan);
    assert_eq!(parse_cli_args(&args(&["solyan", "--capture-test"])), CliCommand::CaptureTest);
    assert_eq!(
        parse_cli_args(&args(&["solyan", "--connect-test", "Kitchen"])),
        CliCommand::ConnectTest(Some("Kitchen".into()))
    );
    assert_eq!(
        parse_cli_args(&args(&["solyan", "--stream-test"])),
        CliCommand::StreamTest(None)
    );
    assert_eq!(parse_cli_args(&args(&["solyan", "-h"])), CliCommand::Help);
    assert_eq!(parse_cli_args(&args(&["solyan", "--help", "x"])), CliCommand::Help);
    assert_eq!(
        parse_cli_args(&args(&["solyan", "--bogus"])),
        CliCommand::Unknown("--bogus".into())
    );
}

#[test]
fn stream_control_is_shared_by_clones() {
    let control = StreamControl::new(0.8f32.to_bits());
    assert!(!control.is_stopped());
    assert_eq!(f32::from_bits(control.volume_bits()), 0.8);
    let handle = control.clone();
    handle.set_volume_bits(0.25f32.to_bits());
    handle.stop();
    assert!(control.is_stopped());
    assert_eq!(f32::from_bits(control.volume_bits()), 0.25);
}
