use pumas::error::{Error, IntErrorKind, Misalignment};
use pumas::monitor::{sampler_arguments, sampler_path};

#[test]
fn integer_error_messages_are_those_of_the_standard_library() {
    assert_eq!(
        IntErrorKind::Empty.message(),
        "".parse::<u16>().unwrap_err().to_string()
    );
    assert_eq!(
        IntErrorKind::InvalidDigit.message(),
        "x".parse::<u16>().unwrap_err().to_string()
    );
    assert_eq!(
        IntErrorKind::PosOverflow.message(),
        "65536".parse::<u16>().unwrap_err().to_string()
    );
}

#[test]
fn misalignment_messages() {
    assert_eq!(
        Misalignment::CoreCount { decoded_count: 8, snapshot_count: 10 }.message(),
        "Number of powermetrics CPUs: 8 != number of sysinfo CPUs: 10"
    );
    assert_eq!(
        Misalignment::CoreId { decoded_id: 0, snapshot_id: 65535 }.message(),
        "CPU id misalignment: 0 != 65535"
    );
}

#[test]
fn error_messages() {
    assert_eq!(
        Error::SocInfoParsingError("Apple".to_string()).message(),
        "socinfo parsing error: `Apple`"
    );
    assert_eq!(
        Error::ParseIntError { source: IntErrorKind::InvalidDigit }.message(),
        "integer parsing error: `invalid digit found in string`"
    );
    assert_eq!(
        Error::PlistParsingError("unexpected end".to_string()).message(),
        "plist parsing error: `unexpected end`"
    );
    assert_eq!(
        Error::MisalignedCpuId(Misalignment::CoreId { decoded_id: 2, snapshot_id: 3 }).message(),
        "cpu id misalignment: `CPU id misalignment: 2 != 3`"
    );
    assert_eq!(
        Error::Utf8ConversionError("bad byte".to_string()).message(),
        "utf8 conversion error: `bad byte`"
    );
    assert_eq!(Error::Io("broken pipe".to_string()).message(), "failed with io: `broken pipe`");
    assert_eq!(
        Error::PowermetricsSpawn("not found".to_string()).message(),
        "failed to spawn powermetrics: `not found`"
    );
    assert_eq!(Error::PowermetricsStdout.message(), "powermetrics stdout not available");
    assert_eq!(
        Error::PowermetricsKill("".to_string()).message(),
        "failed to kill powermetrics: ``"
    );
}

#[test]
fn sampler_invocation() {
    assert_eq!(sampler_path(), "/usr/bin/powermetrics");
    assert_eq!(
        sampler_arguments(1000),
        vec!["--sample-rate", "1000", "--samplers", "cpu_power,gpu_power,thermal", "-f", "plist"]
    );
    assert_eq!(sampler_arguments(100)[1], "100");
}
