use pumas::error::{Error, IntErrorKind};
use pumas::soc::{parse_cpu_info, parse_gpu_info, PowerCeilings, SocInfo};

#[test]
fn parse_cpu_info_ok() {
    let buffer = "Apple M1\n8\n4\n4\n";

    let actual = parse_cpu_info(buffer).unwrap();
    let expected = ("Apple M1".to_string(), 8, 4, 4);

    assert_eq!(actual, expected);
}

#[test]
fn parse_gpu_info_ok() {
    let buffer = "Graphics/Displays:

    Apple M1:

      Chipset Model: Apple M1
      Type: GPU
      Bus: Built-In
      Total Number of Cores: 8
      Vendor: Apple (0x106b)
      Metal Support: Metal 3
      Displays:
        Color LCD:
          Display Type: Built-In Retina LCD
          Resolution: 2560 x 1600 Retina
          Main Display: Yes
          Mirror: Off
          Online: Yes
          Automatically Adjust Brightness: Yes
          Connection Type: Internal
    ";

    let actual = parse_gpu_info(buffer).unwrap();
    let expected = 8;

    assert_eq!(actual, expected);
}

#[test]
fn parse_cpu_info_lists_efficiency_before_performance() {
    let actual = parse_cpu_info("Apple M2 Pro\n12\n8\n4\n").unwrap();
    assert_eq!(actual, ("Apple M2 Pro".to_string(), 12, 4, 8));
}

#[test]
fn parse_cpu_info_missing_line() {
    let buffer = "Apple M1\n8\n4";
    assert_eq!(
        parse_cpu_info(buffer),
        Err(Error::SocInfoParsingError(buffer.to_string()))
    );
    assert_eq!(
        parse_cpu_info(""),
        Err(Error::SocInfoParsingError(String::new()))
    );
}

#[test]
fn parse_cpu_info_bad_numbers() {
    assert_eq!(
        parse_cpu_info("Apple M1\n8\n\n4\n"),
        Err(Error::ParseIntError { source: IntErrorKind::Empty })
    );
    assert_eq!(
        parse_cpu_info("Apple M1\neight\n4\n4\n"),
        Err(Error::ParseIntError { source: IntErrorKind::InvalidDigit })
    );
    assert_eq!(
        parse_cpu_info("Apple M1\n8\n65536\n4\n"),
        Err(Error::ParseIntError { source: IntErrorKind::PosOverflow })
    );
    assert_eq!(
        parse_cpu_info("Apple M1\n+\n4\n4\n"),
        Err(Error::ParseIntError { source: IntErrorKind::InvalidDigit })
    );
    assert_eq!(
        parse_cpu_info("Apple M1\n+8\n65535\n0\n").unwrap(),
        ("Apple M1".to_string(), 8, 0, 65535)
    );
}

#[test]
fn parse_gpu_info_failures() {
    let none = "Graphics/Displays:\n  Type: GPU\n";
    assert_eq!(
        parse_gpu_info(none),
        Err(Error::SocInfoParsingError(none.to_string()))
    );
    assert_eq!(
        parse_gpu_info("Total Number of Cores: many\n"),
        Err(Error::ParseIntError { source: IntErrorKind::InvalidDigit })
    );
    assert_eq!(
        parse_gpu_info("Total Number of Cores:\n"),
        Err(Error::ParseIntError { source: IntErrorKind::InvalidDigit })
    );
}

#[test]
fn parse_gpu_info_takes_first_line_and_last_piece() {
    assert_eq!(
        parse_gpu_info("\t Total Number of Cores: a: 10\r\nTotal Number of Cores: 3\n"),
        Ok(10)
    );
    assert_eq!(parse_gpu_info("Total Number of Cores: 16"), Ok(16));
    assert_eq!(
        parse_gpu_info("Total Number of Cores: 16\r"),
        Err(Error::ParseIntError { source: IntErrorKind::InvalidDigit })
    );
}

#[test]
fn power_ceilings_by_brand() {
    assert_eq!(
        PowerCeilings::for_brand("Apple M1"),
        PowerCeilings { cpu_mw: 20_000, gpu_mw: 20_000, ane_mw: 8_000 }
    );
    assert_eq!(
        PowerCeilings::for_brand("Apple M1 Max"),
        PowerCeilings { cpu_mw: 30_000, gpu_mw: 60_000, ane_mw: 8_000 }
    );
    assert_eq!(
        PowerCeilings::for_brand("Apple M1 Pro"),
        PowerCeilings { cpu_mw: 30_000, gpu_mw: 30_000, ane_mw: 8_000 }
    );
    assert_eq!(
        PowerCeilings::for_brand("Apple M1 Ultra"),
        PowerCeilings { cpu_mw: 60_000, gpu_mw: 120_000, ane_mw: 8_000 }
    );
    assert_eq!(
        PowerCeilings::for_brand("Apple M2"),
        PowerCeilings { cpu_mw: 25_000, gpu_mw: 15_000, ane_mw: 8_000 }
    );
    assert_eq!(
        PowerCeilings::for_brand("Apple M9"),
        PowerCeilings { cpu_mw: 20_000, gpu_mw: 20_000, ane_mw: 8_000 }
    );
}

#[test]
fn soc_info_from_two_texts() {
    let soc = SocInfo::parse("Apple M1 Ultra\n20\n16\n4\n", "  Total Number of Cores: 64\n").unwrap();
    assert_eq!(soc.cpu_brand_name, "Apple M1 Ultra");
    assert_eq!(soc.num_cpu_cores, 20);
    assert_eq!(soc.num_efficiency_cores, 4);
    assert_eq!(soc.num_performance_cores, 16);
    assert_eq!(soc.num_gpu_cores, 64);
    assert_eq!(soc.max_cpu_mw, 60_000);
    assert_eq!(soc.max_gpu_mw, 120_000);
    assert_eq!(soc.max_ane_mw, 8_000);
    assert_eq!(soc.max_package_mw, 188_000);
}
