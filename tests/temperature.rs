use tunjukin_suhu_cpu_windows::parse::ParseError;
use tunjukin_suhu_cpu_windows::reading::CpuTemperature;

fn celsius_of(centi: i32) -> f64 {
    centi as f64 / 100.0
}

#[test]
fn test_temperature_conversion() {
    let temp = CpuTemperature::from_centi_celsius(2500);

    assert_eq!(celsius_of(temp.centi_celsius), 25.0);
    assert_eq!(temp.milli_fahrenheit as f64 / 1000.0, 77.0);
}

#[test]
fn test_parse_temperature_valid() {
    let sample_output = r#"
CurrentTemperature   : 3120

InstanceName         : ACPI\ThermalZone\TZ00_0
        "#;

    let result = CpuTemperature::parse_temperature(sample_output);
    assert!(result.is_ok());

    let celsius = celsius_of(result.unwrap());
    assert!((celsius - 38.85).abs() < 0.01);
}

#[test]
fn test_parse_temperature_empty() {
    let result = CpuTemperature::parse_temperature("");
    assert!(result.is_err());
}

#[test]
fn test_parse_temperature_invalid() {
    let sample_output = "No temperature data here";
    let result = CpuTemperature::parse_temperature(sample_output);
    assert!(result.is_err());
}

#[test]
fn conversion_is_exact_for_several_values() {
    for c in [-27315, -4000, 0, 1, 3885, 10000, i32::MIN, i32::MAX] {
        let t = CpuTemperature::from_centi_celsius(c);
        let expected = (c as f64 / 100.0) * 9.0 / 5.0 + 32.0;
        assert!((t.milli_fahrenheit as f64 / 1000.0 - expected).abs() < 1e-9 * expected.abs().max(1.0));
        assert_eq!(t.milli_fahrenheit, 18 * c as i64 + 32000);
    }
}

#[test]
fn empty_and_blank_output_give_no_data() {
    assert_eq!(CpuTemperature::parse_temperature(""), Err(ParseError::NoData));
    assert_eq!(CpuTemperature::parse_temperature("   "), Err(ParseError::NoData));
    assert_eq!(CpuTemperature::parse_temperature("\r\n\t \n"), Err(ParseError::NoData));
}

#[test]
fn unmatched_output_gives_no_valid_reading() {
    assert_eq!(
        CpuTemperature::parse_temperature("No temperature data here"),
        Err(ParseError::NoValidReading)
    );
    assert_eq!(
        CpuTemperature::parse_temperature("CurrentTemperature :\nInstanceName : TZ"),
        Err(ParseError::NoValidReading)
    );
    assert_eq!(
        CpuTemperature::parse_temperature("Sensor CurrentTemperature : 3120"),
        Err(ParseError::NoValidReading)
    );
    assert_eq!(
        CpuTemperature::parse_temperature("CurrentTemperatureX : 3120"),
        Err(ParseError::NoValidReading)
    );
}

#[test]
fn single_reading_round_trip() {
    for raw in [0u64, 10, 2231, 2232, 2731, 3120, 4231, 4232, 100000] {
        let text = format!("CurrentTemperature : {}", raw);
        let celsius = raw as f64 / 10.0 - 273.15;
        let result = CpuTemperature::parse_temperature(&text);
        if celsius > -50.0 && celsius < 150.0 {
            assert_eq!(result, Ok(10 * raw as i32 - 27315));
        } else {
            assert_eq!(result, Err(ParseError::NoValidReading));
        }
    }
}

#[test]
fn plausibility_bounds_are_exclusive() {
    assert_eq!(CpuTemperature::parse_temperature("CurrentTemperature : 2232"), Ok(-4995));
    assert_eq!(
        CpuTemperature::parse_temperature("CurrentTemperature : 2231"),
        Err(ParseError::NoValidReading)
    );
    assert_eq!(CpuTemperature::parse_temperature("CurrentTemperature : 4231"), Ok(14995));
    assert_eq!(
        CpuTemperature::parse_temperature("CurrentTemperature : 4232"),
        Err(ParseError::NoValidReading)
    );
}

#[test]
fn first_plausible_reading_wins() {
    let text = "CurrentTemperature : 10\nCurrentTemperature : 3120";
    assert_eq!(CpuTemperature::parse_temperature(text), Ok(3885));
    let text = "CurrentTemperature : 3000\nCurrentTemperature : 3120";
    assert_eq!(CpuTemperature::parse_temperature(text), Ok(2685));
}

#[test]
fn very_long_number_is_implausible() {
    let text = "CurrentTemperature : 99999999999999999999999999\nCurrentTemperature : 3120";
    assert_eq!(CpuTemperature::parse_temperature(text), Ok(3885));
    assert_eq!(
        CpuTemperature::parse_temperature("CurrentTemperature : 99999999999999999999999999"),
        Err(ParseError::NoValidReading)
    );
}

#[test]
fn layout_variations_are_accepted() {
    assert_eq!(CpuTemperature::parse_temperature("  CurrentTemperature:3120\r\n"), Ok(3885));
    assert_eq!(CpuTemperature::parse_temperature("CurrentTemperature\t: \t3120 K"), Ok(3885));
    assert_eq!(CpuTemperature::parse_temperature("CurrentTemperature : 3120abc"), Ok(3885));
}

#[test]
fn reading_from_query_output() {
    let sample_output = "\nCurrentTemperature   : 3120\n\nInstanceName         : ACPI\\ThermalZone\\TZ00_0\n";
    let t = CpuTemperature::get(sample_output).unwrap();
    assert_eq!(t.centi_celsius, 3885);
    assert_eq!(t.milli_fahrenheit, 101930);
    assert!((t.milli_fahrenheit as f64 / 1000.0 - 101.93).abs() < 0.01);
    assert_eq!(CpuTemperature::get(""), Err(ParseError::NoData));
    assert_eq!(CpuTemperature::get("nothing"), Err(ParseError::NoValidReading));
}

#[test]
fn error_messages() {
    assert!(ParseError::NoData.message().starts_with("No temperature data received"));
    assert!(ParseError::NoValidReading.message().starts_with("No valid temperature readings"));
}
