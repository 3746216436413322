use aoc_stars::render::MAX_CELLS;
use aoc_stars::{generate_svg, validate_input, ValidationError};

#[test]
fn test_content_format() {
    let content = "\
2023: 2,2,2,2,2,2,2,2,2,2,2,2,2,2,2,2,2,2,2,1,0,0,0,0,0
2024: 2,2,2,2,2,2,2,0,0,0,0,0,0,0,0,0,0,0,0,0,0,0,0,0,0";
    println!("Testing content:\n{}", content);
    let result = validate_input(content);
    println!("Validation result: {:?}", result);
    assert!(result.is_ok());
}

#[test]
fn validation_test_valid_input() {
    let input = "2015: 2,2,1,0,0,0,0,0,0,0,0,0,0,0,0,0,0,0,0,0,0,0,0,0,0\n\
                 2016: 2,2,2,0,0,0,0,0,0,0,0,0,0,0,0,0,0,0,0,0,0,0,0,0,0";
    assert!(validate_input(input).is_ok());
}

#[test]
fn test_invalid_star_value() {
    let input = "2015: 3,2,1,0,0,0,0,0,0,0,0,0,0,0,0,0,0,0,0,0,0,0,0,0,0";
    assert!(matches!(validate_input(input), Err(ValidationError::InvalidStarValue { .. })));
}

#[test]
fn round_trip_counts_every_day_value() {
    let input = "2023: 2,2,2,2,2,2,2,2,2,2,2,2,2,2,2,2,2,2,2,1,0,0,0,0,0";
    let years = validate_input(input).unwrap();
    assert_eq!(years.len(), 1);
    assert_eq!(years[0].0, 2023);
    assert_eq!(years[0].1.len(), 25);
    let svg = generate_svg(years);
    assert!(svg.contains("Total stars: 39"));
    assert_eq!(svg.matches("class=\"star silver\"").count(), 1);
    assert_eq!(svg.matches("class=\"star gold\"").count(), 19);
}

#[test]
fn wrong_day_count_is_reported() {
    let r = validate_input("2020: 1,2,0");
    match r {
        Err(ValidationError::InvalidDayCount { year, count }) => {
            assert_eq!(year, 2020);
            assert_eq!(count, 3);
        }
        other => panic!("unexpected {:?}", other),
    }
    assert_eq!(
        ValidationError::InvalidDayCount { year: 2020, count: 3 }.message(),
        "Year 2020 has 3 days, expected 25"
    );
}

#[test]
fn star_value_above_two_is_reported() {
    let e = validate_input("2015: 3,2,1,0,0,0,0,0,0,0,0,0,0,0,0,0,0,0,0,0,0,0,0,0,0").unwrap_err();
    assert_eq!(e.message(), "Year 2015 has invalid stars (must be 0, 1, or 2)");
}

#[test]
fn non_numeric_year_is_reported() {
    match validate_input("20x3: 0,0").unwrap_err() {
        ValidationError::InvalidYear { line, year } => {
            assert_eq!(line, 1);
            assert_eq!(year, "20x3");
        }
        other => panic!("unexpected {:?}", other),
    }
}

#[test]
fn line_without_separator_is_reported() {
    let e = validate_input("\n\ninvalid format\r\n").unwrap_err();
    match &e {
        ValidationError::InvalidLineFormat { line, content } => {
            assert_eq!(*line, 3);
            assert_eq!(content, "invalid format");
        }
        other => panic!("unexpected {:?}", other),
    }
    assert_eq!(e.message(), "Invalid line format on line 3: invalid format");
}

#[test]
fn non_numeric_day_is_a_parse_error() {
    let e = validate_input("2019: 1,a,2").unwrap_err();
    match &e {
        ValidationError::ParseError { year, error } => {
            assert_eq!(*year, 2019);
            assert_eq!(error, "invalid digit found in string");
        }
        other => panic!("unexpected {:?}", other),
    }
    assert_eq!(e.message(), "Error parsing year 2019: invalid digit found in string");
    let e = validate_input("2019: 1,,2").unwrap_err();
    assert!(matches!(e, ValidationError::ParseError { ref error, .. } if error == "cannot parse integer from empty string"));
    let e = validate_input("2019: 1,256,2").unwrap_err();
    assert!(matches!(e, ValidationError::ParseError { ref error, .. } if error == "number too large to fit in target type"));
}

#[test]
fn blank_input_is_empty() {
    assert!(matches!(validate_input(""), Err(ValidationError::EmptyInput)));
    assert!(matches!(validate_input(" \n\t\n"), Err(ValidationError::EmptyInput)));
    assert_eq!(ValidationError::EmptyInput.message(), "No valid data found in input");
}

#[test]
fn first_failing_line_wins() {
    let input = "2015: 0,0\n2016 0";
    assert!(matches!(validate_input(input), Err(ValidationError::InvalidDayCount { year: 2015, count: 2 })));
}

#[test]
fn whitespace_and_plus_signs_are_accepted() {
    let input = "  +2021 :  0, 1 ,2,0,0,0,0,0,0,0,0,0,0,0,0,0,0,0,0,0,0,0,0,0,+1  \r\n\n";
    let years = validate_input(input).unwrap();
    assert_eq!(years, vec![(2021, vec![0, 1, 2, 0, 0, 0, 0, 0, 0, 0, 0, 0, 0, 0, 0, 0, 0, 0, 0, 0, 0, 0, 0, 0, 1])]);
    assert!(MAX_CELLS >= years.len());
}
