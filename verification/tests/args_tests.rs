use timer_overhead::args::{parse_args, parse_usize, ArgError, Config};

fn bytes(args: &[&str]) -> Vec<Vec<u8>> {
    args.iter().map(|a| a.as_bytes().to_vec()).collect()
}

#[test]
fn parse_usize_reads_decimal_numerals() {
    assert_eq!(parse_usize(&b"0".to_vec()), Some(0));
    assert_eq!(parse_usize(&b"123".to_vec()), Some(123));
    assert_eq!(parse_usize(&b"+7".to_vec()), Some(7));
    assert_eq!(parse_usize(&b"007".to_vec()), Some(7));
}

#[test]
fn parse_usize_rejects_malformed_numerals() {
    assert_eq!(parse_usize(&b"".to_vec()), None);
    assert_eq!(parse_usize(&b"+".to_vec()), None);
    assert_eq!(parse_usize(&b"12a".to_vec()), None);
    assert_eq!(parse_usize(&b"-5".to_vec()), None);
    assert_eq!(parse_usize(&b" 5".to_vec()), None);
}

#[test]
fn parse_usize_rejects_values_that_do_not_fit() {
    assert_eq!(parse_usize(&b"99999999999999999999999999".to_vec()), None);
    let max = usize::MAX.to_string();
    assert_eq!(parse_usize(&max.as_bytes().to_vec()), Some(usize::MAX));
}

#[test]
fn three_integer_arguments_parse_to_a_config() {
    assert_eq!(
        parse_args(&bytes(&["5", "1000", "10"])),
        Ok(Config { samples: 5, iterations: 1000, vec_len: 10 })
    );
    // Extra arguments are ignored.
    assert_eq!(
        parse_args(&bytes(&["1", "2", "3", "raw"])),
        Ok(Config { samples: 1, iterations: 2, vec_len: 3 })
    );
}

#[test]
fn missing_arguments_are_named_in_order() {
    assert_eq!(parse_args(&bytes(&[])), Err(ArgError::MissingSamples));
    assert_eq!(parse_args(&bytes(&["5"])), Err(ArgError::MissingIterations));
    assert_eq!(parse_args(&bytes(&["5", "9"])), Err(ArgError::MissingVecLen));
}

#[test]
fn non_integer_arguments_are_rejected() {
    assert_eq!(parse_args(&bytes(&["x", "1", "2"])), Err(ArgError::InvalidSamples));
    assert_eq!(parse_args(&bytes(&["1", "x", "2"])), Err(ArgError::InvalidIterations));
    assert_eq!(parse_args(&bytes(&["1", "2", "x"])), Err(ArgError::InvalidVecLen));
}

#[test]
fn a_zero_argument_invocation_names_the_missing_argument() {
    let err = parse_args(&bytes(&[])).unwrap_err();
    assert_eq!(err.message(), "provide the number of samples");
}

#[test]
fn error_messages_describe_each_failure() {
    assert_eq!(
        ArgError::MissingIterations.message(),
        "provide the number of iterations"
    );
    assert_eq!(
        ArgError::MissingVecLen.message(),
        "provide the length of the vector to sum"
    );
    assert_eq!(
        ArgError::InvalidSamples.message(),
        "the number of iterations should be an integer"
    );
    assert_eq!(
        ArgError::InvalidIterations.message(),
        "the number of iterations should be an integer"
    );
    assert_eq!(
        ArgError::InvalidVecLen.message(),
        "the length of the vector should be an integer"
    );
}
