use fsva::options::{missing_workpath, numprocesses_validator, unsupported};

#[test]
fn numbers_of_processes_are_accepted() {
    for val in ["1", "0", "+4", "0007", "4294967295", "+0000004294967295"] {
        assert_eq!(Ok(()), numprocesses_validator(val.to_string()), "{}", val);
    }
}

#[test]
fn other_texts_are_refused_in_the_parsers_words() {
    for val in ["", "+", "-", "-1", "4294967296", "99999999999999999999", "1.5", " 1", "1 ", "1_000", "0x10", "one", "++1", "١"] {
        let expected = val.parse::<u32>().unwrap_err().to_string();
        assert_eq!(Err(expected), numprocesses_validator(val.to_string()), "{:?}", val);
    }
    assert_eq!(
        Err("invalid digit found in string".to_string()),
        numprocesses_validator("abc".to_string())
    );
    assert_eq!(
        Err("cannot parse integer from empty string".to_string()),
        numprocesses_validator(String::new())
    );
    assert_eq!(
        Err("number too large to fit in target type".to_string()),
        numprocesses_validator("4294967296".to_string())
    );
}

#[test]
fn missing_workpath_is_named() {
    assert_eq!("\"/no/such\" workpath does not exist.", missing_workpath("/no/such"));
}

#[test]
fn packing_and_parallel_runs_are_not_supported() {
    assert_eq!(None, unsupported(false, 0));
    assert_eq!(None, unsupported(false, 1));
    assert_eq!(Some("Parallel verification is not yet supported."), unsupported(false, 2));
    assert_eq!(Some("Parallel verification is not yet supported."), unsupported(false, u32::MAX));
    assert_eq!(
        Some("Compression of the output directory is not yet supported."),
        unsupported(true, 1)
    );
    assert_eq!(
        Some("Compression of the output directory is not yet supported."),
        unsupported(true, 8)
    );
}
