use loc_checker::cli::{parse_positive_usize, Cli};
use loc_checker::language::Language;
use loc_checker::offenders::OffenderFilter;
use loc_checker::output::OutputFormat;

fn options() -> Cli {
    Cli {
        lang: Language::Rust,
        path: ".".to_string(),
        git_ignore_support: false,
        exclude: Vec::new(),
        include_path: Vec::new(),
        exclude_path: Vec::new(),
        output_format: OutputFormat::Tree,
        offenders_only: false,
        offending_max_loc_per_file: None,
        offending_max_loc_per_fn: None,
    }
}

fn expected(value: &str) -> Result<usize, String> {
    match value.parse::<usize>() {
        Ok(0) => Err("value must be greater than zero".to_string()),
        Ok(n) => Ok(n),
        Err(err) => Err(format!("failed to parse '{value}' as usize: {err}")),
    }
}

#[test]
fn reads_positive_numbers() {
    assert_eq!(parse_positive_usize("1"), Ok(1));
    assert_eq!(parse_positive_usize("120"), Ok(120));
    assert_eq!(parse_positive_usize("+70"), Ok(70));
    assert_eq!(parse_positive_usize("0007"), Ok(7));
    assert_eq!(parse_positive_usize(&usize::MAX.to_string()), Ok(usize::MAX));
}

#[test]
fn zero_is_refused() {
    let refused = Err("value must be greater than zero".to_string());
    assert_eq!(parse_positive_usize("0"), refused);
    assert_eq!(parse_positive_usize("000"), refused);
    assert_eq!(parse_positive_usize("+0"), refused);
}

#[test]
fn what_is_no_number_is_refused_with_its_reason() {
    assert_eq!(
        parse_positive_usize(""),
        Err("failed to parse '' as usize: cannot parse integer from empty string".to_string())
    );
    assert_eq!(
        parse_positive_usize("12a"),
        Err("failed to parse '12a' as usize: invalid digit found in string".to_string())
    );
    assert_eq!(
        parse_positive_usize("-5"),
        Err("failed to parse '-5' as usize: invalid digit found in string".to_string())
    );
    assert_eq!(
        parse_positive_usize("+"),
        Err("failed to parse '+' as usize: invalid digit found in string".to_string())
    );
    assert_eq!(
        parse_positive_usize("99999999999999999999999999"),
        Err("failed to parse '99999999999999999999999999' as usize: number too large to fit in \
             target type"
            .to_string())
    );
}

#[test]
fn agrees_with_the_standard_parser() {
    let max = usize::MAX.to_string();
    let over = format!("{}0", usize::MAX);
    let next = {
        // the decimal successor of the largest value
        let mut digits: Vec<u8> = max.bytes().collect();
        let mut i = digits.len();
        loop {
            i -= 1;
            if digits[i] == b'9' {
                digits[i] = b'0';
            } else {
                digits[i] += 1;
                break;
            }
        }
        String::from_utf8(digits).unwrap()
    };
    let samples = vec![
        "".to_string(),
        " ".to_string(),
        "0".to_string(),
        "1".to_string(),
        "42".to_string(),
        "+42".to_string(),
        "++42".to_string(),
        "-42".to_string(),
        "4 2".to_string(),
        "42 ".to_string(),
        " 42".to_string(),
        "4_2".to_string(),
        "0x10".to_string(),
        "1e3".to_string(),
        "+".to_string(),
        "-".to_string(),
        "\u{0663}".to_string(),
        "12\u{0663}".to_string(),
        "00000000000000000000000000000000000001".to_string(),
        "00000000000000000000000000000000000000".to_string(),
        max.clone(),
        format!("+{max}"),
        next,
        over.clone(),
        format!("{over}x"),
        format!("x{over}"),
        format!("{max}x"),
        format!("0{max}"),
    ];
    for sample in samples {
        assert_eq!(parse_positive_usize(&sample), expected(&sample), "value {sample:?}");
    }
}

#[test]
fn full_report_has_no_filter() {
    assert_eq!(options().offender_filter(), None);
    let mut with_limits = options();
    with_limits.offending_max_loc_per_file = Some(120);
    with_limits.offending_max_loc_per_fn = Some(70);
    assert_eq!(with_limits.offender_filter(), None);
}

#[test]
fn narrowed_report_takes_both_limits() {
    let mut narrowed = options();
    narrowed.offenders_only = true;
    narrowed.offending_max_loc_per_file = Some(120);
    narrowed.offending_max_loc_per_fn = Some(70);
    assert_eq!(narrowed.offender_filter(), Some(OffenderFilter::new(120, 70)));
}
