use csvdimreduce::columns::{ColumnsSpecifier, DelimiterSpecifier, ParseError};

#[test]
fn columns_plain_list() {
    let cs = ColumnsSpecifier::from_str("1,3,5").unwrap();
    let got: Vec<usize> = cs.0.iter().copied().collect();
    assert_eq!(got, vec![1, 3, 5]);
}

#[test]
fn columns_with_range_and_step() {
    let cs = ColumnsSpecifier::from_str("3,4,10:5:25").unwrap();
    let got: Vec<usize> = cs.0.iter().copied().collect();
    assert_eq!(got, vec![3, 4, 10, 15, 20, 25]);
}

#[test]
fn columns_deduplicates() {
    let cs = ColumnsSpecifier::from_str("2,2,1:3").unwrap();
    let got: Vec<usize> = cs.0.iter().copied().collect();
    assert_eq!(got, vec![1, 2, 3]);
}

#[test]
fn columns_invalid_is_rejected() {
    assert_eq!(ColumnsSpecifier::from_str("abc").unwrap_err(), ParseError::InvalidColumns);
    assert_eq!(ColumnsSpecifier::from_str("1,,2").unwrap_err(), ParseError::InvalidColumns);
}

#[test]
fn delimiter_single_ascii() {
    let d = DelimiterSpecifier::from_str(";").unwrap();
    assert_eq!(d.0, b';');
    let t = DelimiterSpecifier::from_str("\t").unwrap();
    assert_eq!(t.0, b'\t');
}

#[test]
fn delimiter_rejects_long_and_non_ascii() {
    assert_eq!(DelimiterSpecifier::from_str("ab").unwrap_err(), ParseError::InvalidDelimiter);
    assert_eq!(DelimiterSpecifier::from_str("").unwrap_err(), ParseError::InvalidDelimiter);
    assert_eq!(
        DelimiterSpecifier::from_str("\u{20ac}").unwrap_err(),
        ParseError::InvalidDelimiter
    );
}

#[test]
fn columns_range_to_largest_number_is_rejected() {
    // walking this one-element range would step past usize::MAX
    assert_eq!(
        ColumnsSpecifier::from_str("18446744073709551615:18446744073709551615").unwrap_err(),
        ParseError::InvalidColumns
    );
    assert_eq!(
        ColumnsSpecifier::from_str("18446744073709551610:3:18446744073709551615").unwrap_err(),
        ParseError::InvalidColumns
    );
}

#[test]
fn columns_range_near_largest_number_is_fine() {
    let cs = ColumnsSpecifier::from_str("18446744073709551614:18446744073709551614").unwrap();
    let got: Vec<usize> = cs.0.iter().copied().collect();
    assert_eq!(got, vec![usize::MAX - 1]);
}

#[test]
fn columns_inverted_range_denotes_nothing() {
    let cs = ColumnsSpecifier::from_str("5:2,7").unwrap();
    let got: Vec<usize> = cs.0.iter().copied().collect();
    assert_eq!(got, vec![7]);
}
