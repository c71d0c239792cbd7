use operation_kit::error::AppError;
use operation_kit::text_processor::{add_quotes, convert_format, remove_quotes, replace_chinese_commas};

#[test]
fn test_convert_format() {
    let input = "1,2,3";
    let result = convert_format(input).unwrap();
    assert_eq!(result, "1\n2\n3");

    let input = "1\n2\n3";
    let result = convert_format(input).unwrap();
    assert_eq!(result, "1,2,3");
}

#[test]
fn test_replace_chinese_commas() {
    let input = "1，2，3";
    let result = replace_chinese_commas(input).unwrap();
    assert_eq!(result, "1,2,3");
}

#[test]
fn test_add_remove_quotes() {
    let input = "1,2,3";
    let with_quotes = add_quotes(input).unwrap();
    assert_eq!(with_quotes, "'1','2','3'");

    let result = remove_quotes(&with_quotes).unwrap();
    assert_eq!(result, "1,2,3");
}

#[test]
fn test_format_conversion() {
    let input = "1,2,3";
    let converted = convert_format(input).unwrap();
    assert!(converted.contains('\n'));
    let back = convert_format(&converted).unwrap();
    assert_eq!(input, back);
}

#[test]
fn text_tools_reject_empty_input() {
    assert_eq!(convert_format("").unwrap_err(), AppError::EmptyInput);
    assert_eq!(replace_chinese_commas("").unwrap_err(), AppError::EmptyInput);
    assert_eq!(add_quotes("").unwrap_err(), AppError::EmptyInput);
    assert_eq!(remove_quotes("").unwrap_err(), AppError::EmptyInput);
}

#[test]
fn convert_format_trims_and_drops_empty_items() {
    assert_eq!(convert_format(" 1 ,, 2\n3,").unwrap(), "1\n2\n3");
    assert_eq!(convert_format("a\nb\n\nc").unwrap(), "a,b,c");
}

#[test]
fn quotes_keep_items_already_quoted() {
    assert_eq!(add_quotes("'1',2\n").unwrap(), "'1','2'");
    assert_eq!(add_quotes("1'").unwrap(), "1'");
    assert_eq!(remove_quotes("'a'\n'b'\nc").unwrap(), "a\nb\nc");
    assert_eq!(remove_quotes("''").unwrap(), "");
    assert_eq!(remove_quotes("'").unwrap(), "'");
    assert_eq!(remove_quotes("1,'").unwrap(), "1,'");
}
