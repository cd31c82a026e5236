use rackcli::ports::format_ports;
use rackcli::switch::Switch;

// Valid input tests
#[test]
fn test_parse_ports_single() {
    let ports = Switch::parse_ports("1".to_string());
    assert_eq!(ports, Ok(vec![1]));
}

#[test]
fn test_parse_ports_range() {
    let ports = Switch::parse_ports("1-6".to_string());
    assert_eq!(ports, Ok(vec![1, 2, 3, 4, 5, 6]));
}

#[test]
fn test_parse_mixed_input() {
    let ports = Switch::parse_ports("1-6,8,10-12".to_string());
    assert_eq!(ports, Ok(vec![1, 2, 3, 4, 5, 6, 8, 10, 11, 12]));
}

#[test]
fn test_parse_duplicate_input() {
    let ports = Switch::parse_ports("1-6,8,10-12,1,2,3,4,5,6,8,10,11,12".to_string());
    assert_eq!(ports, Ok(vec![1, 2, 3, 4, 5, 6, 8, 10, 11, 12]));
}

// Invalid input tests
#[test]
fn test_parse_ports_invalid_range() {
    let ports = Switch::parse_ports("1-6-8".to_string());
    assert_eq!(ports, Err("Invalid port range: 1-6-8".to_string()));
}

#[test]
fn test_parse_ports_invalid_range_format() {
    let ports = Switch::parse_ports("1-A".to_string());
    assert_eq!(ports, Err("Invalid port range: 1-A".to_string()));
}

#[test]
fn test_parse_ports_invalid_format() {
    let ports = Switch::parse_ports("1 2 3".to_string());
    assert_eq!(ports, Err("Invalid port range: 1 2 3".to_string()));
}

#[test]
fn test_parse_ports_invalid_port() {
    let ports = Switch::parse_ports("1-6,a".to_string());
    assert_eq!(ports, Err("Invalid port range: 1-6,a".to_string()));
}

#[test]
fn parse_unordered_tokens_are_sorted() {
    let ports = Switch::parse_ports("12,3-4,1".to_string());
    assert_eq!(ports, Ok(vec![1, 3, 4, 12]));
}

#[test]
fn parse_reversed_range_is_empty() {
    assert_eq!(Switch::parse_ports("5-3".to_string()), Ok(vec![]));
    assert_eq!(Switch::parse_ports("5-3,2".to_string()), Ok(vec![2]));
}

#[test]
fn parse_empty_input_fails() {
    assert_eq!(
        Switch::parse_ports("".to_string()),
        Err("Invalid port range: ".to_string())
    );
}

#[test]
fn parse_empty_token_fails() {
    assert_eq!(
        Switch::parse_ports("1,,2".to_string()),
        Err("Invalid port range: 1,,2".to_string())
    );
    assert_eq!(
        Switch::parse_ports("-5".to_string()),
        Err("Invalid port range: -5".to_string())
    );
}

#[test]
fn parse_space_after_valid_tokens_fails() {
    assert_eq!(
        Switch::parse_ports("1,2, 3".to_string()),
        Err("Invalid port range: 1,2, 3".to_string())
    );
}

#[test]
fn parse_plus_sign_is_accepted() {
    assert_eq!(Switch::parse_ports("+7".to_string()), Ok(vec![7]));
}

#[test]
fn parse_largest_port() {
    assert_eq!(
        Switch::parse_ports("4294967295".to_string()),
        Ok(vec![4294967295])
    );
    assert_eq!(
        Switch::parse_ports("4294967296".to_string()),
        Err("Invalid port range: 4294967296".to_string())
    );
}

#[test]
fn format_writes_comma_list() {
    assert_eq!(format_ports(&vec![1, 2, 10, 305]), "1,2,10,305".to_string());
    assert_eq!(format_ports(&vec![]), "".to_string());
    assert_eq!(format_ports(&vec![0]), "0".to_string());
}

#[test]
fn parse_of_format_of_parse_is_parse() {
    let first = Switch::parse_ports("10-12,1-6,8,3".to_string()).unwrap();
    let again = Switch::parse_ports(format_ports(&first)).unwrap();
    assert_eq!(again, first);
    assert_eq!(again, vec![1, 2, 3, 4, 5, 6, 8, 10, 11, 12]);
}
