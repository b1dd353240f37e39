use bunnylol::utils::get_command_from_query_string;

#[test]
fn command_only() {
    assert_eq!(get_command_from_query_string("tw"), "tw");
}

#[test]
fn command_with_args() {
    assert_eq!(get_command_from_query_string("tw @fbOpenSource"), "tw");
}

#[test]
fn command_empty_and_leading_space() {
    assert_eq!(get_command_from_query_string(""), "");
    assert_eq!(get_command_from_query_string(" tw"), "");
    assert_eq!(get_command_from_query_string("gh facebook/bunnylol"), "gh");
}
