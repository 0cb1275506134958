use ruby_linter::first_error_message;

#[test]
fn it_works() {
    let result = ruby_linter::add(2, 2);
    assert_eq!(result, 4);
}

#[test]
fn no_messages_means_no_errors() {
    let messages: Vec<String> = Vec::new();
    assert_eq!(first_error_message(&messages), "No errors");
}

#[test]
fn the_first_message_is_surfaced() {
    let messages = vec!["unexpected token".to_string(), "unterminated string".to_string()];
    assert_eq!(first_error_message(&messages), "unexpected token");
}
