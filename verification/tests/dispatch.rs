use fancy_talk::lookup_message;
use fancy_talk::DispatchTable;
use fancy_talk::MessageType;
use fancy_talk::Package;

fn canned(payload: &str) -> Package {
    Package::new()
        .set_message_type(MessageType::Response)
        .set_rgb(0x10, 0x20, 0x30)
        .set_payload(Some(String::from(payload)))
}

fn table() -> DispatchTable {
    let mut messages = DispatchTable::new();
    messages.insert(String::from("greeting"), canned("Hello, world!").set_italic(true));
    messages.insert(String::from("hamlet"), canned("Alas, poor Yorick!").set_underlined(true));
    messages.insert(String::from("farewell"), canned("Goodbye!").set_bold(true));
    messages.insert(String::from("fallback"), canned("Not found!").set_bold(true).set_blink(true));
    messages
}

#[test]
fn known_key_answers_from_its_template() {
    let messages = table();
    let mut query = Package::new().set_id(0x2342);
    query.set_query(Some(String::from("hamlet")));

    let response = lookup_message(&messages, &query);

    assert_eq!(response.id, 0x2342);
    assert_eq!(response.query, Some(String::from("hamlet")));
    assert_eq!(response.payload, Some(String::from("Alas, poor Yorick!")));
    assert!(response.underlined);
    assert!(!response.bold);
    assert_eq!(response.message_type, MessageType::Response);
    assert_eq!((response.red, response.green, response.blue), (0x10, 0x20, 0x30));
}

#[test]
fn unknown_key_answers_from_the_fallback() {
    let messages = table();
    let mut query = Package::new().set_id(0x0102);
    query.set_query(Some(String::from("unknown-key")));

    let response = lookup_message(&messages, &query);

    assert_eq!(response.id, 0x0102);
    assert_eq!(response.query, Some(String::from("unknown-key")));
    assert_eq!(response.payload, Some(String::from("Not found!")));
    assert!(response.bold && response.blink);
}

#[test]
fn absent_query_answers_from_the_fallback() {
    let messages = table();
    let query = Package::new().set_id(0x7777);

    let response = lookup_message(&messages, &query);

    assert_eq!(response.id, 0x7777);
    assert_eq!(response.query, None);
    assert_eq!(response.payload, Some(String::from("Not found!")));
}

#[test]
fn table_get_finds_only_what_was_inserted() {
    let messages = table();
    assert!(messages.get(&String::from("greeting")).is_some());
    assert!(messages.get(&String::from("Greeting")).is_none());
    assert!(messages.get(&String::from("")).is_none());
    let empty = DispatchTable::new();
    assert!(empty.get(&String::from("fallback")).is_none());
}
