use stream_injector::command::decode;
use stream_injector::command::ends_gracefully;
use stream_injector::command::same_bytes;
use stream_injector::command::Command;
use stream_injector::command::StreamStop;
use stream_injector::command::WireElement;
use stream_injector::command::WireUnit;

fn data(text: &str) -> WireElement {
    WireElement::Data(text.as_bytes().to_vec())
}

fn array(items: Vec<WireElement>) -> WireUnit {
    WireUnit::Array(items)
}

#[test]
fn decode_set_of_three() {
    let unit = array(vec![data("SET"), data("a"), data("1")]);
    assert_eq!(decode(unit), Command::SetValue { key: b"a".to_vec(), value: b"1".to_vec() });
}

#[test]
fn decode_expireat_of_three() {
    let unit = array(vec![data("EXPIREAT"), data("a"), data("1700000005")]);
    assert_eq!(
        decode(unit),
        Command::ExpireAt { key: b"a".to_vec(), at: b"1700000005".to_vec() }
    );
}

#[test]
fn decode_keeps_empty_and_binary_arguments() {
    let unit = array(vec![data("SET"), WireElement::Data(vec![]), WireElement::Data(vec![0, 255, 13, 10])]);
    assert_eq!(decode(unit), Command::SetValue { key: vec![], value: vec![0, 255, 13, 10] });
}

#[test]
fn decode_wrong_arity_is_other() {
    assert_eq!(decode(array(vec![])), Command::Other);
    assert_eq!(decode(array(vec![data("SET")])), Command::Other);
    assert_eq!(decode(array(vec![data("SET"), data("a")])), Command::Other);
    assert_eq!(
        decode(array(vec![data("SET"), data("a"), data("1"), data("EX")])),
        Command::Other
    );
    assert_eq!(
        decode(array(vec![data("SET"), data("a"), data("1"), data("EX"), data("10")])),
        Command::Other
    );
    assert_eq!(decode(array(vec![data("EXPIREAT"), data("a")])), Command::Other);
}

#[test]
fn decode_unknown_name_is_other() {
    assert_eq!(decode(array(vec![data("DEL"), data("a"), data("b")])), Command::Other);
    assert_eq!(decode(array(vec![data("EXPIRE"), data("a"), data("10")])), Command::Other);
    assert_eq!(decode(array(vec![data("SETEX"), data("a"), data("10")])), Command::Other);
    assert_eq!(decode(array(vec![data(""), data("a"), data("10")])), Command::Other);
}

#[test]
fn decode_compares_names_byte_for_byte() {
    assert_eq!(decode(array(vec![data("set"), data("a"), data("1")])), Command::Other);
    assert_eq!(decode(array(vec![data("Set"), data("a"), data("1")])), Command::Other);
    assert_eq!(decode(array(vec![data("expireat"), data("a"), data("1")])), Command::Other);
    assert_eq!(decode(array(vec![data("SET "), data("a"), data("1")])), Command::Other);
}

#[test]
fn decode_element_that_is_no_byte_string_is_other() {
    assert_eq!(decode(array(vec![WireElement::Other, data("a"), data("1")])), Command::Other);
    assert_eq!(decode(array(vec![data("SET"), WireElement::Other, data("1")])), Command::Other);
    assert_eq!(decode(array(vec![data("SET"), data("a"), WireElement::Other])), Command::Other);
    assert_eq!(
        decode(array(vec![data("EXPIREAT"), data("a"), WireElement::Other])),
        Command::Other
    );
}

#[test]
fn decode_unit_that_is_no_array_is_other() {
    assert_eq!(decode(WireUnit::Other), Command::Other);
}

#[test]
fn same_bytes_compares_content() {
    assert!(same_bytes(b"", b""));
    assert!(same_bytes(b"abc", b"abc"));
    assert!(!same_bytes(b"abc", b"abd"));
    assert!(!same_bytes(b"abc", b"ab"));
    assert!(!same_bytes(b"ab", b"abc"));
    assert!(!same_bytes(b"", b"a"));
    assert!(!same_bytes(b"xbc", b"abc"));
}

#[test]
fn only_a_failed_read_ends_the_run() {
    assert!(ends_gracefully(StreamStop::EndOfStream));
    assert!(ends_gracefully(StreamStop::Malformed));
    assert!(!ends_gracefully(StreamStop::ReadFailed));
}
