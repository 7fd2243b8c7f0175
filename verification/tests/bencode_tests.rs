use btboy::bencode::{dict_get, dict_get_str, list_of_lists_strings};
use sha1::Digest;

fn simple_torrent() -> Vec<u8> {
    // { "announce":"http://x", "info":{ "name":"a", "length":5 } }
    b"d8:announce8:http://x4:infod4:name1:a6:lengthi5eee".to_vec()
}

#[test]
fn extract_info() {
    let data = simple_torrent();
    let info = dict_get(&data, b"info").unwrap();
    assert_eq!(info, b"d4:name1:a6:lengthi5ee");
}

#[test]
fn missing_key() {
    let data = simple_torrent();
    assert!(dict_get(&data, b"nope").is_none());
}

#[test]
fn known_infohash() {
    let data = simple_torrent();
    let info = dict_get(&data, b"info").unwrap();
    let h = sha1::Sha1::digest(info);
    assert_eq!(h.len(), 20);
}

#[test]
fn announce_is_read_as_text() {
    let data = simple_torrent();
    assert_eq!(dict_get_str(&data, b"announce"), Some("http://x"));
    // the value under `info` is a dictionary, not a string
    assert_eq!(dict_get_str(&data, b"info"), None);
    assert_eq!(dict_get_str(&data, b"nope"), None);
}

#[test]
fn not_a_dictionary() {
    assert!(dict_get(b"l4:infoe", b"info").is_none());
    assert!(dict_get(b"", b"info").is_none());
    assert!(dict_get_str(b"i5e", b"info").is_none());
}

#[test]
fn value_kinds_are_skipped() {
    // an integer, a list and a nested dictionary before the wanted key
    let data = b"d1:ai42e1:bl1:x1:ye1:cd1:zi0ee4:wanti7ee";
    assert_eq!(dict_get(data, b"want").unwrap(), b"i7e");
    assert_eq!(dict_get(data, b"b").unwrap(), b"l1:x1:ye");
    assert_eq!(dict_get(data, b"c").unwrap(), b"d1:zi0ee");
}

#[test]
fn truncated_string_is_rejected() {
    // the length says 9 bytes but only 3 follow
    assert!(dict_get(b"d4:info9:abc", b"info").is_none());
    // a length that is no number
    assert!(dict_get(b"d4:info-1:xe", b"info").is_none());
}

#[test]
fn announce_list_strings() {
    let data = b"ll3:udpel4:http5:httpsee";
    assert_eq!(
        list_of_lists_strings(data, 0),
        Some(vec!["udp".to_string(), "http".to_string(), "https".to_string()])
    );
    // items that are not lists are skipped
    let data2 = b"li3el1:aee";
    assert_eq!(list_of_lists_strings(data2, 0), Some(vec!["a".to_string()]));
    // not a list at that position
    assert_eq!(list_of_lists_strings(data, 2), None);
    // the inner list read as the outer one: its string items are skipped
    assert_eq!(list_of_lists_strings(data, 1), Some(vec![]));
    // unterminated
    assert_eq!(list_of_lists_strings(b"ll1:a", 0), None);
    // an empty outer list
    assert_eq!(list_of_lists_strings(b"le", 0), Some(vec![]));
}

#[test]
fn text_value_is_the_decoded_byte_string() {
    let data = b"d8:announce8:http://x4:infod6:lengthi3eee";
    let raw = dict_get(data, b"announce").unwrap();
    let text = dict_get_str(data, b"announce").unwrap();
    assert_eq!(raw, b"8:http://x");
    assert_eq!(&raw[2..], text.as_bytes());
    let n: usize = std::str::from_utf8(&raw[..1]).unwrap().parse().unwrap();
    assert_eq!(n, text.len());
}
