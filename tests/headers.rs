use rust_downloader::headers::{translate_headers, HeaderError};

fn pairs(items: &[(&str, &str)]) -> Vec<(String, String)> {
    items
        .iter()
        .map(|(k, v)| (k.to_string(), v.to_string()))
        .collect()
}

#[test]
fn valid_headers_are_collected() {
    let map = translate_headers(&pairs(&[("Accept", "text/html"), ("X-Token", "abc")]))
        .ok()
        .unwrap();
    assert_eq!(map.len(), 2);
    assert_eq!(map.get("accept").unwrap().as_bytes(), b"text/html");
    assert_eq!(map.get("x-token").unwrap().as_bytes(), b"abc");
}

#[test]
fn names_are_stored_in_lower_case() {
    let map = translate_headers(&pairs(&[("X-CUSTOM-Name", "v")])).ok().unwrap();
    let names: Vec<String> = map.keys().map(|k| k.as_str().to_string()).collect();
    assert_eq!(names, vec!["x-custom-name".to_string()]);
}

#[test]
fn duplicate_names_keep_last_value() {
    let map = translate_headers(&pairs(&[
        ("Accept", "first"),
        ("X-Other", "o"),
        ("accept", "second"),
        ("ACCEPT", "third"),
    ]))
    .ok()
    .unwrap();
    assert_eq!(map.len(), 2);
    assert_eq!(map.get_all("accept").iter().count(), 1);
    assert_eq!(map.get("accept").unwrap().as_bytes(), b"third");
}

#[test]
fn empty_header_list_gives_empty_map() {
    let map = translate_headers(&Vec::new()).ok().unwrap();
    assert!(map.is_empty());
}

#[test]
fn control_character_in_name_is_rejected() {
    let r = translate_headers(&pairs(&[("Good", "v"), ("Bad\nName", "v")]));
    match r {
        Err(HeaderError::InvalidHeaderName { key, message }) => {
            assert_eq!(key, "Bad\nName");
            assert_eq!(message, "invalid HTTP header name");
        }
        _ => panic!("expected an invalid name"),
    }
}

#[test]
fn empty_name_and_space_in_name_are_rejected() {
    assert!(matches!(
        translate_headers(&pairs(&[("", "v")])),
        Err(HeaderError::InvalidHeaderName { .. })
    ));
    assert!(matches!(
        translate_headers(&pairs(&[("Two Words", "v")])),
        Err(HeaderError::InvalidHeaderName { .. })
    ));
}

#[test]
fn control_character_in_value_is_rejected() {
    let r = translate_headers(&pairs(&[("X-A", "ok"), ("X-B", "line\r\nbreak")]));
    match r {
        Err(HeaderError::InvalidHeaderValue { key, message }) => {
            assert_eq!(key, "X-B");
            assert_eq!(message, "failed to parse header value");
        }
        _ => panic!("expected an invalid value"),
    }
}

#[test]
fn tab_and_non_ascii_values_are_accepted() {
    let map = translate_headers(&pairs(&[("X-A", "a\tb"), ("X-B", "caf\u{e9}")]))
        .ok()
        .unwrap();
    assert_eq!(map.get("x-a").unwrap().as_bytes(), b"a\tb");
    assert_eq!(map.get("x-b").unwrap().as_bytes(), "caf\u{e9}".as_bytes());
}

#[test]
fn first_invalid_pair_decides_the_error() {
    let r = translate_headers(&pairs(&[("X-A", "bad\u{7f}"), ("Bad Name", "v")]));
    match r {
        Err(HeaderError::InvalidHeaderValue { key, .. }) => assert_eq!(key, "X-A"),
        _ => panic!("expected the value of the first pair"),
    }
}
