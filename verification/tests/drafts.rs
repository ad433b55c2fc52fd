use bytes::Bytes;
use reqwave::curl_parser::{parse_curl, RequestTemplate};
use reqwave::draft::{
    build_template_from_draft, draft_from_template, headers_from_members, method_supports_body,
    method_text_supports_body, normalize_possible_json_body, plain_body_text, visible_text,
    EditableRequest,
};
use reqwave::error::RequestError;
use reqwave::i18n::{I18nKey, Language};
use reqwave::outside::JsonValue;
use reqwest::header::{HeaderMap, HeaderName, HeaderValue};

fn draft(method: &str, url: &str, headers: &str, body: &str) -> EditableRequest {
    EditableRequest {
        api_url: url.to_owned(),
        method: method.to_owned(),
        headers_json: headers.to_owned(),
        body: body.to_owned(),
    }
}

fn built(method: &str, url: &str, headers: &str, body: &str) -> RequestTemplate {
    build_template_from_draft(&draft(method, url, headers, body), Language::EnUs).unwrap()
}

fn refused(method: &str, url: &str, headers: &str) -> RequestError {
    build_template_from_draft(&draft(method, url, headers, ""), Language::EnUs).unwrap_err()
}

fn template(headers: HeaderMap, body: Option<&[u8]>) -> RequestTemplate {
    RequestTemplate {
        method: "POST".to_owned(),
        url: "https://example.com/".to_owned(),
        headers,
        body: body.map(Bytes::copy_from_slice),
    }
}

#[test]
fn draft_shows_a_request() {
    let request = parse_curl(
        "curl -H 'B: 2' -H 'A: 1' -d '{\"key\":[1,2]}' https://api.example.com/endpoint",
        Language::EnUs,
    )
    .unwrap();
    let shown = draft_from_template(request);
    assert_eq!(shown.api_url, "https://api.example.com/endpoint");
    assert_eq!(shown.method, "POST");
    assert_eq!(
        shown.headers_json,
        "{\n  \"a\": \"1\",\n  \"b\": \"2\",\n  \"host\": \"api.example.com\"\n}"
    );
    assert_eq!(shown.body, "{\n  \"key\": [\n    1,\n    2\n  ]\n}");
}

#[test]
fn draft_gives_the_request_back() {
    let request = parse_curl(
        "curl -X PATCH -H 'X-Quote: say \"hi\" \\ there' -H 'Accept: */*' -d 'a=b' http://h.example:8080/x",
        Language::EnUs,
    )
    .unwrap();
    let expected = request.clone();
    let again = build_template_from_draft(&draft_from_template(request), Language::EnUs).unwrap();
    assert_eq!(again.method, expected.method);
    assert_eq!(again.url, expected.url);
    assert_eq!(again.headers, expected.headers);
    assert_eq!(again.body, expected.body);
}

#[test]
fn invisible_header_is_not_shown() {
    let request =
        parse_curl("curl -H 'A: 1' -H 'X-Name: 你好' https://example.com", Language::EnUs).unwrap();
    let shown = draft_from_template(request);
    assert_eq!(shown.headers_json, "{\n  \"a\": \"1\",\n  \"host\": \"example.com\"\n}");
}

#[test]
fn last_visible_value_of_a_header_is_shown() {
    let mut headers = HeaderMap::new();
    headers.append(HeaderName::from_static("x-a"), HeaderValue::from_static("one"));
    headers.append(HeaderName::from_static("x-a"), HeaderValue::from_static("two"));
    headers.append(HeaderName::from_static("x-a"), HeaderValue::from_bytes(&[0xff]).unwrap());
    let shown = draft_from_template(template(headers, None));
    assert_eq!(shown.headers_json, "{\n  \"x-a\": \"two\"\n}");
    assert_eq!(shown.body, "");
}

#[test]
fn request_without_headers_shows_an_empty_object() {
    assert_eq!(draft_from_template(template(HeaderMap::new(), None)).headers_json, "{}");
}

#[test]
fn malformed_body_is_shown_as_well_as_can_be() {
    let shown = draft_from_template(template(HeaderMap::new(), Some(&[b'a', 0xff, b'b'])));
    assert_eq!(shown.body, "a\u{fffd}b");
}

#[test]
fn draft_is_trimmed_where_it_counts() {
    let request = built(" PUT ", " https://example.com/a ", "  {\"A\": \"1\"} ", " x ");
    assert_eq!(request.method, "PUT");
    assert_eq!(request.url, "https://example.com/a");
    assert_eq!(request.headers.get("a").unwrap(), "1");
    assert_eq!(request.body.as_deref(), Some("x".as_bytes()));
}

#[test]
fn nothing_typed_is_an_empty_header_object() {
    assert!(built("GET", "https://example.com", "  ", "").headers.is_empty());
    assert!(built("GET", "https://example.com", "{}", "").headers.is_empty());
}

#[test]
fn header_values_that_are_no_strings_are_printed() {
    let headers =
        "{\"N\": 5, \"T\": true, \"Z\": null, \"L\": [1, 2], \"O\": {\"a\": \"b\"}, \"S\": \"s\"}";
    let request = built("GET", "https://example.com", headers, "");
    assert_eq!(request.headers.get("n").unwrap(), "5");
    assert_eq!(request.headers.get("t").unwrap(), "true");
    assert_eq!(request.headers.get("z").unwrap(), "null");
    assert_eq!(request.headers.get("l").unwrap(), "[1,2]");
    assert_eq!(request.headers.get("o").unwrap(), "{\"a\":\"b\"}");
    assert_eq!(request.headers.get("s").unwrap(), "s");
}

#[test]
fn get_and_head_send_no_body() {
    assert!(built("GET", "https://example.com", "{}", "body").body.is_none());
    assert!(built("HEAD", "https://example.com", "{}", "body").body.is_none());
    assert!(built("POST", "https://example.com", "{}", " \n ").body.is_none());
    assert_eq!(
        built("DELETE", "https://example.com", "{}", "body").body.as_deref(),
        Some("body".as_bytes())
    );
    assert_eq!(
        built("get", "https://example.com", "{}", "body").body.as_deref(),
        Some("body".as_bytes())
    );
}

#[test]
fn methods_that_carry_a_body() {
    assert!(!method_supports_body("GET"));
    assert!(!method_supports_body("HEAD"));
    assert!(method_supports_body("get"));
    assert!(method_supports_body("POST"));
    assert!(!method_text_supports_body("gEt"));
    assert!(!method_text_supports_body("head"));
    assert!(method_text_supports_body("PATCH"));
    assert!(method_text_supports_body(" GET"));
}

#[test]
fn each_fault_of_a_draft_is_told() {
    let key = |e: RequestError| match e {
        RequestError::Fault { key, .. } => key,
        other => panic!("no fault: {:?}", other),
    };
    let url = "https://example.com";
    assert_eq!(key(refused("A B", url, "{}")), I18nKey::InvalidRequestMethod);
    assert_eq!(key(refused("", url, "{}")), I18nKey::InvalidRequestMethod);
    assert_eq!(key(refused("GET", "  ", "{}")), I18nKey::EmptyApiUrl);
    assert_eq!(key(refused("GET", "example.com", "{}")), I18nKey::InvalidApiUrl);
    assert_eq!(key(refused("GET", url, "{")), I18nKey::HeaderNotJson);
    assert_eq!(key(refused("GET", url, "[1]")), I18nKey::HeaderMustObject);
    assert_eq!(key(refused("GET", url, "\"x\"")), I18nKey::HeaderMustObject);
}

#[test]
fn faulty_header_is_named() {
    let url = "https://example.com";
    let name = refused("GET", url, "{\"a b\": \"1\"}");
    assert!(matches!(&name, RequestError::HeaderFault { key: I18nKey::InvalidHeaderName, .. }));
    assert_eq!(name.message(), "Invalid header name: a b");
    let value = refused("GET", url, "{\"a\": \"1\\n2\"}");
    assert!(matches!(&value, RequestError::HeaderFault { key: I18nKey::InvalidHeaderValue, .. }));
    assert_eq!(value.message(), "Invalid header value: a");
}

#[test]
fn last_member_with_the_same_header_name_counts() {
    let request = built("GET", "https://example.com", "{\"a\": \"low\", \"A\": \"up\"}", "");
    assert_eq!(request.headers.len(), 1);
    assert_eq!(request.headers.get("a").unwrap(), "low");
    let members = vec![
        ("X".to_owned(), JsonValue::Text("1".to_owned())),
        ("x".to_owned(), JsonValue::Printed("2".to_owned())),
    ];
    let headers = headers_from_members(&members, Language::EnUs).unwrap();
    assert_eq!(headers.get("x").unwrap(), "2");
}

#[test]
fn first_faulty_member_is_told() {
    let members = vec![
        ("ok".to_owned(), JsonValue::Text("1".to_owned())),
        ("v".to_owned(), JsonValue::Text("\n".to_owned())),
        ("".to_owned(), JsonValue::Text("1".to_owned())),
    ];
    let err = headers_from_members(&members, Language::EnUs).unwrap_err();
    assert_eq!(err.message(), "Invalid header value: v");
}

#[test]
fn body_is_brought_into_plain_form() {
    assert_eq!(plain_body_text("  a\\nb\\tc\\r\\nd  "), "a\nb\tc\nd");
    assert_eq!(plain_body_text("${\"a\":1}"), "{\"a\":1}");
    assert_eq!(plain_body_text("$x"), "$x");
    assert_eq!(plain_body_text("$"), "$");
    assert_eq!(plain_body_text(""), "");
    assert_eq!(plain_body_text("\\\\n"), "\\\n");
}

#[test]
fn json_body_is_indented() {
    assert_eq!(normalize_possible_json_body("${\"b\":1,\"a\":2}"), "{\n  \"a\": 2,\n  \"b\": 1\n}");
    assert_eq!(normalize_possible_json_body("{\\n\"a\":\\t1}"), "{\n  \"a\": 1\n}");
    assert_eq!(normalize_possible_json_body("name=reqwave"), "name=reqwave");
    assert_eq!(normalize_possible_json_body(" 7 "), "7");
}

#[test]
fn visible_bytes_are_read_as_text() {
    assert_eq!(visible_text(&b"a\tb ~".to_vec()).as_deref(), Some("a\tb ~"));
    assert_eq!(visible_text(&Vec::new()).as_deref(), Some(""));
    assert_eq!(visible_text(&vec![0x7f]), None);
    assert_eq!(visible_text(&vec![0x80]), None);
    assert_eq!(visible_text(&vec![0x1f]), None);
}

#[test]
fn plain_form_is_kept_when_it_is_taken_again() {
    let samples = [
        "",
        " name=reqwave ",
        "${\"b\":[1,-2,{\"v\":\"1.5e3\"}],\"a\":true}",
        "{\"least\":-9223372036854775808,\"most\":9223372036854775807,\"zero\":-0}",
        "$ {\"a\":1}",
        "\u{3000}[\"\u{7f}\", \"héllo\"]\n",
        "{\"a\":1}}",
    ];
    for s in samples {
        let once = normalize_possible_json_body(s);
        assert_eq!(normalize_possible_json_body(&once), once, "{}", s);
        let plain = s.trim();
        let plain = if plain.starts_with("${") { &plain[1..] } else { plain };
        assert_eq!(plain_body_text(s), plain);
        match serde_json::from_str::<serde_json::Value>(plain) {
            Ok(value) => {
                let again: serde_json::Value = serde_json::from_str(&once).unwrap();
                assert_eq!(again, value);
            }
            Err(_) => assert_eq!(once, plain),
        }
    }
}

#[test]
fn request_without_a_body_stays_without_one() {
    let request = parse_curl("curl -X POST https://example.com", Language::EnUs).unwrap();
    let again = build_template_from_draft(&draft_from_template(request), Language::EnUs).unwrap();
    assert_eq!(again.method, "POST");
    assert!(again.body.is_none());
}

#[test]
fn very_large_header_object_is_reported() {
    let members: Vec<String> = (0..40000).map(|i| format!("\"n{}\":1", i)).collect();
    let headers = format!("{{{}}}", members.join(","));
    let err = refused("GET", "https://example.com", &headers);
    assert!(matches!(err, RequestError::TooManyHeaders));
}
