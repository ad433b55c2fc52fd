use reqwave::curl_parser::{
    finish_template, host_header, parse_curl, read_arguments, template_from_words, word_kind,
    RequestTemplate, WordKind,
};
use reqwave::error::RequestError;
use reqwave::i18n::{t, I18nKey, Language};
use reqwest::header::HeaderMap;

fn fault(input: &str) -> I18nKey {
    match parse_curl(input, Language::EnUs) {
        Err(RequestError::Fault { language: Language::EnUs, key }) => key,
        other => panic!("no fault: {:?}", other),
    }
}

fn parsed(input: &str) -> RequestTemplate {
    parse_curl(input, Language::EnUs).unwrap()
}

fn header<'a>(template: &'a RequestTemplate, name: &str) -> &'a str {
    template.headers.get(name).unwrap().to_str().unwrap()
}

fn words(list: &[&str]) -> Vec<String> {
    list.iter().map(|w| w.to_string()).collect()
}

#[test]
fn parses_basic_post_request() {
    let template = parse_curl(
        "curl -X POST -H 'Content-Type: application/json' -d '{\"key\":\"value\"}' https://api.example.com/endpoint",
        Language::ZhCn,
    )
    .unwrap();

    assert_eq!(template.method, "POST");
    assert_eq!(template.url, "https://api.example.com/endpoint");
    assert_eq!(
        template.headers.get("content-type").unwrap().to_str().unwrap(),
        "application/json"
    );
    assert_eq!(
        template.headers.get("host").unwrap().to_str().unwrap(),
        "api.example.com"
    );
    assert_eq!(
        template.body.as_deref(),
        Some("{\"key\":\"value\"}".as_bytes())
    );
}

#[test]
fn infers_post_when_data_is_present() {
    let template = parse_curl(
        "curl --data 'name=reqwave' https://example.com/api",
        Language::EnUs,
    )
    .unwrap();

    assert_eq!(template.method, "POST");
    assert_eq!(template.body.as_deref(), Some("name=reqwave".as_bytes()));
}

#[test]
fn rejects_malformed_header() {
    let err = parse_curl(
        "curl -H 'broken-header' https://example.com",
        Language::EnUs,
    )
    .unwrap_err();

    assert!(err.message().contains("Header"));
}

#[test]
fn reads_a_command_as_browsers_copy_it() {
    let template = parsed(
        "curl 'https://shop.example.com:8443/cart?id=7' \\\n  -H 'accept: */*' \\\n  -H 'Cookie: a=b; c=d' \\\n  --data-raw $'{\"n\":1}' \\\n  --compressed",
    );
    assert_eq!(template.method, "POST");
    assert_eq!(template.url, "https://shop.example.com:8443/cart?id=7");
    assert_eq!(header(&template, "accept"), "*/*");
    assert_eq!(header(&template, "cookie"), "a=b; c=d");
    assert_eq!(header(&template, "host"), "shop.example.com:8443");
    assert_eq!(template.body.as_deref(), Some("${\"n\":1}".as_bytes()));
}

#[test]
fn without_body_and_method_the_request_is_a_get() {
    let template = parsed("curl https://example.com");
    assert_eq!(template.method, "GET");
    assert!(template.body.is_none());
    assert_eq!(template.headers.len(), 1);
}

#[test]
fn named_method_counts_in_upper_case() {
    assert_eq!(parsed("curl -X put https://example.com").method, "PUT");
    assert_eq!(parsed("curl --request delete -d x https://example.com").method, "DELETE");
    assert_eq!(parsed("curl -X put -X patch https://example.com").method, "PATCH");
    assert_eq!(parsed("curl -X get -d x https://example.com").method, "POST");
    assert_eq!(parsed("curl -d x -X get https://example.com").method, "GET");
}

#[test]
fn upper_case_goes_by_the_unicode_rules() {
    assert_eq!(parsed("curl -X po\u{17f}t https://example.com").method, "POST");
}

#[test]
fn last_header_counts_whatever_its_case() {
    let template = parsed(
        "curl -H 'X-Mode: first' --header 'x-mode:  second ' https://example.com",
    );
    assert_eq!(template.headers.get_all("x-mode").iter().count(), 1);
    assert_eq!(header(&template, "X-MODE"), "second");
}

#[test]
fn header_value_may_hold_colons_and_may_be_empty() {
    let template = parsed("curl -H 'Referer: http://a:1/' -H 'X-Empty:' https://example.com");
    assert_eq!(header(&template, "referer"), "http://a:1/");
    assert_eq!(header(&template, "x-empty"), "");
}

#[test]
fn given_host_header_is_kept() {
    let template = parsed("curl -H 'HOST: other' https://example.com");
    assert_eq!(header(&template, "host"), "other");
}

#[test]
fn default_port_is_no_explicit_port() {
    assert_eq!(header(&parsed("curl https://example.com:443/"), "host"), "example.com");
    assert_eq!(header(&parsed("curl http://example.com:443/"), "host"), "example.com:443");
}

#[test]
fn every_request_has_a_host_header() {
    assert_eq!(header(&parsed("curl http://m\u{fc}nchen.example/"), "host"), "xn--mnchen-3ya.example");
    assert_eq!(header(&parsed("curl 'http://[::1]:8080/'"), "host"), "[::1]:8080");
    assert_eq!(header(&parsed("curl http://user:pw@127.1/"), "host"), "127.0.0.1");
    assert_eq!(header(&parsed("curl http:///a.example/b"), "host"), "a.example");
    for input in ["curl http://", "curl https://?q", "curl http://:80/", "curl 'http://a b/'"] {
        assert_eq!(fault(input), I18nKey::InvalidUrl, "{}", input);
    }
    for c in (0u8..0x21).chain([0x7f]) {
        let list = words(&["curl", &format!("http://a%{:02x}b/", c)]);
        let err = template_from_words(&list, Language::EnUs).unwrap_err();
        assert!(matches!(err, RequestError::Fault { key: I18nKey::InvalidUrl, .. }));
    }
}

#[test]
fn last_url_and_last_body_count() {
    let template = parsed("curl http://a.example -d one https://b.example --data-binary two");
    assert_eq!(template.url, "https://b.example");
    assert_eq!(template.body.as_deref(), Some("two".as_bytes()));
}

#[test]
fn argument_of_an_option_is_never_an_option_itself() {
    let template = parsed("curl -d -X https://example.com");
    assert_eq!(template.method, "POST");
    assert_eq!(template.body.as_deref(), Some("-X".as_bytes()));
}

#[test]
fn body_keeps_its_characters_as_utf8() {
    let template = parsed("curl -d 'héllo 你好' https://example.com");
    assert_eq!(template.body.as_deref(), Some("héllo 你好".as_bytes()));
}

#[test]
fn each_fault_of_a_command_is_told() {
    assert_eq!(fault("curl 'https://example.com"), I18nKey::InvalidShellString);
    assert_eq!(fault(""), I18nKey::EmptyInput);
    assert_eq!(fault("   \n"), I18nKey::EmptyInput);
    assert_eq!(fault("curl https://example.com -X"), I18nKey::MissingHttpMethod);
    assert_eq!(fault("curl -X 'a b' https://example.com"), I18nKey::InvalidHttpMethod);
    assert_eq!(fault("curl -X '' https://example.com"), I18nKey::InvalidHttpMethod);
    assert_eq!(fault("curl https://example.com -H"), I18nKey::MissingHeaderValue);
    assert_eq!(fault("curl -H 'a b: c' https://example.com"), I18nKey::InvalidHeaderName);
    assert_eq!(fault("curl -H ': c' https://example.com"), I18nKey::InvalidHeaderName);
    assert_eq!(fault("curl -H 'a: b\u{7f}c' https://example.com"), I18nKey::InvalidHeaderValue);
    assert_eq!(fault("curl -H 'abc' https://example.com"), I18nKey::HeaderFormatInvalid);
    assert_eq!(fault("curl https://example.com -d"), I18nKey::MissingBody);
    assert_eq!(fault("curl example.com"), I18nKey::UrlNotFound);
    assert_eq!(fault("curl http://[bad"), I18nKey::InvalidUrl);
}

#[test]
fn first_fault_counts() {
    assert_eq!(fault("curl -H broken -X"), I18nKey::HeaderFormatInvalid);
    assert_eq!(fault("curl -H 'a: b' -d"), I18nKey::MissingBody);
}

#[test]
fn faults_are_worded_in_the_language_of_the_user() {
    let zh = parse_curl("curl", Language::ZhCn).unwrap_err();
    assert_eq!(zh.message(), t(Language::ZhCn, I18nKey::UrlNotFound));
    let en = parse_curl("curl", Language::EnUs).unwrap_err();
    assert_eq!(en.message(), "URL not found");
}

#[test]
fn words_are_told_apart() {
    assert_eq!(word_kind("-X"), WordKind::MethodOption);
    assert_eq!(word_kind("--request"), WordKind::MethodOption);
    assert_eq!(word_kind("-H"), WordKind::HeaderOption);
    assert_eq!(word_kind("--header"), WordKind::HeaderOption);
    assert_eq!(word_kind("-d"), WordKind::DataOption);
    assert_eq!(word_kind("--data"), WordKind::DataOption);
    assert_eq!(word_kind("--data-raw"), WordKind::DataOption);
    assert_eq!(word_kind("--data-binary"), WordKind::DataOption);
    assert_eq!(word_kind("http://x"), WordKind::Url);
    assert_eq!(word_kind("https://x"), WordKind::Url);
    assert_eq!(word_kind("HTTP://x"), WordKind::Other);
    assert_eq!(word_kind("--compressed"), WordKind::Other);
    assert_eq!(word_kind("curl"), WordKind::Other);
}

#[test]
fn words_need_no_shell() {
    let list = words(&["curl", "-H", "A: 1", "http://h.example:81/p q"]);
    let request = read_arguments(&list, Language::EnUs).unwrap();
    assert_eq!(request.url.as_deref(), Some("http://h.example:81/p q"));
    assert_eq!(request.method, "GET");
    let template = template_from_words(&list, Language::EnUs).unwrap();
    assert_eq!(template.headers.get("a").unwrap(), "1");
    assert_eq!(template.headers.get("host").unwrap(), "h.example:81");
}

#[test]
fn request_is_completed_with_what_the_url_gave() {
    let request = || RequestTemplate {
        method: "GET".to_owned(),
        url: "http://h".to_owned(),
        headers: HeaderMap::new(),
        body: None,
    };
    let with_port =
        finish_template(request(), Some((Some("h".to_owned()), Some(9))), Language::EnUs).unwrap();
    assert_eq!(with_port.headers.get("host").unwrap(), "h:9");
    let no_host = finish_template(request(), Some((None, None)), Language::EnUs).unwrap();
    assert!(no_host.headers.is_empty());
    let no_url = finish_template(request(), None, Language::EnUs).unwrap_err();
    assert!(matches!(no_url, RequestError::Fault { key: I18nKey::InvalidUrl, .. }));
    let bad_host = finish_template(
        request(),
        Some((Some("h\n".to_owned()), None)),
        Language::EnUs,
    )
    .unwrap_err();
    assert!(matches!(bad_host, RequestError::HostHeader));
    assert_eq!(bad_host.message(), "failed to parse header value");
}

#[test]
fn host_header_names_the_port_only_if_there_is_one() {
    assert_eq!(host_header("a.example", None), "a.example");
    assert_eq!(host_header("a.example", Some(65535)), "a.example:65535");
    assert_eq!(host_header("a.example", Some(0)), "a.example:0");
}

#[test]
fn very_many_headers_are_reported() {
    let mut list = words(&["curl", "http://h.example"]);
    for i in 0..40000 {
        list.push("-H".to_owned());
        list.push(format!("n{}: v", i));
    }
    let err = template_from_words(&list, Language::EnUs).unwrap_err();
    assert!(matches!(err, RequestError::TooManyHeaders));
    assert_eq!(err.message(), "max size reached");
}

#[test]
fn many_headers_find_room() {
    let mut list = words(&["curl", "http://h.example"]);
    for i in 0..6553 {
        list.push("-H".to_owned());
        list.push(format!("n{}: v", i));
    }
    let template = template_from_words(&list, Language::EnUs).unwrap();
    assert_eq!(template.headers.len(), 6554);
}

#[test]
fn copy_of_a_request_is_the_same_request() {
    let template = parsed("curl -d body -H 'A: 1' https://example.com");
    let copy = template.clone();
    assert_eq!(copy.method, template.method);
    assert_eq!(copy.url, template.url);
    assert_eq!(copy.headers, template.headers);
    assert_eq!(copy.body, template.body);
}

#[test]
fn language_only_words_errors() {
    for input in ["curl -d x https://example.com", "curl -X", "curl 'x", "curl http://[bad"] {
        match (parse_curl(input, Language::EnUs), parse_curl(input, Language::ZhCn)) {
            (Ok(a), Ok(b)) => {
                assert_eq!(a.method, b.method);
                assert_eq!(a.url, b.url);
                assert_eq!(a.headers, b.headers);
                assert_eq!(a.body, b.body);
            }
            (
                Err(RequestError::Fault { key: a, .. }),
                Err(RequestError::Fault { key: b, language: Language::ZhCn }),
            ) => assert_eq!(a, b),
            other => panic!("different outcomes: {:?}", other),
        }
    }
}
