//! Reading a request out of a cURL command.
use crate::error::{in_language, ErrorView, RequestError};
use crate::i18n::{I18nKey, Language};
use crate::outside::{
    authority_result, body_bytes, body_from_text, clone_body, clone_headers, has_header,
    header_name_text, header_value_allowed, header_values, insert_header, is_header_name,
    is_header_value, is_token, is_token_char, is_web_address, method_text, new_headers, no_headers,
    read_url, shell_words, split_words, texts, to_uppercase, upper_case, url_authority, HEADER_ROOM,
};
use crate::text::{
    decimal, decimal_text, lemma_decimal_digits, lowered, same_text, split_at_first, split_once,
    starts_with, trim, trimmed,
};
use bytes::Bytes;
use reqwest::header::HeaderMap;
use vstd::prelude::*;
use vstd::string::*;
use vstd::utf8::encode_utf8;

verus! {

/// A request to be sent again and again.
#[derive(Debug)]
pub struct RequestTemplate {
    pub method: String,
    pub url: String,
    pub headers: HeaderMap,
    pub body: Option<Bytes>,
}

/// The headers of a request: for each name, in lower case, the bytes of its values.
pub type HeaderContents = Map<Seq<char>, Seq<Seq<u8>>>;

/// A `RequestTemplate` as plain values.
#[verifier::ext_equal]
pub struct TemplateView {
    pub method: Seq<char>,
    pub url: Seq<char>,
    pub headers: HeaderContents,
    pub body: Option<Seq<u8>>,
}

impl View for RequestTemplate {
    type V = TemplateView;

    open spec fn view(&self) -> TemplateView {
        TemplateView {
            method: self.method@,
            url: self.url@,
            headers: header_values(self.headers),
            body: body_view(self.body),
        }
    }
}

impl Clone for RequestTemplate {
    fn clone(&self) -> (r: Self)
        ensures
            r@ == self@,
    {
        RequestTemplate {
            method: self.method.clone(),
            url: self.url.clone(),
            headers: clone_headers(&self.headers),
            body: match &self.body {
                Some(b) => Some(clone_body(b)),
                None => None,
            },
        }
    }
}

/// The bytes of a body, if there is one.
pub open spec fn body_view(body: Option<Bytes>) -> Option<Seq<u8>> {
    match body {
        Some(b) => Some(body_bytes(b)),
        None => None,
    }
}

/// What a word of a cURL command is for.
#[derive(Clone, Copy, Debug, PartialEq, Eq, Structural)]
pub enum WordKind {
    /// The next word is the method.
    MethodOption,
    /// The next word is a header.
    HeaderOption,
    /// The next word is the body.
    DataOption,
    /// The word is a URL.
    Url,
    /// The word is passed over.
    Other,
}

/// What a word of a cURL command is for.
pub open spec fn kind_of(word: Seq<char>) -> WordKind {
    if word == "-X"@ || word == "--request"@ {
        WordKind::MethodOption
    } else if word == "-H"@ || word == "--header"@ {
        WordKind::HeaderOption
    } else if word == "-d"@ || word == "--data"@ || word == "--data-raw"@ || word
        == "--data-binary"@ {
        WordKind::DataOption
    } else if is_web_address(word) {
        WordKind::Url
    } else {
        WordKind::Other
    }
}

/// Tells what a word of a cURL command is for.
pub fn word_kind(word: &str) -> (r: WordKind)
    ensures
        r == kind_of(word@),
{
    if same_text(word, "-X") || same_text(word, "--request") {
        WordKind::MethodOption
    } else if same_text(word, "-H") || same_text(word, "--header") {
        WordKind::HeaderOption
    } else if same_text(word, "-d") || same_text(word, "--data") || same_text(word, "--data-raw")
        || same_text(word, "--data-binary") {
        WordKind::DataOption
    } else if starts_with(word, "http://") || starts_with(word, "https://") {
        WordKind::Url
    } else {
        WordKind::Other
    }
}

/// One instruction of a cURL command.
pub enum CurlArg {
    Method(Seq<char>),
    Header(Seq<char>),
    Data(Seq<char>),
    Url(Seq<char>),
    Ignored,
    /// An option at the end of the command, without its argument.
    Missing(I18nKey),
}

/// The instruction that begins with the word at `i`.
pub open spec fn argument_at(words: Seq<Seq<char>>, i: int) -> CurlArg {
    match kind_of(words[i]) {
        WordKind::MethodOption => if i + 1 < words.len() {
            CurlArg::Method(words[i + 1])
        } else {
            CurlArg::Missing(I18nKey::MissingHttpMethod)
        },
        WordKind::HeaderOption => if i + 1 < words.len() {
            CurlArg::Header(words[i + 1])
        } else {
            CurlArg::Missing(I18nKey::MissingHeaderValue)
        },
        WordKind::DataOption => if i + 1 < words.len() {
            CurlArg::Data(words[i + 1])
        } else {
            CurlArg::Missing(I18nKey::MissingBody)
        },
        WordKind::Url => CurlArg::Url(words[i]),
        WordKind::Other => CurlArg::Ignored,
    }
}

/// How many words an instruction takes up.
pub open spec fn argument_width(arg: CurlArg) -> int {
    match arg {
        CurlArg::Method(_) | CurlArg::Header(_) | CurlArg::Data(_) => 2,
        _ => 1,
    }
}

/// The instructions of a cURL command from the word at `i` on.
pub open spec fn arguments(words: Seq<Seq<char>>, i: int) -> Seq<CurlArg>
    decreases words.len() - i,
{
    if i < 0 || i >= words.len() {
        Seq::empty()
    } else {
        let arg = argument_at(words, i);
        seq![arg] + arguments(words, i + argument_width(arg))
    }
}

/// What is wrong with an instruction, if anything.
pub open spec fn problem(arg: CurlArg) -> Option<I18nKey> {
    match arg {
        CurlArg::Method(m) => if is_token(upper_case(m)) {
            None
        } else {
            Some(I18nKey::InvalidHttpMethod)
        },
        CurlArg::Header(h) => match split_at_first(h, ':') {
            None => Some(I18nKey::HeaderFormatInvalid),
            Some((name, value)) => if !is_header_name(trimmed(name)) {
                Some(I18nKey::InvalidHeaderName)
            } else if !is_header_value(trimmed(value)) {
                Some(I18nKey::InvalidHeaderValue)
            } else {
                None
            },
        },
        CurlArg::Missing(key) => Some(key),
        _ => None,
    }
}

/// What is wrong with the first faulty instruction, if there is one.
pub open spec fn first_problem(args: Seq<CurlArg>) -> Option<I18nKey>
    decreases args.len(),
{
    if args.len() == 0 {
        None
    } else {
        match problem(args.first()) {
            Some(key) => Some(key),
            None => first_problem(args.drop_first()),
        }
    }
}

/// The method that the instructions ask for: the last one named, except that a body turns the
/// method GET, which is the one to begin with, into POST.
pub open spec fn method_of(args: Seq<CurlArg>) -> Seq<char>
    decreases args.len(),
{
    if args.len() == 0 {
        "GET"@
    } else {
        let before = method_of(args.drop_last());
        match args.last() {
            CurlArg::Method(m) => upper_case(m),
            CurlArg::Data(_) => if before == "GET"@ {
                "POST"@
            } else {
                before
            },
            _ => before,
        }
    }
}

/// The headers that the instructions give: for each name the value that comes last.
pub open spec fn headers_of(args: Seq<CurlArg>) -> HeaderContents
    decreases args.len(),
{
    if args.len() == 0 {
        no_headers()
    } else {
        let before = headers_of(args.drop_last());
        match args.last() {
            CurlArg::Header(h) => match split_at_first(h, ':') {
                Some((name, value)) => before.insert(
                    lowered(trimmed(name)),
                    seq![encode_utf8(trimmed(value))],
                ),
                None => before,
            },
            _ => before,
        }
    }
}

/// The body that the instructions give: the last one.
pub open spec fn body_of(args: Seq<CurlArg>) -> Option<Seq<u8>>
    decreases args.len(),
{
    if args.len() == 0 {
        None
    } else {
        match args.last() {
            CurlArg::Data(d) => Some(encode_utf8(d)),
            _ => body_of(args.drop_last()),
        }
    }
}

/// The URL that the instructions give: the last one.
pub open spec fn url_of(args: Seq<CurlArg>) -> Option<Seq<char>>
    decreases args.len(),
{
    if args.len() == 0 {
        None
    } else {
        match args.last() {
            CurlArg::Url(u) => Some(u),
            _ => url_of(args.drop_last()),
        }
    }
}

/// What the instructions of a cURL command add up to.
pub struct CurlRequest {
    pub method: String,
    pub headers: HeaderMap,
    pub body: Option<Bytes>,
    pub url: Option<String>,
}

/// A `CurlRequest` as plain values.
#[verifier::ext_equal]
pub struct CurlRequestView {
    pub method: Seq<char>,
    pub headers: HeaderContents,
    pub body: Option<Seq<u8>>,
    pub url: Option<Seq<char>>,
}

impl View for CurlRequest {
    type V = CurlRequestView;

    open spec fn view(&self) -> CurlRequestView {
        CurlRequestView {
            method: self.method@,
            headers: header_values(self.headers),
            body: body_view(self.body),
            url: match self.url {
                Some(u) => Some(u@),
                None => None,
            },
        }
    }
}

/// What the instructions `args` add up to.
pub open spec fn summed_up(args: Seq<CurlArg>) -> CurlRequestView {
    CurlRequestView {
        method: method_of(args),
        headers: headers_of(args),
        body: body_of(args),
        url: url_of(args),
    }
}

proof fn lemma_first_problem_split(done: Seq<CurlArg>, rest: Seq<CurlArg>)
    ensures
        first_problem(done) is None ==> first_problem(done + rest) == first_problem(rest),
        first_problem(done) is Some ==> first_problem(done + rest) == first_problem(done),
    decreases done.len(),
{
    if done.len() == 0 {
        assert(done + rest =~= rest);
    } else {
        assert((done + rest).drop_first() =~= done.drop_first() + rest);
        lemma_first_problem_split(done.drop_first(), rest);
    }
}

/// The headers of the first instructions are among those of all of them.
proof fn lemma_headers_grow(args: Seq<CurlArg>, k: int)
    requires
        0 <= k <= args.len(),
    ensures
        headers_of(args.take(k)).dom().subset_of(headers_of(args).dom()),
        headers_of(args).dom().finite(),
        headers_of(args.take(k)).dom().len() <= headers_of(args).dom().len(),
    decreases args.len(),
{
    if args.len() > 0 {
        lemma_headers_grow(args.drop_last(), if k < args.len() { k } else { 0 });
        if k < args.len() {
            assert(args.drop_last().take(k) =~= args.take(k));
        } else {
            assert(args.take(k) =~= args);
        }
    } else {
        assert(args.take(k) =~= args);
    }
    vstd::set_lib::lemma_len_subset(headers_of(args.take(k)).dom(), headers_of(args).dom());
}

/// One more instruction, without a fault, after those that were done.
proof fn lemma_step(words: Seq<Seq<char>>, i: int, done: Seq<CurlArg>)
    requires
        0 <= i < words.len(),
        arguments(words, 0) == done + arguments(words, i),
        first_problem(done) is None,
    ensures
        ({
            let arg = argument_at(words, i);
            let next = done.push(arg);
            &&& arguments(words, 0) == next + arguments(words, i + argument_width(arg))
            &&& problem(arg) is None ==> first_problem(next) is None
            &&& problem(arg) is Some ==> first_problem(arguments(words, 0)) == problem(arg)
            &&& next.drop_last() == done
            &&& next.last() == arg
            &&& arguments(words, 0).take(done.len() as int) == done
        }),
{
    let arg = argument_at(words, i);
    let next = done.push(arg);
    let rest = arguments(words, i + argument_width(arg));
    assert(done + (seq![arg] + rest) =~= next + rest);
    lemma_first_problem_split(done, seq![arg] + rest);
    lemma_first_problem_split(done, seq![arg]);
    assert(done + seq![arg] =~= next);
    assert(next.drop_last() =~= done);
    assert(arguments(words, 0).take(done.len() as int) =~= done);
    assert(seq![arg].first() == arg);
    assert((seq![arg] + rest).first() == arg);
    assert(first_problem(seq![arg].drop_first()) is None);
}

/// Carries out the instructions in the words of a cURL command. The first faulty one is
/// reported; beyond that it can only fail on a command with very many headers.
pub fn read_arguments(words: &Vec<String>, language: Language) -> (r: Result<
    CurlRequest,
    RequestError,
>)
    ensures
        ({
            let args = arguments(texts(words@), 0);
            match r {
                Ok(request) => first_problem(args) is None && request@ == summed_up(args),
                Err(RequestError::TooManyHeaders) => headers_of(args).dom().len() >= HEADER_ROOM,
                Err(e) => first_problem(args) is Some && e@ == ErrorView::Fault(
                    language,
                    first_problem(args)->0,
                ),
            }
        }),
{
    let ghost all = texts(words@);
    let ghost mut done: Seq<CurlArg> = Seq::empty();
    let mut method = "GET".to_owned();
    let mut headers = new_headers();
    let mut body: Option<Bytes> = None;
    let mut url: Option<String> = None;
    let mut i: usize = 0;
    assert(done + arguments(all, 0) =~= arguments(all, 0));
    while i < words.len()
        invariant
            0 <= i <= words@.len(),
            all == texts(words@),
            all.len() == words@.len(),
            arguments(all, 0) == done + arguments(all, i as int),
            first_problem(done) is None,
            method@ == method_of(done),
            header_values(headers) == headers_of(done),
            body_view(body) == body_of(done),
            (match url {
                Some(u) => Some(u@),
                None => None,
            }) == url_of(done),
        decreases words@.len() - i,
    {
        let ghost arg = argument_at(all, i as int);
        proof {
            lemma_step(all, i as int, done);
            lemma_headers_grow(arguments(all, 0), done.len() as int);
        }
        let word = words[i].as_str();
        assert(word@ == all[i as int]);
        let kind = word_kind(word);
        match kind {
            WordKind::MethodOption => {
                if words.len() - i < 2 {
                    return Err(
                        RequestError::Fault { language, key: I18nKey::MissingHttpMethod },
                    );
                }
                assert(words@[i + 1]@ == all[i + 1]);
                let name = to_uppercase(words[i + 1].as_str());
                match method_text(name.as_str()) {
                    Some(m) => {
                        method = m;
                    },
                    None => {
                        return Err(
                            RequestError::Fault { language, key: I18nKey::InvalidHttpMethod },
                        );
                    },
                }
                i += 2;
            },
            WordKind::HeaderOption => {
                if words.len() - i < 2 {
                    return Err(
                        RequestError::Fault { language, key: I18nKey::MissingHeaderValue },
                    );
                }
                assert(words@[i + 1]@ == all[i + 1]);
                match split_once(words[i + 1].as_str(), ':') {
                    Some((name, value)) => {
                        let name = trim(name.as_str());
                        let value = trim(value.as_str());
                        if header_name_text(name.as_str()).is_none() {
                            return Err(
                                RequestError::Fault { language, key: I18nKey::InvalidHeaderName },
                            );
                        }
                        if !header_value_allowed(value.as_str()) {
                            return Err(
                                RequestError::Fault { language, key: I18nKey::InvalidHeaderValue },
                            );
                        }
                        if !insert_header(&mut headers, name.as_str(), value.as_str()) {
                            return Err(RequestError::TooManyHeaders);
                        }
                    },
                    None => {
                        return Err(
                            RequestError::Fault { language, key: I18nKey::HeaderFormatInvalid },
                        );
                    },
                }
                i += 2;
            },
            WordKind::DataOption => {
                if words.len() - i < 2 {
                    return Err(RequestError::Fault { language, key: I18nKey::MissingBody });
                }
                assert(words@[i + 1]@ == all[i + 1]);
                body = Some(body_from_text(words[i + 1].as_str()));
                if same_text(method.as_str(), "GET") {
                    method = "POST".to_owned();
                }
                i += 2;
            },
            WordKind::Url => {
                url = Some(word.to_owned());
                i += 1;
            },
            WordKind::Other => {
                i += 1;
            },
        }
        proof {
            done = done.push(arg);
        }
    }
    assert(done + arguments(all, i as int) =~= done);
    Ok(CurlRequest { method, headers, body, url })
}

/// The value of the Host header for a host and an explicit port.
pub open spec fn host_text(host: Seq<char>, port: Option<u16>) -> Seq<char> {
    match port {
        Some(p) => host + seq![':'] + decimal(p as nat),
        None => host,
    }
}

/// Writes the value of the Host header.
pub fn host_header(host: &str, port: Option<u16>) -> (r: String)
    ensures
        r@ == host_text(host@, port),
{
    match port {
        Some(p) => {
            let mut out = host.to_owned();
            out.push(':');
            assert(host@.push(':') =~= host@ + seq![':']);
            out.append(decimal_text(p as u64).as_str());
            out
        },
        None => host.to_owned(),
    }
}

/// The request with a Host header for `authority`, the host and the port of its URL, unless it
/// has one or the URL has no host. Without an authority the URL is malformed.
pub open spec fn with_host(
    request: TemplateView,
    authority: Option<(Option<Seq<char>>, Option<u16>)>,
    language: Language,
) -> Result<TemplateView, ErrorView> {
    match authority {
        None => Err(ErrorView::Fault(language, I18nKey::InvalidUrl)),
        Some((None, _)) => Ok(request),
        Some((Some(host), port)) => if request.headers.dom().contains("host"@) {
            Ok(request)
        } else if is_header_value(host_text(host, port)) {
            Ok(
                TemplateView {
                    headers: request.headers.insert(
                        "host"@,
                        seq![encode_utf8(host_text(host, port))],
                    ),
                    ..request
                },
            )
        } else {
            Err(ErrorView::HostHeader)
        },
    }
}

/// What a fallible step returned, as plain values.
pub open spec fn template_result(r: Result<RequestTemplate, RequestError>) -> Result<
    TemplateView,
    ErrorView,
> {
    match r {
        Ok(template) => Ok(template@),
        Err(e) => Err(e@),
    }
}

/// A host that can stand in a header can do so with a port, too.
proof fn lemma_host_text_allowed(host: Seq<char>, port: Option<u16>)
    requires
        is_header_value(host),
    ensures
        is_header_value(host_text(host, port)),
{
    if let Some(p) = port {
        lemma_decimal_digits(p as nat);
        let text = host_text(host, port);
        assert forall|i: int| 0 <= i < text.len() implies {
            let u = (#[trigger] text[i]) as u32;
            u == 9 || (u >= 32 && u != 127)
        } by {
            if i < host.len() {
                assert(text[i] == host[i]);
            } else if i == host.len() {
                assert(text[i] == ':');
            } else {
                assert(text[i] == decimal(p as nat)[i - host.len() - 1]);
            }
        }
    }
}

proof fn lemma_host_name()
    ensures
        is_header_name("host"@),
        lowered("host"@) == "host"@,
{
    reveal_strlit("host");
    assert(lowered("host"@) =~= "host"@);
}

/// Completes a request, given the host and the port that were read off its URL. It can fail for
/// the number of headers only where there are very many.
pub fn finish_template(
    request: RequestTemplate,
    authority: Option<(Option<String>, Option<u16>)>,
    language: Language,
) -> (r: Result<RequestTemplate, RequestError>)
    ensures
        match r {
            Err(RequestError::TooManyHeaders) => request@.headers.dom().len() >= HEADER_ROOM,
            _ => template_result(r) == with_host(request@, authority_result(authority), language),
        },
{
    proof {
        lemma_host_name();
    }
    match authority {
        None => Err(RequestError::Fault { language, key: I18nKey::InvalidUrl }),
        Some((None, _)) => Ok(request),
        Some((Some(host), port)) => {
            if has_header(&request.headers, "host") {
                return Ok(request);
            }
            let value = host_header(host.as_str(), port);
            if !header_value_allowed(value.as_str()) {
                return Err(RequestError::HostHeader);
            }
            let mut headers = request.headers;
            if !insert_header(&mut headers, "host", value.as_str()) {
                return Err(RequestError::TooManyHeaders);
            }
            Ok(
                RequestTemplate {
                    method: request.method,
                    url: request.url,
                    headers,
                    body: request.body,
                },
            )
        },
    }
}

/// What the words of a cURL command ask for.
pub open spec fn words_outcome(words: Seq<Seq<char>>, language: Language) -> Result<
    TemplateView,
    ErrorView,
> {
    let args = arguments(words, 0);
    if words.len() == 0 {
        Err(ErrorView::Fault(language, I18nKey::EmptyInput))
    } else if first_problem(args) is Some {
        Err(ErrorView::Fault(language, first_problem(args)->0))
    } else {
        match url_of(args) {
            None => Err(ErrorView::Fault(language, I18nKey::UrlNotFound)),
            Some(url) => with_host(
                TemplateView {
                    method: method_of(args),
                    url,
                    headers: headers_of(args),
                    body: body_of(args),
                },
                url_authority(url),
                language,
            ),
        }
    }
}

/// What a cURL command asks for, or what is wrong with it.
pub open spec fn curl_outcome(input: Seq<char>, language: Language) -> Result<
    TemplateView,
    ErrorView,
> {
    match shell_words(input) {
        None => Err(ErrorView::Fault(language, I18nKey::InvalidShellString)),
        Some(words) => words_outcome(words, language),
    }
}

/// The headers that a cURL command gives.
pub open spec fn curl_headers(input: Seq<char>) -> HeaderContents {
    match shell_words(input) {
        None => no_headers(),
        Some(words) => headers_of(arguments(words, 0)),
    }
}

/// Builds the request that the words of a cURL command ask for. Beyond the errors of
/// `words_outcome` it can only fail on at least `HEADER_ROOM` words that give as many different
/// headers. A request always has a Host header, since its URL has a host.
pub fn template_from_words(words: &Vec<String>, language: Language) -> (r: Result<
    RequestTemplate,
    RequestError,
>)
    ensures
        match r {
            Err(RequestError::TooManyHeaders) => words@.len() >= HEADER_ROOM && headers_of(
                arguments(texts(words@), 0),
            ).dom().len() >= HEADER_ROOM,
            _ => template_result(r) == words_outcome(texts(words@), language),
        },
        match r {
            Ok(template) => template@.headers.dom().contains("host"@),
            Err(e) => !(e is HostHeader),
        },
{
    proof {
        lemma_headers_within_arguments(arguments(texts(words@), 0));
        lemma_arguments_within_words(texts(words@), 0);
    }
    if words.len() == 0 {
        return Err(RequestError::Fault { language, key: I18nKey::EmptyInput });
    }
    match read_arguments(words, language) {
        Err(e) => Err(e),
        Ok(request) => match request.url {
            None => Err(RequestError::Fault { language, key: I18nKey::UrlNotFound }),
            Some(url) => {
                let authority = read_url(url.as_str());
                proof {
                    let args = arguments(texts(words@), 0);
                    lemma_arguments_fit(args);
                    let k = choose|k: int|
                        0 <= k < args.len() && (#[trigger] args[k]) == CurlArg::Url(url@);
                    lemma_url_word(texts(words@), 0, k, url@);
                    if let Some((Some(host), port)) = authority_result(authority) {
                        lemma_host_text_allowed(host, port);
                    }
                }
                let template = RequestTemplate {
                    method: request.method,
                    url,
                    headers: request.headers,
                    body: request.body,
                };
                finish_template(template, authority, language)
            },
        },
    }
}

/// Parses a cURL command, as browsers copy it, into the request that it would send. The texts
/// of its errors are in `language`. Beyond the errors of `curl_outcome` it can only fail on a
/// command of at least `HEADER_ROOM` characters that gives as many different headers. A request
/// always has a Host header.
pub fn parse_curl(input: &str, language: Language) -> (r: Result<RequestTemplate, RequestError>)
    ensures
        match r {
            Err(RequestError::TooManyHeaders) => input@.len() >= HEADER_ROOM && curl_headers(
                input@,
            ).dom().len() >= HEADER_ROOM,
            _ => template_result(r) == curl_outcome(input@, language),
        },
        match r {
            Ok(template) => template@.headers.dom().contains("host"@),
            Err(e) => !(e is HostHeader),
        },
{
    match split_words(input) {
        None => Err(RequestError::Fault { language, key: I18nKey::InvalidShellString }),
        Some(words) => template_from_words(&words, language),
    }
}

/// A body without a method makes the request a POST.
pub proof fn law_body_asks_for_post(args: Seq<CurlArg>, k: int)
    requires
        0 <= k < args.len(),
        args[k] is Data,
        forall|i: int| 0 <= i < args.len() ==> !((#[trigger] args[i]) is Method),
    ensures
        method_of(args) == "POST"@,
    decreases args.len(),
{
    reveal_strlit("GET");
    reveal_strlit("POST");
    let before = args.drop_last();
    assert(!(args[args.len() - 1] is Method));
    if k < before.len() {
        assert(before[k] == args[k]);
        assert forall|i: int| 0 <= i < before.len() implies !((#[trigger] before[i]) is Method) by {
            assert(before[i] == args[i]);
        }
        law_body_asks_for_post(before, k);
    } else {
        lemma_method_without_option(before);
    }
}

/// Without a method the request is a GET or, with a body, a POST.
proof fn lemma_method_without_option(args: Seq<CurlArg>)
    requires
        forall|i: int| 0 <= i < args.len() ==> !((#[trigger] args[i]) is Method),
    ensures
        method_of(args) == "GET"@ || method_of(args) == "POST"@,
    decreases args.len(),
{
    if args.len() > 0 {
        let before = args.drop_last();
        assert(!(args[args.len() - 1] is Method));
        assert forall|i: int| 0 <= i < before.len() implies !((#[trigger] before[i]) is Method) by {
            assert(before[i] == args[i]);
        }
        lemma_method_without_option(before);
    }
}

/// The method that is named last counts, in upper case, unless it is GET and a body follows.
pub proof fn law_named_method_counts(args: Seq<CurlArg>, k: int, name: Seq<char>)
    requires
        0 <= k < args.len(),
        args[k] == CurlArg::Method(name),
        forall|i: int| k < i < args.len() ==> !((#[trigger] args[i]) is Method),
        upper_case(name) == "GET"@ ==> forall|i: int|
            k < i < args.len() ==> !((#[trigger] args[i]) is Data),
    ensures
        method_of(args) == upper_case(name),
    decreases args.len(),
{
    let before = args.drop_last();
    if k < before.len() {
        assert(before[k] == args[k]);
        assert forall|i: int| k < i < before.len() implies !((#[trigger] before[i]) is Method)
            && (upper_case(name) == "GET"@ ==> !(before[i] is Data)) by {
            assert(before[i] == args[i]);
        }
        law_named_method_counts(before, k, name);
        assert(!(args[args.len() - 1] is Method));
    }
}

/// A header that is given again, in whatever case, replaces the value given before; so for each
/// name the last header option counts.
pub proof fn law_last_header_counts(
    args: Seq<CurlArg>,
    k: int,
    name: Seq<char>,
    value: Seq<char>,
)
    requires
        0 <= k < args.len(),
        args[k] matches CurlArg::Header(h) && split_at_first(h, ':') == Some((name, value)),
        forall|i: int|
            k < i < args.len() ==> ((#[trigger] args[i]) matches CurlArg::Header(h) ==> (
            split_at_first(h, ':') matches Some((other, _)) ==> lowered(trimmed(other)) != lowered(
                trimmed(name),
            ))),
    ensures
        headers_of(args).dom().contains(lowered(trimmed(name))),
        headers_of(args)[lowered(trimmed(name))] == seq![encode_utf8(trimmed(value))],
    decreases args.len(),
{
    let before = args.drop_last();
    if k < before.len() {
        assert(before[k] == args[k]);
        assert forall|i: int| k < i < before.len() implies ((
        #[trigger] before[i]) matches CurlArg::Header(h) ==> (split_at_first(h, ':') matches Some(
            (other, _),
        ) ==> lowered(trimmed(other)) != lowered(trimmed(name)))) by {
            assert(before[i] == args[i]);
        }
        law_last_header_counts(before, k, name, value);
        assert(args[args.len() - 1] == args.last());
    }
}

/// Every name is a header name in lower case and has one value that a header can carry.
pub open spec fn fit_to_send(headers: HeaderContents) -> bool {
    forall|name: Seq<char>| #[trigger]
        headers.dom().contains(name) ==> {
            &&& is_header_name(name)
            &&& lowered(name) == name
            &&& exists|value: Seq<char>|
                #![trigger encode_utf8(value)]
                is_header_value(value) && headers[name] == seq![encode_utf8(value)]
        }
}

proof fn lemma_lowered_name(name: Seq<char>)
    requires
        is_header_name(name),
    ensures
        is_header_name(lowered(name)),
        lowered(lowered(name)) == lowered(name),
{
    let low = lowered(name);
    assert forall|i: int| 0 <= i < low.len() implies is_token_char(#[trigger] low[i]) by {
        assert(is_token_char(name[i]));
    }
    assert(lowered(low) =~= low);
}

proof fn lemma_arguments_fit(args: Seq<CurlArg>)
    requires
        first_problem(args) is None,
    ensures
        is_token(method_of(args)),
        fit_to_send(headers_of(args)),
        url_of(args) matches Some(url) ==> exists|i: int|
            0 <= i < args.len() && (#[trigger] args[i]) == CurlArg::Url(url),
    decreases args.len(),
{
    reveal_strlit("GET");
    reveal_strlit("POST");
    if args.len() > 0 {
        let before = args.drop_last();
        let last = args.last();
        assert(before + seq![last] =~= args);
        lemma_first_problem_split(before, seq![last]);
        assert(seq![last].first() == last);
        lemma_arguments_fit(before);
        if last is Header {
            let (name, value) = split_at_first(last->Header_0, ':')->0;
            lemma_lowered_name(trimmed(name));
            assert(encode_utf8(trimmed(value)) == encode_utf8(trimmed(value)));
        }
        if last is Url {
            assert(args[args.len() - 1] == last);
        } else if url_of(args) is Some {
            let url = url_of(args)->0;
            let i = choose|i: int|
                0 <= i < before.len() && (#[trigger] before[i]) == CurlArg::Url(url);
            assert(args[i] == CurlArg::Url(url));
        }
    }
}

/// The instructions that give a URL come from words that begin like one.
proof fn lemma_url_word(words: Seq<Seq<char>>, i: int, k: int, url: Seq<char>)
    requires
        0 <= i,
        0 <= k < arguments(words, i).len(),
        arguments(words, i)[k] == CurlArg::Url(url),
    ensures
        words.contains(url),
        kind_of(url) == WordKind::Url,
    decreases words.len() - i,
{
    let arg = argument_at(words, i);
    if k > 0 {
        assert(arguments(words, i + argument_width(arg))[k - 1] == CurlArg::Url(url));
        lemma_url_word(words, i + argument_width(arg), k - 1, url);
    } else {
        assert(words[i] == url);
    }
}

/// Every request that a cURL command asks for is fit to be sent: its method is a token, its URL
/// is one of the words and is well-formed, its headers are sound and hold all that the command
/// gives, and there is a Host header if the URL has a host.
pub proof fn law_parsed_request_is_fit(words: Seq<Seq<char>>, language: Language)
    requires
        words_outcome(words, language) is Ok,
    ensures
        ({
            let template = words_outcome(words, language)->Ok_0;
            let given = headers_of(arguments(words, 0));
            &&& is_token(template.method)
            &&& words.contains(template.url)
            &&& kind_of(template.url) == WordKind::Url
            &&& url_authority(template.url) is Some
            &&& fit_to_send(template.headers)
            &&& given.submap_of(template.headers)
            &&& template.headers.dom().subset_of(given.dom().insert("host"@))
            &&& url_authority(template.url) matches Some((Some(_), _))
                ==> template.headers.dom().contains("host"@)
        }),
{
    let args = arguments(words, 0);
    lemma_arguments_fit(args);
    lemma_host_name();
    let url = url_of(args)->0;
    let k = choose|k: int| 0 <= k < args.len() && (#[trigger] args[k]) == CurlArg::Url(url);
    lemma_url_word(words, 0, k, url);
    let template = words_outcome(words, language)->Ok_0;
    assert forall|name: Seq<char>| #[trigger] template.headers.dom().contains(name) implies {
        &&& is_header_name(name)
        &&& lowered(name) == name
        &&& exists|value: Seq<char>|
            #![trigger encode_utf8(value)]
            is_header_value(value) && template.headers[name] == seq![encode_utf8(value)]
    } by {
        if headers_of(args).dom().contains(name) {
        } else {
            let authority = url_authority(url)->0;
            let value = host_text(authority.0->0, authority.1);
            assert(template.headers[name] == seq![encode_utf8(value)]);
        }
    }
}

proof fn lemma_headers_within_arguments(args: Seq<CurlArg>)
    ensures
        headers_of(args).dom().finite(),
        headers_of(args).dom().len() <= args.len(),
    decreases args.len(),
{
    if args.len() > 0 {
        lemma_headers_within_arguments(args.drop_last());
    }
}

proof fn lemma_arguments_within_words(words: Seq<Seq<char>>, i: int)
    requires
        0 <= i,
    ensures
        i <= words.len() ==> arguments(words, i).len() <= words.len() - i,
        i > words.len() ==> arguments(words, i).len() == 0,
    decreases words.len() - i,
{
    if i < words.len() {
        lemma_arguments_within_words(words, i + argument_width(argument_at(words, i)));
    }
}

/// The language decides nothing but the wording of errors: a command that is understood in one
/// language is understood in every other, as the same request, and one that is not has the same
/// fault.
pub proof fn law_language_only_words_errors(input: Seq<char>, one: Language, other: Language)
    ensures
        match (curl_outcome(input, one), curl_outcome(input, other)) {
            (Ok(a), Ok(b)) => a == b,
            (Err(a), Err(b)) => b == in_language(a, other),
            _ => false,
        },
{
}

} // verus!
