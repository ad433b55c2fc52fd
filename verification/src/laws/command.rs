//! What a cURL command asks for, word by word.
use crate::curl_parser::{
    argument_at, argument_width, arguments, body_of, curl_headers, curl_outcome, first_problem,
    headers_of, host_text, kind_of, method_of, problem, url_of, with_host, words_outcome, CurlArg,
    TemplateView, WordKind,
};
use crate::error::ErrorView;
use crate::i18n::{I18nKey, Language};
use crate::laws::text::law_numeral_reads_back;
use crate::outside::{
    digits_value, is_header_name, is_header_value, is_token, shell_words, upper_case,
    url_authority,
};
use crate::text::{decimal, lowered, split_at_first, trimmed};
use vstd::prelude::*;
use vstd::string::*;
use vstd::utf8::encode_utf8;

verus! {

/// The two words that announce a method.
pub open spec fn is_method_word(word: Seq<char>) -> bool {
    word == "-X"@ || word == "--request"@
}

/// The two words that announce a header.
pub open spec fn is_header_word(word: Seq<char>) -> bool {
    word == "-H"@ || word == "--header"@
}

/// The four words that announce a body.
pub open spec fn is_body_word(word: Seq<char>) -> bool {
    word == "-d"@ || word == "--data"@ || word == "--data-raw"@ || word == "--data-binary"@
}

/// A word that is a URL: it begins with the name of either protocol.
pub open spec fn is_url_word(word: Seq<char>) -> bool {
    (word.len() >= 7 && word.take(7) == "http://"@) || (word.len() >= 8 && word.take(8)
        == "https://"@)
}

/// A word is an option if and only if it is one of the eight, and a URL if and only if it begins
/// like one; every other word is passed over.
pub proof fn law_words_that_count(word: Seq<char>)
    ensures
        is_method_word(word) <==> kind_of(word) == WordKind::MethodOption,
        is_header_word(word) <==> kind_of(word) == WordKind::HeaderOption,
        is_body_word(word) <==> kind_of(word) == WordKind::DataOption,
        is_url_word(word) <==> kind_of(word) == WordKind::Url,
{
    reveal_strlit("-X");
    reveal_strlit("--request");
    reveal_strlit("-H");
    reveal_strlit("--header");
    reveal_strlit("-d");
    reveal_strlit("--data");
    reveal_strlit("--data-raw");
    reveal_strlit("--data-binary");
    reveal_strlit("http://");
    reveal_strlit("https://");
    if word.len() >= 7 {
        assert(word.take(7) =~= word.subrange(0, 7));
    }
    if word.len() >= 8 {
        assert(word.take(8) =~= word.subrange(0, 8));
    }
    if is_url_word(word) {
        assert(word[0] == 'h') by {
            if word.take(7) == "http://"@ {
                assert(word.take(7)[0] == 'h');
            } else {
                assert(word.take(8)[0] == 'h');
            }
        }
        assert("-X"@[0] == '-' && "--request"@[0] == '-' && "-H"@[0] == '-' && "--header"@[0]
            == '-' && "-d"@[0] == '-' && "--data"@[0] == '-' && "--data-raw"@[0] == '-'
            && "--data-binary"@[0] == '-');
    }
    if is_body_word(word) || is_header_word(word) || is_method_word(word) {
        assert(word[0] == '-');
        assert(word[1] == '-' || word[1] == 'X' || word[1] == 'H' || word[1] == 'd');
        if word.len() > 2 {
            assert(word[2] == 'r' || word[2] == 'h' || word[2] == 'd');
        }
    }
}

/// A command that is one option with its argument, or one URL, is one instruction with all of
/// that word; an option alone lacks its argument.
pub proof fn law_single_instructions(word: Seq<char>, value: Seq<char>)
    ensures
        is_method_word(word) ==> arguments(seq![word, value], 0) == seq![CurlArg::Method(value)],
        is_header_word(word) ==> arguments(seq![word, value], 0) == seq![CurlArg::Header(value)],
        is_body_word(word) ==> arguments(seq![word, value], 0) == seq![CurlArg::Data(value)],
        is_url_word(word) ==> arguments(seq![word], 0) == seq![CurlArg::Url(word)],
        is_method_word(word) ==> arguments(seq![word], 0) == seq![
            CurlArg::Missing(I18nKey::MissingHttpMethod),
        ],
        is_header_word(word) ==> arguments(seq![word], 0) == seq![
            CurlArg::Missing(I18nKey::MissingHeaderValue),
        ],
        is_body_word(word) ==> arguments(seq![word], 0) == seq![
            CurlArg::Missing(I18nKey::MissingBody),
        ],
        !is_method_word(word) && !is_header_word(word) && !is_body_word(word) && !is_url_word(word)
            ==> arguments(seq![word], 0) == seq![CurlArg::Ignored],
{
    law_words_that_count(word);
    let two = seq![word, value];
    let one = seq![word];
    reveal_with_fuel(arguments, 3);
    assert(two[0] == word && two[1] == value && one[0] == word);
    assert(arguments(two, 2) =~= Seq::empty());
    assert(arguments(one, 1) =~= Seq::empty());
}

/// No option is left without its argument.
pub open spec fn is_complete(args: Seq<CurlArg>) -> bool {
    forall|i: int| 0 <= i < args.len() ==> !((#[trigger] args[i]) is Missing)
}

/// Words that are added to a complete command add their instructions to it, and change none of
/// those that it had. With the single instructions this says what any command is read as.
pub proof fn law_commands_join(words: Seq<Seq<char>>, more: Seq<Seq<char>>)
    requires
        is_complete(arguments(words, 0)),
    ensures
        arguments(words + more, 0) == arguments(words, 0) + arguments(more, 0),
{
    lemma_join(words, more, 0);
}

proof fn lemma_join(words: Seq<Seq<char>>, more: Seq<Seq<char>>, i: int)
    requires
        0 <= i <= words.len(),
        is_complete(arguments(words, i)),
    ensures
        arguments(words + more, i) == arguments(words, i) + arguments(more, 0),
    decreases words.len() - i,
{
    let all = words + more;
    if i == words.len() {
        lemma_shift(words, more, 0);
        assert(arguments(words, i) + arguments(more, 0) =~= arguments(more, 0));
    } else {
        let arg = argument_at(words, i);
        let next = i + argument_width(arg);
        let rest = arguments(words, next);
        assert(arguments(words, i)[0] == arg);
        assert(all[i] == words[i]);
        if i + 1 < words.len() {
            assert(all[i + 1] == words[i + 1]);
        }
        assert(argument_at(all, i) == arg);
        assert forall|k: int| 0 <= k < rest.len() implies !((#[trigger] rest[k]) is Missing) by {
            assert(arguments(words, i)[k + 1] == rest[k]);
        }
        lemma_join(words, more, next);
        assert(seq![arg] + (rest + arguments(more, 0)) =~= (seq![arg] + rest) + arguments(more, 0));
    }
}

proof fn lemma_shift(words: Seq<Seq<char>>, more: Seq<Seq<char>>, j: int)
    requires
        0 <= j,
    ensures
        arguments(words + more, words.len() + j) == arguments(more, j),
    decreases more.len() - j,
{
    let all = words + more;
    if j < more.len() {
        assert(all[words.len() + j] == more[j]);
        if j + 1 < more.len() {
            assert(all[words.len() + j + 1] == more[j + 1]);
        }
        assert(argument_at(all, words.len() + j) == argument_at(more, j));
        lemma_shift(words, more, j + argument_width(argument_at(more, j)));
    }
}

/// The body is the last that is given, every byte of it; without one there is none.
pub proof fn law_last_body_counts(args: Seq<CurlArg>, k: int, text: Seq<char>)
    requires
        -1 <= k < args.len(),
        k >= 0 ==> args[k] == CurlArg::Data(text),
        forall|i: int| k < i < args.len() ==> !((#[trigger] args[i]) is Data),
    ensures
        k >= 0 ==> body_of(args) == Some(encode_utf8(text)),
        k < 0 ==> body_of(args) is None,
    decreases args.len(),
{
    if args.len() > 0 && k < args.len() - 1 {
        let before = args.drop_last();
        assert forall|i: int| k < i < before.len() implies !((#[trigger] before[i]) is Data) by {
            assert(before[i] == args[i]);
        }
        assert(!(args[args.len() - 1] is Data));
        law_last_body_counts(before, k, text);
    }
}

/// The URL is the last that is given; without one there is none.
pub proof fn law_last_url_counts(args: Seq<CurlArg>, k: int, url: Seq<char>)
    requires
        -1 <= k < args.len(),
        k >= 0 ==> args[k] == CurlArg::Url(url),
        forall|i: int| k < i < args.len() ==> !((#[trigger] args[i]) is Url),
    ensures
        k >= 0 ==> url_of(args) == Some(url),
        k < 0 ==> url_of(args) is None,
    decreases args.len(),
{
    if args.len() > 0 && k < args.len() - 1 {
        let before = args.drop_last();
        assert forall|i: int| k < i < before.len() implies !((#[trigger] before[i]) is Url) by {
            assert(before[i] == args[i]);
        }
        assert(!(args[args.len() - 1] is Url));
        law_last_url_counts(before, k, url);
    }
}

/// Some instruction after the one at `k` gives a body.
pub open spec fn body_follows(args: Seq<CurlArg>, k: int) -> bool {
    exists|i: int| k < i < args.len() && (#[trigger] args[i]) is Data
}

/// The method that is named last, in upper case, or GET where none is named, is that of the
/// request, except that a body that follows turns GET into POST.
pub proof fn law_method_and_body(args: Seq<CurlArg>, k: int, name: Seq<char>)
    requires
        -1 <= k < args.len(),
        k >= 0 ==> args[k] == CurlArg::Method(name),
        forall|i: int| k < i < args.len() ==> !((#[trigger] args[i]) is Method),
    ensures
        ({
            let named = if k < 0 {
                "GET"@
            } else {
                upper_case(name)
            };
            method_of(args) == (if named == "GET"@ && body_follows(args, k) {
                "POST"@
            } else {
                named
            })
        }),
    decreases args.len(),
{
    reveal_strlit("GET");
    reveal_strlit("POST");
    assert("GET"@.len() == 3 && "POST"@.len() == 4);
    if args.len() > 0 && k < args.len() - 1 {
        let before = args.drop_last();
        let last = args.len() - 1;
        assert forall|i: int| k < i < before.len() implies !((#[trigger] before[i]) is Method) by {
            assert(before[i] == args[i]);
        }
        assert(!(args[last] is Method));
        law_method_and_body(before, k, name);
        if body_follows(before, k) {
            let i = choose|i: int| k < i < before.len() && (#[trigger] before[i]) is Data;
            assert(args[i] is Data);
        }
        if body_follows(args, k) && !(args[last] is Data) {
            let i = choose|i: int| k < i < args.len() && (#[trigger] args[i]) is Data;
            assert(before[i] is Data);
        }
    }
}

/// An instruction that gives a value for the header `name`, which is in lower case.
pub open spec fn gives_header(arg: CurlArg, name: Seq<char>) -> bool {
    arg matches CurlArg::Header(h) && split_at_first(h, ':') matches Some((given, _)) && lowered(
        trimmed(given),
    ) == name
}

/// There is no header but those that some instruction gives.
pub proof fn law_only_given_headers(args: Seq<CurlArg>, name: Seq<char>)
    ensures
        headers_of(args).dom().contains(name) <==> exists|k: int|
            0 <= k < args.len() && gives_header(#[trigger] args[k], name),
    decreases args.len(),
{
    if args.len() > 0 {
        let before = args.drop_last();
        law_only_given_headers(before, name);
        if exists|k: int| 0 <= k < before.len() && gives_header(#[trigger] before[k], name) {
            let k = choose|k: int|
                0 <= k < before.len() && gives_header(#[trigger] before[k], name);
            assert(gives_header(args[k], name));
        }
        if gives_header(args.last(), name) {
            assert(gives_header(args[args.len() - 1], name));
        }
        if exists|k: int| 0 <= k < args.len() && gives_header(#[trigger] args[k], name) {
            let k = choose|k: int| 0 <= k < args.len() && gives_header(#[trigger] args[k], name);
            if k < before.len() {
                assert(gives_header(before[k], name));
            }
        }
    }
}

/// The first fault is told: there is one if and only if some instruction has one, and then it is
/// that of the first such instruction.
pub proof fn law_first_fault_is_told(args: Seq<CurlArg>)
    ensures
        first_problem(args) is None <==> forall|i: int|
            0 <= i < args.len() ==> problem(#[trigger] args[i]) is None,
        first_problem(args) is Some ==> exists|k: int|
            0 <= k < args.len() && first_problem(args) == problem(#[trigger] args[k]) && forall|
                i: int,
            |
                0 <= i < k ==> problem(#[trigger] args[i]) is None,
    decreases args.len(),
{
    if args.len() > 0 {
        let rest = args.drop_first();
        law_first_fault_is_told(rest);
        if problem(args[0]) is None {
            if first_problem(rest) is Some {
                let k = choose|k: int|
                    0 <= k < rest.len() && first_problem(rest) == problem(#[trigger] rest[k])
                        && forall|i: int| 0 <= i < k ==> problem(#[trigger] rest[i]) is None;
                assert(args[k + 1] == rest[k]);
                assert forall|i: int| 0 <= i < k + 1 implies problem(
                    #[trigger] args[i],
                ) is None by {
                    if i > 0 {
                        assert(rest[i - 1] == args[i]);
                    }
                }
                assert(first_problem(args) == problem(args[k + 1]));
            } else {
                assert forall|i: int| 0 <= i < args.len() implies problem(
                    #[trigger] args[i],
                ) is None by {
                    if i > 0 {
                        assert(rest[i - 1] == args[i]);
                    }
                }
            }
        } else {
            assert(first_problem(args) == problem(args[0]));
        }
    }
}

/// What is wrong with an instruction, if anything: a method must be a token in upper case; a
/// header must be a name, a colon and a value, where both are sound once they are trimmed; a body
/// and a URL may be anything.
pub proof fn law_faults_of_instructions(text: Seq<char>, name: Seq<char>, value: Seq<char>)
    ensures
        problem(CurlArg::Method(text)) == (if is_token(upper_case(text)) {
            None
        } else {
            Some(I18nKey::InvalidHttpMethod)
        }),
        !text.contains(':') ==> problem(CurlArg::Header(text)) == Some(
            I18nKey::HeaderFormatInvalid,
        ),
        !name.contains(':') ==> problem(CurlArg::Header(name.push(':') + value)) == (
        if !is_header_name(trimmed(name)) {
            Some(I18nKey::InvalidHeaderName)
        } else if !is_header_value(trimmed(value)) {
            Some(I18nKey::InvalidHeaderValue)
        } else {
            None
        }),
        problem(CurlArg::Data(text)) is None,
        problem(CurlArg::Url(text)) is None,
        problem(CurlArg::Ignored) is None,
{
    text.index_of_first_ensures(':');
    let header = name.push(':') + value;
    header.index_of_first_ensures(':');
    if !name.contains(':') {
        assert(header[name.len() as int] == ':');
        assert(header.contains(':'));
        let i = header.index_of_first(':')->0;
        if i < name.len() {
            assert(name[i] == ':');
        }
        assert(i == name.len());
        assert(header.take(i) =~= name);
        assert(header.skip(i + 1) =~= value);
    }
}

/// A request is just what its instructions ask for: the method, the last URL and the last body,
/// and every header with the value that was given; only a Host header may be added.
pub proof fn law_request_is_what_was_asked_for(words: Seq<Seq<char>>, language: Language)
    requires
        words_outcome(words, language) is Ok,
    ensures
        ({
            let request = words_outcome(words, language)->Ok_0;
            let args = arguments(words, 0);
            &&& request.method == method_of(args)
            &&& url_of(args) == Some(request.url)
            &&& request.body == body_of(args)
            &&& forall|name: Seq<char>| #[trigger]
                headers_of(args).dom().contains(name) ==> request.headers.dom().contains(name)
                    && request.headers[name] == headers_of(args)[name]
            &&& forall|name: Seq<char>| #[trigger]
                request.headers.dom().contains(name) ==> headers_of(args).dom().contains(name)
                    || name == "host"@
        }),
{
}

/// A command is refused for what is wrong with it: no words at all, then its first faulty
/// instruction, then that it has no URL, then that this is malformed.
pub proof fn law_why_commands_are_refused(words: Seq<Seq<char>>, language: Language)
    ensures
        ({
            let args = arguments(words, 0);
            let outcome = words_outcome(words, language);
            &&& words.len() == 0 ==> outcome == Err::<TemplateView, ErrorView>(
                ErrorView::Fault(language, I18nKey::EmptyInput),
            )
            &&& words.len() > 0 && first_problem(args) is Some ==> outcome == Err::<
                TemplateView,
                ErrorView,
            >(ErrorView::Fault(language, first_problem(args)->0))
            &&& words.len() > 0 && first_problem(args) is None && url_of(args) is None ==> outcome
                == Err::<TemplateView, ErrorView>(ErrorView::Fault(language, I18nKey::UrlNotFound))
            &&& words.len() > 0 && first_problem(args) is None && url_of(args) is Some
                && url_authority(url_of(args)->0) is None ==> outcome == Err::<
                TemplateView,
                ErrorView,
            >(ErrorView::Fault(language, I18nKey::InvalidUrl))
            &&& words.len() > 0 && first_problem(args) is None && url_of(args) is Some
                && url_authority(url_of(args)->0) is Some ==> outcome is Ok || outcome == Err::<
                TemplateView,
                ErrorView,
            >(ErrorView::HostHeader)
        }),
{
}

/// A command is what its shell words are; one that a shell could not read is refused for that.
pub proof fn law_command_is_its_words(input: Seq<char>, language: Language)
    ensures
        shell_words(input) is None ==> curl_outcome(input, language) == Err::<
            TemplateView,
            ErrorView,
        >(ErrorView::Fault(language, I18nKey::InvalidShellString)),
        shell_words(input) matches Some(words) ==> curl_outcome(input, language)
            == words_outcome(words, language) && curl_headers(input) == headers_of(
            arguments(words, 0),
        ),
{
}

/// The Host header that is added names the server of the URL: its host and, if it is explicit,
/// a colon and the number of its port. A Host header that was given stays as it is, and nothing
/// but the headers changes.
pub proof fn law_host_header_names_the_server(
    request: TemplateView,
    host: Seq<char>,
    port: Option<u16>,
    language: Language,
)
    ensures
        host_text(host, None) == host,
        port matches Some(p) ==> {
            let text = host_text(host, port);
            &&& text.len() > host.len() + 1
            &&& text.take(host.len() as int) == host
            &&& text[host.len() as int] == ':'
            &&& text.skip(host.len() as int + 1) == decimal(p as nat)
            &&& digits_value(text.skip(host.len() as int + 1)) == p
        },
        request.headers.dom().contains("host"@) ==> with_host(
            request,
            Some((Some(host), port)),
            language,
        ) == Ok::<TemplateView, ErrorView>(request),
        with_host(request, Some((None, port)), language) == Ok::<TemplateView, ErrorView>(request),
        !request.headers.dom().contains("host"@) && is_header_value(host_text(host, port)) ==> (
        with_host(request, Some((Some(host), port)), language) matches Ok(t) && t.method
            == request.method && t.url == request.url && t.body == request.body && t.headers
            == request.headers.insert("host"@, seq![encode_utf8(host_text(host, port))])),
{
    if let Some(p) = port {
        law_numeral_reads_back(p as nat);
        let text = host_text(host, port);
        assert(text.take(host.len() as int) =~= host);
        assert(text.skip(host.len() as int + 1) =~= decimal(p as nat));
    }
}

} // verus!
