//! The request as the user edits it, and the way from a request to a draft and back.
use crate::curl_parser::{
    law_parsed_request_is_fit, template_result, words_outcome, HeaderContents, RequestTemplate,
    TemplateView,
};
use crate::error::{in_language, ErrorView, RequestError};
use crate::i18n::{I18nKey, Language};
use crate::outside::{
    body_from_text, body_text, bytes_text, header_list, header_name_text, header_value_allowed,
    header_values, in_braces, indent_json, insert_header, is_header_name, is_header_value, is_token,
    is_token_char, json_members, json_object_text, list_headers, member_view, members_are,
    members_view, method_text, new_headers, no_headers, object_of, pretty_json, read_json_object,
    read_url, reads_back, text_pairs, url_authority, values_named, values_of, whole_numbers,
    write_json_object, JsonValue, HEADER_ROOM,
};
use crate::text::{
    chars_of, eq_ignore_ascii_case, is_blank, is_space, lemma_nothing_replaced, lemma_trimmed,
    lowered, replace, replaced, same_text, starts_with, text_of, trim, trimmed,
};
use reqwest::header::HeaderMap;
use vstd::prelude::*;
use vstd::string::*;
use vstd::utf8::{
    encode_utf8, encode_utf8_decode_utf8, encode_utf8_valid_utf8, is_ascii_chars,
    is_ascii_chars_encode_utf8,
};

verus! {

/// The fields of the request editor.
#[derive(Debug, PartialEq, Eq)]
pub struct EditableRequest {
    pub api_url: String,
    pub method: String,
    pub headers_json: String,
    pub body: String,
}

/// An `EditableRequest` as character sequences.
#[verifier::ext_equal]
pub struct DraftView {
    pub api_url: Seq<char>,
    pub method: Seq<char>,
    pub headers_json: Seq<char>,
    pub body: Seq<char>,
}

impl View for EditableRequest {
    type V = DraftView;

    open spec fn view(&self) -> DraftView {
        DraftView {
            api_url: self.api_url@,
            method: self.method@,
            headers_json: self.headers_json@,
            body: self.body@,
        }
    }
}

/// The methods whose requests carry a body: all but GET and HEAD.
pub open spec fn supports_body(method: Seq<char>) -> bool {
    method != "GET"@ && method != "HEAD"@
}

/// Whether a request with this method carries a body.
pub fn method_supports_body(method: &str) -> (r: bool)
    ensures
        r == supports_body(method@),
{
    !(same_text(method, "GET") || same_text(method, "HEAD"))
}

/// The method that the user typed, in whatever case, carries a body.
pub open spec fn text_supports_body(method: Seq<char>) -> bool {
    lowered(method) != lowered("GET"@) && lowered(method) != lowered("HEAD"@)
}

/// Whether the method that the user typed carries a body.
pub fn method_text_supports_body(method: &str) -> (r: bool)
    ensures
        r == text_supports_body(method@),
        r == (lowered(method@) != lowered("GET"@) && lowered(method@) != lowered("HEAD"@)),
{
    !(eq_ignore_ascii_case(method, "GET") || eq_ignore_ascii_case(method, "HEAD"))
}

/// `text` without the dollar sign that a shell puts before a quotation, if a brace follows it.
pub open spec fn without_dollar(text: Seq<char>) -> Seq<char> {
    if "${"@.is_prefix_of(text) {
        text.skip(1)
    } else {
        text
    }
}

/// A body with its ends trimmed, the shell's dollar sign gone, and the escapes for line ends and
/// tabs written out.
pub open spec fn plain_body(input: Seq<char>) -> Seq<char> {
    replaced(
        replaced(
            replaced(without_dollar(trimmed(input)), "\\r\\n"@, "\n"@),
            "\\n"@,
            "\n"@,
        ),
        "\\t"@,
        "\t"@,
    )
}

/// A body in plain form, indented where it is JSON.
pub open spec fn normalized_body(input: Seq<char>) -> Seq<char> {
    match pretty_json(plain_body(input)) {
        Some(indented) => indented,
        None => plain_body(input),
    }
}

/// Trims a body and undoes what a shell does to it.
pub fn plain_body_text(input: &str) -> (r: String)
    ensures
        r@ == plain_body(input@),
{
    let mut text = trim(input);
    if starts_with(text.as_str(), "${") {
        let chars = chars_of(text.as_str());
        proof {
            reveal_strlit("${");
        }
        let rest = text_of(&chars, 1, chars.len());
        assert(rest@ =~= text@.skip(1));
        text = rest;
    }
    proof {
        reveal_strlit("\\r\\n");
        reveal_strlit("\\n");
        reveal_strlit("\\t");
    }
    let text = replace(text.as_str(), "\\r\\n", "\n");
    let text = replace(text.as_str(), "\\n", "\n");
    replace(text.as_str(), "\\t", "\t")
}

/// A body without backslashes in plain form: trimmed, and without the shell's dollar sign.
proof fn lemma_plain_body(input: Seq<char>)
    requires
        !input.contains('\\'),
    ensures
        plain_body(input) == without_dollar(trimmed(input)),
        !plain_body(input).contains('\\'),
        plain_body(input).len() > 0 ==> !is_space(plain_body(input).first()) && !is_space(
            plain_body(input).last(),
        ),
        !"${"@.is_prefix_of(plain_body(input)),
{
    reveal_strlit("${");
    reveal_strlit("\\r\\n");
    reveal_strlit("\\n");
    reveal_strlit("\\t");
    lemma_trimmed(input);
    let whole = trimmed(input);
    let text = without_dollar(whole);
    if "${"@.is_prefix_of(whole) {
        assert(whole.subrange(0, 2)[1] == '{');
        assert(text[0] == '{');
    }
    if "${"@.is_prefix_of(text) {
        assert(text.subrange(0, 2)[0] == '$');
    }
    if text.contains('\\') {
        let k = choose|k: int| 0 <= k < text.len() && text[k] == '\\';
        if "${"@.is_prefix_of(whole) {
            assert(whole[k + 1] == '\\');
        } else {
            assert(whole[k] == '\\');
        }
        assert(whole.contains('\\'));
    }
    lemma_nothing_replaced(text, "\\r\\n"@, "\n"@);
    lemma_nothing_replaced(text, "\\n"@, "\n"@);
    lemma_nothing_replaced(text, "\\t"@, "\t"@);
}

/// A text that is in plain form already.
proof fn lemma_already_plain(text: Seq<char>)
    requires
        !text.contains('\\'),
        text.len() > 0 ==> !is_space(text.first()) && !is_space(text.last()),
        !"${"@.is_prefix_of(text),
    ensures
        plain_body(text) == text,
{
    lemma_plain_body(text);
    assert(trimmed(text) == text);
}

/// Brings a body into the form in which it is shown and sent. Of a body without backslashes only
/// its ends and the shell's dollar sign go, and what is no JSON comes out just so; to bring it
/// into that form again changes nothing, and JSON stays the same JSON, unless there are numbers
/// that are read as floating point.
pub fn normalize_possible_json_body(input: &str) -> (r: String)
    ensures
        r@ == normalized_body(input@),
        !input@.contains('\\') ==> plain_body(input@) == without_dollar(trimmed(input@)),
        !input@.contains('\\') && pretty_json(plain_body(input@)) is None ==> r@ == without_dollar(
            trimmed(input@),
        ),
        !input@.contains('\\') && (pretty_json(plain_body(input@)) is None || whole_numbers(
            plain_body(input@),
        )) ==> normalized_body(r@) == r@ && pretty_json(r@) == pretty_json(plain_body(input@)),
{
    let text = plain_body_text(input);
    proof {
        if !input@.contains('\\') {
            lemma_plain_body(input@);
            lemma_already_plain(text@);
        }
    }
    match indent_json(text.as_str()) {
        Some(indented) => {
            proof {
                if !input@.contains('\\') {
                    reveal_strlit("${");
                    if "${"@.is_prefix_of(indented@) {
                        assert(indented@.subrange(0, 2)[0] == '$');
                    }
                    lemma_already_plain(indented@);
                }
            }
            indented
        },
        None => text,
    }
}

/// A byte that stands for a visible ASCII character, a space or a tab.
pub open spec fn is_visible(b: u8) -> bool {
    (32 <= b && b < 127) || b == 9
}

/// The text of a header value, if all of it is visible.
pub open spec fn visible_value(bytes: Seq<u8>) -> Option<Seq<char>> {
    if forall|i: int| 0 <= i < bytes.len() ==> is_visible(#[trigger] bytes[i]) {
        Some(bytes.map_values(|b: u8| b as char))
    } else {
        None
    }
}

/// Reads a header value as text, if all of it is visible.
pub fn visible_text(bytes: &Vec<u8>) -> (r: Option<String>)
    ensures
        match r {
            Some(s) => visible_value(bytes@) == Some(s@),
            None => visible_value(bytes@) is None,
        },
{
    let mut out = String::new();
    let mut i: usize = 0;
    while i < bytes.len()
        invariant
            0 <= i <= bytes@.len(),
            forall|j: int| 0 <= j < i ==> is_visible(#[trigger] bytes@[j]),
            out@ == bytes@.take(i as int).map_values(|b: u8| b as char),
        decreases bytes@.len() - i,
    {
        let b: u8 = bytes[i];
        if !((32 <= b && b < 127) || b == 9) {
            assert(!is_visible(bytes@[i as int]));
            return None;
        }
        out.push(b as char);
        i += 1;
        assert(out@ =~= bytes@.take(i as int).map_values(|b: u8| b as char));
    }
    assert(bytes@.take(i as int) =~= bytes@);
    Some(out)
}

/// The last of some header values that is visible, if one is.
pub open spec fn last_visible(values: Seq<Seq<u8>>) -> Option<Seq<char>>
    decreases values.len(),
{
    if values.len() == 0 {
        None
    } else {
        match visible_value(values.last()) {
            Some(text) => Some(text),
            None => last_visible(values.drop_last()),
        }
    }
}

/// The headers that can be shown as text, each with the value that counts.
pub open spec fn visible_headers(headers: HeaderContents) -> Map<Seq<char>, Seq<char>> {
    Map::new(
        |name: Seq<char>| last_visible(values_of(headers, name)) is Some,
        |name: Seq<char>| last_visible(values_of(headers, name))->0,
    )
}

/// The draft that shows a request.
pub open spec fn draft_of(template: TemplateView) -> DraftView {
    DraftView {
        api_url: template.url,
        method: template.method,
        headers_json: json_object_text(visible_headers(template.headers)),
        body: match template.body {
            Some(bytes) => normalized_body(bytes_text(bytes)),
            None => Seq::empty(),
        },
    }
}

/// `object` holds, for each name, the last visible value that `list` gives for it.
spec fn shows(
    object: Map<Seq<char>, Seq<char>>,
    list: Seq<(Seq<char>, Seq<u8>)>,
) -> bool {
    forall|name: Seq<char>|
        {
            let last = last_visible(#[trigger] values_named(list, name));
            &&& object.dom().contains(name) <==> last is Some
            &&& last is Some ==> object[name] == last->0
        }
}

proof fn lemma_shows_step(
    object: Map<Seq<char>, Seq<char>>,
    list: Seq<(Seq<char>, Seq<u8>)>,
    next: (Seq<char>, Seq<u8>),
)
    requires
        shows(object, list),
    ensures
        match visible_value(next.1) {
            Some(text) => shows(object.insert(next.0, text), list.push(next)),
            None => shows(object, list.push(next)),
        },
{
    let longer = list.push(next);
    assert(longer.drop_last() =~= list);
    let after = match visible_value(next.1) {
        Some(text) => object.insert(next.0, text),
        None => object,
    };
    assert forall|name: Seq<char>|
        {
            let last = last_visible(#[trigger] values_named(longer, name));
            &&& after.dom().contains(name) <==> last is Some
            &&& last is Some ==> after[name] == last->0
        } by {
        let before = values_named(list, name);
        if name == next.0 {
            assert(before.push(next.1).drop_last() =~= before);
        }
    }
}

/// The listed headers that are visible, as pairs of texts.
fn visible_pairs(headers: &HeaderMap) -> (r: Vec<(String, String)>)
    ensures
        object_of(text_pairs(r@)) == visible_headers(header_values(*headers)),
{
    let listed = list_headers(headers);
    let ghost list = header_list(listed@);
    let mut pairs: Vec<(String, String)> = Vec::new();
    let mut i: usize = 0;
    while i < listed.len()
        invariant
            0 <= i <= listed@.len(),
            list == header_list(listed@),
            shows(object_of(text_pairs(pairs@)), list.take(i as int)),
        decreases listed@.len() - i,
    {
        let ghost before = text_pairs(pairs@);
        proof {
            lemma_shows_step(object_of(before), list.take(i as int), list[i as int]);
            assert(list.take(i as int).push(list[i as int]) =~= list.take(i + 1));
        }
        match visible_text(&listed[i].1) {
            Some(value) => {
                pairs.push((listed[i].0.clone(), value));
                assert(text_pairs(pairs@).drop_last() =~= before);
            },
            None => {},
        }
        i += 1;
    }
    proof {
        assert(list.take(i as int) =~= list);
        let shown = visible_headers(header_values(*headers));
        let object = object_of(text_pairs(pairs@));
        assert forall|name: Seq<char>| object.dom().contains(name) <==> shown.dom().contains(name)
            by {
            assert(values_named(list, name) == values_of(header_values(*headers), name));
        }
        assert forall|name: Seq<char>| object.dom().contains(name) implies object[name]
            == shown[name] by {
            assert(values_named(list, name) == values_of(header_values(*headers), name));
        }
        assert(object =~= shown);
    }
    pairs
}

/// `text` can be read as a JSON object with the given members, all of them strings.
pub open spec fn spells_object(text: Seq<char>, object: Map<Seq<char>, Seq<char>>) -> bool {
    in_braces(text) && reads_back(text, object)
}

/// Fills the request editor with a request. The headers that it shows can be read back.
pub fn draft_from_template(template: RequestTemplate) -> (r: EditableRequest)
    ensures
        r@ == draft_of(template@),
        spells_object(r.headers_json@, visible_headers(template@.headers)),
{
    let pairs = visible_pairs(&template.headers);
    let headers_json = match write_json_object(&pairs) {
        Some(text) => text,
        None => "{}".to_owned(),
    };
    let body = match &template.body {
        Some(bytes) => normalize_possible_json_body(body_text(bytes).as_str()),
        None => String::new(),
    };
    EditableRequest { api_url: template.url, method: template.method, headers_json, body }
}

/// What is wrong with a member of the header object, if anything.
pub open spec fn member_problem(member: (Seq<char>, bool, Seq<char>)) -> Option<I18nKey> {
    if !is_header_name(member.0) {
        Some(I18nKey::InvalidHeaderName)
    } else if !is_header_value(member.2) {
        Some(I18nKey::InvalidHeaderValue)
    } else {
        None
    }
}

/// The name of the first faulty member and what is wrong with it, if there is one.
pub open spec fn first_faulty(members: Seq<(Seq<char>, bool, Seq<char>)>) -> Option<
    (I18nKey, Seq<char>),
>
    decreases members.len(),
{
    if members.len() == 0 {
        None
    } else {
        match member_problem(members.first()) {
            Some(key) => Some((key, members.first().0)),
            None => first_faulty(members.drop_first()),
        }
    }
}

/// The headers that the members give: for each name, in lower case, the value that comes last.
pub open spec fn member_headers(
    members: Seq<(Seq<char>, bool, Seq<char>)>,
) -> HeaderContents
    decreases members.len(),
{
    if members.len() == 0 {
        no_headers()
    } else {
        member_headers(members.drop_last()).insert(
            lowered(members.last().0),
            seq![encode_utf8(members.last().2)],
        )
    }
}

/// The members of the header object that the user typed; nothing typed is an empty object.
pub open spec fn typed_members(headers_json: Seq<char>, language: Language) -> Result<
    Seq<(Seq<char>, bool, Seq<char>)>,
    ErrorView,
> {
    if trimmed(headers_json).len() == 0 {
        Ok(Seq::empty())
    } else {
        match json_members(trimmed(headers_json)) {
            None => Err(ErrorView::Fault(language, I18nKey::HeaderNotJson)),
            Some(None) => Err(ErrorView::Fault(language, I18nKey::HeaderMustObject)),
            Some(Some(members)) => Ok(members),
        }
    }
}

/// The body that a draft sends.
pub open spec fn sent_body(method: Seq<char>, body: Seq<char>) -> Option<Seq<u8>> {
    if supports_body(method) && trimmed(body).len() > 0 {
        Some(encode_utf8(normalized_body(body)))
    } else {
        None
    }
}

/// The request that a draft describes, or what is wrong with it.
pub open spec fn draft_outcome(draft: DraftView, language: Language) -> Result<
    TemplateView,
    ErrorView,
> {
    let method = trimmed(draft.method);
    let url = trimmed(draft.api_url);
    if !is_token(method) {
        Err(ErrorView::Fault(language, I18nKey::InvalidRequestMethod))
    } else if url.len() == 0 {
        Err(ErrorView::Fault(language, I18nKey::EmptyApiUrl))
    } else if url_authority(url) is None {
        Err(ErrorView::Fault(language, I18nKey::InvalidApiUrl))
    } else {
        match typed_members(draft.headers_json, language) {
            Err(e) => Err(e),
            Ok(members) => match first_faulty(members) {
                Some((key, name)) => Err(ErrorView::HeaderFault(language, key, name)),
                None => Ok(
                    TemplateView {
                        method,
                        url,
                        headers: member_headers(members),
                        body: sent_body(method, draft.body),
                    },
                ),
            },
        }
    }
}

/// The headers that a draft gives.
pub open spec fn draft_headers(draft: DraftView, language: Language) -> HeaderContents {
    match typed_members(draft.headers_json, language) {
        Err(_) => no_headers(),
        Ok(members) => member_headers(members),
    }
}

proof fn lemma_first_faulty_split(
    done: Seq<(Seq<char>, bool, Seq<char>)>,
    rest: Seq<(Seq<char>, bool, Seq<char>)>,
)
    requires
        first_faulty(done) is None,
    ensures
        first_faulty(done + rest) == first_faulty(rest),
    decreases done.len(),
{
    if done.len() == 0 {
        assert(done + rest =~= rest);
    } else {
        assert((done + rest).drop_first() =~= done.drop_first() + rest);
        lemma_first_faulty_split(done.drop_first(), rest);
    }
}

/// The headers of the first members are among those of all of them.
proof fn lemma_member_headers_grow(members: Seq<(Seq<char>, bool, Seq<char>)>, k: int)
    requires
        0 <= k <= members.len(),
    ensures
        member_headers(members.take(k)).dom().subset_of(member_headers(members).dom()),
        member_headers(members).dom().finite(),
        member_headers(members.take(k)).dom().len() <= member_headers(members).dom().len(),
    decreases members.len(),
{
    if members.len() > 0 {
        lemma_member_headers_grow(members.drop_last(), if k < members.len() { k } else { 0 });
        if k < members.len() {
            assert(members.drop_last().take(k) =~= members.take(k));
        } else {
            assert(members.take(k) =~= members);
        }
    } else {
        assert(members.take(k) =~= members);
    }
    vstd::set_lib::lemma_len_subset(
        member_headers(members.take(k)).dom(),
        member_headers(members).dom(),
    );
}

/// Puts the members of a header object into a header collection. The first faulty one is
/// reported; beyond that it can only fail where there are at least `HEADER_ROOM` of them.
pub fn headers_from_members(members: &Vec<(String, JsonValue)>, language: Language) -> (r: Result<
    HeaderMap,
    RequestError,
>)
    ensures
        ({
            let all = members_view(members@);
            match r {
                Ok(headers) => first_faulty(all) is None && header_values(headers)
                    == member_headers(all),
                Err(RequestError::TooManyHeaders) => members@.len() >= HEADER_ROOM
                    && member_headers(all).dom().len() >= HEADER_ROOM,
                Err(e) => first_faulty(all) matches Some((key, name)) && e@
                    == ErrorView::HeaderFault(language, key, name),
            }
        }),
{
    let ghost all = members_view(members@);
    proof {
        lemma_headers_within_members(all);
    }
    let mut headers = new_headers();
    let mut i: usize = 0;
    while i < members.len()
        invariant
            0 <= i <= members@.len(),
            all == members_view(members@),
            all.len() == members@.len(),
            member_headers(all).dom().len() <= members@.len(),
            first_faulty(all.take(i as int)) is None,
            header_values(headers) == member_headers(all.take(i as int)),
        decreases members@.len() - i,
    {
        let ghost done = all.take(i as int);
        let ghost member = all[i as int];
        proof {
            assert(done + all.skip(i as int) =~= all);
            assert(all.skip(i as int).first() == member);
            lemma_first_faulty_split(done, all.skip(i as int));
            assert(done + seq![member] =~= all.take(i + 1));
            lemma_first_faulty_split(done, seq![member]);
            assert(first_faulty(seq![member].drop_first()) is None);
            assert(seq![member].first() == member);
            assert(all.take(i + 1).drop_last() =~= done);
            lemma_member_headers_grow(all, i as int);
        }
        let name = members[i].0.as_str();
        let text = match &members[i].1 {
            JsonValue::Text(s) => s.as_str(),
            JsonValue::Printed(s) => s.as_str(),
        };
        assert(member == member_view(members@[i as int]));
        if header_name_text(name).is_none() {
            return Err(
                RequestError::HeaderFault {
                    language,
                    key: I18nKey::InvalidHeaderName,
                    name: name.to_owned(),
                },
            );
        }
        if !header_value_allowed(text) {
            return Err(
                RequestError::HeaderFault {
                    language,
                    key: I18nKey::InvalidHeaderValue,
                    name: name.to_owned(),
                },
            );
        }
        if !insert_header(&mut headers, name, text) {
            return Err(RequestError::TooManyHeaders);
        }
        i += 1;
    }
    assert(all.take(i as int) =~= all);
    Ok(headers)
}

/// The members of the header object that the user typed.
fn read_typed_members(headers_json: &str, language: Language) -> (r: Result<
    Vec<(String, JsonValue)>,
    RequestError,
>)
    ensures
        match r {
            Ok(members) => typed_members(headers_json@, language) == Ok::<
                Seq<(Seq<char>, bool, Seq<char>)>,
                ErrorView,
            >(members_view(members@)) && members@.len() <= headers_json@.len(),
            Err(e) => typed_members(headers_json@, language) == Err::<
                Seq<(Seq<char>, bool, Seq<char>)>,
                ErrorView,
            >(e@) && e is Fault,
        },
{
    let text = trim(headers_json);
    proof {
        lemma_trimmed(headers_json@);
    }
    if text.as_str().is_empty() {
        let members: Vec<(String, JsonValue)> = Vec::new();
        assert(members_view(members@) =~= Seq::empty());
        return Ok(members);
    }
    match read_json_object(text.as_str()) {
        None => Err(RequestError::Fault { language, key: I18nKey::HeaderNotJson }),
        Some(None) => Err(RequestError::Fault { language, key: I18nKey::HeaderMustObject }),
        Some(Some(members)) => Ok(members),
    }
}

/// Builds the request that the user's draft describes. Beyond the errors of `draft_outcome` it
/// can only fail on a draft whose header object has at least `HEADER_ROOM` characters and gives as
/// many different headers.
pub fn build_template_from_draft(draft: &EditableRequest, language: Language) -> (r: Result<
    RequestTemplate,
    RequestError,
>)
    ensures
        match r {
            Err(RequestError::TooManyHeaders) => draft.headers_json@.len() >= HEADER_ROOM
                && draft_headers(draft@, language).dom().len() >= HEADER_ROOM,
            _ => template_result(r) == draft_outcome(draft@, language),
        },
{
    let method = match method_text(trim(draft.method.as_str()).as_str()) {
        Some(m) => m,
        None => {
            return Err(RequestError::Fault { language, key: I18nKey::InvalidRequestMethod });
        },
    };
    let url = trim(draft.api_url.as_str());
    if url.as_str().is_empty() {
        return Err(RequestError::Fault { language, key: I18nKey::EmptyApiUrl });
    }
    if read_url(url.as_str()).is_none() {
        return Err(RequestError::Fault { language, key: I18nKey::InvalidApiUrl });
    }
    let members = match read_typed_members(draft.headers_json.as_str(), language) {
        Ok(members) => members,
        Err(e) => {
            return Err(e);
        },
    };
    let headers = match headers_from_members(&members, language) {
        Ok(headers) => headers,
        Err(e) => {
            return Err(e);
        },
    };
    let body = if method_supports_body(method.as_str()) && !is_blank(draft.body.as_str()) {
        Some(body_from_text(normalize_possible_json_body(draft.body.as_str()).as_str()))
    } else {
        None
    };
    Ok(RequestTemplate { method, url, headers, body })
}

/// A request with the method GET or HEAD is never sent with a body, whatever the draft holds;
/// and no draft with a blank body is sent with one.
pub proof fn law_no_body_with_get_or_head(draft: DraftView, language: Language)
    ensures
        draft_outcome(draft, language) matches Ok(template) ==> {
            &&& template.method == "GET"@ || template.method == "HEAD"@ ==> template.body is None
            &&& trimmed(draft.body).len() == 0 ==> template.body is None
        },
{
}

/// Every header can be shown: its name is a header name in lower case, and it has one value,
/// all of it visible.
pub open spec fn all_shown(headers: HeaderContents) -> bool {
    forall|name: Seq<char>| #[trigger]
        headers.dom().contains(name) ==> {
            &&& is_header_name(name)
            &&& lowered(name) == name
            &&& headers[name].len() == 1
            &&& visible_value(headers[name][0]) is Some
        }
}

/// A visible header value can be sent again, and its bytes are the same.
proof fn lemma_visible_value_again(bytes: Seq<u8>)
    requires
        visible_value(bytes) is Some,
    ensures
        is_header_value(visible_value(bytes)->0),
        encode_utf8(visible_value(bytes)->0) == bytes,
{
    let text = visible_value(bytes)->0;
    assert forall|i: int| 0 <= i < text.len() implies {
        let u = (#[trigger] text[i]) as u32;
        (u == 9 || (u >= 32 && u != 127)) && u < 128
    } by {
        assert(is_visible(bytes[i]));
    }
    assert(is_ascii_chars(text));
    is_ascii_chars_encode_utf8(text);
    assert(encode_utf8(text) =~= bytes);
}

/// What `visible_headers` says of a header that can be shown.
proof fn lemma_shown_header(headers: HeaderContents, name: Seq<char>)
    requires
        all_shown(headers),
    ensures
        visible_headers(headers).dom().contains(name) <==> headers.dom().contains(name),
        headers.dom().contains(name) ==> is_header_value(visible_headers(headers)[name])
            && headers[name] == seq![encode_utf8(visible_headers(headers)[name])],
{
    reveal_with_fuel(last_visible, 2);
    if headers.dom().contains(name) {
        let values = headers[name];
        lemma_visible_value_again(values[0]);
        assert(values.last() == values[0]);
        assert(values =~= seq![encode_utf8(visible_headers(headers)[name])]);
    }
}

/// The first members of an object are some of the headers that it shows.
proof fn lemma_members_give_headers(
    members: Seq<(Seq<char>, bool, Seq<char>)>,
    headers: HeaderContents,
    k: int,
)
    requires
        all_shown(headers),
        members_are(members, visible_headers(headers)),
        0 <= k <= members.len(),
    ensures
        first_faulty(members.take(k)) is None,
        forall|name: Seq<char>| #[trigger]
            member_headers(members.take(k)).dom().contains(name) <==> exists|i: int|
                0 <= i < k && (#[trigger] members[i]).0 == name,
        forall|name: Seq<char>| #[trigger]
            member_headers(members.take(k)).dom().contains(name) ==> headers.dom().contains(name)
                && member_headers(members.take(k))[name] == headers[name],
    decreases k,
{
    if k > 0 {
        lemma_members_give_headers(members, headers, k - 1);
        let before = members.take(k - 1);
        let member = members[k - 1];
        assert(members.take(k) =~= before + seq![member]);
        assert(members.take(k).drop_last() =~= before);
        lemma_shown_header(headers, member.0);
        lemma_first_faulty_split(before, seq![member]);
        assert(seq![member].first() == member);
        assert(first_faulty(seq![member].drop_first()) is None);
        let now = member_headers(members.take(k));
        assert forall|name: Seq<char>| #[trigger] now.dom().contains(name) <==> exists|i: int|
            0 <= i < k && (#[trigger] members[i]).0 == name by {
            if now.dom().contains(name) && name != member.0 {
                assert(member_headers(before).dom().contains(name));
                let i = choose|i: int| 0 <= i < k - 1 && (#[trigger] members[i]).0 == name;
                assert(members[i].0 == name);
            }
            if exists|i: int| 0 <= i < k && (#[trigger] members[i]).0 == name {
                let i = choose|i: int| 0 <= i < k && (#[trigger] members[i]).0 == name;
                if i < k - 1 {
                    assert(member_headers(before).dom().contains(name));
                }
            }
            if name == member.0 {
                assert(members[k - 1].0 == name);
            }
        }
        assert forall|name: Seq<char>| #[trigger]
            now.dom().contains(name) implies headers.dom().contains(name) && now[name]
            == headers[name] by {
            if name != member.0 {
                assert(member_headers(before).dom().contains(name));
            }
        }
    }
}

/// The text that was given as the body is shown in the editor in plain form, indented where it
/// is JSON; that is also what a draft with this text as its body sends.
pub proof fn law_body_text_is_shown(template: TemplateView, text: Seq<char>)
    requires
        template.body == Some(encode_utf8(text)),
    ensures
        draft_of(template).body == normalized_body(text),
        supports_body(template.method) && trimmed(text).len() > 0 ==> sent_body(
            template.method,
            text,
        ) == Some(encode_utf8(draft_of(template).body)),
{
    encode_utf8_valid_utf8(text);
    encode_utf8_decode_utf8(text);
}

/// What a request shows in the editor describes the same request: where its method and its URL
/// are fit to be sent, and all of its headers can be shown, the draft of it gives its method,
/// its URL and its headers back, and no body where it had none.
pub proof fn law_draft_gives_request_back(
    template: TemplateView,
    draft: DraftView,
    language: Language,
)
    requires
        draft == draft_of(template),
        spells_object(draft.headers_json, visible_headers(template.headers)),
        is_token(template.method),
        template.url.len() > 0,
        trimmed(template.url) == template.url,
        url_authority(template.url) is Some,
        all_shown(template.headers),
    ensures
        draft_outcome(draft, language) is Ok,
        draft_outcome(draft, language)->Ok_0.method == template.method,
        draft_outcome(draft, language)->Ok_0.url == template.url,
        draft_outcome(draft, language)->Ok_0.headers == template.headers,
        template.body is None ==> draft_outcome(draft, language)->Ok_0.body is None,
{
    let headers = template.headers;
    assert(is_token_char(template.method[0]));
    assert(is_token_char(template.method[template.method.len() - 1]));
    assert(trimmed(template.method) == template.method);
    assert(trimmed(draft.headers_json) == draft.headers_json);
    let members = json_members(draft.headers_json)->0->0;
    lemma_members_give_headers(members, headers, members.len() as int);
    assert(members.take(members.len() as int) =~= members);
    let back = member_headers(members);
    assert forall|name: Seq<char>| headers.dom().contains(name) implies back.dom().contains(
        name,
    ) by {
        lemma_shown_header(headers, name);
        assert(visible_headers(headers).dom().contains(name));
    }
    assert forall|name: Seq<char>| back.dom().contains(name) implies headers.dom().contains(name)
        && back[name] == headers[name] by {}
    assert(back =~= headers);
}

/// A cURL command survives the editor: where its URL has no white space at its end and every
/// header value is visible, the draft that shows the request of the command describes a request
/// with the same method, URL and headers, and without a body if the command gave none. It is built
/// unless a header collection refuses to hold as many headers as the command gave.
pub proof fn law_command_survives_editing(
    words: Seq<Seq<char>>,
    draft: DraftView,
    language: Language,
)
    requires
        words_outcome(words, language) matches Ok(template) && {
            &&& draft == draft_of(template)
            &&& spells_object(draft.headers_json, visible_headers(template.headers))
            &&& trimmed(template.url) == template.url
            &&& forall|name: Seq<char>| #[trigger]
                template.headers.dom().contains(name) ==> visible_value(
                    template.headers[name][0],
                ) is Some
        },
    ensures
        draft_outcome(draft, language) matches Ok(again) && {
            let template = words_outcome(words, language)->Ok_0;
            &&& again.method == template.method
            &&& again.url == template.url
            &&& again.headers == template.headers
            &&& template.body is None ==> again.body is None
        },
        draft_headers(draft, language) == words_outcome(words, language)->Ok_0.headers,
{
    let template = words_outcome(words, language)->Ok_0;
    law_parsed_request_is_fit(words, language);
    reveal_strlit("http://");
    reveal_strlit("https://");
    law_draft_gives_request_back(template, draft, language);
}

proof fn lemma_headers_within_members(members: Seq<(Seq<char>, bool, Seq<char>)>)
    ensures
        member_headers(members).dom().finite(),
        member_headers(members).dom().len() <= members.len(),
    decreases members.len(),
{
    if members.len() > 0 {
        lemma_headers_within_members(members.drop_last());
    }
}

/// The language decides nothing but the wording of errors.
pub proof fn law_language_only_words_draft_errors(
    draft: DraftView,
    one: Language,
    other: Language,
)
    ensures
        match (draft_outcome(draft, one), draft_outcome(draft, other)) {
            (Ok(a), Ok(b)) => a == b,
            (Err(a), Err(b)) => b == in_language(a, other),
            _ => false,
        },
{
}

} // verus!
