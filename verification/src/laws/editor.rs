//! What the editor shows of a request, and what it sends.
use crate::curl_parser::{HeaderContents, TemplateView};
use crate::draft::{
    draft_headers, draft_of, draft_outcome, first_faulty, is_visible, last_visible, member_headers,
    member_problem, normalized_body, plain_body, supports_body, typed_members,
    visible_headers, visible_value, without_dollar, DraftView,
};
use crate::error::ErrorView;
use crate::i18n::{I18nKey, Language};
use crate::laws::text::{all_spaces, law_trimming_takes_only_spaces};
use crate::outside::{
    bytes_text, is_header_name, is_header_value, is_token, json_members, json_object_text,
    pretty_json, url_authority, values_of,
};
use crate::text::{lowered, replaced, trimmed};
use vstd::prelude::*;
use vstd::string::*;
use vstd::utf8::encode_utf8;

verus! {

/// The methods that carry no body are GET and HEAD, and no others.
pub proof fn law_methods_without_a_body(method: Seq<char>)
    ensures
        !supports_body("GET"@),
        !supports_body("HEAD"@),
        method != "GET"@ && method != "HEAD"@ ==> supports_body(method),
{
}

/// A dollar sign goes if and only if a brace follows it at the start; nothing else does.
pub proof fn law_only_the_dollar_goes(text: Seq<char>)
    ensures
        text.len() >= 2 && text[0] == '$' && text[1] == '{' ==> seq!['$'] + without_dollar(text)
            == text,
        !(text.len() >= 2 && text[0] == '$' && text[1] == '{') ==> without_dollar(text) == text,
{
    reveal_strlit("${");
    if text.len() >= 2 && text[0] == '$' && text[1] == '{' {
        assert(text.subrange(0, 2) =~= "${"@);
        assert(seq!['$'] + text.skip(1) =~= text);
    } else if "${"@.is_prefix_of(text) {
        assert(text.subrange(0, 2)[0] == '$' && text.subrange(0, 2)[1] == '{');
    }
}

/// Whether the text begins with the escape for a line end after the old fashion.
pub open spec fn begins_with_long_escape(s: Seq<char>) -> bool {
    s.len() >= 4 && s[0] == '\\' && s[1] == 'r' && s[2] == '\\' && s[3] == 'n'
}

/// Whether the text begins with a backslash and `c`.
pub open spec fn begins_with_escape(s: Seq<char>, c: char) -> bool {
    s.len() >= 2 && s[0] == '\\' && s[1] == c
}

/// The text read once from left to right, with each of the three escapes written out and every
/// other character, a backslash too, as it is.
pub open spec fn written_out(s: Seq<char>) -> Seq<char>
    decreases s.len(),
{
    if s.len() == 0 {
        s
    } else if begins_with_long_escape(s) {
        seq!['\n'] + written_out(s.skip(4))
    } else if begins_with_escape(s, 'n') {
        seq!['\n'] + written_out(s.skip(2))
    } else if begins_with_escape(s, 't') {
        seq!['\t'] + written_out(s.skip(2))
    } else {
        seq![s[0]] + written_out(s.skip(1))
    }
}

/// `c` and then `s`.
spec fn cons(c: char, s: Seq<char>) -> Seq<char> {
    seq![c] + s
}

proof fn lemma_other_first(c: char, s: Seq<char>, pattern: Seq<char>, with: Seq<char>)
    requires
        pattern.len() > 0,
        !pattern.is_prefix_of(cons(c, s)),
    ensures
        replaced(cons(c, s), pattern, with) == cons(c, replaced(s, pattern, with)),
{
    assert(cons(c, s).skip(1) =~= s);
}

proof fn lemma_two_chars(s: Seq<char>, pattern: Seq<char>, a: char, b: char)
    requires
        pattern.len() == 2,
        pattern[0] == a,
        pattern[1] == b,
    ensures
        pattern.is_prefix_of(s) <==> s.len() >= 2 && s[0] == a && s[1] == b,
{
    if s.len() >= 2 {
        if s[0] == a && s[1] == b {
            assert(s.subrange(0, 2) =~= pattern);
        }
        if pattern.is_prefix_of(s) {
            assert(s.subrange(0, 2)[0] == pattern[0] && s.subrange(0, 2)[1] == pattern[1]);
        }
    }
}

proof fn lemma_four_chars(s: Seq<char>)
    ensures
        "\\r\\n"@.is_prefix_of(s) <==> begins_with_long_escape(s),
        "\\r\\n"@.len() == 4,
{
    reveal_strlit("\\r\\n");
    let p = "\\r\\n"@;
    if s.len() >= 4 {
        if begins_with_long_escape(s) {
            assert(s.subrange(0, 4) =~= p);
        }
        if p.is_prefix_of(s) {
            assert(s.subrange(0, 4)[0] == p[0] && s.subrange(0, 4)[1] == p[1] && s.subrange(
                0,
                4,
            )[2] == p[2] && s.subrange(0, 4)[3] == p[3]);
        }
    }
}

spec fn once(s: Seq<char>) -> Seq<char> {
    replaced(s, "\\r\\n"@, "\n"@)
}

spec fn twice(s: Seq<char>) -> Seq<char> {
    replaced(s, "\\n"@, "\n"@)
}

spec fn thrice(s: Seq<char>) -> Seq<char> {
    replaced(s, "\\t"@, "\t"@)
}

proof fn lemma_steps(c: char, s: Seq<char>)
    ensures
        !begins_with_long_escape(cons(c, s)) ==> once(cons(c, s)) == cons(c, once(s)),
        !begins_with_escape(cons(c, s), 'n') ==> twice(cons(c, s)) == cons(c, twice(s)),
        !begins_with_escape(cons(c, s), 't') ==> thrice(cons(c, s)) == cons(c, thrice(s)),
{
    reveal_strlit("\\n");
    reveal_strlit("\\t");
    lemma_four_chars(cons(c, s));
    lemma_two_chars(cons(c, s), "\\n"@, '\\', 'n');
    lemma_two_chars(cons(c, s), "\\t"@, '\\', 't');
    if !begins_with_long_escape(cons(c, s)) {
        lemma_other_first(c, s, "\\r\\n"@, "\n"@);
    }
    if !begins_with_escape(cons(c, s), 'n') {
        lemma_other_first(c, s, "\\n"@, "\n"@);
    }
    if !begins_with_escape(cons(c, s), 't') {
        lemma_other_first(c, s, "\\t"@, "\t"@);
    }
}

/// What the results of the single steps begin with.
proof fn lemma_heads(s: Seq<char>)
    ensures
        s.len() == 0 ==> once(s).len() == 0 && twice(s).len() == 0,
        s.len() > 0 ==> once(s).len() > 0 && (once(s)[0] == s[0] || once(s)[0] == '\n'),
        s.len() > 0 ==> twice(s).len() > 0 && (twice(s)[0] == s[0] || twice(s)[0] == '\n'),
{
    reveal_strlit("\n");
}

proof fn lemma_written_out(s: Seq<char>)
    ensures
        thrice(twice(once(s))) == written_out(s),
    decreases s.len(),
{
    reveal_strlit("\\n");
    reveal_strlit("\\t");
    reveal_strlit("\n");
    reveal_strlit("\t");
    if s.len() > 0 {
        lemma_four_chars(s);
        if begins_with_long_escape(s) {
            let rest = s.skip(4);
            lemma_written_out(rest);
            assert(once(s) =~= cons('\n', once(rest)));
            lemma_steps('\n', once(rest));
            lemma_steps('\n', twice(once(rest)));
        } else {
            let c = s[0];
            let rest = s.skip(1);
            assert(s =~= cons(c, rest));
            lemma_steps(c, rest);
            if begins_with_escape(s, 'n') || begins_with_escape(s, 't') {
                let d = s[1];
                let end = s.skip(2);
                assert(rest =~= cons(d, end));
                lemma_steps(d, end);
                lemma_written_out(end);
                let y = once(end);
                let x = cons(c, cons(d, y));
                assert(once(s) == x);
                assert(x[0] == '\\' && x[1] == d);
                assert(x.skip(2) =~= y);
                lemma_two_chars(x, "\\n"@, '\\', 'n');
                if d == 'n' {
                    assert(twice(x) =~= cons('\n', twice(y)));
                    lemma_steps('\n', twice(y));
                } else {
                    lemma_steps(c, cons(d, y));
                    lemma_steps(d, y);
                    let z = twice(y);
                    let w = cons(c, cons(d, z));
                    assert(twice(x) == w);
                    assert(w[0] == '\\' && w[1] == 't');
                    assert(w.skip(2) =~= z);
                    lemma_two_chars(w, "\\t"@, '\\', 't');
                    assert(thrice(w) =~= cons('\t', thrice(z)));
                }
            } else {
                lemma_written_out(rest);
                lemma_heads(rest);
                let y = once(rest);
                lemma_heads(y);
                assert(once(s) == cons(c, y));
                lemma_steps(c, y);
                assert(!begins_with_escape(cons(c, y), 'n')) by {
                    if begins_with_escape(cons(c, y), 'n') {
                        assert(cons(c, y)[1] == y[0]);
                        assert(rest[0] == s[1]);
                    }
                }
                let z = twice(y);
                lemma_steps(c, z);
                assert(!begins_with_escape(cons(c, z), 't')) by {
                    if begins_with_escape(cons(c, z), 't') {
                        assert(cons(c, z)[1] == z[0]);
                        assert(y[0] == 't');
                        assert(rest[0] == s[1]);
                    }
                }
            }
        }
    }
}

/// The plain form of a body is what is left of it once its ends are trimmed and the shell's
/// dollar sign is gone, read once from left to right with the escapes for line ends and tabs
/// written out. No other backslash, and no other character, changes.
pub proof fn law_plain_form_writes_escapes_out(input: Seq<char>)
    ensures
        plain_body(input) == written_out(without_dollar(trimmed(input))),
{
    lemma_written_out(without_dollar(trimmed(input)));
}

/// The escape for a line end or a tab stands at `i`; that for a line end after the old fashion
/// holds one, too.
pub open spec fn escape_at(s: Seq<char>, i: int) -> bool {
    0 <= i && i + 1 < s.len() && s[i] == '\\' && (s[i + 1] == 'n' || s[i + 1] == 't')
}

/// None of the three escapes occurs in the text.
pub open spec fn no_escape_in(s: Seq<char>) -> bool {
    forall|i: int| !#[trigger] escape_at(s, i)
}

proof fn lemma_nothing_to_write_out(s: Seq<char>)
    requires
        no_escape_in(s),
    ensures
        written_out(s) == s,
    decreases s.len(),
{
    if s.len() > 0 {
        assert(!escape_at(s, 0));
        assert(!escape_at(s, 2));
        let rest = s.skip(1);
        assert forall|i: int| !#[trigger] escape_at(rest, i) by {
            if escape_at(rest, i) {
                assert(escape_at(s, i + 1));
            }
        }
        lemma_nothing_to_write_out(rest);
        assert(seq![s[0]] + rest =~= s);
    }
}

proof fn lemma_no_escape_in_part(s: Seq<char>, a: int, b: int)
    requires
        no_escape_in(s),
        0 <= a <= b <= s.len(),
    ensures
        no_escape_in(s.subrange(a, b)),
{
    let part = s.subrange(a, b);
    assert forall|i: int| !#[trigger] escape_at(part, i) by {
        if escape_at(part, i) {
            assert(escape_at(s, i + a));
        }
    }
}

/// A body without any of the three escapes, whatever other backslashes it holds, only loses its
/// ends and the shell's dollar sign; where that is JSON it is shown and sent as the same document,
/// indented, and else it stays just so.
pub proof fn law_body_without_escapes_is_kept(input: Seq<char>)
    requires
        no_escape_in(input),
    ensures
        plain_body(input) == without_dollar(trimmed(input)),
        pretty_json(without_dollar(trimmed(input))) is Some ==> Some(normalized_body(input))
            == pretty_json(without_dollar(trimmed(input))),
        pretty_json(without_dollar(trimmed(input))) is None ==> normalized_body(input)
            == without_dollar(trimmed(input)),
{
    law_plain_form_writes_escapes_out(input);
    law_trimming_takes_only_spaces(input);
    let (a, b) = choose|a: int, b: int|
        0 <= a <= b <= input.len() && trimmed(input) == #[trigger] input.subrange(a, b)
            && all_spaces(input.take(a)) && all_spaces(input.skip(b));
    lemma_no_escape_in_part(input, a, b);
    let whole = trimmed(input);
    law_only_the_dollar_goes(whole);
    let text = without_dollar(whole);
    if text != whole {
        assert(text =~= whole.subrange(1, whole.len() as int));
        lemma_no_escape_in_part(whole, 1, whole.len() as int);
    }
    lemma_nothing_to_write_out(text);
}

/// A body is indented if its plain form is JSON, and only then.
pub proof fn law_only_json_is_indented(input: Seq<char>)
    ensures
        pretty_json(plain_body(input)) matches Some(indented) ==> normalized_body(input)
            == indented,
        pretty_json(plain_body(input)) is None ==> normalized_body(input) == plain_body(input),
{
}

/// A header value is shown as text if and only if each of its bytes is a visible ASCII character,
/// a space or a tab, and then every byte of it is shown.
pub proof fn law_visible_values_are_shown_whole(bytes: Seq<u8>)
    ensures
        visible_value(bytes) is Some <==> forall|i: int|
            0 <= i < bytes.len() ==> ((32 <= #[trigger] bytes[i] && bytes[i] <= 126) || bytes[i]
                == 9),
        visible_value(bytes) matches Some(text) ==> text.len() == bytes.len() && forall|i: int|
            0 <= i < bytes.len() ==> (#[trigger] text[i]) as u32 == bytes[i] as u32,
{
    if visible_value(bytes) is Some {
        assert forall|i: int| 0 <= i < bytes.len() implies ((32 <= #[trigger] bytes[i] && bytes[i]
            <= 126) || bytes[i] == 9) by {
            assert(is_visible(bytes[i]));
        }
    }
}

/// Of several values of one header the last visible one is shown; if none is visible, none is.
pub proof fn law_last_visible_value_is_shown(values: Seq<Seq<u8>>, k: int)
    requires
        -1 <= k < values.len(),
        k >= 0 ==> visible_value(values[k]) is Some,
        forall|i: int| k < i < values.len() ==> visible_value(#[trigger] values[i]) is None,
    ensures
        last_visible(values) == (if k < 0 {
            None
        } else {
            visible_value(values[k])
        }),
    decreases values.len(),
{
    if values.len() > 0 && k < values.len() - 1 {
        let before = values.drop_last();
        assert(visible_value(values[values.len() - 1]) is None);
        assert forall|i: int| k < i < before.len() implies visible_value(
            #[trigger] before[i],
        ) is None by {
            assert(before[i] == values[i]);
        }
        law_last_visible_value_is_shown(before, k);
    }
}

/// The editor shows a header if and only if it has a visible value, and then that value.
pub proof fn law_shown_headers(headers: HeaderContents, name: Seq<char>)
    ensures
        visible_headers(headers).dom().contains(name) <==> headers.dom().contains(name)
            && last_visible(headers[name]) is Some,
        visible_headers(headers).dom().contains(name) ==> last_visible(headers[name]) == Some(
            visible_headers(headers)[name],
        ),
{
    assert(values_of(headers, name).len() == 0 ==> last_visible(values_of(headers, name)) is None);
}

/// The draft of a request shows its URL and its method as they are, its visible headers as a JSON
/// object, and the text of its body, whatever its bytes are; no body where it has none.
pub proof fn law_draft_shows_the_request(template: TemplateView)
    ensures
        draft_of(template).api_url == template.url,
        draft_of(template).method == template.method,
        draft_of(template).headers_json == json_object_text(visible_headers(template.headers)),
        template.body is None ==> draft_of(template).body.len() == 0,
        template.body matches Some(bytes) ==> draft_of(template).body == normalized_body(
            bytes_text(bytes),
        ),
{
}

/// The members of the header object that was typed: those of the JSON text without white space
/// around it, and none where nothing was typed.
pub proof fn law_typed_members(headers_json: Seq<char>, language: Language)
    ensures
        ({
            let text = trimmed(headers_json);
            let typed = typed_members(headers_json, language);
            &&& text.len() == 0 ==> typed is Ok && typed->Ok_0.len() == 0
            &&& text.len() > 0 && json_members(text) is None ==> typed == Err::<
                Seq<(Seq<char>, bool, Seq<char>)>,
                ErrorView,
            >(ErrorView::Fault(language, I18nKey::HeaderNotJson))
            &&& text.len() > 0 && json_members(text) == Some(
                None::<Seq<(Seq<char>, bool, Seq<char>)>>,
            ) ==> typed == Err::<
                Seq<(Seq<char>, bool, Seq<char>)>,
                ErrorView,
            >(ErrorView::Fault(language, I18nKey::HeaderMustObject))
            &&& text.len() > 0 ==> (json_members(text) matches Some(Some(members)) ==> typed
                == Ok::<Seq<(Seq<char>, bool, Seq<char>)>, ErrorView>(members))
        }),
{
}

/// A member of the header object is faulty if and only if its name is no header name or its text
/// cannot stand in a header; the name is looked at first.
pub proof fn law_faults_of_members(name: Seq<char>, is_text: bool, value: Seq<char>)
    ensures
        !is_header_name(name) ==> member_problem((name, is_text, value)) == Some(
            I18nKey::InvalidHeaderName,
        ),
        is_header_name(name) && !is_header_value(value) ==> member_problem((name, is_text, value))
            == Some(I18nKey::InvalidHeaderValue),
        is_header_name(name) && is_header_value(value) ==> member_problem(
            (name, is_text, value),
        ) is None,
{
}

/// The first faulty member is told, with its name.
pub proof fn law_first_faulty_member_is_told(
    members: Seq<(Seq<char>, bool, Seq<char>)>,
    k: int,
)
    requires
        0 <= k <= members.len(),
        k < members.len() ==> member_problem(members[k]) is Some,
        forall|i: int| 0 <= i < k ==> member_problem(#[trigger] members[i]) is None,
    ensures
        k < members.len() ==> first_faulty(members) == Some(
            (member_problem(members[k])->0, members[k].0),
        ),
        k == members.len() ==> first_faulty(members) is None,
    decreases members.len(),
{
    if members.len() > 0 && k > 0 {
        let rest = members.drop_first();
        assert(member_problem(members[0]) is None);
        assert forall|i: int| 0 <= i < k - 1 implies member_problem(
            #[trigger] rest[i],
        ) is None by {
            assert(rest[i] == members[i + 1]);
        }
        if k < members.len() {
            assert(rest[k - 1] == members[k]);
        }
        law_first_faulty_member_is_told(rest, k - 1);
    }
}

/// Of members with the same header name, whatever its case, the last one counts, with all the
/// bytes of its text.
pub proof fn law_last_member_counts(
    members: Seq<(Seq<char>, bool, Seq<char>)>,
    k: int,
)
    requires
        0 <= k < members.len(),
        forall|i: int|
            k < i < members.len() ==> lowered((#[trigger] members[i]).0) != lowered(members[k].0),
    ensures
        member_headers(members).dom().contains(lowered(members[k].0)),
        member_headers(members)[lowered(members[k].0)] == seq![encode_utf8(members[k].2)],
    decreases members.len(),
{
    if k < members.len() - 1 {
        let before = members.drop_last();
        assert(before[k] == members[k]);
        assert forall|i: int| k < i < before.len() implies lowered((#[trigger] before[i]).0)
            != lowered(before[k].0) by {
            assert(before[i] == members[i]);
        }
        law_last_member_counts(before, k);
        assert(lowered(members[members.len() - 1].0) != lowered(members[k].0));
    }
}

/// There is no header but those that some member gives.
pub proof fn law_only_typed_headers(
    members: Seq<(Seq<char>, bool, Seq<char>)>,
    name: Seq<char>,
)
    ensures
        member_headers(members).dom().contains(name) ==> exists|k: int|
            0 <= k < members.len() && lowered((#[trigger] members[k]).0) == name,
    decreases members.len(),
{
    if members.len() > 0 {
        let before = members.drop_last();
        law_only_typed_headers(before, name);
        if member_headers(before).dom().contains(name) {
            let k = choose|k: int|
                0 <= k < before.len() && lowered((#[trigger] before[k]).0) == name;
            assert(lowered(members[k].0) == name);
        }
        if lowered(members.last().0) == name {
            assert(lowered(members[members.len() - 1].0) == name);
        }
    }
}

/// What a draft sends: the method and the URL without white space around them, the headers of the
/// object, and the body in its normal form if the method carries one and the body is not blank.
pub proof fn law_what_a_draft_sends(draft: DraftView, language: Language)
    requires
        draft_outcome(draft, language) is Ok,
    ensures
        ({
            let sent = draft_outcome(draft, language)->Ok_0;
            &&& sent.method == trimmed(draft.method)
            &&& sent.url == trimmed(draft.api_url)
            &&& typed_members(draft.headers_json, language) matches Ok(members) && sent.headers
                == member_headers(members) && first_faulty(members) is None
            &&& sent.headers == draft_headers(draft, language)
            &&& sent.body is Some <==> sent.method != "GET"@ && sent.method != "HEAD"@ && trimmed(
                draft.body,
            ).len() > 0
            &&& sent.body matches Some(bytes) ==> bytes == encode_utf8(normalized_body(draft.body))
        }),
{
}

/// A draft is refused for what is wrong with it: the method, then the URL, then the header object
/// as a whole, then its first faulty member; and for nothing else.
pub proof fn law_why_drafts_are_refused(draft: DraftView, language: Language)
    ensures
        ({
            let outcome = draft_outcome(draft, language);
            let method_ok = is_token(trimmed(draft.method));
            let url = trimmed(draft.api_url);
            let url_ok = url.len() > 0 && url_authority(url) is Some;
            let typed = typed_members(draft.headers_json, language);
            &&& !method_ok ==> outcome == Err::<TemplateView, ErrorView>(
                ErrorView::Fault(language, I18nKey::InvalidRequestMethod),
            )
            &&& method_ok && url.len() == 0 ==> outcome == Err::<TemplateView, ErrorView>(
                ErrorView::Fault(language, I18nKey::EmptyApiUrl),
            )
            &&& method_ok && url.len() > 0 && url_authority(url) is None ==> outcome == Err::<
                TemplateView,
                ErrorView,
            >(ErrorView::Fault(language, I18nKey::InvalidApiUrl))
            &&& method_ok && url_ok && typed is Err ==> outcome == Err::<TemplateView, ErrorView>(
                typed->Err_0,
            )
            &&& method_ok && url_ok && typed is Ok ==> match first_faulty(typed->Ok_0) {
                Some((key, name)) => outcome == Err::<TemplateView, ErrorView>(
                    ErrorView::HeaderFault(language, key, name),
                ),
                None => outcome is Ok,
            }
        }),
{
}

} // verus!
