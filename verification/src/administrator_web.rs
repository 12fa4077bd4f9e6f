//! The login page, and where visitors without a session are sent.
use crate::http_utils;
use crate::http_utils::{eq_ignore_ascii_case, FieldValue};
use crate::paths;
use crate::response::{Body, BodyView, ErrorEnvelope, Response, ResponseView};
use crate::text;
use crate::text::{decimal_text, replace_text, split_once, split_text, str_eq, trim_blanks};
use vstd::prelude::*;
use vstd::string::*;
use vstd::utf8::*;

verus! {

pub open spec fn all_digits(digits: Seq<char>) -> bool {
    forall|i: int| 0 <= i < digits.len() ==> text::is_digit(#[trigger] digits[i])
}

pub open spec fn all_zeros(digits: Seq<char>) -> bool {
    forall|i: int| 0 <= i < digits.len() ==> #[trigger] digits[i] == '0'
}

/// What a quality is, from what stands before and after its point.
pub open spec fn quality_from(whole: Seq<char>, fraction: Seq<char>) -> Option<bool> {
    if fraction.len() > 3 || !all_digits(fraction) {
        None
    } else if whole == "0"@ {
        Some(!all_zeros(fraction))
    } else if whole == "1"@ {
        Some(all_zeros(fraction))
    } else {
        Some(false)
    }
}

/// The quality of a range is more than zero; `None` where it is not written as a
/// quality. At most three digits follow the point.
pub open spec fn quality_of(value: Seq<char>) -> Option<bool> {
    match text::divided(value, '.') {
        Some((whole, fraction)) => quality_from(whole, fraction),
        None => quality_from(value, Seq::empty()),
    }
}

/// What the parameters of a range say of its quality: nothing, once, or in a way
/// that spoils the range.
pub open spec fn quality_among(parameters: Seq<Seq<char>>) -> Option<Option<bool>>
    decreases parameters.len(),
{
    if parameters.len() == 0 {
        Some(None)
    } else {
        match quality_among(parameters.drop_last()) {
            None => None,
            Some(quality) => match text::divided(parameters.last(), '=') {
                None => None,
                Some((name, value)) => if http_utils::equal_but_case(text::trimmed(name), "q"@) {
                    if quality is Some {
                        None
                    } else {
                        match quality_of(text::trimmed(value)) {
                            None => None,
                            Some(wanted) => Some(Some(wanted)),
                        }
                    }
                } else {
                    Some(quality)
                },
            },
        }
    }
}

/// One range of an accept field wants pages.
pub open spec fn range_wants_html(range: Seq<char>) -> bool {
    let fields = text::split_pieces(range, ';');
    &&& http_utils::equal_but_case(text::trimmed(fields[0]), "text/html"@)
    &&& match quality_among(fields.subrange(1, fields.len() as int)) {
        None => false,
        Some(None) => true,
        Some(Some(wanted)) => wanted,
    }
}

/// The accept fields of a request want pages.
pub open spec fn wants_html(values: Seq<Seq<u8>>) -> bool {
    exists|i: int| 0 <= i < values.len() && #[trigger] value_wants_html(values[i])
}

/// One accept field wants pages.
pub open spec fn value_wants_html(value: Seq<u8>) -> bool {
    match http_utils::visible_text(value) {
        None => false,
        Some(value) => some_range_wants_html(text::split_pieces(value, ',')),
    }
}

pub open spec fn some_range_wants_html(ranges: Seq<Seq<char>>) -> bool {
    exists|i: int| 0 <= i < ranges.len() && #[trigger] range_wants_html(ranges[i])
}

fn read_quality(value: &str) -> (quality: Option<bool>)
    ensures
        quality == quality_of(value@),
{
    let (whole, fraction) = match split_once(value, '.') {
        Some(parts) => parts,
        None => (String::from_str(value), String::new()),
    };
    assert(text::divided(value@, '.') is None ==> fraction@ =~= Seq::empty());
    if fraction.as_str().unicode_len() > 3 {
        return None;
    }
    let mut digits = true;
    let mut zero = true;
    for character in it: fraction.as_str().chars()
        invariant
            it.seq() == fraction@,
            digits == all_digits(fraction@.subrange(0, it.index() as int)),
            zero == all_zeros(fraction@.subrange(0, it.index() as int)),
    {
        let ghost index = it.index() as int;
        let ghost read = fraction@.subrange(0, index);
        let ghost longer = fraction@.subrange(0, index + 1);
        assert(longer[index] == character);
        assert forall|i: int| 0 <= i < index implies longer[i] == read[i] by {}
        proof {
            if all_digits(longer) {
                assert forall|i: int| 0 <= i < index implies text::is_digit(#[trigger] read[i]) by {
                    assert(text::is_digit(longer[i]));
                }
            }
            if all_zeros(longer) {
                assert forall|i: int| 0 <= i < index implies #[trigger] read[i] == '0' by {
                    assert(longer[i] == '0');
                }
            }
        }
        if character < '0' || character > '9' {
            assert(!text::is_digit(longer[index]));
            digits = false;
        }
        if character != '0' {
            assert(longer[index] != '0');
            zero = false;
        }
    }
    assert(fraction@.subrange(0, fraction@.len() as int) =~= fraction@);
    if !digits {
        return None;
    }
    if str_eq(whole.as_str(), "0") {
        Some(!zero)
    } else if str_eq(whole.as_str(), "1") {
        Some(zero)
    } else {
        Some(false)
    }
}

fn read_range(range: &str) -> (wanted: bool)
    ensures
        wanted == range_wants_html(range@),
{
    let fields = split_text(range, ';');
    let ghost pieces = text::split_pieces(range@, ';');
    proof {
        text::lemma_split_has_a_piece(range@, ';');
        assert(text::texts(fields@)[0] == fields@[0]@);
    }
    if !eq_ignore_ascii_case(trim_blanks(fields[0].as_str()).as_str(), "text/html") {
        return false;
    }
    let ghost parameters = pieces.subrange(1, pieces.len() as int);
    let mut quality: Option<bool> = None;
    let mut index: usize = 1;
    assert(parameters.subrange(0, 0) =~= Seq::empty());
    while index < fields.len()
        invariant
            pieces == text::split_pieces(range@, ';'),
            text::texts(fields@) == pieces,
            parameters == pieces.subrange(1, pieces.len() as int),
            http_utils::equal_but_case(text::trimmed(pieces[0]), "text/html"@),
            1 <= index <= fields@.len(),
            quality_among(parameters.subrange(0, index - 1)) == Some(quality),
        decreases fields@.len() - index,
    {
        let ghost longer = parameters.subrange(0, index as int);
        proof {
            assert(longer.drop_last() =~= parameters.subrange(0, index - 1));
            assert(text::texts(fields@)[index as int] == fields@[index as int]@);
            assert(longer.last() == fields@[index as int]@);
            if quality_among(longer) is None {
                lemma_spoiled_ranges_stay_spoiled(parameters, index as int);
            }
        }
        let (name, value) = match split_once(fields[index].as_str(), '=') {
            Some(parts) => parts,
            None => return false,
        };
        if eq_ignore_ascii_case(trim_blanks(name.as_str()).as_str(), "q") {
            if quality.is_some() {
                return false;
            }
            match read_quality(trim_blanks(value.as_str()).as_str()) {
                Some(wanted) => {
                    quality = Some(wanted);
                },
                None => return false,
            }
        }
        index += 1;
    }
    assert(parameters.subrange(0, index - 1) =~= parameters);
    match quality {
        Some(wanted) => wanted,
        None => true,
    }
}

proof fn lemma_spoiled_ranges_stay_spoiled(parameters: Seq<Seq<char>>, length: int)
    requires
        0 <= length <= parameters.len(),
        quality_among(parameters.subrange(0, length)) is None,
    ensures
        quality_among(parameters) is None,
    decreases parameters.len() - length,
{
    if length < parameters.len() {
        let longer = parameters.subrange(0, length + 1);
        assert(longer.drop_last() =~= parameters.subrange(0, length));
        lemma_spoiled_ranges_stay_spoiled(parameters, length + 1);
    } else {
        assert(parameters.subrange(0, length) =~= parameters);
    }
}

fn read_accept_value(value: &FieldValue) -> (wanted: bool)
    ensures
        wanted == value_wants_html(value@),
{
    let value_text = match value.to_text() {
        Some(value_text) => value_text,
        None => return false,
    };
    let ranges = split_text(value_text.as_str(), ',');
    let ghost pieces = text::split_pieces(value_text@, ',');
    let mut index: usize = 0;
    while index < ranges.len()
        invariant
            http_utils::visible_text(value@) == Some(value_text@),
            pieces == text::split_pieces(value_text@, ','),
            text::texts(ranges@) == pieces,
            index <= ranges@.len(),
            forall|i: int| 0 <= i < index ==> !#[trigger] range_wants_html(pieces[i]),
        decreases ranges@.len() - index,
    {
        assert(text::texts(ranges@)[index as int] == ranges@[index as int]@);
        if read_range(ranges[index].as_str()) {
            assert(range_wants_html(pieces[index as int]));
            return true;
        }
        index += 1;
    }
    false
}

/// Tells whether a request wants a page.
pub fn accepts_html(values: &Vec<FieldValue>) -> (accepts: bool)
    ensures
        accepts == wants_html(http_utils::value_bytes(values@)),
{
    let mut index: usize = 0;
    while index < values.len()
        invariant
            index <= values@.len(),
            forall|i: int|
                0 <= i < index ==> !#[trigger] value_wants_html(
                    http_utils::value_bytes(values@)[i],
                ),
        decreases values@.len() - index,
    {
        assert(http_utils::value_bytes(values@)[index as int] == values@[index as int]@);
        if read_accept_value(&values[index]) {
            assert(value_wants_html(http_utils::value_bytes(values@)[index as int]));
            return true;
        }
        index += 1;
    }
    false
}

/// A refused visitor is sent to the login page, where the request was for a page.
pub open spec fn is_sent_to_login(
    status: u16,
    method: Seq<char>,
    accept: Seq<Seq<u8>>,
    api: bool,
) -> bool {
    &&& status == 401
    &&& !api
    &&& method == "GET"@ || method == "HEAD"@
    &&& wants_html(accept)
}

pub open spec fn login_redirect(response: ResponseView) -> ResponseView {
    response.with_status(303).with_body(BodyView::Text(""@)).without_header(
        "content-length"@,
    ).with_header("location"@, "/__dufs__/login"@)
}

/// Sends a refused visitor to the login page.
pub fn redirect_unauthenticated_page(
    response: &mut Response,
    method: &str,
    accept: &Vec<FieldValue>,
    api: bool,
)
    ensures
        final(response)@ == (if is_sent_to_login(
            old(response)@.status,
            method@,
            http_utils::value_bytes(accept@),
            api,
        ) {
            login_redirect(old(response)@)
        } else {
            old(response)@
        }),
{
    if response.status == 401 && !api && (str_eq(method, "GET") || str_eq(method, "HEAD"))
        && accepts_html(accept) {
        response.status = 303;
        response.body = Body::Text(String::from_str(""));
        response.remove_header("content-length");
        response.set_header("location", "/__dufs__/login");
    }
}

/// Nothing but an answer to a visitor without a session is redirected, and never
/// an answer of the interface for programs.
pub proof fn law_only_refused_pages_are_redirected(
    status: u16,
    method: Seq<char>,
    accept: Seq<Seq<u8>>,
    api: bool,
)
    requires
        is_sent_to_login(status, method, accept, api),
    ensures
        status == 401,
        !api,
        accept.len() > 0,
{
}

/// The headers that keep a private page out of caches, frames and scripts of others.
pub open spec fn secured(response: ResponseView) -> ResponseView {
    response.with_header("cache-control"@, "private, no-store"@).with_header(
        "x-content-type-options"@,
        "nosniff"@,
    ).with_header("x-frame-options"@, "DENY"@).with_header(
        "referrer-policy"@,
        "no-referrer"@,
    ).with_header(
        "permissions-policy"@,
        "camera=(), microphone=(), geolocation=(), payment=(), usb=()"@,
    ).with_header(
        "content-security-policy"@,
        "default-src 'none'; script-src 'self'; style-src 'self'; font-src 'self'; img-src 'self'; connect-src 'self'; form-action 'self'; base-uri 'none'; frame-ancestors 'none'"@,
    )
}

pub fn add_private_security_headers(response: &mut Response)
    ensures
        final(response)@ == secured(old(response)@),
{
    response.set_header("cache-control", "private, no-store");
    response.set_header("x-content-type-options", "nosniff");
    response.set_header("x-frame-options", "DENY");
    response.set_header("referrer-policy", "no-referrer");
    response.set_header(
        "permissions-policy",
        "camera=(), microphone=(), geolocation=(), payment=(), usb=()",
    );
    response.set_header(
        "content-security-policy",
        "default-src 'none'; script-src 'self'; style-src 'self'; font-src 'self'; img-src 'self'; connect-src 'self'; form-action 'self'; base-uri 'none'; frame-ancestors 'none'",
    );
}

/// The login page with its placeholders filled in.
pub open spec fn login_page(
    template: Seq<char>,
    assets_prefix: Seq<char>,
    minimum: u64,
    maximum: u64,
) -> Seq<char> {
    text::replaced(
        text::replaced(
            text::replaced(template, "__ASSETS_PREFIX__"@, assets_prefix),
            "__MIN_PASSWORD_BYTES__"@,
            text::decimal(minimum as nat),
        ),
        "__MAX_PASSWORD_BYTES__"@,
        text::decimal(maximum as nat),
    )
}

/// The length of a text in bytes, as a header says it.
pub open spec fn length_text(value: Seq<char>) -> Seq<char> {
    text::decimal(encode_utf8(value).len())
}

pub(crate) fn set_page(response: &mut Response, page: String)
    ensures
        final(response)@ == old(response)@.with_header(
            "content-length"@,
            length_text(page@),
        ).with_body(BodyView::Text(page@)),
{
    let length = page.as_str().as_bytes().len();
    response.set_header("content-length", decimal_text(length as u64).as_str());
    response.body = Body::Text(page);
}

/// Sends the login page, which tells the bounds of a password.
pub fn send_login_page_for_get(
    response: &mut Response,
    template: &str,
    assets_prefix: &str,
    minimum: u64,
    maximum: u64,
)
    ensures
        final(response)@ == ({
            let page = login_page(template@, assets_prefix@, minimum, maximum);
            secured(
                old(response)@.with_header("content-type"@, "text/html; charset=utf-8"@).with_header(
                    "content-length"@,
                    length_text(page),
                ).with_body(BodyView::Text(page)).with_status(200),
            )
        }),
{
    proof {
        reveal_strlit("__ASSETS_PREFIX__");
        reveal_strlit("__MIN_PASSWORD_BYTES__");
        reveal_strlit("__MAX_PASSWORD_BYTES__");
    }
    let addressed = replace_text(template, "__ASSETS_PREFIX__", assets_prefix);
    let bounded = replace_text(
        addressed.as_str(),
        "__MIN_PASSWORD_BYTES__",
        decimal_text(minimum).as_str(),
    );
    let page = replace_text(
        bounded.as_str(),
        "__MAX_PASSWORD_BYTES__",
        decimal_text(maximum).as_str(),
    );
    response.set_header("content-type", "text/html; charset=utf-8");
    set_page(response, page);
    response.status = 200;
    add_private_security_headers(response);
}

/// Answers with an error of the login, which tells nothing of its cause but a code.
pub fn render_administrator_auth_error(
    response: &mut Response,
    status: u16,
    code: &str,
    retryable: bool,
    retry_after: Option<u64>,
)
    ensures
        final(response)@ == ({
            let coded = old(response)@.with_status(status).with_body(
                BodyView::Envelope(code@, "Request could not be completed"@, retryable),
            ).with_header("content-type"@, "application/json"@);
            secured(
                match retry_after {
                    Some(seconds) => coded.with_header(
                        "retry-after"@,
                        text::decimal(seconds as nat),
                    ),
                    None => coded,
                },
            )
        }),
{
    response.status = status;
    response.body = Body::Envelope(
        ErrorEnvelope {
            code: String::from_str(code),
            message: String::from_str("Request could not be completed"),
            retryable,
        },
    );
    response.set_header("content-type", "application/json");
    if let Some(seconds) = retry_after {
        response.set_header("retry-after", decimal_text(seconds).as_str());
    }
    add_private_security_headers(response);
}

/// A quality is a number from zero to one with at most three digits behind its point;
/// what has a quality of zero is not wanted, and anything up to one is.
pub proof fn law_qualities_are_read_as_written(fraction: Seq<char>)
    requires
        fraction.len() <= 3,
        forall|i: int| 0 <= i < fraction.len() ==> '0' <= #[trigger] fraction[i] <= '9',
    ensures
        quality_of("0"@) == Some(false),
        quality_of("1"@) == Some(true),
        quality_of("0"@ + seq!['.'] + fraction) == Some(
            exists|i: int| 0 <= i < fraction.len() && #[trigger] fraction[i] != '0',
        ),
        quality_of("1"@ + seq!['.'] + fraction) == Some(
            forall|i: int| 0 <= i < fraction.len() ==> #[trigger] fraction[i] == '0',
        ),
{
    reveal_strlit("0");
    reveal_strlit("1");
    let nothing = Seq::<char>::empty();
    assert(!"0"@.contains('.') && !"1"@.contains('.'));
    text::law_texts_divide_at_the_first("0"@, fraction, '.');
    text::law_texts_divide_at_the_first("1"@, fraction, '.');
    assert("0"@[0] != "1"@[0]);
    assert(all_digits(nothing) && all_zeros(nothing));
    assert(all_digits(fraction)) by {
        assert forall|i: int| 0 <= i < fraction.len() implies text::is_digit(
            #[trigger] fraction[i],
        ) by {
            assert('0' <= fraction[i] <= '9');
        }
    }
}

/// The parameters of a range say how much it is wanted where one of them is a quality;
/// others are passed over, two qualities spoil the range, and so does what is no
/// parameter at all.
pub proof fn law_parameters_tell_the_quality(
    parameters: Seq<Seq<char>>,
    name: Seq<char>,
    value: Seq<char>,
)
    requires
        !name.contains('='),
    ensures
        quality_among(Seq::<Seq<char>>::empty()) == Some(None::<bool>),
        quality_among(parameters.push(name)) is None,
        quality_among(parameters) is None ==> quality_among(
            parameters.push(name + seq!['='] + value),
        ) is None,
        quality_among(parameters) is Some && !http_utils::equal_but_case(text::trimmed(name), "q"@)
            ==> quality_among(parameters.push(name + seq!['='] + value)) == quality_among(
            parameters,
        ),
        quality_among(parameters) == Some(None::<bool>) && http_utils::equal_but_case(
            text::trimmed(name),
            "q"@,
        ) ==> quality_among(parameters.push(name + seq!['='] + value)) == (match quality_of(
            text::trimmed(value),
        ) {
            Some(wanted) => Some(Some(wanted)),
            None => None,
        }),
        (quality_among(parameters) matches Some(Some(_))) && http_utils::equal_but_case(
            text::trimmed(name),
            "q"@,
        ) ==> quality_among(parameters.push(name + seq!['='] + value)) is None,
{
    let parameter = name + seq!['='] + value;
    assert(parameters.push(parameter).drop_last() =~= parameters);
    assert(parameters.push(name).drop_last() =~= parameters);
    text::law_texts_divide_at_the_first(name, value, '=');
}

/// A range wants pages where its type is that of pages, however its letters are written,
/// and its parameters do not say otherwise.
pub proof fn law_page_ranges_are_wanted(kind: Seq<char>, parameters: Seq<Seq<char>>)
    requires
        !kind.contains(';'),
        forall|i: int| 0 <= i < parameters.len() ==> !(#[trigger] parameters[i]).contains(';'),
    ensures
        range_wants_html(paths::joined(seq![kind] + parameters, ';')) <==> {
            &&& http_utils::equal_but_case(text::trimmed(kind), "text/html"@)
            &&& quality_among(parameters) is Some
            &&& quality_among(parameters) != Some(Some(false))
        },
{
    let fields = seq![kind] + parameters;
    assert forall|i: int| 0 <= i < fields.len() implies !(#[trigger] fields[i]).contains(';') by {
        if i > 0 {
            assert(fields[i] == parameters[i - 1]);
        }
    }
    text::lemma_split_of_joined(fields, ';');
    assert(fields.subrange(1, fields.len() as int) =~= parameters);
}

/// The accept fields of a request want pages where one of them does, and a field does
/// where one of its ranges does.
pub proof fn law_one_range_is_enough(
    values: Seq<Seq<u8>>,
    others: Seq<Seq<u8>>,
    ranges: Seq<Seq<char>>,
    more: Seq<Seq<char>>,
)
    ensures
        wants_html(values + others) <==> wants_html(values) || wants_html(others),
        !wants_html(Seq::<Seq<u8>>::empty()),
        some_range_wants_html(ranges + more) <==> some_range_wants_html(ranges)
            || some_range_wants_html(more),
        ranges.len() == 1 ==> (some_range_wants_html(ranges) <==> range_wants_html(ranges[0])),
        values.len() == 1 ==> (wants_html(values) <==> value_wants_html(values[0])),
{
    let all = values + others;
    if wants_html(values) {
        let i = choose|i: int| 0 <= i < values.len() && #[trigger] value_wants_html(values[i]);
        assert(all[i] == values[i]);
        assert(value_wants_html(all[i]));
    }
    if wants_html(others) {
        let i = choose|i: int| 0 <= i < others.len() && #[trigger] value_wants_html(others[i]);
        assert(all[values.len() + i] == others[i]);
        assert(value_wants_html(all[values.len() + i]));
    }
    if wants_html(all) {
        let i = choose|i: int| 0 <= i < all.len() && #[trigger] value_wants_html(all[i]);
        if i < values.len() {
            assert(value_wants_html(values[i]));
        } else {
            assert(value_wants_html(others[i - values.len()]));
        }
    }
    let every = ranges + more;
    if some_range_wants_html(ranges) {
        let i = choose|i: int| 0 <= i < ranges.len() && #[trigger] range_wants_html(ranges[i]);
        assert(every[i] == ranges[i]);
        assert(range_wants_html(every[i]));
    }
    if some_range_wants_html(more) {
        let i = choose|i: int| 0 <= i < more.len() && #[trigger] range_wants_html(more[i]);
        assert(every[ranges.len() + i] == more[i]);
        assert(range_wants_html(every[ranges.len() + i]));
    }
    if some_range_wants_html(every) {
        let i = choose|i: int| 0 <= i < every.len() && #[trigger] range_wants_html(every[i]);
        if i < ranges.len() {
            assert(range_wants_html(ranges[i]));
        } else {
            assert(range_wants_html(more[i - ranges.len()]));
        }
    }
    if ranges.len() == 1 && range_wants_html(ranges[0]) {
        assert(some_range_wants_html(ranges));
    }
    if values.len() == 1 && value_wants_html(values[0]) {
        assert(wants_html(values));
    }
}

/// Every visitor without a session who asked to see a page is sent to the login page.
pub proof fn law_refused_visitors_are_sent_to_login(
    method: Seq<char>,
    accept: Seq<Seq<u8>>,
    response: ResponseView,
)
    ensures
        method == "GET"@ || method == "HEAD"@ ==> (is_sent_to_login(401, method, accept, false)
            <==> wants_html(accept)),
        method != "GET"@ && method != "HEAD"@ ==> !is_sent_to_login(401, method, accept, false),
        login_redirect(response).status == 303,
        login_redirect(response).headers["location"@] == "/__dufs__/login"@,
        login_redirect(response).body == BodyView::Text(""@),
        !login_redirect(response).headers.contains_key("content-length"@),
{
    reveal_strlit("location");
    reveal_strlit("content-length");
    assert("location"@.len() != "content-length"@.len());
}

/// A private page is kept out of caches and of frames, and sends no referrer.
pub proof fn law_private_pages_are_secured(response: ResponseView)
    ensures
        secured(response).headers["cache-control"@] == "private, no-store"@,
        secured(response).headers["x-content-type-options"@] == "nosniff"@,
        secured(response).headers["x-frame-options"@] == "DENY"@,
        secured(response).headers["referrer-policy"@] == "no-referrer"@,
        secured(response).status == response.status,
        secured(response).body == response.body,
{
    reveal_strlit("cache-control");
    reveal_strlit("x-content-type-options");
    reveal_strlit("x-frame-options");
    reveal_strlit("referrer-policy");
    reveal_strlit("permissions-policy");
    reveal_strlit("content-security-policy");
    assert("cache-control"@.len() == 13);
    assert("x-content-type-options"@.len() == 22);
    assert("x-frame-options"@.len() == 15 && "x-frame-options"@[0] == 'x');
    assert("referrer-policy"@.len() == 15 && "referrer-policy"@[0] == 'r');
    assert("permissions-policy"@.len() == 18);
    assert("content-security-policy"@.len() == 23);
}

/// The login page tells the least and the most bytes of a password, each in its place.
pub proof fn law_login_pages_tell_the_bounds(
    before: Seq<char>,
    after: Seq<char>,
    assets_prefix: Seq<char>,
    minimum: u64,
    maximum: u64,
)
    ensures
        text::lacks(before + "__MIN_PASSWORD_BYTES__"@ + after, "__ASSETS_PREFIX__"@)
            && text::is_first_between(before, "__MIN_PASSWORD_BYTES__"@, after) && text::lacks(
            after,
            "__MIN_PASSWORD_BYTES__"@,
        ) && text::lacks(
            before + text::decimal(minimum as nat) + after,
            "__MAX_PASSWORD_BYTES__"@,
        ) ==> login_page(
            before + "__MIN_PASSWORD_BYTES__"@ + after,
            assets_prefix,
            minimum,
            maximum,
        ) == before + text::decimal(minimum as nat) + after,
        text::lacks(before + "__MAX_PASSWORD_BYTES__"@ + after, "__ASSETS_PREFIX__"@) && text::lacks(
            before + "__MAX_PASSWORD_BYTES__"@ + after,
            "__MIN_PASSWORD_BYTES__"@,
        ) && text::is_first_between(before, "__MAX_PASSWORD_BYTES__"@, after) && text::lacks(
            after,
            "__MAX_PASSWORD_BYTES__"@,
        ) ==> login_page(
            before + "__MAX_PASSWORD_BYTES__"@ + after,
            assets_prefix,
            minimum,
            maximum,
        ) == before + text::decimal(maximum as nat) + after,
{
    reveal_strlit("__MIN_PASSWORD_BYTES__");
    reveal_strlit("__MAX_PASSWORD_BYTES__");
    let least = before + "__MIN_PASSWORD_BYTES__"@ + after;
    let most = before + "__MAX_PASSWORD_BYTES__"@ + after;
    let (low, high) = (text::decimal(minimum as nat), text::decimal(maximum as nat));
    if text::lacks(least, "__ASSETS_PREFIX__"@) && text::is_first_between(
        before,
        "__MIN_PASSWORD_BYTES__"@,
        after,
    ) && text::lacks(after, "__MIN_PASSWORD_BYTES__"@) && text::lacks(
        before + low + after,
        "__MAX_PASSWORD_BYTES__"@,
    ) {
        text::law_other_texts_stay(least, "__ASSETS_PREFIX__"@, assets_prefix);
        text::law_single_occurrences_are_replaced(before, "__MIN_PASSWORD_BYTES__"@, after, low);
        text::law_other_texts_stay(before + low + after, "__MAX_PASSWORD_BYTES__"@, high);
    }
    if text::lacks(most, "__ASSETS_PREFIX__"@) && text::lacks(most, "__MIN_PASSWORD_BYTES__"@)
        && text::is_first_between(before, "__MAX_PASSWORD_BYTES__"@, after) && text::lacks(
        after,
        "__MAX_PASSWORD_BYTES__"@,
    ) {
        text::law_other_texts_stay(most, "__ASSETS_PREFIX__"@, assets_prefix);
        text::law_other_texts_stay(most, "__MIN_PASSWORD_BYTES__"@, low);
        text::law_single_occurrences_are_replaced(before, "__MAX_PASSWORD_BYTES__"@, after, high);
    }
}

/// An accept field that is no visible text wants no pages, and one that is wants them
/// where one of its ranges does.
pub proof fn law_unreadable_fields_want_nothing(value: Seq<u8>)
    ensures
        http_utils::visible_text(value) is None ==> !value_wants_html(value),
        http_utils::visible_text(value) matches Some(shown) ==> (value_wants_html(value)
            <==> some_range_wants_html(text::split_pieces(shown, ','))),
{
}

/// A text is all digits just where each of its characters is one.
pub proof fn law_digits_are_all_looked_at(digits: Seq<char>, more: char)
    ensures
        all_digits(Seq::<char>::empty()),
        all_digits(digits.push(more)) <==> all_digits(digits) && '0' <= more <= '9',
{
    let longer = digits.push(more);
    if all_digits(longer) {
        assert(text::is_digit(longer[digits.len() as int]));
        assert forall|i: int| 0 <= i < digits.len() implies text::is_digit(
            #[trigger] digits[i],
        ) by {
            assert(longer[i] == digits[i]);
        }
    }
}

} // verus!
