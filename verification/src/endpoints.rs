//! The decisions of the request handlers: which pie a path names, in which
//! form a pie page is wanted, what a purchase request asks for, and how a
//! purchase is answered.
use crate::purchase::PurchaseStatus;
use crate::response::{bad_math, error, gone, glutton, html, is_reply, purchased, ContentType, Reply};
use crate::text::{
    decimal, law_decimal_round_trip, law_decimal_round_trip_i64, lemma_decimal_digits, is_digit,
    law_strip_suffixes_exact,
    ends_with, parse_i64, parse_i64_spec, parse_u64, parse_u64_spec, str_ends_with, strip_suffixes,
    strip_trailing, trim, trimmed_equals,
};
use vstd::prelude::*;
use vstd::string::*;

verus! {

/// The pie id in the last segment of a pie's path: the segment with every
/// trailing `.json` taken off, read as a `u64`.
pub fn pie_id_from_segment(segment: &str) -> (r: Option<u64>)
    ensures
        r == parse_u64_spec(strip_suffixes(segment@, ".json"@)),
{
    proof {
        reveal_strlit(".json");
    }
    let id_text = strip_trailing(segment, ".json");
    parse_u64(id_text)
}

/// The segment of a pie's id in decimal, with or without `.json` after it,
/// names that pie.
pub proof fn law_pie_id_of_decimal(n: u64)
    ensures
        parse_u64_spec(strip_suffixes(decimal(n as nat), ".json"@)) == Some(n),
        parse_u64_spec(strip_suffixes(decimal(n as nat) + ".json"@, ".json"@)) == Some(n),
{
    reveal_strlit(".json");
    let d = decimal(n as nat);
    let j = ".json"@;
    lemma_decimal_digits(n as nat);
    assert(is_digit(d[d.len() - 1]));
    if j.len() <= d.len() {
        let t = d.subrange(d.len() - j.len(), d.len() as int);
        assert(t[4] == d[d.len() - 1]);
        assert(t != j);
    }
    assert(strip_suffixes(d, j) == d);
    law_strip_suffixes_exact(d, j);
    law_decimal_round_trip(n);
}

/// The form in which a pie's page is asked for.
#[derive(Clone, Copy, Debug, PartialEq, Eq, Structural)]
pub enum PageFormat {
    /// The path ends in `json`.
    Json,
    /// Any other path.
    Html,
    /// The path has no segment.
    Missing,
}

/// The form wanted, by the last segment of the path.
pub open spec fn page_format_spec(last: Option<Seq<char>>) -> PageFormat {
    match last {
        Some(x) => if ends_with(x, "json"@) {
            PageFormat::Json
        } else {
            PageFormat::Html
        },
        None => PageFormat::Missing,
    }
}

/// The form wanted, by the last segment of the path.
pub fn page_format(last: Option<&str>) -> (r: PageFormat)
    ensures
        r == page_format_spec(
            match last {
                Some(x) => Some(x@),
                None => None,
            },
        ),
{
    match last {
        Some(x) => {
            if str_ends_with(x, "json") {
                PageFormat::Json
            } else {
                PageFormat::Html
            }
        },
        None => PageFormat::Missing,
    }
}

/// A rendered pie page wrapped in `<html>` and `</html>`, as an HTML reply.
pub fn html_page(inner: &str) -> (r: Reply)
    ensures
        is_reply(r, 200, ContentType::Html, "<html>"@ + inner@ + "</html>"@),
{
    let mut body = String::from_str("<html>");
    body.append(inner);
    body.append("</html>");
    html(body)
}

/// The names and values of a query, as characters.
pub open spec fn pairs_view(pairs: Seq<(String, String)>) -> Seq<(Seq<char>, Seq<char>)> {
    pairs.map_values(|p: (String, String)| (p.0@, p.1@))
}

/// The value of the last pair whose name, trimmed of white space, is `name`.
pub open spec fn last_value(pairs: Seq<(Seq<char>, Seq<char>)>, name: Seq<char>) -> Option<Seq<char>>
    decreases pairs.len(),
{
    if pairs.len() == 0 {
        None
    } else if trim(pairs.last().0) == name {
        Some(pairs.last().1)
    } else {
        last_value(pairs.drop_last(), name)
    }
}

/// The value found for a name is that of the last pair whose trimmed name
/// is that name; when no pair has the name, nothing is found.
pub proof fn law_last_value_is_last(pairs: Seq<(Seq<char>, Seq<char>)>, name: Seq<char>)
    ensures
        last_value(pairs, name) is None <==> (forall|i: int|
            0 <= i < pairs.len() ==> trim(#[trigger] pairs[i].0) != name),
        last_value(pairs, name) matches Some(v) ==> exists|i: int|
            0 <= i < pairs.len() && trim(#[trigger] pairs[i].0) == name && pairs[i].1 == v && (
            forall|j: int| i < j < pairs.len() ==> trim(#[trigger] pairs[j].0) != name),
    decreases pairs.len(),
{
    if pairs.len() > 0 {
        let p = pairs.drop_last();
        law_last_value_is_last(p, name);
        assert forall|i: int| 0 <= i < p.len() implies #[trigger] p[i] == pairs[i] by {}
        if trim(pairs.last().0) == name {
            let i = pairs.len() - 1;
            assert(trim(pairs[i].0) == name && pairs[i].1 == pairs.last().1);
        } else if last_value(p, name) is Some {
            let i = choose|i: int|
                0 <= i < p.len() && trim(#[trigger] p[i].0) == name && p[i].1 == last_value(p, name)->0 && (
                forall|j: int| i < j < p.len() ==> trim(#[trigger] p[j].0) != name);
            assert(pairs[i] == p[i]);
            assert forall|j: int| i < j < pairs.len() implies trim(#[trigger] pairs[j].0) != name by {
                if j < p.len() {
                    assert(pairs[j] == p[j]);
                }
            }
        } else {
            assert forall|i: int| 0 <= i < pairs.len() implies trim(#[trigger] pairs[i].0) != name by {
                if i < p.len() {
                    assert(pairs[i] == p[i]);
                }
            }
        }
    }
}

/// The slice count a query asks for: one unless a `slices` pair is given,
/// else what its last value reads as an `i64`, if anything.
pub open spec fn slices_param(pairs: Seq<(Seq<char>, Seq<char>)>) -> Option<i64> {
    match last_value(pairs, "slices"@) {
        Some(v) => parse_i64_spec(v),
        None => Some(1),
    }
}

/// What a purchase request asks for. The amount is kept as the text of the
/// last `amount` value; it is a price and is read as a number by the caller.
pub struct PurchaseParams {
    pub username: Option<String>,
    pub amount: Option<String>,
    pub slices: Option<i64>,
}

/// The characters of an optional string.
pub open spec fn opt_view(s: Option<String>) -> Option<Seq<char>> {
    match s {
        Some(x) => Some(x@),
        None => None,
    }
}

/// The parameters of a purchase from the query pairs: for each name the last
/// pair that carries it wins.
pub fn purchase_params(pairs: &Vec<(String, String)>) -> (r: PurchaseParams)
    ensures
        opt_view(r.username) == last_value(pairs_view(pairs@), "username"@),
        opt_view(r.amount) == last_value(pairs_view(pairs@), "amount"@),
        r.slices == slices_param(pairs_view(pairs@)),
{
    let ghost pv = pairs_view(pairs@);
    let mut username: Option<String> = None;
    let mut amount: Option<String> = None;
    let mut slices: Option<i64> = Some(1);
    let mut i: usize = 0;
    while i < pairs.len()
        invariant
            pv == pairs_view(pairs@),
            i <= pairs.len(),
            opt_view(username) == last_value(pv.take(i as int), "username"@),
            opt_view(amount) == last_value(pv.take(i as int), "amount"@),
            slices == slices_param(pv.take(i as int)),
        decreases pairs.len() - i,
    {
        let name = pairs[i].0.as_str();
        let value = &pairs[i].1;
        proof {
            assert(pv.take(i + 1).drop_last() =~= pv.take(i as int));
            assert(pv.take(i + 1).last() == pv[i as int]);
            reveal_strlit("username");
            reveal_strlit("amount");
            reveal_strlit("slices");
            assert("username"@.len() != "amount"@.len());
            assert("username"@.len() != "slices"@.len());
            assert("amount"@[0] != "slices"@[0]);
        }
        if trimmed_equals(name, "username") {
            username = Some(value.clone());
        } else if trimmed_equals(name, "amount") {
            amount = Some(value.clone());
        } else if trimmed_equals(name, "slices") {
            slices = parse_i64(value.as_str());
        }
        i = i + 1;
    }
    assert(pv.take(i as int) =~= pv);
    PurchaseParams { username, amount, slices }
}

/// The name and value pairs that `url::form_urlencoded::parse` reads from a
/// query string.
pub uninterp spec fn form_pairs(query: Seq<char>) -> Seq<(Seq<char>, Seq<char>)>;

/// `url::form_urlencoded::parse`: splits the query at `&` and each piece at
/// its first `=`, turns `+` into a space and percent-decodes. The pairs are
/// named, not spelled out: they are a function of the query alone.
#[verifier::external_body]
fn query_pairs(query: &str) -> (r: Vec<(String, String)>)
    ensures
        pairs_view(r@) == form_pairs(query@),
{
    url::form_urlencoded::parse(query.as_bytes()).into_owned().collect()
}

/// The pairs of a request's query; `None` when the request has no query.
pub fn query_listing(query: Option<&str>) -> (r: Option<Vec<(String, String)>>)
    ensures
        match query {
            None => r is None,
            Some(q) => r matches Some(v) && pairs_view(v@) == form_pairs(q@),
        },
{
    match query {
        Some(q) => Some(query_pairs(q)),
        None => None,
    }
}

/// The parameters of a purchase from a request's query; `None` when the
/// request has no query.
pub fn purchase_request(query: Option<&str>) -> (r: Option<PurchaseParams>)
    ensures
        match query {
            None => r is None,
            Some(q) => r matches Some(p) && opt_view(p.username) == last_value(
                form_pairs(q@),
                "username"@,
            ) && opt_view(p.amount) == last_value(form_pairs(q@), "amount"@) && p.slices
                == slices_param(form_pairs(q@)),
        },
{
    match query {
        Some(q) => {
            let pairs = query_pairs(q);
            Some(purchase_params(&pairs))
        },
        None => None,
    }
}

/// How a purchase request is to be answered.
#[derive(Clone, Copy, Debug, PartialEq, Eq, Structural)]
pub enum PurchaseRequest {
    /// A user, an amount and a slice count: check the price, then buy.
    Complete { slices: i64 },
    /// A user but no amount that reads as a price.
    BadMath,
    /// Anything else.
    Malformed,
}

/// Sorts a purchase request by what it holds: whether a user is named,
/// whether the amount reads as a number, and the slice count.
pub fn classify_purchase(has_username: bool, has_amount: bool, slices: Option<i64>) -> (r:
    PurchaseRequest)
    ensures
        r == (if has_username && has_amount && slices is Some {
            PurchaseRequest::Complete { slices: slices->0 }
        } else if has_username && !has_amount {
            PurchaseRequest::BadMath
        } else {
            PurchaseRequest::Malformed
        }),
{
    match (has_username, has_amount, slices) {
        (true, true, Some(s)) => PurchaseRequest::Complete { slices: s },
        (true, false, _) => PurchaseRequest::BadMath,
        (_, _, _) => PurchaseRequest::Malformed,
    }
}

/// The reply to a finished purchase: bought, too much, or sold out.
pub fn status_reply(status: PurchaseStatus) -> (r: Reply)
    ensures
        status == PurchaseStatus::Success ==> is_reply(
            r,
            201,
            ContentType::Json,
            "{\"text\": \"You bought some pie.\"}"@,
        ),
        status == PurchaseStatus::Fatty ==> is_reply(
            r,
            429,
            ContentType::Json,
            "{\"error\": \"Gluttony is discouraged.\"}"@,
        ),
        status == PurchaseStatus::Gone ==> is_reply(
            r,
            410,
            ContentType::Json,
            "{\"error\": \"No more of that pie.  Try something else.\"}"@,
        ),
{
    match status {
        PurchaseStatus::Success => purchased(),
        PurchaseStatus::Fatty => glutton(),
        PurchaseStatus::Gone => gone(),
    }
}

/// A query without a `slices` pair asks for the same purchase as that query
/// with `slices=1` added: the same user, amount and slice count.
pub proof fn law_default_slices_is_one(pairs: Seq<(Seq<char>, Seq<char>)>)
    requires
        last_value(pairs, "slices"@) is None,
    ensures
        last_value(pairs.push(("slices"@, "1"@)), "username"@) == last_value(pairs, "username"@),
        last_value(pairs.push(("slices"@, "1"@)), "amount"@) == last_value(pairs, "amount"@),
        slices_param(pairs.push(("slices"@, "1"@))) == slices_param(pairs),
{
    reveal_strlit("slices");
    reveal_strlit("username");
    reveal_strlit("amount");
    reveal_strlit("1");
    let q = pairs.push(("slices"@, "1"@));
    assert(q.drop_last() =~= pairs);
    assert(trim("slices"@) == "slices"@) by {
        reveal_with_fuel(crate::text::trim_start, 2);
        reveal_with_fuel(crate::text::trim_end, 2);
        assert(!crate::text::is_whitespace("slices"@[0]));
        assert(!crate::text::is_whitespace("slices"@.last()));
    }
    assert("username"@.len() != "slices"@.len());
    assert("amount"@[0] != "slices"@[0]);
    let one = "1"@;
    assert(one.len() == 1 && one[0] == '1');
    assert(one.drop_last() =~= Seq::<char>::empty());
    assert(crate::text::digits_value(one) == crate::text::digits_value(one.drop_last()) * 10
        + crate::text::digit_value(one.last()));
    assert(crate::text::all_digits(one));
}

/// The slice count to buy, when the request is complete and the amount paid
/// matches the price; else `None`, and nothing is bought.
pub fn slices_to_buy(kind: PurchaseRequest, price_matches: bool) -> (r: Option<i64>)
    ensures
        r == (match kind {
            PurchaseRequest::Complete { slices } => if price_matches {
                Some(slices)
            } else {
                None
            },
            _ => None,
        }),
{
    match kind {
        PurchaseRequest::Complete { slices } => {
            if price_matches {
                Some(slices)
            } else {
                None
            }
        },
        _ => None,
    }
}

/// The reply to a purchase request: for a complete request whose amount
/// matches the price, the reply to the purchase's status (an error if no
/// status is given); a complete request that pays wrongly, or one without an
/// amount, is bad math; anything else is an error.
pub fn purchase_reply(kind: PurchaseRequest, price_matches: bool, status: Option<PurchaseStatus>) -> (r: Reply)
    ensures
        (kind is Complete && price_matches) ==> match status {
            Some(s) => (s == PurchaseStatus::Success ==> is_reply(
                r,
                201,
                ContentType::Json,
                "{\"text\": \"You bought some pie.\"}"@,
            )) && (s == PurchaseStatus::Fatty ==> is_reply(
                r,
                429,
                ContentType::Json,
                "{\"error\": \"Gluttony is discouraged.\"}"@,
            )) && (s == PurchaseStatus::Gone ==> is_reply(
                r,
                410,
                ContentType::Json,
                "{\"error\": \"No more of that pie.  Try something else.\"}"@,
            )),
            None => is_reply(r, 500, ContentType::Plaintext, "Internal Server Error"@),
        },
        ((kind is Complete && !price_matches) || kind is BadMath) ==> is_reply(
            r,
            402,
            ContentType::Json,
            "{\"error\": \"You did math wrong.\"}"@,
        ),
        kind is Malformed ==> is_reply(r, 500, ContentType::Plaintext, "Internal Server Error"@),
{
    match kind {
        PurchaseRequest::Complete { .. } => {
            if price_matches {
                match status {
                    Some(s) => status_reply(s),
                    None => error(),
                }
            } else {
                bad_math()
            }
        },
        PurchaseRequest::BadMath => bad_math(),
        PurchaseRequest::Malformed => error(),
    }
}

/// A segment asks for JSON exactly when its last four characters are
/// `json`; any other segment asks for HTML.
pub proof fn law_page_format_by_suffix(x: Seq<char>)
    ensures
        page_format_spec(Some(x)) == PageFormat::Json <==> (x.len() >= 4 && x[x.len() - 4] == 'j'
            && x[x.len() - 3] == 's' && x[x.len() - 2] == 'o' && x[x.len() - 1] == 'n'),
        page_format_spec(Some(x)) != PageFormat::Json ==> page_format_spec(Some(x))
            == PageFormat::Html,
        page_format_spec(None) == PageFormat::Missing,
{
    reveal_strlit("json");
    let j = "json"@;
    if x.len() >= 4 && x[x.len() - 4] == 'j' && x[x.len() - 3] == 's' && x[x.len() - 2] == 'o'
        && x[x.len() - 1] == 'n' {
        assert(x.subrange(x.len() - 4, x.len() as int) =~= j);
    } else if x.len() >= 4 {
        let t = x.subrange(x.len() - 4, x.len() as int);
        assert(t[0] == x[x.len() - 4]);
        assert(t[1] == x[x.len() - 3]);
        assert(t[2] == x[x.len() - 2]);
        assert(t[3] == x[x.len() - 1]);
    }
}

/// The slice count is what the last `slices` value reads as an `i64`, and
/// one when there is none; a query whose last `slices` value is the decimal
/// form of a count asks for exactly that count.
pub proof fn law_slices_read_exactly(pairs: Seq<(Seq<char>, Seq<char>)>, n: i64)
    ensures
        last_value(pairs, "slices"@) is None ==> slices_param(pairs) == Some(1i64),
        last_value(pairs, "slices"@) matches Some(v) ==> slices_param(pairs) == parse_i64_spec(v),
        (n >= 0 && last_value(pairs, "slices"@) == Some(decimal(n as nat))) ==> slices_param(pairs)
            == Some(n),
        (n < 0 && last_value(pairs, "slices"@) == Some(seq!['-'] + decimal((-n) as nat)))
            ==> slices_param(pairs) == Some(n),
{
    law_decimal_round_trip_i64(n);
}

} // verus!
