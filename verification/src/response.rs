//! The replies the service sends: a status code, a content type and a body.
use crate::text::{append_decimal, decimal};
use vstd::prelude::*;
use vstd::string::*;

verus! {

/// The media type of a reply's body.
#[derive(Clone, Copy, Debug, PartialEq, Eq, Structural)]
pub enum ContentType {
    Plaintext,
    Json,
    Html,
}

/// A reply: an HTTP status code, the type of the body, and the body.
pub struct Reply {
    pub status: u16,
    pub content_type: ContentType,
    pub body: String,
}

/// Whether `r` is the reply with this status, type and body.
pub open spec fn is_reply(r: Reply, status: u16, content_type: ContentType, body: Seq<char>) -> bool {
    &&& r.status == status
    &&& r.content_type == content_type
    &&& r.body@ == body
}

fn reply(status: u16, content_type: ContentType, body: &str) -> (r: Reply)
    ensures
        is_reply(r, status, content_type, body@),
{
    Reply { status, content_type, body: String::from_str(body) }
}

/// 404, plain text: `Not Found`.
pub fn not_found() -> (r: Reply)
    ensures
        is_reply(r, 404, ContentType::Plaintext, "Not Found"@),
{
    reply(404, ContentType::Plaintext, "Not Found")
}

/// 500, plain text: `Internal Server Error`.
pub fn error() -> (r: Reply)
    ensures
        is_reply(r, 500, ContentType::Plaintext, "Internal Server Error"@),
{
    reply(500, ContentType::Plaintext, "Internal Server Error")
}

/// 410, JSON: the pie is sold out.
pub fn gone() -> (r: Reply)
    ensures
        is_reply(
            r,
            410,
            ContentType::Json,
            "{\"error\": \"No more of that pie.  Try something else.\"}"@,
        ),
{
    reply(410, ContentType::Json, "{\"error\": \"No more of that pie.  Try something else.\"}")
}

/// 201, JSON: the purchase went through.
pub fn purchased() -> (r: Reply)
    ensures
        is_reply(r, 201, ContentType::Json, "{\"text\": \"You bought some pie.\"}"@),
{
    reply(201, ContentType::Json, "{\"text\": \"You bought some pie.\"}")
}

/// 429, JSON: more than the allowance was asked for.
pub fn glutton() -> (r: Reply)
    ensures
        is_reply(r, 429, ContentType::Json, "{\"error\": \"Gluttony is discouraged.\"}"@),
{
    reply(429, ContentType::Json, "{\"error\": \"Gluttony is discouraged.\"}")
}

/// 404, JSON: nothing to recommend.
pub fn no_recommends() -> (r: Reply)
    ensures
        is_reply(
            r,
            404,
            ContentType::Json,
            "{\"error\": \"Sorry we don’t have what you’re looking for.  Come back early tomorrow before the crowds come from the best pie selection.\"}"@,
        ),
{
    reply(
        404,
        ContentType::Json,
        "{\"error\": \"Sorry we don’t have what you’re looking for.  Come back early tomorrow before the crowds come from the best pie selection.\"}",
    )
}

/// The body of a recommendation of pie `i`.
pub open spec fn recommend_body(i: usize) -> Seq<char> {
    "{ \"pie_url\": \"http://rust.fanboy.app/pies/"@ + decimal(i as nat) + "\" }"@
}

/// A recommendation names its pie: the body is the pie address prefix,
/// the pie's number in decimal, and the closing `" }`, and the number reads
/// back as the pie.
pub proof fn law_recommend_body_names_pie(i: usize)
    ensures
        recommend_body(i).subrange(0, 42) == "{ \"pie_url\": \"http://rust.fanboy.app/pies/"@,
        recommend_body(i).subrange(42, recommend_body(i).len() - 3) == decimal(i as nat),
        recommend_body(i).subrange(recommend_body(i).len() - 3, recommend_body(i).len() as int)
            == "\" }"@,
        crate::text::parse_u64_spec(recommend_body(i).subrange(42, recommend_body(i).len() - 3))
            == Some(i as u64),
{
    reveal_strlit("{ \"pie_url\": \"http://rust.fanboy.app/pies/");
    reveal_strlit("\" }");
    let b = recommend_body(i);
    let p = "{ \"pie_url\": \"http://rust.fanboy.app/pies/"@;
    assert(p.len() == 42);
    assert(b.subrange(0, 42) =~= p);
    assert(b.subrange(42, b.len() - 3) =~= decimal(i as nat));
    assert(b.subrange(b.len() - 3, b.len() as int) =~= "\" }"@);
    crate::text::law_decimal_round_trip(i as u64);
}

/// 200, JSON: the address of the recommended pie `i`.
pub fn recommend(i: usize) -> (r: Reply)
    ensures
        is_reply(r, 200, ContentType::Json, recommend_body(i)),
{
    let mut body = String::from_str("{ \"pie_url\": \"http://rust.fanboy.app/pies/");
    append_decimal(&mut body, i as u64);
    body.append("\" }");
    Reply { status: 200, content_type: ContentType::Json, body }
}

/// 402, JSON: the amount paid does not match the price.
pub fn bad_math() -> (r: Reply)
    ensures
        is_reply(r, 402, ContentType::Json, "{\"error\": \"You did math wrong.\"}"@),
{
    reply(402, ContentType::Json, "{\"error\": \"You did math wrong.\"}")
}

/// 200, plain text, with the given body.
pub fn text(body: String) -> (r: Reply)
    ensures
        is_reply(r, 200, ContentType::Plaintext, body@),
{
    Reply { status: 200, content_type: ContentType::Plaintext, body }
}

/// 200, JSON, with the given body.
pub fn json(body: String) -> (r: Reply)
    ensures
        is_reply(r, 200, ContentType::Json, body@),
{
    Reply { status: 200, content_type: ContentType::Json, body }
}

/// 200, HTML, with the given body.
pub fn html(body: String) -> (r: Reply)
    ensures
        is_reply(r, 200, ContentType::Html, body@),
{
    Reply { status: 200, content_type: ContentType::Html, body }
}

} // verus!
