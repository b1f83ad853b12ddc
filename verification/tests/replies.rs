use pie_bakeoff::endpoints::{
    classify_purchase, html_page, page_format, pie_id_from_segment, purchase_params, purchase_reply,
    slices_to_buy, status_reply, PageFormat, PurchaseRequest,
};
use pie_bakeoff::purchase::PurchaseStatus;
use pie_bakeoff::response::{
    bad_math, error, glutton, gone, html, json, no_recommends, not_found, purchased, recommend,
    text, ContentType, Reply,
};

fn parts(r: Reply) -> (u16, ContentType, String) {
    (r.status, r.content_type, r.body)
}

#[test]
fn fixed_replies() {
    assert_eq!(parts(not_found()), (404, ContentType::Plaintext, "Not Found".to_string()));
    assert_eq!(parts(error()), (500, ContentType::Plaintext, "Internal Server Error".to_string()));
    assert_eq!(
        parts(gone()),
        (410, ContentType::Json, "{\"error\": \"No more of that pie.  Try something else.\"}".to_string())
    );
    assert_eq!(parts(purchased()), (201, ContentType::Json, "{\"text\": \"You bought some pie.\"}".to_string()));
    assert_eq!(parts(glutton()), (429, ContentType::Json, "{\"error\": \"Gluttony is discouraged.\"}".to_string()));
    assert_eq!(parts(bad_math()), (402, ContentType::Json, "{\"error\": \"You did math wrong.\"}".to_string()));
    let r = no_recommends();
    assert_eq!(r.status, 404);
    assert!(r.body.contains("don’t have what you’re looking for"));
}

#[test]
fn recommendation_reply_names_the_pie() {
    assert_eq!(
        parts(recommend(17)),
        (200, ContentType::Json, "{ \"pie_url\": \"http://rust.fanboy.app/pies/17\" }".to_string())
    );
}

#[test]
fn body_replies() {
    assert_eq!(parts(text("hello".to_string())), (200, ContentType::Plaintext, "hello".to_string()));
    assert_eq!(parts(json("{}".to_string())), (200, ContentType::Json, "{}".to_string()));
    assert_eq!(parts(html("<p/>".to_string())), (200, ContentType::Html, "<p/>".to_string()));
    assert_eq!(parts(html_page("<h1>x</h1>")), (200, ContentType::Html, "<html><h1>x</h1></html>".to_string()));
}

#[test]
fn pie_ids_from_paths() {
    assert_eq!(pie_id_from_segment("12"), Some(12));
    assert_eq!(pie_id_from_segment("12.json"), Some(12));
    assert_eq!(pie_id_from_segment("12.json.json"), Some(12));
    assert_eq!(pie_id_from_segment("twelve"), None);
    assert_eq!(pie_id_from_segment(".json"), None);
}

#[test]
fn page_formats() {
    assert_eq!(page_format(Some("12.json")), PageFormat::Json);
    assert_eq!(page_format(Some("12json")), PageFormat::Json);
    assert_eq!(page_format(Some("12")), PageFormat::Html);
    assert_eq!(page_format(None), PageFormat::Missing);
}

fn pairs(v: &[(&str, &str)]) -> Vec<(String, String)> {
    v.iter().map(|(a, b)| (a.to_string(), b.to_string())).collect()
}

#[test]
fn purchase_parameters_take_the_last_of_each_name() {
    let p = purchase_params(&pairs(&[
        ("username", "ann"),
        (" amount ", "4.5"),
        ("slices", "2"),
        ("username", "bo"),
        ("other", "x"),
    ]));
    assert_eq!(p.username.as_deref(), Some("bo"));
    assert_eq!(p.amount.as_deref(), Some("4.5"));
    assert_eq!(p.slices, Some(2));
    let q = purchase_params(&pairs(&[("username", "ann")]));
    assert_eq!(q.slices, Some(1));
    assert_eq!(q.amount, None);
    let r = purchase_params(&pairs(&[("slices", "two")]));
    assert_eq!(r.slices, None);
    assert_eq!(r.username, None);
}

#[test]
fn purchase_requests_are_classified() {
    assert_eq!(classify_purchase(true, true, Some(2)), PurchaseRequest::Complete { slices: 2 });
    assert_eq!(classify_purchase(true, false, Some(2)), PurchaseRequest::BadMath);
    assert_eq!(classify_purchase(true, false, None), PurchaseRequest::BadMath);
    assert_eq!(classify_purchase(true, true, None), PurchaseRequest::Malformed);
    assert_eq!(classify_purchase(false, true, Some(1)), PurchaseRequest::Malformed);
}

#[test]
fn statuses_map_to_replies() {
    assert_eq!(status_reply(PurchaseStatus::Success).status, 201);
    assert_eq!(status_reply(PurchaseStatus::Fatty).status, 429);
    assert_eq!(status_reply(PurchaseStatus::Gone).status, 410);
}

#[test]
fn a_missing_slices_pair_means_one_slice() {
    let without = purchase_params(&pairs(&[("username", "ann"), ("amount", "2.5")]));
    let with = purchase_params(&pairs(&[("username", "ann"), ("amount", "2.5"), ("slices", "1")]));
    assert_eq!(without.username, with.username);
    assert_eq!(without.amount, with.amount);
    assert_eq!(without.slices, with.slices);
    assert_eq!(with.slices, Some(1));
}

#[test]
fn purchase_replies_follow_request_price_and_status() {
    let complete = PurchaseRequest::Complete { slices: 2 };
    assert_eq!(slices_to_buy(complete, true), Some(2));
    assert_eq!(slices_to_buy(complete, false), None);
    assert_eq!(slices_to_buy(PurchaseRequest::BadMath, true), None);
    assert_eq!(purchase_reply(complete, true, Some(PurchaseStatus::Success)).status, 201);
    assert_eq!(purchase_reply(complete, true, Some(PurchaseStatus::Fatty)).status, 429);
    assert_eq!(purchase_reply(complete, true, Some(PurchaseStatus::Gone)).status, 410);
    assert_eq!(purchase_reply(complete, true, None).status, 500);
    assert_eq!(purchase_reply(complete, false, None).status, 402);
    assert_eq!(purchase_reply(PurchaseRequest::BadMath, false, None).status, 402);
    assert_eq!(purchase_reply(PurchaseRequest::Malformed, true, None).status, 500);
}

#[test]
fn queries_are_decoded_before_use() {
    let p = pie_bakeoff::endpoints::purchase_request(Some("username=ann+b&amount=2%2E5&slices=3&username=c%20d"))
        .unwrap();
    assert_eq!(p.username.as_deref(), Some("c d"));
    assert_eq!(p.amount.as_deref(), Some("2.5"));
    assert_eq!(p.slices, Some(3));
    assert!(pie_bakeoff::endpoints::purchase_request(None).is_none());
    let listed = pie_bakeoff::endpoints::query_listing(Some("a=1&&b&c=x%26y")).unwrap();
    assert_eq!(
        listed,
        vec![
            ("a".to_string(), "1".to_string()),
            ("b".to_string(), String::new()),
            ("c".to_string(), "x&y".to_string())
        ]
    );
    assert!(pie_bakeoff::endpoints::query_listing(None).is_none());
}
