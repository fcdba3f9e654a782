use openaddresses::json::{
    count_of, get_field, get_geocoding, get_hit, get_results, search_hits, to_json, DecodeError,
    Hit, Json, JsonNumber, Member,
};

fn text(s: &str) -> Json {
    Json::Text(s.to_string())
}

fn object(members: Vec<(&str, Json)>) -> Json {
    Json::Object(
        members.into_iter().map(|(key, value)| Member { key: key.to_string(), value }).collect(),
    )
}

#[test]
fn body_is_read_as_a_document() {
    let doc = to_json(br#"{"b": [1, -2, 1.5, true, null], "a": "x"}"#).unwrap();
    let expected = object(vec![
        ("a", text("x")),
        (
            "b",
            Json::Array(vec![
                Json::Number(JsonNumber::Unsigned(1)),
                Json::Number(JsonNumber::Negative(-2)),
                Json::Number(JsonNumber::Decimal("1.5".to_string())),
                Json::Bool(true),
                Json::Null,
            ]),
        ),
    ]);
    assert_eq!(doc, expected);
}

#[test]
fn whole_numbers_keep_their_value() {
    assert_eq!(to_json(b"18446744073709551615"), Ok(Json::Number(JsonNumber::Unsigned(u64::MAX))));
    assert_eq!(to_json(b"-9223372036854775808"), Ok(Json::Number(JsonNumber::Negative(i64::MIN))));
    assert_eq!(to_json(b"0"), Ok(Json::Number(JsonNumber::Unsigned(0))));
    assert_eq!(to_json(b"\"0\""), Ok(text("0")));
}

#[test]
fn body_that_is_no_document_is_refused() {
    assert_eq!(to_json(b""), Err(DecodeError::Malformed));
    assert_eq!(to_json(b"{\"a\": "), Err(DecodeError::Malformed));
    assert_eq!(to_json(b"{} trailing"), Err(DecodeError::Malformed));
    assert_eq!(to_json(&[0x22, 0xff, 0x22]), Err(DecodeError::Malformed));
}

#[test]
fn member_is_found_by_its_key() {
    let doc = object(vec![("a", text("x")), ("b", Json::Null), ("a", text("y"))]);
    assert_eq!(get_field(&doc, "a"), Some(&text("x")));
    assert_eq!(get_field(&doc, "b"), Some(&Json::Null));
    assert_eq!(get_field(&doc, "c"), None);
    assert_eq!(get_field(&doc, ""), None);
    assert_eq!(get_field(&Json::Array(vec![text("a")]), "a"), None);
    assert_eq!(get_field(&text("a"), "a"), None);
}

#[test]
fn results_of_a_geocoding_answer() {
    let body = br#"{"type": "FeatureCollection", "features": [
        {"properties": {"geocoding": {"id": "addr:2.35,48.86:12-bis", "label": "12 bis Main St (Paris)"}}},
        {"properties": {"geocoding": {}}}
    ]}"#;
    let answer = to_json(body).unwrap();
    let results = get_results(&answer).unwrap();
    assert_eq!(results.len(), 2);
    assert_eq!(
        results[0],
        &vec![
            Member { key: "id".to_string(), value: text("addr:2.35,48.86:12-bis") },
            Member { key: "label".to_string(), value: text("12 bis Main St (Paris)") },
        ]
    );
    assert!(results[1].is_empty());
}

#[test]
fn answer_without_features_has_no_results() {
    assert_eq!(get_results(&object(vec![])), Err(DecodeError::MissingFeatures));
    assert_eq!(get_results(&Json::Null), Err(DecodeError::MissingFeatures));
    assert_eq!(
        get_results(&object(vec![("features", object(vec![]))])),
        Err(DecodeError::FeaturesNotArray)
    );
    assert_eq!(get_results(&object(vec![("features", Json::Array(vec![]))])), Ok(vec![]));
}

#[test]
fn first_feature_that_cannot_be_read_is_reported() {
    let good = object(vec![("properties", object(vec![("geocoding", object(vec![]))]))]);
    let no_properties = object(vec![("geometry", Json::Null)]);
    let no_geocoding = object(vec![("properties", object(vec![]))]);
    let no_object = object(vec![("properties", object(vec![("geocoding", text("x"))]))]);
    let answer = |features: Vec<Json>| object(vec![("features", Json::Array(features))]);
    assert_eq!(
        get_results(&answer(vec![good, no_properties])),
        Err(DecodeError::MissingGeocoding(1))
    );
    let good = object(vec![("properties", object(vec![("geocoding", object(vec![]))]))]);
    assert_eq!(
        get_results(&answer(vec![no_geocoding, good])),
        Err(DecodeError::MissingGeocoding(0))
    );
    let no_geocoding = object(vec![("properties", object(vec![]))]);
    assert_eq!(
        get_results(&answer(vec![no_object, no_geocoding])),
        Err(DecodeError::GeocodingNotObject(0))
    );
    assert_eq!(get_geocoding(&Json::Null, 4), Err(DecodeError::MissingGeocoding(4)));
}

#[test]
fn hits_of_a_search_answer() {
    let body = br#"{"took": 1, "hits": {"total": 2, "hits": [
        {"_type": "addr", "_id": "a", "_source": {"id": "addr:2.35,48.86"}},
        {"_type": "street", "_source": 3}
    ]}}"#;
    let answer = to_json(body).unwrap();
    let hits = search_hits(&answer).unwrap();
    assert_eq!(hits.len(), 2);
    assert_eq!(hits[0].doc_type, "addr");
    assert_eq!(hits[0].source, &object(vec![("id", text("addr:2.35,48.86"))]));
    assert_eq!(hits[1].doc_type, "street");
    assert_eq!(hits[1].source, &Json::Number(JsonNumber::Unsigned(3)));
}

#[test]
fn answer_without_hits_is_refused() {
    assert_eq!(search_hits(&object(vec![])), Err(DecodeError::MissingHits));
    assert_eq!(search_hits(&object(vec![("hits", object(vec![]))])), Err(DecodeError::MissingHits));
    assert_eq!(
        search_hits(&object(vec![("hits", object(vec![("hits", Json::Null)]))])),
        Err(DecodeError::MissingHits)
    );
    assert_eq!(
        search_hits(&object(vec![("hits", object(vec![("hits", Json::Array(vec![]))]))])),
        Ok(vec![])
    );
}

#[test]
fn first_hit_that_cannot_be_read_is_reported() {
    let good = object(vec![("_type", text("addr")), ("_source", Json::Null)]);
    let no_type = object(vec![("_source", Json::Null)]);
    let no_source = object(vec![("_type", text("addr"))]);
    let type_no_text = object(vec![("_type", Json::Bool(true)), ("_source", Json::Null)]);
    let doc_type = "addr".to_string();
    assert_eq!(get_hit(&good, 0), Ok(Hit { doc_type: &doc_type, source: &Json::Null }));
    assert_eq!(get_hit(&no_type, 1), Err(DecodeError::MalformedHit(1)));
    assert_eq!(get_hit(&no_source, 2), Err(DecodeError::MalformedHit(2)));
    assert_eq!(get_hit(&type_no_text, 3), Err(DecodeError::MalformedHit(3)));
    assert_eq!(get_hit(&text("addr"), 5), Err(DecodeError::MalformedHit(5)));
    let answer = object(vec![(
        "hits",
        object(vec![("hits", Json::Array(vec![good, no_source, no_type]))]),
    )]);
    assert_eq!(search_hits(&answer), Err(DecodeError::MalformedHit(1)));
}

#[test]
fn count_of_a_counting_answer() {
    let answer = to_json(br#"{"count": 42, "_shards": {"total": 5}}"#).unwrap();
    assert_eq!(count_of(&answer), Ok(42));
    assert_eq!(count_of(&object(vec![("count", Json::Number(JsonNumber::Unsigned(0)))])), Ok(0));
    assert_eq!(count_of(&object(vec![])), Err(DecodeError::MissingCount));
    assert_eq!(count_of(&object(vec![("count", text("42"))])), Err(DecodeError::MissingCount));
    assert_eq!(
        count_of(&object(vec![("count", Json::Number(JsonNumber::Negative(-1)))])),
        Err(DecodeError::MissingCount)
    );
    assert_eq!(
        count_of(&to_json(br#"{"count": 1.5}"#).unwrap()),
        Err(DecodeError::MissingCount)
    );
}
