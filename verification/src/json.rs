//! Answers of the search backend and of the geocoding service, read as
//! JSON documents.

use vstd::prelude::*;
use vstd::string::*;

verus! {

/// A JSON number: a whole number where it is one, else its text.
#[derive(Debug, PartialEq, Eq)]
pub enum JsonNumber {
    Unsigned(u64),
    Negative(i64),
    Decimal(String),
}

/// One member of a JSON object.
#[derive(Debug, PartialEq, Eq)]
pub struct Member {
    pub key: String,
    pub value: Json,
}

/// A JSON document.
#[derive(Debug, PartialEq, Eq)]
pub enum Json {
    Null,
    Bool(bool),
    Number(JsonNumber),
    Text(String),
    Array(Vec<Json>),
    Object(Vec<Member>),
}

/// Why an answer could not be read.
#[derive(Debug, PartialEq, Eq)]
pub enum DecodeError {
    /// The body is no JSON document.
    Malformed,
    /// The answer has no member `features`.
    MissingFeatures,
    /// The member `features` is no array.
    FeaturesNotArray,
    /// The feature at this place has no `properties.geocoding`.
    MissingGeocoding(usize),
    /// The `properties.geocoding` of the feature at this place is no object.
    GeocodingNotObject(usize),
    /// The answer has no array `hits.hits`.
    MissingHits,
    /// The hit at this place is no object with a text `_type` and a `_source`.
    MalformedHit(usize),
    /// The answer has no whole number `count`.
    MissingCount,
}

/// The value of the first member of `members` whose key is `key`.
pub open spec fn member_value(members: Seq<Member>, key: Seq<char>) -> Option<Json>
    decreases members.len(),
{
    if members.len() == 0 {
        None
    } else if members[0].key@ == key {
        Some(members[0].value)
    } else {
        member_value(members.drop_first(), key)
    }
}

/// The member `key` of a document, where the document is an object that
/// has one.
pub open spec fn field(doc: Json, key: Seq<char>) -> Option<Json> {
    match doc {
        Json::Object(members) => member_value(members@, key),
        _ => None,
    }
}

/// Looks a member of an object up by its key.
pub fn get_field<'a>(doc: &'a Json, key: &str) -> (r: Option<&'a Json>)
    ensures
        match r {
            Some(value) => field(*doc, key@) == Some(*value),
            None => field(*doc, key@) is None,
        },
{
    match doc {
        Json::Object(members) => {
            let wanted = String::from_str(key);
            let mut i: usize = 0;
            assert(members@.subrange(0, members@.len() as int) =~= members@);
            while i < members.len()
                invariant
                    i <= members.len(),
                    wanted@ == key@,
                    field(*doc, key@) == member_value(members@, key@),
                    member_value(members@, key@) == member_value(
                        members@.subrange(i as int, members@.len() as int),
                        key@,
                    ),
                decreases members.len() - i,
            {
                let ghost rest = members@.subrange(i as int, members@.len() as int);
                assert(rest[0] == members@[i as int]);
                if members[i].key == wanted {
                    assert(member_value(rest, key@) == Some(rest[0].value));
                    return Some(&members[i].value);
                }
                assert(member_value(rest, key@) == member_value(rest.drop_first(), key@));
                assert(rest.drop_first() =~= members@.subrange(i + 1, members@.len() as int));
                i = i + 1;
            }
            None
        },
        _ => None,
    }
}


#[verifier::external_type_specification]
#[verifier::external_body]
pub struct ExValue(serde_json::Value);

#[verifier::external_type_specification]
#[verifier::external_body]
pub struct ExNumber(serde_json::Number);

/// The document that a body holds, where it holds one: what
/// `serde_json::from_slice` reads from these bytes.
pub uninterp spec fn parsed_document(body: Seq<u8>) -> Option<Json>;

/// Tells the kinds of a `serde_json::Number` apart with its `as_u64`
/// and `as_i64`; any other number is kept as the text that its
/// `to_string` gives. Nothing is claimed of the result.
#[verifier::external_body]
fn number_from(n: &serde_json::Number) -> JsonNumber {
    match (n.as_u64(), n.as_i64()) {
        (Some(whole), _) => JsonNumber::Unsigned(whole),
        (None, Some(whole)) => JsonNumber::Negative(whole),
        (None, None) => JsonNumber::Decimal(n.to_string()),
    }
}

/// Moves a `serde_json::Value` into a `Json`, variant by variant, the
/// members of an object in the order in which its map hands them out.
/// Nothing is claimed of the result.
#[verifier::external_body]
fn json_from(value: serde_json::Value) -> Json {
    match value {
        serde_json::Value::Null => Json::Null,
        serde_json::Value::Bool(b) => Json::Bool(b),
        serde_json::Value::Number(n) => Json::Number(number_from(&n)),
        serde_json::Value::String(s) => Json::Text(s),
        serde_json::Value::Array(items) => Json::Array(items.into_iter().map(json_from).collect()),
        serde_json::Value::Object(map) => Json::Object(
            map.into_iter().map(|(key, v)| Member { key, value: json_from(v) }).collect(),
        ),
    }
}

/// `serde_json::from_slice`, read as a `serde_json::Value`: the result
/// depends on the bytes alone, and is `None` where the crate reports an
/// error. What the document is for given bytes is not stated.
#[verifier::external_body]
fn parse_document(body: &[u8]) -> (r: Option<Json>)
    ensures
        r == parsed_document(body@),
{
    match serde_json::from_slice::<serde_json::Value>(body) {
        Ok(value) => Some(json_from(value)),
        Err(_) => None,
    }
}

/// Reads the body of an answer as a JSON document.
pub fn to_json(body: &[u8]) -> (r: Result<Json, DecodeError>)
    ensures
        match r {
            Ok(doc) => parsed_document(body@) == Some(doc),
            Err(e) => e == DecodeError::Malformed && parsed_document(body@) is None,
        },
{
    match parse_document(body) {
        Some(doc) => Ok(doc),
        None => Err(DecodeError::Malformed),
    }
}

/// The number of documents that a counting answer reports.
pub open spec fn count_in(answer: Json) -> Result<u64, DecodeError> {
    match field(answer, "count"@) {
        Some(Json::Number(JsonNumber::Unsigned(n))) => Ok(n),
        _ => Err(DecodeError::MissingCount),
    }
}

/// Reads the number of documents from a counting answer.
pub fn count_of(answer: &Json) -> (r: Result<u64, DecodeError>)
    ensures
        r == count_in(*answer),
{
    match get_field(answer, "count") {
        Some(Json::Number(JsonNumber::Unsigned(n))) => Ok(*n),
        _ => Err(DecodeError::MissingCount),
    }
}

/// The `properties.geocoding` of one feature, which stands at `place`
/// in its answer.
pub open spec fn geocoding_in(feature: Json, place: usize) -> Result<Seq<Member>, DecodeError> {
    match field(feature, "properties"@) {
        Some(properties) => match field(properties, "geocoding"@) {
            Some(Json::Object(members)) => Ok(members@),
            Some(_) => Err(DecodeError::GeocodingNotObject(place)),
            None => Err(DecodeError::MissingGeocoding(place)),
        },
        None => Err(DecodeError::MissingGeocoding(place)),
    }
}

/// The `properties.geocoding` of each feature, in the features' order;
/// where one cannot be read, the error of the first such.
pub open spec fn geocodings_in(features: Seq<Json>) -> Result<Seq<Seq<Member>>, DecodeError>
    decreases features.len(),
{
    if features.len() == 0 {
        Ok(Seq::empty())
    } else {
        match geocodings_in(features.drop_last()) {
            Err(e) => Err(e),
            Ok(before) => match geocoding_in(features.last(), (features.len() - 1) as usize) {
                Ok(members) => Ok(before.push(members)),
                Err(e) => Err(e),
            },
        }
    }
}

/// What a geocoding answer holds for each feature it lists.
pub open spec fn results_in(answer: Json) -> Result<Seq<Seq<Member>>, DecodeError> {
    match field(answer, "features"@) {
        Some(Json::Array(features)) => geocodings_in(features@),
        Some(_) => Err(DecodeError::FeaturesNotArray),
        None => Err(DecodeError::MissingFeatures),
    }
}

/// The member lists of a list of objects.
pub open spec fn member_lists(objects: Seq<&Vec<Member>>) -> Seq<Seq<Member>> {
    Seq::new(objects.len(), |i: int| objects[i]@)
}

/// An error among the first features is the error of them all.
proof fn lemma_first_error_stays(features: Seq<Json>, n: int)
    requires
        0 <= n <= features.len(),
        geocodings_in(features.subrange(0, n)) is Err,
    ensures
        geocodings_in(features) == geocodings_in(features.subrange(0, n)),
    decreases features.len() - n,
{
    if n < features.len() {
        let longer = features.subrange(0, n + 1);
        assert(longer.drop_last() =~= features.subrange(0, n));
        lemma_first_error_stays(features, n + 1);
    } else {
        assert(features.subrange(0, n) =~= features);
    }
}

/// Reads the `properties.geocoding` object of one feature.
pub fn get_geocoding<'a>(feature: &'a Json, place: usize) -> (r: Result<&'a Vec<Member>, DecodeError>)
    ensures
        match r {
            Ok(members) => geocoding_in(*feature, place) == Ok::<Seq<Member>, DecodeError>(
                members@,
            ),
            Err(e) => geocoding_in(*feature, place) == Err::<Seq<Member>, DecodeError>(e),
        },
{
    match get_field(feature, "properties") {
        Some(properties) => match get_field(properties, "geocoding") {
            Some(Json::Object(members)) => Ok(members),
            Some(_) => Err(DecodeError::GeocodingNotObject(place)),
            None => Err(DecodeError::MissingGeocoding(place)),
        },
        None => Err(DecodeError::MissingGeocoding(place)),
    }
}

/// Reads from a geocoding answer the `properties.geocoding` object of
/// each feature it lists. Fails where the answer has no array
/// `features`, and at the first feature without such an object.
pub fn get_results<'a>(answer: &'a Json) -> (r: Result<Vec<&'a Vec<Member>>, DecodeError>)
    ensures
        match r {
            Ok(objects) => results_in(*answer) == Ok::<Seq<Seq<Member>>, DecodeError>(
                member_lists(objects@),
            ),
            Err(e) => results_in(*answer) == Err::<Seq<Seq<Member>>, DecodeError>(e),
        },
{
    match get_field(answer, "features") {
        Some(Json::Array(features)) => {
            let mut objects: Vec<&'a Vec<Member>> = Vec::new();
            let mut i: usize = 0;
            assert(member_lists(objects@) =~= Seq::<Seq<Member>>::empty());
            while i < features.len()
                invariant
                    i <= features.len(),
                    results_in(*answer) == geocodings_in(features@),
                    geocodings_in(features@.subrange(0, i as int)) == Ok::<
                        Seq<Seq<Member>>,
                        DecodeError,
                    >(member_lists(objects@)),
                decreases features.len() - i,
            {
                let ghost before = member_lists(objects@);
                let ghost longer = features@.subrange(0, i + 1);
                assert(longer.drop_last() =~= features@.subrange(0, i as int));
                assert(longer.last() == features@[i as int]);
                match get_geocoding(&features[i], i) {
                    Ok(members) => {
                        objects.push(members);
                        assert(member_lists(objects@) =~= before.push(members@));
                    },
                    Err(e) => {
                        proof {
                            lemma_first_error_stays(features@, i + 1);
                        }
                        return Err(e);
                    },
                }
                i = i + 1;
            }
            assert(features@.subrange(0, i as int) =~= features@);
            Ok(objects)
        },
        Some(_) => Err(DecodeError::FeaturesNotArray),
        None => Err(DecodeError::MissingFeatures),
    }
}


/// One document found by a search: its type and what was indexed.
#[derive(Debug, PartialEq, Eq)]
pub struct Hit<'a> {
    pub doc_type: &'a String,
    pub source: &'a Json,
}

/// What a hit holds.
pub struct HitView {
    pub doc_type: Seq<char>,
    pub source: Json,
}

impl<'a> View for Hit<'a> {
    type V = HitView;

    open spec fn view(&self) -> HitView {
        HitView { doc_type: self.doc_type@, source: *self.source }
    }
}

/// What the hits of a list hold.
pub open spec fn hit_views(hits: Seq<Hit<'_>>) -> Seq<HitView> {
    Seq::new(hits.len(), |i: int| hits[i]@)
}

/// One entry of a search answer read as a hit; the entry stands at
/// `place` in its answer.
pub open spec fn hit_in(entry: Json, place: usize) -> Result<HitView, DecodeError> {
    match (field(entry, "_type"@), field(entry, "_source"@)) {
        (Some(Json::Text(doc_type)), Some(source)) => Ok(
            HitView { doc_type: doc_type@, source: source },
        ),
        _ => Err(DecodeError::MalformedHit(place)),
    }
}

/// The entries of a search answer read as hits, in their order; where
/// one cannot be read, the error of the first such.
pub open spec fn hits_in(entries: Seq<Json>) -> Result<Seq<HitView>, DecodeError>
    decreases entries.len(),
{
    if entries.len() == 0 {
        Ok(Seq::empty())
    } else {
        match hits_in(entries.drop_last()) {
            Err(e) => Err(e),
            Ok(before) => match hit_in(entries.last(), (entries.len() - 1) as usize) {
                Ok(hit) => Ok(before.push(hit)),
                Err(e) => Err(e),
            },
        }
    }
}

/// The hits that a search answer lists under `hits.hits`.
pub open spec fn search_hits_in(answer: Json) -> Result<Seq<HitView>, DecodeError> {
    match field(answer, "hits"@) {
        Some(outer) => match field(outer, "hits"@) {
            Some(Json::Array(entries)) => hits_in(entries@),
            _ => Err(DecodeError::MissingHits),
        },
        None => Err(DecodeError::MissingHits),
    }
}

/// An error among the first entries is the error of them all.
proof fn lemma_first_bad_hit_stays(entries: Seq<Json>, n: int)
    requires
        0 <= n <= entries.len(),
        hits_in(entries.subrange(0, n)) is Err,
    ensures
        hits_in(entries) == hits_in(entries.subrange(0, n)),
    decreases entries.len() - n,
{
    if n < entries.len() {
        let longer = entries.subrange(0, n + 1);
        assert(longer.drop_last() =~= entries.subrange(0, n));
        lemma_first_bad_hit_stays(entries, n + 1);
    } else {
        assert(entries.subrange(0, n) =~= entries);
    }
}

/// Reads one entry of a search answer as a hit.
pub fn get_hit<'a>(entry: &'a Json, place: usize) -> (r: Result<Hit<'a>, DecodeError>)
    ensures
        match r {
            Ok(hit) => hit_in(*entry, place) == Ok::<HitView, DecodeError>(hit@),
            Err(e) => hit_in(*entry, place) == Err::<HitView, DecodeError>(e),
        },
{
    match (get_field(entry, "_type"), get_field(entry, "_source")) {
        (Some(Json::Text(doc_type)), Some(source)) => Ok(Hit { doc_type, source }),
        _ => Err(DecodeError::MalformedHit(place)),
    }
}

/// Reads the documents that a search answer lists. Fails where the
/// answer has no array `hits.hits`, and at the first entry that is no
/// object with a text `_type` and a `_source`.
pub fn search_hits<'a>(answer: &'a Json) -> (r: Result<Vec<Hit<'a>>, DecodeError>)
    ensures
        match r {
            Ok(hits) => search_hits_in(*answer) == Ok::<Seq<HitView>, DecodeError>(
                hit_views(hits@),
            ),
            Err(e) => search_hits_in(*answer) == Err::<Seq<HitView>, DecodeError>(e),
        },
{
    let outer = match get_field(answer, "hits") {
        Some(outer) => outer,
        None => {
            return Err(DecodeError::MissingHits);
        },
    };
    match get_field(outer, "hits") {
        Some(Json::Array(entries)) => {
            let mut hits: Vec<Hit<'a>> = Vec::new();
            let mut i: usize = 0;
            assert(hit_views(hits@) =~= Seq::<HitView>::empty());
            while i < entries.len()
                invariant
                    i <= entries.len(),
                    search_hits_in(*answer) == hits_in(entries@),
                    hits_in(entries@.subrange(0, i as int)) == Ok::<Seq<HitView>, DecodeError>(
                        hit_views(hits@),
                    ),
                decreases entries.len() - i,
            {
                let ghost before = hit_views(hits@);
                let ghost longer = entries@.subrange(0, i + 1);
                assert(longer.drop_last() =~= entries@.subrange(0, i as int));
                assert(longer.last() == entries@[i as int]);
                match get_hit(&entries[i], i) {
                    Ok(hit) => {
                        hits.push(hit);
                        assert(hit_views(hits@) =~= before.push(hit@));
                    },
                    Err(e) => {
                        proof {
                            lemma_first_bad_hit_stays(entries@, i + 1);
                        }
                        return Err(e);
                    },
                }
                i = i + 1;
            }
            assert(entries@.subrange(0, i as int) =~= entries@);
            Ok(hits)
        },
        _ => Err(DecodeError::MissingHits),
    }
}

} // verus!
