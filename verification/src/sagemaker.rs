//! Request payload and response normalization for the
//! language-identification backend.

use vstd::prelude::*;

verus! {

use crate::error::{WaveError, validation_err, schema_err, parse_err};
use crate::json::{
    Json,
    JsonData,
    json_text,
    json_of,
    spec_index_of,
    parse_json,
    to_json_string,
    obj_get,
    lemma_members_view,
    lemma_seq_view,
    members_view,
    seq_view,
};
use crate::text::concat_str;
use vstd::pervasive::unreached;

/// The language-detection request document: the minimal shape a
/// text-classification inference endpoint expects.
pub open spec fn language_detection_request_data(text: Seq<char>) -> JsonData {
    JsonData::Obj(seq![("inputs"@, JsonData::Str(text))])
}

/// The predictions list carried by a language-detection response: the
/// response must be an array; when its first element is itself an array
/// that inner array is the list (the documented shape), otherwise the
/// outer array is taken directly (the flat compatibility fallback).
pub open spec fn ld_predictions(d: JsonData) -> Option<Seq<JsonData>> {
    match d {
        JsonData::Arr(outer) => Some(
            if outer.len() > 0 && outer[0] is Arr {
                outer[0]->Arr_0
            } else {
                outer
            },
        ),
        _ => None,
    }
}

/// The normalized language-detection result: the top prediction's label
/// and score, and the full predictions list unmodified, in its original
/// order.
pub open spec fn ld_result_data(
    label: Seq<char>,
    score: Seq<char>,
    preds: Seq<JsonData>,
) -> JsonData {
    JsonData::Obj(
        seq![
            ("all_predictions"@, JsonData::Arr(preds)),
            ("confidence"@, JsonData::Num(score)),
            ("detected_language"@, JsonData::Str(label)),
        ],
    )
}

/// Builds the serialized language-detection request; fails when the
/// text is empty.
pub fn build_language_detection_request(text: &str) -> (r: Result<String, WaveError>)
    ensures
        text@.len() == 0 ==> validation_err(r, "text must not be empty"@),
        text@.len() > 0 ==> (r matches Ok(payload) && payload@ == json_text(
            language_detection_request_data(text@),
        )),
{
    if text.is_empty() {
        return Err(WaveError::Validation("text must not be empty".to_owned()));
    }
    let mut fields: Vec<(String, Json)> = Vec::new();
    fields.push(("inputs".to_owned(), Json::Str(text.to_owned())));
    let ghost field_entries = fields@;
    let doc = Json::Obj(fields);
    proof {
        lemma_members_view(field_entries);
        assert(members_view(field_entries) =~= language_detection_request_data(text@)->Obj_0);
        assert(doc@ == language_detection_request_data(text@));
    }
    Ok(to_json_string(&doc))
}

/// Normalizes a raw language-detection response: accepts the nested and
/// the flat wire shape, requires a non-empty predictions list, takes
/// `predictions[0]` as the top prediction without re-sorting, and emits
/// its label and score together with the whole list.
pub fn parse_language_detection_response(response_json: &str) -> (r: Result<String, WaveError>)
    ensures
        match json_of(response_json@) {
            None => parse_err(r, "invalid response JSON: "@),
            Some(dv) => match ld_predictions(dv) {
                None => schema_err(r, "expected array response"@),
                Some(preds) => if preds.len() == 0 {
                    schema_err(r, "empty predictions array"@)
                } else {
                    match spec_index_of(preds[0], "label"@) {
                        JsonData::Str(label) => match spec_index_of(preds[0], "score"@) {
                            JsonData::Num(score) => r matches Ok(out) && out@ == json_text(
                                ld_result_data(label, score, preds),
                            ),
                            _ => schema_err(r, "missing score field"@),
                        },
                        _ => schema_err(r, "missing label field"@),
                    }
                },
            },
        },
{
    let doc = match parse_json(response_json) {
        Ok(d) => d,
        Err(detail) => {
            let m = concat_str("invalid response JSON: ", detail.as_str());
            proof {
                assert(m@.subrange(0, "invalid response JSON: "@.len() as int)
                    =~= "invalid response JSON: "@);
            }
            return Err(WaveError::Parse(m));
        },
    };
    let mut outer: Vec<Json> = match doc {
        Json::Arr(v) => v,
        _ => {
            return Err(WaveError::Schema("expected array response".to_owned()));
        },
    };
    let ghost outer_entries = outer@;
    proof {
        lemma_seq_view(outer_entries);
    }
    let use_inner = if outer.len() > 0 {
        match &outer[0] {
            Json::Arr(_) => true,
            _ => false,
        }
    } else {
        false
    };
    let preds: Vec<Json> = if use_inner {
        let first = outer.remove(0);
        match first {
            Json::Arr(inner) => inner,
            _ => unreached(),
        }
    } else {
        outer
    };
    let ghost preds_data = ld_predictions(json_of(response_json@)->Some_0)->Some_0;
    proof {
        lemma_seq_view(preds@);
        assert(seq_view(preds@) =~= preds_data);
    }
    if preds.is_empty() {
        return Err(WaveError::Schema("empty predictions array".to_owned()));
    }
    let top = &preds[0];
    let label: String = match obj_get(top, "label") {
        Some(v) => match v {
            Json::Str(s) => s.clone(),
            _ => {
                return Err(WaveError::Schema("missing label field".to_owned()));
            },
        },
        None => {
            return Err(WaveError::Schema("missing label field".to_owned()));
        },
    };
    let score: String = match obj_get(top, "score") {
        Some(v) => match v {
            Json::Num(n) => n.clone(),
            _ => {
                return Err(WaveError::Schema("missing score field".to_owned()));
            },
        },
        None => {
            return Err(WaveError::Schema("missing score field".to_owned()));
        },
    };
    let mut fields: Vec<(String, Json)> = Vec::new();
    fields.push(("all_predictions".to_owned(), Json::Arr(preds)));
    fields.push(("confidence".to_owned(), Json::Num(score)));
    fields.push(("detected_language".to_owned(), Json::Str(label)));
    let ghost field_entries = fields@;
    let out_doc = Json::Obj(fields);
    proof {
        lemma_members_view(field_entries);
        assert(members_view(field_entries) =~= ld_result_data(
            spec_index_of(preds_data[0], "label"@)->Str_0,
            spec_index_of(preds_data[0], "score"@)->Num_0,
            preds_data,
        )->Obj_0);
        assert(out_doc@ == ld_result_data(
            spec_index_of(preds_data[0], "label"@)->Str_0,
            spec_index_of(preds_data[0], "score"@)->Num_0,
            preds_data,
        ));
    }
    Ok(to_json_string(&out_doc))
}

/// A nested response and a flat response that carry the same
/// predictions reduce to the same predictions list, so they normalize
/// to the same result: wrapping a flat predictions list in one outer
/// array leaves `ld_predictions` unchanged.
pub proof fn lemma_nested_flat_agree(preds: Seq<JsonData>)
    requires
        preds.len() > 0,
        !(preds[0] is Arr),
    ensures
        ld_predictions(JsonData::Arr(preds)) == ld_predictions(
            JsonData::Arr(seq![JsonData::Arr(preds)]),
        ),
{
    assert(seq![JsonData::Arr(preds)][0] == JsonData::Arr(preds));
}

} // verus!
