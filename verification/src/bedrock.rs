//! Request payloads and response normalization for the text-generation
//! and embedding backends.

use vstd::prelude::*;

verus! {

use crate::error::{WaveError, validation_err, schema_err, parse_err};
use crate::json::{
    Json,
    JsonData,
    members_view,
    seq_view,
    json_text,
    json_of,
    spec_index_of,
    spec_has,
    parse_json,
    to_json_string,
    obj_get,
    json_has,
    lemma_members_view,
    lemma_seq_view,
};
use crate::text::concat_str;

/// The fixed system instruction of a sentiment request, with the name of
/// the input's language interpolated verbatim.
pub open spec fn sentiment_system_text(language: Seq<char>) -> Seq<char> {
    "You are a sentiment analysis engine for Wave mobile money customer support. The message is in "@
        + language
        + ". Classify sentiment and category. Respond ONLY with JSON: {\"sentiment\": \"positive\"|\"negative\"|\"neutral\", \"category\": \"complaint\"|\"inquiry\"|\"praise\"|\"urgent\", \"confidence\": 0.0-1.0, \"summary\": \"brief english summary\"}"@
}

/// The sentiment request document: fixed protocol fields, a bounded
/// deterministic generation configuration, the system instruction, and
/// the user's text as the single conversational turn.
pub open spec fn sentiment_request_data(text: Seq<char>, language: Seq<char>) -> JsonData {
    JsonData::Obj(
        seq![
            ("anthropic_version"@, JsonData::Str("bedrock-2023-05-31"@)),
            ("max_tokens"@, JsonData::Num("256"@)),
            (
                "messages"@,
                JsonData::Arr(
                    seq![
                        JsonData::Obj(
                            seq![
                                ("content"@, JsonData::Str(text)),
                                ("role"@, JsonData::Str("user"@)),
                            ],
                        ),
                    ],
                ),
            ),
            ("system"@, JsonData::Str(sentiment_system_text(language))),
            ("temperature"@, JsonData::Num("0.0"@)),
        ],
    )
}

/// The embedding request document: the text together with the fixed
/// dimension and normalization configuration.
pub open spec fn embedding_request_data(text: Seq<char>) -> JsonData {
    JsonData::Obj(
        seq![
            ("dimensions"@, JsonData::Num("256"@)),
            ("inputText"@, JsonData::Str(text)),
            ("normalize"@, JsonData::Bool(true)),
        ],
    )
}

/// Builds the serialized sentiment-analysis request for a support
/// message in the named language; fails when the text is empty.
pub fn build_sentiment_request(text: &str, language: &str) -> (r: Result<String, WaveError>)
    ensures
        text@.len() == 0 ==> validation_err(r, "text must not be empty"@),
        text@.len() > 0 ==> (r matches Ok(payload) && payload@ == json_text(
            sentiment_request_data(text@, language@),
        )),
{
    if text.is_empty() {
        return Err(WaveError::Validation("text must not be empty".to_owned()));
    }
    let with_language = concat_str(
        "You are a sentiment analysis engine for Wave mobile money customer support. The message is in ",
        language,
    );
    let system_prompt = concat_str(
        with_language.as_str(),
        ". Classify sentiment and category. Respond ONLY with JSON: {\"sentiment\": \"positive\"|\"negative\"|\"neutral\", \"category\": \"complaint\"|\"inquiry\"|\"praise\"|\"urgent\", \"confidence\": 0.0-1.0, \"summary\": \"brief english summary\"}",
    );
    proof {
        assert(system_prompt@ =~= sentiment_system_text(language@));
    }

    let mut turn: Vec<(String, Json)> = Vec::new();
    turn.push(("content".to_owned(), Json::Str(text.to_owned())));
    turn.push(("role".to_owned(), Json::Str("user".to_owned())));
    let ghost turn_entries = turn@;
    let message = Json::Obj(turn);
    proof {
        lemma_members_view(turn_entries);
        assert(members_view(turn_entries) =~= seq![
            ("content"@, JsonData::Str(text@)),
            ("role"@, JsonData::Str("user"@)),
        ]);
        assert(message@ == JsonData::Obj(
            seq![("content"@, JsonData::Str(text@)), ("role"@, JsonData::Str("user"@))],
        ));
    }

    let mut turns: Vec<Json> = Vec::new();
    turns.push(message);
    let ghost turns_entries = turns@;
    let messages = Json::Arr(turns);
    proof {
        lemma_seq_view(turns_entries);
        assert(seq_view(turns_entries) =~= seq![
            JsonData::Obj(
                seq![("content"@, JsonData::Str(text@)), ("role"@, JsonData::Str("user"@))],
            ),
        ]);
        assert(messages@ == JsonData::Arr(
            seq![
                JsonData::Obj(
                    seq![("content"@, JsonData::Str(text@)), ("role"@, JsonData::Str("user"@))],
                ),
            ],
        ));
    }

    let mut fields: Vec<(String, Json)> = Vec::new();
    fields.push(("anthropic_version".to_owned(), Json::Str("bedrock-2023-05-31".to_owned())));
    fields.push(("max_tokens".to_owned(), Json::Num("256".to_owned())));
    fields.push(("messages".to_owned(), messages));
    fields.push(("system".to_owned(), Json::Str(system_prompt)));
    fields.push(("temperature".to_owned(), Json::Num("0.0".to_owned())));
    let ghost field_entries = fields@;
    let doc = Json::Obj(fields);
    proof {
        lemma_members_view(field_entries);
        assert(members_view(field_entries) =~= sentiment_request_data(text@, language@)->Obj_0);
        assert(doc@ == sentiment_request_data(text@, language@));
    }
    Ok(to_json_string(&doc))
}

/// Builds the serialized embedding request; fails when the text is
/// empty.
pub fn build_embedding_request(text: &str) -> (r: Result<String, WaveError>)
    ensures
        text@.len() == 0 ==> validation_err(r, "text must not be empty"@),
        text@.len() > 0 ==> (r matches Ok(payload) && payload@ == json_text(
            embedding_request_data(text@),
        )),
{
    if text.is_empty() {
        return Err(WaveError::Validation("text must not be empty".to_owned()));
    }
    let mut fields: Vec<(String, Json)> = Vec::new();
    fields.push(("dimensions".to_owned(), Json::Num("256".to_owned())));
    fields.push(("inputText".to_owned(), Json::Str(text.to_owned())));
    fields.push(("normalize".to_owned(), Json::Bool(true)));
    let ghost field_entries = fields@;
    let doc = Json::Obj(fields);
    proof {
        lemma_members_view(field_entries);
        assert(members_view(field_entries) =~= embedding_request_data(text@)->Obj_0);
        assert(doc@ == embedding_request_data(text@));
    }
    Ok(to_json_string(&doc))
}

/// The model's literal text output inside a sentiment response: the
/// `text` member of the first element of the `content` array, when that
/// exact path holds a string.
pub open spec fn content_text(d: JsonData) -> Option<Seq<char>> {
    match spec_index_of(d, "content"@) {
        JsonData::Arr(items) => if items.len() > 0 {
            match spec_index_of(items[0], "text"@) {
                JsonData::Str(t) => Some(t),
                _ => None,
            }
        } else {
            None
        },
        _ => None,
    }
}

/// The first absent member of the nested sentiment document, in the
/// fixed check order `sentiment`, `category`, `confidence`.
pub open spec fn first_missing_field(inner: JsonData) -> Option<Seq<char>> {
    if !spec_has(inner, "sentiment"@) {
        Some("sentiment"@)
    } else if !spec_has(inner, "category"@) {
        Some("category"@)
    } else if !spec_has(inner, "confidence"@) {
        Some("confidence"@)
    } else {
        None
    }
}

/// Normalizes a raw sentiment response: extracts the model's text at
/// `content[0].text`, parses it as JSON, verifies the required members,
/// and returns that nested document re-serialized, unmodified.
pub fn parse_sentiment_response(response_json: &str) -> (r: Result<String, WaveError>)
    ensures
        match json_of(response_json@) {
            None => parse_err(r, "invalid response JSON: "@),
            Some(dv) => match content_text(dv) {
                None => schema_err(r, "missing content[0].text in response"@),
                Some(t) => match json_of(t) {
                    None => parse_err(r, "failed to parse sentiment JSON: "@),
                    Some(inner) => match first_missing_field(inner) {
                        Some(f) => schema_err(r, "missing field: "@ + f),
                        None => r matches Ok(out) && out@ == json_text(inner),
                    },
                },
            },
        },
{
    let doc = match parse_json(response_json) {
        Ok(d) => d,
        Err(detail) => {
            let m = concat_str("invalid response JSON: ", detail.as_str());
            proof {
                assert(m@.subrange(0, "invalid response JSON: "@.len() as int)
                    =~= "invalid response JSON: "@);
            }
            return Err(WaveError::Parse(m));
        },
    };
    let missing_content = WaveError::Schema("missing content[0].text in response".to_owned());
    let nested: &String = match obj_get(&doc, "content") {
        Some(c) => match c {
            Json::Arr(items) => {
                if items.len() > 0 {
                    proof {
                        lemma_seq_view(items@);
                    }
                    match obj_get(&items[0], "text") {
                        Some(t) => match t {
                            Json::Str(s) => s,
                            _ => {
                                return Err(missing_content);
                            },
                        },
                        None => {
                            return Err(missing_content);
                        },
                    }
                } else {
                    return Err(missing_content);
                }
            },
            _ => {
                return Err(missing_content);
            },
        },
        None => {
            return Err(missing_content);
        },
    };
    let inner = match parse_json(nested.as_str()) {
        Ok(d) => d,
        Err(detail) => {
            let m = concat_str("failed to parse sentiment JSON: ", detail.as_str());
            proof {
                assert(m@.subrange(0, "failed to parse sentiment JSON: "@.len() as int)
                    =~= "failed to parse sentiment JSON: "@);
            }
            return Err(WaveError::Parse(m));
        },
    };
    if !json_has(&inner, "sentiment") {
        proof {
            reveal_strlit("missing field: sentiment");
            reveal_strlit("missing field: ");
            reveal_strlit("sentiment");
            assert("missing field: sentiment"@ =~= "missing field: "@ + "sentiment"@);
        }
        return Err(WaveError::Schema("missing field: sentiment".to_owned()));
    }
    if !json_has(&inner, "category") {
        proof {
            reveal_strlit("missing field: category");
            reveal_strlit("missing field: ");
            reveal_strlit("category");
            assert("missing field: category"@ =~= "missing field: "@ + "category"@);
        }
        return Err(WaveError::Schema("missing field: category".to_owned()));
    }
    if !json_has(&inner, "confidence") {
        proof {
            reveal_strlit("missing field: confidence");
            reveal_strlit("missing field: ");
            reveal_strlit("confidence");
            assert("missing field: confidence"@ =~= "missing field: "@ + "confidence"@);
        }
        return Err(WaveError::Schema("missing field: confidence".to_owned()));
    }
    Ok(to_json_string(&inner))
}

/// For every non-empty text and every language, the sentiment request
/// document carries the text, exactly, as the content of its single
/// user message, and its system instruction carries the language name
/// verbatim between the two fixed instruction parts.
pub proof fn lemma_sentiment_request_shape(text: Seq<char>, language: Seq<char>)
    ensures
        spec_index_of(sentiment_request_data(text, language), "messages"@) matches JsonData::Arr(
            turns,
        ) && turns.len() == 1 && spec_index_of(turns[0], "content"@) == JsonData::Str(text)
            && spec_index_of(turns[0], "role"@) == JsonData::Str("user"@),
        spec_index_of(sentiment_request_data(text, language), "system"@) == JsonData::Str(
            "You are a sentiment analysis engine for Wave mobile money customer support. The message is in "@
                + language
                + ". Classify sentiment and category. Respond ONLY with JSON: {\"sentiment\": \"positive\"|\"negative\"|\"neutral\", \"category\": \"complaint\"|\"inquiry\"|\"praise\"|\"urgent\", \"confidence\": 0.0-1.0, \"summary\": \"brief english summary\"}"@,
        ),
{
    reveal_strlit("anthropic_version");
    reveal_strlit("max_tokens");
    reveal_strlit("messages");
    reveal_strlit("system");
    reveal_strlit("temperature");
    reveal_strlit("content");
    reveal_strlit("role");
    let doc = sentiment_request_data(text, language);
    let fields = doc->Obj_0;
    assert(fields.len() == 5);
    assert(fields[0].0 == "anthropic_version"@);
    assert(fields[1].0 == "max_tokens"@);
    assert(fields[2].0 == "messages"@);
    assert(fields[3].0 == "system"@);
    assert(fields[4].0 == "temperature"@);
    crate::json::lemma_lookup_found(fields, "messages"@, 2);
    crate::json::lemma_lookup_found(fields, "system"@, 3);
    assert(spec_index_of(doc, "messages"@) == fields[2].1);
    assert(spec_index_of(doc, "system"@) == fields[3].1);
    let turns = fields[2].1->Arr_0;
    assert(turns.len() == 1);
    let turn_fields = turns[0]->Obj_0;
    assert(turn_fields.len() == 2);
    assert(turn_fields[0].0 == "content"@);
    assert(turn_fields[1].0 == "role"@);
    crate::json::lemma_lookup_found(turn_fields, "content"@, 0);
    crate::json::lemma_lookup_found(turn_fields, "role"@, 1);
    assert(spec_index_of(turns[0], "content"@) == turn_fields[0].1);
    assert(spec_index_of(turns[0], "role"@) == turn_fields[1].1);
}

} // verus!
