//! The local text classifier: tokenization on Unicode word boundaries
//! and a fixed-dictionary keyword heuristic for the dominant language.

use vstd::prelude::*;

verus! {

use unicode_segmentation::UnicodeSegmentation;

/// What `unicode_words` yields for a text: its words under Unicode
/// word-boundary rules, in appearance order.
pub uninterp spec fn words_of(s: Seq<char>) -> Seq<Seq<char>>;

/// What `str::to_lowercase` yields for a text.
pub uninterp spec fn lower_of(s: Seq<char>) -> Seq<char>;

/// Relies on
/// `unicode_segmentation::UnicodeSegmentation::unicode_words`: the
/// words of the text under Unicode word boundaries, in appearance
/// order, punctuation and whitespace left out, a function of the
/// characters alone; a text with no characters has no words.
#[verifier::external_body]
fn unicode_word_tokens(s: &str) -> (r: Vec<String>)
    ensures
        r.deep_view() == words_of(s@),
        s@.len() == 0 ==> r@.len() == 0,
{
    s.unicode_words().map(|w| w.to_owned()).collect()
}

/// Relies on `str::to_lowercase`: the lowercase mapping of the text, a
/// function of its characters alone.
#[verifier::external_body]
fn lowercase(s: &str) -> (r: String)
    ensures
        r@ == lower_of(s@),
{
    s.to_lowercase()
}

/// The fixed, deliberately small dictionary of unambiguously
/// Swahili/Sheng fintech terms; `balance` is included on purpose, for
/// its Swahili-fintech use, although it is also an English word.
pub open spec fn swahili_keywords() -> Seq<Seq<char>> {
    seq!["angalia"@, "balance"@, "tuma"@, "pesa"@, "salio"@, "kutuma"@, "akaunti"@]
}

/// A token counts as a dictionary hit when its lowercase form is one of
/// the keywords.
pub open spec fn is_keyword_hit(t: Seq<char>) -> bool {
    swahili_keywords().contains(lower_of(t))
}

/// The language tag for a token list: a single dictionary hit anywhere
/// flips the whole text to `swahili`; otherwise it is `english`.
pub open spec fn classified_language(ws: Seq<Seq<char>>) -> Seq<char> {
    if exists|i: int| 0 <= i < ws.len() && is_keyword_hit(ws[i]) {
        "swahili"@
    } else {
        "english"@
    }
}

/// The classifier's answer: the language tag, the tokens in their
/// original casing and appearance order, and their count.
pub struct ClassificationResult {
    pub language: String,
    pub tokens: Vec<String>,
    pub token_count: usize,
}

fn keyword_list() -> (r: Vec<String>)
    ensures
        r.deep_view() == swahili_keywords(),
{
    let mut v: Vec<String> = Vec::new();
    v.push("angalia".to_owned());
    v.push("balance".to_owned());
    v.push("tuma".to_owned());
    v.push("pesa".to_owned());
    v.push("salio".to_owned());
    v.push("kutuma".to_owned());
    v.push("akaunti".to_owned());
    proof {
        assert(v.deep_view() =~= swahili_keywords());
    }
    v
}

#[verifier::loop_isolation(false)]
fn contains_string(v: &Vec<String>, x: &String) -> (r: bool)
    ensures
        r == v.deep_view().contains(x@),
{
    let n = v.len();
    let mut i: usize = 0;
    while i < n
        invariant
            i <= n,
            forall|j: int| 0 <= j < i ==> v.deep_view()[j] != x@,
        decreases n - i,
    {
        if v[i].eq(x) {
            proof {
                assert(v.deep_view()[i as int] == x@);
            }
            return true;
        }
        i = i + 1;
    }
    proof {
        assert(forall|j: int| 0 <= j < v.deep_view().len() ==> v.deep_view()[j] != x@);
    }
    false
}

/// Classifies a text: tokenizes on Unicode word boundaries, matches the
/// lowercased tokens against the fixed dictionary, and reports the
/// language together with the original-case tokens and their count.
#[verifier::loop_isolation(false)]
pub fn classify_intent(text: &str) -> (r: ClassificationResult)
    ensures
        r.tokens.deep_view() == words_of(text@),
        r.token_count == r.tokens@.len(),
        r.token_count == words_of(text@).len(),
        r.language@ == classified_language(words_of(text@)),
        text@.len() == 0 ==> (r.language@ == "english"@ && r.token_count == 0),
{
    let tokens = unicode_word_tokens(text);
    let kws = keyword_list();
    let mut hit = false;
    let n = tokens.len();
    let mut i: usize = 0;
    while i < n
        invariant
            i <= n,
            hit == (exists|j: int| 0 <= j < i && is_keyword_hit(tokens.deep_view()[j])),
        decreases n - i,
    {
        let low = lowercase(tokens[i].as_str());
        let here = contains_string(&kws, &low);
        proof {
            assert(tokens.deep_view()[i as int] == tokens@[i as int]@);
            assert(here == is_keyword_hit(tokens.deep_view()[i as int]));
        }
        if here {
            hit = true;
        }
        proof {
            assert((exists|j: int| 0 <= j < i + 1 && is_keyword_hit(tokens.deep_view()[j])) == (
            (exists|j: int| 0 <= j < i && is_keyword_hit(tokens.deep_view()[j])) || is_keyword_hit(
                tokens.deep_view()[i as int],
            )));
        }
        i = i + 1;
    }
    let language = if hit {
        "swahili".to_owned()
    } else {
        "english".to_owned()
    };
    let token_count = tokens.len();
    ClassificationResult { language, tokens, token_count }
}

} // verus!
