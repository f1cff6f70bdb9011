//! Classification of sentences as English, German or unknown.
//!
//! The statistical detection itself is lingua's; this module fixes the
//! detector (English and German only) and maps its answers onto the three
//! results the front end understands.

use vstd::prelude::*;

verus! {

#[verifier::external_type_specification]
#[verifier::external_body]
pub struct ExLanguageDetector(lingua::LanguageDetector);

/// A language as reported by the detector.
#[derive(Debug, Clone, Copy, PartialEq, Eq, Structural)]
pub enum Detected {
    English,
    German,
    /// Any other language.
    Other,
}

/// The result handed to the front end for one sentence.
#[derive(Debug, Clone, Copy, PartialEq, Eq, Structural)]
pub enum LangResult {
    German,
    English,
    Unknown,
}

/// A detector that chooses between English and German.
pub struct EnglishGermanDetector {
    inner: lingua::LanguageDetector,
}

/// The language that a detector built from English and German assigns to
/// `text`, or `None` when it cannot tell them apart reliably.
pub uninterp spec fn english_german_detection(text: Seq<char>) -> Option<Detected>;

/// Relies on lingua's `LanguageDetectorBuilder::from_languages` and `build`:
/// a detector restricted to the two languages given (the list is not empty, so
/// the builder does not panic).
#[verifier::external_body]
fn build_english_german() -> (d: lingua::LanguageDetector) {
    let languages = [lingua::Language::English, lingua::Language::German];
    lingua::LanguageDetectorBuilder::from_languages(&languages).build()
}

/// Relies on lingua's `LanguageDetector::detect_language_of`: for a detector
/// built from English and German its answer depends on the text alone, and it
/// is `None` when no language can be told reliably.
#[verifier::external_body]
fn detect_language_of(d: &EnglishGermanDetector, text: &String) -> (r: Option<Detected>)
    ensures
        r == english_german_detection(text@),
{
    match d.inner.detect_language_of(text.as_str()) {
        Some(lingua::Language::English) => Some(Detected::English),
        Some(lingua::Language::German) => Some(Detected::German),
        Some(_) => Some(Detected::Other),
        None => None,
    }
}

impl EnglishGermanDetector {
    pub fn new() -> (d: EnglishGermanDetector) {
        EnglishGermanDetector { inner: build_english_german() }
    }

    /// The detector's answer for one text.
    pub fn detect(&self, text: &String) -> (r: Option<Detected>)
        ensures
            r == english_german_detection(text@),
    {
        detect_language_of(self, text)
    }
}

/// The front end's result for a detector answer.
pub open spec fn classify(g: Option<Detected>) -> LangResult {
    match g {
        Some(Detected::English) => LangResult::English,
        Some(Detected::German) => LangResult::German,
        _ => LangResult::Unknown,
    }
}

/// The front end's result for a detector answer: English and German are kept,
/// any other language and no answer are unknown.
pub fn lang_result(g: Option<Detected>) -> (r: LangResult)
    ensures
        r == classify(g),
{
    match g {
        Some(Detected::English) => LangResult::English,
        Some(Detected::German) => LangResult::German,
        _ => LangResult::Unknown,
    }
}

/// The result for each sentence, in order.
pub fn detect_languages(sentences: &Vec<String>) -> (r: Vec<LangResult>)
    ensures
        r@.len() == sentences@.len(),
        forall|i: int|
            0 <= i < sentences@.len() ==> #[trigger] r@[i] == classify(
                english_german_detection(sentences@[i]@),
            ),
{
    let detector = EnglishGermanDetector::new();
    let mut out: Vec<LangResult> = Vec::new();
    let mut i: usize = 0;
    while i < sentences.len()
        invariant
            i <= sentences@.len(),
            out@.len() == i,
            forall|j: int|
                0 <= j < i ==> #[trigger] out@[j] == classify(
                    english_german_detection(sentences@[j]@),
                ),
        decreases sentences@.len() - i,
    {
        let g = detector.detect(&sentences[i]);
        out.push(lang_result(g));
        i = i + 1;
    }
    out
}

} // verus!
