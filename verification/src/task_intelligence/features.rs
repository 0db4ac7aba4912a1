//! Features of a task description: keywords, keyword families, word count
//! and the inputs of the complexity estimate.

use vstd::prelude::*;

use crate::text::{
    chars_contain, chars_of, contains_any, has_any_substring, has_substring, lowercase_of, names,
    split_whitespace, to_lowercase, words,
};
use crate::types::TaskPriority;
use vstd::utf8::encode_utf8;

verus! {

/// Length in bytes of the UTF-8 encoding of `w`.
pub open spec fn utf8_len(w: Seq<char>) -> nat {
    encode_utf8(w).len()
}

/// A keyword is a word of more than three bytes. (Every stop word that the
/// extraction leaves out — "the", "a", "an", "and", "or", "but", "in",
/// "on", "at", "to", "for" — has at most three bytes, so this rule covers them.)
pub open spec fn is_keyword(w: Seq<char>) -> bool {
    utf8_len(w) > 3
}

/// Bytes that `c` takes in UTF-8.
pub open spec fn char_width(c: char) -> nat {
    if (c as u32) <= 0x7F {
        1
    } else if (c as u32) <= 0x7FF {
        2
    } else if (c as u32) <= 0xFFFF {
        3
    } else {
        4
    }
}

pub open spec fn width_sum(w: Seq<char>) -> nat
    decreases w.len(),
{
    if w.len() == 0 {
        0
    } else {
        char_width(w[0]) + width_sum(w.drop_first())
    }
}

proof fn lemma_width_sum(w: Seq<char>)
    ensures
        encode_utf8(w).len() == width_sum(w),
    decreases w.len(),
{
    if w.len() > 0 {
        vstd::utf8::char_is_scalar(w[0]);
        lemma_width_sum(w.drop_first());
    }
}

proof fn lemma_suffix_width_mono(w: Seq<char>, i: int, j: int)
    requires
        0 <= i <= j <= w.len(),
    ensures
        width_sum(w.skip(j)) <= width_sum(w.skip(i)),
    decreases j - i,
{
    if i < j {
        assert(w.skip(i).drop_first() =~= w.skip(i + 1));
        lemma_suffix_width_mono(w, i + 1, j);
    }
}

/// Whether `w` takes more than three bytes in UTF-8.
pub fn is_keyword_exec(w: &str) -> (b: bool)
    ensures
        b == is_keyword(w@),
{
    let cs = chars_of(w);
    let mut i: usize = cs.len();
    let mut acc: usize = 0;
    while i > 0
        invariant
            i <= cs@.len(),
            cs@ == w@,
            acc == width_sum(cs@.skip(i as int)),
            acc <= 3,
        decreases i,
    {
        let c = cs[i - 1];
        let cw: usize = if (c as u32) <= 0x7F {
            1
        } else if (c as u32) <= 0x7FF {
            2
        } else if (c as u32) <= 0xFFFF {
            3
        } else {
            4
        };
        proof {
            assert(cs@.skip(i - 1).drop_first() =~= cs@.skip(i as int));
            assert(cs@.skip(i - 1)[0] == c);
        }
        assert(cw == char_width(c));
        acc = acc + cw;
        i -= 1;
        assert(acc == width_sum(cs@.skip(i as int)));
        if acc > 3 {
            proof {
                lemma_suffix_width_mono(cs@, 0, i as int);
                lemma_width_sum(cs@);
                assert(cs@.skip(0) =~= cs@);
                assert(cs@ == w@);
            }
            return true;
        }
    }
    proof {
        assert(cs@.skip(0) =~= cs@);
        lemma_width_sum(cs@);
    }
    false
}

pub open spec fn keyword_pred() -> spec_fn(Seq<char>) -> bool {
    |w: Seq<char>| is_keyword(w)
}

/// Keywords of a description: the words of its lower-cased form that are keywords.
pub open spec fn keywords_of(desc: Seq<char>) -> Seq<Seq<char>> {
    words(lowercase_of(desc)).filter(keyword_pred())
}

/// Number of needles that occur in `hay`.
pub open spec fn count_present(hay: Seq<char>, needles: Seq<Seq<char>>) -> nat
    decreases needles.len(),
{
    if needles.len() == 0 {
        0
    } else {
        count_present(hay, needles.drop_last()) + if has_substring(hay, needles.last()) {
            1nat
        } else {
            0nat
        }
    }
}

/// The literals of a slice of string slices, as character sequences.
pub open spec fn literals(xs: Seq<&str>) -> Seq<Seq<char>> {
    xs.map_values(|s: &str| s@)
}

pub open spec fn urgency_words() -> Seq<Seq<char>> {
    seq!["urgent"@, "critical"@, "asap"@, "immediately"@, "emergency"@, "hotfix"@]
}

pub open spec fn security_words() -> Seq<Seq<char>> {
    seq!["security"@, "vulnerability"@, "exploit"@, "breach"@, "attack"@]
}

pub open spec fn bug_words() -> Seq<Seq<char>> {
    seq!["bug"@, "fix"@, "error"@, "crash"@, "issue"@, "problem"@]
}

pub open spec fn feature_words() -> Seq<Seq<char>> {
    seq!["feature"@, "implement"@, "add"@, "create"@, "new"@]
}

pub open spec fn complexity_words() -> Seq<Seq<char>> {
    seq![
        "complex"@,
        "difficult"@,
        "challenging"@,
        "multiple"@,
        "integrate"@,
        "system"@,
        "architecture"@,
        "refactor"@,
        "migrate"@,
        "implement"@,
    ]
}

/// Number of `needles` that occur in `hay`.
pub fn count_substrings(hay: &str, needles: &[&str]) -> (r: usize)
    ensures
        r == count_present(hay@, literals(needles@)),
{
    let h = chars_of(hay);
    let ghost ns = literals(needles@);
    let mut count: usize = 0;
    let mut k: usize = 0;
    while k < needles.len()
        invariant
            k <= needles@.len(),
            h@ == hay@,
            ns == literals(needles@),
            count == count_present(hay@, ns.take(k as int)),
            count <= k,
        decreases needles@.len() - k,
    {
        let n = chars_of(needles[k]);
        proof {
            assert(ns.take(k + 1).drop_last() =~= ns.take(k as int));
            assert(ns[k as int] == needles@[k as int]@);
        }
        if chars_contain(&h, &n) {
            count += 1;
        }
        k += 1;
    }
    proof {
        assert(ns.take(needles@.len() as int) =~= ns);
    }
    count
}

/// Keywords of a description: its lower-cased words of more than three bytes.
pub fn extract_keywords(description: &str) -> (ks: Vec<String>)
    ensures
        names(ks@) == keywords_of(description@),
{
    let lower = to_lowercase(description);
    let ws = split_whitespace(lower.as_str());
    let ghost all = words(lowercase_of(description@));
    let mut ks: Vec<String> = Vec::new();
    let mut i: usize = 0;
    while i < ws.len()
        invariant
            i <= ws@.len(),
            ws@.len() == all.len(),
            forall|k: int| 0 <= k < ws@.len() ==> #[trigger] ws@[k]@ == all[k],
            names(ks@) == all.take(i as int).filter(keyword_pred()),
        decreases ws@.len() - i,
    {
        let w = &ws[i];
        let ghost before = ks@;
        proof {
            reveal_with_fuel(Seq::filter, 1);
            assert(all.take(i + 1).drop_last() =~= all.take(i as int));
            assert(all.take(i + 1).last() == w@);
        }
        if is_keyword_exec(w.as_str()) {
            ks.push(w.clone());
            proof {
                assert(names(ks@) =~= names(before).push(w@));
            }
        }
        i += 1;
    }
    proof {
        assert(all.take(ws@.len() as int) =~= all);
    }
    ks
}

/// How far the complexity estimate of a task goes past the thresholds that
/// the priority and decomposition rules use (more than 0.6, more than 0.7).
/// The estimate itself is a floating-point blend of word count and
/// complexity words, computed by the caller.
#[derive(Debug, Clone, Copy, PartialEq, Eq, Structural)]
pub enum ComplexityBand {
    /// At most 0.6.
    Low,
    /// Above 0.6, at most 0.7.
    Moderate,
    /// Above 0.7.
    High,
}

/// Features extracted from a task description.
#[derive(Debug)]
pub struct TaskFeatures {
    pub keywords: Vec<String>,
    /// Number of complexity words present (input of the complexity estimate).
    pub complexity_matches: usize,
    pub word_count: usize,
    pub has_urgency_keywords: bool,
    pub has_security_keywords: bool,
    pub has_bug_keywords: bool,
    pub has_feature_keywords: bool,
}

impl TaskFeatures {
    /// The features that `extract` computes from `desc`.
    pub open spec fn spec_of(self, desc: Seq<char>) -> bool {
        let lower = lowercase_of(desc);
        &&& names(self.keywords@) == keywords_of(desc)
        &&& self.complexity_matches == count_present(lower, complexity_words())
        &&& self.word_count == words(desc).len()
        &&& self.has_urgency_keywords == has_any_substring(lower, urgency_words())
        &&& self.has_security_keywords == has_any_substring(lower, security_words())
        &&& self.has_bug_keywords == has_any_substring(lower, bug_words())
        &&& self.has_feature_keywords == has_any_substring(lower, feature_words())
    }

    /// Extracts the features of a task description.
    pub fn extract(description: &str) -> (f: Self)
        ensures
            f.spec_of(description@),
    {
        let lower = to_lowercase(description);
        let urgency = vec!["urgent", "critical", "asap", "immediately", "emergency", "hotfix"];
        let security = vec!["security", "vulnerability", "exploit", "breach", "attack"];
        let bug = vec!["bug", "fix", "error", "crash", "issue", "problem"];
        let feature = vec!["feature", "implement", "add", "create", "new"];
        let complexity = vec![
            "complex",
            "difficult",
            "challenging",
            "multiple",
            "integrate",
            "system",
            "architecture",
            "refactor",
            "migrate",
            "implement",
        ];
        proof {
            assert(literals(urgency@) =~= urgency_words());
            assert(literals(security@) =~= security_words());
            assert(literals(bug@) =~= bug_words());
            assert(literals(feature@) =~= feature_words());
            assert(literals(complexity@) =~= complexity_words());
        }
        let has_urgency_keywords = contains_any(lower.as_str(), urgency.as_slice());
        let has_security_keywords = contains_any(lower.as_str(), security.as_slice());
        let has_bug_keywords = contains_any(lower.as_str(), bug.as_slice());
        let has_feature_keywords = contains_any(lower.as_str(), feature.as_slice());
        let complexity_matches = count_substrings(lower.as_str(), complexity.as_slice());
        let keywords = extract_keywords(description);
        let word_count = split_whitespace(description).len();
        TaskFeatures {
            keywords,
            complexity_matches,
            word_count,
            has_urgency_keywords,
            has_security_keywords,
            has_bug_keywords,
            has_feature_keywords,
        }
    }
}

/// Priority from the features alone, for when no history is available.
pub open spec fn spec_heuristic_priority(
    urgent: bool,
    security: bool,
    bug: bool,
    feature: bool,
    band: ComplexityBand,
) -> TaskPriority {
    if security || urgent {
        TaskPriority::High
    } else if bug && band == ComplexityBand::High {
        TaskPriority::High
    } else if bug {
        TaskPriority::Medium
    } else if feature && band != ComplexityBand::Low {
        TaskPriority::Medium
    } else {
        TaskPriority::Low
    }
}

/// Priority from the features alone: security or urgency words give High,
/// bugs give Medium (High when the task is very complex), complex features
/// give Medium, everything else Low.
pub fn heuristic_priority(features: &TaskFeatures, band: ComplexityBand) -> (p: TaskPriority)
    ensures
        p == spec_heuristic_priority(
            features.has_urgency_keywords,
            features.has_security_keywords,
            features.has_bug_keywords,
            features.has_feature_keywords,
            band,
        ),
{
    if features.has_security_keywords || features.has_urgency_keywords {
        return TaskPriority::High;
    }
    if features.has_bug_keywords && band == ComplexityBand::High {
        return TaskPriority::High;
    }
    if features.has_bug_keywords {
        return TaskPriority::Medium;
    }
    if features.has_feature_keywords && band != ComplexityBand::Low {
        return TaskPriority::Medium;
    }
    TaskPriority::Low
}


/// Security or urgency words make a task High priority, whatever else the
/// features say and however complex the task is.
pub proof fn lemma_urgent_or_secure_is_high(urgent: bool, security: bool, bug: bool, feature: bool, band: ComplexityBand)
    requires
        urgent || security,
    ensures
        spec_heuristic_priority(urgent, security, bug, feature, band) == TaskPriority::High,
{
}

/// A task with a bug is never Low priority, and a very complex one with a
/// bug is High; a task is Low only when it has no security, urgency or bug
/// words (and is not a feature of some complexity).
pub proof fn lemma_heuristic_priority_floor(urgent: bool, security: bool, bug: bool, feature: bool, band: ComplexityBand)
    ensures
        bug ==> spec_heuristic_priority(urgent, security, bug, feature, band) != TaskPriority::Low,
        bug && band == ComplexityBand::High ==> spec_heuristic_priority(urgent, security, bug, feature, band)
            == TaskPriority::High,
        spec_heuristic_priority(urgent, security, bug, feature, band) == TaskPriority::Low ==> !urgent && !security
            && !bug && !(feature && band != ComplexityBand::Low),
        spec_heuristic_priority(urgent, security, bug, feature, band) != TaskPriority::Critical,
        spec_heuristic_priority(urgent, security, bug, feature, band) != TaskPriority::Inital,
        !urgent && !security && bug && band != ComplexityBand::High ==> spec_heuristic_priority(
            urgent,
            security,
            bug,
            feature,
            band,
        ) == TaskPriority::Medium,
        !urgent && !security && !bug && feature && band != ComplexityBand::Low ==> spec_heuristic_priority(
            urgent,
            security,
            bug,
            feature,
            band,
        ) == TaskPriority::Medium,
        !urgent && !security && !bug && !(feature && band != ComplexityBand::Low) ==> spec_heuristic_priority(
            urgent,
            security,
            bug,
            feature,
            band,
        ) == TaskPriority::Low,
{
}

} // verus!
