//! Personality traits of agents and the guidelines they add to prompts.

use vstd::prelude::*;

use crate::text::{concat_str, copy_str, join, join_strings, lemma_names_push, names};

verus! {

/// The traits an agent's personality is described by.
#[derive(Debug, Clone, Copy, PartialEq, Eq, Hash, Structural)]
pub enum PersonalityTrait {
    Friendliness,
    Verbosity,
    Proactivity,
    Humor,
    Technical,
    Patience,
}

/// Where a trait's value falls: below the trait's lower threshold, above
/// its upper one, or between. The thresholds are 0.3 and 0.7, except for
/// humour (0.2 and 0.6); the values themselves are fractions kept by the
/// caller.
#[derive(Debug, Clone, Copy, PartialEq, Eq, Structural)]
pub enum TraitLevel {
    Low,
    Neutral,
    High,
}

/// The guideline for one trait at one level, if any.
pub open spec fn guideline(t: PersonalityTrait, level: TraitLevel) -> Option<Seq<char>> {
    match (t, level) {
        (PersonalityTrait::Friendliness, TraitLevel::High) => Some("Be warm and friendly"@),
        (PersonalityTrait::Friendliness, TraitLevel::Low) => Some("Be formal and professional"@),
        (PersonalityTrait::Verbosity, TraitLevel::High) => Some("Provide detailed, comprehensive responses"@),
        (PersonalityTrait::Verbosity, TraitLevel::Low) => Some("Be concise and to-the-point"@),
        (PersonalityTrait::Humor, TraitLevel::High) => Some("Use appropriate humor when suitable"@),
        (PersonalityTrait::Humor, TraitLevel::Low) => Some("Maintain a serious, professional tone"@),
        (PersonalityTrait::Technical, TraitLevel::High) => Some(
            "Use technical terminology and detailed explanations"@,
        ),
        (PersonalityTrait::Technical, TraitLevel::Low) => Some("Use simple, accessible language"@),
        _ => None,
    }
}

/// The guidelines for friendliness, verbosity, humour and technicality, in
/// that order.
pub open spec fn guidelines(f: TraitLevel, v: TraitLevel, h: TraitLevel, t: TraitLevel) -> Seq<Seq<char>> {
    let one = |g: Option<Seq<char>>| -> Seq<Seq<char>> {
        match g {
            Some(s) => seq![s],
            None => Seq::empty(),
        }
    };
    one(guideline(PersonalityTrait::Friendliness, f)) + one(guideline(PersonalityTrait::Verbosity, v)) + one(
        guideline(PersonalityTrait::Humor, h),
    ) + one(guideline(PersonalityTrait::Technical, t))
}

/// The text added to a prompt: nothing without guidelines, otherwise
/// "Personality guidelines: " and the guidelines joined by ". ".
pub open spec fn prompt_modifier_text(gs: Seq<Seq<char>>) -> Seq<char> {
    if gs.len() == 0 {
        Seq::empty()
    } else {
        "\n\nPersonality guidelines: "@ + join(gs, ". "@)
    }
}

/// Appends the guideline for a trait at a level, if it has one.
fn push_guideline(v: &mut Vec<String>, t: PersonalityTrait, level: TraitLevel)
    ensures
        names(final(v)@) == names(old(v)@) + match guideline(t, level) {
            Some(s) => seq![s],
            None => Seq::<Seq<char>>::empty(),
        },
{
    let text: Option<&str> = match (t, level) {
        (PersonalityTrait::Friendliness, TraitLevel::High) => Some("Be warm and friendly"),
        (PersonalityTrait::Friendliness, TraitLevel::Low) => Some("Be formal and professional"),
        (PersonalityTrait::Verbosity, TraitLevel::High) => Some("Provide detailed, comprehensive responses"),
        (PersonalityTrait::Verbosity, TraitLevel::Low) => Some("Be concise and to-the-point"),
        (PersonalityTrait::Humor, TraitLevel::High) => Some("Use appropriate humor when suitable"),
        (PersonalityTrait::Humor, TraitLevel::Low) => Some("Maintain a serious, professional tone"),
        (PersonalityTrait::Technical, TraitLevel::High) => Some("Use technical terminology and detailed explanations"),
        (PersonalityTrait::Technical, TraitLevel::Low) => Some("Use simple, accessible language"),
        _ => None,
    };
    let ghost before = v@;
    match text {
        Some(s) => {
            let g = copy_str(s);
            v.push(g);
            proof {
                lemma_names_push(before, g);
            }
        },
        None => {
            proof {
                assert(names(v@) =~= names(before) + Seq::<Seq<char>>::empty());
            }
        },
    }
}

/// The personality guidelines for a prompt, from the levels of
/// friendliness, verbosity, humour and technicality.
pub fn prompt_modifier(
    friendliness: TraitLevel,
    verbosity: TraitLevel,
    humor: TraitLevel,
    technical: TraitLevel,
) -> (s: String)
    ensures
        s@ == prompt_modifier_text(guidelines(friendliness, verbosity, humor, technical)),
{
    let mut v: Vec<String> = Vec::new();
    push_guideline(&mut v, PersonalityTrait::Friendliness, friendliness);
    push_guideline(&mut v, PersonalityTrait::Verbosity, verbosity);
    push_guideline(&mut v, PersonalityTrait::Humor, humor);
    push_guideline(&mut v, PersonalityTrait::Technical, technical);
    proof {
        assert(names(v@) =~= guidelines(friendliness, verbosity, humor, technical));
    }
    if v.len() == 0 {
        String::new()
    } else {
        let joined = join_strings(&v, ". ");
        concat_str("\n\nPersonality guidelines: ", joined.as_str())
    }
}

} // verus!
