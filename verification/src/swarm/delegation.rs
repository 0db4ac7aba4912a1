//! The keyword side of task delegation: which words of a task an agent's
//! expertise is matched against, how many match, and how expertise grows.

use vstd::prelude::*;

use crate::task_intelligence::features::{extract_keywords, keywords_of};
use crate::text::{lemma_names_push, names, str_eq};

verus! {

/// The words a task is matched on: its first five keywords (lower-cased
/// words of more than three bytes).
pub open spec fn delegation_keywords_of(desc: Seq<char>) -> Seq<Seq<char>> {
    let ks = keywords_of(desc);
    ks.take(
        if ks.len() < 5 {
            ks.len() as int
        } else {
            5
        },
    )
}

/// The words a task is matched on.
pub fn delegation_keywords(description: &str) -> (r: Vec<String>)
    ensures
        names(r@) == delegation_keywords_of(description@),
{
    let ks = extract_keywords(description);
    let n: usize = if ks.len() < 5 {
        ks.len()
    } else {
        5
    };
    let mut r: Vec<String> = Vec::new();
    let mut i: usize = 0;
    while i < n
        invariant
            i <= n <= ks@.len(),
            names(r@) == names(ks@).take(i as int),
        decreases n - i,
    {
        let ghost before = r@;
        r.push(ks[i].clone());
        proof {
            lemma_names_push(before, ks@[i as int]);
            assert(names(ks@).take(i + 1) =~= names(ks@).take(i as int).push(ks@[i as int]@));
        }
        i += 1;
    }
    r
}

/// Keywords that are among the agent's expertise.
pub open spec fn in_expertise(expertise: Seq<Seq<char>>) -> spec_fn(Seq<char>) -> bool {
    |k: Seq<char>| expertise.contains(k)
}

/// Whether `x` is among `v`.
fn contains_name(v: &Vec<String>, x: &str) -> (b: bool)
    ensures
        b == names(v@).contains(x@),
{
    let mut i: usize = 0;
    while i < v.len()
        invariant
            i <= v@.len(),
            forall|k: int| 0 <= k < i ==> v@[k]@ != x@,
        decreases v@.len() - i,
    {
        if str_eq(v[i].as_str(), x) {
            proof {
                assert(names(v@)[i as int] == x@);
            }
            return true;
        }
        i += 1;
    }
    proof {
        if names(v@).contains(x@) {
            let k = choose|k: int| 0 <= k < names(v@).len() && names(v@)[k] == x@;
            assert(v@[k]@ == x@);
        }
    }
    false
}

/// Number of the task's keywords (counted with repetition) that are among
/// the agent's expertise: the numerator of its expertise score.
pub fn expertise_matches(expertise: &Vec<String>, keywords: &Vec<String>) -> (n: usize)
    ensures
        n == names(keywords@).filter(in_expertise(names(expertise@))).len(),
{
    let ghost ks = names(keywords@);
    let ghost pred = in_expertise(names(expertise@));
    let mut n: usize = 0;
    let mut i: usize = 0;
    while i < keywords.len()
        invariant
            i <= keywords@.len(),
            ks == names(keywords@),
            pred == in_expertise(names(expertise@)),
            n == ks.take(i as int).filter(pred).len(),
            n <= i,
        decreases keywords@.len() - i,
    {
        proof {
            reveal_with_fuel(Seq::filter, 1);
            assert(ks.take(i + 1).drop_last() =~= ks.take(i as int));
            assert(ks.take(i + 1).last() == keywords@[i as int]@);
        }
        if contains_name(expertise, keywords[i].as_str()) {
            n += 1;
        }
        i += 1;
    }
    proof {
        assert(ks.take(keywords@.len() as int) =~= ks);
    }
    n
}

/// The expertise after a task: each of its keywords not yet known is
/// added, in order.
pub open spec fn grown_expertise(expertise: Seq<Seq<char>>, keywords: Seq<Seq<char>>) -> Seq<Seq<char>>
    decreases keywords.len(),
{
    if keywords.len() == 0 {
        expertise
    } else {
        let e = grown_expertise(expertise, keywords.drop_last());
        if e.contains(keywords.last()) {
            e
        } else {
            e.push(keywords.last())
        }
    }
}

/// Adds the keywords the agent did not yet know to its expertise.
pub fn add_expertise(expertise: &mut Vec<String>, keywords: Vec<String>)
    ensures
        names(final(expertise)@) == grown_expertise(names(old(expertise)@), names(keywords@)),
{
    let ghost ks = names(keywords@);
    let ghost start = names(expertise@);
    let mut i: usize = 0;
    while i < keywords.len()
        invariant
            i <= keywords@.len(),
            ks == names(keywords@),
            start == names(old(expertise)@),
            names(expertise@) == grown_expertise(start, ks.take(i as int)),
        decreases keywords@.len() - i,
    {
        proof {
            assert(ks.take(i + 1).drop_last() =~= ks.take(i as int));
            assert(ks.take(i + 1).last() == keywords@[i as int]@);
        }
        if !contains_name(expertise, keywords[i].as_str()) {
            let ghost before = expertise@;
            expertise.push(keywords[i].clone());
            proof {
                lemma_names_push(before, keywords@[i as int]);
            }
        }
        i += 1;
    }
    proof {
        assert(ks.take(keywords@.len() as int) =~= ks);
    }
}

} // verus!
