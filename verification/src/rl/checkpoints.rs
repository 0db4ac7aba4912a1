//! Naming of saved model checkpoints, and the choice of which checkpoint to
//! load and which to remove when cleaning a checkpoint directory.

use vstd::prelude::*;

use crate::decimal::{
    all_digits, decimal, digits_value, is_digit, lemma_decimal, lemma_decimal_len, lemma_digits_order,
    lemma_zeros_value, parse_usize, parsed_usize, pow10, push_decimal, unsigned_body,
};
use crate::text::{
    chars_of, concat_str, copy_str, ends_with, has_prefix, has_suffix, lemma_lex_common_prefix, lemma_lex_irreflexive,
    lemma_lex_same_length, lemma_lex_total, lemma_lex_transitive, lex_less, names, push_char, starts_with, str_less,
};

verus! {

/// File names of checkpoints start with this.
pub const CHECKPOINT_PREFIX: &'static str = "checkpoint_";

/// File name of the best model, saved beside the checkpoints.
pub const BEST_MODEL_FILENAME: &'static str = "best_model.json";

/// `name` is the file name of a checkpoint.
pub open spec fn is_checkpoint(name: Seq<char>) -> bool {
    has_prefix(name, "checkpoint_"@) && has_suffix(name, ".json"@)
}

/// Whether `name` is the file name of a checkpoint.
pub fn is_checkpoint_name(name: &str) -> (b: bool)
    ensures
        b == is_checkpoint(name@),
{
    starts_with(name, "checkpoint_") && ends_with(name, ".json")
}

/// The episode a checkpoint's file name records: the part between the
/// prefix and ".json", read as a number.
pub open spec fn episode_of(name: Seq<char>) -> Option<int> {
    parsed_usize(name.subrange(11, name.len() - 5))
}

/// The episode recorded in a checkpoint's file name, if it reads as one.
pub fn checkpoint_episode(name: &str) -> (r: Option<usize>)
    requires
        is_checkpoint(name@),
    ensures
        match episode_of(name@) {
            Some(v) => r matches Some(x) && x as int == v,
            None => r is None,
        },
{
    let cs = chars_of(name);
    proof {
        reveal_strlit("checkpoint_");
        reveal_strlit(".json");
        assert("checkpoint_"@.len() == 11);
        assert(".json"@.len() == 5);
        assert(cs@.len() >= 16) by {
            if cs@.len() < 16 {
                let n = cs@.len() as int;
                assert(cs@.take(11)[10] == '_');
                assert(cs@[10] == '_');
                assert(cs@.skip(n - 5)[15 - n] == cs@[10]);
                assert(".json"@[15 - n] == '_');
            }
        }
    }
    let mut middle: Vec<char> = Vec::new();
    let mut i: usize = 11;
    let end: usize = cs.len() - 5;
    while i < end
        invariant
            11 <= i <= end,
            end == cs@.len() - 5,
            cs@ == name@,
            middle@ == cs@.subrange(11, i as int),
        decreases end - i,
    {
        middle.push(cs[i]);
        i += 1;
        proof {
            assert(middle@ =~= cs@.subrange(11, i as int));
        }
    }
    let mut m = String::new();
    let mut k: usize = 0;
    while k < middle.len()
        invariant
            k <= middle@.len(),
            m@ == middle@.take(k as int),
        decreases middle@.len() - k,
    {
        push_char(&mut m, middle[k]);
        k += 1;
        proof {
            assert(m@ =~= middle@.take(k as int));
        }
    }
    proof {
        assert(middle@.take(middle@.len() as int) =~= middle@);
    }
    parse_usize(m.as_str())
}

/// Index of the checkpoint that `load_latest_checkpoint` picks among the
/// file names: the greatest checkpoint name, the last one among equals.
pub fn latest_checkpoint(files: &Vec<String>) -> (r: Option<usize>)
    ensures
        match r {
            None => forall|j: int| 0 <= j < files@.len() ==> !is_checkpoint(#[trigger] files@[j]@),
            Some(k) => {
                &&& k < files@.len()
                &&& is_checkpoint(files@[k as int]@)
                &&& forall|j: int|
                    0 <= j < files@.len() && is_checkpoint(#[trigger] files@[j]@) ==> (j <= k ==> !lex_less(
                        files@[k as int]@,
                        files@[j]@,
                    )) && (j > k ==> lex_less(files@[j]@, files@[k as int]@))
            },
        },
{
    let mut best: Option<usize> = None;
    let mut i: usize = 0;
    while i < files.len()
        invariant
            i <= files@.len(),
            match best {
                None => forall|j: int| 0 <= j < i ==> !is_checkpoint(#[trigger] files@[j]@),
                Some(k) => {
                    &&& k < i
                    &&& is_checkpoint(files@[k as int]@)
                    &&& forall|j: int|
                        0 <= j < i && is_checkpoint(#[trigger] files@[j]@) ==> (j <= k ==> !lex_less(
                            files@[k as int]@,
                            files@[j]@,
                        )) && (j > k ==> lex_less(files@[j]@, files@[k as int]@))
                },
            },
        decreases files@.len() - i,
    {
        if is_checkpoint_name(files[i].as_str()) {
            match best {
                None => {
                    proof {
                        lemma_lex_irreflexive(files@[i as int]@);
                    }
                    best = Some(i);
                },
                Some(k) => {
                    if !str_less(files[i].as_str(), files[k].as_str()) {
                        proof {
                            let ni = files@[i as int]@;
                            let nk = files@[k as int]@;
                            lemma_lex_irreflexive(ni);
                            assert forall|j: int|
                                0 <= j < i + 1 && is_checkpoint(#[trigger] files@[j]@) implies !lex_less(
                                ni,
                                files@[j]@,
                            ) by {
                                let nj = files@[j]@;
                                if j < i {
                                    if j <= k {
                                        if lex_less(ni, nj) {
                                            lemma_lex_total(nk, ni);
                                            if nk == ni {
                                            } else {
                                                lemma_lex_transitive(nk, ni, nj);
                                            }
                                        }
                                    } else {
                                        if lex_less(ni, nj) {
                                            lemma_lex_transitive(ni, nj, nk);
                                        }
                                    }
                                }
                            }
                        }
                        best = Some(i);
                    }
                },
            }
        }
        i += 1;
    }
    best
}

/// Number of checkpoints among the first `n` file names.
pub open spec fn checkpoint_count(files: Seq<Seq<char>>, n: int) -> nat
    decreases n,
{
    if n <= 0 {
        0
    } else {
        checkpoint_count(files, n - 1) + if is_checkpoint(files[n - 1]) {
            1nat
        } else {
            0nat
        }
    }
}

/// Checkpoint `j` comes after checkpoint `i` when the names are sorted
/// (a stable sort keeps equal names in their listed order).
pub open spec fn sorted_after(files: Seq<Seq<char>>, i: int, j: int) -> bool {
    is_checkpoint(files[j]) && (lex_less(files[i], files[j]) || (files[j] == files[i] && j > i))
}

/// Number of checkpoints among the first `n` names that come after
/// checkpoint `i` in sorted order.
pub open spec fn count_after(files: Seq<Seq<char>>, i: int, n: int) -> nat
    decreases n,
{
    if n <= 0 {
        0
    } else {
        count_after(files, i, n - 1) + if sorted_after(files, i, n - 1) {
            1nat
        } else {
            0nat
        }
    }
}

/// Checkpoint `i` is old enough to remove: there are more checkpoints than
/// are kept, and at least `keep_latest` of them come after it.
pub open spec fn beyond_latest(files: Seq<Seq<char>>, keep_latest: nat, i: int) -> bool {
    &&& is_checkpoint(files[i])
    &&& checkpoint_count(files, files.len() as int) > keep_latest
    &&& count_after(files, i, files.len() as int) >= keep_latest
}

/// Checkpoint `i` is removed: it is old enough and not kept for falling on
/// the interval.
pub open spec fn removed(files: Seq<Seq<char>>, keep_latest: nat, keep_interval: Option<usize>, i: int) -> bool {
    &&& beyond_latest(files, keep_latest, i)
    &&& !(keep_interval matches Some(iv) && episode_of(files[i]) matches Some(e) && e % (iv as int) == 0)
}

/// Indices of the checkpoints that `clean_old_checkpoints` removes from a
/// directory with these file names: all but the `keep_latest` last ones in
/// name order, sparing, with an interval, those whose episode it divides.
/// An interval of zero is refused wherever it would be used.
pub fn checkpoints_to_delete(files: &Vec<String>, keep_latest: usize, keep_interval: Option<usize>) -> (r: Vec<
    usize,
>)
    requires
        keep_interval == Some(0usize) ==> forall|i: int|
            0 <= i < files@.len() && beyond_latest(names(files@), keep_latest as nat, i) ==> episode_of(
                #[trigger] files@[i]@,
            ) is None,
    ensures
        forall|a: int, b: int| 0 <= a < b < r@.len() ==> r@[a] < r@[b],
        forall|a: int|
            0 <= a < r@.len() ==> r@[a] < files@.len() && removed(
                names(files@),
                keep_latest as nat,
                keep_interval,
                #[trigger] r@[a] as int,
            ),
        forall|i: int|
            0 <= i < files@.len() && removed(names(files@), keep_latest as nat, keep_interval, i) ==> r@.contains(
                i as usize,
            ),
{
    let ghost fs = names(files@);
    let mut total: usize = 0;
    let mut i: usize = 0;
    while i < files.len()
        invariant
            i <= files@.len(),
            fs == names(files@),
            total == checkpoint_count(fs, i as int),
            total <= i,
        decreases files@.len() - i,
    {
        if is_checkpoint_name(files[i].as_str()) {
            total += 1;
        }
        i += 1;
    }
    let mut out: Vec<usize> = Vec::new();
    if total <= keep_latest {
        return out;
    }
    let mut i: usize = 0;
    while i < files.len()
        invariant
            i <= files@.len(),
            fs == names(files@),
            total == checkpoint_count(fs, files@.len() as int),
            total > keep_latest,
            keep_interval == Some(0usize) ==> forall|k: int|
                0 <= k < files@.len() && beyond_latest(fs, keep_latest as nat, k) ==> episode_of(
                    #[trigger] files@[k]@,
                ) is None,
            forall|a: int, b: int| 0 <= a < b < out@.len() ==> out@[a] < out@[b],
            forall|a: int| 0 <= a < out@.len() ==> out@[a] < i,
            forall|a: int|
                0 <= a < out@.len() ==> removed(fs, keep_latest as nat, keep_interval, #[trigger] out@[a] as int),
            forall|k: int| 0 <= k < i && removed(fs, keep_latest as nat, keep_interval, k) ==> out@.contains(k as usize),
        decreases files@.len() - i,
    {
        proof {
            assert(fs[i as int] == files@[i as int]@);
        }
        if is_checkpoint_name(files[i].as_str()) {
            let mut after: usize = 0;
            let mut j: usize = 0;
            while j < files.len()
                invariant
                    j <= files@.len(),
                    i < files@.len(),
                    fs == names(files@),
                    after == count_after(fs, i as int, j as int),
                    after <= j,
                decreases files@.len() - j,
            {
                proof {
                    assert(fs[j as int] == files@[j as int]@);
                    assert(fs[i as int] == files@[i as int]@);
                }
                if is_checkpoint_name(files[j].as_str()) {
                    let li = str_less(files[i].as_str(), files[j].as_str());
                    let later = li || (j > i && str_eq_strings(&files[j], &files[i]));
                    if later {
                        after += 1;
                    }
                }
                j += 1;
            }
            if after >= keep_latest {
                let spared = match keep_interval {
                    Some(iv) => match checkpoint_episode(files[i].as_str()) {
                        Some(e) => e % iv == 0,
                        None => false,
                    },
                    None => false,
                };
                if !spared {
                    let ghost before = out@;
                    out.push(i);
                    proof {
                        assert forall|k: int|
                            0 <= k < i + 1 && removed(
                                fs,
                                keep_latest as nat,
                                keep_interval,
                                k,
                            ) implies out@.contains(k as usize) by {
                            if k < i {
                                assert(before.contains(k as usize));
                                let w = choose|w: int| 0 <= w < before.len() && before[w] == k as usize;
                                assert(out@[w] == k as usize);
                            } else {
                                assert(out@[out@.len() - 1] == i);
                            }
                        }
                    }
                } else {
                    proof {
                        assert forall|k: int|
                            0 <= k < i + 1 && removed(
                                fs,
                                keep_latest as nat,
                                keep_interval,
                                k,
                            ) implies out@.contains(k as usize) by {
                            if k == i {
                                assert(!removed(fs, keep_latest as nat, keep_interval, k));
                            }
                        }
                    }
                }
            } else {
                proof {
                    assert(!removed(fs, keep_latest as nat, keep_interval, i as int));
                }
            }
        } else {
            proof {
                assert(!removed(fs, keep_latest as nat, keep_interval, i as int));
            }
        }
        i += 1;
    }
    out
}

/// Whether two strings hold the same characters.
fn str_eq_strings(a: &String, b: &String) -> (r: bool)
    ensures
        r == (a@ == b@),
{
    crate::text::str_eq(a.as_str(), b.as_str())
}

/// `s` padded on the left with zeros to at least `width` characters.
pub open spec fn zero_padded(s: Seq<char>, width: nat) -> Seq<char> {
    if s.len() >= width {
        s
    } else {
        Seq::new((width - s.len()) as nat, |i: int| '0') + s
    }
}

/// The file name of the checkpoint saved after `episode`: the prefix, the
/// episode in at least six digits, and ".json".
pub open spec fn checkpoint_name(episode: nat) -> Seq<char> {
    "checkpoint_"@ + zero_padded(decimal(episode), 6) + ".json"@
}

/// The file name under which the checkpoint of `episode` is saved.
pub fn checkpoint_file_name(episode: usize) -> (name: String)
    ensures
        name@ == checkpoint_name(episode as nat),
{
    let mut digits = String::new();
    push_decimal(&mut digits, episode);
    let len = digits.as_str().unicode_len();
    let mut name = copy_str("checkpoint_");
    let ghost head = name@;
    let mut k: usize = len;
    while k < 6
        invariant
            len <= k <= 6 || (len > 6 && k == len),
            len == decimal(episode as nat).len(),
            name@ == head + Seq::new((k - len) as nat, |i: int| '0'),
        decreases 6 - k,
    {
        push_char(&mut name, '0');
        proof {
            assert(name@ =~= head + Seq::new((k + 1 - len) as nat, |i: int| '0'));
        }
        k += 1;
    }
    let with_digits = concat_str(name.as_str(), digits.as_str());
    let full = concat_str(with_digits.as_str(), ".json");
    proof {
        let d = decimal(episode as nat);
        if d.len() >= 6 {
            assert(Seq::new((k - len) as nat, |i: int| '0') =~= Seq::<char>::empty());
            assert(full@ =~= checkpoint_name(episode as nat));
        } else {
            assert(full@ =~= checkpoint_name(episode as nat));
        }
    }
    full
}

/// Law: a checkpoint saved after any episode is recognised as a checkpoint
/// by its file name, and the episode read back from the name is the one it
/// was saved after, so interval cleaning spares exactly what it should.
pub proof fn lemma_checkpoint_name_round_trip(episode: usize)
    ensures
        is_checkpoint(checkpoint_name(episode as nat)),
        episode_of(checkpoint_name(episode as nat)) == Some(episode as int),
{
    reveal_strlit("checkpoint_");
    reveal_strlit(".json");
    let d = decimal(episode as nat);
    lemma_decimal(episode as nat);
    let p = zero_padded(d, 6);
    let n = checkpoint_name(episode as nat);
    assert(n.take(11) =~= "checkpoint_"@);
    assert(n.skip(n.len() - 5) =~= ".json"@);
    assert(n.subrange(11, n.len() - 5) =~= p);
    if d.len() < 6 {
        let z = (6 - d.len()) as nat;
        lemma_zeros_value(z, d);
        assert forall|i: int| 0 <= i < p.len() implies is_digit(#[trigger] p[i]) by {
            if i >= z {
                assert(p[i] == d[i - z]);
            }
        }
    }
    assert(all_digits(p));
    assert(is_digit(p[0]));
    assert(unsigned_body(p) == p);
}

proof fn lemma_padded_digits(n: nat)
    requires
        n < 1_000_000,
    ensures
        zero_padded(decimal(n), 6).len() == 6,
        all_digits(zero_padded(decimal(n), 6)),
        digits_value(zero_padded(decimal(n), 6)) == n,
{
    lemma_decimal(n);
    assert(pow10(6) == 1_000_000) by {
        reveal_with_fuel(pow10, 7);
    }
    lemma_decimal_len(n, 6);
    let d = decimal(n);
    let p = zero_padded(d, 6);
    if d.len() < 6 {
        let z = (6 - d.len()) as nat;
        lemma_zeros_value(z, d);
        assert forall|i: int| 0 <= i < p.len() implies is_digit(#[trigger] p[i]) by {
            if i >= z {
                assert(p[i] == d[i - z]);
            }
        }
    }
}

/// Law: checkpoint file names sort as the episodes they were saved after,
/// for episodes below one million (the names carry six digits), so the
/// greatest name is the latest checkpoint and cleaning keeps the latest
/// episodes.
pub proof fn lemma_checkpoint_names_follow_episodes(a: usize, b: usize)
    requires
        a < 1_000_000,
        b < 1_000_000,
    ensures
        lex_less(checkpoint_name(a as nat), checkpoint_name(b as nat)) == (a < b),
{
    let pa = zero_padded(decimal(a as nat), 6);
    let pb = zero_padded(decimal(b as nat), 6);
    lemma_padded_digits(a as nat);
    lemma_padded_digits(b as nat);
    let pre = "checkpoint_"@;
    let suf = ".json"@;
    assert(checkpoint_name(a as nat) =~= pre + (pa + suf));
    assert(checkpoint_name(b as nat) =~= pre + (pb + suf));
    lemma_lex_common_prefix(pre, pa + suf, pb + suf);
    lemma_lex_same_length(pa, pb, suf);
    lemma_digits_order(pa, pb);
}

} // verus!
