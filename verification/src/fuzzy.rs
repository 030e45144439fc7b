//! Character-level similarity ratio of two strings, computed from the edit
//! script that the `similar` crate produces.
use vstd::prelude::*;

verus! {

/// One operation of a character diff between an old and a new sequence.
#[derive(Clone, Copy, Debug, PartialEq, Eq)]
pub enum DiffStep {
    /// `len` characters agree, starting at `old_index` and `new_index`.
    Equal { old_index: usize, new_index: usize, len: usize },
    /// `old_len` characters of the old sequence are dropped.
    Delete { old_index: usize, old_len: usize, new_index: usize },
    /// `new_len` characters of the new sequence are added.
    Insert { old_index: usize, new_index: usize, new_len: usize },
    /// `old_len` old characters are replaced by `new_len` new ones.
    Replace { old_index: usize, old_len: usize, new_index: usize, new_len: usize },
}

impl DiffStep {
    /// Number of old characters the step covers.
    pub open spec fn old_span(self) -> int {
        match self {
            DiffStep::Equal { len, .. } => len as int,
            DiffStep::Delete { old_len, .. } => old_len as int,
            DiffStep::Insert { .. } => 0,
            DiffStep::Replace { old_len, .. } => old_len as int,
        }
    }

    /// Number of new characters the step covers.
    pub open spec fn new_span(self) -> int {
        match self {
            DiffStep::Equal { len, .. } => len as int,
            DiffStep::Delete { .. } => 0,
            DiffStep::Insert { new_len, .. } => new_len as int,
            DiffStep::Replace { new_len, .. } => new_len as int,
        }
    }

    /// Number of characters the step keeps unchanged.
    pub open spec fn kept(self) -> int {
        match self {
            DiffStep::Equal { len, .. } => len as int,
            _ => 0,
        }
    }
}

/// Old characters covered by all steps.
pub open spec fn old_covered(steps: Seq<DiffStep>) -> int
    decreases steps.len(),
{
    if steps.len() == 0 {
        0
    } else {
        old_covered(steps.drop_last()) + steps.last().old_span()
    }
}

/// New characters covered by all steps.
pub open spec fn new_covered(steps: Seq<DiffStep>) -> int
    decreases steps.len(),
{
    if steps.len() == 0 {
        0
    } else {
        new_covered(steps.drop_last()) + steps.last().new_span()
    }
}

/// Characters kept unchanged by all steps: the matches of the diff.
pub open spec fn matched(steps: Seq<DiffStep>) -> int
    decreases steps.len(),
{
    if steps.len() == 0 {
        0
    } else {
        matched(steps.drop_last()) + steps.last().kept()
    }
}

/// `steps` turns `old` into `new`: their spans over the old and the new
/// sequence add up to the lengths of the two, and every `Equal` step stands
/// where the steps before it end (its start on each side is the span those
/// steps cover) and joins equal runs of characters.
pub open spec fn is_edit_script(steps: Seq<DiffStep>, old: Seq<char>, new: Seq<char>) -> bool {
    &&& old_covered(steps) == old.len()
    &&& new_covered(steps) == new.len()
    &&& forall|i: int|
        0 <= i < steps.len() ==> match #[trigger] steps[i] {
            DiffStep::Equal { old_index, new_index, len } => {
                &&& old_index == old_covered(steps.take(i))
                &&& new_index == new_covered(steps.take(i))
                &&& old.subrange(old_index as int, old_index + len) == new.subrange(
                    new_index as int,
                    new_index + len,
                )
            },
            _ => true,
        }
}

/// The steps match at least as many characters as `old` and `new` share as
/// a prefix.
pub open spec fn keeps_shared_prefix(steps: Seq<DiffStep>, old: Seq<char>, new: Seq<char>) -> bool {
    forall|k: int|
        0 <= k <= old.len() && k <= new.len() && #[trigger] old.subrange(0, k) == new.subrange(0, k)
            ==> matched(steps) >= k
}

/// Every step keeps all it covers: no step deletes or inserts anything.
pub open spec fn keeps_all(steps: Seq<DiffStep>) -> bool {
    forall|i: int|
        0 <= i < steps.len() ==> (#[trigger] steps[i]).old_span() == steps[i].kept()
            && steps[i].new_span() == steps[i].kept()
}

proof fn lemma_spans_nonneg(st: DiffStep)
    ensures
        0 <= st.kept() <= st.old_span(),
        st.kept() <= st.new_span(),
        st.new_span() >= 0,
{
}

/// A diff whose matches cover both sequences keeps all it covers.
proof fn lemma_full_match_keeps_all(steps: Seq<DiffStep>)
    requires
        matched(steps) == old_covered(steps),
        matched(steps) == new_covered(steps),
    ensures
        keeps_all(steps),
    decreases steps.len(),
{
    if steps.len() > 0 {
        let rest = steps.drop_last();
        lemma_matched_within_cover(rest);
        lemma_spans_nonneg(steps.last());
        lemma_full_match_keeps_all(rest);
        assert forall|i: int| 0 <= i < steps.len() implies (#[trigger] steps[i]).old_span()
            == steps[i].kept() && steps[i].new_span() == steps[i].kept() by {
            if i < steps.len() - 1 {
                assert(steps[i] == rest[i]);
            }
        }
    }
}

proof fn lemma_covered_take_le(steps: Seq<DiffStep>, k: int)
    requires
        0 <= k <= steps.len(),
    ensures
        old_covered(steps.take(k)) <= old_covered(steps),
        new_covered(steps.take(k)) <= new_covered(steps),
        old_covered(steps.take(k)) >= 0,
    decreases steps.len(),
{
    if k == steps.len() {
        assert(steps.take(k) =~= steps);
        if steps.len() > 0 {
            lemma_covered_take_le(steps.drop_last(), steps.len() - 1);
            assert(steps.drop_last().take(steps.len() - 1) =~= steps.drop_last());
            lemma_spans_nonneg(steps.last());
        }
    } else {
        lemma_covered_take_le(steps.drop_last(), k);
        assert(steps.drop_last().take(k) =~= steps.take(k));
        lemma_spans_nonneg(steps.last());
    }
}

/// In an edit script that keeps all it covers, the first `k` steps cover
/// equal prefixes of the two sequences.
proof fn lemma_kept_prefixes_agree(steps: Seq<DiffStep>, old: Seq<char>, new: Seq<char>, k: int)
    requires
        is_edit_script(steps, old, new),
        keeps_all(steps),
        0 <= k <= steps.len(),
    ensures
        old_covered(steps.take(k)) == new_covered(steps.take(k)),
        old.subrange(0, old_covered(steps.take(k))) == new.subrange(0, new_covered(steps.take(k))),
    decreases k,
{
    lemma_covered_take_le(steps, k);
    if k == 0 {
        assert(steps.take(0) =~= Seq::<DiffStep>::empty());
        assert(old.subrange(0, 0) =~= new.subrange(0, 0));
    } else {
        lemma_kept_prefixes_agree(steps, old, new, k - 1);
        lemma_covered_take_le(steps, k - 1);
        let before = steps.take(k - 1);
        let st = steps[k - 1];
        assert(steps.take(k).drop_last() =~= before);
        assert(steps.take(k).last() == st);
        let c = old_covered(before);
        assert(keeps_all(steps) ==> st.old_span() == st.kept() && st.new_span() == st.kept());
        match st {
            DiffStep::Equal { old_index, new_index, len } => {
                assert(steps[k - 1] == st);
                assert(old.subrange(0, c + len) =~= old.subrange(0, c) + old.subrange(
                    c,
                    c + len,
                ));
                assert(new.subrange(0, c + len) =~= new.subrange(0, c) + new.subrange(
                    c,
                    c + len,
                ));
            },
            _ => {},
        }
    }
}

/// A diff that matches every character of both sequences joins equal
/// sequences.
pub proof fn lemma_full_match_equal(steps: Seq<DiffStep>, old: Seq<char>, new: Seq<char>)
    requires
        is_edit_script(steps, old, new),
        2 * matched(steps) == old.len() + new.len(),
    ensures
        old == new,
{
    lemma_matched_within_cover(steps);
    lemma_full_match_keeps_all(steps);
    lemma_kept_prefixes_agree(steps, old, new, steps.len() as int);
    assert(steps.take(steps.len() as int) =~= steps);
    assert(old.subrange(0, old.len() as int) =~= old);
    assert(new.subrange(0, new.len() as int) =~= new);
}

/// The operations of the character diff that `similar::TextDiff::from_chars`
/// computes between `old` and `new` (Myers' algorithm with the default
/// configuration, which sets no deadline).
pub uninterp spec fn char_diff_steps(old: Seq<char>, new: Seq<char>) -> Seq<DiffStep>;

/// Calls `similar::TextDiff::from_chars(old, new)` and hands out its `ops()`,
/// each `similar::DiffOp` moved into the `DiffStep` variant of the same
/// name.  The result is named by `char_diff_steps` of the two character
/// sequences; beside the name it is stated only that the operations form an
/// edit script from `old` to `new` (spans adding up to the two lengths,
/// each `Equal` run standing where the steps before it end and joining equal
/// characters), as the crate's diff hooks record them, and that
/// two equal non-empty sequences give one `Equal` run over all of them, and
/// that the matched characters are at least as many as the two sequences
/// share as a prefix (the algorithm first takes the common prefix as an
/// `Equal` run; the later compaction moves matches but keeps their number).
/// Which script Myers' algorithm picks otherwise is left unsaid.
#[verifier::external_body]
fn char_diff(old: &str, new: &str) -> (steps: Vec<DiffStep>)
    ensures
        steps@ == char_diff_steps(old@, new@),
        is_edit_script(steps@, old@, new@),
        old@ == new@ && old@.len() > 0 ==> steps@ == seq![
            DiffStep::Equal { old_index: 0, new_index: 0, len: old@.len() as usize },
        ],
        keeps_shared_prefix(steps@, old@, new@),
{
    let diff = similar::TextDiff::from_chars(old, new);
    diff.ops().iter().map(|op| match *op {
        similar::DiffOp::Equal { old_index, new_index, len } => DiffStep::Equal { old_index, new_index, len },
        similar::DiffOp::Delete { old_index, old_len, new_index } => DiffStep::Delete { old_index, old_len, new_index },
        similar::DiffOp::Insert { old_index, new_index, new_len } => DiffStep::Insert { old_index, new_index, new_len },
        similar::DiffOp::Replace { old_index, old_len, new_index, new_len } => DiffStep::Replace { old_index, old_len, new_index, new_len },
    }).collect()
}

/// A non-negative ratio `num / den` with `den > 0`.
#[derive(Clone, Copy, Debug, PartialEq, Eq)]
pub struct Ratio {
    pub num: u128,
    pub den: u128,
}

/// The similarity ratio of a diff: twice the matched characters over the
/// total length of both sequences, and 1 when both are empty.
pub open spec fn diff_ratio_spec(steps: Seq<DiffStep>, old_len: int, new_len: int) -> (int, int) {
    if old_len + new_len == 0 {
        (1, 1)
    } else {
        (2 * matched(steps), old_len + new_len)
    }
}

/// The similarity of `a` and `b` as `fuzzy_ratio` computes it: 1 when both
/// are empty, 0 when exactly one is, else the ratio of their character diff.
pub open spec fn fuzzy_ratio_spec(a: Seq<char>, b: Seq<char>) -> (int, int) {
    if a.len() == 0 && b.len() == 0 {
        (1, 1)
    } else if a.len() == 0 || b.len() == 0 {
        (0, 1)
    } else {
        diff_ratio_spec(char_diff_steps(a, b), a.len() as int, b.len() as int)
    }
}

/// For two non-empty strings the ratio is twice the characters their
/// character diff matches over the sum of their lengths, whatever those
/// lengths are.
pub proof fn law_fuzzy_ratio_counts_matches(a: Seq<char>, b: Seq<char>)
    requires
        a.len() > 0,
        b.len() > 0,
    ensures
        fuzzy_ratio_spec(a, b) == (2 * matched(char_diff_steps(a, b)), (a.len() + b.len()) as int),
{
}

/// Strings that share a non-empty prefix are similar to a positive degree,
/// whatever their lengths: the ratio is at least twice the shared prefix over
/// the total length (given that the diff matches the shared prefix, as the
/// diff the library takes from `similar` does).
pub proof fn law_fuzzy_ratio_shared_prefix(a: Seq<char>, b: Seq<char>, k: int)
    requires
        0 < k <= a.len(),
        k <= b.len(),
        a.subrange(0, k) == b.subrange(0, k),
        keeps_shared_prefix(char_diff_steps(a, b), a, b),
    ensures
        fuzzy_ratio_spec(a, b).0 > 0,
        fuzzy_ratio_spec(a, b).0 * (a.len() + b.len()) >= 2 * k * fuzzy_ratio_spec(a, b).1,
{
    assert(matched(char_diff_steps(a, b)) >= k);
    let m = matched(char_diff_steps(a, b));
    let t = a.len() + b.len();
    assert(2 * m * t >= 2 * k * t) by (nonlinear_arith)
        requires
            m >= k,
            t > 0,
    ;
}

pub proof fn lemma_matched_prefix(steps: Seq<DiffStep>, i: int)
    requires
        0 <= i <= steps.len(),
    ensures
        0 <= matched(steps.take(i)) <= matched(steps),
    decreases steps.len(),
{
    if steps.len() > 0 {
        if i == steps.len() {
            assert(steps.take(i) =~= steps);
            lemma_matched_prefix(steps.drop_last(), steps.len() - 1);
            assert(steps.drop_last().take(steps.len() - 1) =~= steps.drop_last());
        } else {
            lemma_matched_prefix(steps.drop_last(), i);
            assert(steps.drop_last().take(i) =~= steps.take(i));
        }
    }
}

pub proof fn lemma_matched_within_cover(steps: Seq<DiffStep>)
    ensures
        0 <= matched(steps) <= old_covered(steps),
        matched(steps) <= new_covered(steps),
    decreases steps.len(),
{
    if steps.len() > 0 {
        lemma_matched_within_cover(steps.drop_last());
    }
}

/// The ratio of a diff of sequences of lengths `old_len` and `new_len`, as
/// `similar` computes it from the operations: `2 * matches / (old_len +
/// new_len)`, or 1 when both lengths are 0.
pub fn diff_ratio(steps: &Vec<DiffStep>, old_len: usize, new_len: usize) -> (r: Ratio)
    requires
        matched(steps@) <= usize::MAX,
    ensures
        (r.num as int, r.den as int) == diff_ratio_spec(steps@, old_len as int, new_len as int),
        r.den > 0,
{
    let mut kept: usize = 0;
    let mut i: usize = 0;
    while i < steps.len()
        invariant
            i <= steps@.len(),
            kept == matched(steps@.take(i as int)),
            matched(steps@) <= usize::MAX,
        decreases steps@.len() - i,
    {
        proof {
            lemma_matched_prefix(steps@, i + 1);
            assert(steps@.take(i + 1).drop_last() =~= steps@.take(i as int));
        }
        match steps[i] {
            DiffStep::Equal { len, .. } => {
                kept = kept + len;
            },
            _ => {},
        }
        i = i + 1;
    }
    assert(steps@.take(steps@.len() as int) =~= steps@);
    let total: u128 = old_len as u128 + new_len as u128;
    if total == 0 {
        Ratio { num: 1, den: 1 }
    } else {
        Ratio { num: 2 * (kept as u128), den: total }
    }
}

/// Similarity of `a` and `b` in [0, 1]: 1 for two empty strings, 0 when only
/// one is empty, otherwise the ratio of the character diff of the two.  It is
/// 1 exactly when the two strings are equal.
pub fn fuzzy_ratio(a: &str, b: &str) -> (r: Ratio)
    ensures
        (r.num as int, r.den as int) == fuzzy_ratio_spec(a@, b@),
        r.den > 0,
        r.num <= r.den,
        r.num == r.den <==> a@ == b@,
        forall|k: int|
            0 < k <= a@.len() && k <= b@.len() && #[trigger] a@.subrange(0, k) == b@.subrange(0, k)
                ==> r.num > 0 && r.num * (a@.len() + b@.len()) >= 2 * k * r.den,
{
    let a_empty = a.is_empty();
    let b_empty = b.is_empty();
    if a_empty && b_empty {
        assert(a@ =~= b@);
        return Ratio { num: 1, den: 1 };
    }
    if a_empty || b_empty {
        return Ratio { num: 0, den: 1 };
    }
    let a_chars = crate::text::to_chars(a);
    let b_chars = crate::text::to_chars(b);
    let a_len = a_chars.len();
    let steps = char_diff(a, b);
    proof {
        lemma_matched_within_cover(steps@);
        if a@ == b@ {
            assert(steps@.drop_last() =~= Seq::<DiffStep>::empty());
            assert(matched(steps@.drop_last()) == 0);
            assert(a_len as int == a@.len());
            assert(steps@.last().kept() == a_len as int);
            assert(matched(steps@) == a@.len());
        }
        if 2 * matched(steps@) == a@.len() + b@.len() {
            lemma_full_match_equal(steps@, a@, b@);
        }
        assert forall|k: int|
            0 < k <= a@.len() && k <= b@.len() && #[trigger] a@.subrange(0, k) == b@.subrange(0, k)
            implies fuzzy_ratio_spec(a@, b@).0 > 0 && fuzzy_ratio_spec(a@, b@).0 * (a@.len()
            + b@.len()) >= 2 * k * fuzzy_ratio_spec(a@, b@).1 by {
            law_fuzzy_ratio_shared_prefix(a@, b@, k);
        }
    }
    diff_ratio(&steps, a_chars.len(), b_chars.len())
}

} // verus!
