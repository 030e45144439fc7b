//! Properties of the scoring of semantic-lookup candidates.
use vstd::prelude::*;
use crate::fuzzy::{char_diff_steps, is_edit_script};
use crate::semantic::{
    apply_signals, clamp, lemma_name_signal_bounds, max_int, name_signal, score_parts,
};
use crate::text::{eq_ignore_ascii_case_seq, unicode_lowercase};

verus! {

/// `a` is at most `b`, both scores given as `(num, den)` with positive
/// denominators.
pub open spec fn score_at_most(a: (int, int), b: (int, int)) -> bool {
    a.0 * b.1 <= b.0 * a.1
}

proof fn lemma_max_scales(o: int, e: int, l: int, c: int)
    requires
        l >= 1,
        o <= l * e,
    ensures
        max_int(o, c * l) <= l * max_int(e, c),
{
    assert(c * l == l * c) by (nonlinear_arith);
    if e >= c {
        assert(c * l <= l * e) by (nonlinear_arith)
            requires
                e >= c,
                l >= 1,
        ;
    }
    assert(l * max_int(e, c) >= l * e) by (nonlinear_arith)
        requires
            max_int(e, c) >= e,
            l >= 1,
    ;
    assert(l * max_int(e, c) >= l * c) by (nonlinear_arith)
        requires
            max_int(e, c) >= c,
            l >= 1,
    ;
}

proof fn lemma_add_scales(o: int, e: int, l: int, c: int)
    requires
        o <= l * e,
    ensures
        o + c * l <= l * (e + c),
{
    assert(l * (e + c) == l * e + c * l) by (nonlinear_arith);
}

proof fn lemma_clamp_scales(o: int, e: int, l: int)
    requires
        l >= 1,
        o <= l * e,
    ensures
        clamp(o, 0, 20 * l) <= l * clamp(e, 0, 20),
{
    assert(l * clamp(e, 0, 20) >= l * e || clamp(e, 0, 20) == 20 || clamp(e, 0, 20) == 0)
        by (nonlinear_arith)
        requires
            l >= 1,
    ;
    if e < 0 {
        assert(l * e < 0) by (nonlinear_arith)
            requires
                l >= 1,
                e < 0,
        ;
    }
    if e > 20 {
        assert(l * 20 == 20 * l);
    }
    if 0 <= e <= 20 {
        assert(l * e <= 20 * l) by (nonlinear_arith)
            requires
                l >= 1,
                e <= 20,
        ;
    }
}

/// The secondary signals preserve the order of primary signals: a primary
/// value `o / (20 * l)` at most `e / 20` stays at most after them.
pub proof fn lemma_apply_signals_scales(
    o: int,
    e: int,
    l: int,
    role: Seq<char>,
    v: Option<Seq<char>>,
    interactive: bool,
    q: Seq<char>,
    hint: Option<Seq<char>>,
)
    requires
        l >= 1,
        o <= l * e,
    ensures
        apply_signals(o, l, role, v, interactive, q, hint) <= l * apply_signals(
            e,
            1,
            role,
            v,
            interactive,
            q,
            hint,
        ),
{
    let (ov, ev) = match v {
        Some(vt) => if vt == q {
            lemma_max_scales(o, e, l, 16);
            (max_int(o, 16 * l), max_int(e, 16))
        } else if crate::text::contains_seq(vt, q) {
            lemma_add_scales(o, e, l, 3);
            (o + 3 * l, e + 3)
        } else {
            (o, e)
        },
        None => (o, e),
    };
    assert(ov <= l * ev);
    let (or, er) = match hint {
        Some(h) => if eq_ignore_ascii_case_seq(role, h) {
            lemma_add_scales(ov, ev, l, 3);
            (ov + 3 * l, ev + 3)
        } else {
            lemma_add_scales(ov, ev, l, -1);
            (ov - l, ev - 1)
        },
        None => (ov, ev),
    };
    assert(or <= l * er);
    let (ok, ek) = if interactive {
        lemma_add_scales(or, er, l, 1);
        (or + l, er + 1)
    } else {
        (or, er)
    };
    assert(ok <= l * ek);
    lemma_clamp_scales(ok, ek, l);
}

/// An element whose (lowercased) name equals the (non-empty) query scores at
/// least as high as the same element under any other name, provided the
/// character diff of that other name and the query is an edit script (as the
/// diff the library takes from `similar` always is).
pub proof fn law_exact_match_scores_highest(
    role: Seq<char>,
    other_name: Seq<char>,
    v: Option<Seq<char>>,
    interactive: bool,
    q: Seq<char>,
    hint: Option<Seq<char>>,
)
    requires
        q.len() > 0,
        is_edit_script(char_diff_steps(other_name, q), other_name, q),
    ensures
        score_at_most(
            score_parts(role, other_name, v, interactive, q, hint),
            score_parts(role, q, v, interactive, q, hint),
        ),
{
    lemma_name_signal_bounds(other_name, q);
    let exact = score_parts(role, q, v, interactive, q, hint);
    let other = score_parts(role, other_name, v, interactive, q, hint);
    assert(name_signal(q, q) == (19int, 1int));
    assert(exact == (apply_signals(19, 1, role, v, interactive, q, hint), 20int));
    if other_name.len() == 0 && v is None {
        assert(other.0 == 0);
        assert(exact.0 >= 0);
        assert(other.0 * exact.1 <= exact.0 * other.1) by (nonlinear_arith)
            requires
                other.0 == 0,
                exact.0 >= 0,
                other.1 == 20,
        ;
    } else {
        let (p, l) = name_signal(other_name, q);
        if other_name == q {
        } else {
            assert(p <= l * 19) by (nonlinear_arith)
                requires
                    other_name.len() == 0 ==> p == 0,
                    other_name.len() > 0 ==> p < 19 * l,
                    p >= 0,
                    l >= 1,
            ;
            lemma_apply_signals_scales(p, 19, l, role, v, interactive, q, hint);
            let o = apply_signals(p, l, role, v, interactive, q, hint);
            let e = apply_signals(19, 1, role, v, interactive, q, hint);
            assert(o * 20 <= e * (20 * l)) by (nonlinear_arith)
                requires
                    o <= l * e,
            ;
        }
    }
}

/// A role that matches the role hint (ASCII case ignored) scores at least as
/// high as one that does not, other things equal; strictly higher unless the
/// element has neither name nor value text, or the mismatching role already
/// scores 1.
pub proof fn law_role_hint_boosts_matching_role(
    matching_role: Seq<char>,
    other_role: Seq<char>,
    n: Seq<char>,
    v: Option<Seq<char>>,
    interactive: bool,
    q: Seq<char>,
    h: Seq<char>,
)
    requires
        eq_ignore_ascii_case_seq(matching_role, h),
        !eq_ignore_ascii_case_seq(other_role, h),
    ensures
        score_parts(other_role, n, v, interactive, q, Some(h)).1 == score_parts(
            matching_role,
            n,
            v,
            interactive,
            q,
            Some(h),
        ).1,
        score_parts(other_role, n, v, interactive, q, Some(h)).0 <= score_parts(
            matching_role,
            n,
            v,
            interactive,
            q,
            Some(h),
        ).0,
        !(n.len() == 0 && v is None) && score_parts(other_role, n, v, interactive, q, Some(h)).0
            < score_parts(other_role, n, v, interactive, q, Some(h)).1 ==> score_parts(
            other_role,
            n,
            v,
            interactive,
            q,
            Some(h),
        ).0 < score_parts(matching_role, n, v, interactive, q, Some(h)).0,
{
    lemma_name_signal_bounds(n, q);
}

/// An interactive element scores at least as high as the same element not
/// interactive; strictly higher when the element has a name or a value text,
/// no role hint counts against it, and the non-interactive one scores
/// below 1.
pub proof fn law_interactive_boost(
    role: Seq<char>,
    n: Seq<char>,
    v: Option<Seq<char>>,
    q: Seq<char>,
    hint: Option<Seq<char>>,
)
    ensures
        score_parts(role, n, v, false, q, hint).1 == score_parts(role, n, v, true, q, hint).1,
        score_parts(role, n, v, false, q, hint).0 <= score_parts(role, n, v, true, q, hint).0,
        !(n.len() == 0 && v is None) && (hint matches Some(h) ==> eq_ignore_ascii_case_seq(role, h))
            && score_parts(role, n, v, false, q, hint).0 < score_parts(
            role,
            n,
            v,
            false,
            q,
            hint,
        ).1 ==> score_parts(role, n, v, false, q, hint).0 < score_parts(
            role,
            n,
            v,
            true,
            q,
            hint,
        ).0,
{
    lemma_name_signal_bounds(n, q);
}

/// A value text equal to the query lifts the score to at least 0.8 when no
/// role hint counts against the element.
pub proof fn law_value_text_match_scores_high(
    role: Seq<char>,
    n: Seq<char>,
    vt: Seq<char>,
    interactive: bool,
    q: Seq<char>,
    hint: Option<Seq<char>>,
)
    requires
        vt == q,
        hint matches Some(h) ==> eq_ignore_ascii_case_seq(role, h),
    ensures
        score_parts(role, n, Some(vt), interactive, q, hint).0 * 5 >= score_parts(
            role,
            n,
            Some(vt),
            interactive,
            q,
            hint,
        ).1 * 4,
{
    lemma_name_signal_bounds(n, q);
}

/// A value text that neither equals nor contains the query leaves the score
/// of a named element as it would be without any value text.
pub proof fn law_unrelated_value_text_ignored(
    role: Seq<char>,
    n: Seq<char>,
    vt: Seq<char>,
    interactive: bool,
    q: Seq<char>,
    hint: Option<Seq<char>>,
)
    requires
        n.len() > 0,
        vt != q,
        !crate::text::contains_seq(vt, q),
    ensures
        score_parts(role, n, Some(vt), interactive, q, hint) == score_parts(
            role,
            n,
            None,
            interactive,
            q,
            hint,
        ),
{
}

/// Every score lies in [0, 1].
pub proof fn law_score_in_unit_interval(
    role: Seq<char>,
    n: Seq<char>,
    v: Option<Seq<char>>,
    interactive: bool,
    q: Seq<char>,
    hint: Option<Seq<char>>,
)
    ensures
        score_parts(role, n, v, interactive, q, hint).1 > 0,
        0 <= score_parts(role, n, v, interactive, q, hint).0 <= score_parts(
            role,
            n,
            v,
            interactive,
            q,
            hint,
        ).1,
{
    lemma_name_signal_bounds(n, q);
}

/// Names are compared without regard to case: two names with the same
/// lowercase form give the same score.
pub proof fn law_name_case_insensitive(
    role: Seq<char>,
    name1: Seq<char>,
    name2: Seq<char>,
    v: Option<Seq<char>>,
    interactive: bool,
    q: Seq<char>,
    hint: Option<Seq<char>>,
)
    requires
        unicode_lowercase(name1) == unicode_lowercase(name2),
    ensures
        score_parts(role, unicode_lowercase(name1), v, interactive, q, hint) == score_parts(
            role,
            unicode_lowercase(name2),
            v,
            interactive,
            q,
            hint,
        ),
{
}

} // verus!
