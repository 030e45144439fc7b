//! Semantic element lookup: harvesting candidate elements from an
//! accessibility tree and scoring them against a free-text query.
use vstd::prelude::*;
use std::collections::HashSet;
use crate::fuzzy::{fuzzy_ratio, fuzzy_ratio_spec, lemma_matched_within_cover, char_diff_steps};
use crate::text::{
    byte_len, chars_equal, contains, contains_seq, eq_ignore_ascii_case, eq_ignore_ascii_case_seq,
    is_prefix, starts_with, to_chars, to_lowercase, unicode_lowercase, utf8_len,
};
use crate::roles::{is_content_role, is_content_role_spec, is_interactive_role, is_interactive_role_spec};

verus! {

broadcast use vstd::std_specs::hash::group_hash_axioms;

/// The text of an optional accessibility value.
pub open spec fn opt_text(o: Option<String>) -> Option<Seq<char>> {
    match o {
        Some(s) => Some(s@),
        None => None,
    }
}

/// A node of the accessibility tree, holding the values the lookup reads,
/// each accessibility value already given as its text.
pub struct AxNode {
    pub ignored: Option<bool>,
    pub role: Option<String>,
    pub name: Option<String>,
    pub value: Option<String>,
    pub backend_dom_node_id: Option<i64>,
}

pub struct AxNodeView {
    pub ignored: Option<bool>,
    pub role: Option<Seq<char>>,
    pub name: Option<Seq<char>>,
    pub value: Option<Seq<char>>,
    pub backend_dom_node_id: Option<i64>,
}

impl View for AxNode {
    type V = AxNodeView;

    open spec fn view(&self) -> AxNodeView {
        AxNodeView {
            ignored: self.ignored,
            role: opt_text(self.role),
            name: opt_text(self.name),
            value: opt_text(self.value),
            backend_dom_node_id: self.backend_dom_node_id,
        }
    }
}

/// An element that may answer a semantic query.
pub struct SemanticCandidate {
    pub role: String,
    pub name: String,
    pub value_text: Option<String>,
    pub backend_node_id: Option<i64>,
    pub is_interactive: bool,
}

pub struct CandidateView {
    pub role: Seq<char>,
    pub name: Seq<char>,
    pub value_text: Option<Seq<char>>,
    pub backend_node_id: Option<i64>,
    pub is_interactive: bool,
}

impl View for SemanticCandidate {
    type V = CandidateView;

    open spec fn view(&self) -> CandidateView {
        CandidateView {
            role: self.role@,
            name: self.name@,
            value_text: opt_text(self.value_text),
            backend_node_id: self.backend_node_id,
            is_interactive: self.is_interactive,
        }
    }
}

/// Text of an accessibility value; empty when the value is absent.
pub open spec fn ax_text(v: Option<Seq<char>>) -> Seq<char> {
    match v {
        Some(s) => s,
        None => Seq::empty(),
    }
}

/// Text of an accessibility value, absent when the value is absent or empty.
pub open spec fn ax_text_opt(v: Option<Seq<char>>) -> Option<Seq<char>> {
    match v {
        Some(s) => if s.len() == 0 {
            None
        } else {
            Some(s)
        },
        None => None,
    }
}

/// The candidate a node yields, if any: nodes that are ignored, have no role,
/// lie outside the `within` scope (when one is given), or are neither
/// interactive nor named content yield none.
pub open spec fn candidate_of(n: AxNodeView, within: Option<Set<i64>>) -> Option<CandidateView> {
    let role = ax_text(n.role);
    let name = ax_text(n.name);
    let bid = n.backend_dom_node_id;
    let interactive = is_interactive_role_spec(role);
    let content = is_content_role_spec(role);
    if n.ignored == Some(true) {
        None
    } else if role.len() == 0 {
        None
    } else if within is Some && !(bid is Some && within->0.contains(bid->0)) {
        None
    } else if !interactive && !(content && name.len() > 0) {
        None
    } else {
        Some(
            CandidateView {
                role,
                name,
                value_text: ax_text_opt(n.value),
                backend_node_id: bid,
                is_interactive: interactive,
            },
        )
    }
}

/// The candidates of `nodes`, in tree order.
pub open spec fn harvest_spec(nodes: Seq<AxNode>, within: Option<Set<i64>>) -> Seq<CandidateView>
    decreases nodes.len(),
{
    if nodes.len() == 0 {
        Seq::empty()
    } else {
        let rest = harvest_spec(nodes.drop_last(), within);
        match candidate_of(nodes.last()@, within) {
            Some(c) => rest.push(c),
            None => rest,
        }
    }
}

/// Every harvested candidate has a role, is an interactive element or a
/// named content element, records whether it is interactive, and lies in the
/// `within` scope when one is given.
pub proof fn law_harvested_candidates_qualify(nodes: Seq<AxNode>, within: Option<Set<i64>>, i: int)
    requires
        0 <= i < harvest_spec(nodes, within).len(),
    ensures
        harvest_spec(nodes, within)[i].role.len() > 0,
        harvest_spec(nodes, within)[i].is_interactive == is_interactive_role_spec(
            harvest_spec(nodes, within)[i].role,
        ),
        harvest_spec(nodes, within)[i].is_interactive || (is_content_role_spec(
            harvest_spec(nodes, within)[i].role,
        ) && harvest_spec(nodes, within)[i].name.len() > 0),
        within matches Some(ids) ==> (harvest_spec(nodes, within)[i].backend_node_id matches Some(
            b,
        ) && ids.contains(b)),
    decreases nodes.len(),
{
    if nodes.len() > 0 {
        let rest = harvest_spec(nodes.drop_last(), within);
        if i < rest.len() {
            law_harvested_candidates_qualify(nodes.drop_last(), within, i);
        }
    }
}

/// `c` is the candidate that node `n` stands for: its role, its name (empty
/// when absent), its backend node id, its value text (absent when absent or
/// empty) and whether its role is interactive.
pub open spec fn candidate_for_node(c: CandidateView, n: AxNodeView) -> bool {
    &&& n.role matches Some(r) && c.role == r
    &&& c.name == (match n.name {
        Some(nm) => nm,
        None => Seq::<char>::empty(),
    })
    &&& c.backend_node_id == n.backend_dom_node_id
    &&& (n.value is Some && n.value->0.len() > 0 ==> c.value_text == n.value)
    &&& (!(n.value is Some && n.value->0.len() > 0) ==> c.value_text is None)
    &&& c.is_interactive == is_interactive_role_spec(c.role)
}

/// Where a qualifying node's candidate stands among the harvested ones.
proof fn lemma_harvest_position(nodes: Seq<AxNode>, within: Option<Set<i64>>, i: int) -> (j: int)
    requires
        0 <= i < nodes.len(),
        nodes[i]@.ignored != Some(true),
        nodes[i]@.role matches Some(r) && r.len() > 0,
        within matches Some(ids) ==> (nodes[i]@.backend_dom_node_id matches Some(b) && ids.contains(b)),
        is_interactive_role_spec(nodes[i]@.role->0) || (is_content_role_spec(nodes[i]@.role->0)
            && nodes[i]@.name is Some && nodes[i]@.name->0.len() > 0),
    ensures
        0 <= j < harvest_spec(nodes, within).len(),
        candidate_for_node(harvest_spec(nodes, within)[j], nodes[i]@),
    decreases nodes.len(),
{
    let rest = harvest_spec(nodes.drop_last(), within);
    if i == nodes.len() - 1 {
        assert(nodes.last() == nodes[i]);
        rest.len() as int
    } else {
        assert(nodes.drop_last()[i] == nodes[i]);
        let j = lemma_harvest_position(nodes.drop_last(), within, i);
        j
    }
}

/// Harvesting misses no qualifying node: every node that is not marked
/// ignored (an `ignored` flag of `false` counts like none), has a non-empty
/// role, lies in the `within` scope when one is given, and is interactive or
/// named content yields a candidate carrying its role, name, backend node
/// id, value text and interactivity.
pub proof fn law_harvest_complete(nodes: Seq<AxNode>, within: Option<Set<i64>>, i: int)
    requires
        0 <= i < nodes.len(),
        nodes[i]@.ignored != Some(true),
        nodes[i]@.role matches Some(r) && r.len() > 0,
        within matches Some(ids) ==> (nodes[i]@.backend_dom_node_id matches Some(b) && ids.contains(b)),
        is_interactive_role_spec(nodes[i]@.role->0) || (is_content_role_spec(nodes[i]@.role->0)
            && nodes[i]@.name is Some && nodes[i]@.name->0.len() > 0),
    ensures
        exists|j: int|
            0 <= j < harvest_spec(nodes, within).len() && #[trigger] candidate_for_node(
                harvest_spec(nodes, within)[j],
                nodes[i]@,
            ),
{
    let j = lemma_harvest_position(nodes, within, i);
    assert(candidate_for_node(harvest_spec(nodes, within)[j], nodes[i]@));
}

/// Harvesting goes node by node in order: the candidates of two runs of
/// nodes are those of the first followed by those of the second, and a
/// single node yields at most one candidate.
pub proof fn law_harvest_in_node_order(a: Seq<AxNode>, b: Seq<AxNode>, n: AxNode, within: Option<Set<i64>>)
    ensures
        harvest_spec(a + b, within) == harvest_spec(a, within) + harvest_spec(b, within),
        harvest_spec(seq![n], within).len() <= 1,
    decreases b.len(),
{
    assert(seq![n].drop_last() =~= Seq::<AxNode>::empty());
    assert(harvest_spec(Seq::<AxNode>::empty(), within).len() == 0);
    assert(harvest_spec(seq![n].drop_last(), within).len() == 0);
    if b.len() == 0 {
        assert(a + b =~= a);
        assert(harvest_spec(a, within) + harvest_spec(b, within) =~= harvest_spec(a, within));
    } else {
        law_harvest_in_node_order(a, b.drop_last(), n, within);
        assert((a + b).drop_last() =~= a + b.drop_last());
        assert((a + b).last() == b.last());
        let ha = harvest_spec(a, within);
        let hb = harvest_spec(b.drop_last(), within);
        match candidate_of(b.last()@, within) {
            Some(c) => {
                assert(ha + hb.push(c) =~= (ha + hb).push(c));
            },
            None => {},
        }
    }
}

pub open spec fn candidates_view(cs: Seq<SemanticCandidate>) -> Seq<CandidateView> {
    cs.map_values(|c: SemanticCandidate| c@)
}

pub open spec fn scope_view(within_ids: Option<&HashSet<i64>>) -> Option<Set<i64>> {
    match within_ids {
        Some(ids) => Some(ids@),
        None => None,
    }
}

fn ax_string(v: &Option<String>) -> (s: String)
    ensures
        s@ == ax_text(opt_text(*v)),
{
    match v {
        Some(s) => s.clone(),
        None => String::new(),
    }
}

fn ax_string_opt(v: &Option<String>) -> (s: Option<String>)
    ensures
        opt_text(s) == ax_text_opt(opt_text(*v)),
{
    match v {
        Some(s) => if s.as_str().is_empty() {
            None
        } else {
            Some(s.clone())
        },
        None => None,
    }
}

/// Collects the elements of an accessibility tree that may answer a query:
/// interactive elements always, content elements when they are named;
/// ignored and role-less nodes never; and, when `within_ids` is given, only
/// nodes whose backend DOM node id it holds.
pub fn harvest_candidates(nodes: &[AxNode], within_ids: Option<&HashSet<i64>>) -> (candidates: Vec<SemanticCandidate>)
    ensures
        candidates_view(candidates@) == harvest_spec(nodes@, scope_view(within_ids)),
{
    let mut candidates: Vec<SemanticCandidate> = Vec::new();
    let mut i: usize = 0;
    while i < nodes.len()
        invariant
            i <= nodes@.len(),
            candidates_view(candidates@) == harvest_spec(nodes@.take(i as int), scope_view(within_ids)),
        decreases nodes@.len() - i,
    {
        let node = &nodes[i];
        proof {
            assert(nodes@.take(i + 1).drop_last() =~= nodes@.take(i as int));
            assert(nodes@.take(i + 1).last() == nodes@[i as int]);
        }
        let ghost before = candidates@;
        if !node.ignored.unwrap_or(false) {
            let role = ax_string(&node.role);
            if !role.as_str().is_empty() {
                let name = ax_string(&node.name);
                let backend_node_id = node.backend_dom_node_id;
                let in_scope = match within_ids {
                    Some(ids) => match backend_node_id {
                        Some(bid) => ids.contains(&bid),
                        None => false,
                    },
                    None => true,
                };
                if in_scope {
                    let is_interactive = is_interactive_role(role.as_str());
                    let is_content = is_content_role(role.as_str());
                    if is_interactive || (is_content && !name.as_str().is_empty()) {
                        let value_text = ax_string_opt(&node.value);
                        candidates.push(
                            SemanticCandidate {
                                role,
                                name,
                                value_text,
                                backend_node_id,
                                is_interactive,
                            },
                        );
                        assert(candidates_view(candidates@) =~= candidates_view(before).push(
                            candidates@.last()@,
                        ));
                    }
                }
            }
        }
        i = i + 1;
    }
    assert(nodes@.take(nodes@.len() as int) =~= nodes@);
    candidates
}

/// A score in [0, 1], held exactly as the fraction `num / den` (`den > 0`).
/// Every signal is a multiple of 1/20 or a ratio of lengths, so the score is
/// computed without rounding; a caller that needs a floating-point number
/// divides the two.
#[derive(Clone, Copy, Debug, PartialEq, Eq)]
pub struct Score {
    pub num: u128,
    pub den: u128,
}

pub open spec fn clamp(x: int, lo: int, hi: int) -> int {
    if x < lo {
        lo
    } else if x > hi {
        hi
    } else {
        x
    }
}

pub open spec fn min_int(a: int, b: int) -> int {
    if a <= b {
        a
    } else {
        b
    }
}

pub open spec fn max_int(a: int, b: int) -> int {
    if a >= b {
        a
    } else {
        b
    }
}

/// The primary signal of a (lowercased) name `n` against the lowercased
/// query `q`, in twentieths: the pair `(p, l)` stands for the value
/// `p / (20 * l)`.
///  - exact match: 0.95;
///  - one a prefix of the other: 0.6 + 0.3 * shorter / longer (byte lengths);
///  - name contains query: 0.4 + 0.3 * |q| / |n|;
///  - query contains a name of at least 3 bytes: 0.35 + 0.3 * |n| / |q|;
///  - otherwise 0.7 * r when the character-diff ratio r exceeds 0.6, else 0.
pub open spec fn name_signal(n: Seq<char>, q: Seq<char>) -> (int, int) {
    let bn = byte_len(n) as int;
    let bq = byte_len(q) as int;
    if n.len() == 0 {
        (0, 1)
    } else if n == q {
        (19, 1)
    } else if is_prefix(q, n) || is_prefix(n, q) {
        (12 * max_int(bn, bq) + 6 * min_int(bn, bq), max_int(bn, bq))
    } else if contains_seq(n, q) {
        (8 * bn + 6 * bq, bn)
    } else if contains_seq(q, n) && bn >= 3 {
        (7 * bq + 6 * bn, bq)
    } else {
        let (rn, rd) = fuzzy_ratio_spec(n, q);
        if 5 * rn > 3 * rd {
            (14 * rn, rd)
        } else {
            (0, 1)
        }
    }
}

/// Numerator of a score whose primary signal is `p / (20 * l)`, after the
/// secondary signals: raised to 0.8 when the value text `v` equals the query
/// `q`, or plus 0.15 when it contains it; plus 0.15 when the role matches the
/// hint (ASCII case ignored), minus 0.05 when it does not; plus 0.05 for an
/// interactive element; clamped to [0, 1].
pub open spec fn apply_signals(
    p: int,
    l: int,
    role: Seq<char>,
    v: Option<Seq<char>>,
    interactive: bool,
    q: Seq<char>,
    hint: Option<Seq<char>>,
) -> int {
    let with_value = match v {
        Some(vt) => if vt == q {
            max_int(p, 16 * l)
        } else if contains_seq(vt, q) {
            p + 3 * l
        } else {
            p
        },
        None => p,
    };
    let with_role = match hint {
        Some(h) => if eq_ignore_ascii_case_seq(role, h) {
            with_value + 3 * l
        } else {
            with_value - l
        },
        None => with_value,
    };
    let with_kind = if interactive {
        with_role + l
    } else {
        with_role
    };
    clamp(with_kind, 0, 20 * l)
}

/// The score of an element, as the pair `(num, den)`, from its role, its
/// lowercased name `n`, its lowercased value text `v`, whether it is
/// interactive, the lowercased query `q` and the role hint: the primary
/// signal of the name followed by the secondary signals.  An element with
/// neither a name nor a value text scores 0.
pub open spec fn score_parts(
    role: Seq<char>,
    n: Seq<char>,
    v: Option<Seq<char>>,
    interactive: bool,
    q: Seq<char>,
    hint: Option<Seq<char>>,
) -> (int, int) {
    if n.len() == 0 && v is None {
        (0, 20)
    } else {
        let (p, l) = name_signal(n, q);
        (apply_signals(p, l, role, v, interactive, q, hint), 20 * l)
    }
}

pub open spec fn lowercase_opt(v: Option<Seq<char>>) -> Option<Seq<char>> {
    match v {
        Some(s) => Some(unicode_lowercase(s)),
        None => None,
    }
}

pub open spec fn hint_view(role_hint: Option<&str>) -> Option<Seq<char>> {
    match role_hint {
        Some(h) => Some(h@),
        None => None,
    }
}

/// The score of candidate `c` for the lowercased query `q` and role hint.
pub open spec fn score_spec(c: CandidateView, q: Seq<char>, hint: Option<Seq<char>>) -> (int, int) {
    score_parts(
        c.role,
        unicode_lowercase(c.name),
        lowercase_opt(c.value_text),
        c.is_interactive,
        q,
        hint,
    )
}

/// The primary signal never exceeds 0.95 and its denominator is positive;
/// below an exact match it stays under 0.95 as long as the diff of the name
/// and the query is an edit script.
pub proof fn lemma_name_signal_bounds(n: Seq<char>, q: Seq<char>)
    ensures
        name_signal(n, q).1 >= 1,
        name_signal(n, q).0 >= 0,
        n.len() > 0 && n != q && crate::fuzzy::is_edit_script(char_diff_steps(n, q), n, q)
            ==> name_signal(n, q).0 < 19 * name_signal(n, q).1,
{
    crate::text::lemma_byte_len_at_least_chars(n);
    crate::text::lemma_byte_len_at_least_chars(q);
    lemma_matched_within_cover(char_diff_steps(n, q));
    if n.len() > 0 && n != q {
        if is_prefix(q, n) || is_prefix(n, q) {
            if byte_len(n) == byte_len(q) {
                if is_prefix(q, n) {
                    assert(n.subrange(0, q.len() as int) == q);
                } else {
                    assert(q.subrange(0, n.len() as int) == n);
                }
                crate::text::lemma_equal_byte_len_prefix(n, q);
            }
        } else if contains_seq(n, q) {
            crate::text::lemma_contained_byte_len(n, q);
        } else if contains_seq(q, n) {
            crate::text::lemma_contained_byte_len(q, n);
        }
    }
}

pub open spec fn str_opt_view(v: Option<&str>) -> Option<Seq<char>> {
    match v {
        Some(s) => Some(s@),
        None => None,
    }
}

/// Scores an element whose name and value text are already in lower case
/// against the lowercased query: the score `score_parts` describes.
pub fn score_lowered(
    role: &str,
    name_lower: &str,
    value_lower: Option<&str>,
    is_interactive: bool,
    query_lower: &str,
    role_hint: Option<&str>,
) -> (score: Score)
    ensures
        (score.num as int, score.den as int) == score_parts(
            role@,
            name_lower@,
            str_opt_view(value_lower),
            is_interactive,
            query_lower@,
            str_opt_view(role_hint),
        ),
        score.den > 0,
        score.num <= score.den,
{
    let nl = to_chars(name_lower);
    let ql = to_chars(query_lower);
    if nl.len() == 0 && value_lower.is_none() {
        return Score { num: 0, den: 20 };
    }
    let (p, l) = name_signal_exec(name_lower, &nl, query_lower, &ql);
    proof {
        lemma_name_signal_bounds(nl@, ql@);
    }
    let l_i: i128 = l as i128;
    let mut total: i128 = p as i128;
    match value_lower {
        Some(vt_lower) => {
            let vl = to_chars(vt_lower);
            if chars_equal(&vl, &ql) {
                if total < 16 * l_i {
                    total = 16 * l_i;
                }
            } else if contains(&vl, &ql) {
                total = total + 3 * l_i;
            }
        },
        None => {},
    }
    match role_hint {
        Some(rh) => {
            if eq_ignore_ascii_case(role, rh) {
                total = total + 3 * l_i;
            } else {
                total = total - l_i;
            }
        },
        None => {},
    }
    if is_interactive {
        total = total + l_i;
    }
    if total < 0 {
        total = 0;
    }
    if total > 20 * l_i {
        total = 20 * l_i;
    }
    Score { num: total as u128, den: 20 * l }
}

/// Scores an element against a query (`query_lower` is the query in lower
/// case; `query` itself is not consulted): its name and value text are
/// lowercased with `str::to_lowercase` and scored by `score_lowered`.
pub fn score_candidate(
    candidate: &SemanticCandidate,
    query: &str,
    query_lower: &str,
    role_hint: Option<&str>,
) -> (score: Score)
    ensures
        (score.num as int, score.den as int) == score_spec(candidate@, query_lower@, hint_view(role_hint)),
        score.den > 0,
        score.num <= score.den,
        unicode_lowercase(candidate@.name).len() == 0 && candidate@.value_text is None
            ==> score.num == 0,
{
    let name_lower = to_lowercase(candidate.name.as_str());
    match &candidate.value_text {
        Some(vt) => {
            let vt_lower = to_lowercase(vt.as_str());
            score_lowered(
                candidate.role.as_str(),
                name_lower.as_str(),
                Some(vt_lower.as_str()),
                candidate.is_interactive,
                query_lower,
                role_hint,
            )
        },
        None => score_lowered(
            candidate.role.as_str(),
            name_lower.as_str(),
            None,
            candidate.is_interactive,
            query_lower,
            role_hint,
        ),
    }
}

/// Executable form of `name_signal`.
fn name_signal_exec(name_lower: &str, nl: &Vec<char>, query_lower: &str, ql: &Vec<char>) -> (r: (u128, u128))
    requires
        nl@ == name_lower@,
        ql@ == query_lower@,
    ensures
        (r.0 as int, r.1 as int) == name_signal(nl@, ql@),
        r.1 <= 0x4_0000_0000_0000_0000u128,
        r.0 <= 20 * r.1,
{
    proof {
        lemma_name_signal_bounds(nl@, ql@);
        crate::text::lemma_byte_len_at_least_chars(nl@);
        crate::text::lemma_byte_len_at_least_chars(ql@);
    }
    if nl.len() == 0 {
        return (0, 1);
    }
    if chars_equal(nl, ql) {
        return (19, 1);
    }
    let bn = utf8_len(name_lower) as u128;
    let bq = utf8_len(query_lower) as u128;
    if starts_with(nl, ql) || starts_with(ql, nl) {
        let longer = if bn >= bq { bn } else { bq };
        let shorter = if bn >= bq { bq } else { bn };
        return (12 * longer + 6 * shorter, longer);
    }
    if contains(nl, ql) {
        proof { crate::text::lemma_contained_byte_len(nl@, ql@); }
        return (8 * bn + 6 * bq, bn);
    }
    if contains(ql, nl) && bn >= 3 {
        proof { crate::text::lemma_contained_byte_len(ql@, nl@); }
        return (7 * bq + 6 * bn, bq);
    }
    let r = fuzzy_ratio(name_lower, query_lower);
    if 5 * r.num > 3 * r.den {
        (14 * r.num, r.den)
    } else {
        (0, 1)
    }
}

/// Number of leading '@' characters of `s`.
pub open spec fn leading_ats(s: Seq<char>) -> int
    decreases s.len(),
{
    if s.len() > 0 && s[0] == '@' {
        1 + leading_ats(s.drop_first())
    } else {
        0
    }
}

proof fn lemma_leading_ats_step(s: Seq<char>, k: int)
    requires
        0 <= k < s.len(),
        forall|j: int| 0 <= j < k ==> s[j] == '@',
    ensures
        s[k] != '@' ==> leading_ats(s) == k,
        leading_ats(s) <= s.len(),
    decreases k,
{
    lemma_leading_ats_bound(s);
    if k > 0 {
        lemma_leading_ats_step(s.drop_first(), k - 1);
    }
}

proof fn lemma_leading_ats_bound(s: Seq<char>)
    ensures
        0 <= leading_ats(s) <= s.len(),
    decreases s.len(),
{
    if s.len() > 0 {
        lemma_leading_ats_bound(s.drop_first());
    }
}

proof fn lemma_leading_ats_all(s: Seq<char>)
    requires
        forall|j: int| 0 <= j < s.len() ==> s[j] == '@',
    ensures
        leading_ats(s) == s.len(),
    decreases s.len(),
{
    if s.len() > 0 {
        lemma_leading_ats_all(s.drop_first());
    }
}

/// The reference id a `--within` argument names: the argument with every
/// leading '@' removed (as `trim_start_matches('@')` does).
pub fn within_ref_id(within_ref: &str) -> (id: &str)
    ensures
        id@ == within_ref@.skip(leading_ats(within_ref@)),
{
    let chars = crate::text::to_chars(within_ref);
    let n = chars.len();
    let mut k: usize = 0;
    while k < n && chars[k] == '@'
        invariant
            chars@ == within_ref@,
            n == chars@.len(),
            k <= n,
            forall|j: int| 0 <= j < k ==> chars@[j] == '@',
        decreases n - k,
    {
        k = k + 1;
    }
    proof {
        if k < n {
            lemma_leading_ats_step(within_ref@, k as int);
        } else {
            lemma_leading_ats_all(within_ref@);
        }
    }
    within_ref.substring_char(k, n)
}

/// Message for a `--within` reference the reference table does not know.
pub open spec fn unknown_ref_message(within_ref: Seq<char>) -> Seq<char> {
    "Unknown ref '"@ + within_ref + "' for --within"@
}

/// Message for a `--within` reference that has no backend node id.
pub open spec fn no_backend_id_message(within_ref: Seq<char>) -> Seq<char> {
    "Ref '"@ + within_ref + "' has no backend_node_id"@
}

/// The backend node id that scopes a lookup, from the `--within` argument
/// and what the reference table holds for `within_ref_id(within_ref)`:
/// `None` when the reference is unknown, `Some(None)` when it has no backend
/// node id.  Either case is an error naming the argument as given.
pub fn within_backend_node_id(within_ref: &str, entry: Option<Option<i64>>) -> (r: Result<i64, String>)
    ensures
        match entry {
            None => r matches Err(m) && m@ == unknown_ref_message(within_ref@),
            Some(None) => r matches Err(m) && m@ == no_backend_id_message(within_ref@),
            Some(Some(id)) => r matches Ok(v) && v == id,
        },
{
    match entry {
        None => {
            let mut m = String::from_str("Unknown ref '");
            m.append(within_ref);
            m.append("' for --within");
            Err(m)
        },
        Some(None) => {
            let mut m = String::from_str("Ref '");
            m.append(within_ref);
            m.append("' has no backend_node_id");
            Err(m)
        },
        Some(Some(id)) => Ok(id),
    }
}

/// Whether a lookup that must keep trying has a deadline, and whether it
/// has passed.
#[derive(Clone, Copy, Debug, PartialEq, Eq)]
pub enum RetryDeadline {
    NoDeadline,
    Pending,
    Passed,
}

/// What a lookup does after one round of harvesting and scoring.
#[derive(Clone, Copy, Debug, PartialEq, Eq)]
pub enum FindStep {
    /// Hand out the matches of this round.
    Deliver,
    /// Wait the given number of milliseconds, then fetch the tree again.
    PauseMillis(u64),
    /// Stop with no matches.
    GiveUp,
}

/// The step after a round that found `matches` elements: deliver them when
/// there are any; otherwise wait 200 ms and retry while the deadline is
/// pending, or give up when there is no deadline or it has passed.
pub fn next_find_step(matches: usize, deadline: RetryDeadline) -> (step: FindStep)
    ensures
        matches > 0 ==> step == FindStep::Deliver,
        matches == 0 && deadline == RetryDeadline::Pending ==> step == FindStep::PauseMillis(200),
        matches == 0 && deadline != RetryDeadline::Pending ==> step == FindStep::GiveUp,
{
    if matches > 0 {
        FindStep::Deliver
    } else {
        match deadline {
            RetryDeadline::Pending => FindStep::PauseMillis(200),
            _ => FindStep::GiveUp,
        }
    }
}

/// The character of decimal digit `d`.
pub open spec fn digit_char(d: int) -> char {
    (48 + d) as char
}

/// Decimal notation of `n`, without leading zeros.
pub open spec fn decimal(n: nat) -> Seq<char>
    decreases n,
{
    if n < 10 {
        seq![digit_char(n as int)]
    } else {
        decimal(n / 10).push(digit_char((n % 10) as int))
    }
}

fn digit_text(d: u64) -> (t: &'static str)
    requires
        d < 10,
    ensures
        t@ == seq![digit_char(d as int)],
{
    match d {
        0 => {
            proof {
                reveal_strlit("0");
            }
            "0"
        },
        1 => {
            proof {
                reveal_strlit("1");
            }
            "1"
        },
        2 => {
            proof {
                reveal_strlit("2");
            }
            "2"
        },
        3 => {
            proof {
                reveal_strlit("3");
            }
            "3"
        },
        4 => {
            proof {
                reveal_strlit("4");
            }
            "4"
        },
        5 => {
            proof {
                reveal_strlit("5");
            }
            "5"
        },
        6 => {
            proof {
                reveal_strlit("6");
            }
            "6"
        },
        7 => {
            proof {
                reveal_strlit("7");
            }
            "7"
        },
        8 => {
            proof {
                reveal_strlit("8");
            }
            "8"
        },
        _ => {
            proof {
                reveal_strlit("9");
            }
            "9"
        },
    }
}

/// The reference id handed out for reference number `n`: "e" followed by
/// the decimal digits of `n`.
pub fn ref_label(n: u64) -> (label: String)
    ensures
        label@ == seq!['e'] + decimal(n as nat),
{
    let mut reversed: Vec<u64> = Vec::new();
    let mut m: u64 = n;
    while m >= 10
        invariant
            decimal(n as nat) == decimal(m as nat) + Seq::new(
                reversed@.len(),
                |i: int| digit_char(reversed@[reversed@.len() - 1 - i] as int),
            ),
            forall|i: int| 0 <= i < reversed@.len() ==> reversed@[i] < 10,
        decreases m,
    {
        let ghost before = reversed@;
        let d = m % 10;
        reversed.push(d);
        assert(decimal(m as nat) == decimal((m / 10) as nat).push(digit_char(d as int)));
        assert(Seq::new(reversed@.len(), |i: int| digit_char(reversed@[reversed@.len() - 1 - i] as int))
            =~= seq![digit_char(d as int)] + Seq::new(
            before.len(),
            |i: int| digit_char(before[before.len() - 1 - i] as int),
        ));
        m = m / 10;
    }
    let ghost tail = Seq::new(
        reversed@.len(),
        |i: int| digit_char(reversed@[reversed@.len() - 1 - i] as int),
    );
    proof {
        reveal_strlit("e");
    }
    let mut label = String::from_str("e");
    label.append(digit_text(m));
    let mut k: usize = reversed.len();
    while k > 0
        invariant
            k <= reversed@.len(),
            forall|i: int| 0 <= i < reversed@.len() ==> reversed@[i] < 10,
            tail == Seq::new(
                reversed@.len(),
                |i: int| digit_char(reversed@[reversed@.len() - 1 - i] as int),
            ),
            label@ == seq!['e'] + decimal(m as nat) + tail.take(reversed@.len() - k),
        decreases k,
    {
        k = k - 1;
        label.append(digit_text(reversed[k]));
        assert(tail.take(reversed@.len() - k) =~= tail.take(reversed@.len() - k - 1).push(
            digit_char(reversed@[k as int] as int),
        ));
    }
    assert(tail.take(reversed@.len() as int) =~= tail);
    assert(seq!['e'] + decimal(n as nat) =~= seq!['e'] + decimal(m as nat) + tail);
    label
}

} // verus!
