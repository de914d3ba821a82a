//! Expert routing: scores tokens against expert centroids and selects
//! `top_k` experts per token under one of three policies.
//!
//! The floating-point scoring runs in the tensor library; every ranking
//! it produces comes back as an index permutation, and the selection
//! walk over those permutations is verified: each token receives exactly
//! `top_k` distinct expert indices, all in range, and — under the
//! group-limited policies — all drawn from the `topk_group` kept groups.

use vstd::prelude::*;

use crate::config::{cfg_wf, lemma_routing_bounds, DeepSeekV3Config, ScoringFunc, TopkMethod};
use crate::err::ModelError;
use crate::shape::{
    expert_in_groups, group_of, lemma_bc_suffix, lemma_perm_row_contains_all, lemma_prod2,
    lemma_prod3, perm_row, row_distinct, row_groups_within, row_in_range,
};
use vstd::arithmetic::div_mod::{
    lemma_fundamental_div_mod, lemma_fundamental_div_mod_converse, lemma_mod_bound,
};
use vstd::set_lib::lemma_len_subset;
use crate::tensor::{
    arg_sort_desc, bc_add, bc_div, bc_mul, broadcast_matmul_t, dims_of, dims_vec, dtype_f32,
    exp_t, gather_rows, log_t, max_last, narrow_t, neg_t, reshape_to, scalar_u32, sigmoid_t,
    softmax_last_dim_t, sort_desc_values, sum_keepdim_last, sum_last, tensor_of_u32_rows,
    to_dtype_t, to_vec2_u32, transpose_t, u32_rows_of,
};

verus! {

/// Per-token expert assignment: `indices` and `weights` are both
/// `(tokens, top_k)`; row `t` lists the experts chosen for token `t` and
/// the weight each contribution carries.
#[derive(Debug)]
pub struct RoutingDecision {
    pub indices: candle_core::Tensor,
    pub weights: candle_core::Tensor,
}

/// Every row of `rows` holds exactly `k` distinct expert indices below
/// `e`.
pub open spec fn decision_rows_ok(rows: Seq<Seq<u32>>, n: int, k: int, e: int) -> bool {
    &&& rows.len() == n
    &&& forall|i: int|
        0 <= i < n ==> (#[trigger] rows[i]).len() == k && row_in_range(rows[i], e) && row_distinct(
            rows[i],
        )
}

/// The row draws its experts from at most `tg` groups of width `gs`.
pub open spec fn grouped_row_ok(row: Seq<u32>, gs: int, tg: int) -> bool {
    exists|allowed: Seq<u32>| allowed.len() <= tg && row_groups_within(row, gs, allowed)
}

/// Every row of `rows` draws its experts from at most `tg` groups of
/// width `gs`.
pub open spec fn decision_grouped_ok(rows: Seq<Seq<u32>>, gs: int, tg: int) -> bool {
    forall|i: int| 0 <= i < rows.len() ==> grouped_row_ok(#[trigger] rows[i], gs, tg)
}

/// The deep view of a vector of `u32` rows is the sequence of the rows'
/// own views.
pub proof fn lemma_rows_deep_view(v: Vec<Vec<u32>>)
    ensures
        v.deep_view().len() == v@.len(),
        forall|i: int| 0 <= i < v@.len() ==> #[trigger] v.deep_view()[i] == v@[i]@,
{
    assert forall|i: int| 0 <= i < v@.len() implies #[trigger] v.deep_view()[i] == v@[i]@ by {
        assert(v.deep_view()[i] =~= v@[i]@);
    }
}

/// Does `v` occur in `allowed`?
fn contains_u32(allowed: &Vec<u32>, v: u32) -> (r: bool)
    ensures
        r == allowed@.contains(v),
{
    let mut j: usize = 0;
    while j < allowed.len()
        invariant
            j <= allowed@.len(),
            forall|a: int| 0 <= a < j ==> allowed@[a] != v,
        decreases allowed@.len() - j,
    {
        if allowed[j] == v {
            assert(allowed@[j as int] == v);
            return true;
        }
        j += 1;
    }
    false
}

/// First `k` entries of a ranking row: with the row a permutation, the
/// prefix is distinct and in range.
fn take_prefix_k(order: &Vec<u32>, k: usize) -> (r: Vec<u32>)
    requires
        perm_row(order@, order@.len() as int),
        k <= order@.len(),
    ensures
        r@ == order@.take(k as int),
        r@.len() == k,
        row_in_range(r@, order@.len() as int),
        row_distinct(r@),
{
    let mut sel: Vec<u32> = Vec::new();
    let mut j: usize = 0;
    while j < k
        invariant
            j <= k <= order@.len(),
            perm_row(order@, order@.len() as int),
            sel@ =~= order@.take(j as int),
        decreases k - j,
    {
        sel.push(order[j]);
        assert(sel@ =~= order@.take(j as int + 1));
        j += 1;
    }
    assert(row_in_range(sel@, order@.len() as int));
    assert(row_distinct(sel@));
    sel
}

/// Walks the ranking row in order and keeps the first `k` experts whose
/// group is listed in `allowed`: the verified core of group-limited
/// selection.  Because the permitted groups hold at least `k` experts,
/// the walk always fills all `k` slots.
#[verifier::rlimit(60)]
fn select_within_groups(order: &Vec<u32>, allowed: &Vec<u32>, gs: usize, k: usize) -> (sel: Vec<
    u32,
>)
    requires
        perm_row(order@, order@.len() as int),
        order@.len() <= u32::MAX,
        gs >= 1,
        k >= 1,
        row_distinct(allowed@),
        forall|j: int|
            0 <= j < allowed@.len() ==> ((#[trigger] allowed@[j] as int) + 1) * gs
                <= order@.len(),
        k <= allowed@.len() * gs,
    ensures
        sel@.len() == k,
        row_in_range(sel@, order@.len() as int),
        row_distinct(sel@),
        row_groups_within(sel@, gs as int, allowed@),
{
    let e = order.len();
    let mut sel: Vec<u32> = Vec::new();
    let mut j: usize = 0;
    while j < e && sel.len() < k
        invariant
            j <= e == order@.len(),
            perm_row(order@, e as int),
            gs >= 1,
            k >= 1,
            sel@.len() <= k,
            row_in_range(sel@, e as int),
            row_distinct(sel@),
            row_groups_within(sel@, gs as int, allowed@),
            forall|a: int| 0 <= a < sel@.len() ==> order@.take(j as int).contains(#[trigger] sel@[a]),
            sel@.len() < k ==> forall|x: u32|
                order@.take(j as int).contains(x) && #[trigger] expert_in_groups(
                    x,
                    gs as int,
                    allowed@,
                ) ==> sel@.contains(x),
        decreases e - j,
    {
        let ghost pre_sel = sel@;
        let x = order[j];
        let g = (x as usize) / gs;
        proof {
            // The group index fits u32: dividing by gs ≥ 1 cannot grow.
            lemma_fundamental_div_mod(x as int, gs as int);
            lemma_mod_bound(x as int, gs as int);
            assert(g as int <= gs as int * (g as int)) by (nonlinear_arith)
                requires
                    gs >= 1,
                    g as int >= 0,
            ;
            assert(group_of(x, gs as int) == g as int);
        }
        if contains_u32(allowed, g as u32) {
            proof {
                // x is new: it is not in the prefix already drawn from.
                assert forall|a: int| 0 <= a < sel@.len() implies #[trigger] sel@[a] != x by {
                    let prefix = order@.take(j as int);
                    assert(prefix.contains(sel@[a]));
                    let w = choose|w: int| 0 <= w < prefix.len() && prefix[w] == sel@[a];
                    assert(order@[w] == sel@[a]);
                    assert(order@[j as int] == x);
                }
                assert(allowed@.contains(g as u32));
                assert(expert_in_groups(x, gs as int, allowed@)) by {
                    let wj = choose|wj: int|
                        0 <= wj < allowed@.len() && allowed@[wj] == g as u32;
                    assert(group_of(x, gs as int) == allowed@[wj] as int);
                }
            }
            sel.push(x);
            assert(sel@ =~= pre_sel.push(x));
            assert(row_groups_within(sel@, gs as int, allowed@)) by {
                assert forall|a: int| 0 <= a < sel@.len() implies expert_in_groups(
                    #[trigger] sel@[a],
                    gs as int,
                    allowed@,
                ) by {
                    if a < pre_sel.len() {
                        assert(pre_sel[a] == sel@[a]);
                    } else {
                        assert(sel@[a] == x);
                    }
                }
            }
        } else {
            proof {
                // x belongs to no permitted group.
                assert(!expert_in_groups(x, gs as int, allowed@)) by {
                    if expert_in_groups(x, gs as int, allowed@) {
                        let wj = choose|wj: int|
                            0 <= wj < allowed@.len() && group_of(x, gs as int) == allowed@[wj] as int;
                        assert(allowed@[wj] == g as u32);
                        assert(allowed@.contains(g as u32));
                    }
                }
            }
        }
        proof {
            // Prefix containment carries to the extended prefix.
            assert forall|a: int| 0 <= a < sel@.len() implies order@.take(j as int + 1).contains(
                #[trigger] sel@[a],
            ) by {
                if a < pre_sel.len() {
                    let prefix = order@.take(j as int);
                    assert(prefix.contains(pre_sel[a]));
                    let w = choose|w: int| 0 <= w < prefix.len() && prefix[w] == pre_sel[a];
                    assert(order@.take(j as int + 1)[w] == sel@[a]);
                } else {
                    assert(sel@[a] == x);
                    assert(order@.take(j as int + 1)[j as int] == x);
                }
            }
            // Every permitted expert offered so far has been taken.
            if sel@.len() < k {
                assert forall|y: u32|
                    order@.take(j as int + 1).contains(y) && #[trigger] expert_in_groups(
                        y,
                        gs as int,
                        allowed@,
                    ) implies sel@.contains(y) by {
                    let prefix1 = order@.take(j as int + 1);
                    let w = choose|w: int| 0 <= w < prefix1.len() && prefix1[w] == y;
                    if w < j {
                        assert(order@.take(j as int)[w] == y);
                        assert(order@.take(j as int).contains(y));
                        assert(pre_sel.contains(y));
                        let a = choose|a: int| 0 <= a < pre_sel.len() && pre_sel[a] == y;
                        assert(sel@[a] == y);
                    } else {
                        assert(y == x);
                        assert(sel@[sel@.len() - 1] == x);
                    }
                }
            }
        }
        j += 1;
    }
    proof {
        if sel@.len() < k {
            // Impossible: the permitted groups hold `allowed.len() · gs`
            // distinct experts, all of which the full walk has taken.
            let e_int = order@.len() as int;
            let gsi = gs as int;
            let alen = allowed@.len() as int;
            let ll = alen * gsi;
            assert(order@.take(e_int) =~= order@);
            lemma_perm_row_contains_all(order@, e_int);
            let reqd = Seq::<u32>::new(
                ll as nat,
                |i: int| ((allowed@[i / gsi] as int) * gsi + i % gsi) as u32,
            );
            assert(ll >= 1);
            // Facts about each entry of reqd.
            assert forall|i: int| 0 <= i < ll implies {
                &&& 0 <= i / gsi < alen
                &&& 0 <= i % gsi < gsi
                &&& (reqd[i] as int) == (allowed@[i / gsi] as int) * gsi + i % gsi
                &&& (reqd[i] as int) < e_int
                &&& group_of(reqd[i], gsi) == allowed@[i / gsi] as int
            } by {
                lemma_fundamental_div_mod(i, gsi);
                lemma_mod_bound(i, gsi);
                let q = i / gsi;
                let rr = i % gsi;
                assert(q < alen) by (nonlinear_arith)
                    requires
                        gsi >= 1,
                        0 <= rr < gsi,
                        i == gsi * q + rr,
                        i < alen * gsi,
                ;
                assert(q >= 0) by (nonlinear_arith)
                    requires
                        gsi >= 1,
                        0 <= rr < gsi,
                        i == gsi * q + rr,
                        i >= 0,
                ;
                let a = allowed@[q] as int;
                let v = a * gsi + rr;
                assert((a + 1) * gsi <= e_int);
                assert(v < (a + 1) * gsi) by (nonlinear_arith)
                    requires
                        v == a * gsi + rr,
                        rr < gsi,
                ;
                assert(v >= 0) by (nonlinear_arith)
                    requires
                        v == a * gsi + rr,
                        a >= 0,
                        gsi >= 1,
                        rr >= 0,
                ;
                assert(((v as u32) as int) == v);
                lemma_fundamental_div_mod_converse(v, gsi, a, rr);
            }
            // reqd has no duplicates.
            assert(reqd.no_duplicates()) by {
                assert forall|i: int, w: int|
                    0 <= i < reqd.len() && 0 <= w < reqd.len() && i != w implies reqd[i]
                    != reqd[w] by {
                    if reqd[i] == reqd[w] {
                        assert(group_of(reqd[i], gsi) == group_of(reqd[w], gsi));
                        assert(allowed@[i / gsi] as int == allowed@[w / gsi] as int);
                        if i / gsi != w / gsi {
                            assert(false);
                        }
                        assert((reqd[i] as int) - (allowed@[i / gsi] as int) * gsi == i % gsi);
                        assert(i % gsi == w % gsi);
                        lemma_fundamental_div_mod(i, gsi);
                        lemma_fundamental_div_mod(w, gsi);
                    }
                }
            }
            // Every entry of reqd has been taken into sel.
            assert forall|i: int| 0 <= i < reqd.len() implies sel@.contains(#[trigger] reqd[i]) by {
                assert(expert_in_groups(reqd[i], gsi, allowed@)) by {
                    assert(group_of(reqd[i], gsi) == allowed@[i / gsi] as int);
                }
                assert(order@.contains(reqd[i]));
            }
            // Cardinality: sel holds at least ll ≥ k distinct values.
            broadcast use vstd::seq_lib::seq_to_set_is_finite;

            assert(reqd.to_set().subset_of(sel@.to_set())) by {
                assert forall|v: u32| reqd.to_set().contains(v) implies sel@.to_set().contains(
                    v,
                ) by {
                    let i = choose|i: int| 0 <= i < reqd.len() && reqd[i] == v;
                    assert(sel@.contains(v));
                }
            }
            assert(sel@.no_duplicates()) by {
                assert forall|a: int, b2: int|
                    0 <= a < sel@.len() && 0 <= b2 < sel@.len() && a != b2 implies sel@[a]
                    != sel@[b2] by {
                    if a < b2 {
                        assert(sel@[a] != sel@[b2]);
                    } else {
                        assert(sel@[b2] != sel@[a]);
                    }
                }
            }
            reqd.unique_seq_to_set();
            sel@.unique_seq_to_set();
            lemma_len_subset(reqd.to_set(), sel@.to_set());
            assert(sel@.len() >= ll);
            assert(false);
        }
    }
    sel
}

/// Ranks each row of a two-dimensional tensor in descending order and
/// returns the per-row index permutations as vectors.
fn ranked_rows(t: &candle_core::Tensor) -> (r: Result<Vec<Vec<u32>>, ModelError>)
    requires
        dims_of(*t).len() == 2,
        1 <= dims_of(*t)[1] <= u32::MAX,
    ensures
        (r matches Ok(rows) ==> {
            &&& rows@.len() == dims_of(*t)[0]
            &&& forall|i: int|
                0 <= i < rows@.len() ==> perm_row((#[trigger] rows@[i])@, dims_of(*t)[1] as int)
        }),
        (r matches Err(e) ==> e is Numeric),
{
    let o = arg_sort_desc(t)?;
    let rows = to_vec2_u32(&o)?;
    proof {
        lemma_rows_deep_view(rows);
        assert forall|i: int| 0 <= i < rows@.len() implies perm_row(
            (#[trigger] rows@[i])@,
            dims_of(*t)[1] as int,
        ) by {
            assert(rows@[i]@ == u32_rows_of(o)[i]);
        }
    }
    Ok(rows)
}

/// Greedy selection: the first `k` of each token's ranking.
fn prefix_rows_all(rows: &Vec<Vec<u32>>, k: usize, e: usize) -> (r: Vec<Vec<u32>>)
    requires
        forall|i: int| 0 <= i < rows@.len() ==> perm_row((#[trigger] rows@[i])@, e as int),
        k <= e,
    ensures
        r@.len() == rows@.len(),
        forall|i: int|
            0 <= i < r@.len() ==> {
                &&& (#[trigger] r@[i])@.len() == k
                &&& row_in_range(r@[i]@, e as int)
                &&& row_distinct(r@[i]@)
            },
{
    let mut out: Vec<Vec<u32>> = Vec::new();
    let mut i: usize = 0;
    while i < rows.len()
        invariant
            i <= rows@.len(),
            out@.len() == i,
            k <= e,
            forall|a: int| 0 <= a < rows@.len() ==> perm_row((#[trigger] rows@[a])@, e as int),
            forall|a: int|
                0 <= a < i ==> {
                    &&& (#[trigger] out@[a])@.len() == k
                    &&& row_in_range(out@[a]@, e as int)
                    &&& row_distinct(out@[a]@)
                },
        decreases rows@.len() - i,
    {
        let sel = take_prefix_k(&rows[i], k);
        out.push(sel);
        i += 1;
    }
    out
}

/// Group-limited selection: for each token, the `tg` best groups are
/// taken from its group ranking, and the expert ranking is walked
/// keeping only experts of those groups.
fn grouped_rows_all(
    rows: &Vec<Vec<u32>>,
    grows: &Vec<Vec<u32>>,
    gsw: usize,
    tg: usize,
    k: usize,
    e: usize,
    g: usize,
) -> (out: Vec<Vec<u32>>)
    requires
        rows@.len() == grows@.len(),
        forall|i: int| 0 <= i < rows@.len() ==> perm_row((#[trigger] rows@[i])@, e as int),
        forall|i: int| 0 <= i < grows@.len() ==> perm_row((#[trigger] grows@[i])@, g as int),
        1 <= tg <= g,
        gsw >= 1,
        k >= 1,
        e <= u32::MAX,
        g as int * gsw as int == e as int,
        k as int <= tg as int * gsw as int,
    ensures
        out@.len() == rows@.len(),
        forall|i: int|
            0 <= i < out@.len() ==> {
                &&& (#[trigger] out@[i])@.len() == k
                &&& row_in_range(out@[i]@, e as int)
                &&& row_distinct(out@[i]@)
                &&& grouped_row_ok(out@[i]@, gsw as int, tg as int)
            },
{
    let mut out: Vec<Vec<u32>> = Vec::new();
    let mut i: usize = 0;
    while i < rows.len()
        invariant
            i <= rows@.len(),
            out@.len() == i,
            rows@.len() == grows@.len(),
            1 <= tg <= g,
            gsw >= 1,
            k >= 1,
            e <= u32::MAX,
            g as int * gsw as int == e as int,
            k as int <= tg as int * gsw as int,
            forall|a: int| 0 <= a < rows@.len() ==> perm_row((#[trigger] rows@[a])@, e as int),
            forall|a: int| 0 <= a < grows@.len() ==> perm_row((#[trigger] grows@[a])@, g as int),
            forall|a: int|
                0 <= a < i ==> {
                    &&& (#[trigger] out@[a])@.len() == k
                    &&& row_in_range(out@[a]@, e as int)
                    &&& row_distinct(out@[a]@)
                    &&& grouped_row_ok(out@[a]@, gsw as int, tg as int)
                },
        decreases rows@.len() - i,
    {
        let allowed = take_prefix_k(&grows[i], tg);
        proof {
            // Each permitted group's expert range lies inside 0 .. e,
            // and the tg kept groups hold at least k experts.
            assert forall|j: int|
                0 <= j < allowed@.len() implies ((#[trigger] allowed@[j] as int) + 1)
                * gsw as int <= rows@[i as int]@.len() by {
                assert((allowed@[j] as int) < g);
                assert(((allowed@[j] as int) + 1) * gsw as int <= g as int * gsw as int)
                    by (nonlinear_arith)
                    requires
                        (allowed@[j] as int) + 1 <= g as int,
                        gsw >= 1,
                ;
            }
        }
        let sel = select_within_groups(&rows[i], &allowed, gsw, k);
        assert(grouped_row_ok(sel@, gsw as int, tg as int)) by {
            assert(allowed@.len() <= tg as int && row_groups_within(sel@, gsw as int, allowed@));
        }
        out.push(sel);
        i += 1;
    }
    out
}

/// The guard added to the weight sum before renormalisation, built as
/// `exp(-(20 · ln 10))`, i.e. `10⁻²⁰`, on the device of `like`.
fn tiny_eps(like: &candle_core::Tensor) -> (r: Result<candle_core::Tensor, ModelError>)
    ensures
        (r matches Ok(y) ==> dims_of(y).len() == 0),
        (r matches Err(e) ==> e is Numeric),
{
    let ten = scalar_u32(10, like)?;
    let ten = to_dtype_t(&ten, dtype_f32())?;
    let ln_ten = log_t(&ten)?;
    let twenty = scalar_u32(20, like)?;
    let twenty = to_dtype_t(&twenty, dtype_f32())?;
    proof {
        lemma_bc_suffix(dims_of(ln_ten), dims_of(twenty));
    }
    let m = bc_mul(&ln_ten, &twenty)?;
    let m = neg_t(&m)?;
    let r = exp_t(&m)?;
    assert(dims_of(r).len() == 0);
    Ok(r)
}

/// The input of a routing call: a `(batch, seq, hidden)` tensor with a
/// non-empty token grid whose flattened token count fits the machine.
pub open spec fn router_input_ok(xs_dims: Seq<usize>, hidden: usize) -> bool {
    &&& xs_dims.len() == 3
    &&& xs_dims[2] == hidden
    &&& xs_dims[0] >= 1
    &&& xs_dims[1] >= 1
    &&& xs_dims[0] * xs_dims[1] <= usize::MAX
}

/// What `ExpertRouter::new` accepts: a well-formed configuration that
/// names a routed-expert bank, an `(experts, hidden)` centroid matrix,
/// a correction bias exactly under the bias-corrected policy, sized per
/// expert, and a scalar routing scale.
pub open spec fn router_parts_ok(
    cfg: DeepSeekV3Config,
    weight: candle_core::Tensor,
    correction_bias: Option<candle_core::Tensor>,
    routed_scale: candle_core::Tensor,
) -> bool {
    &&& cfg_wf(cfg)
    &&& (match cfg.n_routed_experts {
        Some(e) => {
            &&& dims_of(weight) == seq![e, cfg.hidden_size]
            &&& (correction_bias matches Some(b) ==> dims_of(b) == seq![e])
        },
        None => false,
    })
    &&& (correction_bias is Some <==> cfg.topk_method is NoAuxTc)
    &&& dims_of(routed_scale).len() == 0
}

/// Scores tokens against expert centroids and selects `top_k` experts
/// per token.
pub struct ExpertRouter {
    pub cfg: DeepSeekV3Config,
    /// Expert centroids, `(n_routed_experts, hidden)`.
    pub weight: candle_core::Tensor,
    /// Per-expert selection bias, `(n_routed_experts,)`; present exactly
    /// when the policy is `NoAuxTc`.
    pub correction_bias: Option<candle_core::Tensor>,
    /// Scalar factor multiplied into every routed weight.
    pub routed_scale: candle_core::Tensor,
    pub top_k: usize,
    pub n_routed_experts: usize,
}

impl ExpertRouter {
    pub open spec fn wf(&self) -> bool {
        &&& cfg_wf(self.cfg)
        &&& self.cfg.n_routed_experts matches Some(e) && e == self.n_routed_experts
        &&& self.cfg.num_experts_per_tok matches Some(k) && k == self.top_k
        &&& dims_of(self.weight) == seq![self.n_routed_experts, self.cfg.hidden_size]
        &&& (self.correction_bias is Some <==> self.cfg.topk_method is NoAuxTc)
        &&& (self.correction_bias matches Some(b) ==> dims_of(b) == seq![self.n_routed_experts])
        &&& dims_of(self.routed_scale).len() == 0
    }

    /// Builds the router.  The configuration must be well-formed and
    /// name a routed-expert bank; the centroid matrix must be
    /// `(experts, hidden)`; the bias must be present if and only if the
    /// policy is the bias-corrected one; the scale must be a scalar.
    pub fn new(
        cfg: &DeepSeekV3Config,
        weight: candle_core::Tensor,
        correction_bias: Option<candle_core::Tensor>,
        routed_scale: candle_core::Tensor,
    ) -> (r: Result<ExpertRouter, ModelError>)
        ensures
            (r is Ok <==> router_parts_ok(*cfg, weight, correction_bias, routed_scale)),
            (r matches Ok(g) ==> {
                &&& g.wf()
                &&& g.cfg == *cfg
                &&& g.weight == weight
                &&& g.correction_bias == correction_bias
                &&& g.routed_scale == routed_scale
                &&& cfg.n_routed_experts matches Some(e) && e == g.n_routed_experts
                &&& cfg.num_experts_per_tok matches Some(k) && k == g.top_k
            }),
            (r matches Err(e) ==> e is Configuration),
    {
        if !cfg.validate() {
            return Err(ModelError::Configuration);
        }
        let e = match cfg.n_routed_experts {
            Some(e) => e,
            None => {
                return Err(ModelError::Configuration);
            },
        };
        let k = match cfg.num_experts_per_tok {
            Some(k) => k,
            None => {
                return Err(ModelError::Configuration);
            },
        };
        let wd = dims_vec(&weight);
        if wd.len() != 2 || wd[0] != e || wd[1] != cfg.hidden_size {
            assert(!(dims_of(weight) =~= seq![e, cfg.hidden_size]));
            return Err(ModelError::Configuration);
        }
        if matches!(cfg.topk_method, TopkMethod::NoAuxTc) != correction_bias.is_some() {
            return Err(ModelError::Configuration);
        }
        if let Some(b) = &correction_bias {
            let bd = dims_vec(b);
            if bd.len() != 1 || bd[0] != e {
                assert(!(dims_of(*b) =~= seq![e]));
                return Err(ModelError::Configuration);
            }
            assert(dims_of(*b) =~= seq![e]);
        }
        let sd = dims_vec(&routed_scale);
        if sd.len() != 0 {
            return Err(ModelError::Configuration);
        }
        assert(dims_of(weight) =~= seq![e, cfg.hidden_size]);
        Ok(
            ExpertRouter {
                cfg: *cfg,
                weight,
                correction_bias,
                routed_scale,
                top_k: k,
                n_routed_experts: e,
            },
        )
    }

    /// Routes every token of `(batch, seq, hidden)` input: returns
    /// `(tokens, top_k)` expert indices and weights.  Each token gets
    /// exactly `top_k` distinct experts in range, and under the
    /// group-limited policies all of a token's experts come from at most
    /// `topk_group` groups.
    pub fn forward(&self, xs: &candle_core::Tensor) -> (r: Result<RoutingDecision, ModelError>)
        requires
            self.wf(),
        ensures
            (r matches Ok(d) ==> {
                let n = (dims_of(*xs)[0] * dims_of(*xs)[1]) as usize;
                &&& router_input_ok(dims_of(*xs), self.cfg.hidden_size)
                &&& dims_of(d.indices) == seq![n, self.top_k]
                &&& dims_of(d.weights) == seq![n, self.top_k]
                &&& decision_rows_ok(
                    u32_rows_of(d.indices),
                    n as int,
                    self.top_k as int,
                    self.n_routed_experts as int,
                )
                &&& (!(self.cfg.topk_method is Greedy) ==> decision_grouped_ok(
                    u32_rows_of(d.indices),
                    self.n_routed_experts as int / self.cfg.n_group as int,
                    self.cfg.topk_group as int,
                ))
            }),
            (!router_input_ok(dims_of(*xs), self.cfg.hidden_size) ==> (r matches Err(e) && e
                is Shape)),
            (r matches Err(e) && e is Shape ==> !router_input_ok(
                dims_of(*xs),
                self.cfg.hidden_size,
            )),
            (r matches Err(e) ==> e is Shape || e is Numeric),
    {
        let xd = dims_vec(xs);
        if !(xd.len() == 3 && xd[2] == self.cfg.hidden_size && xd[0] >= 1 && xd[1] >= 1) {
            return Err(ModelError::Shape);
        }
        let n = match xd[0].checked_mul(xd[1]) {
            Some(n) => n,
            None => {
                return Err(ModelError::Shape);
            },
        };
        let e = self.n_routed_experts;
        let k = self.top_k;
        let g = self.cfg.n_group;
        let tg = self.cfg.topk_group;
        proof {
            lemma_routing_bounds(e, g, tg, k);
        }
        let gsw = e / g;

        // Flatten the token grid.
        let mut flat_dims: Vec<usize> = Vec::new();
        flat_dims.push(n);
        flat_dims.push(self.cfg.hidden_size);
        proof {
            lemma_prod3(xd@[0], xd@[1], xd@[2]);
            lemma_prod2(n, self.cfg.hidden_size);
            assert(flat_dims@ =~= seq![n, self.cfg.hidden_size]);
            assert(xd@ =~= seq![xd@[0], xd@[1], xd@[2]]);
            assert((xd@[0] as int * xd@[1] as int) * xd@[2] as int == xd@[0] as int * (
            xd@[1] as int * xd@[2] as int)) by (nonlinear_arith);
            assert(n >= 1) by (nonlinear_arith)
                requires
                    n as int == xd@[0] as int * xd@[1] as int,
                    xd@[0] >= 1,
                    xd@[1] >= 1,
            ;
        }
        let x2 = reshape_to(xs, &flat_dims)?;

        // Raw affinity logits, accumulated at full precision.
        let xf = to_dtype_t(&x2, dtype_f32())?;
        let wq = to_dtype_t(&self.weight, dtype_f32())?;
        let wt = transpose_t(&wq, 0, 1)?;
        assert(dims_of(wt) =~= seq![self.cfg.hidden_size, e]);
        proof {
            lemma_bc_suffix(dims_of(xf).take(0), dims_of(wt).take(0));
        }
        let logits = broadcast_matmul_t(&xf, &wt)?;
        assert(dims_of(logits) =~= seq![n, e]);

        // Probabilities.
        let scores = match self.cfg.scoring_func {
            ScoringFunc::Softmax => softmax_last_dim_t(&logits)?,
            ScoringFunc::Sigmoid => sigmoid_t(&logits)?,
        };

        // Select the experts of each token.
        let sel: Vec<Vec<u32>> = match self.cfg.topk_method {
            TopkMethod::Greedy => {
                let rows = ranked_rows(&scores)?;
                prefix_rows_all(&rows, k, e)
            },
            TopkMethod::GroupLimitedGreedy => {
                // Group ranking comes from the raw, uncorrected scores:
                // each group is represented by its best expert.
                let mut d3: Vec<usize> = Vec::new();
                d3.push(n);
                d3.push(g);
                d3.push(gsw);
                proof {
                    assert(d3@ =~= seq![n, g, gsw]);
                    lemma_prod3(n, g, gsw);
                    lemma_prod2(n, e);
                }
                let rs3 = reshape_to(&scores, &d3)?;
                let gsc = max_last(&rs3)?;
                assert(dims_of(gsc) =~= seq![n, g]);
                let grows = ranked_rows(&gsc)?;
                let rows = ranked_rows(&scores)?;
                grouped_rows_all(&rows, &grows, gsw, tg, k, e, g)
            },
            TopkMethod::NoAuxTc => {
                // Selection ranks bias-corrected scores; each group is
                // represented by the sum of its two best corrected
                // scores.
                let bias = match &self.correction_bias {
                    Some(b) => b,
                    None => {
                        // Well-formedness guarantees the bias exists.
                        assert(false);
                        return Err(ModelError::Configuration);
                    },
                };
                proof {
                    lemma_bc_suffix(dims_of(scores), dims_of(*bias));
                }
                let sfc = bc_add(&scores, bias)?;
                assert(dims_of(sfc) =~= seq![n, e]);
                let mut d3: Vec<usize> = Vec::new();
                d3.push(n);
                d3.push(g);
                d3.push(gsw);
                proof {
                    assert(d3@ =~= seq![n, g, gsw]);
                    lemma_prod3(n, g, gsw);
                    lemma_prod2(n, e);
                }
                let rs3 = reshape_to(&sfc, &d3)?;
                let sorted = sort_desc_values(&rs3)?;
                let top2 = narrow_t(&sorted, 2, 0, 2)?;
                let gsum = sum_last(&top2)?;
                assert(dims_of(gsum) =~= seq![n, g]);
                let grows = ranked_rows(&gsum)?;
                let rows = ranked_rows(&sfc)?;
                grouped_rows_all(&rows, &grows, gsw, tg, k, e, g)
            },
        };

        // Indices as a tensor, weights gathered from the uncorrected
        // probabilities at the selected indices.
        proof {
            assert(sel@.len() == n);
            assert(sel@[0]@.len() == k);
        }
        let idx_t = tensor_of_u32_rows(&sel, &scores)?;
        let mut w = gather_rows(&scores, &sel)?;
        assert(dims_of(w) =~= seq![n, k]);

        if k > 1 && self.cfg.norm_topk_prob {
            let s = sum_keepdim_last(&w)?;
            assert(dims_of(s) =~= seq![n, 1usize]);
            let epsv = tiny_eps(&scores)?;
            proof {
                lemma_bc_suffix(dims_of(s), dims_of(epsv));
            }
            let denom = bc_add(&s, &epsv)?;
            assert(dims_of(denom) =~= seq![n, 1usize]);
            proof {
                lemma_bc_suffix(dims_of(w), dims_of(denom));
            }
            let wn = bc_div(&w, &denom)?;
            assert(dims_of(wn) =~= seq![n, k]);
            w = wn;
        }
        proof {
            lemma_bc_suffix(dims_of(w), dims_of(self.routed_scale));
        }
        let ws = bc_mul(&w, &self.routed_scale)?;
        assert(dims_of(ws) =~= seq![n, k]);

        proof {
            lemma_rows_deep_view(sel);
        }
        Ok(RoutingDecision { indices: idx_t, weights: ws })
    }
}

} // verus!
