//! The SiLU-gated feed-forward block and the mixture-of-experts bank
//! that dispatches tokens to routed experts.

use vstd::prelude::*;

use crate::err::ModelError;
use crate::projection::Projection;
use crate::router::{router_input_ok, ExpertRouter};
use crate::shape::{lemma_bc_suffix, lemma_prod2, lemma_prod3};
use crate::tensor::{
    bc_add, bc_mul, clone_tensor, dims_of, dims_vec, dtype_of, gather_rows, index_add_rows,
    index_select_rows, reshape_to, silu_t, to_dtype_t, to_vec2_u32, zeros_shaped,
};

verus! {

/// What `FeedForward::new` accepts: gate and up agree on both widths,
/// and down maps the intermediate width back to the input width.
pub open spec fn ffn_parts_ok<P: Projection>(gate: P, up: P, down: P) -> bool {
    &&& up.in_dim() == gate.in_dim()
    &&& up.out_dim() == gate.out_dim()
    &&& down.in_dim() == gate.out_dim()
    &&& down.out_dim() == gate.in_dim()
}

/// Dense two-gate feed-forward block: `down(SiLU(gate(x)) ⊙ up(x))`.
pub struct FeedForward<P: Projection> {
    pub gate: P,
    pub up: P,
    pub down: P,
}

impl<P: Projection> FeedForward<P> {
    /// Gate and up read the same width and agree on the intermediate
    /// width that down consumes; down writes the width that was read,
    /// so the block maps a model width to itself.
    pub open spec fn wf(&self) -> bool {
        &&& self.gate.proj_wf()
        &&& self.up.proj_wf()
        &&& self.down.proj_wf()
        &&& ffn_parts_ok(self.gate, self.up, self.down)
    }

    /// Width of the axis the block consumes.
    pub open spec fn width_in(&self) -> usize {
        self.gate.in_dim()
    }

    /// Width of the axis the block produces.
    pub open spec fn width_out(&self) -> usize {
        self.down.out_dim()
    }

    /// Assembles the block, rejecting projections whose widths do not
    /// chain back to the input width.
    pub fn new(gate: P, up: P, down: P) -> (r: Result<FeedForward<P>, ModelError>)
        requires
            gate.proj_wf(),
            up.proj_wf(),
            down.proj_wf(),
        ensures
            (r is Ok <==> ffn_parts_ok(gate, up, down)),
            (r matches Ok(f) ==> f.wf() && f.gate == gate && f.up == up && f.down == down),
            (r matches Err(e) ==> e is Configuration),
    {
        if up.in_features() != gate.in_features() || up.out_features() != gate.out_features()
            || down.in_features() != gate.out_features() || down.out_features()
            != gate.in_features() {
            return Err(ModelError::Configuration);
        }
        Ok(FeedForward { gate, up, down })
    }

    /// Applies the block to the last axis.
    pub fn forward(&self, xs: &candle_core::Tensor) -> (r: Result<candle_core::Tensor, ModelError>)
        requires
            self.wf(),
            dims_of(*xs).len() >= 2,
            dims_of(*xs)[dims_of(*xs).len() - 1] == self.width_in(),
        ensures
            (r matches Ok(y) ==> dims_of(y) == dims_of(*xs).update(
                dims_of(*xs).len() - 1,
                self.width_out(),
            )),
            (r matches Err(e) ==> e is Numeric),
    {
        let x = match self.gate.quantized_act_type() {
            Some(t) => to_dtype_t(xs, t)?,
            None => clone_tensor(xs),
        };
        let lhs = self.gate.forward(&x)?;
        let lhs = silu_t(&lhs)?;
        let rhs = self.up.forward(&x)?;
        proof {
            lemma_bc_suffix(dims_of(lhs), dims_of(rhs));
        }
        let prodt = bc_mul(&lhs, &rhs)?;
        assert(dims_of(prodt) =~= dims_of(*xs).update(
            dims_of(*xs).len() - 1,
            self.gate.out_dim(),
        ));
        let res = self.down.forward(&prodt)?;
        match self.gate.quantized_act_type() {
            Some(_) => {
                let back = to_dtype_t(&res, dtype_of(xs))?;
                Ok(back)
            },
            None => Ok(res),
        }
    }

    /// Runtime view of `width_in`.
    pub fn in_width(&self) -> (r: usize)
        requires
            self.wf(),
        ensures
            r == self.width_in(),
    {
        self.gate.in_features()
    }

    /// Runtime view of `width_out`.
    pub fn out_width(&self) -> (r: usize)
        requires
            self.wf(),
        ensures
            r == self.width_out(),
    {
        self.down.out_features()
    }

    /// Intermediate width of the block.
    pub open spec fn width_mid(&self) -> usize {
        self.gate.out_dim()
    }

    /// Runtime view of `width_mid`.
    pub fn mid_width(&self) -> (r: usize)
        requires
            self.wf(),
        ensures
            r == self.width_mid(),
    {
        self.gate.out_features()
    }
}

/// The pair `(tt, jj)` lies before the scan position `(t, j)` in
/// row-major order.
pub open spec fn pair_before(tt: int, jj: int, t: int, j: int) -> bool {
    tt < t || (tt == t && jj < j)
}

/// The returned pair lists are exactly the `(t, j)` with
/// `rows[t][j] == ei`: every listed pair is such a match, every such
/// match is listed, and no pair is listed twice.
pub open spec fn dispatch_pairs_exact(
    idx: Seq<u32>,
    top: Seq<u32>,
    rows: Seq<Seq<u32>>,
    ei: u32,
) -> bool {
    &&& idx.len() == top.len()
    &&& forall|a: int|
        #![trigger idx[a]]
        0 <= a < idx.len() ==> {
            &&& (idx[a] as int) < rows.len()
            &&& (top[a] as int) < rows[idx[a] as int].len()
            &&& rows[idx[a] as int][top[a] as int] == ei
        }
    &&& forall|t: int, j: int|
        0 <= t < rows.len() && 0 <= j < rows[t].len() && rows[t][j] == ei ==> exists|a: int|
            0 <= a < idx.len() && #[trigger] idx[a] as int == t && top[a] as int == j
    &&& forall|a: int, b: int|
        #![trigger idx[a], idx[b]]
        0 <= a < b < idx.len() ==> !(idx[a] == idx[b] && top[a] == top[b])
}

/// The token/slot pairs `(t, j)` with `rows[t][j] == ei`: which tokens
/// the expert serves, and where the expert sits in each such token's
/// selection list — each matching pair exactly once.
fn tokens_for_expert(rows: &Vec<Vec<u32>>, ei: u32, kk: usize) -> (r: (Vec<u32>, Vec<u32>))
    requires
        rows@.len() <= u32::MAX,
        kk <= u32::MAX,
        forall|i: int| 0 <= i < rows@.len() ==> (#[trigger] rows@[i])@.len() == kk,
    ensures
        r.0@.len() == r.1@.len(),
        forall|j: int| 0 <= j < r.0@.len() ==> (#[trigger] r.0@[j] as int) < rows@.len(),
        forall|j: int| 0 <= j < r.1@.len() ==> (#[trigger] r.1@[j] as int) < kk,
        dispatch_pairs_exact(r.0@, r.1@, rows.deep_view(), ei),
{
    proof {
        crate::router::lemma_rows_deep_view(*rows);
    }
    let ghost rws = rows.deep_view();
    let mut idx: Vec<u32> = Vec::new();
    let mut top: Vec<u32> = Vec::new();
    let mut t: usize = 0;
    while t < rows.len()
        invariant
            t <= rows@.len() <= u32::MAX,
            kk <= u32::MAX,
            forall|i: int| 0 <= i < rows@.len() ==> (#[trigger] rows@[i])@.len() == kk,
            rws == rows.deep_view(),
            rws.len() == rows@.len(),
            forall|i: int| 0 <= i < rows@.len() ==> #[trigger] rws[i] == rows@[i]@,
            idx@.len() == top@.len(),
            forall|a: int|
                #![trigger idx@[a]]
                0 <= a < idx@.len() ==> {
                    &&& (idx@[a] as int) < rows@.len()
                    &&& (top@[a] as int) < kk
                    &&& rws[idx@[a] as int][top@[a] as int] == ei
                    &&& pair_before(idx@[a] as int, top@[a] as int, t as int, 0)
                },
            forall|tt: int, jj: int|
                0 <= tt < rws.len() && 0 <= jj < kk && pair_before(tt, jj, t as int, 0) && rws[tt][jj]
                    == ei ==> exists|a: int|
                    0 <= a < idx@.len() && #[trigger] idx@[a] as int == tt && top@[a] as int == jj,
            forall|a: int, b: int|
                #![trigger idx@[a], idx@[b]]
                0 <= a < b < idx@.len() ==> pair_before(
                    idx@[a] as int,
                    top@[a] as int,
                    idx@[b] as int,
                    top@[b] as int,
                ),
        decreases rows@.len() - t,
    {
        let row = &rows[t];
        let mut j: usize = 0;
        while j < row.len()
            invariant
                t < rows@.len() <= u32::MAX,
                kk <= u32::MAX,
                row == &rows@[t as int],
                row@.len() == kk,
                j <= kk,
                rws == rows.deep_view(),
                rws.len() == rows@.len(),
                forall|i: int| 0 <= i < rows@.len() ==> #[trigger] rws[i] == rows@[i]@,
                idx@.len() == top@.len(),
                forall|a: int|
                    #![trigger idx@[a]]
                    0 <= a < idx@.len() ==> {
                        &&& (idx@[a] as int) < rows@.len()
                        &&& (top@[a] as int) < kk
                        &&& rws[idx@[a] as int][top@[a] as int] == ei
                        &&& pair_before(idx@[a] as int, top@[a] as int, t as int, j as int)
                    },
                forall|tt: int, jj: int|
                    0 <= tt < rws.len() && 0 <= jj < kk && pair_before(tt, jj, t as int, j as int)
                        && rws[tt][jj] == ei ==> exists|a: int|
                        0 <= a < idx@.len() && #[trigger] idx@[a] as int == tt && top@[a] as int
                            == jj,
                forall|a: int, b: int|
                    #![trigger idx@[a], idx@[b]]
                    0 <= a < b < idx@.len() ==> pair_before(
                        idx@[a] as int,
                        top@[a] as int,
                        idx@[b] as int,
                        top@[b] as int,
                    ),
            decreases kk - j,
        {
            let ghost old_idx = idx@;
            let ghost old_top = top@;
            proof {
                assert(rws[t as int] == rows@[t as int]@);
            }
            if row[j] == ei {
                idx.push(t as u32);
                top.push(j as u32);
                proof {
                    assert(idx@ =~= old_idx.push(t as u32));
                    assert(top@ =~= old_top.push(j as u32));
                    assert(rws[t as int][j as int] == ei);
                    // The new pair is sound and ordered after every
                    // earlier one; earlier pairs are untouched.
                    assert forall|a: int|
                        #![trigger idx@[a]]
                        0 <= a < idx@.len() implies {
                        &&& (idx@[a] as int) < rows@.len()
                        &&& (top@[a] as int) < kk
                        &&& rws[idx@[a] as int][top@[a] as int] == ei
                        &&& pair_before(idx@[a] as int, top@[a] as int, t as int, j as int + 1)
                    } by {
                        if a < old_idx.len() {
                            assert(idx@[a] == old_idx[a] && top@[a] == old_top[a]);
                        } else {
                            assert(idx@[a] == t as u32 && top@[a] == j as u32);
                        }
                    }
                    assert forall|a: int, b: int|
                        #![trigger idx@[a], idx@[b]]
                        0 <= a < b < idx@.len() implies pair_before(
                        idx@[a] as int,
                        top@[a] as int,
                        idx@[b] as int,
                        top@[b] as int,
                    ) by {
                        if b < old_idx.len() {
                            assert(idx@[a] == old_idx[a] && idx@[b] == old_idx[b]);
                        } else {
                            assert(idx@[b] == t as u32 && top@[b] == j as u32);
                            assert(idx@[a] == old_idx[a] && top@[a] == old_top[a]);
                            assert(pair_before(old_idx[a] as int, old_top[a] as int, t as int, j as int));
                        }
                    }
                    // Every match up to and including (t, j) is listed.
                    assert forall|tt: int, jj: int|
                        0 <= tt < rws.len() && 0 <= jj < kk && pair_before(
                            tt,
                            jj,
                            t as int,
                            j as int + 1,
                        ) && rws[tt][jj] == ei implies exists|a: int|
                        0 <= a < idx@.len() && #[trigger] idx@[a] as int == tt && top@[a] as int
                            == jj by {
                        if pair_before(tt, jj, t as int, j as int) {
                            let a = choose|a: int|
                                0 <= a < old_idx.len() && #[trigger] old_idx[a] as int == tt
                                    && old_top[a] as int == jj;
                            assert(idx@[a] as int == tt && top@[a] as int == jj);
                        } else {
                            assert(tt == t as int && jj == j as int);
                            assert(idx@[idx@.len() - 1] as int == tt);
                            assert(top@[top@.len() - 1] as int == jj);
                        }
                    }
                }
            } else {
                proof {
                    // (t, j) is no match: the completeness frontier
                    // moves past it with nothing to add.
                    assert(rws[t as int][j as int] == row@[j as int]);
                    assert(rws[t as int][j as int] != ei);
                    assert forall|tt: int, jj: int|
                        0 <= tt < rws.len() && 0 <= jj < kk && pair_before(
                            tt,
                            jj,
                            t as int,
                            j as int + 1,
                        ) && rws[tt][jj] == ei implies exists|a: int|
                        0 <= a < idx@.len() && #[trigger] idx@[a] as int == tt && top@[a] as int
                            == jj by {
                        assert(pair_before(tt, jj, t as int, j as int));
                    }
                }
            }
            j += 1;
        }
        proof {
            // Scan point (t, kk) equals (t + 1, 0) over rows of width kk.
            assert forall|a: int| 0 <= a < idx@.len() implies pair_before(
                #[trigger] idx@[a] as int,
                top@[a] as int,
                t as int + 1,
                0,
            ) by {
                assert(pair_before(idx@[a] as int, top@[a] as int, t as int, kk as int));
                assert((top@[a] as int) < kk);
            }
            assert forall|tt: int, jj: int|
                0 <= tt < rws.len() && 0 <= jj < kk && pair_before(tt, jj, t as int + 1, 0)
                    && rws[tt][jj] == ei implies exists|a: int|
                0 <= a < idx@.len() && #[trigger] idx@[a] as int == tt && top@[a] as int == jj by {
                assert(pair_before(tt, jj, t as int, kk as int));
            }
        }
        t += 1;
    }
    proof {
        // All positions precede the final scan point, so the listed
        // pairs are exactly the matches; distinctness follows because
        // a listed pair precedes the scan point of every later push.
        assert forall|tt: int, jj: int|
            0 <= tt < rws.len() && 0 <= jj < rws[tt].len() && rws[tt][jj] == ei implies exists|
            a: int,
        |
            0 <= a < idx@.len() && #[trigger] idx@[a] as int == tt && top@[a] as int == jj by {
            assert(rws[tt].len() == kk);
            assert(pair_before(tt, jj, t as int, 0));
        }
        assert forall|a: int, b: int|
            #![trigger idx@[a], idx@[b]]
            0 <= a < b < idx@.len() implies !(idx@[a] == idx@[b] && top@[a] == top@[b]) by {
            assert(pair_before(idx@[a] as int, top@[a] as int, idx@[b] as int, top@[b] as int));
        }
        assert forall|a: int|
            #![trigger idx@[a]]
            0 <= a < idx@.len() implies {
            &&& (idx@[a] as int) < rws.len()
            &&& (top@[a] as int) < rws[idx@[a] as int].len()
            &&& rws[idx@[a] as int][top@[a] as int] == ei
        } by {
            assert(rws[idx@[a] as int] == rows@[idx@[a] as int]@);
        }
        assert forall|a: int| 0 <= a < top@.len() implies (#[trigger] top@[a] as int) < kk by {
            assert((idx@[a] as int) < rows@.len());
        }
        assert(dispatch_pairs_exact(idx@, top@, rws, ei));
    }
    (idx, top)
}

/// What `ExpertBank::new` accepts: one expert per routed-expert slot,
/// each mapping the model width to itself at the configured
/// intermediate width, and a shared expert exactly when the
/// configuration names one, at `n_shared_experts` times that width.
pub open spec fn bank_parts_ok<P: Projection>(
    experts: Seq<FeedForward<P>>,
    shared_experts: Option<FeedForward<P>>,
    gate: ExpertRouter,
) -> bool {
    &&& experts.len() == gate.n_routed_experts
    &&& forall|i: int|
        #![trigger experts[i]]
        0 <= i < experts.len() ==> {
            &&& experts[i].width_in() == gate.cfg.hidden_size
            &&& experts[i].width_out() == gate.cfg.hidden_size
            &&& experts[i].width_mid() == gate.cfg.moe_intermediate_size
        }
    &&& (shared_experts is Some <==> gate.cfg.n_shared_experts is Some)
    &&& (match (shared_experts, gate.cfg.n_shared_experts) {
        (Some(s), Some(ns)) => {
            &&& s.width_in() == gate.cfg.hidden_size
            &&& s.width_out() == gate.cfg.hidden_size
            &&& s.width_mid() as int == gate.cfg.moe_intermediate_size as int * ns as int
        },
        _ => true,
    })
}

/// Ordered bank of routed experts, with an optional always-on shared
/// expert, fed by an `ExpertRouter`.
pub struct ExpertBank<P: Projection> {
    pub experts: Vec<FeedForward<P>>,
    pub shared_experts: Option<FeedForward<P>>,
    pub gate: ExpertRouter,
}

/// The input of an expert-bank call: a routable token grid whose token
/// count also fits an index tensor's `u32` entries.
pub open spec fn bank_input_ok(d: Seq<usize>, hidden: usize) -> bool {
    &&& router_input_ok(d, hidden)
    &&& d[0] * d[1] <= u32::MAX
}

impl<P: Projection> ExpertBank<P> {
    /// Model width the bank consumes and produces.
    pub open spec fn hidden(&self) -> usize {
        self.gate.cfg.hidden_size
    }

    pub open spec fn wf(&self) -> bool {
        &&& self.gate.wf()
        &&& forall|i: int| 0 <= i < self.experts@.len() ==> (#[trigger] self.experts@[i]).wf()
        &&& (self.shared_experts matches Some(s) ==> s.wf())
        &&& bank_parts_ok(self.experts@, self.shared_experts, self.gate)
    }

    /// Assembles the bank: one expert per routed-expert slot of the
    /// router's configuration, every expert reading and writing the
    /// model width at the configured intermediate width, and the shared
    /// expert present exactly when the configuration names one.
    pub fn new(
        experts: Vec<FeedForward<P>>,
        shared_experts: Option<FeedForward<P>>,
        gate: ExpertRouter,
    ) -> (r: Result<ExpertBank<P>, ModelError>)
        requires
            forall|i: int| 0 <= i < experts@.len() ==> (#[trigger] experts@[i]).wf(),
            (shared_experts matches Some(s) ==> s.wf()),
            gate.wf(),
        ensures
            (r is Ok <==> bank_parts_ok(experts@, shared_experts, gate)),
            (r matches Ok(b) ==> {
                &&& b.wf()
                &&& b.gate == gate
                &&& b.experts == experts
                &&& b.shared_experts == shared_experts
            }),
            (r matches Err(e) ==> e is Configuration),
    {
        let hidden = gate.cfg.hidden_size;
        let mid = gate.cfg.moe_intermediate_size;
        if experts.len() != gate.n_routed_experts {
            return Err(ModelError::Configuration);
        }
        let mut i: usize = 0;
        while i < experts.len()
            invariant
                i <= experts@.len(),
                hidden == gate.cfg.hidden_size,
                mid == gate.cfg.moe_intermediate_size,
                forall|a: int| 0 <= a < experts@.len() ==> (#[trigger] experts@[a]).wf(),
                forall|a: int|
                    0 <= a < i ==> (#[trigger] experts@[a]).width_in() == hidden
                        && experts@[a].width_out() == hidden && experts@[a].width_mid() == mid,
            decreases experts@.len() - i,
        {
            if experts[i].in_width() != hidden || experts[i].out_width() != hidden
                || experts[i].mid_width() != mid {
                return Err(ModelError::Configuration);
            }
            i += 1;
        }
        match (&shared_experts, gate.cfg.n_shared_experts) {
            (None, None) => {},
            (Some(s), Some(ns)) => {
                let expect_mid = match mid.checked_mul(ns) {
                    Some(m) => m,
                    None => {
                        return Err(ModelError::Configuration);
                    },
                };
                if s.in_width() != hidden || s.out_width() != hidden || s.mid_width()
                    != expect_mid {
                    return Err(ModelError::Configuration);
                }
            },
            _ => {
                return Err(ModelError::Configuration);
            },
        }
        Ok(ExpertBank { experts, shared_experts, gate })
    }

    /// Dispatches each flattened token to its selected experts and
    /// scatter-accumulates the weighted expert outputs back into place.
    fn moe_infer(
        &self,
        xs: &candle_core::Tensor,
        topk_ids: &candle_core::Tensor,
        topk_weight: &candle_core::Tensor,
    ) -> (r: Result<candle_core::Tensor, ModelError>)
        requires
            self.wf(),
            dims_of(*xs).len() == 2,
            dims_of(*xs)[1] == self.hidden(),
            dims_of(*xs)[0] <= u32::MAX,
            dims_of(*topk_ids).len() == 2,
            dims_of(*topk_ids)[0] == dims_of(*xs)[0],
            dims_of(*topk_ids)[1] <= u32::MAX,
            dims_of(*topk_weight) == dims_of(*topk_ids),
        ensures
            (r matches Ok(y) ==> dims_of(y) == dims_of(*xs)),
            (r matches Err(e) ==> e is Numeric),
    {
        let xd = dims_vec(xs);
        let mut y = zeros_shaped(xs, &xd)?;
        let rows = to_vec2_u32(topk_ids)?;
        let kk = dims_vec(topk_ids)[1];
        let mut ei: usize = 0;
        while ei < self.experts.len()
            invariant
                self.wf(),
                dims_of(*xs).len() == 2,
                dims_of(*xs)[1] == self.hidden(),
                dims_of(*xs)[0] <= u32::MAX,
                dims_of(*topk_weight) == dims_of(*topk_ids),
                dims_of(*topk_ids).len() == 2,
                dims_of(*topk_ids)[0] == dims_of(*xs)[0],
                kk == dims_of(*topk_ids)[1],
                kk <= u32::MAX,
                rows@.len() == dims_of(*xs)[0],
                forall|i: int| 0 <= i < rows@.len() ==> (#[trigger] rows@[i])@.len() == kk,
                dims_of(y) == dims_of(*xs),
                ei <= self.experts@.len(),
            decreases self.experts@.len() - ei,
        {
            proof {
                assert(self.experts@.len() <= u32::MAX);
            }
            let (idx, top) = tokens_for_expert(&rows, ei as u32, kk);
            // Experts with no assigned token are skipped entirely.
            if idx.len() > 0 {
                let sub = index_select_rows(xs, &idx)?;
                let out = self.experts[ei].forward(&sub)?;
                let wsel = index_select_rows(topk_weight, &idx)?;
                let mut tops2: Vec<Vec<u32>> = Vec::new();
                let mut j: usize = 0;
                while j < top.len()
                    invariant
                        j <= top@.len(),
                        tops2@.len() == j,
                        forall|a: int| 0 <= a < top@.len() ==> (#[trigger] top@[a] as int) < kk,
                        forall|a: int|
                            0 <= a < j ==> (#[trigger] tops2@[a])@ =~= seq![top@[a]],
                    decreases top@.len() - j,
                {
                    let mut cell: Vec<u32> = Vec::new();
                    cell.push(top[j]);
                    tops2.push(cell);
                    j += 1;
                }
                let wg = gather_rows(&wsel, &tops2)?;
                assert(dims_of(wg) =~= seq![idx@.len() as usize, 1usize]);
                let wgx = to_dtype_t(&wg, dtype_of(xs))?;
                proof {
                    lemma_bc_suffix(dims_of(out), dims_of(wgx));
                }
                let weighted = bc_mul(&out, &wgx)?;
                assert(dims_of(weighted) =~= dims_of(sub));
                let y2 = index_add_rows(&y, &idx, &weighted)?;
                y = y2;
            }
            ei += 1;
        }
        Ok(y)
    }

    /// Runs the routed experts and the shared expert over a
    /// `(batch, seq, hidden)` input; the shape is kept.
    pub fn forward(&self, xs: &candle_core::Tensor) -> (r: Result<candle_core::Tensor, ModelError>)
        requires
            self.wf(),
        ensures
            (r matches Ok(y) ==> dims_of(y) == dims_of(*xs) && bank_input_ok(
                dims_of(*xs),
                self.hidden(),
            )),
            (!bank_input_ok(dims_of(*xs), self.hidden()) ==> (r matches Err(e) && e is Shape)),
            (r matches Err(e) && e is Shape ==> !bank_input_ok(dims_of(*xs), self.hidden())),
            (r matches Err(e) ==> e is Shape || e is Numeric),
    {
        let xd = dims_vec(xs);
        if !(xd.len() == 3 && xd[2] == self.gate.cfg.hidden_size && xd[0] >= 1 && xd[1] >= 1) {
            return Err(ModelError::Shape);
        }
        let n = match xd[0].checked_mul(xd[1]) {
            Some(n) => n,
            None => {
                return Err(ModelError::Shape);
            },
        };
        if n > u32::MAX as usize {
            return Err(ModelError::Shape);
        }
        let decision = self.gate.forward(xs)?;
        let mut flat_dims: Vec<usize> = Vec::new();
        flat_dims.push(n);
        flat_dims.push(self.gate.cfg.hidden_size);
        proof {
            lemma_prod3(xd@[0], xd@[1], xd@[2]);
            lemma_prod2(n, self.gate.cfg.hidden_size);
            assert(flat_dims@ =~= seq![n, self.gate.cfg.hidden_size]);
            assert(xd@ =~= seq![xd@[0], xd@[1], xd@[2]]);
            assert((xd@[0] as int * xd@[1] as int) * xd@[2] as int == xd@[0] as int * (
            xd@[1] as int * xd@[2] as int)) by (nonlinear_arith);
        }
        let x2 = reshape_to(xs, &flat_dims)?;
        proof {
            crate::config::lemma_routing_bounds(
                self.gate.n_routed_experts,
                self.gate.cfg.n_group,
                self.gate.cfg.topk_group,
                self.gate.top_k,
            );
        }
        let y = self.moe_infer(&x2, &decision.indices, &decision.weights)?;
        proof {
            lemma_prod2(n, self.gate.cfg.hidden_size);
        }
        let y3 = reshape_to(&y, &xd)?;
        assert(dims_of(y3) == dims_of(*xs));
        match &self.shared_experts {
            Some(se) => {
                let sy = se.forward(xs)?;
                proof {
                    lemma_bc_suffix(dims_of(y3), dims_of(sy));
                }
                let combined = bc_add(&y3, &sy)?;
                assert(dims_of(combined) =~= dims_of(*xs));
                Ok(combined)
            },
            None => Ok(y3),
        }
    }
}

} // verus!
