//! The model: an ordered, owned sequence of layers, a configured loss,
//! and the activation cache one forward pass records for the matching
//! backward/update sweep to consume.

use vstd::prelude::*;
use crate::layer::{
    Layer, Dense, same_shape, dense_fwd_spec, relu_fwd_spec, sigmoid_fwd_spec, tanh_fwd_spec,
    softmax_fwd_spec, relu_bwd_spec, sigmoid_bwd_spec, tanh_bwd_spec, softmax_bwd_spec,
    sgd_spec, col_sums_spec,
};
use crate::loss::{LossKind, loss_shapes_ok, loss_value_spec, loss_grad_spec};
use crate::rng::RngSource;
use crate::tensor::{
    Tensor, wf_mat, rows_of, cols_of, mm_spec, transpose_spec, hadamard_spec,
    lemma_mm_spec_shape, lemma_transpose_spec_shape, lemma_hadamard_spec_shape,
};
use crate::{view_of, lemma_view_of_index, NnError};

verus! {

broadcast use lemma_view_of_index;

/// Whether a layer accepts `c` input columns.
pub open spec fn layer_cols_ok(l: Layer, c: int) -> bool {
    match l {
        Layer::Dense(d) => c == d.in_dim(),
        _ => true,
    }
}

/// Whether the layers from index `k` on accept a matrix that reaches
/// layer `k` with `c` columns.
pub open spec fn chain_ok_from(ls: Seq<Layer>, k: nat, c: int) -> bool
    decreases ls.len() - k,
{
    if k >= ls.len() {
        true
    } else {
        layer_cols_ok(ls[k as int], c) && chain_ok_from(ls, (k + 1) as nat, ls[k as int].fwd_cols(
            c))
    }
}

/// Whether the whole stack accepts an input of `c` columns: the shape
/// compatibility the first forward pass exercises.
pub open spec fn chain_ok(ls: Seq<Layer>, c: int) -> bool {
    chain_ok_from(ls, 0, c)
}

/// The shape discipline one forward step leaves behind: the output has
/// the rows of the input, the stage's output columns, and a dropout
/// stage holds a mask of the input's shape.
pub open spec fn step_shape_ok(l: Layer, x: Seq<Seq<i64>>, y: Seq<Seq<i64>>) -> bool {
    match l {
        Layer::Dense(d) => cols_of(x) == d.in_dim() && rows_of(y) == rows_of(x) && cols_of(y)
            == d.out_dim(),
        Layer::Dropout(dr) => same_shape(y, x) && (match dr.mask_view() {
            Some(mk) => same_shape(mk, x),
            None => false,
        }),
        _ => same_shape(y, x),
    }
}

/// How one fused backward-plus-update step changes a layer: a dense
/// stage records its parameter gradients and immediately steps against
/// them; every other stage is unchanged.
pub open spec fn bwd_step_rel(pre: Layer, post: Layer, x: Seq<Seq<i64>>, g: Seq<Seq<i64>>,
    lr: i64) -> bool {
    match pre {
        Layer::Dense(d) => match post {
            Layer::Dense(d2) => {
                let gw = mm_spec(transpose_spec(x), g);
                let gb = col_sums_spec(g);
                &&& d2.weights.grad_view() == Some(gw)
                &&& d2.bias.grad_view() == Some(gb)
                &&& d2.weights.view() == sgd_spec(d.weights.view(), gw, lr)
                &&& d2.bias.view() == sgd_spec(d.bias.view(), gb, lr)
            },
            _ => false,
        },
        _ => post == pre,
    }
}

/// The mathematical values of a cache's tensors, in order.
pub open spec fn cache_views(c: Seq<Tensor>) -> Seq<Seq<Seq<i64>>> {
    Seq::new(c.len(), |j: int| c[j].view())
}

/// The gradient that flows out of layer `i`'s backward step, where `gl`
/// is the loss gradient fed to the last layer and `cv` the cached
/// forward inputs.
pub open spec fn grad_above(ls: Seq<Layer>, cv: Seq<Seq<Seq<i64>>>, gl: Seq<Seq<i64>>,
    i: nat) -> Seq<Seq<i64>>
    decreases ls.len() - i,
{
    if i >= ls.len() {
        gl
    } else {
        ls[i as int].bwd_grad(cv[i as int], grad_above(ls, cv, gl, (i + 1) as nat))
    }
}

/// A well-shaped backward step is accepted and produces a gradient of
/// the forward input's shape.
pub proof fn lemma_bwd_grad_shape(l: Layer, x: Seq<Seq<i64>>, g: Seq<Seq<i64>>, y: Seq<Seq<i64>>)
    requires
        l.wf(),
        wf_mat(x),
        wf_mat(g),
        step_shape_ok(l, x, y),
        same_shape(g, y),
    ensures
        l.bwd_ok(x, g),
        wf_mat(l.bwd_grad(x, g)),
        same_shape(l.bwd_grad(x, g), x),
{
    match l {
        Layer::Dense(d) => {
            lemma_transpose_spec_shape(d.weights.view());
            lemma_mm_spec_shape(g, transpose_spec(d.weights.view()));
        },
        Layer::ReLU(_) => {
            assert(forall|i: int| 0 <= i < x.len() ==> (#[trigger] relu_bwd_spec(x, g)[i]).len()
                == x[0].len());
        },
        Layer::Sigmoid(_) => {
            assert(forall|i: int| 0 <= i < x.len() ==> (#[trigger] sigmoid_bwd_spec(x,
                g)[i]).len() == x[0].len());
        },
        Layer::Tanh(_) => {
            assert(forall|i: int| 0 <= i < x.len() ==> (#[trigger] tanh_bwd_spec(x, g)[i]).len()
                == x[0].len());
        },
        Layer::Softmax(_) => {
            assert(forall|i: int| 0 <= i < x.len() ==> (#[trigger] softmax_bwd_spec(x,
                g)[i]).len() == x[0].len());
        },
        Layer::Dropout(dr) => {
            lemma_hadamard_spec_shape(g, dr.mask_view().unwrap());
        },
    }
}

/// The ordered stack of layers, the configured loss, and the transient
/// activation cache: index 0 the input, index i the output of layer
/// i-1, written by one forward pass and consumed by the matching
/// backward pass.
pub struct Model {
    pub layers: Vec<Layer>,
    pub loss: LossKind,
    /// The activation cache of the most recent forward pass.
    pub cache: Option<Vec<Tensor>>,
}

impl Model {
    /// Every layer is well formed, and a present cache chains the
    /// layers' shapes from its first entry to its last.
    pub open spec fn wf(&self) -> bool {
        &&& (forall|i: int| 0 <= i < self.layers@.len() ==> (#[trigger] self.layers@[i]).wf())
        &&& match self.cache {
            Some(c) => {
                &&& c@.len() == self.layers@.len() + 1
                &&& (forall|i: int| 0 <= i < c@.len() ==> (#[trigger] c@[i]).wf())
                &&& (forall|i: int| 0 <= i < self.layers@.len() ==> #[trigger] step_shape_ok(
                    self.layers@[i], c@[i].view(), c@[i + 1].view()))
            },
            None => true,
        }
    }

    /// A model with no layers, no cache, and the given loss.
    pub fn new(loss: LossKind) -> (r: Model)
        ensures
            r.layers@.len() == 0,
            r.cache is None,
            r.loss == loss,
            r.wf(),
    {
        Model { layers: Vec::new(), loss, cache: None }
    }

    /// Appends a stage; shape compatibility with its neighbours is not
    /// checked until the next forward pass exercises it. Any cache from
    /// an earlier forward pass no longer matches this model and is
    /// discarded.
    pub fn add_layer(&mut self, layer: Layer)
        requires
            old(self).wf(),
            layer.wf(),
        ensures
            final(self).wf(),
            final(self).layers@ == old(self).layers@.push(layer),
            final(self).loss == old(self).loss,
            final(self).cache is None,
    {
        self.layers.push(layer);
        self.cache = None;
    }

    /// Resets the cache to the input, threads it through each layer in
    /// order recording every intermediate output, retains the record,
    /// and returns the final output. Fails, with no cache retained,
    /// exactly when the stack's shapes do not chain from this input.
    pub fn forward(&mut self, input: &Tensor, rng: &mut RngSource) -> (r: Result<Tensor, NnError>)
        requires
            old(self).wf(),
            input.wf(),
        ensures
            final(self).wf(),
            final(self).loss == old(self).loss,
            final(self).layers@.len() == old(self).layers@.len(),
            chain_ok(old(self).layers@, input.spec_cols()) ==> (r matches Ok(t) && t.wf()
                && t.grad_view() is None && (final(self).cache matches Some(c) && c@.len() == old(
                self).layers@.len() + 1 && c@[0].view() == input.view() && (forall|i: int|
                0 <= i < old(self).layers@.len() ==> #[trigger] Layer::fwd_rel(
                    old(self).layers@[i], final(self).layers@[i], c@[i].view(),
                    c@[i + 1].view())) && t.view() == c@[old(self).layers@.len() as int].view())),
            !chain_ok(old(self).layers@, input.spec_cols()) ==> (r matches Err(e) && e
                == NnError::DimensionMismatch && final(self).cache is None),
    {
        self.cache = None;
        let n: usize = self.layers.len();
        let mut acts: Vec<Tensor> = Vec::new();
        acts.push(Tensor { data: crate::tensor::copy_mat(&input.data), grad: None });
        let mut k: usize = 0;
        while k < n
            invariant
                0 <= k <= n,
                n == self.layers@.len(),
                n == old(self).layers@.len(),
                self.loss == old(self).loss,
                self.cache is None,
                input.wf(),
                acts@.len() == k + 1,
                acts@[0].view() == input.view(),
                forall|i: int| 0 <= i < acts@.len() ==> (#[trigger] acts@[i]).wf(),
                forall|i: int| 0 <= i < acts@.len() ==> (#[trigger] acts@[i]).grad_view()
                    is None,
                forall|i: int| 0 <= i < self.layers@.len() ==> (#[trigger] self.layers@[i]).wf(),
                forall|j: int| k <= j < n ==> self.layers@[j] == old(self).layers@[j],
                forall|i: int| 0 <= i < k ==> #[trigger] Layer::fwd_rel(old(self).layers@[i],
                    self.layers@[i], acts@[i].view(), acts@[i + 1].view()),
                forall|i: int| 0 <= i < k ==> #[trigger] step_shape_ok(self.layers@[i],
                    acts@[i].view(), acts@[i + 1].view()),
                chain_ok(old(self).layers@, input.spec_cols()) == chain_ok_from(
                    old(self).layers@, k as nat, cols_of(acts@[k as int].view())),
            decreases n - k,
        {
            let idx: usize = acts.len() - 1;
            let res = {
                let cur = &acts[idx];
                self.layers[k].forward(cur, rng)
            };
            match res {
                Ok(t) => {
                    acts.push(t);
                    k += 1;
                },
                Err(e) => {
                    return Err(e);
                },
            }
        }
        let out = acts[n].duplicate();
        self.cache = Some(acts);
        Ok(out)
    }

    /// Consumes the cache of the immediately preceding forward pass:
    /// applies the configured loss's gradient to the cached final output
    /// and the target, then sweeps the layers in reverse, pairing layer
    /// i with cache entry i, computing its backward gradient and
    /// immediately updating its parameters. Without a cache this is an
    /// invalid-state failure; a target that does not match the output's
    /// shape is a dimension failure, with the cache left as it was.
    pub fn backward(&mut self, target: &Vec<Vec<i64>>, learning_rate: i64) -> (r: Result<
        (),
        NnError,
    >)
        requires
            old(self).wf(),
        ensures
            final(self).wf(),
            final(self).loss == old(self).loss,
            final(self).layers@.len() == old(self).layers@.len(),
            old(self).cache is None ==> (r matches Err(e) && e == NnError::InvalidState && *final(
                self) == *old(self)),
            (match old(self).cache {
                Some(c) => !loss_shapes_ok(c@[old(self).layers@.len() as int].view(), view_of(
                    target@)),
                None => false,
            }) ==> (r matches Err(e) && e == NnError::DimensionMismatch && *final(self) == *old(
                self)),
            (match old(self).cache {
                Some(c) => loss_shapes_ok(c@[old(self).layers@.len() as int].view(), view_of(
                    target@)),
                None => false,
            }) ==> (r matches Ok(u) && final(self).cache is None && (forall|i: int|
                0 <= i < old(self).layers@.len() ==> #[trigger] bwd_step_rel(
                    old(self).layers@[i], final(self).layers@[i],
                    cache_views(old(self).cache.unwrap()@)[i], grad_above(old(self).layers@,
                    cache_views(old(self).cache.unwrap()@), loss_grad_spec(old(self).loss,
                    cache_views(old(self).cache.unwrap()@)[old(self).layers@.len() as int],
                    view_of(target@)), (i + 1) as nat), learning_rate))),
    {
        let n: usize = self.layers.len();
        if self.cache.is_none() {
            return Err(NnError::InvalidState);
        }
        let ghost cv = cache_views(self.cache.unwrap()@);
        let ghost gl = loss_grad_spec(self.loss, cv[n as int], view_of(target@));
        let grad_data: Vec<Vec<i64>> = {
            let cache_ref = match &self.cache {
                Some(c) => c,
                None => {
                    return Err(NnError::InvalidState);
                },
            };
            let output: &Tensor = &cache_ref[n];
            match self.loss.evaluate(output, target) {
                Ok(p) => p.1,
                Err(e) => {
                    return Err(e);
                },
            }
        };
        let mut g = Tensor { data: grad_data, grad: None };
        let mut k: usize = n;
        while k > 0
            invariant
                0 <= k <= n,
                n == self.layers@.len(),
                n == old(self).layers@.len(),
                self.loss == old(self).loss,
                self.cache == old(self).cache,
                old(self).cache matches Some(c0) && c0@.len() == n + 1,
                old(self).wf(),
                cv == cache_views(old(self).cache.unwrap()@),
                cv.len() == n + 1,
                gl == loss_grad_spec(old(self).loss, cv[n as int], view_of(target@)),
                g.wf(),
                g.grad_view() is None,
                g.view() == grad_above(old(self).layers@, cv, gl, k as nat),
                same_shape(g.view(), cv[k as int]),
                forall|j: int| 0 <= j < k ==> self.layers@[j] == old(self).layers@[j],
                forall|i: int| 0 <= i < self.layers@.len() ==> (#[trigger] self.layers@[i]).wf(),
                forall|i: int| k <= i < n ==> #[trigger] bwd_step_rel(old(self).layers@[i],
                    self.layers@[i], cv[i], grad_above(old(self).layers@, cv, gl, (i + 1) as nat),
                    learning_rate),
            decreases k,
        {
            let i: usize = k - 1;
            proof {
                assert(old(self).cache.unwrap()@[i as int].wf());
                assert(old(self).cache.unwrap()@[i as int].view() == cv[i as int]);
                assert(step_shape_ok(old(self).layers@[i as int], cv[i as int],
                    cv[i as int + 1]));
                lemma_bwd_grad_shape(old(self).layers@[i as int], cv[i as int], g.view(),
                    cv[i as int + 1]);
            }
            let res = {
                let cache_ref = match &self.cache {
                    Some(c) => c,
                    None => {
                        // The cache was checked above and is never
                        // cleared inside the sweep.
                        proof {
                            assert(false);
                        }
                        return Err(NnError::InvalidState);
                    },
                };
                let xin: &Tensor = &cache_ref[i];
                self.layers[i].backward(xin, &g)
            };
            match res {
                Ok(t) => {
                    g = t;
                },
                Err(e) => {
                    // The cache's shape chain makes every backward step
                    // well shaped, so this arm cannot be reached.
                    proof {
                        assert(false);
                    }
                    return Err(e);
                },
            }
            self.layers[i].update_parameters(learning_rate);
            k -= 1;
        }
        self.cache = None;
        Ok(())
    }
}

/// The model does not alter per-layer numeric results: when no stage is
/// stochastic, the activation chain a forward pass caches is exactly
/// what calling each layer's own forward in order produces, and the
/// layers come out unchanged.
pub proof fn lemma_model_forward_is_manual_chain(pre: Seq<Layer>, post: Seq<Layer>, cv: Seq<
    Seq<Seq<i64>>,
>)
    requires
        post.len() == pre.len(),
        cv.len() == pre.len() + 1,
        forall|i: int| 0 <= i < pre.len() ==> !(#[trigger] pre[i]).is_stochastic(),
        forall|i: int| 0 <= i < pre.len() ==> #[trigger] Layer::fwd_rel(pre[i], post[i], cv[i],
            cv[i + 1]),
    ensures
        forall|i: int| 0 <= i < pre.len() ==> #[trigger] post[i] == pre[i],
        forall|i: int| 0 <= i < pre.len() ==> #[trigger] cv[i + 1] == pre[i].det_fwd(cv[i]),
{
    assert forall|i: int| 0 <= i < pre.len() implies #[trigger] post[i] == pre[i] by {
        assert(Layer::fwd_rel(pre[i], post[i], cv[i], cv[i + 1]));
    };
    assert forall|i: int| 0 <= i < pre.len() implies #[trigger] cv[i + 1] == pre[i].det_fwd(
        cv[i]) by {
        assert(Layer::fwd_rel(pre[i], post[i], cv[i], cv[i + 1]));
    };
}

} // verus!
