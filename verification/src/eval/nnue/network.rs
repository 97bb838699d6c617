//! NNUE network structure and forward pass.

use vstd::prelude::*;

use crate::eval::nnue::accumulator::Accumulator;
use crate::search::heuristics::{div_toward_zero, div_trunc};

verus! {

/// Hidden-layer dimension: 1024 neurons.
pub const HIDDEN: usize = 1024;

/// Number of output buckets (MaterialCount<8>).
pub const NUM_BUCKETS: usize = 8;

/// First-layer quantization factor.
pub const QA: i32 = 255;

/// Output-layer quantization factor.
pub const QB: i32 = 64;

/// Evaluation scale (maps to centipawns).
pub const SCALE: i32 = 400;

/// The size in bytes of a network file: the four tables below, little-endian
/// 16-bit values in order, padded to a multiple of 64 bytes.
pub const NETWORK_BYTES: usize = 1_607_744;

/// Quantized NNUE network.
///
/// File layout (little-endian 16-bit values):
/// - `feature_weights`: 768 rows of HIDDEN values (768 * 1024)
/// - `feature_bias`: HIDDEN values
/// - `output_weights`: NUM_BUCKETS * 2 * HIDDEN values (bucket-contiguous)
/// - `output_bias`: NUM_BUCKETS values
pub struct Network {
    /// Row `f` holds the hidden-layer weights of feature `f`. Quantization: QA.
    pub(crate) feature_weights: Vec<i16>,
    /// Bias vector of dimension HIDDEN. Quantization: QA.
    pub(crate) feature_bias: Vec<i16>,
    /// Row vectors `NUM_BUCKETS x (2 * HIDDEN)` output weights, bucket-contiguous. Quantization: QB.
    output_weights: Vec<i16>,
    /// Per-bucket scalar output bias. Quantization: QA * QB.
    output_bias: Vec<i16>,
}

/// The 16-bit value stored little-endian in bytes `lo`, `hi`.
pub open spec fn le_i16(lo: u8, hi: u8) -> i16 {
    (lo as int + 256 * hi as int) as u16 as i16
}

/// SCReLU activation: clamp to [0, QA] then square.
pub open spec fn screlu(x: int) -> int {
    let y = if x < 0 { 0 } else if x > QA { QA as int } else { x };
    y * y
}

impl Network {
    /// The feature weights, row after row.
    pub closed spec fn feature_weights_view(&self) -> Seq<i16> {
        self.feature_weights@
    }

    /// The hidden-layer bias.
    pub closed spec fn feature_bias_view(&self) -> Seq<i16> {
        self.feature_bias@
    }

    /// The output weights, bucket after bucket.
    pub closed spec fn output_weights_view(&self) -> Seq<i16> {
        self.output_weights@
    }

    /// The output bias of each bucket.
    pub closed spec fn output_bias_view(&self) -> Seq<i16> {
        self.output_bias@
    }

    /// Each table has its size.
    pub open spec fn wf(&self) -> bool {
        &&& self.feature_weights_view().len() == 768 * HIDDEN
        &&& self.feature_bias_view().len() == HIDDEN
        &&& self.output_weights_view().len() == NUM_BUCKETS * 2 * HIDDEN
        &&& self.output_bias_view().len() == NUM_BUCKETS
    }

    /// The weight of feature `f` at hidden unit `j`.
    pub open spec fn weight(&self, f: int, j: int) -> i16 {
        self.feature_weights_view()[f * HIDDEN + j]
    }

    /// The sum of the first `n` output terms of bucket `bucket`: the
    /// activated values `us` then `them`, each times its output weight.
    pub open spec fn out_sum(&self, us: Seq<i16>, them: Seq<i16>, bucket: int, n: int) -> int
        decreases n,
    {
        if n <= 0 {
            0
        } else {
            let x = if n - 1 < HIDDEN { us[n - 1] } else { them[n - 1 - HIDDEN] };
            self.out_sum(us, them, bucket, n - 1) + screlu(x as int) * self.output_weights_view()[bucket * 2 * HIDDEN + n - 1] as int
        }
    }

    /// The forward pass stays within 32 bits: every partial output sum, and
    /// the biased and scaled value.
    pub open spec fn forward_fits(&self, us: Seq<i16>, them: Seq<i16>, bucket: int) -> bool {
        &&& forall|n: int| 0 <= n <= 2 * HIDDEN ==> i32::MIN <= #[trigger] self.out_sum(us, them, bucket, n) <= i32::MAX
        &&& i32::MIN <= (div_trunc(self.out_sum(us, them, bucket, 2 * HIDDEN as int), QA as int)
            + self.output_bias_view()[bucket] as int) * SCALE <= i32::MAX
    }

    /// The evaluation the forward pass gives for `us`, `them` in `bucket`.
    pub open spec fn forward(&self, us: Seq<i16>, them: Seq<i16>, bucket: int) -> int {
        div_trunc(
            (div_trunc(self.out_sum(us, them, bucket, 2 * HIDDEN as int), QA as int) + self.output_bias_view()[bucket] as int)
                * SCALE,
            (QA * QB) as int,
        )
    }

    /// Read a network from the bytes of its file: `None` unless there are
    /// exactly [`NETWORK_BYTES`] of them.
    pub fn from_bytes(bytes: &[u8]) -> (r: Option<Network>)
        ensures
            r is Some <==> bytes@.len() == NETWORK_BYTES,
            r matches Some(n) ==> {
                &&& n.wf()
                &&& forall|i: int| 0 <= i < 768 * HIDDEN ==> #[trigger] n.feature_weights_view()[i] == le_i16(bytes@[2 * i], bytes@[2 * i + 1])
                &&& forall|i: int| 0 <= i < HIDDEN ==> #[trigger] n.feature_bias_view()[i] == le_i16(
                    bytes@[2 * (768 * HIDDEN + i)],
                    bytes@[2 * (768 * HIDDEN + i) + 1],
                )
                &&& forall|i: int| 0 <= i < NUM_BUCKETS * 2 * HIDDEN ==> #[trigger] n.output_weights_view()[i] == le_i16(
                    bytes@[2 * (769 * HIDDEN + i)],
                    bytes@[2 * (769 * HIDDEN + i) + 1],
                )
                &&& forall|i: int| 0 <= i < NUM_BUCKETS ==> #[trigger] n.output_bias_view()[i] == le_i16(
                    bytes@[2 * (785 * HIDDEN + i)],
                    bytes@[2 * (785 * HIDDEN + i) + 1],
                )
            },
    {
        if bytes.len() != NETWORK_BYTES {
            return None;
        }
        let feature_weights = read_i16s(bytes, 0, 768 * HIDDEN);
        let feature_bias = read_i16s(bytes, 768 * HIDDEN, HIDDEN);
        let output_weights = read_i16s(bytes, 769 * HIDDEN, NUM_BUCKETS * 2 * HIDDEN);
        let output_bias = read_i16s(bytes, 785 * HIDDEN, NUM_BUCKETS);
        Some(Network { feature_weights, feature_bias, output_weights, output_bias })
    }

    /// The weight of feature `f` at hidden unit `j`.
    pub fn feature_weight(&self, f: usize, j: usize) -> (r: i16)
        requires
            self.wf(),
            f < 768,
            j < HIDDEN,
        ensures
            r == self.weight(f as int, j as int),
    {
        self.feature_weights[f * HIDDEN + j]
    }

    /// An accumulator holding the hidden-layer bias.
    pub fn bias_accumulator(&self) -> (r: Accumulator)
        requires
            self.wf(),
        ensures
            r.wf(),
            r.vals@ == self.feature_bias_view(),
    {
        Accumulator { vals: self.feature_bias.clone() }
    }

    /// Forward pass: SCReLU activation, output dequantization.
    ///
    /// Returns centipawn evaluation from the `us` perspective.
    /// `bucket` selects the output head corresponding to the current material count.
    pub fn evaluate(&self, us: &Accumulator, them: &Accumulator, bucket: usize) -> (r: i32)
        requires
            self.wf(),
            us.wf(),
            them.wf(),
            bucket < NUM_BUCKETS,
            self.forward_fits(us.vals@, them.vals@, bucket as int),
        ensures
            r == self.forward(us.vals@, them.vals@, bucket as int),
    {
        let mut output: i32 = 0;
        let base = bucket * 2 * HIDDEN;
        let mut i: usize = 0;
        while i < 2 * HIDDEN
            invariant
                self.wf(),
                us.wf(),
                them.wf(),
                bucket < NUM_BUCKETS,
                base == bucket * 2 * HIDDEN,
                i <= 2 * HIDDEN,
                self.forward_fits(us.vals@, them.vals@, bucket as int),
                output == self.out_sum(us.vals@, them.vals@, bucket as int, i as int),
            decreases 2 * HIDDEN - i,
        {
            let x = if i < HIDDEN { us.vals[i] } else { them.vals[i - HIDDEN] };
            let w = self.output_weights[base + i];
            let a = screlu_exec(x);
            let wi = w as i32;
            assert(-65025 * 32768 <= a * wi <= 65025 * 32767) by (nonlinear_arith)
                requires
                    0 <= a <= 65025,
                    -32768 <= wi <= 32767,
            ;
            let t = a * wi;
            assert(self.out_sum(us.vals@, them.vals@, bucket as int, i + 1) == output + t);
            assert(i32::MIN <= self.out_sum(us.vals@, them.vals@, bucket as int, i + 1) <= i32::MAX);
            output = output + t;
            i = i + 1;
        }

        // Dequantize: QA*QA*QB -> QA*QB
        let deq = div_toward_zero(output, QA);
        let biased = deq + self.output_bias[bucket] as i32;
        let scaled = biased * SCALE;
        // Final dequantization: remove QA*QB
        div_toward_zero(scaled, QA * QB)
    }
}

/// SCReLU activation: clamp to [0, QA] then square.
fn screlu_exec(x: i16) -> (r: i32)
    ensures
        r == screlu(x as int),
        0 <= r <= 65025,
{
    let y: i32 = if x < 0 { 0 } else if (x as i32) > QA { QA } else { x as i32 };
    assert(0 <= y * y <= 65025) by (nonlinear_arith)
        requires
            0 <= y <= 255,
    ;
    y * y
}

/// The `count` little-endian 16-bit values starting at value `start` of `bytes`.
fn read_i16s(bytes: &[u8], start: usize, count: usize) -> (r: Vec<i16>)
    requires
        2 * (start + count) <= bytes@.len(),
    ensures
        r@.len() == count,
        forall|i: int| 0 <= i < count ==> #[trigger] r@[i] == le_i16(bytes@[2 * (start + i)], bytes@[2 * (start + i) + 1]),
{
    let n = bytes.len();
    let mut v: Vec<i16> = Vec::new();
    let mut i: usize = 0;
    while i < count
        invariant
            n == bytes@.len(),
            2 * (start + count) <= bytes@.len(),
            i <= count,
            v@.len() == i,
            forall|k: int| 0 <= k < i ==> #[trigger] v@[k] == le_i16(bytes@[2 * (start + k)], bytes@[2 * (start + k) + 1]),
        decreases count - i,
    {
        let lo = bytes[2 * (start + i)];
        let hi = bytes[2 * (start + i) + 1];
        let word: u16 = (lo as u16) | ((hi as u16) << 8u16);
        assert(word == lo as int + 256 * hi as int) by (bit_vector)
            requires
                word == (lo as u16) | ((hi as u16) << 8u16),
        ;
        v.push(word as i16);
        i = i + 1;
    }
    v
}

} // verus!
