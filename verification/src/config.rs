//! The configuration of the model.

use vstd::prelude::*;
use vstd::string::*;

verus! {

/// Lengths of silence around a recording and the delay of the model.
pub struct SttConfig {
    /// Samples of silence before a recording.
    pub audio_silence_prefix: usize,
    /// Samples by which the text lags behind the audio.
    pub audio_delay: usize,
    /// Tokens by which the text lags behind the audio.
    pub audio_delay_in_tokens: usize,
}

/// What a model says of itself.
pub struct Config {
    pub mimi_name: String,
    pub tokenizer_name: String,
    pub card: usize,
    pub text_card: usize,
    pub dim: usize,
    pub n_q: usize,
    pub context: usize,
    pub max_period: usize,
    pub num_heads: usize,
    pub num_layers: usize,
    pub causal: bool,
    pub stt_config: SttConfig,
}

/// How a position enters a transformer.
#[derive(Clone, Copy, Debug, PartialEq, Eq, Structural)]
pub enum PositionalEmbedding {
    Rope,
    Sin,
    Absent,
}

/// How a transformer normalises.
#[derive(Clone, Copy, Debug, PartialEq, Eq, Structural)]
pub enum NormType {
    RmsNorm,
    LayerNorm,
}

/// The activation in the feed-forward part of a transformer.
#[derive(Clone, Copy, Debug, PartialEq, Eq, Structural)]
pub enum Activation {
    Silu,
}

/// The shape of a transformer.
#[derive(Clone, Copy, Debug, PartialEq, Eq, Structural)]
pub struct TransformerConfig {
    pub d_model: usize,
    pub num_heads: usize,
    pub num_layers: usize,
    pub dim_feedforward: usize,
    pub causal: bool,
    pub norm_first: bool,
    pub bias_ff: bool,
    pub bias_attn: bool,
    /// Whether the layers are scaled.
    pub layer_scale: bool,
    pub context: usize,
    pub max_period: usize,
    pub use_conv_block: bool,
    pub use_conv_bias: bool,
    /// Whether there is attention to another input.
    pub cross_attention: bool,
    pub gating: Option<Activation>,
    pub norm: NormType,
    pub positional_embedding: PositionalEmbedding,
    pub conv_layout: bool,
    pub conv_kernel_size: usize,
    pub kv_repeat: usize,
    pub max_seq_len: usize,
    pub shared_cross_attn: bool,
}

/// Heads beside the one that gives the text.
#[derive(Clone, Copy, Debug, PartialEq, Eq, Structural)]
pub struct ExtraHeadsConfig {
    pub num_heads: usize,
    pub dim: usize,
}

/// The shape of a language model.
#[derive(Clone, Copy, Debug, PartialEq, Eq, Structural)]
pub struct LmConfig {
    pub transformer: TransformerConfig,
    /// Whether there is a second transformer over the codebooks.
    pub depformer: bool,
    pub audio_vocab_size: usize,
    pub text_in_vocab_size: usize,
    pub text_out_vocab_size: usize,
    pub audio_codebooks: usize,
    /// Whether the model is conditioned on anything.
    pub conditioners: bool,
    pub extra_heads: Option<ExtraHeadsConfig>,
}

/// Positions that the transformer is made for.
pub const MAX_SEQ_LEN: usize = 16_384;

/// Heads that score voice activity.
pub const EXTRA_HEADS: usize = 4;

/// Values that each head gives.
pub const EXTRA_HEAD_DIM: usize = 6;

impl Config {
    /// Whether every size that follows from the configuration fits in a `usize`.
    pub open spec fn sizes_fit(self) -> bool {
        &&& self.dim * 4 <= usize::MAX
        &&& self.card < usize::MAX
        &&& self.text_card < usize::MAX
    }

    /// The language model that the configuration asks for.
    pub open spec fn lm(self, vad: bool) -> LmConfig {
        LmConfig {
            transformer: TransformerConfig {
                d_model: self.dim,
                num_heads: self.num_heads,
                num_layers: self.num_layers,
                dim_feedforward: (self.dim * 4) as usize,
                causal: self.causal,
                norm_first: true,
                bias_ff: false,
                bias_attn: false,
                layer_scale: false,
                context: self.context,
                max_period: self.max_period,
                use_conv_block: false,
                use_conv_bias: true,
                cross_attention: false,
                gating: Some(Activation::Silu),
                norm: NormType::RmsNorm,
                positional_embedding: PositionalEmbedding::Rope,
                conv_layout: false,
                conv_kernel_size: 3,
                kv_repeat: 1,
                max_seq_len: MAX_SEQ_LEN,
                shared_cross_attn: false,
            },
            depformer: false,
            audio_vocab_size: (self.card + 1) as usize,
            text_in_vocab_size: (self.text_card + 1) as usize,
            text_out_vocab_size: self.text_card,
            audio_codebooks: self.n_q,
            conditioners: false,
            extra_heads: if vad {
                Some(ExtraHeadsConfig { num_heads: EXTRA_HEADS, dim: EXTRA_HEAD_DIM })
            } else {
                None
            },
        }
    }

    /// Whether every size that follows from the configuration fits in a `usize`.
    pub fn has_valid_sizes(&self) -> (r: bool)
        ensures
            r == self.sizes_fit(),
    {
        self.dim <= usize::MAX / 4 && self.card < usize::MAX && self.text_card < usize::MAX
    }

    /// The language model that the configuration asks for, with heads for voice activity where
    /// `vad` is set.
    pub fn model_config(&self, vad: bool) -> (lm: LmConfig)
        requires
            self.sizes_fit(),
        ensures
            lm == self.lm(vad),
    {
        let transformer = TransformerConfig {
            d_model: self.dim,
            num_heads: self.num_heads,
            num_layers: self.num_layers,
            dim_feedforward: self.dim * 4,
            causal: self.causal,
            norm_first: true,
            bias_ff: false,
            bias_attn: false,
            layer_scale: false,
            context: self.context,
            max_period: self.max_period,
            use_conv_block: false,
            use_conv_bias: true,
            cross_attention: false,
            gating: Some(Activation::Silu),
            norm: NormType::RmsNorm,
            positional_embedding: PositionalEmbedding::Rope,
            conv_layout: false,
            conv_kernel_size: 3,
            kv_repeat: 1,
            max_seq_len: MAX_SEQ_LEN,
            shared_cross_attn: false,
        };
        let extra_heads = if vad {
            Some(ExtraHeadsConfig { num_heads: EXTRA_HEADS, dim: EXTRA_HEAD_DIM })
        } else {
            None
        };
        LmConfig {
            transformer,
            depformer: false,
            audio_vocab_size: self.card + 1,
            text_in_vocab_size: self.text_card + 1,
            text_out_vocab_size: self.text_card,
            audio_codebooks: self.n_q,
            conditioners: false,
            extra_heads,
        }
    }
}

/// A model that is asked for voice activity has the head that the end of a turn is told from, and
/// every other model has no such heads.
pub proof fn law_vad_head_exists(config: Config, vad: bool)
    ensures
        vad <==> config.lm(vad).extra_heads is Some,
        vad ==> config.lm(vad).extra_heads->0.num_heads > crate::scores::VAD_HEAD,
{
}

/// The model reads one kind of token more than it writes, for audio and text alike: the one that
/// stands for what has not come yet.
pub proof fn law_vocabularies_have_padding(config: Config, vad: bool)
    requires
        config.sizes_fit(),
    ensures
        config.lm(vad).audio_vocab_size == config.card + 1,
        config.lm(vad).text_in_vocab_size == config.lm(vad).text_out_vocab_size + 1,
        config.lm(vad).transformer.dim_feedforward == 4 * config.lm(vad).transformer.d_model,
{
}

/// Whether `s` ends in `suffix`.
pub open spec fn ends_in(s: Seq<char>, suffix: Seq<char>) -> bool {
    s.len() >= suffix.len() && s.skip(s.len() - suffix.len()) == suffix
}

/// Whether the file at `model_path` holds quantized weights, as its name tells.
pub fn is_quantized(model_path: &str) -> (r: bool)
    ensures
        r == ends_in(model_path@, ".gguf"@),
{
    let suffix = ".gguf";
    let len = model_path.unicode_len();
    let suffix_len = suffix.unicode_len();
    if len < suffix_len {
        return false;
    }
    let start = len - suffix_len;
    let ghost tail = model_path@.skip(start as int);
    let mut i: usize = 0;
    while i < suffix_len
        invariant
            i <= suffix_len,
            suffix@ == ".gguf"@,
            suffix_len == suffix@.len(),
            start + suffix_len == model_path@.len(),
            start + suffix_len <= usize::MAX,
            tail == model_path@.skip(start as int),
            forall|k: int| 0 <= k < i ==> tail[k] == suffix@[k],
        decreases suffix_len - i,
    {
        if model_path.get_char(start + i) != suffix.get_char(i) {
            assert(tail[i as int] != suffix@[i as int]);
            return false;
        }
        i = i + 1;
    }
    assert(tail =~= suffix@);
    true
}

/// Every number of a configuration stands in the model at its own place: the width, the heads, the
/// layers, the context, the period and the codebooks as they are, and each vocabulary that the model
/// reads with one token more.
pub proof fn law_model_has_numbers_of_configuration(config: Config, vad: bool, lm: LmConfig)
    requires
        call_ensures(Config::model_config, (&config, vad), lm),
        config.dim * 4 <= usize::MAX,
        config.card < usize::MAX,
        config.text_card < usize::MAX,
    ensures
        lm.transformer.d_model == config.dim,
        lm.transformer.num_heads == config.num_heads,
        lm.transformer.num_layers == config.num_layers,
        lm.transformer.dim_feedforward == 4 * config.dim,
        lm.transformer.causal == config.causal,
        lm.transformer.context == config.context,
        lm.transformer.max_period == config.max_period,
        lm.audio_vocab_size == config.card + 1,
        lm.text_in_vocab_size == config.text_card + 1,
        lm.text_out_vocab_size == config.text_card,
        lm.audio_codebooks == config.n_q,
{
}

/// What a configuration leaves open is the same in all models: two models of any two configurations
/// differ only in the numbers of the configurations and in the heads for voice activity. Those are
/// four, of six values each, exactly where voice activity is asked for.
pub proof fn law_models_differ_only_in_numbers(
    a: Config,
    a_vad: bool,
    a_lm: LmConfig,
    b: Config,
    b_vad: bool,
    b_lm: LmConfig,
)
    requires
        call_ensures(Config::model_config, (&a, a_vad), a_lm),
        call_ensures(Config::model_config, (&b, b_vad), b_lm),
    ensures
        a_lm == (LmConfig {
            transformer: TransformerConfig {
                d_model: a_lm.transformer.d_model,
                num_heads: a_lm.transformer.num_heads,
                num_layers: a_lm.transformer.num_layers,
                dim_feedforward: a_lm.transformer.dim_feedforward,
                causal: a_lm.transformer.causal,
                context: a_lm.transformer.context,
                max_period: a_lm.transformer.max_period,
                ..b_lm.transformer
            },
            audio_vocab_size: a_lm.audio_vocab_size,
            text_in_vocab_size: a_lm.text_in_vocab_size,
            text_out_vocab_size: a_lm.text_out_vocab_size,
            audio_codebooks: a_lm.audio_codebooks,
            extra_heads: a_lm.extra_heads,
            ..b_lm
        }),
        match a_lm.extra_heads {
            Some(heads) => a_vad && heads.num_heads == 4 && heads.dim == 6,
            None => !a_vad,
        },
{
}

/// The model is a decoder with normalisation by the root mean square before each part, rotary
/// positions, a gated feed-forward part, no biases, room for four times 4096 positions, and nothing
/// beside: no second transformer, no attention to another input, no conditioners.
pub proof fn law_model_is_a_plain_decoder(config: Config, vad: bool, lm: LmConfig)
    requires
        call_ensures(Config::model_config, (&config, vad), lm),
    ensures
        lm.transformer.norm_first,
        lm.transformer.norm is RmsNorm,
        lm.transformer.positional_embedding is Rope,
        lm.transformer.gating is Some,
        !lm.transformer.bias_ff && !lm.transformer.bias_attn,
        !lm.transformer.layer_scale,
        !lm.transformer.use_conv_block && lm.transformer.use_conv_bias,
        !lm.transformer.conv_layout && lm.transformer.conv_kernel_size == 3,
        lm.transformer.kv_repeat == 1,
        lm.transformer.max_seq_len == 4 * 4096,
        !lm.transformer.cross_attention && !lm.transformer.shared_cross_attn,
        !lm.depformer && !lm.conditioners,
{
}

/// Sizes are valid exactly where four times the width and each vocabulary with one token more can be
/// held.
pub proof fn law_valid_sizes_can_be_held(config: Config, valid: bool)
    requires
        call_ensures(Config::has_valid_sizes, (&config,), valid),
    ensures
        valid <==> 4 * config.dim <= usize::MAX && config.card + 1 <= usize::MAX
            && config.text_card + 1 <= usize::MAX,
{
}

/// Weights are quantized exactly where the last five characters of the path are those of the
/// extension.
pub proof fn law_extension_tells_quantized(model_path: &str, quantized: bool)
    requires
        call_ensures(is_quantized, (model_path,), quantized),
    ensures
        quantized <==> ({
            let n = model_path@.len();
            &&& n >= 5
            &&& model_path@[n - 5] == '.'
            &&& model_path@[n - 4] == 'g'
            &&& model_path@[n - 3] == 'g'
            &&& model_path@[n - 2] == 'u'
            &&& model_path@[n - 1] == 'f'
        }),
{
    reveal_strlit(".gguf");
    let n = model_path@.len();
    if n >= 5 {
        let tail = model_path@.skip(n - 5);
        if model_path@[n - 5] == '.' && model_path@[n - 4] == 'g' && model_path@[n - 3] == 'g'
            && model_path@[n - 2] == 'u' && model_path@[n - 1] == 'f' {
            assert(tail =~= ".gguf"@);
        } else {
            assert(tail[0] == model_path@[n - 5] && tail[1] == model_path@[n - 4] && tail[2]
                == model_path@[n - 3] && tail[3] == model_path@[n - 2] && tail[4]
                == model_path@[n - 1]);
        }
    }
}

} // verus!
