use stt::config::{
    is_quantized, Activation, Config, ExtraHeadsConfig, NormType, PositionalEmbedding, SttConfig,
};

fn config() -> Config {
    Config {
        mimi_name: "mimi.safetensors".to_string(),
        tokenizer_name: "tokenizer.model".to_string(),
        card: 2048,
        text_card: 8000,
        dim: 2048,
        n_q: 32,
        context: 750,
        max_period: 100_000,
        num_heads: 16,
        num_layers: 16,
        causal: true,
        stt_config: SttConfig {
            audio_silence_prefix: 0,
            audio_delay: 12_000,
            audio_delay_in_tokens: 6,
        },
    }
}

#[test]
fn the_model_follows_the_configuration() {
    let lm = config().model_config(false);
    assert_eq!(lm.transformer.d_model, 2048);
    assert_eq!(lm.transformer.dim_feedforward, 8192);
    assert_eq!(lm.transformer.num_heads, 16);
    assert_eq!(lm.transformer.num_layers, 16);
    assert_eq!(lm.transformer.context, 750);
    assert_eq!(lm.transformer.max_period, 100_000);
    assert_eq!(lm.transformer.max_seq_len, 4096 * 4);
    assert_eq!(lm.transformer.conv_kernel_size, 3);
    assert_eq!(lm.transformer.kv_repeat, 1);
    assert_eq!(lm.transformer.gating, Some(Activation::Silu));
    assert_eq!(lm.transformer.norm, NormType::RmsNorm);
    assert_eq!(lm.transformer.positional_embedding, PositionalEmbedding::Rope);
    assert!(lm.transformer.causal && lm.transformer.norm_first && lm.transformer.use_conv_bias);
    assert!(!lm.transformer.bias_ff && !lm.transformer.bias_attn && !lm.transformer.layer_scale);
    assert!(!lm.transformer.use_conv_block && !lm.transformer.conv_layout);
    assert!(!lm.transformer.cross_attention && !lm.transformer.shared_cross_attn);
    assert!(!lm.depformer && !lm.conditioners);
    assert_eq!(lm.audio_vocab_size, 2049);
    assert_eq!(lm.text_in_vocab_size, 8001);
    assert_eq!(lm.text_out_vocab_size, 8000);
    assert_eq!(lm.audio_codebooks, 32);
    assert_eq!(lm.extra_heads, None);
}

#[test]
fn voice_activity_adds_heads() {
    let lm = config().model_config(true);
    assert_eq!(lm.extra_heads, Some(ExtraHeadsConfig { num_heads: 4, dim: 6 }));
    assert_eq!(lm.transformer, config().model_config(false).transformer);
}

#[test]
fn sizes_that_overflow_are_told() {
    assert!(config().has_valid_sizes());
    assert!(!Config { dim: usize::MAX / 4 + 1, ..config() }.has_valid_sizes());
    assert!(Config { dim: usize::MAX / 4, ..config() }.has_valid_sizes());
    assert!(!Config { card: usize::MAX, ..config() }.has_valid_sizes());
    assert!(!Config { text_card: usize::MAX, ..config() }.has_valid_sizes());
}

#[test]
fn quantized_weights_are_told_by_name() {
    assert!(is_quantized("/models/stt-q8.gguf"));
    assert!(is_quantized(".gguf"));
    assert!(!is_quantized("/models/model.safetensors"));
    assert!(!is_quantized("/models/model.gguf.bak"));
    assert!(!is_quantized("gguf"));
    assert!(!is_quantized(""));
    assert!(is_quantized("/mod\u{e8}le.gguf"));
}
