//! Settings a cell's model instance is started with.

use vstd::prelude::*;

use crate::ids::{ObjectId, Uuid};

verus! {

/// Overrides for one model instance. A field left out falls back to the
/// server's default. Floating-point settings are held as their bits.
#[derive(Clone, Copy, Debug, PartialEq, Eq, Structural)]
pub struct QuarkModelConfig {
    pub top_k: Option<usize>,
    pub temperature_bits: Option<u64>,
    pub top_p_bits: Option<u64>,
    pub repeat_penalty_bits: Option<u32>,
    pub presence_penalty_bits: Option<u32>,
    pub inference_limit: Option<u32>,
    pub training_lr_bits: Option<u64>,
    pub training_epsilon_bits: Option<u64>,
    pub frozen: Option<bool>,
    pub oscillation_steps: Option<u32>,
    pub oscillation_offset: Option<u32>,
    pub checkpoint_id: Option<ObjectId>,
}

impl QuarkModelConfig {
    /// The configuration that overrides nothing.
    pub open spec fn bare() -> QuarkModelConfig {
        QuarkModelConfig {
            top_k: None,
            temperature_bits: None,
            top_p_bits: None,
            repeat_penalty_bits: None,
            presence_penalty_bits: None,
            inference_limit: None,
            training_lr_bits: None,
            training_epsilon_bits: None,
            frozen: None,
            oscillation_steps: None,
            oscillation_offset: None,
            checkpoint_id: None,
        }
    }
}

/// Compile-time settings of a model instance. What an implementor leaves
/// `None` falls back to the server's default.
pub trait ModelConfig {
    const TOP_K: Option<usize> = None;

    const TEMPERATURE_BITS: Option<u64> = None;

    const TOP_P_BITS: Option<u64> = None;

    const REPEAT_PENALTY_BITS: Option<u32> = None;

    const PRESENCE_PENALTY_BITS: Option<u32> = None;

    const INFERENCE_LIMIT: Option<u32> = None;

    const TRAINING_LR_BITS: Option<u64> = None;

    const TRAINING_EPSILON_BITS: Option<u64> = None;

    const FROZEN: Option<bool> = None;

    const OSCILLATION_STEPS: Option<u32> = None;

    const OSCILLATION_OFFSET: Option<u32> = None;

    const CHECKPOINT: Option<u128> = None;

    /// The settings as overrides, or nothing where none is overridden.
    fn quark_model_config() -> (config: Option<QuarkModelConfig>)
        ensures
            config == overrides_of(
                QuarkModelConfig {
                    top_k: Self::TOP_K,
                    temperature_bits: Self::TEMPERATURE_BITS,
                    top_p_bits: Self::TOP_P_BITS,
                    repeat_penalty_bits: Self::REPEAT_PENALTY_BITS,
                    presence_penalty_bits: Self::PRESENCE_PENALTY_BITS,
                    inference_limit: Self::INFERENCE_LIMIT,
                    training_lr_bits: Self::TRAINING_LR_BITS,
                    training_epsilon_bits: Self::TRAINING_EPSILON_BITS,
                    frozen: Self::FROZEN,
                    oscillation_steps: Self::OSCILLATION_STEPS,
                    oscillation_offset: Self::OSCILLATION_OFFSET,
                    checkpoint_id: checkpoint_of(Self::CHECKPOINT),
                },
            ),
    {
        let checkpoint_id = match Self::CHECKPOINT {
            Some(bits) => Some(Uuid::from_u128(bits)),
            None => None,
        };
        only_overrides(
            QuarkModelConfig {
                top_k: Self::TOP_K,
                temperature_bits: Self::TEMPERATURE_BITS,
                top_p_bits: Self::TOP_P_BITS,
                repeat_penalty_bits: Self::REPEAT_PENALTY_BITS,
                presence_penalty_bits: Self::PRESENCE_PENALTY_BITS,
                inference_limit: Self::INFERENCE_LIMIT,
                training_lr_bits: Self::TRAINING_LR_BITS,
                training_epsilon_bits: Self::TRAINING_EPSILON_BITS,
                frozen: Self::FROZEN,
                oscillation_steps: Self::OSCILLATION_STEPS,
                oscillation_offset: Self::OSCILLATION_OFFSET,
                checkpoint_id,
            },
        )
    }
}

/// The checkpoint with the given bits.
pub open spec fn checkpoint_of(bits: Option<u128>) -> Option<ObjectId> {
    match bits {
        Some(bits) => Some(Uuid { bits }),
        None => None,
    }
}

/// `config`, unless it overrides nothing.
pub open spec fn overrides_of(config: QuarkModelConfig) -> Option<QuarkModelConfig> {
    if config == QuarkModelConfig::bare() {
        None
    } else {
        Some(config)
    }
}

/// Hands a configuration on unless it overrides nothing.
pub fn only_overrides(config: QuarkModelConfig) -> (kept: Option<QuarkModelConfig>)
    ensures
        kept == overrides_of(config),
{
    let has_any_override = config.top_k.is_some() || config.temperature_bits.is_some()
        || config.top_p_bits.is_some() || config.repeat_penalty_bits.is_some()
        || config.presence_penalty_bits.is_some() || config.inference_limit.is_some()
        || config.training_lr_bits.is_some() || config.training_epsilon_bits.is_some()
        || config.frozen.is_some() || config.oscillation_steps.is_some()
        || config.oscillation_offset.is_some() || config.checkpoint_id.is_some();
    if has_any_override {
        Some(config)
    } else {
        None
    }
}

/// Settings that leave everything to the server.
pub struct DefaultConfig;

impl ModelConfig for DefaultConfig {

}

/// A configuration is handed on whole if it sets anything, and not at all if it
/// sets nothing.
pub proof fn law_only_overrides_are_handed_on(
    config: QuarkModelConfig,
    kept: Option<QuarkModelConfig>,
)
    requires
        call_ensures(only_overrides, (config,), kept),
    ensures
        kept is None <==> config.top_k is None && config.temperature_bits is None
            && config.top_p_bits is None && config.repeat_penalty_bits is None
            && config.presence_penalty_bits is None && config.inference_limit is None
            && config.training_lr_bits is None && config.training_epsilon_bits is None
            && config.frozen is None && config.oscillation_steps is None
            && config.oscillation_offset is None && config.checkpoint_id is None,
        kept matches Some(same) ==> same == config,
{
}

} // verus!
