use vstd::prelude::*;

use crate::garment::text::str_chars;
use crate::math::{finite_bits, finite_bits_32, is_finite_bits, is_finite_bits_32, is_negative_bits,
    is_negative_bits_32, negative_bits, negative_bits_32};

verus! {

/// The built-in mannequin's animation clips.
#[derive(Clone, Copy, Debug, PartialEq, Eq, Structural)]
pub enum MannequinAnimation {
    Rest,
    Walk,
    Wave,
}

/// Why a mannequin animation control was refused.
#[derive(Clone, Copy, Debug, PartialEq, Eq, Structural)]
pub enum MannequinAnimationError {
    InvalidSpeed,
    InvalidDeltaSeconds,
}

/// The stable lower-case key of an animation.
pub open spec fn animation_key(animation: MannequinAnimation) -> Seq<char> {
    match animation {
        MannequinAnimation::Rest => seq!['r', 'e', 's', 't'],
        MannequinAnimation::Walk => seq!['w', 'a', 'l', 'k'],
        MannequinAnimation::Wave => seq!['w', 'a', 'v', 'e'],
    }
}

/// The human-readable name of an animation.
pub open spec fn animation_display_name(animation: MannequinAnimation) -> Seq<char> {
    match animation {
        MannequinAnimation::Rest => seq!['R', 'e', 's', 't'],
        MannequinAnimation::Walk => seq!['W', 'a', 'l', 'k'],
        MannequinAnimation::Wave => seq!['W', 'a', 'v', 'e'],
    }
}

/// The animation whose key is exactly `text`, if any.
pub open spec fn animation_from_key(text: Seq<char>) -> Option<MannequinAnimation> {
    if text == animation_key(MannequinAnimation::Rest) {
        Some(MannequinAnimation::Rest)
    } else if text == animation_key(MannequinAnimation::Walk) {
        Some(MannequinAnimation::Walk)
    } else if text == animation_key(MannequinAnimation::Wave) {
        Some(MannequinAnimation::Wave)
    } else {
        None
    }
}

impl MannequinAnimation {
    /// Every animation, in menu order.
    pub const ALL: [MannequinAnimation; 3] = [
        MannequinAnimation::Rest,
        MannequinAnimation::Walk,
        MannequinAnimation::Wave,
    ];

    /// The stable key used to select this animation.
    pub fn key(self) -> (key: &'static str)
        ensures
            key@ == animation_key(self),
    {
        match self {
            MannequinAnimation::Rest => {
                proof {
                    reveal_strlit("rest");
                }
                assert("rest"@ =~= animation_key(self));
                "rest"
            },
            MannequinAnimation::Walk => {
                proof {
                    reveal_strlit("walk");
                }
                assert("walk"@ =~= animation_key(self));
                "walk"
            },
            MannequinAnimation::Wave => {
                proof {
                    reveal_strlit("wave");
                }
                assert("wave"@ =~= animation_key(self));
                "wave"
            },
        }
    }

    /// The name shown to people.
    pub fn display_name(self) -> (name: &'static str)
        ensures
            name@ == animation_display_name(self),
    {
        match self {
            MannequinAnimation::Rest => {
                proof {
                    reveal_strlit("Rest");
                }
                assert("Rest"@ =~= animation_display_name(self));
                "Rest"
            },
            MannequinAnimation::Walk => {
                proof {
                    reveal_strlit("Walk");
                }
                assert("Walk"@ =~= animation_display_name(self));
                "Walk"
            },
            MannequinAnimation::Wave => {
                proof {
                    reveal_strlit("Wave");
                }
                assert("Wave"@ =~= animation_display_name(self));
                "Wave"
            },
        }
    }

    /// The animation whose key is exactly `value`; `None` for any other text.
    pub fn from_key(value: &str) -> (animation: Option<MannequinAnimation>)
        ensures
            animation == animation_from_key(value@),
    {
        let chars = str_chars(value);
        if chars.len() != 4 {
            return None;
        }
        let (a, b, c, d) = (chars[0], chars[1], chars[2], chars[3]);
        let found = if a == 'r' && b == 'e' && c == 's' && d == 't' {
            Some(MannequinAnimation::Rest)
        } else if a == 'w' && b == 'a' && c == 'l' && d == 'k' {
            Some(MannequinAnimation::Walk)
        } else if a == 'w' && b == 'a' && c == 'v' && d == 'e' {
            Some(MannequinAnimation::Wave)
        } else {
            None
        };
        proof {
            assert(chars@ =~= seq![a, b, c, d]);
        }
        found
    }
}

/// Checks an animation playback speed (a binary32 pattern): it must be finite and not below zero.
pub fn validate_animation_speed(speed: u32) -> (result: Result<(), MannequinAnimationError>)
    ensures
        result is Ok <==> (is_finite_bits_32(speed) && !is_negative_bits_32(speed)),
        result matches Err(e) ==> e == MannequinAnimationError::InvalidSpeed,
{
    if !finite_bits_32(speed) || negative_bits_32(speed) {
        return Err(MannequinAnimationError::InvalidSpeed);
    }
    Ok(())
}

/// Checks the time step an animation advances by (a binary64 pattern): it must be finite and not
/// below zero.
pub fn validate_animation_step(delta_seconds: u64) -> (result: Result<(), MannequinAnimationError>)
    ensures
        result is Ok <==> (is_finite_bits(delta_seconds) && !is_negative_bits(delta_seconds)),
        result matches Err(e) ==> e == MannequinAnimationError::InvalidDeltaSeconds,
{
    if !finite_bits(delta_seconds) || negative_bits(delta_seconds) {
        return Err(MannequinAnimationError::InvalidDeltaSeconds);
    }
    Ok(())
}

/// A playback speed is accepted exactly when it is a finite binary32 value that is not below
/// zero: every pattern with the sign bit clear below the infinity pattern (`+0.0` up to the
/// largest finite value) and `-0.0`. Every other pattern with the sign bit set (a negative number,
/// `-inf` or a NaN), `+inf` and every NaN with the sign bit clear are refused.
pub proof fn lemma_speed_validation_accepts_finite_non_negative(speed: u32)
    ensures
        (is_finite_bits_32(speed) && !is_negative_bits_32(speed)) <==> (speed < 0x7f80_0000
            || speed == 0x8000_0000),
{
}

/// A time step is accepted exactly when it is a finite binary64 value that is not below zero:
/// every pattern with the sign bit clear below the infinity pattern, and `-0.0`; every other
/// pattern is refused.
pub proof fn lemma_step_validation_accepts_finite_non_negative(delta_seconds: u64)
    ensures
        (is_finite_bits(delta_seconds) && !is_negative_bits(delta_seconds)) <==> (delta_seconds
            < 0x7ff0_0000_0000_0000 || delta_seconds == 0x8000_0000_0000_0000),
{
}

/// Selecting an animation by its own key gives that animation back.
pub proof fn lemma_from_key_of_key(animation: MannequinAnimation)
    ensures
        animation_from_key(animation_key(animation)) == Some(animation),
{
    assert(animation_key(MannequinAnimation::Walk)[2] != animation_key(MannequinAnimation::Wave)[2]);
    assert(animation_key(MannequinAnimation::Rest)[0] != animation_key(MannequinAnimation::Walk)[0]);
}

/// A key selects at most one animation: the one whose key it is.
pub proof fn lemma_from_key_only_keys(text: Seq<char>, animation: MannequinAnimation)
    ensures
        animation_from_key(text) == Some(animation) <==> text == animation_key(animation),
{
    lemma_from_key_of_key(animation);
}

} // verus!
