use vstd::prelude::*;

verus! {

/// Named qualitative cloth presets used for deterministic comparison fixtures.
///
/// These are stable, human-readable starting points over the raw solver and contact parameters,
/// not calibrated measurements of real fabrics.
#[derive(Clone, Copy, Debug, PartialEq, Eq, Structural, Hash, PartialOrd, Ord)]
pub enum TextilePreset {
    CottonLike,
    DenimLike,
    SilkLike,
    LeatherLike,
}

/// The stable name of a preset.
pub open spec fn preset_name(preset: TextilePreset) -> Seq<char> {
    match preset {
        TextilePreset::CottonLike => seq!['c', 'o', 't', 't', 'o', 'n', '-', 'l', 'i', 'k', 'e'],
        TextilePreset::DenimLike => seq!['d', 'e', 'n', 'i', 'm', '-', 'l', 'i', 'k', 'e'],
        TextilePreset::SilkLike => seq!['s', 'i', 'l', 'k', '-', 'l', 'i', 'k', 'e'],
        TextilePreset::LeatherLike => seq![
            'l',
            'e',
            'a',
            't',
            'h',
            'e',
            'r',
            '-',
            'l',
            'i',
            'k',
            'e',
        ],
    }
}

impl TextilePreset {
    /// Every preset, in catalogue order.
    pub const ALL: [TextilePreset; 4] = [
        TextilePreset::CottonLike,
        TextilePreset::DenimLike,
        TextilePreset::SilkLike,
        TextilePreset::LeatherLike,
    ];

    /// The preset's stable name.
    pub fn name(self) -> (name: &'static str)
        ensures
            name@ == preset_name(self),
    {
        match self {
            TextilePreset::CottonLike => {
                proof {
                    reveal_strlit("cotton-like");
                }
                assert("cotton-like"@ =~= preset_name(self));
                "cotton-like"
            },
            TextilePreset::DenimLike => {
                proof {
                    reveal_strlit("denim-like");
                }
                assert("denim-like"@ =~= preset_name(self));
                "denim-like"
            },
            TextilePreset::SilkLike => {
                proof {
                    reveal_strlit("silk-like");
                }
                assert("silk-like"@ =~= preset_name(self));
                "silk-like"
            },
            TextilePreset::LeatherLike => {
                proof {
                    reveal_strlit("leather-like");
                }
                assert("leather-like"@ =~= preset_name(self));
                "leather-like"
            },
        }
    }
}

/// Distinct presets have distinct names, so a name identifies its preset.
pub proof fn lemma_preset_names_distinct(first: TextilePreset, second: TextilePreset)
    requires
        first != second,
    ensures
        preset_name(first) != preset_name(second),
{
    if preset_name(first).len() == preset_name(second).len() {
        assert(preset_name(first)[0] != preset_name(second)[0]);
    }
}

} // verus!
