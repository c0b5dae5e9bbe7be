//! Effect presets and their wire encoding.
//!
//! A preset names a fixed bundle of effect-chain parameters. It is encoded
//! as a small integer so that a control thread can publish it through an
//! atomic cell and the audio thread can read it back without locking.

use vstd::prelude::*;
use vstd::string::StrSliceExecFns;
use vstd::string::StringSliceAdditionalSpecFns;

verus! {

/// A named bundle of effect-chain parameters. `Clean` is the identity
/// preset: the chain applies no processing at all under it.
#[derive(Clone, Copy, Debug, PartialEq, Eq, Structural)]
pub enum AudioFxPreset {
    Clean,
    Cassette,
    Bass,
    Radio,
}

/// Parsing of a preset name, stated over the name's UTF-8 bytes.
pub open spec fn spec_parse_preset(s: Seq<u8>) -> Option<AudioFxPreset> {
    if s == "clean".spec_bytes() {
        Some(AudioFxPreset::Clean)
    } else if s == "cassette".spec_bytes() {
        Some(AudioFxPreset::Cassette)
    } else if s == "bass".spec_bytes() {
        Some(AudioFxPreset::Bass)
    } else if s == "radio".spec_bytes() {
        Some(AudioFxPreset::Radio)
    } else {
        None
    }
}

/// The integer a preset is encoded as for the shared atomic cell.
pub open spec fn spec_preset_code(p: AudioFxPreset) -> u8 {
    match p {
        AudioFxPreset::Clean => 0,
        AudioFxPreset::Cassette => 1,
        AudioFxPreset::Bass => 2,
        AudioFxPreset::Radio => 3,
    }
}

/// Decoding of an atomic cell value; unknown codes fall back to `Clean`.
pub open spec fn spec_preset_of_code(v: u8) -> AudioFxPreset {
    if v == 1 {
        AudioFxPreset::Cassette
    } else if v == 2 {
        AudioFxPreset::Bass
    } else if v == 3 {
        AudioFxPreset::Radio
    } else {
        AudioFxPreset::Clean
    }
}

/// Byte-wise equality of two strings.
fn str_bytes_eq(a: &str, b: &str) -> (r: bool)
    ensures
        r == (a.spec_bytes() == b.spec_bytes()),
{
    let av = a.as_bytes_vec();
    let bv = b.as_bytes_vec();
    if av.len() != bv.len() {
        return false;
    }
    let mut i: usize = 0;
    while i < av.len()
        invariant
            i <= av@.len(),
            av@ == a.spec_bytes(),
            bv@ == b.spec_bytes(),
            av@.len() == bv@.len(),
            forall|j: int| 0 <= j < i ==> av@[j] == bv@[j],
        decreases av@.len() - i,
    {
        if av[i] != bv[i] {
            return false;
        }
        i = i + 1;
    }
    proof {
        assert(a.spec_bytes() =~= b.spec_bytes());
    }
    true
}

impl AudioFxPreset {
    /// Parses the user-facing preset name; every other string is rejected.
    pub fn from_str(value: &str) -> (r: Option<AudioFxPreset>)
        ensures
            r == spec_parse_preset(value.spec_bytes()),
    {
        if str_bytes_eq(value, "clean") {
            Some(AudioFxPreset::Clean)
        } else if str_bytes_eq(value, "cassette") {
            Some(AudioFxPreset::Cassette)
        } else if str_bytes_eq(value, "bass") {
            Some(AudioFxPreset::Bass)
        } else if str_bytes_eq(value, "radio") {
            Some(AudioFxPreset::Radio)
        } else {
            None
        }
    }

    /// Encodes the preset for the shared atomic cell.
    pub fn as_u8(self) -> (r: u8)
        ensures
            r == spec_preset_code(self),
    {
        match self {
            AudioFxPreset::Clean => 0,
            AudioFxPreset::Cassette => 1,
            AudioFxPreset::Bass => 2,
            AudioFxPreset::Radio => 3,
        }
    }

    /// Decodes an atomic cell value; unknown codes fall back to `Clean`.
    pub fn from_u8(value: u8) -> (r: AudioFxPreset)
        ensures
            r == spec_preset_of_code(value),
    {
        match value {
            1 => AudioFxPreset::Cassette,
            2 => AudioFxPreset::Bass,
            3 => AudioFxPreset::Radio,
            _ => AudioFxPreset::Clean,
        }
    }
}

/// Decoding inverts encoding: a preset survives the trip through the
/// atomic cell unchanged.
pub proof fn lemma_preset_code_round_trip(p: AudioFxPreset)
    ensures
        spec_preset_of_code(spec_preset_code(p)) == p,
{
}

/// Encoding inverts decoding on every value the encoder can produce.
pub proof fn lemma_preset_decode_round_trip(v: u8)
    requires
        v <= 3,
    ensures
        spec_preset_code(spec_preset_of_code(v)) == v,
{
}

} // verus!
