use crate::text::{chars_of, lemma_trimmed_idempotent, seq_eq, starts_with, trim, trimmed};
use vstd::prelude::*;

verus! {

/// The kind of Apple receiver, as told by its advertised model identifier.
#[derive(Debug, Clone, Copy, PartialEq, Eq, Structural)]
pub enum DeviceKind {
    HomePodMini,
    HomePod1,
    HomePod2,
    HomePodOther,
    AppleTv2,
    AppleTv3,
    AppleTvHd4,
    AppleTv4K1,
    AppleTv4K2,
    AppleTv4K3,
    AppleTvOther,
    AirPlaySpeaker,
}

/// The kind of receiver that advertises `model`: known identifiers map to
/// their product, other `AudioAccessory…` models are HomePods, other
/// `AppleTV…` models are Apple TVs, and everything else is a speaker.
/// Surrounding whitespace is ignored.
pub open spec fn kind_of_model(model: Seq<char>) -> DeviceKind {
    let m = trimmed(model);
    if m == "AudioAccessory5,1"@ || m == "AudioAccessorySingle5,1"@ {
        DeviceKind::HomePodMini
    } else if m == "AudioAccessory1,1"@ || m == "AudioAccessory1,2"@ {
        DeviceKind::HomePod1
    } else if m == "AudioAccessory6,1"@ {
        DeviceKind::HomePod2
    } else if m == "AppleTV2,1"@ {
        DeviceKind::AppleTv2
    } else if m == "AppleTV3,1"@ || m == "AppleTV3,2"@ {
        DeviceKind::AppleTv3
    } else if m == "AppleTV5,3"@ {
        DeviceKind::AppleTvHd4
    } else if m == "AppleTV6,2"@ {
        DeviceKind::AppleTv4K1
    } else if m == "AppleTV11,1"@ {
        DeviceKind::AppleTv4K2
    } else if m == "AppleTV14,1"@ {
        DeviceKind::AppleTv4K3
    } else if "AudioAccessory"@.is_prefix_of(m) {
        DeviceKind::HomePodOther
    } else if "AppleTV"@.is_prefix_of(m) {
        DeviceKind::AppleTvOther
    } else {
        DeviceKind::AirPlaySpeaker
    }
}

pub open spec fn kind_is_homepod(k: DeviceKind) -> bool {
    k is HomePodMini || k is HomePod1 || k is HomePod2 || k is HomePodOther
}

pub open spec fn kind_is_apple_tv(k: DeviceKind) -> bool {
    k is AppleTv2 || k is AppleTv3 || k is AppleTvHd4 || k is AppleTv4K1 || k is AppleTv4K2
        || k is AppleTv4K3 || k is AppleTvOther
}

pub open spec fn kind_friendly_name(k: DeviceKind) -> Seq<char> {
    match k {
        DeviceKind::HomePodMini => "HomePod mini"@,
        DeviceKind::HomePod1 => "HomePod (1st generation)"@,
        DeviceKind::HomePod2 => "HomePod (2nd generation)"@,
        DeviceKind::HomePodOther => "HomePod"@,
        DeviceKind::AppleTv2 => "Apple TV (2nd generation)"@,
        DeviceKind::AppleTv3 => "Apple TV (3rd generation)"@,
        DeviceKind::AppleTvHd4 => "Apple TV HD (4th generation)"@,
        DeviceKind::AppleTv4K1 => "Apple TV 4K (1st generation)"@,
        DeviceKind::AppleTv4K2 => "Apple TV 4K (2nd generation)"@,
        DeviceKind::AppleTv4K3 => "Apple TV 4K (3rd generation)"@,
        DeviceKind::AppleTvOther => "Apple TV"@,
        DeviceKind::AirPlaySpeaker => "AirPlay speaker"@,
    }
}

pub open spec fn kind_icon_text(k: DeviceKind) -> Seq<char> {
    match k {
        DeviceKind::HomePodMini => "mini"@,
        DeviceKind::HomePod1 => "HP1"@,
        DeviceKind::HomePod2 => "HP2"@,
        DeviceKind::HomePodOther => "HP"@,
        DeviceKind::AppleTv2 => "TV2"@,
        DeviceKind::AppleTv3 => "TV3"@,
        DeviceKind::AppleTvHd4 => "TV4"@,
        DeviceKind::AppleTv4K1 => "4K1"@,
        DeviceKind::AppleTv4K2 => "4K2"@,
        DeviceKind::AppleTv4K3 => "4K3"@,
        DeviceKind::AppleTvOther => "TV"@,
        DeviceKind::AirPlaySpeaker => "AP"@,
    }
}

fn is_literal(m: &Vec<char>, lit: &str) -> (r: bool)
    ensures
        r == (m@ == lit@),
{
    let l = chars_of(lit);
    seq_eq(m, &l)
}

fn has_prefix(m: &Vec<char>, lit: &str) -> (r: bool)
    ensures
        r == lit@.is_prefix_of(m@),
{
    let l = chars_of(lit);
    starts_with(m, &l)
}

impl DeviceKind {
    pub fn from_model(model: &str) -> (k: Self)
        ensures
            k == kind_of_model(model@),
    {
        let m = trim(model);
        if is_literal(&m, "AudioAccessory5,1") || is_literal(&m, "AudioAccessorySingle5,1") {
            DeviceKind::HomePodMini
        } else if is_literal(&m, "AudioAccessory1,1") || is_literal(&m, "AudioAccessory1,2") {
            DeviceKind::HomePod1
        } else if is_literal(&m, "AudioAccessory6,1") {
            DeviceKind::HomePod2
        } else if is_literal(&m, "AppleTV2,1") {
            DeviceKind::AppleTv2
        } else if is_literal(&m, "AppleTV3,1") || is_literal(&m, "AppleTV3,2") {
            DeviceKind::AppleTv3
        } else if is_literal(&m, "AppleTV5,3") {
            DeviceKind::AppleTvHd4
        } else if is_literal(&m, "AppleTV6,2") {
            DeviceKind::AppleTv4K1
        } else if is_literal(&m, "AppleTV11,1") {
            DeviceKind::AppleTv4K2
        } else if is_literal(&m, "AppleTV14,1") {
            DeviceKind::AppleTv4K3
        } else if has_prefix(&m, "AudioAccessory") {
            DeviceKind::HomePodOther
        } else if has_prefix(&m, "AppleTV") {
            DeviceKind::AppleTvOther
        } else {
            DeviceKind::AirPlaySpeaker
        }
    }

    pub fn friendly_name(self) -> (s: &'static str)
        ensures
            s@ == kind_friendly_name(self),
    {
        match self {
            DeviceKind::HomePodMini => "HomePod mini",
            DeviceKind::HomePod1 => "HomePod (1st generation)",
            DeviceKind::HomePod2 => "HomePod (2nd generation)",
            DeviceKind::HomePodOther => "HomePod",
            DeviceKind::AppleTv2 => "Apple TV (2nd generation)",
            DeviceKind::AppleTv3 => "Apple TV (3rd generation)",
            DeviceKind::AppleTvHd4 => "Apple TV HD (4th generation)",
            DeviceKind::AppleTv4K1 => "Apple TV 4K (1st generation)",
            DeviceKind::AppleTv4K2 => "Apple TV 4K (2nd generation)",
            DeviceKind::AppleTv4K3 => "Apple TV 4K (3rd generation)",
            DeviceKind::AppleTvOther => "Apple TV",
            DeviceKind::AirPlaySpeaker => "AirPlay speaker",
        }
    }

    pub fn icon_text(self) -> (s: &'static str)
        ensures
            s@ == kind_icon_text(self),
    {
        match self {
            DeviceKind::HomePodMini => "mini",
            DeviceKind::HomePod1 => "HP1",
            DeviceKind::HomePod2 => "HP2",
            DeviceKind::HomePodOther => "HP",
            DeviceKind::AppleTv2 => "TV2",
            DeviceKind::AppleTv3 => "TV3",
            DeviceKind::AppleTvHd4 => "TV4",
            DeviceKind::AppleTv4K1 => "4K1",
            DeviceKind::AppleTv4K2 => "4K2",
            DeviceKind::AppleTv4K3 => "4K3",
            DeviceKind::AppleTvOther => "TV",
            DeviceKind::AirPlaySpeaker => "AP",
        }
    }

    pub fn is_homepod(self) -> (b: bool)
        ensures
            b == kind_is_homepod(self),
    {
        match self {
            DeviceKind::HomePodMini | DeviceKind::HomePod1 | DeviceKind::HomePod2
            | DeviceKind::HomePodOther => true,
            _ => false,
        }
    }

    pub fn is_apple_tv(self) -> (b: bool)
        ensures
            b == kind_is_apple_tv(self),
    {
        match self {
            DeviceKind::AppleTv2 | DeviceKind::AppleTv3 | DeviceKind::AppleTvHd4
            | DeviceKind::AppleTv4K1 | DeviceKind::AppleTv4K2 | DeviceKind::AppleTv4K3
            | DeviceKind::AppleTvOther => true,
            _ => false,
        }
    }
}

/// A HomePod is never an Apple TV.
pub proof fn law_kinds_are_exclusive(k: DeviceKind)
    ensures
        !(kind_is_homepod(k) && kind_is_apple_tv(k)),
{
}

/// The kind depends on the model with surrounding whitespace removed, and
/// only on its prefix family (case-sensitive): HomePods are exactly the
/// `AudioAccessory…` models, Apple TVs exactly the `AppleTV…` models, and
/// everything else is a speaker.
pub proof fn law_model_classification(model: Seq<char>)
    ensures
        kind_of_model(trimmed(model)) == kind_of_model(model),
        kind_is_homepod(kind_of_model(model)) <==> "AudioAccessory"@.is_prefix_of(trimmed(model)),
        kind_is_apple_tv(kind_of_model(model)) <==> "AppleTV"@.is_prefix_of(trimmed(model)),
        kind_of_model(model) == DeviceKind::AirPlaySpeaker <==> !"AudioAccessory"@.is_prefix_of(
            trimmed(model),
        ) && !"AppleTV"@.is_prefix_of(trimmed(model)),
{
    lemma_trimmed_idempotent(model);
    reveal_strlit("AudioAccessory");
    reveal_strlit("AppleTV");
    reveal_strlit("AudioAccessory5,1");
    reveal_strlit("AudioAccessorySingle5,1");
    reveal_strlit("AudioAccessory1,1");
    reveal_strlit("AudioAccessory1,2");
    reveal_strlit("AudioAccessory6,1");
    reveal_strlit("AppleTV2,1");
    reveal_strlit("AppleTV3,1");
    reveal_strlit("AppleTV3,2");
    reveal_strlit("AppleTV5,3");
    reveal_strlit("AppleTV6,2");
    reveal_strlit("AppleTV11,1");
    reveal_strlit("AppleTV14,1");
    let m = trimmed(model);
    let hp = "AudioAccessory"@;
    let tv = "AppleTV"@;
    assert(hp[1] != tv[1]);
    if hp.is_prefix_of(m) {
        assert(m[1] == hp[1]);
        assert(!tv.is_prefix_of(m));
    }
    if tv.is_prefix_of(m) {
        assert(m[1] == tv[1]);
    }
    if m == "AudioAccessory5,1"@ || m == "AudioAccessorySingle5,1"@ || m == "AudioAccessory1,1"@
        || m == "AudioAccessory1,2"@ || m == "AudioAccessory6,1"@ {
        assert(hp =~= m.subrange(0, hp.len() as int));
    }
    if m == "AppleTV2,1"@ || m == "AppleTV3,1"@ || m == "AppleTV3,2"@ || m == "AppleTV5,3"@ || m
        == "AppleTV6,2"@ || m == "AppleTV11,1"@ || m == "AppleTV14,1"@ {
        assert(tv =~= m.subrange(0, tv.len() as int));
    }
}

proof fn lemma_model_homepodmini(model: Seq<char>)
    ensures
        trimmed(model) == "AudioAccessory5,1"@ || trimmed(model) == "AudioAccessorySingle5,1"@ ==> kind_of_model(model) == DeviceKind::HomePodMini,
{
    reveal_strlit("AudioAccessory5,1");
    reveal_strlit("AudioAccessorySingle5,1");
    if trimmed(model) == "AudioAccessory5,1"@ {
    }
    if trimmed(model) == "AudioAccessorySingle5,1"@ {
    }
}

proof fn lemma_model_homepod1(model: Seq<char>)
    ensures
        trimmed(model) == "AudioAccessory1,1"@ || trimmed(model) == "AudioAccessory1,2"@ ==> kind_of_model(model) == DeviceKind::HomePod1,
{
    reveal_strlit("AudioAccessory1,1");
    reveal_strlit("AudioAccessorySingle5,1");
    reveal_strlit("AudioAccessory1,2");
    reveal_strlit("AudioAccessory5,1");
    if trimmed(model) == "AudioAccessory1,1"@ {
        assert(trimmed(model)[14] != "AudioAccessory5,1"@[14]);
        assert(trimmed(model)[14] != "AudioAccessorySingle5,1"@[14]);
    }
    if trimmed(model) == "AudioAccessory1,2"@ {
        assert(trimmed(model)[14] != "AudioAccessory5,1"@[14]);
        assert(trimmed(model)[14] != "AudioAccessorySingle5,1"@[14]);
    }
}

proof fn lemma_model_homepod2(model: Seq<char>)
    ensures
        trimmed(model) == "AudioAccessory6,1"@ ==> kind_of_model(model) == DeviceKind::HomePod2,
{
    reveal_strlit("AudioAccessory5,1");
    reveal_strlit("AudioAccessory6,1");
    reveal_strlit("AudioAccessory1,1");
    reveal_strlit("AudioAccessory1,2");
    reveal_strlit("AudioAccessorySingle5,1");
    if trimmed(model) == "AudioAccessory6,1"@ {
        assert(trimmed(model)[14] != "AudioAccessory5,1"@[14]);
        assert(trimmed(model)[14] != "AudioAccessorySingle5,1"@[14]);
        assert(trimmed(model)[14] != "AudioAccessory1,1"@[14]);
        assert(trimmed(model)[14] != "AudioAccessory1,2"@[14]);
    }
}

proof fn lemma_model_appletv2(model: Seq<char>)
    ensures
        trimmed(model) == "AppleTV2,1"@ ==> kind_of_model(model) == DeviceKind::AppleTv2,
{
    reveal_strlit("AudioAccessory5,1");
    reveal_strlit("AudioAccessory1,1");
    reveal_strlit("AudioAccessory6,1");
    reveal_strlit("AudioAccessory1,2");
    reveal_strlit("AppleTV2,1");
    reveal_strlit("AudioAccessorySingle5,1");
    if trimmed(model) == "AppleTV2,1"@ {
        assert(trimmed(model)[1] != "AudioAccessory5,1"@[1]);
        assert(trimmed(model)[1] != "AudioAccessorySingle5,1"@[1]);
        assert(trimmed(model)[1] != "AudioAccessory1,1"@[1]);
        assert(trimmed(model)[1] != "AudioAccessory1,2"@[1]);
        assert(trimmed(model)[1] != "AudioAccessory6,1"@[1]);
    }
}

proof fn lemma_model_appletv3(model: Seq<char>)
    ensures
        trimmed(model) == "AppleTV3,1"@ || trimmed(model) == "AppleTV3,2"@ ==> kind_of_model(model) == DeviceKind::AppleTv3,
{
    reveal_strlit("AudioAccessory5,1");
    reveal_strlit("AudioAccessory1,1");
    reveal_strlit("AudioAccessory6,1");
    reveal_strlit("AudioAccessory1,2");
    reveal_strlit("AppleTV3,1");
    reveal_strlit("AppleTV3,2");
    reveal_strlit("AppleTV2,1");
    reveal_strlit("AudioAccessorySingle5,1");
    if trimmed(model) == "AppleTV3,1"@ {
        assert(trimmed(model)[1] != "AudioAccessory5,1"@[1]);
        assert(trimmed(model)[1] != "AudioAccessorySingle5,1"@[1]);
        assert(trimmed(model)[1] != "AudioAccessory1,1"@[1]);
        assert(trimmed(model)[1] != "AudioAccessory1,2"@[1]);
        assert(trimmed(model)[1] != "AudioAccessory6,1"@[1]);
        assert(trimmed(model)[7] != "AppleTV2,1"@[7]);
    }
    if trimmed(model) == "AppleTV3,2"@ {
        assert(trimmed(model)[1] != "AudioAccessory5,1"@[1]);
        assert(trimmed(model)[1] != "AudioAccessorySingle5,1"@[1]);
        assert(trimmed(model)[1] != "AudioAccessory1,1"@[1]);
        assert(trimmed(model)[1] != "AudioAccessory1,2"@[1]);
        assert(trimmed(model)[1] != "AudioAccessory6,1"@[1]);
        assert(trimmed(model)[7] != "AppleTV2,1"@[7]);
    }
}

proof fn lemma_model_appletvhd4(model: Seq<char>)
    ensures
        trimmed(model) == "AppleTV5,3"@ ==> kind_of_model(model) == DeviceKind::AppleTvHd4,
{
    reveal_strlit("AudioAccessory5,1");
    reveal_strlit("AppleTV5,3");
    reveal_strlit("AudioAccessory1,1");
    reveal_strlit("AudioAccessory6,1");
    reveal_strlit("AudioAccessory1,2");
    reveal_strlit("AppleTV3,2");
    reveal_strlit("AppleTV3,1");
    reveal_strlit("AppleTV2,1");
    reveal_strlit("AudioAccessorySingle5,1");
    if trimmed(model) == "AppleTV5,3"@ {
        assert(trimmed(model)[1] != "AudioAccessory5,1"@[1]);
        assert(trimmed(model)[1] != "AudioAccessorySingle5,1"@[1]);
        assert(trimmed(model)[1] != "AudioAccessory1,1"@[1]);
        assert(trimmed(model)[1] != "AudioAccessory1,2"@[1]);
        assert(trimmed(model)[1] != "AudioAccessory6,1"@[1]);
        assert(trimmed(model)[7] != "AppleTV2,1"@[7]);
        assert(trimmed(model)[7] != "AppleTV3,1"@[7]);
        assert(trimmed(model)[7] != "AppleTV3,2"@[7]);
    }
}

proof fn lemma_model_appletv4k1(model: Seq<char>)
    ensures
        trimmed(model) == "AppleTV6,2"@ ==> kind_of_model(model) == DeviceKind::AppleTv4K1,
{
    reveal_strlit("AppleTV6,2");
    reveal_strlit("AudioAccessory5,1");
    reveal_strlit("AudioAccessory1,1");
    reveal_strlit("AudioAccessory6,1");
    reveal_strlit("AppleTV5,3");
    reveal_strlit("AudioAccessory1,2");
    reveal_strlit("AppleTV3,2");
    reveal_strlit("AppleTV3,1");
    reveal_strlit("AppleTV2,1");
    reveal_strlit("AudioAccessorySingle5,1");
    if trimmed(model) == "AppleTV6,2"@ {
        assert(trimmed(model)[1] != "AudioAccessory5,1"@[1]);
        assert(trimmed(model)[1] != "AudioAccessorySingle5,1"@[1]);
        assert(trimmed(model)[1] != "AudioAccessory1,1"@[1]);
        assert(trimmed(model)[1] != "AudioAccessory1,2"@[1]);
        assert(trimmed(model)[1] != "AudioAccessory6,1"@[1]);
        assert(trimmed(model)[7] != "AppleTV2,1"@[7]);
        assert(trimmed(model)[7] != "AppleTV3,1"@[7]);
        assert(trimmed(model)[7] != "AppleTV3,2"@[7]);
        assert(trimmed(model)[7] != "AppleTV5,3"@[7]);
    }
}

proof fn lemma_model_appletv4k2(model: Seq<char>)
    ensures
        trimmed(model) == "AppleTV11,1"@ ==> kind_of_model(model) == DeviceKind::AppleTv4K2,
{
    reveal_strlit("AppleTV6,2");
    reveal_strlit("AudioAccessory5,1");
    reveal_strlit("AudioAccessory1,1");
    reveal_strlit("AppleTV11,1");
    reveal_strlit("AudioAccessory6,1");
    reveal_strlit("AppleTV5,3");
    reveal_strlit("AudioAccessory1,2");
    reveal_strlit("AppleTV3,2");
    reveal_strlit("AppleTV3,1");
    reveal_strlit("AppleTV2,1");
    reveal_strlit("AudioAccessorySingle5,1");
    if trimmed(model) == "AppleTV11,1"@ {
        assert(trimmed(model)[1] != "AudioAccessory5,1"@[1]);
        assert(trimmed(model)[1] != "AudioAccessorySingle5,1"@[1]);
        assert(trimmed(model)[1] != "AudioAccessory1,1"@[1]);
        assert(trimmed(model)[1] != "AudioAccessory1,2"@[1]);
        assert(trimmed(model)[1] != "AudioAccessory6,1"@[1]);
        assert(trimmed(model)[7] != "AppleTV2,1"@[7]);
        assert(trimmed(model)[7] != "AppleTV3,1"@[7]);
        assert(trimmed(model)[7] != "AppleTV3,2"@[7]);
        assert(trimmed(model)[7] != "AppleTV5,3"@[7]);
        assert(trimmed(model)[7] != "AppleTV6,2"@[7]);
    }
}

proof fn lemma_model_appletv4k3(model: Seq<char>)
    ensures
        trimmed(model) == "AppleTV14,1"@ ==> kind_of_model(model) == DeviceKind::AppleTv4K3,
{
    reveal_strlit("AppleTV6,2");
    reveal_strlit("AudioAccessory5,1");
    reveal_strlit("AudioAccessory1,1");
    reveal_strlit("AudioAccessory6,1");
    reveal_strlit("AppleTV5,3");
    reveal_strlit("AppleTV11,1");
    reveal_strlit("AppleTV14,1");
    reveal_strlit("AudioAccessory1,2");
    reveal_strlit("AppleTV3,2");
    reveal_strlit("AppleTV3,1");
    reveal_strlit("AppleTV2,1");
    reveal_strlit("AudioAccessorySingle5,1");
    if trimmed(model) == "AppleTV14,1"@ {
        assert(trimmed(model)[1] != "AudioAccessory5,1"@[1]);
        assert(trimmed(model)[1] != "AudioAccessorySingle5,1"@[1]);
        assert(trimmed(model)[1] != "AudioAccessory1,1"@[1]);
        assert(trimmed(model)[1] != "AudioAccessory1,2"@[1]);
        assert(trimmed(model)[1] != "AudioAccessory6,1"@[1]);
        assert(trimmed(model)[7] != "AppleTV2,1"@[7]);
        assert(trimmed(model)[7] != "AppleTV3,1"@[7]);
        assert(trimmed(model)[7] != "AppleTV3,2"@[7]);
        assert(trimmed(model)[7] != "AppleTV5,3"@[7]);
        assert(trimmed(model)[7] != "AppleTV6,2"@[7]);
        assert(trimmed(model)[8] != "AppleTV11,1"@[8]);
    }
}

/// Every known model identifier maps to its own product (whitespace around
/// it ignored), and the product's friendly name follows.
pub proof fn law_known_models_map_to_their_product(model: Seq<char>)
    ensures
        trimmed(model) == "AudioAccessory5,1"@ || trimmed(model) == "AudioAccessorySingle5,1"@
            ==> kind_of_model(model) == DeviceKind::HomePodMini && kind_friendly_name(
            kind_of_model(model),
        ) == "HomePod mini"@,
        trimmed(model) == "AudioAccessory1,1"@ || trimmed(model) == "AudioAccessory1,2"@
            ==> kind_of_model(model) == DeviceKind::HomePod1 && kind_friendly_name(
            kind_of_model(model),
        ) == "HomePod (1st generation)"@,
        trimmed(model) == "AudioAccessory6,1"@ ==> kind_of_model(model) == DeviceKind::HomePod2
            && kind_friendly_name(kind_of_model(model)) == "HomePod (2nd generation)"@,
        trimmed(model) == "AppleTV2,1"@ ==> kind_of_model(model) == DeviceKind::AppleTv2,
        trimmed(model) == "AppleTV3,1"@ || trimmed(model) == "AppleTV3,2"@ ==> kind_of_model(model)
            == DeviceKind::AppleTv3,
        trimmed(model) == "AppleTV5,3"@ ==> kind_of_model(model) == DeviceKind::AppleTvHd4,
        trimmed(model) == "AppleTV6,2"@ ==> kind_of_model(model) == DeviceKind::AppleTv4K1,
        trimmed(model) == "AppleTV11,1"@ ==> kind_of_model(model) == DeviceKind::AppleTv4K2,
        trimmed(model) == "AppleTV14,1"@ ==> kind_of_model(model) == DeviceKind::AppleTv4K3
            && kind_friendly_name(kind_of_model(model)) == "Apple TV 4K (3rd generation)"@,
{
    lemma_model_homepodmini(model);
    lemma_model_homepod1(model);
    lemma_model_homepod2(model);
    lemma_model_appletv2(model);
    lemma_model_appletv3(model);
    lemma_model_appletvhd4(model);
    lemma_model_appletv4k1(model);
    lemma_model_appletv4k2(model);
    lemma_model_appletv4k3(model);
}

} // verus!
