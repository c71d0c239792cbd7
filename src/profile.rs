use vstd::prelude::*;
use crate::error::{AppError, AppResult};
use crate::text::chars_of;

verus! {

/// The two obfuscation profiles.
#[derive(Debug, Clone, Copy, PartialEq, Eq, Structural)]
pub enum CryptoConfig {
    /// The default profile: default alphabet, no reserved prefix.
    General,
    /// The secondary profile: lower-case letters and digits, reserved prefix.
    Huawei,
}

impl CryptoConfig {
    pub open spec fn spec_salt(self) -> Seq<char> {
        match self {
            CryptoConfig::General => "Tongyong"@,
            CryptoConfig::Huawei => "Huawei"@,
        }
    }

    pub open spec fn spec_min_length(self) -> nat {
        match self {
            CryptoConfig::General => 12,
            CryptoConfig::Huawei => 16,
        }
    }

    pub open spec fn spec_alphabet(self) -> Option<Seq<char>> {
        match self {
            CryptoConfig::General => None,
            CryptoConfig::Huawei => Some("abcdefghijklmnopqrstuvwxyz1234567890"@),
        }
    }

    /// The salt that the profile's hashids are built with.
    pub fn salt(&self) -> (r: &'static str)
        ensures
            r@ == self.spec_salt(),
    {
        match self {
            CryptoConfig::General => "Tongyong",
            CryptoConfig::Huawei => "Huawei",
        }
    }

    /// The shortest token that the profile produces.
    pub fn min_length(&self) -> (r: usize)
        ensures
            r == self.spec_min_length(),
    {
        match self {
            CryptoConfig::General => 12,
            CryptoConfig::Huawei => 16,
        }
    }

    /// The profile's own alphabet; `None` means the hashid default.
    pub fn alphabet(&self) -> (r: Option<&'static str>)
        ensures
            r matches Some(a) ==> self.spec_alphabet() == Some(a@),
            r is None ==> self.spec_alphabet() is None,
    {
        match self {
            CryptoConfig::General => None,
            CryptoConfig::Huawei => Some("abcdefghijklmnopqrstuvwxyz1234567890"),
        }
    }
}

/// The literal that the secondary profile puts in front of its tokens.
pub open spec fn reserved_prefix() -> Seq<char> {
    seq!['h', 'a', 'o', 't']
}

/// The profile in use and whether the reserved prefix is emitted.
#[derive(Debug, Clone, Copy, PartialEq, Eq, Structural)]
pub struct ActiveConfig {
    pub current: CryptoConfig,
    pub use_prefix: bool,
}

impl ActiveConfig {
    /// Tokens carry the reserved prefix: secondary profile with prefix enabled.
    pub open spec fn prefix_active(self) -> bool {
        self.current == CryptoConfig::Huawei && self.use_prefix
    }
}

/// The configuration at start-up: default profile, prefix enabled.
pub fn init_config() -> (r: ActiveConfig)
    ensures
        r == (ActiveConfig { current: CryptoConfig::General, use_prefix: true }),
{
    ActiveConfig { current: CryptoConfig::General, use_prefix: true }
}

/// The active profile.
pub fn get_current_config(cfg: &ActiveConfig) -> (r: CryptoConfig)
    ensures
        r == cfg.current,
{
    cfg.current
}

/// Switches the active profile, keeping the prefix setting.
pub fn set_config(cfg: &mut ActiveConfig, config: CryptoConfig)
    ensures
        *final(cfg) == (ActiveConfig { current: config, use_prefix: old(cfg).use_prefix }),
{
    *cfg = ActiveConfig { current: config, use_prefix: cfg.use_prefix };
}

/// Whether the reserved prefix is enabled.
pub fn use_huawei_prefix(cfg: &ActiveConfig) -> (r: bool)
    ensures
        r == cfg.use_prefix,
{
    cfg.use_prefix
}

/// Enables or disables the reserved prefix, keeping the profile.
pub fn set_use_huawei_prefix(cfg: &mut ActiveConfig, use_prefix: bool)
    ensures
        *final(cfg) == (ActiveConfig { current: old(cfg).current, use_prefix }),
{
    *cfg = ActiveConfig { current: cfg.current, use_prefix };
}

/// The human-readable name of a profile.
pub open spec fn spec_profile_name(p: CryptoConfig) -> Seq<char> {
    match p {
        CryptoConfig::General => "通用"@,
        CryptoConfig::Huawei => "华为"@,
    }
}

/// The human-readable name of a profile.
pub fn profile_name(p: CryptoConfig) -> (r: &'static str)
    ensures
        r@ == spec_profile_name(p),
{
    match p {
        CryptoConfig::General => "通用",
        CryptoConfig::Huawei => "华为",
    }
}

/// Whether two character sequences are equal.
pub fn chars_equal(a: &[char], b: &[char]) -> (r: bool)
    ensures
        r == (a@ == b@),
{
    if a.len() != b.len() {
        return false;
    }
    let mut i: usize = 0;
    while i < a.len()
        invariant
            i <= a@.len() == b@.len(),
            forall|k: int| 0 <= k < i ==> a@[k] == b@[k],
        decreases a@.len() - i,
    {
        if a[i] != b[i] {
            return false;
        }
        i = i + 1;
    }
    proof { assert(a@ =~= b@); }
    true
}

/// The profile with the given name; exactly the two names of
/// `spec_profile_name` are recognized.
pub fn profile_from_name(name: &str) -> (r: AppResult<CryptoConfig>)
    ensures
        r matches Ok(p) ==> spec_profile_name(p) == name@,
        r is Err <==> (name@ != spec_profile_name(CryptoConfig::General) && name@
            != spec_profile_name(CryptoConfig::Huawei)),
        r matches Err(e) ==> e == AppError::ConfigurationError,
{
    let n = chars_of(name);
    let g = chars_of(profile_name(CryptoConfig::General));
    if chars_equal(&n, &g) {
        return Ok(CryptoConfig::General);
    }
    let h = chars_of(profile_name(CryptoConfig::Huawei));
    if chars_equal(&n, &h) {
        return Ok(CryptoConfig::Huawei);
    }
    Err(AppError::ConfigurationError)
}

/// Start-up initialisation of the active configuration.
pub fn init_crypto_config() -> (r: ActiveConfig)
    ensures
        r == (ActiveConfig { current: CryptoConfig::General, use_prefix: true }),
{
    init_config()
}

} // verus!
