use vstd::prelude::*;
use crate::codec::{
    decode_plan_spec, decrypt_spec, encrypt_spec, finish_spec, native_numeral, profile_hashid, sentinel,
    starts_with,
};
use crate::error::AppError;
use crate::profile::{reserved_prefix, ActiveConfig, CryptoConfig};
use crate::text::{all_digits, decimal_of, decimal_value, lemma_decimal_of_digits};

verus! {

/// A hashid that the decoding rules would read as something else: all digits,
/// the sentinel followed by digits under the default profile, or a text that
/// begins with the reserved prefix under the secondary profile with the
/// prefix disabled.
pub open spec fn hashid_misread(cfg: ActiveConfig, h: Seq<char>) -> bool {
    ||| all_digits(h)
    ||| (cfg.current == CryptoConfig::General && h.len() > 1 && h[0] == sentinel() && all_digits(
        h.drop_first(),
    ))
    ||| (cfg.current == CryptoConfig::Huawei && !cfg.use_prefix && starts_with(h, reserved_prefix()))
}

proof fn lemma_prefix_concat(rest: Seq<char>)
    ensures
        starts_with(reserved_prefix() + rest, reserved_prefix()),
        (reserved_prefix() + rest).skip(4) == rest,
        !all_digits(reserved_prefix() + rest),
{
    assert((reserved_prefix() + rest).take(4) =~= reserved_prefix());
    assert((reserved_prefix() + rest).skip(4) =~= rest);
    assert(!crate::text::is_digit((reserved_prefix() + rest)[0]));
}

proof fn lemma_sentinel_concat(rest: Seq<char>)
    ensures
        (seq![sentinel()] + rest)[0] == sentinel(),
        (seq![sentinel()] + rest).drop_first() == rest,
        !all_digits(seq![sentinel()] + rest),
        !starts_with(seq![sentinel()] + rest, reserved_prefix()),
{
    assert((seq![sentinel()] + rest).drop_first() =~= rest);
    assert(!crate::text::is_digit((seq![sentinel()] + rest)[0]));
    if starts_with(seq![sentinel()] + rest, reserved_prefix()) {
        assert((seq![sentinel()] + rest).take(4)[0] == reserved_prefix()[0]);
    }
}

/// Round trip in the native range: encoding the numeral of `n` under any
/// profile and prefix setting gives a token whose decoding hands the hashid
/// decoder exactly the profile's hashid of `n`, and a decoder outcome of `[n]`
/// yields the numeral of `n` again. Left out: hashids that the decoding rules
/// read as a numeral or a prefixed token (`hashid_misread`).
pub proof fn lemma_round_trip_native(cfg: ActiveConfig, n: u64)
    requires
        profile_hashid(cfg.current, n).len() >= cfg.current.spec_min_length(),
        !hashid_misread(cfg, profile_hashid(cfg.current, n)),
    ensures
        encrypt_spec(cfg, decimal_of(n as nat)) matches Ok(t) && decode_plan_spec(cfg.current, t)
            == Ok::<(bool, Seq<char>), AppError>((false, profile_hashid(cfg.current, n))),
        finish_spec(Some(seq![n])) == Ok::<Seq<char>, AppError>(decimal_of(n as nat)),
{
    lemma_decimal_of_digits(n as nat);
    let h = profile_hashid(cfg.current, n);
    assert(decimal_value(decimal_of(n as nat)) as u64 == n);
    if cfg.prefix_active() {
        lemma_prefix_concat(h);
    }
}

/// Round trip past the native range: a numeral too large for a `u64` comes
/// back verbatim through the sentinel or prefix fallback. Left out: the
/// secondary profile with the prefix disabled, whose decoding rules do not
/// unwrap the sentinel.
pub proof fn lemma_round_trip_oversized(cfg: ActiveConfig, t: Seq<char>)
    requires
        t.len() > 0,
        all_digits(t),
        decimal_value(t) > u64::MAX,
        !(cfg.current == CryptoConfig::Huawei && !cfg.use_prefix),
    ensures
        encrypt_spec(cfg, t) matches Ok(e) && decode_plan_spec(cfg.current, e)
            == Ok::<(bool, Seq<char>), AppError>((true, t)),
{
    if cfg.prefix_active() {
        lemma_prefix_concat(t);
    } else {
        lemma_sentinel_concat(t);
    }
}

/// A token made under one profile and decoded under another profile whose
/// minimum length exceeds the token's length fails with `LengthTooShort` or
/// `InvalidCiphertext`. Left out: tokens that begin with the sentinel or the
/// reserved prefix, which skip the length rule.
pub proof fn lemma_cross_profile_rejection(
    from: ActiveConfig,
    q: CryptoConfig,
    text: Seq<char>,
    t: Seq<char>,
)
    requires
        from.current != q,
        encrypt_spec(from, text) == Ok::<Seq<char>, AppError>(t),
        native_numeral(text) ==> profile_hashid(from.current, decimal_value(text) as u64).len()
            >= from.current.spec_min_length(),
        t.len() < q.spec_min_length(),
        t.len() > 0 ==> t[0] != sentinel(),
        !starts_with(t, reserved_prefix()),
    ensures
        decode_plan_spec(q, t) == Err::<(bool, Seq<char>), AppError>(AppError::LengthTooShort)
            || decode_plan_spec(q, t) == Err::<(bool, Seq<char>), AppError>(
            AppError::InvalidCiphertext,
        ),
{
    if from.prefix_active() {
        if decimal_value(text) <= u64::MAX {
            lemma_prefix_concat(profile_hashid(from.current, decimal_value(text) as u64));
        } else {
            lemma_prefix_concat(text);
        }
    }
}

/// With the secondary profile and the prefix disabled, no token begins with
/// the reserved prefix, and a token of a native numeral is handed to the
/// hashid decoder unchanged. Left out: hashids that the decoding rules would
/// misread (`hashid_misread`).
pub proof fn lemma_prefix_disabled(text: Seq<char>, e: Seq<char>)
    requires
        encrypt_spec(ActiveConfig { current: CryptoConfig::Huawei, use_prefix: false }, text)
            == Ok::<Seq<char>, AppError>(e),
        native_numeral(text) ==> profile_hashid(CryptoConfig::Huawei, decimal_value(text) as u64).len()
            >= CryptoConfig::Huawei.spec_min_length(),
        native_numeral(text) ==> !hashid_misread(
            ActiveConfig { current: CryptoConfig::Huawei, use_prefix: false },
            profile_hashid(CryptoConfig::Huawei, decimal_value(text) as u64),
        ),
    ensures
        !starts_with(e, reserved_prefix()),
        native_numeral(text) ==> decode_plan_spec(CryptoConfig::Huawei, e) == Ok::<
            (bool, Seq<char>),
            AppError,
        >((false, e)),
{
    if !native_numeral(text) {
        lemma_sentinel_concat(text);
    }
}

/// Decoding never succeeds with anything but a non-empty decimal numeral,
/// whatever the token, profile and decoder outcome.
pub proof fn lemma_decrypt_yields_numeral(p: CryptoConfig, t: Seq<char>, o: Option<Seq<u64>>)
    ensures
        decrypt_spec(p, t, o) matches Ok(v) ==> v.len() > 0 && all_digits(v),
{
    if let Some(w) = o {
        if w.len() > 0 {
            lemma_decimal_of_digits(w[0] as nat);
        }
    }
}

} // verus!
