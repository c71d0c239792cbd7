use vstd::prelude::*;
use vstd::string::StringExecFns;
use crate::error::{AppError, AppResult};
use crate::profile::{reserved_prefix, ActiveConfig, CryptoConfig};
use crate::text::{
    all_ascii_digits, all_digits, chars_of, decimal_chars, decimal_of, decimal_value, parse_u64,
    slice_chars, string_of,
};

verus! {

/// The hashid that harsh produces for `values` under the given salt,
/// alphabet (`None`: harsh's default) and minimum length.
pub uninterp spec fn hashid_of(
    salt: Seq<char>,
    alphabet: Option<Seq<char>>,
    min_length: nat,
    values: Seq<u64>,
) -> Seq<char>;

/// An alphabet that harsh's builder accepts: ASCII, no space, and at least
/// sixteen distinct characters (here: its first sixteen are distinct).
pub open spec fn alphabet_accepted(a: Seq<char>) -> bool {
    &&& a.len() >= 16
    &&& forall|i: int| 0 <= i < a.len() ==> (a[i] as u32) < 128 && a[i] != ' '
    &&& forall|i: int, j: int| 0 <= i < j < 16 ==> a[i] != a[j]
}

pub open spec fn opt_view(o: Option<&str>) -> Option<Seq<char>> {
    match o {
        Some(a) => Some(a@),
        None => None,
    }
}

/// Relies on harsh's `HarshBuilder` (`salt`, `alphabet`, `length`, `build`)
/// and `Harsh::encode`. `build` fails only on an alphabet holding a space or
/// fewer than sixteen distinct bytes, which `requires` leaves out; `encode`
/// pads its output until it reaches the minimum length, which `requires`
/// keeps small enough for that padding to be cheap.
#[verifier::external_body]
fn hashid_encode(salt: &str, alphabet: Option<&str>, min_length: usize, n: u64) -> (r: String)
    requires
        alphabet matches Some(a) ==> alphabet_accepted(a@),
        min_length <= 1024,
    ensures
        r@ == hashid_of(salt@, opt_view(alphabet), min_length as nat, seq![n]),
        r@.len() >= min_length,
{
    let builder = harsh::Harsh::builder().salt(salt).length(min_length);
    let builder = match alphabet {
        Some(a) => builder.alphabet(a),
        None => builder,
    };
    builder.build().expect("alphabet accepted by harsh").encode(&[n])
}

/// The hashid of `n` under profile `p`.
pub open spec fn profile_hashid(p: CryptoConfig, n: u64) -> Seq<char> {
    hashid_of(p.spec_salt(), p.spec_alphabet(), p.spec_min_length(), seq![n])
}

/// The marker put in front of an oversized numeral when no prefix is active.
pub open spec fn sentinel() -> char {
    'x'
}

pub open spec fn result_view(r: AppResult<String>) -> Result<Seq<char>, AppError> {
    match r {
        Ok(s) => Ok(s@),
        Err(e) => Err(e),
    }
}

/// A non-empty string of digits whose value fits a `u64`.
pub open spec fn native_numeral(t: Seq<char>) -> bool {
    t.len() > 0 && all_digits(t) && decimal_value(t) <= u64::MAX
}

/// What encoding the numeral `t` under `cfg` yields.
pub open spec fn encrypt_spec(cfg: ActiveConfig, t: Seq<char>) -> Result<Seq<char>, AppError> {
    if t.len() == 0 {
        Err(AppError::EmptyInput)
    } else if !all_digits(t) {
        Err(AppError::InvalidNumericInput)
    } else if decimal_value(t) <= u64::MAX {
        let h = profile_hashid(cfg.current, decimal_value(t) as u64);
        Ok(if cfg.prefix_active() { reserved_prefix() + h } else { h })
    } else if cfg.prefix_active() {
        Ok(reserved_prefix() + t)
    } else {
        Ok(seq![sentinel()] + t)
    }
}

proof fn lemma_huawei_alphabet_accepted()
    ensures
        CryptoConfig::Huawei.spec_alphabet() matches Some(a) && alphabet_accepted(a),
{
    reveal_strlit("abcdefghijklmnopqrstuvwxyz1234567890");
}

/// The hashid of `n` under profile `p`.
fn profile_encode(p: CryptoConfig, n: u64) -> (r: String)
    ensures
        r@ == profile_hashid(p, n),
        r@.len() >= p.spec_min_length(),
{
    proof { lemma_huawei_alphabet_accepted(); }
    hashid_encode(p.salt(), p.alphabet(), p.min_length(), n)
}

/// `rest` with the reserved prefix in front.
fn with_prefix(rest: &str) -> (r: String)
    ensures
        r@ == reserved_prefix() + rest@,
{
    let p = "haot";
    proof { reveal_strlit("haot"); assert(p@ =~= reserved_prefix()); }
    let mut r = String::from_str(p);
    r.append(rest);
    r
}

/// Encodes one decimal numeral under the active configuration.
pub fn encrypt_number(cfg: &ActiveConfig, text: &str) -> (r: AppResult<String>)
    ensures
        result_view(r) == encrypt_spec(*cfg, text@),
        native_numeral(text@) ==> profile_hashid(cfg.current, decimal_value(text@) as u64).len()
            >= cfg.current.spec_min_length(),
{
    let cs = chars_of(text);
    if cs.len() == 0 {
        return Err(AppError::EmptyInput);
    }
    let prefixed = matches!(cfg.current, CryptoConfig::Huawei) && cfg.use_prefix;
    match parse_u64(&cs) {
        Some(n) => {
            let h = profile_encode(cfg.current, n);
            if prefixed {
                Ok(with_prefix(h.as_str()))
            } else {
                Ok(h)
            }
        },
        None => {
            if !all_ascii_digits(&cs) {
                Err(AppError::InvalidNumericInput)
            } else if prefixed {
                Ok(with_prefix(text))
            } else {
                let mut r = String::new();
                crate::text::push_char(&mut r, 'x');
                r.append(text);
                proof { assert(r@ =~= seq![sentinel()] + text@); }
                Ok(r)
            }
        },
    }
}

/// What the decoder is to do with a token: return a numeral as it stands,
/// or hand a hashid to the hashid decoder.
pub enum DecodePlan {
    /// An oversized numeral carried in the clear.
    Verbatim(String),
    /// A hashid for the hashid decoder of the active profile.
    Primitive(String),
}

pub open spec fn plan_view(r: AppResult<DecodePlan>) -> Result<(bool, Seq<char>), AppError> {
    match r {
        Ok(DecodePlan::Verbatim(s)) => Ok((true, s@)),
        Ok(DecodePlan::Primitive(s)) => Ok((false, s@)),
        Err(e) => Err(e),
    }
}

pub open spec fn starts_with(s: Seq<char>, p: Seq<char>) -> bool {
    s.len() >= p.len() && s.take(p.len() as int) == p
}

/// The validation rules in front of the hashid decoder, keyed on profile,
/// prefix, length and digits: `Ok((true, s))` returns `s` as the numeral,
/// `Ok((false, s))` hands `s` to the decoder.
pub open spec fn decode_plan_spec(p: CryptoConfig, t: Seq<char>) -> Result<(bool, Seq<char>), AppError> {
    if t.len() == 0 {
        Err(AppError::EmptyInput)
    } else if all_digits(t) {
        Err(AppError::InvalidCiphertext)
    } else {
        match p {
            CryptoConfig::General => {
                if t[0] == sentinel() && t.len() > 1 && all_digits(t.drop_first()) {
                    Ok((true, t.drop_first()))
                } else {
                    Ok((false, t))
                }
            },
            CryptoConfig::Huawei => {
                if starts_with(t, reserved_prefix()) {
                    let rest = t.skip(4);
                    if rest.len() > 0 && all_digits(rest) {
                        Ok((true, rest))
                    } else if rest.len() < p.spec_min_length() {
                        Err(AppError::LengthTooShort)
                    } else {
                        Ok((false, rest))
                    }
                } else if t[0] != sentinel() && t.len() < p.spec_min_length() {
                    Err(AppError::LengthTooShort)
                } else {
                    Ok((false, t))
                }
            },
        }
    }
}

/// Applies the validation rules for decoding `text` under profile `p`.
pub fn decode_plan(p: CryptoConfig, text: &str) -> (r: AppResult<DecodePlan>)
    ensures
        plan_view(r) == decode_plan_spec(p, text@),
{
    let cs = chars_of(text);
    let n = cs.len();
    if n == 0 {
        return Err(AppError::EmptyInput);
    }
    if all_ascii_digits(&cs) {
        return Err(AppError::InvalidCiphertext);
    }
    match p {
        CryptoConfig::General => {
            if cs[0] == 'x' && n > 1 {
                let rest = slice_chars(&cs, 1, n);
                proof { assert(rest@ =~= text@.drop_first()); }
                if all_ascii_digits(&rest) {
                    return Ok(DecodePlan::Verbatim(string_of(&rest)));
                }
            }
            Ok(DecodePlan::Primitive(string_of(&cs)))
        },
        CryptoConfig::Huawei => {
            let prefixed = n >= 4 && cs[0] == 'h' && cs[1] == 'a' && cs[2] == 'o' && cs[3] == 't';
            proof {
                if n >= 4 {
                    assert(prefixed == (text@.take(4) =~= reserved_prefix()));
                }
            }
            if prefixed {
                let rest = slice_chars(&cs, 4, n);
                proof { assert(rest@ =~= text@.skip(4)); }
                if rest.len() > 0 && all_ascii_digits(&rest) {
                    Ok(DecodePlan::Verbatim(string_of(&rest)))
                } else if rest.len() < p.min_length() {
                    Err(AppError::LengthTooShort)
                } else {
                    Ok(DecodePlan::Primitive(string_of(&rest)))
                }
            } else if cs[0] != 'x' && n < p.min_length() {
                Err(AppError::LengthTooShort)
            } else {
                Ok(DecodePlan::Primitive(string_of(&cs)))
            }
        },
    }
}

/// What the decoder's outcome yields: the first decoded value as a decimal
/// numeral, or `InvalidCiphertext` when the decoder failed or found nothing.
pub open spec fn finish_spec(outcome: Option<Seq<u64>>) -> Result<Seq<char>, AppError> {
    match outcome {
        Some(v) => if v.len() > 0 {
            Ok(decimal_of(v[0] as nat))
        } else {
            Err(AppError::InvalidCiphertext)
        },
        None => Err(AppError::InvalidCiphertext),
    }
}

pub open spec fn outcome_view(o: Option<Vec<u64>>) -> Option<Seq<u64>> {
    match o {
        Some(v) => Some(v@),
        None => None,
    }
}

/// Turns the hashid decoder's outcome (`None` when it failed or faulted)
/// into the decoded numeral.
pub fn finish_decode(outcome: &Option<Vec<u64>>) -> (r: AppResult<String>)
    ensures
        result_view(r) == finish_spec(outcome_view(*outcome)),
{
    match outcome {
        Some(v) => {
            if v.len() > 0 {
                let d = decimal_chars(v[0]);
                Ok(string_of(&d))
            } else {
                Err(AppError::InvalidCiphertext)
            }
        },
        None => Err(AppError::InvalidCiphertext),
    }
}

/// The text that decoding `t` under `p` hands to the hashid decoder, if any.
pub open spec fn decoder_input_spec(p: CryptoConfig, t: Seq<char>) -> Option<Seq<char>> {
    match decode_plan_spec(p, t) {
        Ok((false, h)) => Some(h),
        _ => None,
    }
}

/// Decoding one token, given the hashid decoder's outcome `o` for the text
/// it was handed (`o` is not consulted when no text is handed over).
pub open spec fn decrypt_spec(p: CryptoConfig, t: Seq<char>, o: Option<Seq<u64>>) -> Result<Seq<char>, AppError> {
    match decode_plan_spec(p, t) {
        Err(e) => Err(e),
        Ok((true, v)) => Ok(v),
        Ok((false, _)) => finish_spec(o),
    }
}

pub open spec fn text_view(o: Option<String>) -> Option<Seq<char>> {
    match o {
        Some(s) => Some(s@),
        None => None,
    }
}

/// The text that decoding `text` under `p` hands to the hashid decoder:
/// `None` when the token is rejected or carries its numeral in the clear.
pub fn decoder_input(p: CryptoConfig, text: &str) -> (r: Option<String>)
    ensures
        text_view(r) == decoder_input_spec(p, text@),
{
    match decode_plan(p, text) {
        Ok(DecodePlan::Primitive(h)) => Some(h),
        _ => None,
    }
}

/// Decodes one token under profile `p`, given the hashid decoder's outcome
/// for the text that `decoder_input` named.
pub fn decrypt_with_outcome(p: CryptoConfig, text: &str, outcome: &Option<Vec<u64>>) -> (r: AppResult<String>)
    ensures
        result_view(r) == decrypt_spec(p, text@, outcome_view(*outcome)),
{
    match decode_plan(p, text) {
        Err(e) => Err(e),
        Ok(DecodePlan::Verbatim(v)) => Ok(v),
        Ok(DecodePlan::Primitive(_)) => finish_decode(outcome),
    }
}

} // verus!
