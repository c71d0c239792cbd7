use harsh::Harsh;
use operation_kit::batch::{batch_decoder_inputs, batch_decrypt as decrypt_batch, batch_encrypt};
use operation_kit::codec::{decode_plan, decoder_input, decrypt_with_outcome, encrypt_number, finish_decode, DecodePlan};
use operation_kit::error::AppError;
use operation_kit::profile::{
    get_current_config, init_config, init_crypto_config, profile_from_name, profile_name, set_config,
    set_use_huawei_prefix, use_huawei_prefix, ActiveConfig, CryptoConfig,
};

fn hashids(p: CryptoConfig) -> Harsh {
    let b = Harsh::builder().salt(p.salt()).length(p.min_length());
    let b = match p.alphabet() {
        Some(a) => b.alphabet(a),
        None => b,
    };
    b.build().unwrap()
}

fn decrypt(cfg: &ActiveConfig, text: &str) -> Result<String, AppError> {
    let outcome = decoder_input(cfg.current, text).and_then(|h| hashids(cfg.current).decode(&h).ok());
    decrypt_with_outcome(cfg.current, text, &outcome)
}

fn batch_decrypt(cfg: &ActiveConfig, input: &str) -> Result<String, AppError> {
    let outcomes: Vec<Option<Vec<u64>>> = batch_decoder_inputs(cfg.current, input)
        .into_iter()
        .map(|h| h.and_then(|h| hashids(cfg.current).decode(&h).ok()))
        .collect();
    decrypt_batch(cfg.current, input, &outcomes)
}

fn cfg(current: CryptoConfig, use_prefix: bool) -> ActiveConfig {
    ActiveConfig { current, use_prefix }
}

#[test]
fn test_specific_short_hash() {
    let mut config = init_config();
    set_config(&mut config, CryptoConfig::General);

    let number = 12345;
    let general_harsh = Harsh::builder()
        .salt(CryptoConfig::General.salt())
        .length(8)
        .build()
        .unwrap();

    let short_hash = general_harsh.encode(&[number]);

    let general_result = general_harsh.decode(&short_hash);
    assert!(general_result.is_ok());
    assert_eq!(general_result.unwrap()[0], number);

    set_config(&mut config, CryptoConfig::Huawei);
    let result = decrypt(&config, &short_hash);
    assert!(result.is_err());
}

#[test]
fn test_another_short_hash() {
    let short_hash = "07p59j4wqvk4ze";
    assert_eq!(short_hash.len(), 14);

    let mut config = init_config();
    set_config(&mut config, CryptoConfig::Huawei);
    let min_length = CryptoConfig::Huawei.min_length();
    assert!(short_hash.len() < min_length);

    let result = decrypt(&config, short_hash);
    assert!(result.is_err());
}

#[test]
fn test_long_hash() {
    let mut config = init_config();
    set_config(&mut config, CryptoConfig::Huawei);

    let long_hash = format!("{}abcdefghijklmnopqrstuv", "haot");
    let result = decrypt(&config, &long_hash);

    if let Err(e) = &result {
        assert_ne!(*e, AppError::LengthTooShort);
    }
}

#[test]
fn test_batch_encrypt_decrypt() {
    let config = init_config();
    let input = "12345,67890";
    let encrypted = batch_encrypt(&config, input).unwrap();
    let decrypted = batch_decrypt(&config, &encrypted).unwrap();
    assert_eq!(input, decrypted);
}

#[test]
fn configuration_starts_default_and_changes_whole() {
    let mut config = init_crypto_config();
    assert_eq!(get_current_config(&config), CryptoConfig::General);
    assert!(use_huawei_prefix(&config));
    set_config(&mut config, CryptoConfig::Huawei);
    set_use_huawei_prefix(&mut config, false);
    assert_eq!(config, cfg(CryptoConfig::Huawei, false));
    assert_eq!(profile_name(CryptoConfig::General), "通用");
    assert_eq!(profile_from_name("华为"), Ok(CryptoConfig::Huawei));
    assert_eq!(profile_from_name("other"), Err(AppError::ConfigurationError));
}

#[test]
fn profile_parameters() {
    assert_eq!(CryptoConfig::General.salt(), "Tongyong");
    assert_eq!(CryptoConfig::Huawei.salt(), "Huawei");
    assert_eq!(CryptoConfig::General.min_length(), 12);
    assert_eq!(CryptoConfig::Huawei.min_length(), 16);
    assert_eq!(CryptoConfig::General.alphabet(), None);
    assert_eq!(CryptoConfig::Huawei.alphabet(), Some("abcdefghijklmnopqrstuvwxyz1234567890"));
}

#[test]
fn round_trip_native_range_every_setting() {
    for p in [CryptoConfig::General, CryptoConfig::Huawei] {
        for prefix in [true, false] {
            let c = cfg(p, prefix);
            for n in [0u64, 1, 42, 12345, 999_999_999, u64::MAX] {
                let t = encrypt_number(&c, &n.to_string()).unwrap();
                assert_ne!(t, n.to_string());
                assert_eq!(decrypt(&c, &t).unwrap(), n.to_string());
            }
        }
    }
}

#[test]
fn encrypt_matches_hashids_encoding() {
    let t = encrypt_number(&cfg(CryptoConfig::General, true), "42").unwrap();
    assert_eq!(t, hashids(CryptoConfig::General).encode(&[42]));
    let t = encrypt_number(&cfg(CryptoConfig::Huawei, false), "42").unwrap();
    assert_eq!(t, hashids(CryptoConfig::Huawei).encode(&[42]));
    assert!(t.len() >= 16);
}

#[test]
fn round_trip_oversized() {
    let big = "123456789012345678901234567890";
    let g = cfg(CryptoConfig::General, true);
    let t = encrypt_number(&g, big).unwrap();
    assert_eq!(t, format!("x{}", big));
    assert_eq!(decrypt(&g, &t).unwrap(), big);
    let h = cfg(CryptoConfig::Huawei, true);
    let t = encrypt_number(&h, big).unwrap();
    assert_eq!(t, format!("haot{}", big));
    assert_eq!(decrypt(&h, &t).unwrap(), big);
    let t = encrypt_number(&cfg(CryptoConfig::Huawei, false), "18446744073709551616").unwrap();
    assert_eq!(t, "x18446744073709551616");
}

#[test]
fn cross_profile_rejection() {
    let g = cfg(CryptoConfig::General, true);
    let h = cfg(CryptoConfig::Huawei, true);
    let t = encrypt_number(&g, "42").unwrap();
    assert!(t.len() < 16);
    let e = decrypt(&h, &t).unwrap_err();
    assert!(e == AppError::LengthTooShort || e == AppError::InvalidCiphertext);
}

#[test]
fn bare_numeral_rejection() {
    let g = init_config();
    assert_eq!(decrypt(&g, "12345"), Err(AppError::InvalidCiphertext));
    assert_eq!(decrypt(&g, "x12345").unwrap(), "12345");
}

#[test]
fn empty_input() {
    let g = init_config();
    assert_eq!(encrypt_number(&g, ""), Err(AppError::EmptyInput));
    assert_eq!(decrypt(&g, ""), Err(AppError::EmptyInput));
}

#[test]
fn invalid_numeric_input() {
    let g = init_config();
    assert_eq!(encrypt_number(&g, "12a"), Err(AppError::InvalidNumericInput));
    assert_eq!(encrypt_number(&g, "-1"), Err(AppError::InvalidNumericInput));
}

#[test]
fn batch_delimiter_preservation() {
    for p in [CryptoConfig::General, CryptoConfig::Huawei] {
        let c = cfg(p, true);
        let enc = batch_encrypt(&c, "12345,67890").unwrap();
        assert!(enc.contains(','));
        assert_eq!(batch_decrypt(&c, &enc).unwrap(), "12345,67890");
        let enc = batch_encrypt(&c, "1\n2\n3").unwrap();
        assert_eq!(enc.matches('\n').count(), 2);
        assert!(!enc.contains(','));
        assert_eq!(batch_decrypt(&c, &enc).unwrap(), "1\n2\n3");
    }
}

#[test]
fn batch_fails_on_first_bad_item() {
    let g = init_config();
    assert_eq!(batch_encrypt(&g, "1,a,"), Err(AppError::InvalidNumericInput));
    assert_eq!(batch_encrypt(&g, " \n,"), Ok(String::new()));
    assert_eq!(batch_decrypt(&g, "12345,x1"), Err(AppError::InvalidCiphertext));
}

#[test]
fn prefix_toggle() {
    let c = cfg(CryptoConfig::Huawei, false);
    for n in ["0", "42", "12345", "18446744073709551615"] {
        let t = encrypt_number(&c, n).unwrap();
        assert!(!t.starts_with("haot"));
        assert!(t.len() >= 16);
        assert_eq!(decrypt(&c, &t).unwrap(), n);
    }
}

#[test]
fn scenario_default_profile_42() {
    let g = init_config();
    let t = encrypt_number(&g, "42").unwrap();
    assert!(t.len() >= 12);
    assert_eq!(decrypt(&g, &t).unwrap(), "42");
}

#[test]
fn scenario_secondary_profile_prefixed_42() {
    let c = cfg(CryptoConfig::Huawei, true);
    let t = encrypt_number(&c, "42").unwrap();
    assert!(t.starts_with("haot"));
    assert_eq!(decrypt(&c, &t).unwrap(), "42");
}

#[test]
fn secondary_profile_length_rules() {
    assert_eq!(decode_plan(CryptoConfig::Huawei, "abc").err(), Some(AppError::LengthTooShort));
    assert_eq!(decode_plan(CryptoConfig::Huawei, "haotabc").err(), Some(AppError::LengthTooShort));
    assert!(matches!(decode_plan(CryptoConfig::Huawei, "haot123"), Ok(DecodePlan::Verbatim(s)) if s == "123"));
    assert!(matches!(decode_plan(CryptoConfig::Huawei, "xabc"), Ok(DecodePlan::Primitive(s)) if s == "xabc"));
    assert_eq!(finish_decode(&None), Err(AppError::InvalidCiphertext));
    assert_eq!(finish_decode(&Some(vec![])), Err(AppError::InvalidCiphertext));
    assert_eq!(finish_decode(&Some(vec![7, 8])), Ok("7".to_string()));
}

#[test]
fn bare_prefix_is_not_a_numeral() {
    let h = cfg(CryptoConfig::Huawei, true);
    assert_eq!(decrypt(&h, "haot"), Err(AppError::LengthTooShort));
    assert_eq!(decode_plan(CryptoConfig::Huawei, "haot").err(), Some(AppError::LengthTooShort));
    assert_eq!(decrypt(&h, "haot0042").unwrap(), "0042");
}

#[test]
fn batch_decrypt_uses_outcomes_in_order() {
    let g = init_config();
    let input = "x7
abc
,x9";
    let inputs = batch_decoder_inputs(CryptoConfig::General, input);
    assert_eq!(inputs, vec![None, Some("abc".to_string()), None]);
    let outcomes = vec![None, Some(vec![5u64]), None];
    assert_eq!(decrypt_batch(CryptoConfig::General, input, &outcomes), Ok("7
5
9".to_string()));
    let failing = vec![None, None, None];
    assert_eq!(decrypt_batch(CryptoConfig::General, input, &failing), Err(AppError::InvalidCiphertext));
    assert_eq!(batch_decrypt(&g, "1,2"), Err(AppError::InvalidCiphertext));
    assert_eq!(batch_decrypt(&g, ""), Ok(String::new()));
}

#[test]
fn error_messages() {
    assert_eq!(AppError::EmptyInput.message(), "输入不能为空");
    assert_eq!(AppError::LengthTooShort.message(), "无效的加密字符串：长度不足");
}
