use hmac::Mac;
use operation_kit::error::AppError;
use operation_kit::oss::{validate_content, Channel};
use operation_kit::upload::{classify_upload_failure, md5_base64, object_path, prepare_upload, string_to_sign, upload_success_message};

#[test]
fn test_validate_content_valid() {
    let content = "123\n456\n789";
    assert!(validate_content(content).is_ok());
}

#[test]
fn test_validate_content_invalid() {
    let content = "123\nabc\n789";
    assert!(validate_content(content).is_err());
}

#[test]
fn validate_content_names_the_first_bad_line() {
    assert_eq!(validate_content("1\n\n x1 \n2y"), Err(AppError::InvalidLine(3)));
    assert_eq!(validate_content("  \n \t"), Err(AppError::EmptyContent));
    assert_eq!(validate_content(" 12 \r\n\n34\n"), Ok(()));
}

#[test]
fn test_channel_conversion() {
    assert!(matches!(Channel::from_str("vivo").unwrap(), Channel::Vivo));
    assert!(matches!(Channel::from_str("OPPO").unwrap(), Channel::Oppo));
    assert!(Channel::from_str("invalid").is_err());

    assert_eq!(Channel::Vivo.as_str(), "vivo");
    assert_eq!(Channel::Oppo.as_str(), "oppo");
}

#[test]
fn channel_names_ignore_case() {
    assert_eq!(Channel::from_str("XiaoMi"), Ok(Channel::Xiaomi));
    assert_eq!(Channel::from_str("HUAWEI"), Ok(Channel::Huawei));
    assert_eq!(Channel::from_str("huawei "), Err(AppError::UnsupportedChannel));
}

#[test]
fn md5_base64_of_empty_input() {
    assert_eq!(md5_base64(b""), "1B2M2Y8AsgTpgAmY7PhCfg==");
    assert_eq!(md5_base64(b"abc"), "kAFQmDzST7DWlj99KOF/cg==");
}

#[test]
fn object_path_and_string_to_sign() {
    assert_eq!(object_path(Channel::Oppo), "hive2/dim/tmp_oppo_ids/oppo.txt");
    assert_eq!(
        string_to_sign("MD5", "Mon, 01 Jan 2024 00:00:00 GMT", Channel::Vivo),
        "PUT\nMD5\ntext/plain\nMon, 01 Jan 2024 00:00:00 GMT\n/Bucket/hive2/dim/tmp_vivo_ids/vivo.txt"
    );
    assert_eq!(
        upload_success_message(Channel::Xiaomi),
        "成功上传到 OSS 路径: Bucket.endpoint/hive2/dim/tmp_xiaomi_ids/xiaomi.txt"
    );
}

#[test]
fn prepare_upload_signs_the_request() {
    let date = "Mon, 01 Jan 2024 00:00:00 GMT";
    let req = prepare_upload("id", "key", "1\n2", Channel::Huawei, date).unwrap();
    assert_eq!(req.host, "Bucket.endpoint");
    assert_eq!(req.url, "https://Bucket.endpoint/hive2/dim/tmp_huawei_ids/huawei.txt");
    assert_eq!(req.content_length, 3);
    assert_eq!(req.content_type, "text/plain");
    assert_eq!(req.content_md5, md5_base64(b"1\n2"));
    let sts = string_to_sign(&req.content_md5, date, Channel::Huawei);
    let mut mac = hmac::Hmac::<sha1::Sha1>::new_from_slice(b"key").unwrap();
    mac.update(sts.as_bytes());
    let sig = base64::Engine::encode(&base64::engine::general_purpose::STANDARD, mac.finalize().into_bytes());
    assert_eq!(req.authorization, format!("OSS id:{}", sig));
    assert_ne!(sig, sts);
}

#[test]
fn prepare_upload_errors() {
    let date = "d";
    assert_eq!(prepare_upload(" ", "k", "1", Channel::Vivo, date).err(), Some(AppError::MissingCredentials));
    assert_eq!(prepare_upload("i", "", "1", Channel::Vivo, date).err(), Some(AppError::MissingCredentials));
    assert_eq!(prepare_upload("i", "k", "\n", Channel::Vivo, date).err(), Some(AppError::EmptyContent));
    assert_eq!(prepare_upload("i", "k", "1\nx", Channel::Vivo, date).err(), Some(AppError::InvalidLine(2)));
}

#[test]
fn upload_failures_are_classified() {
    assert_eq!(classify_upload_failure("<Code>InvalidAccessKeyId</Code>"), AppError::InvalidAccessId);
    assert_eq!(classify_upload_failure("<Code>SignatureDoesNotMatch</Code>"), AppError::SignatureMismatch);
    assert_eq!(classify_upload_failure("Connection refused"), AppError::NetworkError);
    assert_eq!(classify_upload_failure("NetworkingError x"), AppError::NetworkError);
    assert_eq!(classify_upload_failure("AccessDenied"), AppError::UploadFailed);
}
