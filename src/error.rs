use vstd::prelude::*;

verus! {

/// Every failure the library reports, as a plain value.
#[derive(Debug, Clone, Copy, PartialEq, Eq, Structural)]
pub enum AppError {
    /// The input string was empty.
    EmptyInput,
    /// Text given for encoding held a character other than a decimal digit.
    InvalidNumericInput,
    /// A token failed validation, or the hashid decoder rejected it.
    InvalidCiphertext,
    /// A token was shorter than the active profile's minimum length.
    LengthTooShort,
    /// An unknown profile name.
    ConfigurationError,
    /// An unknown upload channel name.
    UnsupportedChannel,
    /// An upload was attempted with a blank access id or access key.
    MissingCredentials,
    /// Upload content held no identifier at all.
    EmptyContent,
    /// Upload content held a non-numeric line (1-based line number).
    InvalidLine(usize),
    /// The storage service did not know the access id.
    InvalidAccessId,
    /// The storage service rejected the request signature.
    SignatureMismatch,
    /// The storage service could not be reached.
    NetworkError,
    /// The storage service refused the upload for another reason.
    UploadFailed,
}

impl AppError {
    pub open spec fn spec_message(self) -> Seq<char> {
        match self {
            AppError::EmptyInput => "输入不能为空"@,
            AppError::InvalidNumericInput => "输入必须为数字"@,
            AppError::InvalidCiphertext => "无效的加密字符串"@,
            AppError::LengthTooShort => "无效的加密字符串：长度不足"@,
            AppError::ConfigurationError => "无效的配置名称，必须是 '通用' 或 '华为'"@,
            AppError::UnsupportedChannel => "不支持的渠道"@,
            AppError::MissingCredentials => "OSS Access ID或Access Key不能为空"@,
            AppError::EmptyContent => "内容不能为空"@,
            AppError::InvalidLine(_) => "存在不是有效数字ID的行"@,
            AppError::InvalidAccessId => "Access ID无效，请检查配置"@,
            AppError::SignatureMismatch => "Access Key无效，请检查配置或签名错误"@,
            AppError::NetworkError => "网络连接错误，请检查网络并确认使用了正确的OSS接入点"@,
            AppError::UploadFailed => "上传到OSS失败"@,
        }
    }

    /// A human-readable description of the error.
    pub fn message(&self) -> (r: &'static str)
        ensures
            r@ == self.spec_message(),
    {
        match self {
            AppError::EmptyInput => "输入不能为空",
            AppError::InvalidNumericInput => "输入必须为数字",
            AppError::InvalidCiphertext => "无效的加密字符串",
            AppError::LengthTooShort => "无效的加密字符串：长度不足",
            AppError::ConfigurationError => "无效的配置名称，必须是 '通用' 或 '华为'",
            AppError::UnsupportedChannel => "不支持的渠道",
            AppError::MissingCredentials => "OSS Access ID或Access Key不能为空",
            AppError::EmptyContent => "内容不能为空",
            AppError::InvalidLine(_) => "存在不是有效数字ID的行",
            AppError::InvalidAccessId => "Access ID无效，请检查配置",
            AppError::SignatureMismatch => "Access Key无效，请检查配置或签名错误",
            AppError::NetworkError => "网络连接错误，请检查网络并确认使用了正确的OSS接入点",
            AppError::UploadFailed => "上传到OSS失败",
        }
    }
}

pub type AppResult<T> = Result<T, AppError>;

} // verus!
