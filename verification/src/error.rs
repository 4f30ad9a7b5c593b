//! The library's error type.
//!
//! An `AppError` is shown to users as `{ code, message }`: `code` is a stable
//! machine-readable identifier, `message` a Traditional Chinese text made of a
//! per-kind prefix followed by the detail carried by the error.
use vstd::prelude::*;

use crate::text::push_str;

verus! {

/// Application error; each variant carries a detail text.
#[derive(Debug, Clone)]
pub enum AppError {
    Db(String),
    Validation(String),
    NotFound(String),
    DuplicateIp(String),
    UnsupportedBrand(String),
    DuplicateName(String),
    File(String),
    Parse(String),
    Crypto(String),
    Keyring(String),
    AiUnavailable(String),
    AiConfigMissing(String),
}

impl AppError {
    /// The error code of each kind.
    pub open spec fn spec_code(self) -> Seq<char> {
        match self {
            AppError::Db(_) => "DB_ERROR"@,
            AppError::Validation(_) => "VALIDATION"@,
            AppError::NotFound(_) => "NOT_FOUND"@,
            AppError::DuplicateIp(_) => "DUPLICATE_IP"@,
            AppError::UnsupportedBrand(_) => "UNSUPPORTED_BRAND"@,
            AppError::DuplicateName(_) => "DUPLICATE_NAME"@,
            AppError::File(_) => "FILE_ERROR"@,
            AppError::Parse(_) => "PARSE_ERROR"@,
            AppError::Crypto(_) => "CRYPTO_ERROR"@,
            AppError::Keyring(_) => "KEYRING_ERROR"@,
            AppError::AiUnavailable(_) => "AI_UNAVAILABLE"@,
            AppError::AiConfigMissing(_) => "AI_CONFIG_MISSING"@,
        }
    }

    /// The message prefix of each kind.
    pub open spec fn spec_prefix(self) -> Seq<char> {
        match self {
            AppError::Db(_) => "資料庫錯誤："@,
            AppError::Validation(_) => "驗證錯誤："@,
            AppError::NotFound(_) => "找不到資料："@,
            AppError::DuplicateIp(_) => "IP 位址重複："@,
            AppError::UnsupportedBrand(_) => "不支援的品牌："@,
            AppError::DuplicateName(_) => "名稱重複："@,
            AppError::File(_) => "檔案錯誤："@,
            AppError::Parse(_) => "解析錯誤："@,
            AppError::Crypto(_) => "加密錯誤："@,
            AppError::Keyring(_) => "金鑰庫錯誤："@,
            AppError::AiUnavailable(_) => "AI 服務無法使用："@,
            AppError::AiConfigMissing(_) => "AI 設定缺漏："@,
        }
    }

    /// The detail text carried by the error.
    pub open spec fn spec_detail(self) -> Seq<char> {
        match self {
            AppError::Db(s) => s@,
            AppError::Validation(s) => s@,
            AppError::NotFound(s) => s@,
            AppError::DuplicateIp(s) => s@,
            AppError::UnsupportedBrand(s) => s@,
            AppError::DuplicateName(s) => s@,
            AppError::File(s) => s@,
            AppError::Parse(s) => s@,
            AppError::Crypto(s) => s@,
            AppError::Keyring(s) => s@,
            AppError::AiUnavailable(s) => s@,
            AppError::AiConfigMissing(s) => s@,
        }
    }

    /// The error code (for the front end to tell kinds apart).
    pub fn code(&self) -> (r: &'static str)
        ensures
            r@ == self.spec_code(),
    {
        match self {
            AppError::Db(_) => "DB_ERROR",
            AppError::Validation(_) => "VALIDATION",
            AppError::NotFound(_) => "NOT_FOUND",
            AppError::DuplicateIp(_) => "DUPLICATE_IP",
            AppError::UnsupportedBrand(_) => "UNSUPPORTED_BRAND",
            AppError::DuplicateName(_) => "DUPLICATE_NAME",
            AppError::File(_) => "FILE_ERROR",
            AppError::Parse(_) => "PARSE_ERROR",
            AppError::Crypto(_) => "CRYPTO_ERROR",
            AppError::Keyring(_) => "KEYRING_ERROR",
            AppError::AiUnavailable(_) => "AI_UNAVAILABLE",
            AppError::AiConfigMissing(_) => "AI_CONFIG_MISSING",
        }
    }

    fn prefix(&self) -> (r: &'static str)
        ensures
            r@ == self.spec_prefix(),
    {
        match self {
            AppError::Db(_) => "資料庫錯誤：",
            AppError::Validation(_) => "驗證錯誤：",
            AppError::NotFound(_) => "找不到資料：",
            AppError::DuplicateIp(_) => "IP 位址重複：",
            AppError::UnsupportedBrand(_) => "不支援的品牌：",
            AppError::DuplicateName(_) => "名稱重複：",
            AppError::File(_) => "檔案錯誤：",
            AppError::Parse(_) => "解析錯誤：",
            AppError::Crypto(_) => "加密錯誤：",
            AppError::Keyring(_) => "金鑰庫錯誤：",
            AppError::AiUnavailable(_) => "AI 服務無法使用：",
            AppError::AiConfigMissing(_) => "AI 設定缺漏：",
        }
    }

    fn detail(&self) -> (r: &String)
        ensures
            r@ == self.spec_detail(),
    {
        match self {
            AppError::Db(s) => s,
            AppError::Validation(s) => s,
            AppError::NotFound(s) => s,
            AppError::DuplicateIp(s) => s,
            AppError::UnsupportedBrand(s) => s,
            AppError::DuplicateName(s) => s,
            AppError::File(s) => s,
            AppError::Parse(s) => s,
            AppError::Crypto(s) => s,
            AppError::Keyring(s) => s,
            AppError::AiUnavailable(s) => s,
            AppError::AiConfigMissing(s) => s,
        }
    }

    /// The user-facing message: the kind's prefix followed by the detail.
    pub fn message(&self) -> (r: String)
        ensures
            r@ == self.spec_prefix() + self.spec_detail(),
    {
        let mut m = String::from_str(self.prefix());
        push_str(&mut m, self.detail().as_str());
        m
    }
}

/// The kind of an error, numbered in declaration order.
pub open spec fn error_kind(e: AppError) -> int {
    match e {
        AppError::Db(_) => 0,
        AppError::Validation(_) => 1,
        AppError::NotFound(_) => 2,
        AppError::DuplicateIp(_) => 3,
        AppError::UnsupportedBrand(_) => 4,
        AppError::DuplicateName(_) => 5,
        AppError::File(_) => 6,
        AppError::Parse(_) => 7,
        AppError::Crypto(_) => 8,
        AppError::Keyring(_) => 9,
        AppError::AiUnavailable(_) => 10,
        AppError::AiConfigMissing(_) => 11,
    }
}

/// The code tells the kind of an error: two errors have the same code
/// exactly when they are of the same kind.
pub proof fn lemma_code_identifies_kind(a: AppError, b: AppError)
    ensures
        a.spec_code() == b.spec_code() <==> error_kind(a) == error_kind(b),
{
    reveal_strlit("DB_ERROR");
    reveal_strlit("VALIDATION");
    reveal_strlit("NOT_FOUND");
    reveal_strlit("DUPLICATE_IP");
    reveal_strlit("UNSUPPORTED_BRAND");
    reveal_strlit("DUPLICATE_NAME");
    reveal_strlit("FILE_ERROR");
    reveal_strlit("PARSE_ERROR");
    reveal_strlit("CRYPTO_ERROR");
    reveal_strlit("KEYRING_ERROR");
    reveal_strlit("AI_UNAVAILABLE");
    reveal_strlit("AI_CONFIG_MISSING");
    if a.spec_code() == b.spec_code() && error_kind(a) != error_kind(b) {
        let x = a.spec_code();
        let y = b.spec_code();
        assert(x.len() != y.len() || x[0] != y[0] || x[1] != y[1] || x[2] != y[2] || x[3]
            != y[3] || x[4] != y[4] || x[5] != y[5] || x[6] != y[6] || x[7] != y[7] || x[8]
            != y[8]);
    }
}

} // verus!
