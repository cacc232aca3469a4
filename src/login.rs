//! Bodies of the QR-code login exchange, which turns a scanned code into a refresh token.
use vstd::prelude::*;

use crate::text::chars_of;

verus! {

#[derive(Debug, Clone)]
pub struct QrCodeRequest {
    pub client_id: Option<String>,
    pub client_secret: Option<String>,
    pub scopes: Vec<String>,
    pub width: Option<u32>,
    pub height: Option<u32>,
}

#[derive(Debug, Clone)]
pub struct QrCodeResponse {
    pub qr_code_url: String,
    pub sid: String,
}

/// Where a QR-code login stands.
#[derive(Debug, Clone, Copy, PartialEq, Eq, Structural)]
pub enum QrCodeStatus {
    WaitLogin,
    ScanSuccess,
    LoginSuccess,
    QrCodeExpired,
}

/// The status that a status word names; any unknown word means the code expired.
pub open spec fn status_of(s: Seq<char>) -> QrCodeStatus {
    if s == "WaitLogin"@ {
        QrCodeStatus::WaitLogin
    } else if s == "ScanSuccess"@ {
        QrCodeStatus::ScanSuccess
    } else if s == "LoginSuccess"@ {
        QrCodeStatus::LoginSuccess
    } else {
        QrCodeStatus::QrCodeExpired
    }
}

fn same_chars(a: &Vec<char>, b: &Vec<char>) -> (r: bool)
    ensures
        r == (a@ == b@),
{
    if a.len() != b.len() {
        return false;
    }
    let mut i: usize = 0;
    while i < a.len()
        invariant
            a@.len() == b@.len(),
            i <= a@.len(),
            forall|j: int| 0 <= j < i ==> a@[j] == b@[j],
        decreases a.len() - i,
    {
        if a[i] != b[i] {
            return false;
        }
        i = i + 1;
    }
    assert(a@ =~= b@);
    true
}

impl QrCodeStatus {
    /// Reads a status word.
    pub fn parse(s: &str) -> (r: Self)
        ensures
            r == status_of(s@),
    {
        let c = chars_of(s);
        if same_chars(&c, &chars_of("WaitLogin")) {
            QrCodeStatus::WaitLogin
        } else if same_chars(&c, &chars_of("ScanSuccess")) {
            QrCodeStatus::ScanSuccess
        } else if same_chars(&c, &chars_of("LoginSuccess")) {
            QrCodeStatus::LoginSuccess
        } else {
            QrCodeStatus::QrCodeExpired
        }
    }
}

impl std::str::FromStr for QrCodeStatus {
    type Err = String;

    fn from_str(s: &str) -> Result<Self, String> {
        Ok(QrCodeStatus::parse(s))
    }
}

#[derive(Debug, Clone)]
pub struct QrCodeStatusResponse {
    pub status: QrCodeStatus,
    pub auth_code: Option<String>,
}

impl QrCodeStatusResponse {
    pub fn is_success(&self) -> (r: bool)
        ensures
            r == (self.status == QrCodeStatus::LoginSuccess),
    {
        self.status == QrCodeStatus::LoginSuccess
    }
}

#[derive(Debug, Clone)]
pub struct AuthorizationCodeRequest {
    pub client_id: Option<String>,
    pub client_secret: Option<String>,
    pub grant_type: String,
    pub code: String,
}

#[derive(Debug, Clone)]
pub struct AuthorizationCodeResponse {
    pub refresh_token: String,
}

} // verus!
