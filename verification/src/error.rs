//! Error types of the tracker, one enum per component.
//!
//! A variant that wraps a failure of the operating system or of a storage
//! backend carries that failure's description as text. Each type renders
//! itself for the operator with `message`.

use crate::text::{push_signed_decimal, signed_decimal};
use vstd::prelude::*;
use vstd::string::*;

verus! {

/// `label` followed by `detail`.
fn labelled(label: &str, detail: &str) -> (text: String)
    ensures
        text@ == label@ + detail@,
{
    String::from_str(label).concat(detail)
}

/// Invalid or unreadable configuration.
#[derive(Debug)]
pub enum ConfigError {
    IoError(String),
    ParseError(String),
    DirectoryCreationError(String),
}

impl ConfigError {
    pub open spec fn spec_message(self) -> Seq<char> {
        match self {
            ConfigError::IoError(e) => "IOエラー: "@ + e@,
            ConfigError::ParseError(e) => "TOML解析エラー: "@ + e@,
            ConfigError::DirectoryCreationError(e) => "ディレクトリ作成エラー: "@ + e@,
        }
    }

    /// The text shown to the operator for this error.
    pub fn message(&self) -> (text: String)
        ensures
            text@ == self.spec_message(),
    {
        match self {
            ConfigError::IoError(e) => labelled("IOエラー: ", e.as_str()),
            ConfigError::ParseError(e) => labelled("TOML解析エラー: ", e.as_str()),
            ConfigError::DirectoryCreationError(e) => labelled(
                "ディレクトリ作成エラー: ",
                e.as_str(),
            ),
        }
    }
}

/// Failure of the event store.
#[derive(Debug)]
pub enum DatabaseError {
    SqliteError(String),
    IoError(String),
    MigrationError(String),
    /// No stored event has the given id.
    RowNotFound(i64),
    /// Every id has been handed out; the store takes no further event.
    IdSpaceExhausted,
    /// Recognised text was to be stored with an event that has no image.
    TextWithoutImage,
}

impl DatabaseError {
    pub open spec fn spec_message(self) -> Seq<char> {
        match self {
            DatabaseError::SqliteError(e) => "SQLiteエラー: "@ + e@,
            DatabaseError::IoError(e) => "IOエラー: "@ + e@,
            DatabaseError::MigrationError(e) => "マイグレーションエラー: "@ + e@,
            DatabaseError::RowNotFound(id) => "行が見つかりません: "@ + signed_decimal(id as int),
            DatabaseError::IdSpaceExhausted => "IDの空きがありません"@,
            DatabaseError::TextWithoutImage => "画像のないイベントにテキストは保存できません"@,
        }
    }

    /// The text shown to the operator for this error.
    pub fn message(&self) -> (text: String)
        ensures
            text@ == self.spec_message(),
    {
        match self {
            DatabaseError::SqliteError(e) => labelled("SQLiteエラー: ", e.as_str()),
            DatabaseError::IoError(e) => labelled("IOエラー: ", e.as_str()),
            DatabaseError::MigrationError(e) => labelled("マイグレーションエラー: ", e.as_str()),
            DatabaseError::RowNotFound(id) => {
                let mut text = String::from_str("行が見つかりません: ");
                push_signed_decimal(&mut text, *id);
                text
            },
            DatabaseError::IdSpaceExhausted => String::from_str("IDの空きがありません"),
            DatabaseError::TextWithoutImage => String::from_str(
                "画像のないイベントにテキストは保存できません",
            ),
        }
    }
}

/// Failure of a foreground-application or window-title query.
#[derive(Debug)]
pub enum MetadataError {
    CommandFailed(String),
    Utf8Error(String),
}

impl MetadataError {
    pub open spec fn spec_message(self) -> Seq<char> {
        match self {
            MetadataError::CommandFailed(e) => "コマンド実行失敗: "@ + e@,
            MetadataError::Utf8Error(e) => "UTF-8変換エラー: "@ + e@,
        }
    }

    /// The text shown to the operator for this error.
    pub fn message(&self) -> (text: String)
        ensures
            text@ == self.spec_message(),
    {
        match self {
            MetadataError::CommandFailed(e) => labelled("コマンド実行失敗: ", e.as_str()),
            MetadataError::Utf8Error(e) => labelled("UTF-8変換エラー: ", e.as_str()),
        }
    }
}

/// Failure to take or store a screenshot.
#[derive(Debug)]
pub enum ImageStoreError {
    CommandFailed(String),
    DirectoryCreationFailed(String),
    CaptureCommandFailed(String),
}

impl ImageStoreError {
    pub open spec fn spec_message(self) -> Seq<char> {
        match self {
            ImageStoreError::CommandFailed(e) => "コマンド実行失敗: "@ + e@,
            ImageStoreError::DirectoryCreationFailed(e) => "ディレクトリ作成失敗: "@ + e@,
            ImageStoreError::CaptureCommandFailed(e) => "キャプチャコマンド失敗: "@ + e@,
        }
    }

    /// The text shown to the operator for this error.
    pub fn message(&self) -> (text: String)
        ensures
            text@ == self.spec_message(),
    {
        match self {
            ImageStoreError::CommandFailed(e) => labelled("コマンド実行失敗: ", e.as_str()),
            ImageStoreError::DirectoryCreationFailed(e) => labelled(
                "ディレクトリ作成失敗: ",
                e.as_str(),
            ),
            ImageStoreError::CaptureCommandFailed(e) => labelled(
                "キャプチャコマンド失敗: ",
                e.as_str(),
            ),
        }
    }
}

/// Failure of the capture loop or of one of its cycles.
#[derive(Debug)]
pub enum CaptureError {
    DatabaseError(DatabaseError),
    ConfigError(ConfigError),
    InitializationError(String),
    SignalHandlerError(String),
}

impl CaptureError {
    pub open spec fn spec_message(self) -> Seq<char> {
        match self {
            CaptureError::DatabaseError(e) => "データベースエラー: "@ + e.spec_message(),
            CaptureError::ConfigError(e) => "設定エラー: "@ + e.spec_message(),
            CaptureError::InitializationError(e) => "初期化エラー: "@ + e@,
            CaptureError::SignalHandlerError(e) => "シグナルハンドラーエラー: "@ + e@,
        }
    }

    /// The text shown to the operator for this error.
    pub fn message(&self) -> (text: String)
        ensures
            text@ == self.spec_message(),
    {
        match self {
            CaptureError::DatabaseError(e) => labelled("データベースエラー: ", e.message().as_str()),
            CaptureError::ConfigError(e) => labelled("設定エラー: ", e.message().as_str()),
            CaptureError::InitializationError(e) => labelled("初期化エラー: ", e.as_str()),
            CaptureError::SignalHandlerError(e) => labelled(
                "シグナルハンドラーエラー: ",
                e.as_str(),
            ),
        }
    }
}

/// Failure to produce a report.
#[derive(Debug)]
pub enum ReportError {
    DatabaseError(DatabaseError),
    InvalidDate(String),
    /// The estimated duration of an application does not fit in 64 bits.
    DurationOverflow,
}

impl ReportError {
    pub open spec fn spec_message(self) -> Seq<char> {
        match self {
            ReportError::DatabaseError(e) => "データベースエラー: "@ + e.spec_message(),
            ReportError::InvalidDate(e) => "無効な日付: "@ + e@,
            ReportError::DurationOverflow => "推定時間が大きすぎます"@,
        }
    }

    /// The text shown to the operator for this error.
    pub fn message(&self) -> (text: String)
        ensures
            text@ == self.spec_message(),
    {
        match self {
            ReportError::DatabaseError(e) => labelled("データベースエラー: ", e.message().as_str()),
            ReportError::InvalidDate(e) => labelled("無効な日付: ", e.as_str()),
            ReportError::DurationOverflow => String::from_str("推定時間が大きすぎます"),
        }
    }
}

/// Failure of text recognition on an image.
#[derive(Debug)]
pub enum OcrError {
    ImageNotFound(String),
    ExecutionFailed(String),
}

impl OcrError {
    pub open spec fn spec_message(self) -> Seq<char> {
        match self {
            OcrError::ImageNotFound(e) => "画像が見つかりません: "@ + e@,
            OcrError::ExecutionFailed(e) => "OCR実行失敗: "@ + e@,
        }
    }

    /// The text shown to the operator for this error.
    pub fn message(&self) -> (text: String)
        ensures
            text@ == self.spec_message(),
    {
        match self {
            OcrError::ImageNotFound(e) => labelled("画像が見つかりません: ", e.as_str()),
            OcrError::ExecutionFailed(e) => labelled("OCR実行失敗: ", e.as_str()),
        }
    }
}

impl From<DatabaseError> for CaptureError {
    fn from(e: DatabaseError) -> (wrapped: CaptureError) {
        CaptureError::DatabaseError(e)
    }
}

impl vstd::std_specs::convert::FromSpecImpl<DatabaseError> for CaptureError {
    open spec fn obeys_from_spec() -> bool {
        true
    }

    open spec fn from_spec(e: DatabaseError) -> CaptureError {
        CaptureError::DatabaseError(e)
    }
}

impl From<ConfigError> for CaptureError {
    fn from(e: ConfigError) -> (wrapped: CaptureError) {
        CaptureError::ConfigError(e)
    }
}

impl vstd::std_specs::convert::FromSpecImpl<ConfigError> for CaptureError {
    open spec fn obeys_from_spec() -> bool {
        true
    }

    open spec fn from_spec(e: ConfigError) -> CaptureError {
        CaptureError::ConfigError(e)
    }
}

impl From<DatabaseError> for ReportError {
    fn from(e: DatabaseError) -> (wrapped: ReportError) {
        ReportError::DatabaseError(e)
    }
}

impl vstd::std_specs::convert::FromSpecImpl<DatabaseError> for ReportError {
    open spec fn obeys_from_spec() -> bool {
        true
    }

    open spec fn from_spec(e: DatabaseError) -> ReportError {
        ReportError::DatabaseError(e)
    }
}

} // verus!
