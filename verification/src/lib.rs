//! Client-side core of a wide-column structured-storage service: the
//! self-describing binary row codec with running checksums, the extended
//! row-key model with sentinel boundaries and its partial order, the signed
//! request transport's pure parts, the concurrency limiter and the retry
//! strategy.

pub mod crc8;
pub mod endpoint;
pub mod credential;
pub mod client_options;
pub mod plainbuffer;
pub mod protocol;
pub mod error;
pub mod limiter;
pub mod retry;
pub mod strings;
pub mod transport;
pub mod types;

pub use endpoint::Endpoint;
pub use credential::Credential;
pub use client_options::ClientOptions;
pub use error::{Error, ErrorCode};
pub use limiter::Concurrency;
pub use retry::{RetryCategory, DeadlineRetryStrategy};
pub use types::{
    Name, DateTime, SettableValue, Action, KeyOrder, RowKey, ExtendedRowKey, RowKeyColumn,
    ExtendedRowKeyColumn, RowKeyValue, ExtendedRowKeyValue, ValueModel, ColumnModel, AttrValue,
    Attribute, AttrTimestamp, AttrValueModel, AttrModel, Row, RowModel, TableMeta,
    PkeyColumnSchema, PkeyValueType, PkeyIntTypeOption, TableOptions, CapacityUnit, Condition,
    RowExistenceExpectation, InReturn, ListTableRequest, ListTableResponse, CreateTableRequest,
    CreateTableResponse, DeleteTableRequest, DeleteTableResponse, PutRowRequest, PutRowResponse,
    GetRangeRequest, GetRangeResponse, ScanStep,
};
pub use types::{Request, BaseResponse};
