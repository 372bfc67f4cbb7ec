//! The error taxonomy of the adapter.

use vstd::prelude::*;
use vstd::string::*;
use crate::json::{render_field_list, render_fields, Json};
use crate::text::{debug_text, debug_text_of, signed_decimal, signed_decimal_string};

verus! {

/// The exchange's structured error body, sent with HTTP 400.
#[derive(Debug)]
pub struct BinanceContentError {
    pub code: i16,
    pub msg: String,
    /// Every other field of the body, in the decoded order, values kept as
    /// they were.
    pub extra: Vec<(String, Json)>,
}

/// Every way an adapter call can fail.
#[derive(Debug)]
pub enum GateErr {
    /// A header value the transport refused; holds its description.
    ReqwestHeaderError(String),
    /// A network or transport failure; holds its description.
    ReqwestError(String),
    /// The exchange's structured error body.
    BinanceContentError(BinanceContentError),
    /// A body that is not JSON or lacks an expected field; holds a description.
    SerdeJsonError(String),
    BinanceServerErr,
    BinanceUnavailable,
    BinanceUnauthorized,
    /// A status the classification does not know; holds its description.
    BinanceOtherErr(String),
    GetTimestampErr,
    /// A response of an unexpected shape.
    CustomErr(String),
}

broadcast use vstd::string::group_string_axioms;

/// A content error as text: `(code) "msg"`, a line break, then every extra
/// field as `{"name": value, ...}`.
pub open spec fn content_error_text(c: BinanceContentError) -> Seq<char> {
    "("@ + signed_decimal(c.code as int) + ") "@ + debug_text_of(c.msg@) + "\n{"@ + render_fields(c.extra@) + "}"@
}

/// The human-readable description of an error.
pub open spec fn describe(e: GateErr) -> Seq<char> {
    match e {
        GateErr::ReqwestHeaderError(m) => m@,
        GateErr::ReqwestError(m) => m@,
        GateErr::BinanceContentError(c) => content_error_text(c),
        GateErr::SerdeJsonError(m) => m@,
        GateErr::BinanceServerErr => "Binance Server Error"@,
        GateErr::BinanceUnavailable => "binance unavailable"@,
        GateErr::BinanceUnauthorized => "binance unauthorized"@,
        GateErr::BinanceOtherErr(m) => "`"@ + m@ + "`"@,
        GateErr::GetTimestampErr => "fail to get Timestamp"@,
        GateErr::CustomErr(m) => "`"@ + m@ + "`"@,
    }
}

impl GateErr {
    /// The human-readable description of the error.
    pub fn description(&self) -> (r: String)
        ensures
            r@ == describe(*self),
    {
        match self {
            GateErr::ReqwestHeaderError(m) => m.clone(),
            GateErr::ReqwestError(m) => m.clone(),
            GateErr::BinanceContentError(c) => {
                let mut r = String::from_str("(");
                let code = signed_decimal_string(c.code as i64);
                r.append(code.as_str());
                r.append(") ");
                let msg = debug_text(c.msg.as_str());
                r.append(msg.as_str());
                r.append("\n{");
                let fields = render_field_list(&c.extra);
                r.append(fields.as_str());
                r.append("}");
                assert(r@ =~= describe(*self));
                r
            },
            GateErr::SerdeJsonError(m) => m.clone(),
            GateErr::BinanceServerErr => String::from_str("Binance Server Error"),
            GateErr::BinanceUnavailable => String::from_str("binance unavailable"),
            GateErr::BinanceUnauthorized => String::from_str("binance unauthorized"),
            GateErr::BinanceOtherErr(m) => {
                let mut r = String::from_str("`");
                r.append(m.as_str());
                r.append("`");
                r
            },
            GateErr::GetTimestampErr => String::from_str("fail to get Timestamp"),
            GateErr::CustomErr(m) => {
                let mut r = String::from_str("`");
                r.append(m.as_str());
                r.append("`");
                r
            },
        }
    }
}

} // verus!
