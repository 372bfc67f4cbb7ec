//! The exchange adapter: request parameters, reply classification and
//! decoding of replies into entities.

use vstd::prelude::*;
use vstd::string::*;
use vstd::utf8::encode_utf8;
use crate::entities::{Balance, BalancesReply, OrderReply, Price, PricesReply};
use crate::error::{BinanceContentError, GateErr};
use crate::text::{debug_text, debug_text_of, decimal, decimal_string, key_compare};
use crate::json::{get_field, text_field, u64_field_or_zero, Json};
use crate::params::{query_of, ParameterSet};
use crate::signer::{build_request, build_signed_request, signed_map};

verus! {

broadcast use vstd::string::group_string_axioms;

/// A balance entry: an object with text fields `asset`, `free`, `locked`.
pub open spec fn balance_ok(item: Json) -> bool {
    text_field(item, "asset"@) is Some && text_field(item, "free"@) is Some && text_field(item, "locked"@) is Some
}

pub open spec fn balance_matches(b: Balance, item: Json) -> bool {
    text_field(item, "asset"@) == Some(b.asset@) && text_field(item, "free"@) == Some(b.free@)
        && text_field(item, "locked"@) == Some(b.locked@)
}

/// The `balances` array of an account document.
pub open spec fn balances_array(doc: Json) -> Option<Seq<Json>> {
    match get_field(doc, "balances"@) {
        Some(Json::Array(items)) => Some(items@),
        _ => None,
    }
}

/// Decodes an account document into its balances, in the order given.
pub fn parse_account(doc: &Json) -> (r: Result<BalancesReply, GateErr>)
    ensures
        balances_array(*doc) is None ==> (r matches Err(GateErr::CustomErr(m)) && m@
            == "binance no balance field"@),
        balances_array(*doc) matches Some(items) ==> ((r is Ok) <==> (forall|i: int|
            0 <= i < items.len() ==> balance_ok(#[trigger] items[i]))),
        balances_array(*doc) matches Some(items) ==> (r matches Ok(reply) ==> reply.balances@.len()
            == items.len() && forall|i: int|
            0 <= i < items.len() ==> balance_matches(#[trigger] reply.balances@[i], items[i])),
        balances_array(*doc) is Some ==> (r is Err ==> r matches Err(GateErr::SerdeJsonError(_))),
{
    let balances_key = String::from_str("balances");
    let items = match doc.get(&balances_key) {
        Some(Json::Array(items)) => items,
        _ => {
            return Err(GateErr::CustomErr(String::from_str("binance no balance field")));
        },
    };
    let asset_key = String::from_str("asset");
    let free_key = String::from_str("free");
    let locked_key = String::from_str("locked");
    let mut balances: Vec<Balance> = Vec::new();
    let n = items.len();
    let mut i: usize = 0;
    while i < n
        invariant
            n == items@.len(),
            i <= n,
            balances_array(*doc) == Some(items@),
            asset_key@ == "asset"@,
            free_key@ == "free"@,
            locked_key@ == "locked"@,
            balances@.len() == i,
            forall|j: int| 0 <= j < i ==> balance_ok(#[trigger] items@[j]),
            forall|j: int| 0 <= j < i ==> balance_matches(#[trigger] balances@[j], items@[j]),
        decreases n - i,
    {
        let item = &items[i];
        let asset = item.text(&asset_key);
        let free = item.text(&free_key);
        let locked = item.text(&locked_key);
        match (asset, free, locked) {
            (Some(asset), Some(free), Some(locked)) => {
                balances.push(Balance { asset, free, locked });
            },
            _ => {
                proof {
                    let its = balances_array(*doc).unwrap();
                    assert(its[i as int] == items@[i as int]);
                    assert(!balance_ok(its[i as int]));
                }
                return Err(GateErr::SerdeJsonError(String::from_str("balance entry lacks asset, free or locked text")));
            },
        }
        i = i + 1;
    }
    Ok(BalancesReply { balances })
}

/// A price entry: an object with text fields `symbol` and `price`.
pub open spec fn price_ok(item: Json) -> bool {
    text_field(item, "symbol"@) is Some && text_field(item, "price"@) is Some
}

pub open spec fn price_matches(p: Price, item: Json) -> bool {
    text_field(item, "symbol"@) == Some(p.symbol@) && text_field(item, "price"@) == Some(p.price@)
}

/// Decodes a price list document, an array of entries, in the order given.
pub fn parse_prices(doc: &Json) -> (r: Result<PricesReply, GateErr>)
    ensures
        !(*doc is Array) ==> (r matches Err(GateErr::CustomErr(m)) && m@
            == "binance response is not as expected"@),
        *doc matches Json::Array(items) ==> ((r is Ok) <==> (forall|i: int|
            0 <= i < items@.len() ==> price_ok(#[trigger] items@[i]))),
        *doc matches Json::Array(items) ==> (r matches Ok(reply) ==> reply.prices@.len()
            == items@.len() && forall|i: int|
            0 <= i < items@.len() ==> price_matches(#[trigger] reply.prices@[i], items@[i])),
        *doc is Array ==> (r is Err ==> r matches Err(GateErr::SerdeJsonError(_))),
{
    let items = match doc {
        Json::Array(items) => items,
        _ => {
            return Err(GateErr::CustomErr(String::from_str("binance response is not as expected")));
        },
    };
    let symbol_key = String::from_str("symbol");
    let price_key = String::from_str("price");
    let mut prices: Vec<Price> = Vec::new();
    let n = items.len();
    let mut i: usize = 0;
    while i < n
        invariant
            n == items@.len(),
            i <= n,
            *doc == Json::Array(*items),
            symbol_key@ == "symbol"@,
            price_key@ == "price"@,
            prices@.len() == i,
            forall|j: int| 0 <= j < i ==> price_ok(#[trigger] items@[j]),
            forall|j: int| 0 <= j < i ==> price_matches(#[trigger] prices@[j], items@[j]),
        decreases n - i,
    {
        let item = &items[i];
        match (item.text(&symbol_key), item.text(&price_key)) {
            (Some(symbol), Some(price)) => {
                prices.push(Price { symbol, price });
            },
            _ => {
                proof {
                    let its = doc->Array_0@;
                    assert(its[i as int] == items@[i as int]);
                    assert(!price_ok(its[i as int]));
                }
                return Err(GateErr::SerdeJsonError(String::from_str("price entry lacks symbol or price text")));
            },
        }
        i = i + 1;
    }
    Ok(PricesReply { prices })
}

/// An order document: an object whose descriptive fields are text.
pub open spec fn order_ok(doc: Json) -> bool {
    &&& text_field(doc, "price"@) is Some
    &&& text_field(doc, "origQty"@) is Some
    &&& text_field(doc, "executedQty"@) is Some
    &&& text_field(doc, "status"@) is Some
    &&& text_field(doc, "timeInForce"@) is Some
    &&& text_field(doc, "type"@) is Some
    &&& text_field(doc, "side"@) is Some
}

/// The order fields as the document gives them; a timestamp that is missing
/// or not a non-negative integer is 0.
pub open spec fn order_matches(o: OrderReply, doc: Json) -> bool {
    &&& text_field(doc, "price"@) == Some(o.price@)
    &&& text_field(doc, "origQty"@) == Some(o.original_quantity@)
    &&& text_field(doc, "executedQty"@) == Some(o.executed_quantity@)
    &&& text_field(doc, "status"@) == Some(o.order_status@)
    &&& text_field(doc, "timeInForce"@) == Some(o.time_in_force@)
    &&& text_field(doc, "type"@) == Some(o.order_type@)
    &&& text_field(doc, "side"@) == Some(o.side@)
    &&& o.created_timestamp == u64_field_or_zero(doc, "time"@)
    &&& o.updated_timestamp == u64_field_or_zero(doc, "updateTime"@)
}

/// Decodes an order document.
pub fn parse_order(doc: &Json) -> (r: Result<OrderReply, GateErr>)
    ensures
        (r is Ok) == order_ok(*doc),
        r matches Ok(o) ==> order_matches(o, *doc),
        order_ok(*doc) && get_field(*doc, "time"@) is None && get_field(*doc, "updateTime"@) is None ==> (r matches Ok(
            o,
        ) && o.created_timestamp == 0 && o.updated_timestamp == 0),
        r is Err ==> r matches Err(GateErr::SerdeJsonError(_)),
{
    let price = doc.text(&String::from_str("price"));
    let original_quantity = doc.text(&String::from_str("origQty"));
    let executed_quantity = doc.text(&String::from_str("executedQty"));
    let order_status = doc.text(&String::from_str("status"));
    let time_in_force = doc.text(&String::from_str("timeInForce"));
    let order_type = doc.text(&String::from_str("type"));
    let side = doc.text(&String::from_str("side"));
    let created_timestamp = doc.u64_or_zero(&String::from_str("time"));
    let updated_timestamp = doc.u64_or_zero(&String::from_str("updateTime"));
    match (price, original_quantity, executed_quantity, order_status, time_in_force, order_type, side) {
        (Some(price), Some(original_quantity), Some(executed_quantity), Some(order_status), Some(time_in_force), Some(order_type), Some(side)) => {
            Ok(OrderReply {
                price,
                original_quantity,
                executed_quantity,
                order_status,
                time_in_force,
                order_type,
                side,
                created_timestamp,
                updated_timestamp,
            })
        },
        _ => Err(GateErr::SerdeJsonError(String::from_str("order lacks a text field"))),
    }
}

/// An error code: an integer that fits `i16`.
pub open spec fn code_value(v: Json) -> Option<i16> {
    match v {
        Json::UInt(n) => if n <= 32767 {
            Some(n as i16)
        } else {
            None
        },
        Json::Int(n) => if -32768 <= n && n <= 32767 {
            Some(n as i16)
        } else {
            None
        },
        _ => None,
    }
}

/// The `code` field of an error body, when it is an `i16`.
pub open spec fn content_code(doc: Json) -> Option<i16> {
    match get_field(doc, "code"@) {
        Some(v) => code_value(v),
        None => None,
    }
}

/// A field of an error body other than `code` and `msg`.
pub open spec fn is_extra(name: Seq<char>) -> bool {
    name != "code"@ && name != "msg"@
}

/// The fields other than `code` and `msg`, in order.
pub open spec fn extra_fields(fields: Seq<(String, Json)>) -> Seq<(String, Json)>
    decreases fields.len(),
{
    if fields.len() == 0 {
        Seq::empty()
    } else {
        let rest = extra_fields(fields.drop_last());
        if is_extra(fields.last().0@) {
            rest.push(fields.last())
        } else {
            rest
        }
    }
}

/// An error body: an object with an `i16` code and a text message.
pub open spec fn content_error_ok(doc: Json) -> bool {
    doc is Object && content_code(doc) is Some && text_field(doc, "msg"@) is Some
}

/// `e` holds the body's code and message, and every other field unchanged.
pub open spec fn content_error_matches(e: BinanceContentError, doc: Json) -> bool {
    &&& doc is Object
    &&& content_code(doc) == Some(e.code)
    &&& text_field(doc, "msg"@) == Some(e.msg@)
    &&& e.extra@ == extra_fields(doc->Object_0@)
}

/// Decodes the exchange's error body, keeping every other field as it came.
pub fn content_error_of(doc: Json) -> (r: Result<BinanceContentError, GateErr>)
    ensures
        (r is Ok) == content_error_ok(doc),
        r matches Ok(e) ==> content_error_matches(e, doc),
        r is Err ==> r matches Err(GateErr::SerdeJsonError(_)),
{
    let code_key = String::from_str("code");
    let msg_key = String::from_str("msg");
    let code: Option<i16> = match doc.get(&code_key) {
        Some(Json::UInt(n)) => if *n <= 32767 {
            Some(*n as i16)
        } else {
            None
        },
        Some(Json::Int(n)) => if -32768 <= *n && *n <= 32767 {
            Some(*n as i16)
        } else {
            None
        },
        _ => None,
    };
    let msg = doc.text(&msg_key);
    let ghost whole = doc;
    match (doc, code, msg) {
        (Json::Object(fields), Some(code), Some(msg)) => {
            let ghost all = fields@;
            let mut rest = fields;
            let mut extra: Vec<(String, Json)> = Vec::new();
            let ghost mut k: int = 0;
            assert(all.skip(0) =~= all);
            assert(all.take(0) =~= Seq::<(String, Json)>::empty());
            while rest.len() > 0
                invariant
                    0 <= k <= all.len(),
                    rest@ == all.skip(k),
                    extra@ == extra_fields(all.take(k)),
                    code_key@ == "code"@,
                    msg_key@ == "msg"@,
                decreases rest@.len(),
            {
                let (name, value) = rest.remove(0);
                proof {
                    assert(all.take(k + 1).drop_last() =~= all.take(k));
                    assert(all.take(k + 1).last() == all[k]);
                    assert(rest@ =~= all.skip(k + 1));
                }
                if key_compare(&name, &code_key) != 0 && key_compare(&name, &msg_key) != 0 {
                    extra.push((name, value));
                }
                proof {
                    k = k + 1;
                }
            }
            assert(all.take(k) =~= all);
            Ok(BinanceContentError { code, msg, extra })
        },
        _ => Err(GateErr::SerdeJsonError(String::from_str("error body lacks code or msg"))),
    }
}

/// Classifies a reply by its HTTP status. `body` is the reply's body decoded
/// as JSON, or the decoder's complaint.
pub fn handler(status: u16, body: Result<Json, String>) -> (r: Result<Json, GateErr>)
    ensures
        status == 200 ==> r == match body {
            Ok(d) => Ok(d),
            Err(m) => Err(GateErr::SerdeJsonError(m)),
        },
        status == 500 ==> r == Err::<Json, GateErr>(GateErr::BinanceServerErr),
        status == 503 ==> r == Err::<Json, GateErr>(GateErr::BinanceUnavailable),
        status == 401 ==> r == Err::<Json, GateErr>(GateErr::BinanceUnauthorized),
        status == 400 ==> match body {
            Ok(d) => if content_error_ok(d) {
                r matches Err(GateErr::BinanceContentError(e)) && content_error_matches(e, d)
            } else {
                r matches Err(GateErr::SerdeJsonError(_))
            },
            Err(m) => r == Err::<Json, GateErr>(GateErr::SerdeJsonError(m)),
        },
        status != 200 && status != 400 && status != 401 && status != 500 && status != 503 ==> (r matches Err(
            GateErr::BinanceOtherErr(m),
        ) && m@ == "Received response: "@ + decimal(status as nat)),
{
    if status == 200 {
        match body {
            Ok(d) => Ok(d),
            Err(m) => Err(GateErr::SerdeJsonError(m)),
        }
    } else if status == 500 {
        Err(GateErr::BinanceServerErr)
    } else if status == 503 {
        Err(GateErr::BinanceUnavailable)
    } else if status == 401 {
        Err(GateErr::BinanceUnauthorized)
    } else if status == 400 {
        match body {
            Ok(d) => match content_error_of(d) {
                Ok(e) => Err(GateErr::BinanceContentError(e)),
                Err(e) => Err(e),
            },
            Err(m) => Err(GateErr::SerdeJsonError(m)),
        }
    } else {
        let mut m = String::from_str("Received response: ");
        let digits = decimal_string(status as u64);
        m.append(digits.as_str());
        Err(GateErr::BinanceOtherErr(m))
    }
}

/// The account endpoint (signed).
pub const ACCOUNT_ENDPOINT: &'static str = "/api/v3/account";

/// The ticker price endpoint (unsigned).
pub const PRICES_ENDPOINT: &'static str = "/api/v3/ticker/price";

/// The order endpoint: queried (signed GET) and created (signed POST).
pub const ORDER_ENDPOINT: &'static str = "/api/v3/order";

/// The receive window of signed calls, in milliseconds.
pub const RECV_WINDOW: u64 = 5000;

/// A byte that percent-encoding keeps: an ASCII letter or digit, or one of
/// `-._~`.
pub open spec fn url_safe(c: u8) -> bool {
    (48 <= c <= 57) || (65 <= c <= 90) || (97 <= c <= 122) || c == 45 || c == 46 || c == 95 || c == 126
}

/// Upper-case hexadecimal digit of `d < 16`.
pub open spec fn upper_hex_digit(d: nat) -> char {
    seq!['0', '1', '2', '3', '4', '5', '6', '7', '8', '9', 'A', 'B', 'C', 'D', 'E', 'F'][d as int]
}

/// Percent-encoding of bytes: a safe byte is kept as its character, every
/// other byte becomes `%` and two upper-case hex digits.
pub open spec fn url_encoded_bytes(b: Seq<u8>) -> Seq<char>
    decreases b.len(),
{
    if b.len() == 0 {
        Seq::empty()
    } else {
        let c = b.last();
        let piece = if url_safe(c) {
            seq![c as char]
        } else {
            seq!['%', upper_hex_digit(c as nat / 16), upper_hex_digit(c as nat % 16)]
        };
        url_encoded_bytes(b.drop_last()) + piece
    }
}

/// Percent-encoding of the UTF-8 bytes of a text.
pub open spec fn url_encoded_of(s: Seq<char>) -> Seq<char> {
    url_encoded_bytes(encode_utf8(s))
}

/// Relies on `urlencoding::encode`: every UTF-8 byte but ASCII letters,
/// digits and `-._~` becomes `%` and two upper-case hex digits.
#[verifier::external_body]
fn url_encode(s: &str) -> (r: String)
    ensures
        r@ == url_encoded_of(s@),
{
    urlencoding::encode(s).into_owned()
}

/// The rendered items joined by `, `.
pub open spec fn debug_items(items: Seq<Seq<char>>) -> Seq<char>
    decreases items.len(),
{
    if items.len() == 0 {
        Seq::empty()
    } else if items.len() == 1 {
        debug_text_of(items[0])
    } else {
        debug_items(items.drop_last()) + ", "@ + debug_text_of(items.last())
    }
}

/// The `{:?}` rendering of a list of strings: `[`, the quoted items joined
/// by `, `, `]`.
pub open spec fn debug_list(items: Seq<Seq<char>>) -> Seq<char> {
    "["@ + debug_items(items) + "]"@
}

/// The encoded separator `, ` that the exchange wants as a bare comma.
pub open spec fn encoded_separator() -> Seq<char> {
    seq!['%', '2', 'C', '%', '2', '0']
}

/// Every `%2C%20` replaced by `,`, scanning from the left.
pub open spec fn collapse_separators(s: Seq<char>) -> Seq<char>
    decreases s.len(),
{
    if s.len() == 0 {
        Seq::empty()
    } else if s.len() >= 6 && s.take(6) == encoded_separator() {
        seq![','] + collapse_separators(s.skip(6))
    } else {
        seq![s[0]] + collapse_separators(s.skip(1))
    }
}

/// `s` holds the encoded separator at position `i`.
pub open spec fn has_separator_at(s: Seq<char>, i: int) -> bool {
    0 <= i && i + 6 <= s.len() && s.subrange(i, i + 6) == encoded_separator()
}

/// A prefix without commas of the collapsed text was already a prefix of
/// the input.
proof fn lemma_collapse_prefix(t: Seq<char>, p: Seq<char>)
    requires
        forall|j: int| 0 <= j < p.len() ==> p[j] != ',',
        p.len() <= collapse_separators(t).len(),
        collapse_separators(t).take(p.len() as int) == p,
    ensures
        p.len() <= t.len(),
        t.take(p.len() as int) == p,
    decreases t.len(),
{
    let c = collapse_separators(t);
    if p.len() == 0 {
        assert(t.take(0) =~= p);
    } else if t.len() >= 6 && t.take(6) == encoded_separator() {
        assert(c =~= seq![','] + collapse_separators(t.skip(6)));
        assert(c.take(p.len() as int)[0] == c[0]);
    } else {
        let rest = collapse_separators(t.skip(1));
        assert(c =~= seq![t[0]] + rest);
        assert(c.take(p.len() as int)[0] == c[0]);
        assert(rest.take(p.len() - 1) =~= p.drop_first());
        lemma_collapse_prefix(t.skip(1), p.drop_first());
        assert(t.take(p.len() as int) =~= seq![t[0]] + t.skip(1).take(p.len() - 1));
        assert(t.take(p.len() as int) =~= p);
    }
}

/// No encoded separator is left after the collapse: each one in the input
/// became a bare comma, and no new one can form.
pub proof fn lemma_collapse_leaves_no_separator(s: Seq<char>, i: int)
    ensures
        !has_separator_at(collapse_separators(s), i),
    decreases s.len(),
{
    let c = collapse_separators(s);
    if s.len() == 0 {
    } else if s.len() >= 6 && s.take(6) == encoded_separator() {
        let rest = collapse_separators(s.skip(6));
        assert(c =~= seq![','] + rest);
        if i == 0 {
            if has_separator_at(c, 0) {
                assert(c.subrange(0, 6)[0] == c[0]);
            }
        } else if i > 0 {
            lemma_collapse_leaves_no_separator(s.skip(6), i - 1);
            if has_separator_at(c, i) {
                assert(c.subrange(i, i + 6) =~= rest.subrange(i - 1, i + 5));
            }
        }
    } else {
        let rest = collapse_separators(s.skip(1));
        assert(c =~= seq![s[0]] + rest);
        if i == 0 {
            if has_separator_at(c, 0) {
                let p = encoded_separator().drop_first();
                assert(c.subrange(0, 6)[0] == c[0]);
                assert forall|j: int| 0 <= j < 5 implies rest[j] == p[j] by {
                    assert(c.subrange(0, 6)[j + 1] == c[j + 1]);
                }
                assert(rest.take(5) =~= p);
                lemma_collapse_prefix(s.skip(1), p);
                assert(s.take(6) =~= seq![s[0]] + s.skip(1).take(5));
                assert(s.take(6) =~= encoded_separator());
            }
        } else if i > 0 {
            lemma_collapse_leaves_no_separator(s.skip(1), i - 1);
            if has_separator_at(c, i) {
                assert(c.subrange(i, i + 6) =~= rest.subrange(i - 1, i + 5));
            }
        }
    }
}

/// The `symbols` parameter never holds an encoded `, ` separator, whatever
/// the symbols: the items are joined by bare commas.
pub proof fn lemma_symbols_value_has_no_separator(symbols: Seq<Seq<char>>, i: int)
    ensures
        !has_separator_at(symbols_value(symbols), i),
{
    lemma_collapse_leaves_no_separator(url_encoded_of(debug_list(symbols)), i);
}

/// The `symbols` parameter for a list of symbols.
pub open spec fn symbols_value(symbols: Seq<Seq<char>>) -> Seq<char> {
    collapse_separators(url_encoded_of(debug_list(symbols)))
}

/// The views of a list of strings.
pub open spec fn texts(v: Seq<String>) -> Seq<Seq<char>> {
    v.map_values(|s: String| s@)
}

fn starts_separator(s: &str, i: usize, n: usize) -> (r: bool)
    requires
        n == s@.len(),
        i <= n,
    ensures
        r == (s@.skip(i as int).len() >= 6 && s@.skip(i as int).take(6) == encoded_separator()),
{
    if n - i < 6 {
        return false;
    }
    let r = s.get_char(i) == '%' && s.get_char(i + 1) == '2' && s.get_char(i + 2) == 'C' && s.get_char(i + 3)
        == '%' && s.get_char(i + 4) == '2' && s.get_char(i + 5) == '0';
    assert(r == (s@.skip(i as int).take(6) =~= encoded_separator()));
    r
}

/// Replaces every `%2C%20` by `,`, scanning from the left, as
/// `str::replace` does.
fn collapse(s: &str) -> (r: String)
    ensures
        r@ == collapse_separators(s@),
{
    let n = s.unicode_len();
    let mut r = String::new();
    let mut i: usize = 0;
    assert(s@.skip(0) =~= s@);
    while i < n
        invariant
            n == s@.len(),
            i <= n,
            r@ + collapse_separators(s@.skip(i as int)) == collapse_separators(s@),
        decreases n - i,
    {
        let ghost rest = s@.skip(i as int);
        if starts_separator(s, i, n) {
            r.append(",");
            proof {
                reveal_strlit(",");
                assert(rest.skip(6) =~= s@.skip(i + 6));
                assert(r@ + collapse_separators(s@.skip(i + 6)) =~= collapse_separators(s@));
            }
            i = i + 6;
        } else {
            r.append(s.substring_char(i, i + 1));
            proof {
                assert(rest.skip(1) =~= s@.skip(i + 1));
                assert(s@.subrange(i as int, i + 1) =~= seq![rest[0]]);
                assert(r@ + collapse_separators(s@.skip(i + 1)) =~= collapse_separators(s@));
            }
            i = i + 1;
        }
    }
    assert(s@.skip(n as int) =~= Seq::<char>::empty());
    assert(r@ =~= collapse_separators(s@));
    r
}

/// Renders a list of symbols as `{:?}` renders a `Vec<String>`.
fn debug_symbols(symbols: &Vec<String>) -> (r: String)
    ensures
        r@ == debug_list(texts(symbols@)),
{
    let mut r = String::from_str("[");
    let n = symbols.len();
    let mut i: usize = 0;
    while i < n
        invariant
            n == symbols@.len(),
            i <= n,
            r@ == "["@ + debug_items(texts(symbols@).take(i as int)),
        decreases n - i,
    {
        let ghost before = r@;
        if i > 0 {
            r.append(", ");
        }
        let item = debug_text(symbols[i].as_str());
        r.append(item.as_str());
        proof {
            let t = texts(symbols@).take(i + 1);
            assert(t.drop_last() =~= texts(symbols@).take(i as int));
            assert(t.last() == symbols@[i as int]@);
            if i == 0 {
                assert(texts(symbols@).take(0) =~= Seq::<Seq<char>>::empty());
                assert(r@ =~= "["@ + debug_items(t));
            } else {
                assert(r@ =~= "["@ + debug_items(t));
            }
        }
        i = i + 1;
    }
    r.append("]");
    assert(texts(symbols@).take(n as int) =~= texts(symbols@));
    r
}

/// The parameters of a price query: none for an empty list (all symbols),
/// else one `symbols` parameter holding the encoded list.
pub open spec fn prices_map(symbols: Seq<Seq<char>>) -> Map<Seq<char>, Seq<char>> {
    if symbols.len() == 0 {
        Map::empty()
    } else {
        Map::empty().insert("symbols"@, symbols_value(symbols))
    }
}

/// The parameters of a price request.
pub fn prices_parameters(symbols: &Vec<String>) -> (r: ParameterSet)
    ensures
        r.wf(),
        r.map() == prices_map(texts(symbols@)),
        symbols@.len() == 0 ==> r@.len() == 0,
{
    let mut parameters = ParameterSet::new();
    if symbols.len() > 0 {
        let listed = debug_symbols(symbols);
        let encoded = url_encode(listed.as_str());
        let value = collapse(encoded.as_str());
        parameters.insert(String::from_str("symbols"), value);
    }
    assert(parameters.map() =~= prices_map(texts(symbols@)));
    parameters
}

/// The query string of a price request.
pub fn prices_query(symbols: &Vec<String>) -> (r: String)
    ensures
        r@ == query_of(prices_map(texts(symbols@))),
        symbols@.len() == 0 ==> r@.len() == 0,
{
    let parameters = prices_parameters(symbols);
    build_request(&parameters)
}

/// The query string of an account request, signed now.
pub fn account_query() -> (r: Result<String, GateErr>)
    ensures
        r matches Ok(q) ==> exists|t: u64| q@ == query_of(signed_map(Map::empty(), RECV_WINDOW, t)),
        r is Err ==> r == Err::<String, GateErr>(GateErr::GetTimestampErr),
{
    build_signed_request(ParameterSet::new(), RECV_WINDOW)
}

/// The parameters of an order query.
pub open spec fn order_map(symbol: Seq<char>, client_order_id: Seq<char>) -> Map<Seq<char>, Seq<char>> {
    Map::empty().insert("symbol"@, symbol).insert("origClientOrderId"@, client_order_id)
}

/// The parameters of an order query by client order id.
pub fn order_parameters(symbol: &str, client_order_id: &str) -> (r: ParameterSet)
    ensures
        r.wf(),
        r.map() == order_map(symbol@, client_order_id@),
{
    let mut parameters = ParameterSet::new();
    parameters.insert(String::from_str("symbol"), String::from_str(symbol));
    parameters.insert(String::from_str("origClientOrderId"), String::from_str(client_order_id));
    assert(parameters.map() =~= order_map(symbol@, client_order_id@));
    parameters
}

/// The query string of an order query by client order id, signed now.
pub fn order_query(symbol: &str, client_order_id: &str) -> (r: Result<String, GateErr>)
    ensures
        r matches Ok(q) ==> exists|t: u64| q@ == query_of(signed_map(order_map(symbol@, client_order_id@), RECV_WINDOW, t)),
        r is Err ==> r == Err::<String, GateErr>(GateErr::GetTimestampErr),
{
    build_signed_request(order_parameters(symbol, client_order_id), RECV_WINDOW)
}

/// The parameters of a market order.
pub open spec fn market_order_map(
    symbol: Seq<char>,
    side: Seq<char>,
    quantity: Seq<char>,
    client_order_id: Seq<char>,
) -> Map<Seq<char>, Seq<char>> {
    Map::empty().insert("symbol"@, symbol).insert("side"@, side).insert("type"@, "MARKET"@).insert(
        "quantity"@,
        quantity,
    ).insert("newClientOrderId"@, client_order_id)
}

/// The parameters of a market order.
pub fn market_order_parameters(symbol: &str, side: &str, quantity: &str, client_order_id: &str) -> (r: ParameterSet)
    ensures
        r.wf(),
        r.map() == market_order_map(symbol@, side@, quantity@, client_order_id@),
{
    let mut parameters = ParameterSet::new();
    parameters.insert(String::from_str("symbol"), String::from_str(symbol));
    parameters.insert(String::from_str("side"), String::from_str(side));
    parameters.insert(String::from_str("type"), String::from_str("MARKET"));
    parameters.insert(String::from_str("quantity"), String::from_str(quantity));
    parameters.insert(String::from_str("newClientOrderId"), String::from_str(client_order_id));
    assert(parameters.map() =~= market_order_map(symbol@, side@, quantity@, client_order_id@));
    parameters
}

/// The query string of a market order, signed now. The side is not checked
/// here: the gateway checks it first.
pub fn market_order_query(symbol: &str, side: &str, quantity: &str, client_order_id: &str) -> (r: Result<String, GateErr>)
    ensures
        r matches Ok(q) ==> exists|t: u64|
            q@ == query_of(signed_map(market_order_map(symbol@, side@, quantity@, client_order_id@), RECV_WINDOW, t)),
        r is Err ==> r == Err::<String, GateErr>(GateErr::GetTimestampErr),
{
    build_signed_request(market_order_parameters(symbol, side, quantity, client_order_id), RECV_WINDOW)
}

} // verus!
