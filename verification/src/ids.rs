//! Identifier newtypes, one per kind of entity, each holding a UUID as its
//! 128-bit big-endian value. Comparing two ids compares those values, which is
//! the order `uuid::Uuid` itself uses.

use vstd::prelude::*;

verus! {

/// The fixed namespace (`73d9f46c-e2d4-459f-b1f1-2642f68be42b`) under which
/// asset ids are derived from `ticker:exchange`.
pub const ASSET_ID_NAMESPACE: u128 = 0x73d9f46c_e2d4_459f_b1f1_2642f68be42bu128;

/// What `uuid::Uuid::new_v5` returns for a namespace and a name, as a 128-bit value.
pub uninterp spec fn uuid_new_v5(namespace: u128, name: Seq<u8>) -> u128;

/// `value` carries the version number 7 (bits 76 to 79) and the RFC 9562
/// variant `10` (bits 62 and 63) of a time-ordered UUID.
pub open spec fn is_v7(value: u128) -> bool {
    (value >> 76u128) & 0xfu128 == 7 && (value >> 62u128) & 0x3u128 == 2
}

/// The name an asset id is derived from: `ticker`, a colon, `exchange`.
pub open spec fn asset_id_name(ticker: Seq<char>, exchange: Seq<char>) -> Seq<char> {
    ticker + seq![':'] + exchange
}

/// The lowercase hexadecimal digit of `n` (0..=15).
pub open spec fn hex_digit(n: int) -> char {
    if n < 10 {
        (48 + n) as char
    } else {
        (87 + n) as char
    }
}

/// The `k`-th hexadecimal digit (from the most significant) of a 128-bit value.
pub open spec fn uuid_nibble(value: u128, k: int) -> int {
    (value as int / vstd::arithmetic::power::pow(16, (31 - k) as nat)) % 16
}

/// The 32 lowercase hexadecimal digits of a 128-bit value.
pub open spec fn uuid_hex(value: u128) -> Seq<char> {
    Seq::new(32, |k: int| hex_digit(uuid_nibble(value, k)))
}

/// The hyphenated form of a UUID: its 32 lowercase hex digits grouped
/// 8-4-4-4-12.
pub open spec fn uuid_hyphenated(value: u128) -> Seq<char> {
    let h = uuid_hex(value);
    h.subrange(0, 8) + seq!['-'] + h.subrange(8, 12) + seq!['-'] + h.subrange(12, 16) + seq!['-']
        + h.subrange(16, 20) + seq!['-'] + h.subrange(20, 32)
}

/// What `uuid::Uuid::parse_str` accepts and yields, as a 128-bit value
/// (`None` for text it rejects). It accepts several layouts (plain,
/// hyphenated, braced, URN).
pub uninterp spec fn uuid_parse_str(text: Seq<char>) -> Option<u128>;

/// Identifies an asset. Derived from `(ticker, exchange)`, so the same pair
/// always yields the same id.
#[derive(Clone, Copy, Debug, PartialEq, Eq, Structural, Hash, PartialOrd, Ord)]
pub struct AssetId(pub(crate) u128);

impl Default for AssetId {
    /// A fresh time-ordered (v7) id, as [`AssetId::new`] mints.
    fn default() -> (r: AssetId)
        ensures
            is_v7(r@),
    {
        AssetId::new()
    }
}

impl AssetId {
    pub open(crate) spec fn view(&self) -> u128 {
        self.0
    }

    /// A fresh time-ordered (v7) id.
    pub fn new() -> (r: AssetId)
        ensures
            is_v7(r@),
    {
        AssetId(uuid_now_v7())
    }

    /// The id of the asset `ticker` listed on `exchange`: the v5 UUID of
    /// `"{ticker}:{exchange}"` under [`ASSET_ID_NAMESPACE`].
    pub fn for_ticker(ticker: &str, exchange: &str) -> (r: AssetId)
        ensures
            r@ == uuid_new_v5(ASSET_ID_NAMESPACE, vstd::utf8::encode_utf8(asset_id_name(ticker@, exchange@))),
    {
        let mut name = ticker.to_owned();
        name.append(":");
        name.append(exchange);
        proof {
            reveal_strlit(":");
            assert(name@ == asset_id_name(ticker@, exchange@));
        }
        let bytes = name.as_str().as_bytes();
        AssetId(uuid_v5(ASSET_ID_NAMESPACE, bytes))
    }

    /// The id's 128-bit value (the UUID read big-endian).
    pub fn as_u128(&self) -> (r: u128)
        ensures
            r == self@,
    {
        self.0
    }

    /// The id whose 128-bit value is `value`.
    pub fn from_u128(value: u128) -> (r: AssetId)
        ensures
            r@ == value,
    {
        AssetId(value)
    }

    /// The hyphenated lowercase form, e.g. `67e55044-10b1-426f-9247-bb680e5fe0c8`.
    pub fn to_string(&self) -> (r: String)
        ensures
            r@ == uuid_hyphenated(self@),
    {
        format_uuid(self.0)
    }

    /// Reads an id written in any layout `uuid` accepts; rejected text yields
    /// the parser's message.
    pub fn parse(text: &str) -> (r: Result<AssetId, String>)
        ensures
            r is Ok <==> uuid_parse_str(text@) is Some,
            r matches Ok(id) ==> uuid_parse_str(text@) == Some(id@),
            r is Err ==> forall|v: u128| text@ != uuid_hyphenated(v),
            r matches Ok(x) ==> forall|v: u128| text@ == uuid_hyphenated(v) ==> x@ == v,
    {
        match parse_uuid(text) {
            Ok(v) => Ok(AssetId(v)),
            Err(e) => Err(e),
        }
    }
}

/// Asset ids are derived, not minted: two ids derived from the same ticker
/// and exchange are the same id, so nothing needs storing to recover one.
pub proof fn law_for_ticker_is_deterministic(
    ticker: Seq<char>,
    exchange: Seq<char>,
    first: AssetId,
    second: AssetId,
)
    requires
        first@ == uuid_new_v5(ASSET_ID_NAMESPACE, vstd::utf8::encode_utf8(asset_id_name(ticker, exchange))),
        second@ == uuid_new_v5(ASSET_ID_NAMESPACE, vstd::utf8::encode_utf8(asset_id_name(ticker, exchange))),
    ensures
        first == second,
{
}

impl std::str::FromStr for AssetId {
    type Err = String;

    /// [`AssetId::parse`].
    fn from_str(text: &str) -> (r: Result<AssetId, String>)
        ensures
            r is Ok <==> uuid_parse_str(text@) is Some,
            r matches Ok(id) ==> uuid_parse_str(text@) == Some(id@),
            r is Err ==> forall|v: u128| text@ != uuid_hyphenated(v),
            r matches Ok(x) ==> forall|v: u128| text@ == uuid_hyphenated(v) ==> x@ == v,
    {
        AssetId::parse(text)
    }
}

/// Identifies a portfolio.
#[derive(Clone, Copy, Debug, PartialEq, Eq, Structural, Hash, PartialOrd, Ord)]
pub struct PortfolioId(pub(crate) u128);

impl Default for PortfolioId {
    /// A fresh time-ordered (v7) id, as [`PortfolioId::new`] mints.
    fn default() -> (r: PortfolioId)
        ensures
            is_v7(r@),
    {
        PortfolioId::new()
    }
}

impl PortfolioId {
    pub open(crate) spec fn view(&self) -> u128 {
        self.0
    }

    /// A fresh time-ordered (v7) id.
    pub fn new() -> (r: PortfolioId)
        ensures
            is_v7(r@),
    {
        PortfolioId(uuid_now_v7())
    }

    pub fn as_u128(&self) -> (r: u128)
        ensures
            r == self@,
    {
        self.0
    }

    pub fn from_u128(value: u128) -> (r: PortfolioId)
        ensures
            r@ == value,
    {
        PortfolioId(value)
    }

    /// The hyphenated lowercase form, e.g. `67e55044-10b1-426f-9247-bb680e5fe0c8`.
    pub fn to_string(&self) -> (r: String)
        ensures
            r@ == uuid_hyphenated(self@),
    {
        format_uuid(self.0)
    }

    /// Reads an id written in any layout `uuid` accepts; rejected text yields
    /// the parser's message.
    pub fn parse(text: &str) -> (r: Result<PortfolioId, String>)
        ensures
            r is Ok <==> uuid_parse_str(text@) is Some,
            r matches Ok(id) ==> uuid_parse_str(text@) == Some(id@),
            r is Err ==> forall|v: u128| text@ != uuid_hyphenated(v),
            r matches Ok(x) ==> forall|v: u128| text@ == uuid_hyphenated(v) ==> x@ == v,
    {
        match parse_uuid(text) {
            Ok(v) => Ok(PortfolioId(v)),
            Err(e) => Err(e),
        }
    }
}

/// Identifies a transaction. Minted as a time-ordered (v7) UUID, so ids from
/// one process sort in creation order.
#[derive(Clone, Copy, Debug, PartialEq, Eq, Structural, Hash, PartialOrd, Ord)]
pub struct TransactionId(pub(crate) u128);

impl Default for TransactionId {
    /// A fresh time-ordered (v7) id, as [`TransactionId::new`] mints.
    fn default() -> (r: TransactionId)
        ensures
            is_v7(r@),
    {
        TransactionId::new()
    }
}

impl TransactionId {
    pub open(crate) spec fn view(&self) -> u128 {
        self.0
    }

    /// A fresh time-ordered (v7) id.
    pub fn new() -> (r: TransactionId)
        ensures
            is_v7(r@),
    {
        TransactionId(uuid_now_v7())
    }

    pub fn as_u128(&self) -> (r: u128)
        ensures
            r == self@,
    {
        self.0
    }

    pub fn from_u128(value: u128) -> (r: TransactionId)
        ensures
            r@ == value,
    {
        TransactionId(value)
    }

    /// The hyphenated lowercase form, e.g. `67e55044-10b1-426f-9247-bb680e5fe0c8`.
    pub fn to_string(&self) -> (r: String)
        ensures
            r@ == uuid_hyphenated(self@),
    {
        format_uuid(self.0)
    }

    /// Reads an id written in any layout `uuid` accepts; rejected text yields
    /// the parser's message.
    pub fn parse(text: &str) -> (r: Result<TransactionId, String>)
        ensures
            r is Ok <==> uuid_parse_str(text@) is Some,
            r matches Ok(id) ==> uuid_parse_str(text@) == Some(id@),
            r is Err ==> forall|v: u128| text@ != uuid_hyphenated(v),
            r matches Ok(x) ==> forall|v: u128| text@ == uuid_hyphenated(v) ==> x@ == v,
    {
        match parse_uuid(text) {
            Ok(v) => Ok(TransactionId(v)),
            Err(e) => Err(e),
        }
    }
}

impl std::str::FromStr for TransactionId {
    type Err = String;

    /// [`TransactionId::parse`].
    fn from_str(text: &str) -> (r: Result<TransactionId, String>)
        ensures
            r is Ok <==> uuid_parse_str(text@) is Some,
            r matches Ok(id) ==> uuid_parse_str(text@) == Some(id@),
            r is Err ==> forall|v: u128| text@ != uuid_hyphenated(v),
            r matches Ok(x) ==> forall|v: u128| text@ == uuid_hyphenated(v) ==> x@ == v,
    {
        TransactionId::parse(text)
    }
}

/// `uuid::Uuid::now_v7`, as a 128-bit value. It reads the clock, a
/// process-wide counter and random bits, so only the layout is promised:
/// every value it builds carries version 7 and the RFC 9562 variant.
#[verifier::external_body]
fn uuid_now_v7() -> (r: u128)
    ensures
        is_v7(r),
{
    uuid::Uuid::now_v7().as_u128()
}

/// `uuid::Uuid::new_v5` for a namespace and a name, as a 128-bit value; a
/// function of its arguments alone (a SHA-1 digest), named by [`uuid_new_v5`].
#[verifier::external_body]
fn uuid_v5(namespace: u128, name: &[u8]) -> (r: u128)
    ensures
        r == uuid_new_v5(namespace, name@),
{
    uuid::Uuid::new_v5(&uuid::Uuid::from_u128(namespace), name).as_u128()
}

/// `uuid::Uuid`'s `Display`, which writes the hyphenated lowercase form.
#[verifier::external_body]
fn format_uuid(value: u128) -> (r: String)
    ensures
        r@ == uuid_hyphenated(value),
{
    uuid::Uuid::from_u128(value).to_string()
}

/// `uuid::Uuid::parse_str`, as a 128-bit value; a rejection becomes the
/// error's message, whose text is not stated. The hyphenated lowercase form
/// that `Display` writes is one of the layouts it reads, back to the same
/// value.
#[verifier::external_body]
fn parse_uuid(text: &str) -> (r: Result<u128, String>)
    ensures
        r is Ok <==> uuid_parse_str(text@) is Some,
        r matches Ok(v) ==> uuid_parse_str(text@) == Some(v),
        r is Err ==> forall|v: u128| text@ != uuid_hyphenated(v),
        r matches Ok(x) ==> forall|v: u128| text@ == uuid_hyphenated(v) ==> x == v,
{
    match uuid::Uuid::parse_str(text) {
        Ok(u) => Ok(u.as_u128()),
        Err(e) => Err(e.to_string()),
    }
}

} // verus!
