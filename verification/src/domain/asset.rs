//! Tradable instruments and the vocabularies that describe them.

use vstd::prelude::*;

use crate::domain::errors::AssetError;
use crate::ids::{asset_id_name, uuid_new_v5, AssetId, ASSET_ID_NAMESPACE};

verus! {

/// ASCII upper-casing of one byte: `a`..=`z` become `A`..=`Z`, every other
/// byte is unchanged (as `str::to_ascii_uppercase` does).
pub open spec fn ascii_upper(b: u8) -> u8 {
    if 97 <= b && b <= 122 {
        (b - 32) as u8
    } else {
        b
    }
}

/// ASCII lower-casing of one byte: `A`..=`Z` become `a`..=`z`, every other
/// byte is unchanged (as `str::to_ascii_lowercase` does).
pub open spec fn ascii_lower(b: u8) -> u8 {
    if 65 <= b && b <= 90 {
        (b + 32) as u8
    } else {
        b
    }
}

/// The bytes of an ASCII text.
pub open spec fn ascii_bytes(s: Seq<char>) -> Seq<u8> {
    s.map_values(|c: char| c as u8)
}

/// Whether `bytes`, upper-cased as ASCII, are exactly `expected`.
fn upper_equals(bytes: &[u8], expected: &[u8]) -> (r: bool)
    ensures
        r == (bytes@.map_values(|b: u8| ascii_upper(b)) == expected@),
{
    if bytes.len() != expected.len() {
        proof {
            assert(bytes@.map_values(|b: u8| ascii_upper(b)).len() != expected@.len());
        }
        return false;
    }
    let mut i: usize = 0;
    while i < bytes.len()
        invariant
            bytes.len() == expected.len(),
            i <= bytes.len(),
            forall|k: int| 0 <= k < i ==> ascii_upper(#[trigger] bytes@[k]) == expected@[k],
        decreases bytes.len() - i,
    {
        let b = bytes[i];
        let u = if 97 <= b && b <= 122 {
            b - 32
        } else {
            b
        };
        if u != expected[i] {
            proof {
                assert(bytes@.map_values(|b: u8| ascii_upper(b))[i as int] != expected@[i as int]);
            }
            return false;
        }
        i += 1;
    }
    proof {
        assert(bytes@.map_values(|b: u8| ascii_upper(b)) =~= expected@);
    }
    true
}

/// Whether `bytes`, lower-cased as ASCII, are exactly `expected`.
fn lower_equals(bytes: &[u8], expected: &[u8]) -> (r: bool)
    ensures
        r == (bytes@.map_values(|b: u8| ascii_lower(b)) == expected@),
{
    if bytes.len() != expected.len() {
        proof {
            assert(bytes@.map_values(|b: u8| ascii_lower(b)).len() != expected@.len());
        }
        return false;
    }
    let mut i: usize = 0;
    while i < bytes.len()
        invariant
            bytes.len() == expected.len(),
            i <= bytes.len(),
            forall|k: int| 0 <= k < i ==> ascii_lower(#[trigger] bytes@[k]) == expected@[k],
        decreases bytes.len() - i,
    {
        let b = bytes[i];
        let l = if 65 <= b && b <= 90 {
            b + 32
        } else {
            b
        };
        if l != expected[i] {
            proof {
                assert(bytes@.map_values(|b: u8| ascii_lower(b))[i as int] != expected@[i as int]);
            }
            return false;
        }
        i += 1;
    }
    proof {
        assert(bytes@.map_values(|b: u8| ascii_lower(b)) =~= expected@);
    }
    true
}

/// An exchange ticker symbol, such as `AAPL`.
#[derive(Debug, PartialEq, Eq, Hash, PartialOrd, Ord)]
pub struct Ticker(pub(crate) String);

impl Ticker {
    pub open(crate) spec fn view(&self) -> Seq<char> {
        self.0@
    }

    pub fn new(value: &str) -> (r: Ticker)
        ensures
            r@ == value@,
    {
        Ticker(value.to_owned())
    }

    pub fn as_str(&self) -> (r: &str)
        ensures
            r@ == self@,
    {
        self.0.as_str()
    }
}

impl Clone for Ticker {
    fn clone(&self) -> (r: Ticker)
        ensures
            r == *self,
    {
        Ticker(self.0.clone())
    }
}

/// The currencies an asset can be quoted in.
#[derive(Debug, Clone, Copy, PartialEq, Eq, Hash)]
pub enum Currency {
    Usd,
    Eur,
    Gbp,
    Chf,
    Jpy,
}

/// The ISO 4217 code of a currency.
pub open spec fn currency_code(c: Currency) -> Seq<char> {
    match c {
        Currency::Usd => seq!['U', 'S', 'D'],
        Currency::Eur => seq!['E', 'U', 'R'],
        Currency::Gbp => seq!['G', 'B', 'P'],
        Currency::Chf => seq!['C', 'H', 'F'],
        Currency::Jpy => seq!['J', 'P', 'Y'],
    }
}

/// The currency that a text names, compared without regard to ASCII case.
pub open spec fn parse_currency(bytes: Seq<u8>) -> Option<Currency> {
    let upper = bytes.map_values(|b: u8| ascii_upper(b));
    if upper == ascii_bytes(currency_code(Currency::Usd)) {
        Some(Currency::Usd)
    } else if upper == ascii_bytes(currency_code(Currency::Eur)) {
        Some(Currency::Eur)
    } else if upper == ascii_bytes(currency_code(Currency::Gbp)) {
        Some(Currency::Gbp)
    } else if upper == ascii_bytes(currency_code(Currency::Chf)) {
        Some(Currency::Chf)
    } else if upper == ascii_bytes(currency_code(Currency::Jpy)) {
        Some(Currency::Jpy)
    } else {
        None
    }
}

impl Currency {
    /// ISO 4217 code: the form used on the wire and in storage.
    pub fn code(&self) -> (r: &'static str)
        ensures
            r@ == currency_code(*self),
    {
        proof {
            reveal_strlit("USD");
            reveal_strlit("EUR");
            reveal_strlit("GBP");
            reveal_strlit("CHF");
            reveal_strlit("JPY");
        }
        match self {
            Currency::Usd => "USD",
            Currency::Eur => "EUR",
            Currency::Gbp => "GBP",
            Currency::Chf => "CHF",
            Currency::Jpy => "JPY",
        }
    }

    /// Parses a currency code, ignoring ASCII case; any other text is
    /// rejected with the text itself.
    pub fn parse(value: &str) -> (r: Result<Currency, AssetError>)
        ensures
            match parse_currency(vstd::utf8::encode_utf8(value@)) {
                Some(c) => r == Ok::<Currency, AssetError>(c),
                None => r matches Err(AssetError::UnknownCurrency(s)) && s@ == value@,
            },
    {
        let bytes = value.as_bytes();
        let usd: [u8; 3] = [85, 83, 68];
        let eur: [u8; 3] = [69, 85, 82];
        let gbp: [u8; 3] = [71, 66, 80];
        let chf: [u8; 3] = [67, 72, 70];
        let jpy: [u8; 3] = [74, 80, 89];
        proof {
            assert(usd@ =~= ascii_bytes(currency_code(Currency::Usd)));
            assert(eur@ =~= ascii_bytes(currency_code(Currency::Eur)));
            assert(gbp@ =~= ascii_bytes(currency_code(Currency::Gbp)));
            assert(chf@ =~= ascii_bytes(currency_code(Currency::Chf)));
            assert(jpy@ =~= ascii_bytes(currency_code(Currency::Jpy)));
        }
        if upper_equals(bytes, usd.as_slice()) {
            Ok(Currency::Usd)
        } else if upper_equals(bytes, eur.as_slice()) {
            Ok(Currency::Eur)
        } else if upper_equals(bytes, gbp.as_slice()) {
            Ok(Currency::Gbp)
        } else if upper_equals(bytes, chf.as_slice()) {
            Ok(Currency::Chf)
        } else if upper_equals(bytes, jpy.as_slice()) {
            Ok(Currency::Jpy)
        } else {
            Err(AssetError::UnknownCurrency(value.to_owned()))
        }
    }
}

impl std::str::FromStr for Currency {
    type Err = AssetError;

    /// [`Currency::parse`].
    fn from_str(value: &str) -> (r: Result<Currency, AssetError>)
        ensures
            match parse_currency(vstd::utf8::encode_utf8(value@)) {
                Some(c) => r == Ok::<Currency, AssetError>(c),
                None => r matches Err(AssetError::UnknownCurrency(s)) && s@ == value@,
            },
    {
        Currency::parse(value)
    }
}

/// Every currency's code parses back to that currency.
pub proof fn lemma_currency_code_round_trip(c: Currency)
    ensures
        parse_currency(vstd::utf8::encode_utf8(currency_code(c))) == Some(c),
{
    let code = currency_code(c);
    assert(vstd::utf8::is_ascii_chars(code));
    vstd::utf8::is_ascii_chars_encode_utf8(code);
    let bytes = vstd::utf8::encode_utf8(code);
    assert(bytes =~= ascii_bytes(code));
    assert(bytes.map_values(|b: u8| ascii_upper(b)) =~= ascii_bytes(code));
}

/// Currency codes are read without regard to ASCII case: two texts that
/// agree once upper-cased parse to the same currency, or are both rejected.
pub proof fn lemma_currency_parse_ignores_case(a: Seq<u8>, b: Seq<u8>)
    requires
        a.map_values(|x: u8| ascii_upper(x)) == b.map_values(|x: u8| ascii_upper(x)),
    ensures
        parse_currency(a) == parse_currency(b),
{
}

/// The kinds of instrument supported.
#[derive(Debug, Clone, Copy, PartialEq, Eq, Hash)]
pub enum AssetType {
    Stock,
    Etf,
}

/// The display label of an asset type.
pub open spec fn asset_type_label(t: AssetType) -> Seq<char> {
    match t {
        AssetType::Stock => seq!['S', 't', 'o', 'c', 'k'],
        AssetType::Etf => seq!['E', 'T', 'F'],
    }
}

/// The asset type that a text names, ignoring ASCII case: `stock` or
/// `equity` for a stock, `etf` for an ETF.
pub open spec fn parse_asset_type(bytes: Seq<u8>) -> Option<AssetType> {
    let lower = bytes.map_values(|b: u8| ascii_lower(b));
    if lower == ascii_bytes(seq!['s', 't', 'o', 'c', 'k']) || lower == ascii_bytes(
        seq!['e', 'q', 'u', 'i', 't', 'y'],
    ) {
        Some(AssetType::Stock)
    } else if lower == ascii_bytes(seq!['e', 't', 'f']) {
        Some(AssetType::Etf)
    } else {
        None
    }
}

impl AssetType {
    pub fn label(&self) -> (r: &'static str)
        ensures
            r@ == asset_type_label(*self),
    {
        proof {
            reveal_strlit("Stock");
            reveal_strlit("ETF");
        }
        match self {
            AssetType::Stock => "Stock",
            AssetType::Etf => "ETF",
        }
    }

    /// Parses an asset type, ignoring ASCII case; any other text is rejected
    /// with the text itself.
    pub fn parse(value: &str) -> (r: Result<AssetType, AssetError>)
        ensures
            match parse_asset_type(vstd::utf8::encode_utf8(value@)) {
                Some(t) => r == Ok::<AssetType, AssetError>(t),
                None => r matches Err(AssetError::UnknownAssetType(s)) && s@ == value@,
            },
    {
        let bytes = value.as_bytes();
        let stock: [u8; 5] = [115, 116, 111, 99, 107];
        let equity: [u8; 6] = [101, 113, 117, 105, 116, 121];
        let etf: [u8; 3] = [101, 116, 102];
        proof {
            assert(stock@ =~= ascii_bytes(seq!['s', 't', 'o', 'c', 'k']));
            assert(equity@ =~= ascii_bytes(seq!['e', 'q', 'u', 'i', 't', 'y']));
            assert(etf@ =~= ascii_bytes(seq!['e', 't', 'f']));
        }
        if lower_equals(bytes, stock.as_slice()) || lower_equals(bytes, equity.as_slice()) {
            Ok(AssetType::Stock)
        } else if lower_equals(bytes, etf.as_slice()) {
            Ok(AssetType::Etf)
        } else {
            Err(AssetError::UnknownAssetType(value.to_owned()))
        }
    }
}

impl std::str::FromStr for AssetType {
    type Err = AssetError;

    /// [`AssetType::parse`].
    fn from_str(value: &str) -> (r: Result<AssetType, AssetError>)
        ensures
            match parse_asset_type(vstd::utf8::encode_utf8(value@)) {
                Some(t) => r == Ok::<AssetType, AssetError>(t),
                None => r matches Err(AssetError::UnknownAssetType(s)) && s@ == value@,
            },
    {
        AssetType::parse(value)
    }
}

/// Asset-type labels are read without regard to ASCII case: two texts that
/// agree once lower-cased parse to the same asset type, or are both rejected.
pub proof fn lemma_asset_type_parse_ignores_case(a: Seq<u8>, b: Seq<u8>)
    requires
        a.map_values(|x: u8| ascii_lower(x)) == b.map_values(|x: u8| ascii_lower(x)),
    ensures
        parse_asset_type(a) == parse_asset_type(b),
{
}

/// Every asset type's label parses back to that asset type.
pub proof fn lemma_asset_type_label_round_trip(t: AssetType)
    ensures
        parse_asset_type(vstd::utf8::encode_utf8(asset_type_label(t))) == Some(t),
{
    let label = asset_type_label(t);
    assert(vstd::utf8::is_ascii_chars(label));
    vstd::utf8::is_ascii_chars_encode_utf8(label);
    let bytes = vstd::utf8::encode_utf8(label);
    assert(bytes =~= ascii_bytes(label));
    match t {
        AssetType::Stock => {
            assert(bytes.map_values(|b: u8| ascii_lower(b)) =~= ascii_bytes(
                seq!['s', 't', 'o', 'c', 'k'],
            ));
        },
        AssetType::Etf => {
            assert(bytes.map_values(|b: u8| ascii_lower(b)) =~= ascii_bytes(seq!['e', 't', 'f']));
        },
    }
}

/// The view of an optional owned string.
pub open spec fn option_string_view(s: Option<String>) -> Option<Seq<char>> {
    match s {
        Some(x) => Some(x@),
        None => None,
    }
}

/// The view of an optional borrowed string.
pub open spec fn option_str_view(s: Option<&str>) -> Option<Seq<char>> {
    match s {
        Some(x) => Some(x@),
        None => None,
    }
}

/// Lends out the text of an optional string.
pub(crate) fn option_as_str(s: &Option<String>) -> (r: Option<&str>)
    ensures
        option_str_view(r) == option_string_view(*s),
{
    match s {
        Some(x) => Some(x.as_str()),
        None => None,
    }
}

/// What an [`Asset`] holds.
pub struct AssetView {
    pub id: AssetId,
    pub ticker: Seq<char>,
    pub name: Seq<char>,
    pub exchange: Seq<char>,
    pub currency: Currency,
    pub asset_type: AssetType,
    pub sector: Option<Seq<char>>,
    pub industry: Option<Seq<char>>,
    pub country: Option<Seq<char>>,
}

/// Static descriptive information about a tradable instrument.
#[derive(Debug, PartialEq, Eq)]
pub struct Asset {
    pub(crate) id: AssetId,
    pub(crate) ticker: Ticker,
    pub(crate) name: String,
    pub(crate) exchange: String,
    pub(crate) currency: Currency,
    pub(crate) asset_type: AssetType,
    pub(crate) sector: Option<String>,
    pub(crate) industry: Option<String>,
    pub(crate) country: Option<String>,
}

/// `a`'s id is the one derived from its ticker and exchange.
pub open spec fn id_is_derived(a: AssetView) -> bool {
    a.id@ == uuid_new_v5(ASSET_ID_NAMESPACE, vstd::utf8::encode_utf8(asset_id_name(a.ticker, a.exchange)))
}

impl Asset {
    /// Every asset's id is derived from its ticker and exchange.
    #[verifier::type_invariant]
    spec fn well_formed(self) -> bool {
        id_is_derived(self@)
    }

    pub open(crate) spec fn view(&self) -> AssetView {
        AssetView {
            id: self.id,
            ticker: self.ticker@,
            name: self.name@,
            exchange: self.exchange@,
            currency: self.currency,
            asset_type: self.asset_type,
            sector: option_string_view(self.sector),
            industry: option_string_view(self.industry),
            country: option_string_view(self.country),
        }
    }

    /// A new asset with no classification. Its id is derived from the ticker
    /// and the exchange, as [`AssetId::for_ticker`] does.
    pub fn new(
        ticker: Ticker,
        name: String,
        exchange: String,
        currency: Currency,
        asset_type: AssetType,
    ) -> (r: Asset)
        ensures
            r@ == (AssetView {
                id: r@.id,
                ticker: ticker@,
                name: name@,
                exchange: exchange@,
                currency,
                asset_type,
                sector: None,
                industry: None,
                country: None,
            }),
            r@.id@ == uuid_new_v5(
                ASSET_ID_NAMESPACE,
                vstd::utf8::encode_utf8(asset_id_name(ticker@, exchange@)),
            ),
    {
        let id = AssetId::for_ticker(ticker.as_str(), exchange.as_str());
        Asset {
            id,
            ticker,
            name,
            exchange,
            currency,
            asset_type,
            sector: None,
            industry: None,
            country: None,
        }
    }

    /// The same asset with its sector, industry and country replaced.
    pub fn with_classification(
        self,
        sector: Option<String>,
        industry: Option<String>,
        country: Option<String>,
    ) -> (r: Asset)
        ensures
            r@ == (AssetView {
                sector: option_string_view(sector),
                industry: option_string_view(industry),
                country: option_string_view(country),
                ..self@
            }),
    {
        proof {
            use_type_invariant(&self);
        }
        Asset {
            id: self.id,
            ticker: self.ticker,
            name: self.name,
            exchange: self.exchange,
            currency: self.currency,
            asset_type: self.asset_type,
            sector,
            industry,
            country,
        }
    }

    /// One line naming the asset: `AAPL (NASDAQ) — Apple Inc.`.
    pub fn to_string(&self) -> (r: String)
        ensures
            r@ == self@.ticker + " ("@ + self@.exchange + ") — "@ + self@.name,
    {
        let mut text = self.ticker.as_str().to_owned();
        text.append(" (");
        text.append(self.exchange.as_str());
        text.append(") — ");
        text.append(self.name.as_str());
        text
    }

    /// The id, derived from the ticker and the exchange.
    pub fn id(&self) -> (r: AssetId)
        ensures
            r == self@.id,
            id_is_derived(self@),
    {
        proof {
            use_type_invariant(self);
        }
        self.id
    }

    pub fn ticker(&self) -> (r: &Ticker)
        ensures
            r@ == self@.ticker,
    {
        &self.ticker
    }

    pub fn name(&self) -> (r: &str)
        ensures
            r@ == self@.name,
    {
        self.name.as_str()
    }

    pub fn exchange(&self) -> (r: &str)
        ensures
            r@ == self@.exchange,
    {
        self.exchange.as_str()
    }

    pub fn currency(&self) -> (r: Currency)
        ensures
            r == self@.currency,
    {
        self.currency
    }

    pub fn asset_type(&self) -> (r: AssetType)
        ensures
            r == self@.asset_type,
    {
        self.asset_type
    }

    pub fn sector(&self) -> (r: Option<&str>)
        ensures
            option_str_view(r) == self@.sector,
    {
        option_as_str(&self.sector)
    }

    pub fn industry(&self) -> (r: Option<&str>)
        ensures
            option_str_view(r) == self@.industry,
    {
        option_as_str(&self.industry)
    }

    pub fn country(&self) -> (r: Option<&str>)
        ensures
            option_str_view(r) == self@.country,
    {
        option_as_str(&self.country)
    }
}

impl Clone for Asset {
    fn clone(&self) -> (r: Asset)
        ensures
            r == *self,
    {
        proof {
            use_type_invariant(self);
        }
        Asset {
            id: self.id,
            ticker: self.ticker.clone(),
            name: self.name.clone(),
            exchange: self.exchange.clone(),
            currency: self.currency,
            asset_type: self.asset_type,
            sector: self.sector.clone(),
            industry: self.industry.clone(),
            country: self.country.clone(),
        }
    }
}

} // verus!
