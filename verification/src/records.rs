//! The text form in which assets and transactions are stored: one text per
//! column, and the reading and writing of domain values from and to it.
//!
//! Decimals, dates and ids are stored as text rather than as floating-point
//! numbers, so a decimal survives a round trip exactly.

use vstd::prelude::*;

use crate::calendar::{date_text, naive_date_from_str, valid_ymd, Date};
use crate::decimal::{decimal_display, decimal_from_str, representable, Decimal};
use crate::domain::asset::{
    asset_type_label, currency_code, id_is_derived, lemma_asset_type_label_round_trip,
    lemma_currency_code_round_trip, option_string_view, parse_asset_type, parse_currency, Asset,
    AssetType, AssetView, Currency, Ticker,
};
use crate::domain::errors::{asset_error_message, transaction_error_message, AssetError};
use crate::domain::transaction::{validation, Transaction, TransactionType, TransactionView};
use crate::ids::{uuid_hyphenated, uuid_parse_str, AssetId, TransactionId};

verus! {

/// The stored name of a transaction's kind.
pub open spec fn kind_label(t: TransactionType) -> Seq<char> {
    match t {
        TransactionType::Buy { .. } => seq!['b', 'u', 'y'],
        TransactionType::Sell { .. } => seq!['s', 'e', 'l', 'l'],
    }
}

/// A stored transaction row.
#[derive(Debug, Clone, PartialEq, Eq)]
pub struct TransactionRecord {
    pub id: String,
    pub asset_id: String,
    pub date: String,
    pub kind: String,
    pub quantity: String,
    pub price: String,
    pub notes: Option<String>,
}

/// Reading a row: every field that is text for a number, a date or an id
/// parses.
pub open spec fn record_fields_parse(r: TransactionRecord) -> bool {
    &&& uuid_parse_str(r.id@) is Some
    &&& uuid_parse_str(r.asset_id@) is Some
    &&& naive_date_from_str(r.date@) is Some
    &&& decimal_from_str(r.quantity@) is Some
    &&& decimal_from_str(r.price@) is Some
}

/// The kind names a buy or a sell.
pub open spec fn record_kind_known(kind: Seq<char>) -> bool {
    kind == seq!['b', 'u', 'y'] || kind == seq!['s', 'e', 'l', 'l']
}

/// `r` holds the texts that [`TransactionRecord::from_transaction`] writes
/// for a transaction with view `t`.
pub open spec fn stores_transaction(r: TransactionRecord, t: TransactionView) -> bool {
    &&& r.id@ == uuid_hyphenated(t.id@)
    &&& r.asset_id@ == uuid_hyphenated(t.asset_id@)
    &&& r.date@ == date_text(t.date@.0, t.date@.1, t.date@.2)
    &&& r.kind@ == kind_label(t.transaction_type)
    &&& r.quantity@ == decimal_display(t.transaction_type.quantity_view())
    &&& r.price@ == decimal_display(t.transaction_type.price_view())
    &&& option_string_view(r.notes) == t.notes
}

/// What every stored transaction is: a valid day, and a positive quantity
/// and price that a decimal can hold.
pub open spec fn storable(t: TransactionView) -> bool {
    &&& valid_ymd(t.date@.0, t.date@.1, t.date@.2)
    &&& representable(t.transaction_type.quantity_view())
    &&& representable(t.transaction_type.price_view())
    &&& t.transaction_type.validation() is Ok
}

impl TransactionRecord {
    /// The row that stores `tx`.
    pub fn from_transaction(tx: &Transaction) -> (r: TransactionRecord)
        ensures
            stores_transaction(r, tx@),
            storable(tx@),
    {
        proof {
            reveal_strlit("buy");
            reveal_strlit("sell");
        }
        let (kind, quantity, price) = match tx.transaction_type() {
            TransactionType::Buy { quantity, price } => ("buy", quantity, price),
            TransactionType::Sell { quantity, price } => ("sell", quantity, price),
        };
        let notes = match tx.notes() {
            Some(n) => Some(n.to_owned()),
            None => None,
        };
        let r = TransactionRecord {
            id: tx.id().to_string(),
            asset_id: tx.asset_id().to_string(),
            date: tx.date().to_string(),
            kind: kind.to_owned(),
            quantity: quantity.to_string(),
            price: price.to_string(),
            notes,
        };
        proof {
            assert(r.id@ == uuid_hyphenated(tx@.id@));
            assert(r.asset_id@ == uuid_hyphenated(tx@.asset_id@));
            assert(r.date@ == date_text(tx@.date@.0, tx@.date@.1, tx@.date@.2));
            assert(r.kind@ == kind_label(tx@.transaction_type));
            assert(r.quantity@ == decimal_display(tx@.transaction_type.quantity_view()));
            assert(r.price@ == decimal_display(tx@.transaction_type.price_view()));
            assert(option_string_view(r.notes) == tx@.notes);
        }
        r
    }

    /// Reads the transaction back. Fails with the parser's message when a
    /// field does not parse (fields are read in column order), with
    /// `unknown kind: {kind}` for a kind other than `buy` or `sell`, and with
    /// the validation message when the quantity or price is not positive.
    pub fn to_transaction(self) -> (r: Result<Transaction, String>)
        ensures
            !record_fields_parse(self) ==> r is Err,
            record_fields_parse(self) && !record_kind_known(self.kind@) ==> (r matches Err(m) && m@
                == "unknown kind: "@ + self.kind@),
            record_fields_parse(self) && record_kind_known(self.kind@) ==> {
                let q = decimal_from_str(self.quantity@).unwrap();
                let p = decimal_from_str(self.price@).unwrap();
                match validation(q, p) {
                    Err(e) => r matches Err(m) && m@ == transaction_error_message(e),
                    Ok(_) => r matches Ok(t) && t@.id@ == uuid_parse_str(self.id@).unwrap()
                        && t@.asset_id@ == uuid_parse_str(self.asset_id@).unwrap() && Some(t@.date@)
                        == naive_date_from_str(self.date@) && t@.transaction_type.quantity_view()
                        == q && t@.transaction_type.price_view() == p && kind_label(
                        t@.transaction_type,
                    ) == self.kind@ && t@.notes == option_string_view(self.notes),
                }
            },
            forall|t: TransactionView|
                stores_transaction(self, t) && storable(t) ==> (r matches Ok(x) && x@ == t),
    {
        let id = match TransactionId::parse(self.id.as_str()) {
            Ok(v) => v,
            Err(e) => return Err(e),
        };
        let asset_id = match AssetId::parse(self.asset_id.as_str()) {
            Ok(v) => v,
            Err(e) => return Err(e),
        };
        let date = match Date::parse(self.date.as_str()) {
            Ok(v) => v,
            Err(e) => return Err(e),
        };
        let quantity = match Decimal::parse(self.quantity.as_str()) {
            Ok(v) => v,
            Err(e) => return Err(e),
        };
        let price = match Decimal::parse(self.price.as_str()) {
            Ok(v) => v,
            Err(e) => return Err(e),
        };
        proof {
            reveal_strlit("buy");
            reveal_strlit("sell");
        }
        let buy_label = "buy".to_owned();
        let sell_label = "sell".to_owned();
        proof {
            assert(buy_label@ == seq!['b', 'u', 'y']);
            assert(sell_label@ == seq!['s', 'e', 'l', 'l']);
        }
        let is_buy = self.kind == buy_label;
        let transaction_type = if is_buy {
            TransactionType::buy(quantity, price)
        } else if self.kind == sell_label {
            TransactionType::sell(quantity, price)
        } else {
            let mut m = "unknown kind: ".to_owned();
            m.append(self.kind.as_str());
            return Err(m);
        };
        match transaction_type {
            Ok(t) => {
                let tx = Transaction::from_stored(id, asset_id, date, t, self.notes);
                proof {
                    assert forall|v: TransactionView| stores_transaction(self, v) && storable(v) implies tx@
                        == v by {
                        assert(id@ == v.id@);
                        assert(asset_id@ == v.asset_id@);
                        assert(date@ == v.date@);
                        assert(quantity@ == v.transaction_type.quantity_view());
                        assert(price@ == v.transaction_type.price_view());
                    }
                }
                Ok(tx)
            },
            Err(e) => Err(e.message().to_owned()),
        }
    }
}

/// A stored asset row. The id column is only ever used to find a row: an
/// asset's id is derived again from its ticker and exchange when it is read.
#[derive(Debug, Clone, PartialEq, Eq)]
pub struct AssetRecord {
    pub id: String,
    pub ticker: String,
    pub exchange: String,
    pub name: String,
    pub currency: String,
    pub asset_type: String,
    pub sector: Option<String>,
    pub industry: Option<String>,
    pub country: Option<String>,
}

/// `r` holds the texts that [`AssetRecord::from_asset`] writes for an asset
/// with view `a`.
pub open spec fn stores_asset(r: AssetRecord, a: AssetView) -> bool {
    &&& r.id@ == uuid_hyphenated(a.id@)
    &&& r.ticker@ == a.ticker
    &&& r.exchange@ == a.exchange
    &&& r.name@ == a.name
    &&& r.currency@ == currency_code(a.currency)
    &&& r.asset_type@ == asset_type_label(a.asset_type)
    &&& option_string_view(r.sector) == a.sector
    &&& option_string_view(r.industry) == a.industry
    &&& option_string_view(r.country) == a.country
}

impl AssetRecord {
    /// The row that stores `asset`.
    pub fn from_asset(asset: &Asset) -> (r: AssetRecord)
        ensures
            stores_asset(r, asset@),
            id_is_derived(asset@),
    {
        let r = AssetRecord {
            id: asset.id().to_string(),
            ticker: asset.ticker().as_str().to_owned(),
            exchange: asset.exchange().to_owned(),
            name: asset.name().to_owned(),
            currency: asset.currency().code().to_owned(),
            asset_type: asset.asset_type().label().to_owned(),
            sector: owned(asset.sector()),
            industry: owned(asset.industry()),
            country: owned(asset.country()),
        };
        proof {
            assert(r.ticker@ == asset@.ticker);
            assert(r.exchange@ == asset@.exchange);
            assert(r.name@ == asset@.name);
            assert(r.currency@ == currency_code(asset@.currency));
            assert(r.asset_type@ == asset_type_label(asset@.asset_type));
        }
        r
    }

    /// Reads the asset back, deriving its id from ticker and exchange. Fails
    /// with the message of an unknown currency, else of an unknown asset type.
    pub fn to_asset(self) -> (r: Result<Asset, String>)
        ensures
            match (
                parse_currency(vstd::utf8::encode_utf8(self.currency@)),
                parse_asset_type(vstd::utf8::encode_utf8(self.asset_type@)),
            ) {
                (None, _) => r matches Err(m) && m@ == asset_error_message(
                    AssetError::UnknownCurrency(self.currency),
                ),
                (Some(_), None) => r matches Err(m) && m@ == asset_error_message(
                    AssetError::UnknownAssetType(self.asset_type),
                ),
                (Some(c), Some(t)) => r matches Ok(a) && a@.ticker == self.ticker@ && a@.exchange
                    == self.exchange@ && a@.name == self.name@ && a@.currency == c && a@.asset_type
                    == t && a@.sector == option_string_view(self.sector) && a@.industry
                    == option_string_view(self.industry) && a@.country == option_string_view(
                    self.country,
                ) && a@.id@ == crate::ids::uuid_new_v5(
                    crate::ids::ASSET_ID_NAMESPACE,
                    vstd::utf8::encode_utf8(crate::ids::asset_id_name(self.ticker@, self.exchange@)),
                ),
            },
            forall|a: AssetView| stores_asset(self, a) && id_is_derived(a) ==> (r matches Ok(x) && x@ == a),
    {
        proof {
            assert forall|a: AssetView| stores_asset(self, a) implies parse_currency(
                vstd::utf8::encode_utf8(self.currency@),
            ) == Some(a.currency) && parse_asset_type(vstd::utf8::encode_utf8(self.asset_type@))
                == Some(a.asset_type) by {
                lemma_currency_code_round_trip(a.currency);
                lemma_asset_type_label_round_trip(a.asset_type);
            }
        }
        let currency = match Currency::parse(self.currency.as_str()) {
            Ok(c) => c,
            Err(e) => return Err(e.message()),
        };
        let asset_type = match AssetType::parse(self.asset_type.as_str()) {
            Ok(t) => t,
            Err(e) => return Err(e.message()),
        };
        let asset = Asset::new(
            Ticker::new(self.ticker.as_str()),
            self.name,
            self.exchange,
            currency,
            asset_type,
        );
        Ok(asset.with_classification(self.sector, self.industry, self.country))
    }
}

/// An owned copy of an optional text.
fn owned(s: Option<&str>) -> (r: Option<String>)
    ensures
        option_string_view(r) == crate::domain::asset::option_str_view(s),
{
    match s {
        Some(x) => Some(x.to_owned()),
        None => None,
    }
}

} // verus!
