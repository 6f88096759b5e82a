//! The source records: what an oracle publishes, one type per schema, with
//! their encoders and the strict decoders of the source reader.

use crate::error::RelayError;
use crate::layout::{AggregateFields, CrossChainFields, Fields, SingleFeedFields, Variant};
use crate::wire::{
    put_address, put_text, put_u32, put_u64, take_address, take_text, take_u32, take_u64,
    text_is_writable,
};
use vstd::prelude::*;

verus! {

/// A price feed: the source of the single-feed schema.
#[derive(Clone, Debug, PartialEq, Eq)]
pub struct Feed {
    pub address: [u8; 32],
    pub price: u64,
    pub decimal: u64,
    pub time: u64,
    pub name: String,
    pub price_type: String,
}

/// An aggregated feed: the source of the aggregate schema.
#[derive(Clone, Debug, PartialEq, Eq)]
pub struct AggregateFeed {
    pub code: String,
    pub unit: String,
    pub decimals: u64,
    pub aggregate_time: u64,
    pub floor_price: u64,
    pub ai_floor_price: u64,
    pub avg_price: u64,
}

/// A cross-chain report: the source of the cross-chain schema.
#[derive(Clone, Debug, PartialEq, Eq)]
pub struct Report {
    pub source_chain: u32,
    pub price: u64,
    pub time: u64,
    pub decimal: u64,
    pub program_address: [u8; 32],
    pub token_address: [u8; 32],
    pub local_address: [u8; 32],
    pub name: String,
    pub price_type: String,
}

/// A source record of any schema.
#[derive(Clone, Debug, PartialEq, Eq)]
pub enum SourceRecord {
    Feed(Feed),
    AggregateFeed(AggregateFeed),
    Report(Report),
}

impl View for Feed {
    type V = SingleFeedFields;

    open spec fn view(&self) -> SingleFeedFields {
        SingleFeedFields {
            address: self.address@,
            price: self.price,
            decimal: self.decimal,
            time: self.time,
            name: self.name@,
            price_type: self.price_type@,
        }
    }
}

impl View for AggregateFeed {
    type V = AggregateFields;

    open spec fn view(&self) -> AggregateFields {
        AggregateFields {
            code: self.code@,
            unit: self.unit@,
            decimals: self.decimals,
            aggregate_time: self.aggregate_time,
            floor_price: self.floor_price,
            ai_floor_price: self.ai_floor_price,
            avg_price: self.avg_price,
        }
    }
}

impl View for Report {
    type V = CrossChainFields;

    open spec fn view(&self) -> CrossChainFields {
        CrossChainFields {
            source_chain: self.source_chain,
            price: self.price,
            time: self.time,
            decimal: self.decimal,
            program_address: self.program_address@,
            token_address: self.token_address@,
            local_address: self.local_address@,
            name: self.name@,
            price_type: self.price_type@,
        }
    }
}

impl View for SourceRecord {
    type V = Fields;

    open spec fn view(&self) -> Fields {
        match self {
            SourceRecord::Feed(s) => Fields::SingleFeed(s@),
            SourceRecord::AggregateFeed(s) => Fields::Aggregate(s@),
            SourceRecord::Report(s) => Fields::CrossChain(s@),
        }
    }
}

impl Feed {
    /// Whether the feed can be encoded.
    pub fn is_valid(&self) -> (b: bool)
        ensures
            b == self@.valid(),
    {
        text_is_writable(&self.name) && text_is_writable(&self.price_type)
    }

    /// The feed's bytes.
    pub fn encode(&self) -> (out: Vec<u8>)
        requires
            self@.valid(),
        ensures
            out@ == self@.bytes(),
    {
        let mut out: Vec<u8> = Vec::new();
        put_address(&mut out, &self.address);
        put_u64(&mut out, self.price);
        put_u64(&mut out, self.decimal);
        put_u64(&mut out, self.time);
        put_text(&mut out, &self.name);
        put_text(&mut out, &self.price_type);
        assert(out@ =~= self@.bytes());
        out
    }

    /// The feed that `bytes` holds, if they are exactly one feed.
    pub fn decode(bytes: &[u8]) -> (r: Option<Feed>)
        ensures
            match r {
                Some(s) => SingleFeedFields::decode_whole(bytes@) == Some(s@),
                None => SingleFeedFields::decode_whole(bytes@) is None,
            },
    {
        assert(bytes@.skip(0) =~= bytes@);
        let (address, pos) = take_address(bytes, 0)?;
        let (price, pos) = take_u64(bytes, pos)?;
        let (decimal, pos) = take_u64(bytes, pos)?;
        let (time, pos) = take_u64(bytes, pos)?;
        let (name, pos) = take_text(bytes, pos)?;
        let (price_type, pos) = take_text(bytes, pos)?;
        if pos != bytes.len() {
            return None;
        }
        Some(Feed { address, price, decimal, time, name, price_type })
    }
}

impl AggregateFeed {
    /// Whether the feed can be encoded.
    pub fn is_valid(&self) -> (b: bool)
        ensures
            b == self@.valid(),
    {
        text_is_writable(&self.code) && text_is_writable(&self.unit)
    }

    /// The feed's bytes.
    pub fn encode(&self) -> (out: Vec<u8>)
        requires
            self@.valid(),
        ensures
            out@ == self@.bytes(),
    {
        let mut out: Vec<u8> = Vec::new();
        put_text(&mut out, &self.code);
        put_text(&mut out, &self.unit);
        put_u64(&mut out, self.decimals);
        put_u64(&mut out, self.aggregate_time);
        put_u64(&mut out, self.floor_price);
        put_u64(&mut out, self.ai_floor_price);
        put_u64(&mut out, self.avg_price);
        assert(out@ =~= self@.bytes());
        out
    }

    /// The feed that `bytes` holds, if they are exactly one feed.
    pub fn decode(bytes: &[u8]) -> (r: Option<AggregateFeed>)
        ensures
            match r {
                Some(s) => AggregateFields::decode_whole(bytes@) == Some(s@),
                None => AggregateFields::decode_whole(bytes@) is None,
            },
    {
        assert(bytes@.skip(0) =~= bytes@);
        let (code, pos) = take_text(bytes, 0)?;
        let (unit, pos) = take_text(bytes, pos)?;
        let (decimals, pos) = take_u64(bytes, pos)?;
        let (aggregate_time, pos) = take_u64(bytes, pos)?;
        let (floor_price, pos) = take_u64(bytes, pos)?;
        let (ai_floor_price, pos) = take_u64(bytes, pos)?;
        let (avg_price, pos) = take_u64(bytes, pos)?;
        if pos != bytes.len() {
            return None;
        }
        Some(
            AggregateFeed {
                code,
                unit,
                decimals,
                aggregate_time,
                floor_price,
                ai_floor_price,
                avg_price,
            },
        )
    }
}

impl Report {
    /// Whether the report can be encoded.
    pub fn is_valid(&self) -> (b: bool)
        ensures
            b == self@.valid(),
    {
        text_is_writable(&self.name) && text_is_writable(&self.price_type)
    }

    /// The report's bytes.
    pub fn encode(&self) -> (out: Vec<u8>)
        requires
            self@.valid(),
        ensures
            out@ == self@.bytes(),
    {
        let mut out: Vec<u8> = Vec::new();
        put_u32(&mut out, self.source_chain);
        put_u64(&mut out, self.price);
        put_u64(&mut out, self.time);
        put_u64(&mut out, self.decimal);
        put_address(&mut out, &self.program_address);
        put_address(&mut out, &self.token_address);
        put_address(&mut out, &self.local_address);
        put_text(&mut out, &self.name);
        put_text(&mut out, &self.price_type);
        assert(out@ =~= self@.bytes());
        out
    }

    /// The report that `bytes` holds, if they are exactly one report.
    pub fn decode(bytes: &[u8]) -> (r: Option<Report>)
        ensures
            match r {
                Some(s) => CrossChainFields::decode_whole(bytes@) == Some(s@),
                None => CrossChainFields::decode_whole(bytes@) is None,
            },
    {
        assert(bytes@.skip(0) =~= bytes@);
        let (source_chain, pos) = take_u32(bytes, 0)?;
        let (price, pos) = take_u64(bytes, pos)?;
        let (time, pos) = take_u64(bytes, pos)?;
        let (decimal, pos) = take_u64(bytes, pos)?;
        let (program_address, pos) = take_address(bytes, pos)?;
        let (token_address, pos) = take_address(bytes, pos)?;
        let (local_address, pos) = take_address(bytes, pos)?;
        let (name, pos) = take_text(bytes, pos)?;
        let (price_type, pos) = take_text(bytes, pos)?;
        if pos != bytes.len() {
            return None;
        }
        Some(
            Report {
                source_chain,
                price,
                time,
                decimal,
                program_address,
                token_address,
                local_address,
                name,
                price_type,
            },
        )
    }
}

impl SourceRecord {
    /// The schema of the record.
    pub fn variant(&self) -> (v: Variant)
        ensures
            v == self@.variant(),
    {
        match self {
            SourceRecord::Feed(_) => Variant::SingleFeed,
            SourceRecord::AggregateFeed(_) => Variant::Aggregate,
            SourceRecord::Report(_) => Variant::CrossChain,
        }
    }

    /// Whether the record can be encoded.
    pub fn is_valid(&self) -> (b: bool)
        ensures
            b == self@.valid(),
    {
        match self {
            SourceRecord::Feed(s) => s.is_valid(),
            SourceRecord::AggregateFeed(s) => s.is_valid(),
            SourceRecord::Report(s) => s.is_valid(),
        }
    }

    /// The record's bytes.
    pub fn encode(&self) -> (out: Vec<u8>)
        requires
            self@.valid(),
        ensures
            out@ == self@.bytes(),
    {
        match self {
            SourceRecord::Feed(s) => s.encode(),
            SourceRecord::AggregateFeed(s) => s.encode(),
            SourceRecord::Report(s) => s.encode(),
        }
    }
}

/// Reads the source record of schema `variant` from the bytes of a source
/// account. The bytes must be exactly one record: a buffer that ends early,
/// a text whose count runs past the end, text that is not UTF-8 and bytes
/// left over are all malformed.
pub fn read_source(variant: Variant, bytes: &[u8]) -> (r: Result<SourceRecord, RelayError>)
    ensures
        match r {
            Ok(s) => Fields::decode_whole(variant, bytes@) == Some(s@),
            Err(e) => e == RelayError::MalformedSource && Fields::decode_whole(variant, bytes@)
                is None,
        },
{
    let decoded = match variant {
        Variant::SingleFeed => match Feed::decode(bytes) {
            Some(s) => Some(SourceRecord::Feed(s)),
            None => None,
        },
        Variant::Aggregate => match AggregateFeed::decode(bytes) {
            Some(s) => Some(SourceRecord::AggregateFeed(s)),
            None => None,
        },
        Variant::CrossChain => match Report::decode(bytes) {
            Some(s) => Some(SourceRecord::Report(s)),
            None => None,
        },
    };
    match decoded {
        Some(s) => Ok(s),
        None => Err(RelayError::MalformedSource),
    }
}

} // verus!
