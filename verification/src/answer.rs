//! The answer records: what a destination account stores, one type per
//! schema, with their encoders and decoders.

use crate::error::RelayError;
use crate::layout::{AggregateFields, CrossChainFields, Fields, SingleFeedFields, Variant};
use crate::wire::{
    put_address, put_text, put_u32, put_u64, take_address, take_text, take_u32, take_u64,
    text_is_writable,
};
use vstd::prelude::*;

verus! {

/// The answer of the single-feed schema.
#[derive(Clone, Debug, PartialEq, Eq)]
pub struct SingleFeedAnswer {
    pub address: [u8; 32],
    pub price: u64,
    pub decimal: u64,
    pub time: u64,
    pub name: String,
    pub price_type: String,
}

/// The answer of the aggregate schema.
#[derive(Clone, Debug, PartialEq, Eq)]
pub struct Answer {
    pub code: String,
    pub unit: String,
    pub decimals: u64,
    pub aggregate_time: u64,
    pub floor_price: u64,
    pub ai_floor_price: u64,
    pub avg_price: u64,
}

/// The answer of the cross-chain schema.
#[derive(Clone, Debug, PartialEq, Eq)]
pub struct CrossChainAnswer {
    pub source_chain: u32,
    pub price: u64,
    pub time: u64,
    pub decimal: u64,
    pub program_address: [u8; 32],
    pub token_address: [u8; 32],
    pub local_address: [u8; 32],
    pub name: String,
    pub price_type: String,
}

/// An answer of any schema.
#[derive(Clone, Debug, PartialEq, Eq)]
pub enum AnswerRecord {
    SingleFeed(SingleFeedAnswer),
    Aggregate(Answer),
    CrossChain(CrossChainAnswer),
}

impl View for SingleFeedAnswer {
    type V = SingleFeedFields;

    open spec fn view(&self) -> SingleFeedFields {
        SingleFeedFields {
            address: self.address@,
            price: self.price,
            decimal: self.decimal,
            time: self.time,
            name: self.name@,
            price_type: self.price_type@,
        }
    }
}

impl View for Answer {
    type V = AggregateFields;

    open spec fn view(&self) -> AggregateFields {
        AggregateFields {
            code: self.code@,
            unit: self.unit@,
            decimals: self.decimals,
            aggregate_time: self.aggregate_time,
            floor_price: self.floor_price,
            ai_floor_price: self.ai_floor_price,
            avg_price: self.avg_price,
        }
    }
}

impl View for CrossChainAnswer {
    type V = CrossChainFields;

    open spec fn view(&self) -> CrossChainFields {
        CrossChainFields {
            source_chain: self.source_chain,
            price: self.price,
            time: self.time,
            decimal: self.decimal,
            program_address: self.program_address@,
            token_address: self.token_address@,
            local_address: self.local_address@,
            name: self.name@,
            price_type: self.price_type@,
        }
    }
}

impl View for AnswerRecord {
    type V = Fields;

    open spec fn view(&self) -> Fields {
        match self {
            AnswerRecord::SingleFeed(a) => Fields::SingleFeed(a@),
            AnswerRecord::Aggregate(a) => Fields::Aggregate(a@),
            AnswerRecord::CrossChain(a) => Fields::CrossChain(a@),
        }
    }
}

impl SingleFeedAnswer {
    /// Whether the answer can be encoded.
    pub fn is_valid(&self) -> (b: bool)
        ensures
            b == self@.valid(),
    {
        text_is_writable(&self.name) && text_is_writable(&self.price_type)
    }

    /// The answer's bytes.
    pub fn encode(&self) -> (out: Vec<u8>)
        requires
            self@.valid(),
        ensures
            out@ == self@.bytes(),
    {
        let mut out: Vec<u8> = Vec::new();
        put_address(&mut out, &self.address);
        put_u64(&mut out, self.price);
        put_u64(&mut out, self.decimal);
        put_u64(&mut out, self.time);
        put_text(&mut out, &self.name);
        put_text(&mut out, &self.price_type);
        assert(out@ =~= self@.bytes());
        out
    }

    /// The answer that `bytes` starts with; what follows it is ignored.
    pub fn decode(bytes: &[u8]) -> (r: Option<SingleFeedAnswer>)
        ensures
            match r {
                Some(a) => SingleFeedFields::decode_front(bytes@) == Some(a@),
                None => SingleFeedFields::decode_front(bytes@) is None,
            },
    {
        assert(bytes@.skip(0) =~= bytes@);
        let (address, pos) = take_address(bytes, 0)?;
        let (price, pos) = take_u64(bytes, pos)?;
        let (decimal, pos) = take_u64(bytes, pos)?;
        let (time, pos) = take_u64(bytes, pos)?;
        let (name, pos) = take_text(bytes, pos)?;
        let (price_type, _) = take_text(bytes, pos)?;
        Some(SingleFeedAnswer { address, price, decimal, time, name, price_type })
    }
}

impl Answer {
    /// Whether the answer can be encoded.
    pub fn is_valid(&self) -> (b: bool)
        ensures
            b == self@.valid(),
    {
        text_is_writable(&self.code) && text_is_writable(&self.unit)
    }

    /// The answer's bytes.
    pub fn encode(&self) -> (out: Vec<u8>)
        requires
            self@.valid(),
        ensures
            out@ == self@.bytes(),
    {
        let mut out: Vec<u8> = Vec::new();
        put_text(&mut out, &self.code);
        put_text(&mut out, &self.unit);
        put_u64(&mut out, self.decimals);
        put_u64(&mut out, self.aggregate_time);
        put_u64(&mut out, self.floor_price);
        put_u64(&mut out, self.ai_floor_price);
        put_u64(&mut out, self.avg_price);
        assert(out@ =~= self@.bytes());
        out
    }

    /// The answer that `bytes` starts with; what follows it is ignored.
    pub fn decode(bytes: &[u8]) -> (r: Option<Answer>)
        ensures
            match r {
                Some(a) => AggregateFields::decode_front(bytes@) == Some(a@),
                None => AggregateFields::decode_front(bytes@) is None,
            },
    {
        assert(bytes@.skip(0) =~= bytes@);
        let (code, pos) = take_text(bytes, 0)?;
        let (unit, pos) = take_text(bytes, pos)?;
        let (decimals, pos) = take_u64(bytes, pos)?;
        let (aggregate_time, pos) = take_u64(bytes, pos)?;
        let (floor_price, pos) = take_u64(bytes, pos)?;
        let (ai_floor_price, pos) = take_u64(bytes, pos)?;
        let (avg_price, _) = take_u64(bytes, pos)?;
        Some(
            Answer {
                code,
                unit,
                decimals,
                aggregate_time,
                floor_price,
                ai_floor_price,
                avg_price,
            },
        )
    }
}

impl CrossChainAnswer {
    /// Whether the answer can be encoded.
    pub fn is_valid(&self) -> (b: bool)
        ensures
            b == self@.valid(),
    {
        text_is_writable(&self.name) && text_is_writable(&self.price_type)
    }

    /// The answer's bytes.
    pub fn encode(&self) -> (out: Vec<u8>)
        requires
            self@.valid(),
        ensures
            out@ == self@.bytes(),
    {
        let mut out: Vec<u8> = Vec::new();
        put_u32(&mut out, self.source_chain);
        put_u64(&mut out, self.price);
        put_u64(&mut out, self.time);
        put_u64(&mut out, self.decimal);
        put_address(&mut out, &self.program_address);
        put_address(&mut out, &self.token_address);
        put_address(&mut out, &self.local_address);
        put_text(&mut out, &self.name);
        put_text(&mut out, &self.price_type);
        assert(out@ =~= self@.bytes());
        out
    }

    /// The answer that `bytes` starts with; what follows it is ignored.
    pub fn decode(bytes: &[u8]) -> (r: Option<CrossChainAnswer>)
        ensures
            match r {
                Some(a) => CrossChainFields::decode_front(bytes@) == Some(a@),
                None => CrossChainFields::decode_front(bytes@) is None,
            },
    {
        assert(bytes@.skip(0) =~= bytes@);
        let (source_chain, pos) = take_u32(bytes, 0)?;
        let (price, pos) = take_u64(bytes, pos)?;
        let (time, pos) = take_u64(bytes, pos)?;
        let (decimal, pos) = take_u64(bytes, pos)?;
        let (program_address, pos) = take_address(bytes, pos)?;
        let (token_address, pos) = take_address(bytes, pos)?;
        let (local_address, pos) = take_address(bytes, pos)?;
        let (name, pos) = take_text(bytes, pos)?;
        let (price_type, _) = take_text(bytes, pos)?;
        Some(
            CrossChainAnswer {
                source_chain,
                price,
                time,
                decimal,
                program_address,
                token_address,
                local_address,
                name,
                price_type,
            },
        )
    }
}

impl AnswerRecord {
    /// The schema of the answer.
    pub fn variant(&self) -> (v: Variant)
        ensures
            v == self@.variant(),
    {
        match self {
            AnswerRecord::SingleFeed(_) => Variant::SingleFeed,
            AnswerRecord::Aggregate(_) => Variant::Aggregate,
            AnswerRecord::CrossChain(_) => Variant::CrossChain,
        }
    }

    /// Whether the answer can be encoded.
    pub fn is_valid(&self) -> (b: bool)
        ensures
            b == self@.valid(),
    {
        match self {
            AnswerRecord::SingleFeed(a) => a.is_valid(),
            AnswerRecord::Aggregate(a) => a.is_valid(),
            AnswerRecord::CrossChain(a) => a.is_valid(),
        }
    }

    /// The answer's bytes.
    pub fn encode(&self) -> (out: Vec<u8>)
        requires
            self@.valid(),
        ensures
            out@ == self@.bytes(),
    {
        match self {
            AnswerRecord::SingleFeed(a) => a.encode(),
            AnswerRecord::Aggregate(a) => a.encode(),
            AnswerRecord::CrossChain(a) => a.encode(),
        }
    }

    /// Decodes the answer of schema `variant` that a destination starts with.
    /// The bytes after it are ignored: a destination may be larger than the
    /// answer it stores.
    pub fn decode(variant: Variant, bytes: &[u8]) -> (r: Result<AnswerRecord, RelayError>)
        ensures
            match r {
                Ok(a) => Fields::decode_front(variant, bytes@) == Some(a@),
                Err(e) => e == RelayError::MalformedDestination && Fields::decode_front(
                    variant,
                    bytes@,
                ) is None,
            },
    {
        let decoded = match variant {
            Variant::SingleFeed => match SingleFeedAnswer::decode(bytes) {
                Some(a) => Some(AnswerRecord::SingleFeed(a)),
                None => None,
            },
            Variant::Aggregate => match Answer::decode(bytes) {
                Some(a) => Some(AnswerRecord::Aggregate(a)),
                None => None,
            },
            Variant::CrossChain => match CrossChainAnswer::decode(bytes) {
                Some(a) => Some(AnswerRecord::CrossChain(a)),
                None => None,
            },
        };
        match decoded {
            Some(a) => Ok(a),
            None => Err(RelayError::MalformedDestination),
        }
    }
}

} // verus!
