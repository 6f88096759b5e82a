//! The field mapper: from a source record to the answer that stores it.
//!
//! Every field of an answer has its counterpart in the source of the same
//! schema, so a mapped answer is determined by the source alone.

use crate::answer::{Answer, AnswerRecord, CrossChainAnswer, SingleFeedAnswer};
use crate::source::{AggregateFeed, Feed, Report, SourceRecord};
use vstd::prelude::*;

verus! {

impl Feed {
    /// The single-feed answer that stores this feed: each field is the
    /// feed's field of the same name, unchanged.
    pub fn into_answer(self) -> (answer: SingleFeedAnswer)
        ensures
            answer.address == self.address,
            answer.price == self.price,
            answer.decimal == self.decimal,
            answer.time == self.time,
            answer.name@ == self.name@,
            answer.price_type@ == self.price_type@,
            answer@ == self@,
    {
        SingleFeedAnswer {
            address: self.address,
            price: self.price,
            decimal: self.decimal,
            time: self.time,
            name: self.name,
            price_type: self.price_type,
        }
    }
}

impl AggregateFeed {
    /// The aggregate answer that stores this feed: each field is the feed's
    /// field of the same name, unchanged.
    pub fn into_answer(self) -> (answer: Answer)
        ensures
            answer.code@ == self.code@,
            answer.unit@ == self.unit@,
            answer.decimals == self.decimals,
            answer.aggregate_time == self.aggregate_time,
            answer.floor_price == self.floor_price,
            answer.ai_floor_price == self.ai_floor_price,
            answer.avg_price == self.avg_price,
            answer@ == self@,
    {
        Answer {
            code: self.code,
            unit: self.unit,
            decimals: self.decimals,
            aggregate_time: self.aggregate_time,
            floor_price: self.floor_price,
            ai_floor_price: self.ai_floor_price,
            avg_price: self.avg_price,
        }
    }
}

impl Report {
    /// The cross-chain answer that stores this report: each field is the
    /// report's field of the same name, unchanged.
    pub fn into_answer(self) -> (answer: CrossChainAnswer)
        ensures
            answer.source_chain == self.source_chain,
            answer.price == self.price,
            answer.time == self.time,
            answer.decimal == self.decimal,
            answer.program_address == self.program_address,
            answer.token_address == self.token_address,
            answer.local_address == self.local_address,
            answer.name@ == self.name@,
            answer.price_type@ == self.price_type@,
            answer@ == self@,
    {
        CrossChainAnswer {
            source_chain: self.source_chain,
            price: self.price,
            time: self.time,
            decimal: self.decimal,
            program_address: self.program_address,
            token_address: self.token_address,
            local_address: self.local_address,
            name: self.name,
            price_type: self.price_type,
        }
    }
}

/// Maps a source record onto the answer of its schema. The answer holds
/// the source's field values and nothing else.
pub fn map_fields(source: SourceRecord) -> (answer: AnswerRecord)
    ensures
        answer@ == source@,
{
    match source {
        SourceRecord::Feed(s) => AnswerRecord::SingleFeed(s.into_answer()),
        SourceRecord::AggregateFeed(s) => AnswerRecord::Aggregate(s.into_answer()),
        SourceRecord::Report(s) => AnswerRecord::CrossChain(s.into_answer()),
    }
}

} // verus!
