//! The record layouts: for each schema its fields, their order on the wire
//! and the two directions between field values and bytes.
//!
//! A schema is shared by the record an oracle publishes and by the answer
//! that stores it, so the models here are the views of both.

use crate::wire::{
    lemma_parse_address_exact, lemma_parse_address_written, lemma_parse_text_exact,
    lemma_parse_text_written, lemma_parse_u32_exact, lemma_parse_u32_written,
    lemma_parse_u64_exact, lemma_parse_u64_written, parse_address, parse_text, parse_u32,
    parse_u64, text_bytes, text_fits, ADDRESS_LEN,
};
use vstd::bytes::*;
use vstd::prelude::*;
use vstd::seq_lib::lemma_concat_associative;
use vstd::utf8::*;

verus! {

/// The schema a relay works on.
#[derive(Clone, Copy, Debug, PartialEq, Eq, Structural)]
pub enum Variant {
    /// A price feed stored as a single-feed answer.
    SingleFeed,
    /// An aggregated feed stored as an aggregate answer.
    Aggregate,
    /// A cross-chain report stored as a cross-chain answer.
    CrossChain,
}

/// The value read by a `parse_*` function that succeeded.
pub open spec fn field<T>(read: Option<(T, Seq<u8>)>) -> T {
    read.unwrap().0
}

/// The bytes left by a `parse_*` function that succeeded.
pub open spec fn after<T>(read: Option<(T, Seq<u8>)>) -> Seq<u8> {
    read.unwrap().1
}

/// Field values of the single-feed schema, in wire order.
pub struct SingleFeedFields {
    pub address: Seq<u8>,
    pub price: u64,
    pub decimal: u64,
    pub time: u64,
    pub name: Seq<char>,
    pub price_type: Seq<char>,
}

/// Field values of the aggregate schema, in wire order.
pub struct AggregateFields {
    pub code: Seq<char>,
    pub unit: Seq<char>,
    pub decimals: u64,
    pub aggregate_time: u64,
    pub floor_price: u64,
    pub ai_floor_price: u64,
    pub avg_price: u64,
}

/// Field values of the cross-chain schema, in wire order.
pub struct CrossChainFields {
    pub source_chain: u32,
    pub price: u64,
    pub time: u64,
    pub decimal: u64,
    pub program_address: Seq<u8>,
    pub token_address: Seq<u8>,
    pub local_address: Seq<u8>,
    pub name: Seq<char>,
    pub price_type: Seq<char>,
}

impl SingleFeedFields {
    /// Addresses are 32 bytes and each text fits its length prefix.
    pub open spec fn valid(self) -> bool {
        &&& self.address.len() == ADDRESS_LEN
        &&& text_fits(self.name)
        &&& text_fits(self.price_type)
    }

    /// The encoding: every field in order, nothing between them.
    pub open spec fn bytes(self) -> Seq<u8> {
        self.address + spec_u64_to_le_bytes(self.price) + spec_u64_to_le_bytes(self.decimal)
            + spec_u64_to_le_bytes(self.time) + text_bytes(self.name) + text_bytes(
            self.price_type,
        )
    }

    /// Length of the encoding.
    pub open spec fn encoded_len(self) -> nat {
        64 + encode_utf8(self.name).len() + encode_utf8(self.price_type).len()
    }

    /// Reads the fields from the front of `s`, leaving what follows them.
    pub open spec fn parse(s: Seq<u8>) -> Option<(SingleFeedFields, Seq<u8>)> {
        let address = parse_address(s);
        let price = parse_u64(after(address));
        let decimal = parse_u64(after(price));
        let time = parse_u64(after(decimal));
        let name = parse_text(after(time));
        let price_type = parse_text(after(name));
        if address is Some && price is Some && decimal is Some && time is Some && name is Some
            && price_type is Some {
            Some(
                (
                    SingleFeedFields {
                        address: field(address),
                        price: field(price),
                        decimal: field(decimal),
                        time: field(time),
                        name: field(name),
                        price_type: field(price_type),
                    },
                    after(price_type),
                ),
            )
        } else {
            None
        }
    }

    /// Decodes the record that `s` starts with; bytes after it are ignored.
    pub open spec fn decode_front(s: Seq<u8>) -> Option<SingleFeedFields> {
        match Self::parse(s) {
            Some((f, _)) => Some(f),
            None => None,
        }
    }

    /// Decodes the record that is all of `s`: nothing may follow it.
    pub open spec fn decode_whole(s: Seq<u8>) -> Option<SingleFeedFields> {
        match Self::parse(s) {
            Some((f, rest)) => if rest.len() == 0 {
                Some(f)
            } else {
                None
            },
            None => None,
        }
    }

    /// The encoding followed by `rest`, grouped from the last field back.
    proof fn lemma_bytes_then(self, rest: Seq<u8>)
        ensures
            self.bytes() + rest == self.address + (spec_u64_to_le_bytes(self.price) + (
            spec_u64_to_le_bytes(self.decimal) + (spec_u64_to_le_bytes(self.time) + (text_bytes(
                self.name,
            ) + (text_bytes(self.price_type) + rest))))),
    {
        let s5 = text_bytes(self.price_type) + rest;
        let s4 = text_bytes(self.name) + s5;
        let s3 = spec_u64_to_le_bytes(self.time) + s4;
        let s2 = spec_u64_to_le_bytes(self.decimal) + s3;
        let b1 = self.address + spec_u64_to_le_bytes(self.price);
        let b2 = b1 + spec_u64_to_le_bytes(self.decimal);
        let b3 = b2 + spec_u64_to_le_bytes(self.time);
        let b4 = b3 + text_bytes(self.name);
        lemma_concat_associative(b4, text_bytes(self.price_type), rest);
        lemma_concat_associative(b3, text_bytes(self.name), s5);
        lemma_concat_associative(b2, spec_u64_to_le_bytes(self.time), s4);
        lemma_concat_associative(b1, spec_u64_to_le_bytes(self.decimal), s3);
        lemma_concat_associative(self.address, spec_u64_to_le_bytes(self.price), s2);
    }

    /// Encoded fields read back as themselves, whatever follows them.
    pub proof fn lemma_parse_written(self, rest: Seq<u8>)
        requires
            self.valid(),
        ensures
            Self::parse(self.bytes() + rest) == Some((self, rest)),
            self.bytes().len() == self.encoded_len(),
    {
        let s5 = text_bytes(self.price_type) + rest;
        let s4 = text_bytes(self.name) + s5;
        let s3 = spec_u64_to_le_bytes(self.time) + s4;
        let s2 = spec_u64_to_le_bytes(self.decimal) + s3;
        let s1 = spec_u64_to_le_bytes(self.price) + s2;
        self.lemma_bytes_then(rest);
        lemma_parse_address_written(self.address, s1);
        lemma_parse_u64_written(self.price, s2);
        lemma_parse_u64_written(self.decimal, s3);
        lemma_parse_u64_written(self.time, s4);
        lemma_parse_text_written(self.name, s5);
        lemma_parse_text_written(self.price_type, rest);
    }

    /// Bytes that fields were read from start with the encoding of those
    /// fields, and the fields are valid.
    pub proof fn lemma_parse_exact(s: Seq<u8>)
        ensures
            Self::parse(s) matches Some((f, rest)) ==> f.valid() && f.bytes() + rest == s,
    {
        if let Some((f, rest)) = Self::parse(s) {
            let address = parse_address(s);
            let price = parse_u64(after(address));
            let decimal = parse_u64(after(price));
            let time = parse_u64(after(decimal));
            let name = parse_text(after(time));
            lemma_parse_address_exact(s);
            lemma_parse_u64_exact(after(address));
            lemma_parse_u64_exact(after(price));
            lemma_parse_u64_exact(after(decimal));
            lemma_parse_text_exact(after(time));
            lemma_parse_text_exact(after(name));
            f.lemma_bytes_then(rest);
        }
    }
}

impl AggregateFields {
    /// Each text fits its length prefix.
    pub open spec fn valid(self) -> bool {
        &&& text_fits(self.code)
        &&& text_fits(self.unit)
    }

    /// The encoding: every field in order, nothing between them.
    pub open spec fn bytes(self) -> Seq<u8> {
        text_bytes(self.code) + text_bytes(self.unit) + spec_u64_to_le_bytes(self.decimals)
            + spec_u64_to_le_bytes(self.aggregate_time) + spec_u64_to_le_bytes(self.floor_price)
            + spec_u64_to_le_bytes(self.ai_floor_price) + spec_u64_to_le_bytes(self.avg_price)
    }

    /// Length of the encoding.
    pub open spec fn encoded_len(self) -> nat {
        48 + encode_utf8(self.code).len() + encode_utf8(self.unit).len()
    }

    /// Reads the fields from the front of `s`, leaving what follows them.
    pub open spec fn parse(s: Seq<u8>) -> Option<(AggregateFields, Seq<u8>)> {
        let code = parse_text(s);
        let unit = parse_text(after(code));
        let decimals = parse_u64(after(unit));
        let aggregate_time = parse_u64(after(decimals));
        let floor_price = parse_u64(after(aggregate_time));
        let ai_floor_price = parse_u64(after(floor_price));
        let avg_price = parse_u64(after(ai_floor_price));
        if code is Some && unit is Some && decimals is Some && aggregate_time is Some
            && floor_price is Some && ai_floor_price is Some && avg_price is Some {
            Some(
                (
                    AggregateFields {
                        code: field(code),
                        unit: field(unit),
                        decimals: field(decimals),
                        aggregate_time: field(aggregate_time),
                        floor_price: field(floor_price),
                        ai_floor_price: field(ai_floor_price),
                        avg_price: field(avg_price),
                    },
                    after(avg_price),
                ),
            )
        } else {
            None
        }
    }

    /// Decodes the record that `s` starts with; bytes after it are ignored.
    pub open spec fn decode_front(s: Seq<u8>) -> Option<AggregateFields> {
        match Self::parse(s) {
            Some((f, _)) => Some(f),
            None => None,
        }
    }

    /// Decodes the record that is all of `s`: nothing may follow it.
    pub open spec fn decode_whole(s: Seq<u8>) -> Option<AggregateFields> {
        match Self::parse(s) {
            Some((f, rest)) => if rest.len() == 0 {
                Some(f)
            } else {
                None
            },
            None => None,
        }
    }

    /// The encoding followed by `rest`, grouped from the last field back.
    proof fn lemma_bytes_then(self, rest: Seq<u8>)
        ensures
            self.bytes() + rest == text_bytes(self.code) + (text_bytes(self.unit) + (
            spec_u64_to_le_bytes(self.decimals) + (spec_u64_to_le_bytes(self.aggregate_time) + (
            spec_u64_to_le_bytes(self.floor_price) + (spec_u64_to_le_bytes(self.ai_floor_price)
                + (spec_u64_to_le_bytes(self.avg_price) + rest)))))),
    {
        let s6 = spec_u64_to_le_bytes(self.avg_price) + rest;
        let s5 = spec_u64_to_le_bytes(self.ai_floor_price) + s6;
        let s4 = spec_u64_to_le_bytes(self.floor_price) + s5;
        let s3 = spec_u64_to_le_bytes(self.aggregate_time) + s4;
        let s2 = spec_u64_to_le_bytes(self.decimals) + s3;
        let b1 = text_bytes(self.code) + text_bytes(self.unit);
        let b2 = b1 + spec_u64_to_le_bytes(self.decimals);
        let b3 = b2 + spec_u64_to_le_bytes(self.aggregate_time);
        let b4 = b3 + spec_u64_to_le_bytes(self.floor_price);
        let b5 = b4 + spec_u64_to_le_bytes(self.ai_floor_price);
        lemma_concat_associative(b5, spec_u64_to_le_bytes(self.avg_price), rest);
        lemma_concat_associative(b4, spec_u64_to_le_bytes(self.ai_floor_price), s6);
        lemma_concat_associative(b3, spec_u64_to_le_bytes(self.floor_price), s5);
        lemma_concat_associative(b2, spec_u64_to_le_bytes(self.aggregate_time), s4);
        lemma_concat_associative(b1, spec_u64_to_le_bytes(self.decimals), s3);
        lemma_concat_associative(text_bytes(self.code), text_bytes(self.unit), s2);
    }

    /// Encoded fields read back as themselves, whatever follows them.
    pub proof fn lemma_parse_written(self, rest: Seq<u8>)
        requires
            self.valid(),
        ensures
            Self::parse(self.bytes() + rest) == Some((self, rest)),
            self.bytes().len() == self.encoded_len(),
    {
        let s6 = spec_u64_to_le_bytes(self.avg_price) + rest;
        let s5 = spec_u64_to_le_bytes(self.ai_floor_price) + s6;
        let s4 = spec_u64_to_le_bytes(self.floor_price) + s5;
        let s3 = spec_u64_to_le_bytes(self.aggregate_time) + s4;
        let s2 = spec_u64_to_le_bytes(self.decimals) + s3;
        let s1 = text_bytes(self.unit) + s2;
        self.lemma_bytes_then(rest);
        lemma_parse_text_written(self.code, s1);
        lemma_parse_text_written(self.unit, s2);
        lemma_parse_u64_written(self.decimals, s3);
        lemma_parse_u64_written(self.aggregate_time, s4);
        lemma_parse_u64_written(self.floor_price, s5);
        lemma_parse_u64_written(self.ai_floor_price, s6);
        lemma_parse_u64_written(self.avg_price, rest);
    }

    /// Bytes that fields were read from start with the encoding of those
    /// fields, and the fields are valid.
    pub proof fn lemma_parse_exact(s: Seq<u8>)
        ensures
            Self::parse(s) matches Some((f, rest)) ==> f.valid() && f.bytes() + rest == s,
    {
        if let Some((f, rest)) = Self::parse(s) {
            let code = parse_text(s);
            let unit = parse_text(after(code));
            let decimals = parse_u64(after(unit));
            let aggregate_time = parse_u64(after(decimals));
            let floor_price = parse_u64(after(aggregate_time));
            let ai_floor_price = parse_u64(after(floor_price));
            lemma_parse_text_exact(s);
            lemma_parse_text_exact(after(code));
            lemma_parse_u64_exact(after(unit));
            lemma_parse_u64_exact(after(decimals));
            lemma_parse_u64_exact(after(aggregate_time));
            lemma_parse_u64_exact(after(floor_price));
            lemma_parse_u64_exact(after(ai_floor_price));
            f.lemma_bytes_then(rest);
        }
    }
}

impl CrossChainFields {
    /// Addresses are 32 bytes and each text fits its length prefix.
    pub open spec fn valid(self) -> bool {
        &&& self.program_address.len() == ADDRESS_LEN
        &&& self.token_address.len() == ADDRESS_LEN
        &&& self.local_address.len() == ADDRESS_LEN
        &&& text_fits(self.name)
        &&& text_fits(self.price_type)
    }

    /// The encoding: every field in order, nothing between them.
    pub open spec fn bytes(self) -> Seq<u8> {
        spec_u32_to_le_bytes(self.source_chain) + spec_u64_to_le_bytes(self.price)
            + spec_u64_to_le_bytes(self.time) + spec_u64_to_le_bytes(self.decimal)
            + self.program_address + self.token_address + self.local_address + text_bytes(
            self.name,
        ) + text_bytes(self.price_type)
    }

    /// Length of the encoding.
    pub open spec fn encoded_len(self) -> nat {
        132 + encode_utf8(self.name).len() + encode_utf8(self.price_type).len()
    }

    /// Reads the fields from the front of `s`, leaving what follows them.
    pub open spec fn parse(s: Seq<u8>) -> Option<(CrossChainFields, Seq<u8>)> {
        let source_chain = parse_u32(s);
        let price = parse_u64(after(source_chain));
        let time = parse_u64(after(price));
        let decimal = parse_u64(after(time));
        let program_address = parse_address(after(decimal));
        let token_address = parse_address(after(program_address));
        let local_address = parse_address(after(token_address));
        let name = parse_text(after(local_address));
        let price_type = parse_text(after(name));
        if source_chain is Some && price is Some && time is Some && decimal is Some
            && program_address is Some && token_address is Some && local_address is Some
            && name is Some && price_type is Some {
            Some(
                (
                    CrossChainFields {
                        source_chain: field(source_chain),
                        price: field(price),
                        time: field(time),
                        decimal: field(decimal),
                        program_address: field(program_address),
                        token_address: field(token_address),
                        local_address: field(local_address),
                        name: field(name),
                        price_type: field(price_type),
                    },
                    after(price_type),
                ),
            )
        } else {
            None
        }
    }

    /// Decodes the record that `s` starts with; bytes after it are ignored.
    pub open spec fn decode_front(s: Seq<u8>) -> Option<CrossChainFields> {
        match Self::parse(s) {
            Some((f, _)) => Some(f),
            None => None,
        }
    }

    /// Decodes the record that is all of `s`: nothing may follow it.
    pub open spec fn decode_whole(s: Seq<u8>) -> Option<CrossChainFields> {
        match Self::parse(s) {
            Some((f, rest)) => if rest.len() == 0 {
                Some(f)
            } else {
                None
            },
            None => None,
        }
    }

    /// The encoding followed by `rest`, grouped from the last field back.
    proof fn lemma_bytes_then(self, rest: Seq<u8>)
        ensures
            self.bytes() + rest == spec_u32_to_le_bytes(self.source_chain) + (spec_u64_to_le_bytes(
                self.price,
            ) + (spec_u64_to_le_bytes(self.time) + (spec_u64_to_le_bytes(self.decimal) + (
            self.program_address + (self.token_address + (self.local_address + (text_bytes(
                self.name,
            ) + (text_bytes(self.price_type) + rest)))))))),
    {
        let s8 = text_bytes(self.price_type) + rest;
        let s7 = text_bytes(self.name) + s8;
        let s6 = self.local_address + s7;
        let s5 = self.token_address + s6;
        let s4 = self.program_address + s5;
        let s3 = spec_u64_to_le_bytes(self.decimal) + s4;
        let s2 = spec_u64_to_le_bytes(self.time) + s3;
        let b0 = spec_u32_to_le_bytes(self.source_chain);
        let b1 = b0 + spec_u64_to_le_bytes(self.price);
        let b2 = b1 + spec_u64_to_le_bytes(self.time);
        let b3 = b2 + spec_u64_to_le_bytes(self.decimal);
        let b4 = b3 + self.program_address;
        let b5 = b4 + self.token_address;
        let b6 = b5 + self.local_address;
        let b7 = b6 + text_bytes(self.name);
        lemma_concat_associative(b7, text_bytes(self.price_type), rest);
        lemma_concat_associative(b6, text_bytes(self.name), s8);
        lemma_concat_associative(b5, self.local_address, s7);
        lemma_concat_associative(b4, self.token_address, s6);
        lemma_concat_associative(b3, self.program_address, s5);
        lemma_concat_associative(b2, spec_u64_to_le_bytes(self.decimal), s4);
        lemma_concat_associative(b1, spec_u64_to_le_bytes(self.time), s3);
        lemma_concat_associative(b0, spec_u64_to_le_bytes(self.price), s2);
    }

    /// Encoded fields read back as themselves, whatever follows them.
    pub proof fn lemma_parse_written(self, rest: Seq<u8>)
        requires
            self.valid(),
        ensures
            Self::parse(self.bytes() + rest) == Some((self, rest)),
            self.bytes().len() == self.encoded_len(),
    {
        let s8 = text_bytes(self.price_type) + rest;
        let s7 = text_bytes(self.name) + s8;
        let s6 = self.local_address + s7;
        let s5 = self.token_address + s6;
        let s4 = self.program_address + s5;
        let s3 = spec_u64_to_le_bytes(self.decimal) + s4;
        let s2 = spec_u64_to_le_bytes(self.time) + s3;
        let s1 = spec_u64_to_le_bytes(self.price) + s2;
        self.lemma_bytes_then(rest);
        lemma_parse_u32_written(self.source_chain, s1);
        lemma_parse_u64_written(self.price, s2);
        lemma_parse_u64_written(self.time, s3);
        lemma_parse_u64_written(self.decimal, s4);
        lemma_parse_address_written(self.program_address, s5);
        lemma_parse_address_written(self.token_address, s6);
        lemma_parse_address_written(self.local_address, s7);
        lemma_parse_text_written(self.name, s8);
        lemma_parse_text_written(self.price_type, rest);
    }

    /// Bytes that fields were read from start with the encoding of those
    /// fields, and the fields are valid.
    pub proof fn lemma_parse_exact(s: Seq<u8>)
        ensures
            Self::parse(s) matches Some((f, rest)) ==> f.valid() && f.bytes() + rest == s,
    {
        if let Some((f, rest)) = Self::parse(s) {
            let source_chain = parse_u32(s);
            let price = parse_u64(after(source_chain));
            let time = parse_u64(after(price));
            let decimal = parse_u64(after(time));
            let program_address = parse_address(after(decimal));
            let token_address = parse_address(after(program_address));
            let local_address = parse_address(after(token_address));
            let name = parse_text(after(local_address));
            lemma_parse_u32_exact(s);
            lemma_parse_u64_exact(after(source_chain));
            lemma_parse_u64_exact(after(price));
            lemma_parse_u64_exact(after(time));
            lemma_parse_address_exact(after(decimal));
            lemma_parse_address_exact(after(program_address));
            lemma_parse_address_exact(after(token_address));
            lemma_parse_text_exact(after(local_address));
            lemma_parse_text_exact(after(name));
            f.lemma_bytes_then(rest);
        }
    }
}

/// Field values of any schema.
pub enum Fields {
    SingleFeed(SingleFeedFields),
    Aggregate(AggregateFields),
    CrossChain(CrossChainFields),
}

impl Fields {
    /// The schema these fields belong to.
    pub open spec fn variant(self) -> Variant {
        match self {
            Fields::SingleFeed(_) => Variant::SingleFeed,
            Fields::Aggregate(_) => Variant::Aggregate,
            Fields::CrossChain(_) => Variant::CrossChain,
        }
    }

    /// Validity under the fields' own schema.
    pub open spec fn valid(self) -> bool {
        match self {
            Fields::SingleFeed(f) => f.valid(),
            Fields::Aggregate(f) => f.valid(),
            Fields::CrossChain(f) => f.valid(),
        }
    }

    /// The encoding under the fields' own schema.
    pub open spec fn bytes(self) -> Seq<u8> {
        match self {
            Fields::SingleFeed(f) => f.bytes(),
            Fields::Aggregate(f) => f.bytes(),
            Fields::CrossChain(f) => f.bytes(),
        }
    }

    /// Length of the encoding.
    pub open spec fn encoded_len(self) -> nat {
        match self {
            Fields::SingleFeed(f) => f.encoded_len(),
            Fields::Aggregate(f) => f.encoded_len(),
            Fields::CrossChain(f) => f.encoded_len(),
        }
    }

    /// Reads the fields of `variant` from the front of `s`.
    pub open spec fn parse(variant: Variant, s: Seq<u8>) -> Option<(Fields, Seq<u8>)> {
        match variant {
            Variant::SingleFeed => match SingleFeedFields::parse(s) {
                Some((f, rest)) => Some((Fields::SingleFeed(f), rest)),
                None => None,
            },
            Variant::Aggregate => match AggregateFields::parse(s) {
                Some((f, rest)) => Some((Fields::Aggregate(f), rest)),
                None => None,
            },
            Variant::CrossChain => match CrossChainFields::parse(s) {
                Some((f, rest)) => Some((Fields::CrossChain(f), rest)),
                None => None,
            },
        }
    }

    /// Decodes the record of `variant` that `s` starts with; bytes after it
    /// are ignored. This is how a stored answer is read: its buffer may be
    /// longer than the record.
    pub open spec fn decode_front(variant: Variant, s: Seq<u8>) -> Option<Fields> {
        match Self::parse(variant, s) {
            Some((f, _)) => Some(f),
            None => None,
        }
    }

    /// Decodes the record of `variant` that is all of `s`: nothing may follow
    /// it. This is how a published record is read.
    pub open spec fn decode_whole(variant: Variant, s: Seq<u8>) -> Option<Fields> {
        match Self::parse(variant, s) {
            Some((f, rest)) => if rest.len() == 0 {
                Some(f)
            } else {
                None
            },
            None => None,
        }
    }

    /// Encoded fields read back as themselves, whatever follows them.
    pub proof fn lemma_parse_written(self, rest: Seq<u8>)
        requires
            self.valid(),
        ensures
            Self::parse(self.variant(), self.bytes() + rest) == Some((self, rest)),
            self.bytes().len() == self.encoded_len(),
    {
        match self {
            Fields::SingleFeed(f) => f.lemma_parse_written(rest),
            Fields::Aggregate(f) => f.lemma_parse_written(rest),
            Fields::CrossChain(f) => f.lemma_parse_written(rest),
        }
    }

    /// Bytes that fields were read from start with the encoding of those
    /// fields, which are valid and of the schema asked for.
    pub proof fn lemma_parse_exact(variant: Variant, s: Seq<u8>)
        ensures
            Self::parse(variant, s) matches Some((f, rest)) ==> f.valid() && f.variant() == variant
                && f.bytes() + rest == s,
    {
        SingleFeedFields::lemma_parse_exact(s);
        AggregateFields::lemma_parse_exact(s);
        CrossChainFields::lemma_parse_exact(s);
    }

    /// Round trip: the encoding of a valid record decodes to that record,
    /// read as a whole buffer or as the front of a longer one, and is
    /// `encoded_len` bytes long.
    pub proof fn lemma_round_trip(self, rest: Seq<u8>)
        requires
            self.valid(),
        ensures
            Self::decode_whole(self.variant(), self.bytes()) == Some(self),
            Self::decode_front(self.variant(), self.bytes() + rest) == Some(self),
            self.bytes().len() == self.encoded_len(),
    {
        self.lemma_parse_written(rest);
        self.lemma_parse_written(Seq::empty());
        assert(self.bytes() + Seq::<u8>::empty() =~= self.bytes());
    }

    /// A buffer that decodes as a whole is the encoding of the record it
    /// decodes to, so encoding that record again gives back the buffer, at
    /// its length.
    pub proof fn lemma_decoded_whole_is_encoding(variant: Variant, s: Seq<u8>)
        ensures
            Self::decode_whole(variant, s) matches Some(f) ==> f.valid() && f.variant() == variant
                && f.bytes() == s,
    {
        Self::lemma_parse_exact(variant, s);
        if let Some((f, rest)) = Self::parse(variant, s) {
            if rest.len() == 0 {
                assert(f.bytes() + rest =~= f.bytes());
            }
        }
    }
}

} // verus!
