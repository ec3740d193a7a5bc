//! The key under which requests are aggregated, and its packing into a
//! single integer so that the pending map can be an integer-keyed hash map.

use vstd::prelude::*;
use vstd::arithmetic::div_mod::lemma_fundamental_div_mod_converse;
use crate::request::{FlagRequestType, Library};

verus! {

/// Key used to aggregate repeated `record()` calls in-process.
///
/// `bucket` is computed from the record time, not the flush time: a record
/// flushed late still lands in the bucket it arrived in.
#[derive(Debug, Clone, Copy, PartialEq, Eq, Hash, Structural)]
pub struct AggregationKey {
    pub team_id: i32,
    pub request_type: FlagRequestType,
    pub library: Option<Library>,
    pub bucket: u64,
}

/// 2^64: the bucket occupies the low 64 bits of a packed key.
pub open spec fn bucket_radix() -> int {
    0x1_0000_0000_0000_0000
}

pub open spec fn library_slot(l: Option<Library>) -> int {
    match l {
        None => 0,
        Some(Library::PosthogJs) => 1,
        Some(Library::PosthogNode) => 2,
        Some(Library::PosthogPython) => 3,
        Some(Library::PosthogPhp) => 4,
        Some(Library::PosthogRuby) => 5,
        Some(Library::PosthogGo) => 6,
        Some(Library::PosthogJava) => 7,
        Some(Library::PosthogDotnet) => 8,
        Some(Library::PosthogElixir) => 9,
        Some(Library::PosthogAndroid) => 10,
        Some(Library::PosthogIos) => 11,
        Some(Library::PosthogReactNative) => 12,
        Some(Library::PosthogFlutter) => 13,
        Some(Library::Other) => 14,
    }
}

pub open spec fn library_of_slot(s: int) -> Option<Library> {
    if s == 1 {
        Some(Library::PosthogJs)
    } else if s == 2 {
        Some(Library::PosthogNode)
    } else if s == 3 {
        Some(Library::PosthogPython)
    } else if s == 4 {
        Some(Library::PosthogPhp)
    } else if s == 5 {
        Some(Library::PosthogRuby)
    } else if s == 6 {
        Some(Library::PosthogGo)
    } else if s == 7 {
        Some(Library::PosthogJava)
    } else if s == 8 {
        Some(Library::PosthogDotnet)
    } else if s == 9 {
        Some(Library::PosthogElixir)
    } else if s == 10 {
        Some(Library::PosthogAndroid)
    } else if s == 11 {
        Some(Library::PosthogIos)
    } else if s == 12 {
        Some(Library::PosthogReactNative)
    } else if s == 13 {
        Some(Library::PosthogFlutter)
    } else if s == 14 {
        Some(Library::Other)
    } else {
        None
    }
}

pub open spec fn request_type_slot(t: FlagRequestType) -> int {
    match t {
        FlagRequestType::Decide => 0,
        FlagRequestType::FlagDefinitions => 1,
    }
}

/// The high part of a packed key: team, request type and library.
pub open spec fn key_high(k: AggregationKey) -> int {
    (k.team_id as int + 0x8000_0000) * 64 + request_type_slot(k.request_type) * 32 + library_slot(
        k.library,
    )
}

/// The packed form of a key: `key_high(k) * 2^64 + k.bucket`.
pub open spec fn key_code(k: AggregationKey) -> u128 {
    (key_high(k) * bucket_radix() + k.bucket) as u128
}

/// The key that a packed integer stands for.
pub open spec fn decode_key(c: u128) -> AggregationKey {
    let high = c as int / bucket_radix();
    AggregationKey {
        team_id: (high / 64 - 0x8000_0000) as i32,
        request_type: if (high / 32) % 2 == 0 {
            FlagRequestType::Decide
        } else {
            FlagRequestType::FlagDefinitions
        },
        library: library_of_slot(high % 32),
        bucket: (c as int % bucket_radix()) as u64,
    }
}

/// An integer that is the packed form of some key.
pub open spec fn is_key_code(c: u128) -> bool {
    key_code(decode_key(c)) == c
}

proof fn lemma_slots(k: AggregationKey)
    ensures
        0 <= library_slot(k.library) < 32,
        library_of_slot(library_slot(k.library)) == k.library,
        0 <= request_type_slot(k.request_type) < 2,
        0 <= k.team_id as int + 0x8000_0000 < 0x1_0000_0000,
        0 <= key_high(k) < 0x40_0000_0000,
{
}

/// Packing is exact: the packed value is `key_high * 2^64 + bucket`, and
/// unpacking it gives the key back.
pub proof fn lemma_key_code_roundtrip(k: AggregationKey)
    ensures
        key_code(k) as int == key_high(k) * bucket_radix() + k.bucket,
        decode_key(key_code(k)) == k,
        is_key_code(key_code(k)),
{
    lemma_slots(k);
    let c = key_code(k);
    let high = key_high(k);
    assert(c as int == high * bucket_radix() + k.bucket);
    lemma_fundamental_div_mod_converse(c as int, bucket_radix(), high, k.bucket as int);
    let lib = library_slot(k.library);
    let rt = request_type_slot(k.request_type);
    let team = k.team_id as int + 0x8000_0000;
    lemma_fundamental_div_mod_converse(high, 32, team * 2 + rt, lib);
    lemma_fundamental_div_mod_converse(high, 64, team, rt * 32 + lib);
    lemma_fundamental_div_mod_converse(high / 32, 2, team, rt);
    let d = decode_key(c);
    assert(d.team_id == k.team_id);
    assert(d.request_type == k.request_type);
    assert(d.library == k.library);
    assert(d.bucket == k.bucket);
}

/// Distinct keys have distinct packed forms.
pub proof fn lemma_key_code_injective(a: AggregationKey, b: AggregationKey)
    ensures
        key_code(a) == key_code(b) <==> a == b,
{
    lemma_key_code_roundtrip(a);
    lemma_key_code_roundtrip(b);
}

fn library_slot_of(l: Option<Library>) -> (s: u128)
    ensures
        s as int == library_slot(l),
{
    match l {
        None => 0,
        Some(Library::PosthogJs) => 1,
        Some(Library::PosthogNode) => 2,
        Some(Library::PosthogPython) => 3,
        Some(Library::PosthogPhp) => 4,
        Some(Library::PosthogRuby) => 5,
        Some(Library::PosthogGo) => 6,
        Some(Library::PosthogJava) => 7,
        Some(Library::PosthogDotnet) => 8,
        Some(Library::PosthogElixir) => 9,
        Some(Library::PosthogAndroid) => 10,
        Some(Library::PosthogIos) => 11,
        Some(Library::PosthogReactNative) => 12,
        Some(Library::PosthogFlutter) => 13,
        Some(Library::Other) => 14,
    }
}

fn library_at_slot(s: u128) -> (l: Option<Library>)
    ensures
        l == library_of_slot(s as int),
{
    match s {
        1 => Some(Library::PosthogJs),
        2 => Some(Library::PosthogNode),
        3 => Some(Library::PosthogPython),
        4 => Some(Library::PosthogPhp),
        5 => Some(Library::PosthogRuby),
        6 => Some(Library::PosthogGo),
        7 => Some(Library::PosthogJava),
        8 => Some(Library::PosthogDotnet),
        9 => Some(Library::PosthogElixir),
        10 => Some(Library::PosthogAndroid),
        11 => Some(Library::PosthogIos),
        12 => Some(Library::PosthogReactNative),
        13 => Some(Library::PosthogFlutter),
        14 => Some(Library::Other),
        _ => None,
    }
}

impl AggregationKey {
    /// The packed form of this key.
    pub fn code(&self) -> (c: u128)
        ensures
            c == key_code(*self),
    {
        proof {
            lemma_slots(*self);
        }
        let team: u128 = (self.team_id as i64 + 0x8000_0000i64) as u128;
        let rt: u128 = match self.request_type {
            FlagRequestType::Decide => 0,
            FlagRequestType::FlagDefinitions => 1,
        };
        let high: u128 = team * 64 + rt * 32 + library_slot_of(self.library);
        high * 0x1_0000_0000_0000_0000u128 + self.bucket as u128
    }

    /// The key that a packed integer stands for.
    pub fn from_code(c: u128) -> (k: AggregationKey)
        requires
            is_key_code(c),
        ensures
            k == decode_key(c),
            key_code(k) == c,
    {
        proof {
            lemma_slots(decode_key(c));
            lemma_key_code_roundtrip(decode_key(c));
        }
        let high: u128 = c / 0x1_0000_0000_0000_0000u128;
        let bucket: u64 = (c % 0x1_0000_0000_0000_0000u128) as u64;
        let team: u128 = high / 64;
        assert(team < 0x1_0000_0000) by {
            assert(c as int / bucket_radix() == key_high(decode_key(c)));
        }
        let team_id: i32 = (team as i64 - 0x8000_0000i64) as i32;
        let request_type = if (high / 32) % 2 == 0 {
            FlagRequestType::Decide
        } else {
            FlagRequestType::FlagDefinitions
        };
        let library = library_at_slot(high % 32);
        AggregationKey { team_id, request_type, library, bucket }
    }
}

} // verus!
