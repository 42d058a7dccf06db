//! The older, wordier relay-plan grammar.
//!
//! This form spells the port out: `forward 0.0.0.0 port 80 to /var/run/app.door`,
//! with the words of the statement separated by single spaces.

use vstd::prelude::*;
use crate::addr::{
    SocketAddress, IpAddress, spec_ip, parse_ip, spec_u16_numeral, parse_u16_numeral,
};
use crate::text::{spec_split, split_seg, chars_of, string_of};

verus! {

/// Problems that can arise when parsing the wordier relay-plan form.
#[derive(Clone, Copy, Debug, PartialEq, Eq, Structural)]
pub enum RelayPlanParseError {
    /// The second word is not a network address.
    AddrParse,
    /// The fourth word is not a port number.
    ParseInt,
    /// The statement has fewer than six words.
    MissingComponents,
}

/// A forwarding rule: one network address, one door path.
#[derive(Debug, PartialEq)]
pub struct RelayPlan {
    pub network_address: SocketAddress,
    pub door_address: String,
}

/// The mathematical content of a relay plan.
pub struct RelayPlanView {
    pub network_address: SocketAddress,
    pub door_address: Seq<char>,
}

impl View for RelayPlan {
    type V = RelayPlanView;

    open spec fn view(&self) -> RelayPlanView {
        RelayPlanView { network_address: self.network_address, door_address: self.door_address@ }
    }
}

/// The relay plan written in `s` under the wordier grammar: six words
/// separated by single spaces, `forward ADDRESS port PORT to PATH`; only the
/// second, fourth and sixth words are examined.
pub open spec fn spec_relay_plan_words(s: Seq<char>) -> Result<RelayPlanView, RelayPlanParseError> {
    let words = spec_split(s, ' ');
    if words.len() < 6 {
        Err(RelayPlanParseError::MissingComponents)
    } else if spec_ip(words[1]) is None {
        Err(RelayPlanParseError::AddrParse)
    } else if spec_u16_numeral(words[3]) is None {
        Err(RelayPlanParseError::ParseInt)
    } else {
        Ok(
            RelayPlanView {
                network_address: SocketAddress {
                    ip: spec_ip(words[1])->Some_0,
                    port: spec_u16_numeral(words[3])->Some_0 as u16,
                },
                door_address: words[5],
            },
        )
    }
}

impl RelayPlan {
    /// Try to parse a relay plan in the wordier form.
    pub fn from_str(input: &str) -> (r: Result<RelayPlan, RelayPlanParseError>)
        ensures
            ({
                let sp = spec_relay_plan_words(input@);
                &&& r is Ok <==> sp is Ok
                &&& r is Ok ==> r->Ok_0@ == sp->Ok_0
                &&& r is Err ==> r->Err_0 == sp->Err_0
            }),
    {
        let v = chars_of(input);
        let words = split_seg(&v, 0, v.len(), ' ');
        proof {
            assert(v@.subrange(0, v@.len() as int) =~= v@);
            assert forall|k: int| 0 <= k < words@.len() implies words@[k]@ == words.deep_view()[k]
            by {}
        }
        if words.len() < 6 {
            return Err(RelayPlanParseError::MissingComponents);
        }
        proof {
            assert(words@[1]@.subrange(0, words@[1]@.len() as int) =~= words@[1]@);
            assert(words@[3]@.subrange(0, words@[3]@.len() as int) =~= words@[3]@);
        }
        let ip = match parse_ip(&words[1], 0, words[1].len()) {
            Some(ip) => ip,
            None => { return Err(RelayPlanParseError::AddrParse); },
        };
        let port = match parse_u16_numeral(&words[3], 0, words[3].len()) {
            Some(p) => p,
            None => { return Err(RelayPlanParseError::ParseInt); },
        };
        let door_address = string_of(&words[5]);
        Ok(RelayPlan { network_address: SocketAddress { ip, port }, door_address })
    }
}

} // verus!
