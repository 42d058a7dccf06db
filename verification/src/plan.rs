//! Relay plans: the statements that tell the relay what to forward where.
//!
//! A relay plan names one client-facing network address and one
//! application-facing door path, in the form
//! `forward tcp 0.0.0.0:80 to /var/run/hello_web.door`. Whether those
//! addresses exist is a problem for later in the process; this module only
//! cares about reading them out of a configuration string.

use vstd::prelude::*;
use crate::addr::{SocketAddress, spec_socket, parse_socket};
use crate::text::{spec_tokens, tokenize, chars_of, eq_lit, string_of, spec_lines, lines_of};

verus! {

/// How the relay should listen on a socket.
#[derive(Clone, Copy, Debug, PartialEq, Eq, Structural)]
pub enum RelayProtocol {
    Tcp,
    Udp,
}

/// Problems that can arise when parsing a relay plan.
#[derive(Clone, Copy, Debug, PartialEq, Eq, Structural)]
pub enum ParseError {
    /// The second word of the statement is not a valid network address.
    Network,
    /// The statement does not follow the `forward protocol address to path`
    /// shape.
    Syntax,
}

/// The relay protocol written in `s`.
pub open spec fn spec_relay_protocol(s: Seq<char>) -> Result<RelayProtocol, ParseError> {
    if s == "tcp"@ {
        Ok(RelayProtocol::Tcp)
    } else if s == "udp"@ {
        Ok(RelayProtocol::Udp)
    } else {
        Err(ParseError::Syntax)
    }
}

impl RelayProtocol {
    /// Try to parse a relay protocol name.
    pub fn from_str(input: &str) -> (r: Result<RelayProtocol, ParseError>)
        ensures
            r == spec_relay_protocol(input@),
    {
        let v = chars_of(input);
        Self::from_chars(&v)
    }

    /// Try to parse a relay protocol name given as characters.
    fn from_chars(v: &Vec<char>) -> (r: Result<RelayProtocol, ParseError>)
        ensures
            r == spec_relay_protocol(v@),
    {
        if eq_lit(v, "tcp") {
            Ok(RelayProtocol::Tcp)
        } else if eq_lit(v, "udp") {
            Ok(RelayProtocol::Udp)
        } else {
            Err(ParseError::Syntax)
        }
    }
}

/// An individual forwarding statement: network ingress, door egress, and the
/// protocol to listen under.
#[derive(Debug, PartialEq)]
pub struct RelayPlan {
    /// Network ingress from the client.
    pub network_address: SocketAddress,
    /// Door egress to the application.
    pub application_path: String,
    /// How to listen on the socket.
    pub protocol: RelayProtocol,
}

/// The mathematical content of a relay plan.
pub struct RelayPlanView {
    pub network_address: SocketAddress,
    pub application_path: Seq<char>,
    pub protocol: RelayProtocol,
}

impl View for RelayPlan {
    type V = RelayPlanView;

    open spec fn view(&self) -> RelayPlanView {
        RelayPlanView {
            network_address: self.network_address,
            application_path: self.application_path@,
            protocol: self.protocol,
        }
    }
}

/// The relay plan written in the tokens `toks`: `forward`, a protocol, an
/// address, `to`, and a door path; later tokens are ignored.
pub open spec fn spec_relay_plan_tokens(toks: Seq<Seq<char>>) -> Result<RelayPlanView, ParseError> {
    if toks.len() < 1 || toks[0] != "forward"@ {
        Err(ParseError::Syntax)
    } else if toks.len() < 2 {
        Err(ParseError::Syntax)
    } else if spec_relay_protocol(toks[1]) is Err {
        Err(ParseError::Syntax)
    } else if toks.len() < 3 {
        Err(ParseError::Syntax)
    } else if spec_socket(toks[2]) is None {
        Err(ParseError::Network)
    } else if toks.len() < 4 || toks[3] != "to"@ {
        Err(ParseError::Syntax)
    } else if toks.len() < 5 {
        Err(ParseError::Syntax)
    } else {
        Ok(
            RelayPlanView {
                network_address: spec_socket(toks[2])->Some_0,
                application_path: toks[4],
                protocol: spec_relay_protocol(toks[1])->Ok_0,
            },
        )
    }
}

/// The relay plan written in `s`.
pub open spec fn spec_relay_plan(s: Seq<char>) -> Result<RelayPlanView, ParseError> {
    spec_relay_plan_tokens(spec_tokens(s))
}

/// Parse a relay plan out of the tokens `toks`.
fn plan_from_tokens(toks: &Vec<Vec<char>>) -> (r: Result<RelayPlan, ParseError>)
    ensures
        ({
            let sp = spec_relay_plan_tokens(toks.deep_view());
            &&& r is Ok <==> sp is Ok
            &&& r is Ok ==> r->Ok_0@ == sp->Ok_0
            &&& r is Err ==> r->Err_0 == sp->Err_0
        }),
{
    proof {
        assert forall|k: int| 0 <= k < toks@.len() implies toks@[k]@ == toks.deep_view()[k] by {}
    }
    if toks.len() < 1 || !eq_lit(&toks[0], "forward") {
        return Err(ParseError::Syntax);
    }
    if toks.len() < 2 {
        return Err(ParseError::Syntax);
    }
    let protocol = match RelayProtocol::from_chars(&toks[1]) {
        Ok(p) => p,
        Err(_) => { return Err(ParseError::Syntax); },
    };
    if toks.len() < 3 {
        return Err(ParseError::Syntax);
    }
    proof {
        assert(toks@[2]@.subrange(0, toks@[2]@.len() as int) =~= toks@[2]@);
    }
    let network_address = match parse_socket(&toks[2], 0, toks[2].len()) {
        Some(a) => a,
        None => { return Err(ParseError::Network); },
    };
    if toks.len() < 4 || !eq_lit(&toks[3], "to") {
        return Err(ParseError::Syntax);
    }
    if toks.len() < 5 {
        return Err(ParseError::Syntax);
    }
    let application_path = string_of(&toks[4]);
    Ok(RelayPlan { network_address, application_path, protocol })
}

impl RelayPlan {
    /// Try to parse a relay plan statement.
    pub fn from_str(input: &str) -> (r: Result<RelayPlan, ParseError>)
        ensures
            ({
                let sp = spec_relay_plan(input@);
                &&& r is Ok <==> sp is Ok
                &&& r is Ok ==> r->Ok_0@ == sp->Ok_0
                &&& r is Err ==> r->Err_0 == sp->Err_0
            }),
    {
        let v = chars_of(input);
        let toks = tokenize(&v);
        plan_from_tokens(&toks)
    }
}

/// The relay plans written in a configuration text, one per line; any line
/// that is not a relay plan is an error.
pub open spec fn spec_parse_config(lines: Seq<Seq<char>>) -> Result<Seq<RelayPlanView>, ParseError>
    decreases lines.len(),
{
    if lines.len() == 0 {
        Ok(Seq::empty())
    } else {
        let first = spec_relay_plan(lines[0]);
        let rest = spec_parse_config(lines.drop_first());
        if first is Err {
            Err(first->Err_0)
        } else if rest is Err {
            Err(rest->Err_0)
        } else {
            Ok(seq![first->Ok_0] + rest->Ok_0)
        }
    }
}

/// Parse relay plans from the text of a configuration file, one plan per
/// line.
pub fn parse_config(contents: &str) -> (r: Result<Vec<RelayPlan>, ParseError>)
    ensures
        ({
            let sp = spec_parse_config(spec_lines(contents@));
            &&& r is Ok <==> sp is Ok
            &&& r is Ok ==> r->Ok_0@.map_values(|p: RelayPlan| p@) == sp->Ok_0
            &&& r is Err ==> r->Err_0 == sp->Err_0
        }),
{
    let v = chars_of(contents);
    let lines = lines_of(&v);
    let ghost dvl = lines.deep_view();
    let mut plans: Vec<RelayPlan> = Vec::new();
    let mut li: usize = 0;
    proof {
        assert(plans@.map_values(|p: RelayPlan| p@) =~= Seq::<RelayPlanView>::empty());
        assert(dvl.skip(0) =~~= dvl);
    }
    loop
        invariant
            li <= lines@.len(),
            dvl == lines.deep_view(),
            dvl == spec_lines(contents@),
            forall|k: int| 0 <= k < lines@.len() ==> #[trigger] lines@[k]@ == dvl[k],
            ({
                let sp = spec_parse_config(dvl);
                let sr = spec_parse_config(dvl.skip(li as int));
                &&& (sr is Ok ==> sp is Ok && sp->Ok_0 == plans@.map_values(|p: RelayPlan| p@)
                    + sr->Ok_0)
                &&& (sr is Err ==> sp is Err && sp->Err_0 == sr->Err_0)
            }),
        decreases lines@.len() - li,
    {
        let ghost rem = dvl.skip(li as int);
        if li == lines.len() {
            proof {
                assert(rem =~~= Seq::<Seq<char>>::empty());
                assert(plans@.map_values(|p: RelayPlan| p@) + spec_parse_config(
                    rem,
                )->Ok_0 =~= plans@.map_values(|p: RelayPlan| p@));
            }
            return Ok(plans);
        }
        proof {
            assert(rem[0] == dvl[li as int]);
            assert(rem.drop_first() =~~= dvl.skip(li + 1));
        }
        let ltoks = tokenize(&lines[li]);
        match plan_from_tokens(&ltoks) {
            Err(e) => { return Err(e); },
            Ok(p) => {
                let ghost before = plans@.map_values(|p: RelayPlan| p@);
                let ghost pv = p@;
                plans.push(p);
                proof {
                    assert(plans@.map_values(|p: RelayPlan| p@) =~= before + seq![pv]);
                }
            },
        }
        li = li + 1;
    }
}

} // verus!
