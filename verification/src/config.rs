//! The configuration grammar.
//!
//! A configuration file drives the relay: `set` lines bind parameters, and
//! `forward` lines tell the relay which address to listen on, under which
//! protocol, and which door (or routing atlas of doors) receives the traffic.
//! Every parser here is stated against a specification of the grammar over
//! character sequences, and returns exactly the error its specification
//! names.

use vstd::prelude::*;
use crate::addr::{SocketAddress, spec_socket, parse_socket};
use crate::text::{
    spec_tokens, find_tok, lemma_find_tok, chars_of, tokenize, eq_lit, string_of, subvec,
    spec_lines, lines_of, starts_with_lit,
};

verus! {

/// HTTP request methods, as a routing atlas discriminates them.
#[derive(Clone, Copy, Debug, PartialEq, Eq, Structural)]
pub enum Method {
    GET,
    HEAD,
    POST,
    PUT,
    DELETE,
    CONNECT,
    OPTIONS,
    TRACE,
    PATCH,
}

/// Everything that can be wrong with a configuration text, one variant per
/// rule of the grammar that can fail.
#[derive(Clone, Copy, Debug, PartialEq, Eq, Structural)]
pub enum ParseError {
    /// A method name is not one of the nine known methods.
    UnknownMethod,
    /// A map statement does not begin with `map`.
    MapKeyword,
    /// A map statement names no method.
    MapMissingMethod,
    /// A map statement names no prefix.
    MapMissingPrefix,
    /// A map statement has no `to` clause.
    MapMissingTo,
    /// A map statement names no door path.
    MapMissingDoor,
    /// An atlas does not open with a curly brace.
    AtlasOpenBrace,
    /// An atlas does not close with a curly brace.
    AtlasCloseBrace,
    /// A protocol name is not one of the five known protocols.
    UnknownProtocol,
    /// A forwarding target starts with neither a slash nor a curly brace.
    TargetShape,
    /// A forwarding statement does not begin with `forward`.
    ForwardKeyword,
    /// A forwarding statement names no protocol.
    ForwardMissingProtocol,
    /// A forwarding statement names no listen address.
    ForwardMissingAddress,
    /// A listen address is not a valid socket address.
    InvalidAddress,
    /// A forwarding statement has no `to` clause.
    ForwardMissingTo,
    /// A forwarding statement names no target.
    ForwardMissingTarget,
    /// A parameter line does not begin with `set`.
    ParameterKeyword,
    /// A parameter line names no key.
    ParameterMissingKey,
    /// A parameter line names no value.
    ParameterMissingValue,
    /// A configuration line is none of the known statement forms.
    UnparseableLine,
}

/// The method written in `s`.
pub open spec fn spec_method(s: Seq<char>) -> Result<Method, ParseError> {
    if s == "GET"@ {
        Ok(Method::GET)
    } else if s == "HEAD"@ {
        Ok(Method::HEAD)
    } else if s == "POST"@ {
        Ok(Method::POST)
    } else if s == "PUT"@ {
        Ok(Method::PUT)
    } else if s == "DELETE"@ {
        Ok(Method::DELETE)
    } else if s == "CONNECT"@ {
        Ok(Method::CONNECT)
    } else if s == "OPTIONS"@ {
        Ok(Method::OPTIONS)
    } else if s == "TRACE"@ {
        Ok(Method::TRACE)
    } else if s == "PATCH"@ {
        Ok(Method::PATCH)
    } else {
        Err(ParseError::UnknownMethod)
    }
}

impl Method {
    /// Try to parse an HTTP method.
    pub fn from_str(input: &str) -> (r: Result<Method, ParseError>)
        ensures
            r == spec_method(input@),
    {
        let v = chars_of(input);
        Self::from_chars(&v)
    }

    /// Try to parse an HTTP method given as characters.
    fn from_chars(v: &Vec<char>) -> (r: Result<Method, ParseError>)
        ensures
            r == spec_method(v@),
    {
        if eq_lit(v, "GET") {
            Ok(Method::GET)
        } else if eq_lit(v, "HEAD") {
            Ok(Method::HEAD)
        } else if eq_lit(v, "POST") {
            Ok(Method::POST)
        } else if eq_lit(v, "PUT") {
            Ok(Method::PUT)
        } else if eq_lit(v, "DELETE") {
            Ok(Method::DELETE)
        } else if eq_lit(v, "CONNECT") {
            Ok(Method::CONNECT)
        } else if eq_lit(v, "OPTIONS") {
            Ok(Method::OPTIONS)
        } else if eq_lit(v, "TRACE") {
            Ok(Method::TRACE)
        } else if eq_lit(v, "PATCH") {
            Ok(Method::PATCH)
        } else {
            Err(ParseError::UnknownMethod)
        }
    }
}

/// Mixed transmission- and application-layer protocols a forwarding
/// statement can name.
#[derive(Clone, Copy, Debug, PartialEq, Eq, Structural)]
pub enum Protocol {
    UDP,
    TCP,
    /// Implies TCP, and requires the `certificate` and `key` parameters.
    TLS,
    /// Implies TCP, and implies that the target is an atlas.
    HTTP,
    /// Implies HTTP and TLS.
    HTTPS,
}

/// The protocol written in `s`.
pub open spec fn spec_protocol(s: Seq<char>) -> Result<Protocol, ParseError> {
    if s == "udp"@ {
        Ok(Protocol::UDP)
    } else if s == "tcp"@ {
        Ok(Protocol::TCP)
    } else if s == "tls"@ {
        Ok(Protocol::TLS)
    } else if s == "http"@ {
        Ok(Protocol::HTTP)
    } else if s == "https"@ {
        Ok(Protocol::HTTPS)
    } else {
        Err(ParseError::UnknownProtocol)
    }
}

impl Protocol {
    /// Try to parse a protocol name.
    pub fn from_str(input: &str) -> (r: Result<Protocol, ParseError>)
        ensures
            r == spec_protocol(input@),
    {
        let v = chars_of(input);
        Self::from_chars(&v)
    }

    /// Try to parse a protocol name given as characters.
    fn from_chars(v: &Vec<char>) -> (r: Result<Protocol, ParseError>)
        ensures
            r == spec_protocol(v@),
    {
        if eq_lit(v, "udp") {
            Ok(Protocol::UDP)
        } else if eq_lit(v, "tcp") {
            Ok(Protocol::TCP)
        } else if eq_lit(v, "tls") {
            Ok(Protocol::TLS)
        } else if eq_lit(v, "http") {
            Ok(Protocol::HTTP)
        } else if eq_lit(v, "https") {
            Ok(Protocol::HTTPS)
        } else {
            Err(ParseError::UnknownProtocol)
        }
    }
}

/// An association between a `(method, prefix)` pair and a door: one line of
/// a routing atlas, such as `map GET /photos to /var/run/photo_album.door`.
#[derive(Debug, PartialEq)]
pub struct MapStatement {
    pub method: Method,
    pub prefix: String,
    pub door: String,
}

/// The mathematical content of a map statement.
pub struct MapStatementView {
    pub method: Method,
    pub prefix: Seq<char>,
    pub door: Seq<char>,
}

impl View for MapStatement {
    type V = MapStatementView;

    open spec fn view(&self) -> MapStatementView {
        MapStatementView { method: self.method, prefix: self.prefix@, door: self.door@ }
    }
}

/// The map statement written in the token window `toks`: `map`, a method, a
/// prefix, `to`, and a door path; later tokens are ignored.
pub open spec fn spec_map_tokens(toks: Seq<Seq<char>>) -> Result<MapStatementView, ParseError> {
    if toks.len() < 1 || toks[0] != "map"@ {
        Err(ParseError::MapKeyword)
    } else if toks.len() < 2 {
        Err(ParseError::MapMissingMethod)
    } else if spec_method(toks[1]) is Err {
        Err(spec_method(toks[1])->Err_0)
    } else if toks.len() < 3 {
        Err(ParseError::MapMissingPrefix)
    } else if toks.len() < 4 || toks[3] != "to"@ {
        Err(ParseError::MapMissingTo)
    } else if toks.len() < 5 {
        Err(ParseError::MapMissingDoor)
    } else {
        Ok(
            MapStatementView {
                method: spec_method(toks[1])->Ok_0,
                prefix: toks[2],
                door: toks[4],
            },
        )
    }
}

/// The map statement written in `s`.
pub open spec fn spec_map_statement(s: Seq<char>) -> Result<MapStatementView, ParseError> {
    spec_map_tokens(spec_tokens(s))
}

/// Parse a map statement out of the token window `toks[from..to]`.
fn map_from_tokens(toks: &Vec<Vec<char>>, from: usize, to: usize) -> (r: Result<
    MapStatement,
    ParseError,
>)
    requires
        from <= to <= toks@.len(),
    ensures
        ({
            let sp = spec_map_tokens(toks.deep_view().subrange(from as int, to as int));
            &&& r is Ok <==> sp is Ok
            &&& r is Ok ==> r->Ok_0@ == sp->Ok_0
            &&& r is Err ==> r->Err_0 == sp->Err_0
        }),
{
    let ghost window = toks.deep_view().subrange(from as int, to as int);
    proof {
        assert forall|k: int| 0 <= k < window.len() implies window[k] == toks.deep_view()[from + k]
        by {}
        assert forall|k: int| from <= k < to implies toks@[k]@ == toks.deep_view()[k] by {}
    }
    if to - from < 1 || !eq_lit(&toks[from], "map") {
        return Err(ParseError::MapKeyword);
    }
    if to - from < 2 {
        return Err(ParseError::MapMissingMethod);
    }
    let method = match Method::from_chars(&toks[from + 1]) {
        Ok(m) => m,
        Err(e) => { return Err(e); },
    };
    if to - from < 3 {
        return Err(ParseError::MapMissingPrefix);
    }
    if to - from < 4 || !eq_lit(&toks[from + 3], "to") {
        return Err(ParseError::MapMissingTo);
    }
    if to - from < 5 {
        return Err(ParseError::MapMissingDoor);
    }
    let prefix = string_of(&toks[from + 2]);
    let door = string_of(&toks[from + 4]);
    Ok(MapStatement { method, prefix, door })
}

impl MapStatement {
    /// Try to parse a map statement.
    pub fn from_str(input: &str) -> (r: Result<MapStatement, ParseError>)
        ensures
            ({
                let sp = spec_map_statement(input@);
                &&& r is Ok <==> sp is Ok
                &&& r is Ok ==> r->Ok_0@ == sp->Ok_0
                &&& r is Err ==> r->Err_0 == sp->Err_0
            }),
    {
        let v = chars_of(input);
        let toks = tokenize(&v);
        proof {
            assert(toks.deep_view().subrange(0, toks.deep_view().len() as int) =~~= toks.deep_view());
        }
        map_from_tokens(&toks, 0, toks.len())
    }
}

/// A collection of map statements: the routing table of one HTTP forwarding
/// statement, written between curly braces.
#[derive(Debug, PartialEq)]
pub struct Atlas {
    pub maps: Vec<MapStatement>,
}

impl View for Atlas {
    type V = Seq<MapStatementView>;

    open spec fn view(&self) -> Seq<MapStatementView> {
        self.maps@.map_values(|m: MapStatement| m@)
    }
}

/// The map statements written in a run of tokens: map statements of five
/// tokens each, one after the other, until the tokens run out.
pub open spec fn spec_atlas_maps(toks: Seq<Seq<char>>) -> Result<Seq<MapStatementView>, ParseError>
    decreases toks.len(),
{
    if toks.len() == 0 {
        Ok(Seq::empty())
    } else {
        let k = if toks.len() < 5 {
            toks.len() as int
        } else {
            5
        };
        let first = spec_map_tokens(toks.take(k));
        let rest = spec_atlas_maps(toks.skip(k));
        if first is Err {
            Err(first->Err_0)
        } else if rest is Err {
            Err(rest->Err_0)
        } else {
            Ok(seq![first->Ok_0] + rest->Ok_0)
        }
    }
}

/// The atlas written in the tokens `toks`: an opening brace, map statements,
/// and a closing brace at the very end.
pub open spec fn spec_atlas_tokens(toks: Seq<Seq<char>>) -> Result<
    Seq<MapStatementView>,
    ParseError,
> {
    if toks.len() < 1 || toks[0] != "{"@ {
        Err(ParseError::AtlasOpenBrace)
    } else if toks.len() < 2 || toks.last() != "}"@ {
        Err(ParseError::AtlasCloseBrace)
    } else {
        spec_atlas_maps(toks.subrange(1, toks.len() - 1))
    }
}

/// The atlas written in `s`.
pub open spec fn spec_atlas(s: Seq<char>) -> Result<Seq<MapStatementView>, ParseError> {
    spec_atlas_tokens(spec_tokens(s))
}

/// Parse consecutive map statements out of the token window `toks[from..to]`.
fn atlas_maps_from_tokens(toks: &Vec<Vec<char>>, from: usize, to: usize) -> (r: Result<
    Vec<MapStatement>,
    ParseError,
>)
    requires
        from <= to <= toks@.len(),
    ensures
        ({
            let sp = spec_atlas_maps(toks.deep_view().subrange(from as int, to as int));
            &&& r is Ok <==> sp is Ok
            &&& r is Ok ==> r->Ok_0@.map_values(|m: MapStatement| m@) == sp->Ok_0
            &&& r is Err ==> r->Err_0 == sp->Err_0
        }),
{
    let ghost whole = toks.deep_view().subrange(from as int, to as int);
    let mut maps: Vec<MapStatement> = Vec::new();
    let mut i: usize = from;
    proof {
        assert(maps@.map_values(|m: MapStatement| m@) =~= Seq::<MapStatementView>::empty());
    }
    loop
        invariant
            from <= i <= to <= toks@.len(),
            whole == toks.deep_view().subrange(from as int, to as int),
            ({
                let rem = toks.deep_view().subrange(i as int, to as int);
                let sp = spec_atlas_maps(whole);
                let sr = spec_atlas_maps(rem);
                &&& (sr is Ok ==> sp is Ok && sp->Ok_0 == maps@.map_values(
                    |m: MapStatement| m@,
                ) + sr->Ok_0)
                &&& (sr is Err ==> sp is Err && sp->Err_0 == sr->Err_0)
            }),
        decreases to - i,
    {
        let ghost rem = toks.deep_view().subrange(i as int, to as int);
        if i == to {
            proof {
                assert(rem =~~= Seq::<Seq<char>>::empty());
                assert(maps@.map_values(|m: MapStatement| m@) + spec_atlas_maps(
                    rem,
                )->Ok_0 =~= maps@.map_values(|m: MapStatement| m@));
            }
            return Ok(maps);
        }
        let k = if to - i < 5 {
            to - i
        } else {
            5
        };
        proof {
            assert(rem.take(k as int) =~~= toks.deep_view().subrange(i as int, i + k));
            assert(rem.skip(k as int) =~~= toks.deep_view().subrange(i + k, to as int));
        }
        match map_from_tokens(toks, i, i + k) {
            Err(e) => {
                return Err(e);
            },
            Ok(m) => {
                let ghost before = maps@.map_values(|m: MapStatement| m@);
                let ghost mv = m@;
                maps.push(m);
                proof {
                    assert(maps@.map_values(|m: MapStatement| m@) =~= before + seq![mv]);
                }
            },
        }
        i = i + k;
    }
}

impl Atlas {
    /// Try to parse an atlas.
    pub fn from_str(input: &str) -> (r: Result<Atlas, ParseError>)
        ensures
            ({
                let sp = spec_atlas(input@);
                &&& r is Ok <==> sp is Ok
                &&& r is Ok ==> r->Ok_0@ == sp->Ok_0
                &&& r is Err ==> r->Err_0 == sp->Err_0
            }),
    {
        let v = chars_of(input);
        let toks = tokenize(&v);
        Self::from_tokens(&toks)
    }

    /// Try to parse an atlas given as tokens.
    fn from_tokens(toks: &Vec<Vec<char>>) -> (r: Result<Atlas, ParseError>)
        ensures
            ({
                let sp = spec_atlas_tokens(toks.deep_view());
                &&& r is Ok <==> sp is Ok
                &&& r is Ok ==> r->Ok_0@ == sp->Ok_0
                &&& r is Err ==> r->Err_0 == sp->Err_0
            }),
    {
        proof {
            assert forall|k: int| 0 <= k < toks@.len() implies toks@[k]@ == toks.deep_view()[k]
            by {}
        }
        if toks.len() < 1 || !eq_lit(&toks[0], "{") {
            return Err(ParseError::AtlasOpenBrace);
        }
        if toks.len() < 2 || !eq_lit(&toks[toks.len() - 1], "}") {
            return Err(ParseError::AtlasCloseBrace);
        }
        match atlas_maps_from_tokens(toks, 1, toks.len() - 1) {
            Ok(maps) => Ok(Atlas { maps }),
            Err(e) => Err(e),
        }
    }
}

/// Something to which request data can be delivered: a single door, or an
/// atlas of maps to doors.
#[derive(Debug, PartialEq)]
pub enum ForwardingTarget {
    Door(String),
    Atlas(Atlas),
}

/// The mathematical content of a forwarding target.
pub enum ForwardingTargetView {
    Door(Seq<char>),
    Atlas(Seq<MapStatementView>),
}

impl View for ForwardingTarget {
    type V = ForwardingTargetView;

    open spec fn view(&self) -> ForwardingTargetView {
        match self {
            ForwardingTarget::Door(d) => ForwardingTargetView::Door(d@),
            ForwardingTarget::Atlas(a) => ForwardingTargetView::Atlas(a@),
        }
    }
}

/// The forwarding target written in `s`: a door path when `s` starts with a
/// slash, an atlas when it starts with a curly brace.
pub open spec fn spec_target(s: Seq<char>) -> Result<ForwardingTargetView, ParseError> {
    if s.len() >= 1 && s[0] == '/' {
        Ok(ForwardingTargetView::Door(s))
    } else if s.len() >= 1 && s[0] == '{' {
        match spec_atlas(s) {
            Ok(m) => Ok(ForwardingTargetView::Atlas(m)),
            Err(e) => Err(e),
        }
    } else {
        Err(ParseError::TargetShape)
    }
}

/// Parse a forwarding target given as characters.
fn target_from_chars(v: &Vec<char>) -> (r: Result<ForwardingTarget, ParseError>)
    ensures
        ({
            let sp = spec_target(v@);
            &&& r is Ok <==> sp is Ok
            &&& r is Ok ==> r->Ok_0@ == sp->Ok_0
            &&& r is Err ==> r->Err_0 == sp->Err_0
        }),
{
    if v.len() >= 1 && v[0] == '/' {
        Ok(ForwardingTarget::Door(string_of(v)))
    } else if v.len() >= 1 && v[0] == '{' {
        let toks = tokenize(v);
        match Atlas::from_tokens(&toks) {
            Ok(a) => Ok(ForwardingTarget::Atlas(a)),
            Err(e) => Err(e),
        }
    } else {
        Err(ParseError::TargetShape)
    }
}

impl ForwardingTarget {
    /// Try to parse a forwarding target.
    pub fn from_str(input: &str) -> (r: Result<ForwardingTarget, ParseError>)
        ensures
            ({
                let sp = spec_target(input@);
                &&& r is Ok <==> sp is Ok
                &&& r is Ok ==> r->Ok_0@ == sp->Ok_0
                &&& r is Err ==> r->Err_0 == sp->Err_0
            }),
    {
        let v = chars_of(input);
        target_from_chars(&v)
    }
}

/// One rule for handling network requests: a protocol, a listen address, and
/// a target to deliver the traffic to.
#[derive(Debug, PartialEq)]
pub struct ForwardingStatement {
    pub protocol: Protocol,
    pub address: SocketAddress,
    pub target: ForwardingTarget,
}

/// The mathematical content of a forwarding statement.
pub struct ForwardingStatementView {
    pub protocol: Protocol,
    pub address: SocketAddress,
    pub target: ForwardingTargetView,
}

impl View for ForwardingStatement {
    type V = ForwardingStatementView;

    open spec fn view(&self) -> ForwardingStatementView {
        ForwardingStatementView {
            protocol: self.protocol,
            address: self.address,
            target: self.target@,
        }
    }
}

/// The forwarding statement written in the tokens `toks`: `forward`, a
/// protocol, an address, `to`, and a target. A braced target runs to the
/// first lone `}` token, or to the end when none closes it.
pub open spec fn spec_forward_tokens(toks: Seq<Seq<char>>) -> Result<
    ForwardingStatementView,
    ParseError,
> {
    if toks.len() < 1 || toks[0] != "forward"@ {
        Err(ParseError::ForwardKeyword)
    } else if toks.len() < 2 {
        Err(ParseError::ForwardMissingProtocol)
    } else if spec_protocol(toks[1]) is Err {
        Err(spec_protocol(toks[1])->Err_0)
    } else if toks.len() < 3 {
        Err(ParseError::ForwardMissingAddress)
    } else if spec_socket(toks[2]) is None {
        Err(ParseError::InvalidAddress)
    } else if toks.len() < 4 || toks[3] != "to"@ {
        Err(ParseError::ForwardMissingTo)
    } else if toks.len() < 5 {
        Err(ParseError::ForwardMissingTarget)
    } else if toks[4] == "{"@ {
        let rest = toks.skip(5);
        let close = find_tok(rest, "}"@);
        let middle = if close < 0 {
            rest
        } else {
            rest.take(close)
        };
        match spec_atlas_maps(middle) {
            Ok(m) => Ok(
                ForwardingStatementView {
                    protocol: spec_protocol(toks[1])->Ok_0,
                    address: spec_socket(toks[2])->Some_0,
                    target: ForwardingTargetView::Atlas(m),
                },
            ),
            Err(e) => Err(e),
        }
    } else {
        match spec_target(toks[4]) {
            Ok(t) => Ok(
                ForwardingStatementView {
                    protocol: spec_protocol(toks[1])->Ok_0,
                    address: spec_socket(toks[2])->Some_0,
                    target: t,
                },
            ),
            Err(e) => Err(e),
        }
    }
}

/// The forwarding statement written in `s`.
pub open spec fn spec_forwarding_statement(s: Seq<char>) -> Result<
    ForwardingStatementView,
    ParseError,
> {
    spec_forward_tokens(spec_tokens(s))
}

/// Parse a forwarding statement out of the tokens `toks`.
fn forward_from_tokens(toks: &Vec<Vec<char>>) -> (r: Result<ForwardingStatement, ParseError>)
    ensures
        ({
            let sp = spec_forward_tokens(toks.deep_view());
            &&& r is Ok <==> sp is Ok
            &&& r is Ok ==> r->Ok_0@ == sp->Ok_0
            &&& r is Err ==> r->Err_0 == sp->Err_0
        }),
{
    let ghost dv = toks.deep_view();
    proof {
        assert forall|k: int| 0 <= k < toks@.len() implies toks@[k]@ == toks.deep_view()[k] by {}
    }
    if toks.len() < 1 || !eq_lit(&toks[0], "forward") {
        return Err(ParseError::ForwardKeyword);
    }
    if toks.len() < 2 {
        return Err(ParseError::ForwardMissingProtocol);
    }
    let protocol = match Protocol::from_chars(&toks[1]) {
        Ok(p) => p,
        Err(e) => { return Err(e); },
    };
    if toks.len() < 3 {
        return Err(ParseError::ForwardMissingAddress);
    }
    proof {
        assert(toks@[2]@.subrange(0, toks@[2]@.len() as int) =~= toks@[2]@);
    }
    let address = match parse_socket(&toks[2], 0, toks[2].len()) {
        Some(a) => a,
        None => { return Err(ParseError::InvalidAddress); },
    };
    if toks.len() < 4 || !eq_lit(&toks[3], "to") {
        return Err(ParseError::ForwardMissingTo);
    }
    if toks.len() < 5 {
        return Err(ParseError::ForwardMissingTarget);
    }
    if eq_lit(&toks[4], "{") {
        let ghost rest = dv.skip(5);
        proof {
            lemma_find_tok(rest, "}"@);
        }
        // find the first closing brace after the opening one
        let mut j: usize = 5;
        while j < toks.len() && !eq_lit(&toks[j], "}")
            invariant
                5 <= j <= toks@.len(),
                dv == toks.deep_view(),
                rest == dv.skip(5),
                forall|k: int| 0 <= k < j - 5 ==> rest[k] != "}"@,
                forall|k: int| 0 <= k < toks@.len() ==> toks@[k]@ == dv[k],
            decreases toks@.len() - j,
        {
            proof {
                assert(rest[(j - 5) as int] == dv[j as int]);
            }
            j = j + 1;
        }
        let ghost close = find_tok(rest, "}"@);
        proof {
            if j == toks@.len() {
                assert(close == -1);
            } else {
                assert(rest[(j - 5) as int] == "}"@);
                assert(close == j - 5);
            }
            let middle = if close < 0 { rest } else { rest.take(close) };
            assert(middle =~~= dv.subrange(5, j as int));
        }
        match atlas_maps_from_tokens(toks, 5, j) {
            Ok(maps) => Ok(
                ForwardingStatement { protocol, address, target: ForwardingTarget::Atlas(Atlas { maps }) },
            ),
            Err(e) => Err(e),
        }
    } else {
        match target_from_chars(&toks[4]) {
            Ok(t) => Ok(ForwardingStatement { protocol, address, target: t }),
            Err(e) => Err(e),
        }
    }
}

impl ForwardingStatement {
    /// Try to parse a forwarding statement.
    pub fn from_str(input: &str) -> (r: Result<ForwardingStatement, ParseError>)
        ensures
            ({
                let sp = spec_forwarding_statement(input@);
                &&& r is Ok <==> sp is Ok
                &&& r is Ok ==> r->Ok_0@ == sp->Ok_0
                &&& r is Err ==> r->Err_0 == sp->Err_0
            }),
    {
        let v = chars_of(input);
        let toks = tokenize(&v);
        forward_from_tokens(&toks)
    }
}

/// A parameter binding, such as `set domain example.org`.
#[derive(Debug, PartialEq)]
pub struct Parameter {
    pub key: String,
    pub value: String,
}

/// The mathematical content of a parameter binding.
pub struct ParameterView {
    pub key: Seq<char>,
    pub value: Seq<char>,
}

impl View for Parameter {
    type V = ParameterView;

    open spec fn view(&self) -> ParameterView {
        ParameterView { key: self.key@, value: self.value@ }
    }
}

/// The parameter written in the tokens `toks`: `set`, a key, and a value;
/// later tokens are ignored.
pub open spec fn spec_parameter_tokens(toks: Seq<Seq<char>>) -> Result<ParameterView, ParseError> {
    if toks.len() < 1 || toks[0] != "set"@ {
        Err(ParseError::ParameterKeyword)
    } else if toks.len() < 2 {
        Err(ParseError::ParameterMissingKey)
    } else if toks.len() < 3 {
        Err(ParseError::ParameterMissingValue)
    } else {
        Ok(ParameterView { key: toks[1], value: toks[2] })
    }
}

/// The parameter written in `s`.
pub open spec fn spec_parameter(s: Seq<char>) -> Result<ParameterView, ParseError> {
    spec_parameter_tokens(spec_tokens(s))
}

/// Parse a parameter out of the tokens `toks`.
fn parameter_from_tokens(toks: &Vec<Vec<char>>) -> (r: Result<Parameter, ParseError>)
    ensures
        ({
            let sp = spec_parameter_tokens(toks.deep_view());
            &&& r is Ok <==> sp is Ok
            &&& r is Ok ==> r->Ok_0@ == sp->Ok_0
            &&& r is Err ==> r->Err_0 == sp->Err_0
        }),
{
    proof {
        assert forall|k: int| 0 <= k < toks@.len() implies toks@[k]@ == toks.deep_view()[k] by {}
    }
    if toks.len() < 1 || !eq_lit(&toks[0], "set") {
        return Err(ParseError::ParameterKeyword);
    }
    if toks.len() < 2 {
        return Err(ParseError::ParameterMissingKey);
    }
    if toks.len() < 3 {
        return Err(ParseError::ParameterMissingValue);
    }
    let key = string_of(&toks[1]);
    let value = string_of(&toks[2]);
    Ok(Parameter { key, value })
}

impl Parameter {
    /// Try to parse a parameter line.
    pub fn from_str(input: &str) -> (r: Result<Parameter, ParseError>)
        ensures
            ({
                let sp = spec_parameter(input@);
                &&& r is Ok <==> sp is Ok
                &&& r is Ok ==> r->Ok_0@ == sp->Ok_0
                &&& r is Err ==> r->Err_0 == sp->Err_0
            }),
    {
        let v = chars_of(input);
        let toks = tokenize(&v);
        parameter_from_tokens(&toks)
    }
}

/// The tokens of a run of lines, in order.
pub open spec fn flat_tokens(lines: Seq<Seq<char>>) -> Seq<Seq<char>>
    decreases lines.len(),
{
    if lines.len() == 0 {
        Seq::empty()
    } else {
        spec_tokens(lines[0]) + flat_tokens(lines.drop_first())
    }
}

proof fn lemma_flat_tokens_push(lines: Seq<Seq<char>>, x: Seq<char>)
    ensures
        flat_tokens(lines.push(x)) == flat_tokens(lines) + spec_tokens(x),
    decreases lines.len(),
{
    if lines.len() == 0 {
        assert(lines.push(x)[0] == x);
        assert(lines.push(x).drop_first() =~~= Seq::<Seq<char>>::empty());
        assert(flat_tokens(Seq::<Seq<char>>::empty()) == Seq::<Seq<char>>::empty());
        assert(flat_tokens(lines) == Seq::<Seq<char>>::empty());
        assert(flat_tokens(lines.push(x)) =~~= flat_tokens(lines) + spec_tokens(x));
    } else {
        lemma_flat_tokens_push(lines.drop_first(), x);
        assert(lines.push(x).drop_first() =~~= lines.drop_first().push(x));
        assert(lines.push(x)[0] == lines[0]);
        assert(flat_tokens(lines.push(x)) =~~= flat_tokens(lines) + spec_tokens(x));
    }
}

/// The mathematical content of a configuration: its parameter bindings in
/// order, and its forwarding statements in order.
pub struct ConfigView {
    pub parameters: Seq<ParameterView>,
    pub statements: Seq<ForwardingStatementView>,
}

/// The configuration written in a run of lines. A `set` line binds a
/// parameter; a `#` line is a comment; an empty line is skipped; a `forward`
/// line is one statement, and when it ends with an opening brace the
/// following lines up to a line holding exactly `}` belong to it; any other
/// line is an error.
pub open spec fn spec_config_lines(lines: Seq<Seq<char>>) -> Result<ConfigView, ParseError>
    decreases lines.len(),
    via spec_config_lines_decreases
{
    if lines.len() == 0 {
        Ok(ConfigView { parameters: Seq::empty(), statements: Seq::empty() })
    } else {
        let line = lines[0];
        if "set"@.is_prefix_of(line) {
            let p = spec_parameter(line);
            let rest = spec_config_lines(lines.drop_first());
            if p is Err {
                Err(p->Err_0)
            } else if rest is Err {
                Err(rest->Err_0)
            } else {
                Ok(
                    ConfigView {
                        parameters: seq![p->Ok_0] + rest->Ok_0.parameters,
                        statements: rest->Ok_0.statements,
                    },
                )
            }
        } else if line.len() >= 1 && line[0] == '#' {
            spec_config_lines(lines.drop_first())
        } else if line.len() == 0 {
            spec_config_lines(lines.drop_first())
        } else if "forward"@.is_prefix_of(line) {
            if line.last() == '{' {
                let tail = lines.drop_first();
                let close = find_tok(tail, "}"@);
                let body = if close < 0 {
                    tail
                } else {
                    tail.take(close)
                };
                let block_toks = spec_tokens(line) + flat_tokens(body) + seq!["}"@];
                let st = spec_forward_tokens(block_toks);
                let consumed = if close < 0 {
                    lines.len() as int
                } else {
                    close + 2
                };
                let rest = spec_config_lines(lines.skip(consumed));
                if st is Err {
                    Err(st->Err_0)
                } else if rest is Err {
                    Err(rest->Err_0)
                } else {
                    Ok(
                        ConfigView {
                            parameters: rest->Ok_0.parameters,
                            statements: seq![st->Ok_0] + rest->Ok_0.statements,
                        },
                    )
                }
            } else {
                let st = spec_forwarding_statement(line);
                let rest = spec_config_lines(lines.drop_first());
                if st is Err {
                    Err(st->Err_0)
                } else if rest is Err {
                    Err(rest->Err_0)
                } else {
                    Ok(
                        ConfigView {
                            parameters: rest->Ok_0.parameters,
                            statements: seq![st->Ok_0] + rest->Ok_0.statements,
                        },
                    )
                }
            }
        } else {
            Err(ParseError::UnparseableLine)
        }
    }
}

#[via_fn]
proof fn spec_config_lines_decreases(lines: Seq<Seq<char>>) {
    if lines.len() > 0 {
        lemma_find_tok(lines.drop_first(), "}"@);
    }
}

/// The configuration written in `s`.
pub open spec fn spec_config(s: Seq<char>) -> Result<ConfigView, ParseError> {
    spec_config_lines(spec_lines(s))
}

/// The value bound to `key` by the latest binding in `params`, if any.
pub open spec fn spec_lookup(params: Seq<ParameterView>, key: Seq<char>) -> Option<Seq<char>>
    decreases params.len(),
{
    if params.len() == 0 {
        None
    } else if params.last().key == key {
        Some(params.last().value)
    } else {
        spec_lookup(params.drop_last(), key)
    }
}

/// A whole configuration: parameter bindings and forwarding statements.
#[derive(Debug, PartialEq)]
pub struct Config {
    pub parameters: Vec<Parameter>,
    pub statements: Vec<ForwardingStatement>,
}

impl View for Config {
    type V = ConfigView;

    open spec fn view(&self) -> ConfigView {
        ConfigView {
            parameters: self.parameters@.map_values(|p: Parameter| p@),
            statements: self.statements@.map_values(|s: ForwardingStatement| s@),
        }
    }
}

impl Config {
    /// The value bound to `key`, if any line bound it; the latest binding
    /// wins.
    pub fn parameter(&self, key: &str) -> (r: Option<String>)
        ensures
            match r {
                Some(value) => spec_lookup(self@.parameters, key@) == Some(value@),
                None => spec_lookup(self@.parameters, key@) is None,
            },
    {
        let ghost params = self@.parameters;
        let mut i: usize = self.parameters.len();
        proof {
            assert(params.take(i as int) =~= params);
        }
        while i > 0
            invariant
                i <= self.parameters@.len(),
                params == self@.parameters,
                params.len() == self.parameters@.len(),
                spec_lookup(params, key@) == spec_lookup(params.take(i as int), key@),
            decreases i,
        {
            i = i - 1;
            let kc = chars_of(self.parameters[i].key.as_str());
            proof {
                assert(params[i as int] == self.parameters@[i as int]@);
                assert(params.take(i + 1).last() == params[i as int]);
                assert(params.take(i + 1).drop_last() =~= params.take(i as int));
            }
            if eq_lit(&kc, key) {
                return Some(self.parameters[i].value.clone());
            }
        }
        proof {
            assert(params.take(0) =~= Seq::<ParameterView>::empty());
        }
        None
    }

    /// Try to parse a whole configuration text.
    #[verifier::rlimit(100)]
    pub fn from_str(input: &str) -> (r: Result<Config, ParseError>)
        ensures
            ({
                let sp = spec_config(input@);
                &&& r is Ok <==> sp is Ok
                &&& r is Ok ==> r->Ok_0@ == sp->Ok_0
                &&& r is Err ==> r->Err_0 == sp->Err_0
            }),
    {
        let v = chars_of(input);
        let lines = lines_of(&v);
        let ghost dvl = lines.deep_view();
        let mut parameters: Vec<Parameter> = Vec::new();
        let mut statements: Vec<ForwardingStatement> = Vec::new();
        let mut li: usize = 0;
        proof {
            assert(parameters@.map_values(|p: Parameter| p@) =~= Seq::<ParameterView>::empty());
            assert(statements@.map_values(|s: ForwardingStatement| s@) =~= Seq::<
                ForwardingStatementView,
            >::empty());
            assert(dvl.skip(0) =~~= dvl);
        }
        loop
            invariant
                li <= lines@.len(),
                dvl == lines.deep_view(),
                dvl == spec_lines(input@),
                forall|k: int| 0 <= k < lines@.len() ==> #[trigger] lines@[k]@ == dvl[k],
                ({
                    let sp = spec_config_lines(dvl);
                    let sr = spec_config_lines(dvl.skip(li as int));
                    &&& (sr is Ok ==> sp is Ok && sp->Ok_0.parameters == parameters@.map_values(
                        |p: Parameter| p@,
                    ) + sr->Ok_0.parameters && sp->Ok_0.statements == statements@.map_values(
                        |s: ForwardingStatement| s@,
                    ) + sr->Ok_0.statements)
                    &&& (sr is Err ==> sp is Err && sp->Err_0 == sr->Err_0)
                }),
            decreases lines@.len() - li,
        {
            let ghost rem = dvl.skip(li as int);
            if li == lines.len() {
                proof {
                    assert(rem =~~= Seq::<Seq<char>>::empty());
                    assert(parameters@.map_values(|p: Parameter| p@) + spec_config_lines(
                        rem,
                    )->Ok_0.parameters =~= parameters@.map_values(|p: Parameter| p@));
                    assert(statements@.map_values(|s: ForwardingStatement| s@) + spec_config_lines(
                        rem,
                    )->Ok_0.statements =~= statements@.map_values(|s: ForwardingStatement| s@));
                }
                return Ok(Config { parameters, statements });
            }
            proof {
                assert(rem[0] == dvl[li as int]);
                assert(rem.drop_first() =~~= dvl.skip(li + 1));
            }
            if starts_with_lit(&lines[li], "set") {
                let ltoks = tokenize(&lines[li]);
                match parameter_from_tokens(&ltoks) {
                    Err(e) => { return Err(e); },
                    Ok(p) => {
                        let ghost before = parameters@.map_values(|p: Parameter| p@);
                        let ghost pv = p@;
                        parameters.push(p);
                        proof {
                            assert(parameters@.map_values(|p: Parameter| p@) =~= before + seq![pv]);
                        }
                    },
                }
                li = li + 1;
            } else if lines[li].len() >= 1 && lines[li][0] == '#' {
                li = li + 1;
            } else if lines[li].len() == 0 {
                li = li + 1;
            } else if starts_with_lit(&lines[li], "forward") {
                if lines[li][lines[li].len() - 1] == '{' {
                    // a block statement: absorb lines until one closes it
                    let ghost tail = dvl.skip(li + 1);
                    proof {
                        lemma_find_tok(tail, "}"@);
                    }
                    let mut btoks = tokenize(&lines[li]);
                    proof {
                        assert(dvl.subrange(li + 1, li + 1 as int) =~~= Seq::<Seq<char>>::empty());
                        assert(btoks.deep_view() =~~= spec_tokens(dvl[li as int]) + flat_tokens(
                            dvl.subrange(li + 1, li + 1 as int),
                        ));
                    }
                    let mut lj: usize = li + 1;
                    while lj < lines.len() && !eq_lit(&lines[lj], "}")
                        invariant
                            li + 1 <= lj <= lines@.len(),
                            dvl == lines.deep_view(),
                            tail == dvl.skip(li + 1),
                            forall|k: int| 0 <= k < lines@.len() ==> #[trigger] lines@[k]@ == dvl[k],
                            forall|k: int| 0 <= k < lj - (li + 1) ==> tail[k] != "}"@,
                            btoks.deep_view() == spec_tokens(dvl[li as int]) + flat_tokens(
                                dvl.subrange(li + 1, lj as int),
                            ),
                        decreases lines@.len() - lj,
                    {
                        proof {
                            assert(tail[(lj - (li + 1)) as int] == dvl[lj as int]);
                        }
                        let tmp = tokenize(&lines[lj]);
                        let ghost body_before = dvl.subrange(li + 1, lj as int);
                        let mut k: usize = 0;
                        while k < tmp.len()
                            invariant
                                k <= tmp@.len(),
                                btoks.deep_view() =~~= spec_tokens(dvl[li as int]) + flat_tokens(
                                    body_before,
                                ) + tmp.deep_view().take(k as int),
                            decreases tmp@.len() - k,
                        {
                            let ghost before = btoks.deep_view();
                            let next = subvec(&tmp[k], 0, tmp[k].len());
                            proof {
                                assert(next@ =~= tmp@[k as int]@);
                                assert(tmp@[k as int]@ == tmp.deep_view()[k as int]);
                            }
                            btoks.push(next);
                            proof {
                                assert(btoks.deep_view() =~~= before + seq![next@]);
                            }
                            k = k + 1;
                        }
                        proof {
                            assert(tmp.deep_view().take(tmp@.len() as int) =~~= tmp.deep_view());
                            assert(body_before.push(dvl[lj as int]) =~~= dvl.subrange(
                                li + 1,
                                lj + 1,
                            ));
                            lemma_flat_tokens_push(body_before, dvl[lj as int]);
                            assert(btoks.deep_view() =~~= spec_tokens(dvl[li as int]) + flat_tokens(
                                dvl.subrange(li + 1, lj + 1),
                            ));
                        }
                        lj = lj + 1;
                    }
                    let found = lj < lines.len();
                    let close_tok = chars_of("}");
                    let ghost before_close = btoks.deep_view();
                    btoks.push(close_tok);
                    proof {
                        let close = find_tok(tail, "}"@);
                        if found {
                            assert(tail[(lj - (li + 1)) as int] == dvl[lj as int]);
                            assert(close == lj - (li + 1));
                            assert(tail.take(close) =~~= dvl.subrange(li + 1, lj as int));
                        } else {
                            assert(close == -1);
                            assert(tail =~~= dvl.subrange(li + 1, lines@.len() as int));
                        }
                        assert(btoks.deep_view() =~~= before_close + seq!["}"@]);
                        let body = if close < 0 { tail } else { tail.take(close) };
                        assert(btoks.deep_view() =~~= spec_tokens(dvl[li as int]) + flat_tokens(
                            body,
                        ) + seq!["}"@]);
                    }
                    match forward_from_tokens(&btoks) {
                        Err(e) => { return Err(e); },
                        Ok(st) => {
                            let ghost before = statements@.map_values(|s: ForwardingStatement| s@);
                            let ghost sv = st@;
                            statements.push(st);
                            proof {
                                assert(statements@.map_values(|s: ForwardingStatement| s@) =~= before
                                    + seq![sv]);
                            }
                        },
                    }
                    if found {
                        li = lj + 1;
                    } else {
                        li = lines.len();
                    }
                    proof {
                        let close = find_tok(tail, "}"@);
                        let consumed = if close < 0 {
                            rem.len() as int
                        } else {
                            close + 2
                        };
                        assert(rem.skip(consumed) =~~= dvl.skip(li as int));
                    }
                } else {
                    let ltoks = tokenize(&lines[li]);
                    match forward_from_tokens(&ltoks) {
                        Err(e) => { return Err(e); },
                        Ok(st) => {
                            let ghost before = statements@.map_values(|s: ForwardingStatement| s@);
                            let ghost sv = st@;
                            statements.push(st);
                            proof {
                                assert(statements@.map_values(|s: ForwardingStatement| s@) =~= before
                                    + seq![sv]);
                            }
                        },
                    }
                    li = li + 1;
                }
            } else {
                return Err(ParseError::UnparseableLine);
            }
        }
    }
}

} // verus!
