//! The dynv6 provider: its settings, the HTTP requests that carry each remote
//! operation, and how the service's replies read as operation replies.
//!
//! The zone apex is not a record at dynv6: its addresses are attributes of the
//! zone, read with a GET of the zone and written with a PATCH of it. Any other
//! host label is a record of the zone's record collection.

use vstd::prelude::*;
use crate::record::{OpView, RecordMachine, RemoteOp, RemoteRecord, RemoteReply, ReplyView};
use crate::request::{RequestMethod, RequestStructure, pairs_view};
use crate::config::ConfigError;
use crate::text::{decimal, decimal_text, json_quote, json_string_literal};

verus! {

/// A character a token may not hold: a control character or `:`.
pub open spec fn invalid_token_char(c: char) -> bool {
    (c as u32) < 0x20 || c as u32 == 0x7f || c == ':'
}

pub open spec fn has_invalid_char(s: Seq<char>) -> bool {
    exists|i: int| 0 <= i < s.len() && invalid_token_char(#[trigger] s[i])
}

/// Whether `s` holds a control character or `:`.
pub fn contains_invalid_chars(s: &str) -> (r: bool)
    ensures
        r == has_invalid_char(s@),
{
    let n: usize = s.unicode_len();
    let mut i: usize = 0;
    while i < n
        invariant
            n == s@.len(),
            0 <= i <= n,
            forall|k: int| 0 <= k < i ==> !invalid_token_char(#[trigger] s@[k]),
        decreases n - i,
    {
        let c = s.get_char(i);
        if (c as u32) < 0x20 || c as u32 == 0x7f || c == ':' {
            assert(invalid_token_char(s@[i as int]));
            return true;
        }
        i = i + 1;
    }
    false
}

/// A token that can be sent as a bearer token: not empty, and without a
/// control character or `:`.
pub open spec fn valid_token(t: Seq<char>) -> bool {
    t.len() > 0 && !has_invalid_char(t)
}

/// The record types dynv6 addresses can have.
pub open spec fn valid_record_type(t: Seq<char>) -> bool {
    t == "A"@ || t == "AAAA"@
}

/// The host label names the zone apex.
pub open spec fn is_apex(rr: Seq<char>) -> bool {
    rr == "@"@ || rr.len() == 0
}

pub open spec fn zone_url(zone: Seq<char>) -> Seq<char> {
    "https://dynv6.com/api/v2/zones/"@ + zone
}

pub open spec fn records_url(zone: Seq<char>) -> Seq<char> {
    zone_url(zone) + "/records"@
}

pub open spec fn record_url(zone: Seq<char>, id: Seq<char>) -> Seq<char> {
    records_url(zone) + "/"@ + id
}

/// The JSON object that sets the apex address: `ipv4address` for an IPv4
/// record, `ipv6prefix` otherwise; `qv` is the value as a JSON string literal.
pub open spec fn apex_json(v4: bool, qv: Seq<char>) -> Seq<char> {
    (if v4 {
        "{\"ipv4address\":"@
    } else {
        "{\"ipv6prefix\":"@
    }) + qv + "}"@
}

/// The JSON object of a record, from its fields as JSON string literals.
pub open spec fn record_json(qn: Seq<char>, qt: Seq<char>, qv: Seq<char>) -> Seq<char> {
    "{\"name\":"@ + qn + ",\"type\":"@ + qt + ",\"data\":"@ + qv + "}"@
}

pub open spec fn apex_body(t: Seq<char>, v: Seq<char>) -> Seq<char> {
    apex_json(t == "A"@, json_string_literal(v))
}

pub open spec fn record_body(rr: Seq<char>, t: Seq<char>, v: Seq<char>) -> Seq<char> {
    record_json(json_string_literal(rr), json_string_literal(t), json_string_literal(v))
}

/// The headers of every request: the bearer token and JSON content.
pub open spec fn auth_headers(token: Seq<char>) -> Seq<(Seq<char>, Seq<char>)> {
    seq![
        ("Authorization"@, "Bearer "@ + token),
        ("Content-Type"@, "application/json"@),
        ("Accept"@, "application/json"@),
    ]
}

/// Method, URL and body of the request that carries `op`, where one can.
pub open spec fn request_plan(zone: Seq<char>, rr: Seq<char>, t: Seq<char>, op: OpView) -> Option<
    (RequestMethod, Seq<char>, Seq<char>),
> {
    if !valid_record_type(t) {
        None
    } else {
        match op {
            OpView::List => Some(
                (
                    RequestMethod::GET,
                    if is_apex(rr) {
                        zone_url(zone)
                    } else {
                        records_url(zone)
                    },
                    Seq::empty(),
                ),
            ),
            OpView::Delete(id) => if is_apex(rr) {
                None
            } else {
                Some((RequestMethod::DELETE, record_url(zone, id), Seq::empty()))
            },
            OpView::Modify(id, v) => if is_apex(rr) {
                Some((RequestMethod::PATCH, zone_url(zone), apex_body(t, v)))
            } else {
                Some((RequestMethod::PATCH, record_url(zone, id), record_body(rr, t, v)))
            },
            OpView::Create(v) => if is_apex(rr) {
                None
            } else {
                Some((RequestMethod::POST, records_url(zone), record_body(rr, t, v)))
            },
        }
    }
}

/// The connection settings of a dynv6 zone.
#[derive(Debug)]
pub struct Dynv6Client {
    pub zone_id: String,
    pub token: String,
}

fn lit(s: &'static str) -> (r: String)
    ensures
        r@ == s@,
{
    String::from_str(s)
}

fn join(a: String, b: &str) -> (r: String)
    ensures
        r@ == a@ + b@,
{
    a.concat(b)
}

/// Whether two strings are equal.
fn same_text(a: &str, b: &str) -> (r: bool)
    ensures
        r == (a@ == b@),
{
    a.to_owned() == b.to_owned()
}

impl Dynv6Client {
    pub fn new(token: &str, zone_id: &str) -> (r: Self)
        ensures
            r.zone_id@ == zone_id@,
            r.token@ == token@,
    {
        Self { zone_id: zone_id.to_owned(), token: token.to_owned() }
    }

    fn zone_url(&self) -> (r: String)
        ensures
            r@ == zone_url(self.zone_id@),
    {
        join(lit("https://dynv6.com/api/v2/zones/"), self.zone_id.as_str())
    }

    fn records_url(&self) -> (r: String)
        ensures
            r@ == records_url(self.zone_id@),
    {
        join(self.zone_url(), "/records")
    }

    fn record_url(&self, id: &str) -> (r: String)
        ensures
            r@ == record_url(self.zone_id@, id@),
    {
        join(join(self.records_url(), "/"), id)
    }

    fn auth_headers(&self) -> (r: Vec<(String, String)>)
        ensures
            pairs_view(r@) == auth_headers(self.token@),
    {
        let r = vec![
            (lit("Authorization"), join(lit("Bearer "), self.token.as_str())),
            (lit("Content-Type"), lit("application/json")),
            (lit("Accept"), lit("application/json")),
        ];
        assert(pairs_view(r@) =~= auth_headers(self.token@));
        r
    }

    /// The request that carries `op` for host label `rr` and record type
    /// `record_type`, with the bearer token; none where dynv6 offers no such
    /// operation (a record type other than `A` or `AAAA`, creating or deleting
    /// the apex).
    pub fn request_for(&self, rr: &str, record_type: &str, op: &RemoteOp) -> (r: Option<
        RequestStructure,
    >)
        ensures
            match request_plan(self.zone_id@, rr@, record_type@, op@) {
                Some(p) => r is Some && r->0.mathod == p.0 && r->0.url@ == p.1 && r->0.content@
                    == p.2 && r->0.headers is Some && pairs_view(r->0.headers->0@) == auth_headers(
                    self.token@,
                ) && r->0.proxy is None && r->0.user_agent is None && r->0.cookie is None,
                None => r is None,
            },
    {
        let is_a = same_text(record_type, "A");
        let is_aaaa = same_text(record_type, "AAAA");
        if !is_a && !is_aaaa {
            return None;
        }
        let apex = same_text(rr, "@") || rr.unicode_len() == 0;
        let planned: Option<(RequestMethod, String, String)> = match op {
            RemoteOp::List => Some(
                (
                    RequestMethod::GET,
                    if apex {
                        self.zone_url()
                    } else {
                        self.records_url()
                    },
                    String::new(),
                ),
            ),
            RemoteOp::Delete(id) => if apex {
                None
            } else {
                Some((RequestMethod::DELETE, self.record_url(id.as_str()), String::new()))
            },
            RemoteOp::Modify(id, v) => if apex {
                let body = Self::apex_json(is_a, json_quote(v.as_str()).as_str());
                Some((RequestMethod::PATCH, self.zone_url(), body))
            } else {
                Some(
                    (
                        RequestMethod::PATCH,
                        self.record_url(id.as_str()),
                        Self::record_body(rr, record_type, v.as_str()),
                    ),
                )
            },
            RemoteOp::Create(v) => if apex {
                None
            } else {
                Some(
                    (
                        RequestMethod::POST,
                        self.records_url(),
                        Self::record_body(rr, record_type, v.as_str()),
                    ),
                )
            },
        };
        match planned {
            Some((method, url, body)) => Some(
                RequestStructure::new(
                    method,
                    url,
                    body,
                    Some(self.auth_headers()),
                    None,
                    None,
                    None,
                ),
            ),
            None => None,
        }
    }

    fn record_body(rr: &str, record_type: &str, v: &str) -> (r: String)
        ensures
            r@ == record_body(rr@, record_type@, v@),
    {
        Self::record_json(json_quote(rr).as_str(), json_quote(record_type).as_str(), json_quote(v).as_str())
    }

    /// The JSON object of a record, from its name, type and value written as
    /// JSON string literals.
    pub fn record_json(qn: &str, qt: &str, qv: &str) -> (r: String)
        ensures
            r@ == record_json(qn@, qt@, qv@),
    {
        let s = join(join(lit("{\"name\":"), qn), ",\"type\":");
        let s = join(join(join(s, qt), ",\"data\":"), qv);
        join(s, "}")
    }

    /// The JSON object that sets the zone apex's IPv4 address (`v4`) or IPv6
    /// prefix to `qv`, a JSON string literal.
    pub fn apex_json(v4: bool, qv: &str) -> (r: String)
        ensures
            r@ == apex_json(v4, qv@),
    {
        let head = if v4 {
            lit("{\"ipv4address\":")
        } else {
            lit("{\"ipv6prefix\":")
        };
        join(join(head, qv), "}")
    }
}


/// The fields of a dynv6 record that the provider reads.
#[derive(Debug)]
pub struct Dynv6Record {
    pub id: u64,
    pub name: String,
    pub record_type: String,
    pub data: String,
}

/// The fields of a dynv6 zone that the provider reads.
#[derive(Debug)]
pub struct ZoneFields {
    pub id: Option<u64>,
    pub ipv4address: Option<String>,
    pub ipv6prefix: Option<String>,
}

/// What a reply body was read as.
#[derive(Debug)]
pub enum Dynv6Body {
    Empty,
    Records(Vec<Dynv6Record>),
    Zone(ZoneFields),
    Unreadable,
}

/// How the body of a reply is to be read.
#[derive(Clone, Copy, Debug, PartialEq, Eq, Structural)]
pub enum BodyShape {
    Ignored,
    /// One zone object.
    Zone,
    /// A JSON array of records.
    Records,
}

pub open spec fn body_shape(rr: Seq<char>, op: OpView) -> BodyShape {
    match op {
        OpView::List => if is_apex(rr) {
            BodyShape::Zone
        } else {
            BodyShape::Records
        },
        OpView::Create(_) => BodyShape::Records,
        _ => BodyShape::Ignored,
    }
}

/// The text to parse for a body of the given shape: none for an empty body;
/// a records body that is a single object rather than an array is wrapped
/// into a one-element array.
pub open spec fn framed_body(shape: BodyShape, body: Seq<char>) -> Option<Seq<char>> {
    if body.len() == 0 {
        None
    } else if shape == BodyShape::Records && body[0] != '[' {
        Some("["@ + body + "]"@)
    } else {
        Some(body)
    }
}

/// The records of `rs` with host label `rr` and type `t`, as identifier and
/// value.
pub open spec fn matching_records(rs: Seq<Dynv6Record>, rr: Seq<char>, t: Seq<char>) -> Seq<
    (Seq<char>, Seq<char>),
>
    decreases rs.len(),
{
    if rs.len() == 0 {
        Seq::empty()
    } else {
        matching_records(rs.drop_last(), rr, t) + if rs.last().name@ == rr && rs.last().record_type@
            == t {
            seq![(decimal(rs.last().id as nat), rs.last().data@)]
        } else {
            Seq::empty()
        }
    }
}

/// The apex record that a zone holds for record type `t`: its address, under
/// identifier `0`, where the zone has one.
pub open spec fn zone_listing(t: Seq<char>, z: ZoneFields) -> ReplyView {
    let field = if t == "A"@ {
        z.ipv4address
    } else {
        z.ipv6prefix
    };
    match (field, z.id) {
        (Some(v), Some(_)) => ReplyView::Listed(seq![(decimal(0), v@)]),
        _ => ReplyView::Listed(Seq::empty()),
    }
}

/// The operation reply that a dynv6 reply of status `status` and body `body`
/// stands for.
pub open spec fn dynv6_reply(
    rr: Seq<char>,
    t: Seq<char>,
    op: OpView,
    status: u16,
    body: Dynv6Body,
) -> ReplyView {
    if status != 200 {
        ReplyView::Failed
    } else {
        match op {
            OpView::List => if is_apex(rr) {
                match body {
                    Dynv6Body::Empty => ReplyView::Listed(Seq::empty()),
                    Dynv6Body::Zone(z) => zone_listing(t, z),
                    _ => ReplyView::Failed,
                }
            } else {
                match body {
                    Dynv6Body::Records(rs) => ReplyView::Listed(matching_records(rs@, rr, t)),
                    _ => ReplyView::Failed,
                }
            },
            OpView::Delete(_) => ReplyView::Deleted,
            OpView::Modify(id, _) => ReplyView::Modified(id),
            OpView::Create(_) => match body {
                Dynv6Body::Records(rs) => if matching_records(rs@, rr, t).len() > 0 {
                    ReplyView::Created(matching_records(rs@, rr, t)[0].0)
                } else {
                    ReplyView::Failed
                },
                _ => ReplyView::Failed,
            },
        }
    }
}

fn is_apex_label(rr: &str) -> (r: bool)
    ensures
        r == is_apex(rr@),
{
    same_text(rr, "@") || rr.unicode_len() == 0
}

fn copy_text(s: &String) -> (r: String)
    ensures
        r@ == s@,
{
    s.clone()
}

impl Dynv6Client {
    /// How the body of the reply to `op` is to be read.
    pub fn body_shape(rr: &str, op: &RemoteOp) -> (r: BodyShape)
        ensures
            r == body_shape(rr@, op@),
    {
        match op {
            RemoteOp::List => if is_apex_label(rr) {
                BodyShape::Zone
            } else {
                BodyShape::Records
            },
            RemoteOp::Create(_) => BodyShape::Records,
            _ => BodyShape::Ignored,
        }
    }

    /// The text to parse for a reply body of the given shape.
    pub fn frame_body(shape: BodyShape, body: &str) -> (r: Option<String>)
        ensures
            match framed_body(shape, body@) {
                Some(f) => r is Some && r->0@ == f,
                None => r is None,
            },
    {
        if body.unicode_len() == 0 {
            None
        } else if shape == BodyShape::Records && body.get_char(0) != '[' {
            Some(join(join(lit("["), body), "]"))
        } else {
            Some(body.to_owned())
        }
    }

    /// The records of `rs` with host label `rr` and type `t`.
    pub fn matching_records(rs: &Vec<Dynv6Record>, rr: &str, t: &str) -> (r: Vec<RemoteRecord>)
        ensures
            r@.map_values(|x: RemoteRecord| x@) == matching_records(rs@, rr@, t@),
    {
        let mut out: Vec<RemoteRecord> = Vec::new();
        let mut i: usize = 0;
        while i < rs.len()
            invariant
                0 <= i <= rs@.len(),
                out@.map_values(|x: RemoteRecord| x@) =~= matching_records(
                    rs@.take(i as int),
                    rr@,
                    t@,
                ),
            decreases rs@.len() - i,
        {
            let rec = &rs[i];
            let ghost before = out@;
            proof {
                assert(rs@.take(i + 1).drop_last() =~= rs@.take(i as int));
            }
            if same_text(rec.name.as_str(), rr) && same_text(rec.record_type.as_str(), t) {
                out.push(RemoteRecord { id: decimal_text(rec.id), value: copy_text(&rec.data) });
                proof {
                    assert(out@.map_values(|x: RemoteRecord| x@) =~= before.map_values(
                        |x: RemoteRecord| x@,
                    ).push((decimal(rec.id as nat), rec.data@)));
                }
            } else {
                proof {
                    assert(matching_records(rs@.take(i + 1), rr@, t@) =~= matching_records(
                        rs@.take(i as int),
                        rr@,
                        t@,
                    ));
                }
            }
            i = i + 1;
        }
        proof {
            assert(rs@.take(i as int) =~= rs@);
        }
        out
    }

    /// The operation reply that a dynv6 reply stands for, with its body read
    /// as `body_shape` asks.
    pub fn reply_for(rr: &str, t: &str, op: &RemoteOp, status: u16, body: Dynv6Body) -> (r:
        RemoteReply)
        ensures
            r@ == dynv6_reply(rr@, t@, op@, status, body),
    {
        if status != 200 {
            return RemoteReply::Failed;
        }
        match op {
            RemoteOp::List => {
                if is_apex_label(rr) {
                    match body {
                        Dynv6Body::Empty => {
                            let r = RemoteReply::Listed(Vec::new());
                            assert(r@ == dynv6_reply(rr@, t@, op@, status, body)) by {
                                assert(Seq::<RemoteRecord>::empty().map_values(|x: RemoteRecord| x@)
                                    =~= Seq::empty());
                            }
                            r
                        },
                        Dynv6Body::Zone(z) => {
                            let ghost zz = z;
                            let field = if same_text(t, "A") {
                                z.ipv4address
                            } else {
                                z.ipv6prefix
                            };
                            match (field, z.id) {
                                (Some(v), Some(_)) => {
                                    let ghost vv = v@;
                                    let l = vec![RemoteRecord { id: decimal_text(0), value: v }];
                                    assert(l@.map_values(|x: RemoteRecord| x@) =~= seq![
                                        (decimal(0), vv),
                                    ]);
                                    RemoteReply::Listed(l)
                                },
                                _ => {
                                    let r = RemoteReply::Listed(Vec::new());
                                    assert(r@ == zone_listing(t@, zz)) by {
                                        assert(Seq::<RemoteRecord>::empty().map_values(
                                            |x: RemoteRecord| x@,
                                        ) =~= Seq::empty());
                                    }
                                    r
                                },
                            }
                        },
                        _ => RemoteReply::Failed,
                    }
                } else {
                    match body {
                        Dynv6Body::Records(rs) => RemoteReply::Listed(
                            Self::matching_records(&rs, rr, t),
                        ),
                        _ => RemoteReply::Failed,
                    }
                }
            },
            RemoteOp::Delete(_) => RemoteReply::Deleted,
            RemoteOp::Modify(id, _) => RemoteReply::Modified(copy_text(id)),
            RemoteOp::Create(_) => match body {
                Dynv6Body::Records(rs) => {
                    let found = Self::matching_records(&rs, rr, t);
                    if found.len() > 0 {
                        RemoteReply::Created(copy_text(&found[0].id))
                    } else {
                        RemoteReply::Failed
                    }
                },
                _ => RemoteReply::Failed,
            },
        }
    }
}

/// A dynv6 record kept in step with a local address.
#[derive(Debug)]
pub struct Dynv6 {
    /// The zone's identifier, as it appears in the zone's URL.
    pub zone_id: String,
    /// Bearer token of the account.
    pub token: String,
    /// Host label of the record; `@` or empty for the zone apex.
    pub rr: String,
    pub record_type: String,
    pub client: Dynv6Client,
    pub record: RecordMachine,
}

impl Dynv6 {
    pub fn new(zone_id: &str, token: &str, rr: &str, record_type: &str) -> (r: Self)
        ensures
            r.zone_id@ == zone_id@,
            r.token@ == token@,
            r.rr@ == rr@,
            r.record_type@ == record_type@,
            r.client.zone_id@ == zone_id@,
            r.client.token@ == token@,
            r.record@.state.existence == crate::record::Existence::Unknown,
            r.record@.job == crate::record::JobView::Idle,
    {
        Self {
            zone_id: zone_id.to_owned(),
            token: token.to_owned(),
            rr: rr.to_owned(),
            record_type: record_type.to_owned(),
            client: Dynv6Client::new(token, zone_id),
            record: RecordMachine::new(),
        }
    }

    /// Settings as they are loaded: the token must be a valid bearer token
    /// and the record type `A` or `AAAA`.
    pub fn from_settings(zone_id: &str, token: &str, rr: &str, record_type: &str) -> (r: Result<
        Self,
        ConfigError,
    >)
        ensures
            !valid_token(token@) ==> r == Err::<Self, ConfigError>(ConfigError::InvalidToken),
            valid_token(token@) && !valid_record_type(record_type@) ==> r == Err::<
                Self,
                ConfigError,
            >(ConfigError::InvalidRecordType),
            valid_token(token@) && valid_record_type(record_type@) ==> r is Ok && r->Ok_0.zone_id@
                == zone_id@ && r->Ok_0.token@ == token@ && r->Ok_0.rr@ == rr@
                && r->Ok_0.record_type@ == record_type@ && r->Ok_0.client.zone_id@ == zone_id@
                && r->Ok_0.client.token@ == token@ && r->Ok_0.record@.state.existence
                == crate::record::Existence::Unknown,
    {
        if token.unicode_len() == 0 || contains_invalid_chars(token) {
            return Err(ConfigError::InvalidToken);
        }
        if !same_text(record_type, "A") && !same_text(record_type, "AAAA") {
            return Err(ConfigError::InvalidRecordType);
        }
        Ok(Self::new(zone_id, token, rr, record_type))
    }

    /// The request that carries `op` for this record.
    pub fn request_for(&self, op: &RemoteOp) -> (r: Option<RequestStructure>)
        ensures
            match request_plan(self.client.zone_id@, self.rr@, self.record_type@, op@) {
                Some(p) => r is Some && r->0.mathod == p.0 && r->0.url@ == p.1 && r->0.content@
                    == p.2 && r->0.headers is Some && pairs_view(r->0.headers->0@) == auth_headers(
                    self.client.token@,
                ),
                None => r is None,
            },
    {
        self.client.request_for(self.rr.as_str(), self.record_type.as_str(), op)
    }

    /// The request that deletes the record of identifier `record_id`.
    pub fn delete_subdomain_records(&self, record_id: &str) -> (r: Option<RequestStructure>)
        ensures
            match request_plan(
                self.client.zone_id@,
                self.rr@,
                self.record_type@,
                OpView::Delete(record_id@),
            ) {
                Some(p) => r is Some && r->0.mathod == p.0 && r->0.url@ == p.1 && r->0.content@
                    == p.2 && r->0.headers is Some && pairs_view(r->0.headers->0@) == auth_headers(
                    self.client.token@,
                ),
                None => r is None,
            },
    {
        let op = RemoteOp::Delete(record_id.to_owned());
        self.request_for(&op)
    }

    /// How the body of the reply to `op` is to be read.
    pub fn body_shape(&self, op: &RemoteOp) -> (r: BodyShape)
        ensures
            r == body_shape(self.rr@, op@),
    {
        Dynv6Client::body_shape(self.rr.as_str(), op)
    }

    /// The operation reply that a dynv6 reply to `op` stands for.
    pub fn reply_for(&self, op: &RemoteOp, status: u16, body: Dynv6Body) -> (r: RemoteReply)
        ensures
            r@ == dynv6_reply(self.rr@, self.record_type@, op@, status, body),
    {
        Dynv6Client::reply_for(self.rr.as_str(), self.record_type.as_str(), op, status, body)
    }
}

} // verus!
