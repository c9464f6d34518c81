//! The Aliyun DNS provider: its settings, and how the records the service
//! lists for a domain read as the records of the provider's host label.

use vstd::prelude::*;
use crate::record::{RecordMachine, RemoteRecord, RemoteReply, ReplyView};

verus! {

/// The fields of an Aliyun domain record that the provider reads.
#[derive(Debug)]
pub struct AliyunRecord {
    pub rr: String,
    pub record_type: String,
    pub value: String,
    pub record_id: String,
}

/// The records of `rs` with host label `rr` and type `t`, as identifier and
/// value, in the service's order.
pub open spec fn aliyun_matching(rs: Seq<AliyunRecord>, rr: Seq<char>, t: Seq<char>) -> Seq<
    (Seq<char>, Seq<char>),
>
    decreases rs.len(),
{
    if rs.len() == 0 {
        Seq::empty()
    } else {
        aliyun_matching(rs.drop_last(), rr, t) + if rs.last().rr@ == rr && rs.last().record_type@
            == t {
            seq![(rs.last().record_id@, rs.last().value@)]
        } else {
            Seq::empty()
        }
    }
}

/// The reply to a listing of `rs` out of `total_count` records of the
/// domain: a listing that does not cover the total is incomplete, and is no
/// answer.
pub open spec fn aliyun_listing(
    rs: Seq<AliyunRecord>,
    total_count: u32,
    rr: Seq<char>,
    t: Seq<char>,
) -> ReplyView {
    if rs.len() < total_count {
        ReplyView::Failed
    } else {
        ReplyView::Listed(aliyun_matching(rs, rr, t))
    }
}

/// An Aliyun DNS record kept in step with a local address.
#[derive(Debug)]
pub struct Aliyun {
    pub access_key_id: String,
    pub access_key_secret: String,
    pub domain: String,
    /// Host label of the record within `domain`.
    pub rr: String,
    pub ttl: Option<u64>,
    pub record_type: String,
    pub record: RecordMachine,
}

impl Aliyun {
    pub fn new(
        access_key_id: &str,
        access_key_secret: &str,
        domain: &str,
        rr: &str,
        ttl: Option<u64>,
        record_type: &str,
    ) -> (r: Self)
        ensures
            r.access_key_id@ == access_key_id@,
            r.access_key_secret@ == access_key_secret@,
            r.domain@ == domain@,
            r.rr@ == rr@,
            r.ttl == ttl,
            r.record_type@ == record_type@,
            r.record@.state.existence == crate::record::Existence::Unknown,
            r.record@.job == crate::record::JobView::Idle,
    {
        Self {
            access_key_id: access_key_id.to_owned(),
            access_key_secret: access_key_secret.to_owned(),
            domain: domain.to_owned(),
            rr: rr.to_owned(),
            ttl,
            record_type: record_type.to_owned(),
            record: RecordMachine::new(),
        }
    }

    /// The records of the domain listing `rs` that are this provider's: the
    /// host label and the record type match.
    pub fn matching_records(&self, rs: &Vec<AliyunRecord>) -> (r: Vec<RemoteRecord>)
        ensures
            r@.map_values(|x: RemoteRecord| x@) == aliyun_matching(rs@, self.rr@, self.record_type@),
    {
        let rr = self.rr.clone();
        let t = self.record_type.clone();
        let mut out: Vec<RemoteRecord> = Vec::new();
        let mut i: usize = 0;
        while i < rs.len()
            invariant
                0 <= i <= rs@.len(),
                rr@ == self.rr@,
                t@ == self.record_type@,
                out@.map_values(|x: RemoteRecord| x@) =~= aliyun_matching(
                    rs@.take(i as int),
                    self.rr@,
                    self.record_type@,
                ),
            decreases rs@.len() - i,
        {
            let rec = &rs[i];
            let ghost before = out@;
            proof {
                assert(rs@.take(i + 1).drop_last() =~= rs@.take(i as int));
            }
            if rec.rr == rr && rec.record_type == t {
                out.push(RemoteRecord { id: rec.record_id.clone(), value: rec.value.clone() });
                proof {
                    assert(out@.map_values(|x: RemoteRecord| x@) =~= before.map_values(
                        |x: RemoteRecord| x@,
                    ).push((rec.record_id@, rec.value@)));
                }
            } else {
                proof {
                    assert(aliyun_matching(rs@.take(i + 1), self.rr@, self.record_type@)
                        =~= aliyun_matching(rs@.take(i as int), self.rr@, self.record_type@));
                }
            }
            i = i + 1;
        }
        proof {
            assert(rs@.take(i as int) =~= rs@);
        }
        out
    }

    /// The operation reply to a listing of the domain's records `rs`, of
    /// which the service counts `total_count`.
    pub fn list_reply(&self, rs: &Vec<AliyunRecord>, total_count: u32) -> (r: RemoteReply)
        ensures
            r@ == aliyun_listing(rs@, total_count, self.rr@, self.record_type@),
    {
        if rs.len() < total_count as usize {
            RemoteReply::Failed
        } else {
            RemoteReply::Listed(self.matching_records(rs))
        }
    }
}

} // verus!
