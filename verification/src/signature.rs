//! Who signs the commits that record links.

use crate::error::LinkErrorOf;
use crate::link::{Signature, SignatureModel};
use crate::step::{asks, refused, ActionOf, Expected, Outcome, Reply, ReplyModel, Request};
use crate::text::{optional, parse_signed, signed_value};
use vstd::prelude::*;
use vstd::string::*;
use vstd::utf8::*;

verus! {

/// The signature of a commit whose time is fixed.
pub open spec fn fixed_signature(seconds: i64) -> SignatureModel {
    SignatureModel {
        name: encode_utf8("JOSH"@),
        email: encode_utf8("josh@josh-project.dev"@),
        seconds,
        offset: 0,
    }
}

/// What [`make_signature`] does after `replies`: a fixed commit time gives a fixed signature, and
/// without one the repository is asked.
pub open spec fn signature_step(
    commit_time: Option<Seq<char>>,
    replies: Seq<ReplyModel>,
) -> Expected<SignatureModel> {
    match commit_time {
        Some(time) => match signed_value(time) {
            Some(seconds) => Expected::Done { value: fixed_signature(seconds) },
            None => Expected::Fail { error: LinkErrorOf::InvalidCommitTime },
        },
        None => if replies.len() == 0 {
            Expected::Ask { request: asks(ActionOf::ReadSignature, "Failed to get signature"@) }
        } else {
            match replies.last() {
                ReplyModel::Signature(signature) => Expected::Done { value: signature },
                _ => refused(replies.last()),
            }
        },
    }
}

/// A search for the signature that waits for the repository's answer.
pub struct MakeSignature {
    waiting: (),
}

impl MakeSignature {
    /// Takes the reply to what was asked.
    pub fn resume(self, reply: Reply) -> (r: Outcome<MakeSignature, Signature>)
        ensures
            r.deep_view() == signature_step(None, seq![reply.deep_view()]),
            !(r is Ask),
    {
        match reply {
            Reply::Signature(signature) => Outcome::Done { value: signature },
            reply => Outcome::Fail { error: reply.refusal() },
        }
    }
}

/// Starts the search for the signature. `commit_time` is what the environment fixes the time of
/// commits to, where it does, in seconds since the start of 1970.
pub fn make_signature(commit_time: Option<&str>) -> (r: Outcome<MakeSignature, Signature>)
    ensures
        r.deep_view() == signature_step(optional(commit_time), Seq::empty()),
        r is Ask <==> commit_time is None,
{
    match commit_time {
        Some(time) => match parse_signed(time) {
            Some(seconds) => Outcome::Done {
                value: Signature {
                    name: "JOSH".as_bytes_vec(),
                    email: "josh@josh-project.dev".as_bytes_vec(),
                    seconds,
                    offset: 0,
                },
            },
            None => Outcome::Fail { error: LinkErrorOf::InvalidCommitTime },
        },
        None => Outcome::Ask {
            request: Request::with_context(
                ActionOf::ReadSignature,
                "Failed to get signature".to_owned(),
            ),
            next: MakeSignature { waiting: () },
        },
    }
}

} // verus!
