//! The words that the laws say what an operation or a command does with.

use crate::error::{LinkErrorModel, LinkErrorOf};
use crate::filter::{FilterModel, FilterOf};
use crate::link::SignatureModel;
use crate::notice::NoticeModel;
use crate::step::{ActionModel, Expected, ReplyModel, RequestModel, RequestOf};
use crate::text::signed_value;
use crate::turn::TurnModel;
use vstd::prelude::*;
use vstd::utf8::*;

verus! {

/// A request of which `context` is said where it fails.
pub open spec fn said(action: ActionModel, context: Seq<char>) -> RequestModel {
    RequestOf { action, context: Some(context), within: None }
}

/// A request of which nothing is said where it fails.
pub open spec fn unsaid(action: ActionModel) -> RequestModel {
    RequestOf { action, context: None, within: None }
}

/// The filter that a text of the program writes.
pub open spec fn built_in(text: Seq<char>, context: Seq<char>) -> FilterModel {
    FilterOf::Parse { text, context }
}

/// The filter that a text of the user writes.
pub open spec fn given(text: Seq<char>) -> FilterModel {
    FilterOf::Parse { text, context: "Failed to parse filter '"@ + text + "'"@ }
}

/// The inverse of the filter that a text of the user writes.
pub open spec fn given_inverse(text: Seq<char>) -> FilterModel {
    FilterOf::Invert {
        base: Box::new(given(text)),
        context: "Filter '"@ + text + "' has no inverse"@,
    }
}

/// Why a reply that is no answer ends what it was given to: a failure is reported in its contexts,
/// and anything else is unexpected.
pub open spec fn reason_for(reply: ReplyModel) -> LinkErrorModel {
    match reply {
        ReplyModel::Failed { context, within } => LinkErrorOf::ActionFailed { context, within },
        _ => LinkErrorOf::UnexpectedReply,
    }
}

/// A command that says `tell`, and asks for something then.
pub open spec fn asks_after(tell: Seq<NoticeModel>, request: RequestModel) -> TurnModel {
    TurnModel { tell, outcome: Expected::Ask { request } }
}

/// A command that asks for something without a word.
pub open spec fn just_asks(request: RequestModel) -> TurnModel {
    TurnModel { tell: Seq::empty(), outcome: Expected::Ask { request } }
}

/// A command that says `tell`, and is refused then.
pub open spec fn fails_after(tell: Seq<NoticeModel>, error: LinkErrorModel) -> TurnModel {
    TurnModel { tell, outcome: Expected::Fail { error } }
}

/// A command that is refused without a word.
pub open spec fn just_fails(error: LinkErrorModel) -> TurnModel {
    TurnModel { tell: Seq::empty(), outcome: Expected::Fail { error } }
}

/// A command that says `tell`, and has come to its end.
pub open spec fn ends_after(tell: Seq<NoticeModel>) -> TurnModel {
    TurnModel { tell, outcome: Expected::Done { value: () } }
}

/// The replies to the search for a signature, and the signature: with a fixed time, josh signs at
/// that time, and there is nothing to be asked.
pub open spec fn is_signed(
    commit_time: Option<Seq<char>>,
    row: Seq<ReplyModel>,
    signature: SignatureModel,
) -> bool {
    match commit_time {
        None => row == seq![ReplyModel::Signature(signature)],
        Some(time) => {
            &&& row.len() == 0
            &&& signed_value(time) is Some
            &&& signature == SignatureModel {
                name: encode_utf8("JOSH"@),
                email: encode_utf8("josh@josh-project.dev"@),
                seconds: signed_value(time)->0,
                offset: 0,
            }
        },
    }
}

} // verus!
