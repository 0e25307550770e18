//! What the command that pushes a link asks for.

use crate::command::push::{preparing, push_request, push_turn, then_prepare, then_push};
use crate::command::shared::{head_request, then_end};
use crate::laws::operations::{is_bare, is_first_at, is_slashes, pushed_content_is_reversed};
use crate::laws::words::{ends_after, just_asks, just_fails, said};
use crate::link::LinkFileModel;
use crate::oid::{reads_as, ObjectId};
use crate::push::push_step;
use crate::step::{ActionOf, Expected, ReplyModel};
use crate::turn::{chain_asks, chain_follows, chain_takes_one, for_finish, for_id, pending_at_start};
use vstd::prelude::*;
use vstd::string::*;
use vstd::utf8::*;

verus! {

proof fn push_is_prepared_first(
    path: Seq<char>,
    force: bool,
    head: ObjectId,
    row: Seq<ReplyModel>,
    more: Seq<ReplyModel>,
)
    requires
        forall|i: int|
            0 <= i < row.len() ==> #[trigger] push_step(head, encode_utf8(path), row.take(i))
                is Ask,
    ensures
        match push_step(head, encode_utf8(path), row) {
            Expected::Ask { request } => push_turn(path, force, seq![ReplyModel::Id(head)] + row)
                == just_asks(request),
            Expected::Fail { error } => push_turn(path, force, seq![ReplyModel::Id(head)] + row)
                == just_fails(error),
            Expected::Done { value } => push_turn(
                path,
                force,
                seq![ReplyModel::Id(head)] + (row + more),
            ) == then_push(force)(value, more),
        },
{
    let step = preparing(head, path);
    let next = then_prepare(path, force);
    let none = Seq::<ReplyModel>::empty();
    chain_takes_one(for_id(head_request()), ReplyModel::Id(head), row, next);
    chain_takes_one(for_id(head_request()), ReplyModel::Id(head), row + more, next);
    assert(row + none =~= row);
    assert forall|i: int| 0 <= i < row.len() implies #[trigger] step(row.take(i)) is Ask by {
        assert(push_step(head, encode_utf8(path), row.take(i)) is Ask);
    }
    chain_follows(step, row, more, then_push(force));
    chain_follows(step, row, none, then_push(force));
}

/// The command finds the commit that is checked out, and then does what the preparation of the push
/// of that does, until that is done or refused.
pub proof fn push_follows_its_preparation(
    path: Seq<char>,
    force: bool,
    head: ObjectId,
    row: Seq<ReplyModel>,
)
    requires
        forall|i: int|
            0 <= i < row.len() ==> #[trigger] push_step(head, encode_utf8(path), row.take(i))
                is Ask,
    ensures
        push_turn(path, force, Seq::empty()) == just_asks(
            said(ActionOf::Head, "Failed to get HEAD"@),
        ),
        match push_step(head, encode_utf8(path), row) {
            Expected::Ask { request } => push_turn(path, force, seq![ReplyModel::Id(head)] + row)
                == just_asks(request),
            Expected::Fail { error } => push_turn(path, force, seq![ReplyModel::Id(head)] + row)
                == just_fails(error),
            Expected::Done { value } => true,
        },
{
    pending_at_start(for_id(head_request()));
    chain_asks(for_id(head_request()), Seq::empty(), then_prepare(path, force));
    push_is_prepared_first(path, force, head, row, Seq::empty());
}

/// Once the push is prepared, git is to push the exported commit to the remote: onto the branch
/// that the link follows, or onto the master branch where it follows none by name. The last request
/// starts with a plus sign exactly where the command was started with force, whatever the branch
/// is; and behind it the command comes to its end.
pub proof fn prepared_push_is_pushed(
    path: Seq<char>,
    force: bool,
    head: ObjectId,
    row: Seq<ReplyModel>,
)
    requires
        forall|i: int|
            0 <= i < row.len() ==> #[trigger] push_step(head, encode_utf8(path), row.take(i))
                is Ask,
        push_step(head, encode_utf8(path), row) is Done,
    ensures
        ({
            let push = push_step(head, encode_utf8(path), row)->value;
            let prepared = seq![ReplyModel::Id(head)] + row;
            let branch = if push.configured_target == "HEAD"@ {
                "refs/heads/master"@
            } else {
                push.configured_target
            };
            let plain = push.exported_commit.hex() + ":"@ + branch;
            let asked = push_turn(path, force, prepared);
            &&& asked == just_asks(
                said(
                    ActionOf::Git {
                        verb: "push"@,
                        remote: push.remote,
                        refspec: if force {
                            seq!['+'] + plain
                        } else {
                            plain
                        },
                    },
                    "Failed to push to '"@ + push.remote + "'"@,
                ),
            )
            &&& asked.outcome->request.action->refspec[0] == '+' <==> force
            &&& push_turn(path, force, prepared.push(ReplyModel::Finished)) == ends_after(
                Seq::empty(),
            )
        }),
{
    let none = Seq::<ReplyModel>::empty();
    let last = seq![ReplyModel::Finished];
    let push = push_step(head, encode_utf8(path), row)->value;
    let prepared = seq![ReplyModel::Id(head)] + row;
    let step = for_finish(push_request(push, force));
    reveal_strlit("+");
    reveal_strlit("");
    assert(row + none =~= row);
    push_is_prepared_first(path, force, head, row, none);
    pending_at_start(step);
    chain_asks(step, none, then_end());
    let asked = push_turn(path, force, prepared);
    let spec = asked.outcome->request.action->refspec;
    let branch = if push.configured_target == "HEAD"@ {
        "refs/heads/master"@
    } else {
        push.configured_target
    };
    let plain = push.exported_commit.hex() + ":"@ + branch;
    assert(spec =~= if force {
        seq!['+'] + plain
    } else {
        plain
    });
    assert(plain[0] == push.exported_commit.hex()[0]);
    assert(seq![ReplyModel::Id(head)] + (row + last) =~= prepared.push(ReplyModel::Finished));
    push_is_prepared_first(path, force, head, row, last);
    assert(last + none =~= last);
    chain_takes_one(step, ReplyModel::Finished, none, then_end());
}

/// From the replies of a repository to the push: the command pushes the commit that came of the
/// reversal to the remote of the first link file at the path, onto the branch that this records.
pub proof fn link_is_pushed_to_its_remote(
    before: Seq<char>,
    name: Seq<char>,
    after: Seq<char>,
    force: bool,
    head: ObjectId,
    tree: ObjectId,
    files: Seq<LinkFileModel>,
    j: int,
    pin: ObjectId,
    filtered: ObjectId,
    local: ObjectId,
    exported: ObjectId,
)
    requires
        is_slashes(before),
        is_slashes(after),
        is_bare(name),
        is_first_at(files, encode_utf8(name), j),
        files[j].remote is Some,
        files[j].commit is Some,
        reads_as(files[j].commit->0, Ok(pin)),
        exists|i: int| 0 <= i < 20 && local.bytes@[i] != 0,
    ensures
        ({
            let branch = match files[j].target {
                Some(target) => if target == "HEAD"@ {
                    "refs/heads/master"@
                } else {
                    target
                },
                None => "refs/heads/master"@,
            };
            let plain = exported.hex() + ":"@ + branch;
            push_turn(
                before + name + after,
                force,
                seq![
                    ReplyModel::Id(head),
                    ReplyModel::Id(tree),
                    ReplyModel::Links(files),
                    ReplyModel::Id(filtered),
                    ReplyModel::Id(local),
                    ReplyModel::Id(exported),
                ],
            ) == just_asks(
                said(
                    ActionOf::Git {
                        verb: "push"@,
                        remote: files[j].remote->0,
                        refspec: if force {
                            seq!['+'] + plain
                        } else {
                            plain
                        },
                    },
                    "Failed to push to '"@ + files[j].remote->0 + "'"@,
                ),
            )
        }),
{
    let path = before + name + after;
    let found = seq![ReplyModel::Id(tree), ReplyModel::Links(files)];
    let row = found + seq![
        ReplyModel::Id(filtered),
        ReplyModel::Id(local),
        ReplyModel::Id(exported),
    ];
    pushed_content_is_reversed(
        head,
        before,
        name,
        after,
        tree,
        files,
        j,
        pin,
        filtered,
        local,
        exported,
    );
    assert forall|i: int| 0 <= i < row.len() implies #[trigger] push_step(
        head,
        encode_utf8(path),
        row.take(i),
    ) is Ask by {
        if i == 0 {
            assert(row.take(i) =~= Seq::empty());
        } else if i == 1 {
            assert(row.take(i) =~= seq![ReplyModel::Id(tree)]);
        } else if i == 2 {
            assert(row.take(i) =~= found);
        } else if i == 3 {
            assert(row.take(i) =~= found + seq![ReplyModel::Id(filtered)]);
        } else {
            assert(row.take(i) =~= found + seq![ReplyModel::Id(filtered), ReplyModel::Id(local)]);
        }
    }
    prepared_push_is_pushed(path, force, head, row);
    assert(seq![ReplyModel::Id(head)] + row =~= seq![
        ReplyModel::Id(head),
        ReplyModel::Id(tree),
        ReplyModel::Links(files),
        ReplyModel::Id(filtered),
        ReplyModel::Id(local),
        ReplyModel::Id(exported),
    ]);
}

} // verus!
