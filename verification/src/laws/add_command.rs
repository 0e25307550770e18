//! What the command that adds a link asks for.

use crate::add::{commit_add_step, prepare_add_step, AddArgs, CommitArgs};
use crate::command::add::{
    add_args, add_turn, added_branch_request, adding, base_tree_request, committing, export_args,
    export_comes_first, exporting, fetched_request, mode_request, seed_request, then_add,
    then_added, then_branch, then_commit, then_export, then_mode, then_resolve, then_seed,
    then_tree, then_use_fetched,
};
use crate::command::args::LinkAddModel;
use crate::command::shared::{head_request, signing};
use crate::error::LinkErrorOf;
use crate::filter::FilterOf;
use crate::laws::operations::{
    directory_is_exported, is_bare, is_slashes, slashes_around_are_trimmed,
};
use crate::laws::words::{
    asks_after, ends_after, fails_after, given_inverse, is_signed, just_asks, just_fails, said,
    unsaid,
};
use crate::link::SignatureModel;
use crate::notice::{NoticeModel, NoticeOf};
use crate::oid::ObjectId;
use crate::step::{ActionOf, Expected, ReplyModel};
use crate::text::signed_value;
use crate::turn::{
    chain_asks, chain_follows, chain_takes_one, chained, for_finish, for_id, for_text,
    pending_at_start,
};
use vstd::prelude::*;
use vstd::utf8::*;

verus! {

/// The branch that a new link is to follow: the one that is given, and otherwise that which the
/// remote has checked out.
pub open spec fn given_target(args: LinkAddModel) -> Seq<char> {
    match args.target {
        Some(target) => target,
        None => "HEAD"@,
    }
}

/// The filter of a new link: the one that is given, and otherwise the one that changes nothing.
pub open spec fn given_filter(args: LinkAddModel) -> Seq<char> {
    match args.filter {
        Some(filter) => filter,
        None => ":/"@,
    }
}

/// Whether every byte of an identifier is zero.
pub open spec fn is_nothing(id: ObjectId) -> bool {
    forall|i: int| 0 <= i < 20 ==> id.bytes@[i] == 0
}

/// An addition without a path is refused at once. Otherwise the command finds the commit that is
/// checked out, has the mode read, and exports what is in the directory that is named between
/// slashes. A path of slashes alone is refused then.
pub proof fn content_is_exported_first(
    args: LinkAddModel,
    commit_time: Option<Seq<char>>,
    before: Seq<char>,
    name: Seq<char>,
    after: Seq<char>,
    head: ObjectId,
    mode: Seq<char>,
)
    requires
        is_slashes(before),
        is_slashes(after),
    ensures
        args.path.len() == 0 ==> add_turn(args, commit_time, Seq::empty()) == just_fails(
            LinkErrorOf::EmptyPath,
        ),
        args.path.len() > 0 ==> add_turn(args, commit_time, Seq::empty()) == just_asks(
            said(ActionOf::Head, "Failed to get HEAD"@),
        ),
        args.path.len() > 0 ==> add_turn(args, commit_time, seq![ReplyModel::Id(head)])
            == just_asks(
            said(
                ActionOf::ParseMode { text: args.mode },
                "Invalid link mode: '"@ + args.mode + "'"@,
            ),
        ),
        args.path.len() > 0 && args.path == before ==> add_turn(
            args,
            commit_time,
            seq![ReplyModel::Id(head), ReplyModel::Text(mode)],
        ) == just_fails(LinkErrorOf::EmptyPath),
        is_bare(name) && args.path == before + name + after ==> add_turn(
            args,
            commit_time,
            seq![ReplyModel::Id(head), ReplyModel::Text(mode)],
        ) == just_asks(
            said(
                ActionOf::FilterCommit {
                    filter: FilterOf::Chain {
                        first: Box::new(
                            FilterOf::Export {
                                base: Box::new(
                                    FilterOf::Subdir {
                                        base: Box::new(FilterOf::Identity),
                                        path: encode_utf8(name),
                                    },
                                ),
                            },
                        ),
                        second: Box::new(given_inverse(given_filter(args))),
                    },
                    commit: head,
                },
                "Failed to export existing link contents"@,
            ),
        ),
{
    let none = Seq::<ReplyModel>::empty();
    let first = for_id(head_request());
    let second = for_text(mode_request(args));
    let third = exporting(export_args(args, head));
    let of_head = seq![ReplyModel::Id(head)];
    let of_mode = seq![ReplyModel::Text(mode)];
    if args.path.len() > 0 {
        pending_at_start(first);
        pending_at_start(second);
        chain_asks(first, none, then_mode(args, commit_time));
        assert(of_head + none =~= of_head);
        chain_takes_one(first, ReplyModel::Id(head), none, then_mode(args, commit_time));
        chain_asks(second, none, then_export(args, commit_time, head));
        assert(of_head + of_mode =~= seq![ReplyModel::Id(head), ReplyModel::Text(mode)]);
        chain_takes_one(first, ReplyModel::Id(head), of_mode, then_mode(args, commit_time));
        assert(of_mode + none =~= of_mode);
        chain_takes_one(
            second,
            ReplyModel::Text(mode),
            none,
            then_export(args, commit_time, head),
        );
        assert(none + none =~= none);
        chain_follows(third, none, none, then_seed(args, commit_time, head, mode));
        slashes_around_are_trimmed(before, name, after);
        encode_utf8_decode_utf8(args.path);
        encode_utf8_valid_utf8(args.path);
        if is_bare(name) && args.path == before + name + after {
            directory_is_exported(head, before, name, after, given_filter(args), head);
        }
    }
}

/// Where there is no local content, the command says so, and git is to fetch the branch that is
/// given, or that which the remote has checked out, from the address that is given. Then the commit
/// is looked up that was fetched.
pub proof fn given_target_is_fetched(
    args: LinkAddModel,
    commit_time: Option<Seq<char>>,
    before: Seq<char>,
    name: Seq<char>,
    after: Seq<char>,
    head: ObjectId,
    mode: Seq<char>,
    exported: ObjectId,
)
    requires
        is_slashes(before),
        is_slashes(after),
        is_bare(name),
        args.path == before + name + after,
        is_nothing(exported),
    ensures
        ({
            let first = seq![
                ReplyModel::Id(head),
                ReplyModel::Text(mode),
                ReplyModel::Id(exported),
            ];
            &&& add_turn(args, commit_time, first) == asks_after(
                seq![NoticeOf::NoLocal { path: name }],
                said(
                    ActionOf::Git {
                        verb: "fetch"@,
                        remote: args.url,
                        refspec: match args.target {
                            Some(target) => target,
                            None => "HEAD"@,
                        },
                    },
                    "Failed to execute git fetch"@,
                ),
            )
            &&& add_turn(args, commit_time, first.push(ReplyModel::Finished)) == just_asks(
                said(
                    ActionOf::ResolveFetchHead,
                    "Failed to resolve FETCH_HEAD after fetch"@,
                ),
            )
        }),
{
    let none = Seq::<ReplyModel>::empty();
    let end = seq![ReplyModel::Finished];
    let first = seq![ReplyModel::Id(head), ReplyModel::Text(mode), ReplyModel::Id(exported)];
    let seed = for_finish(seed_request(args));
    let resolve = then_resolve(args, commit_time, head, mode);
    slashes_around_are_trimmed(before, name, after);
    assert(exported.is_zero());
    assert(first + none =~= first);
    export_comes_first(args, commit_time, head, mode, exported, none);
    pending_at_start(seed);
    chain_asks(seed, none, resolve);
    let telling = seq![NoticeModel::NoLocal { path: name }];
    assert(telling + Seq::<NoticeModel>::empty() =~= telling);
    assert(first + end =~= first.push(ReplyModel::Finished));
    export_comes_first(args, commit_time, head, mode, exported, end);
    assert(end + none =~= end);
    chain_takes_one(seed, ReplyModel::Finished, none, resolve);
    let fetched = for_id(fetched_request());
    pending_at_start(fetched);
    chain_asks(fetched, none, then_use_fetched(args, commit_time, head, mode));
}

/// Whether `row` are the replies up to where it is known that the new link is pinned to `commit`,
/// and `tell` what is said of that: either the content of the directory was exported, or there was
/// none, and the remote was fetched.
pub open spec fn is_pinned(
    name: Seq<char>,
    head: ObjectId,
    mode: Seq<char>,
    row: Seq<ReplyModel>,
    commit: ObjectId,
    tell: Seq<NoticeModel>,
) -> bool {
    ||| {
        &&& !is_nothing(commit)
        &&& row == seq![ReplyModel::Id(head), ReplyModel::Text(mode), ReplyModel::Id(commit)]
        &&& tell == seq![NoticeOf::UsingLocal { path: name, commit: commit.hex() }]
    }
    ||| {
        &&& row.len() == 5
        &&& row[0] == ReplyModel::Id(head)
        &&& row[1] == ReplyModel::Text(mode)
        &&& row[2] is Id
        &&& is_nothing(row[2]->Id_0)
        &&& row[3] == ReplyModel::Finished
        &&& row[4] == ReplyModel::Id(commit)
        &&& tell == seq![NoticeOf::UsingFetched { commit: commit.hex() }]
    }
}

proof fn pin_comes_first(
    args: LinkAddModel,
    commit_time: Option<Seq<char>>,
    before: Seq<char>,
    name: Seq<char>,
    after: Seq<char>,
    head: ObjectId,
    mode: Seq<char>,
    row: Seq<ReplyModel>,
    commit: ObjectId,
    tell: Seq<NoticeModel>,
    more: Seq<ReplyModel>,
)
    requires
        is_slashes(before),
        is_slashes(after),
        is_bare(name),
        args.path == before + name + after,
        is_pinned(name, head, mode, row, commit, tell),
    ensures
        ({
            let rest = chained(signing(commit_time), more, then_tree(args, head, mode, commit));
            let turn = add_turn(args, commit_time, row + more);
            &&& turn.outcome == rest.outcome
            &&& turn.tell == if more.len() == 0 {
                tell + rest.tell
            } else {
                rest.tell
            }
        }),
{
    slashes_around_are_trimmed(before, name, after);
    if row.len() == 3 {
        assert(!commit.is_zero());
        export_comes_first(args, commit_time, head, mode, commit, more);
    } else {
        let exported = row[2]->Id_0;
        assert(exported.is_zero());
        let first = seq![ReplyModel::Id(head), ReplyModel::Text(mode), ReplyModel::Id(exported)];
        let resolved = seq![ReplyModel::Id(commit)] + more;
        let fetched = seq![ReplyModel::Finished] + resolved;
        assert(row + more =~= first + fetched);
        export_comes_first(args, commit_time, head, mode, exported, fetched);
        chain_takes_one(
            for_finish(seed_request(args)),
            ReplyModel::Finished,
            resolved,
            then_resolve(args, commit_time, head, mode),
        );
        chain_takes_one(
            for_id(fetched_request()),
            ReplyModel::Id(commit),
            more,
            then_use_fetched(args, commit_time, head, mode),
        );
    }
}

/// Once it is known which commit the new link is pinned to, that is said, and a signature is
/// needed: the repository is asked for it where no time is fixed, and a fixed time that is no
/// number ends the command. Then the tree is read of the commit that is checked out.
pub proof fn pinned_commit_is_told(
    args: LinkAddModel,
    commit_time: Option<Seq<char>>,
    before: Seq<char>,
    name: Seq<char>,
    after: Seq<char>,
    head: ObjectId,
    mode: Seq<char>,
    row: Seq<ReplyModel>,
    commit: ObjectId,
    tell: Seq<NoticeModel>,
    signature: SignatureModel,
)
    requires
        is_slashes(before),
        is_slashes(after),
        is_bare(name),
        args.path == before + name + after,
        is_pinned(name, head, mode, row, commit, tell),
    ensures
        ({
            let read = unsaid(ActionOf::ReadCommitTree { commit: head, read_context: None });
            match commit_time {
                None => {
                    &&& add_turn(args, commit_time, row) == asks_after(
                        tell,
                        said(ActionOf::ReadSignature, "Failed to get signature"@),
                    )
                    &&& add_turn(args, commit_time, row.push(ReplyModel::Signature(signature)))
                        == just_asks(read)
                },
                Some(time) => add_turn(args, commit_time, row) == if signed_value(time) is Some {
                    asks_after(tell, read)
                } else {
                    fails_after(tell, LinkErrorOf::InvalidCommitTime)
                },
            }
        }),
{
    let none = Seq::<ReplyModel>::empty();
    let quiet = Seq::<NoticeModel>::empty();
    let step = signing(commit_time);
    let next = then_tree(args, head, mode, commit);
    let read = for_id(base_tree_request(head));
    assert(row + none =~= row);
    assert(none + none =~= none);
    pin_comes_first(
        args,
        commit_time,
        before,
        name,
        after,
        head,
        mode,
        row,
        commit,
        tell,
        none,
    );
    chain_follows(step, none, none, next);
    assert(tell + quiet =~= tell);
    pending_at_start(read);
    if let Some(time) = commit_time {
        if let Expected::Done { value: signed } = step(none) {
            chain_asks(read, none, then_add(args, head, mode, commit, signed));
        }
    } else {
        let answer = seq![ReplyModel::Signature(signature)];
        pin_comes_first(
            args,
            commit_time,
            before,
            name,
            after,
            head,
            mode,
            row,
            commit,
            tell,
            answer,
        );
        assert(row + answer =~= row.push(ReplyModel::Signature(signature)));
        assert(answer + none =~= answer);
        chain_takes_one(step, ReplyModel::Signature(signature), none, next);
        chain_asks(read, none, then_add(args, head, mode, commit, signature));
    }
}

/// Then the command does what the addition of a link does, to the tree of the commit that is
/// checked out: with the path, the address, the filter and the target that were given, the mode
/// that was read, and the commit that the link is pinned to. It commits what comes of that on top
/// of the commit that is checked out, lets the branch point to the commit, and says what was added.
pub proof fn pinned_link_is_added(
    args: LinkAddModel,
    commit_time: Option<Seq<char>>,
    before: Seq<char>,
    name: Seq<char>,
    after: Seq<char>,
    head: ObjectId,
    mode: Seq<char>,
    row: Seq<ReplyModel>,
    commit: ObjectId,
    tell: Seq<NoticeModel>,
    signed: Seq<ReplyModel>,
    signature: SignatureModel,
    tree: ObjectId,
    blob: ObjectId,
    new_tree: ObjectId,
    new_commit: ObjectId,
)
    requires
        is_slashes(before),
        is_slashes(after),
        is_bare(name),
        args.path == before + name + after,
        is_pinned(name, head, mode, row, commit, tell),
        is_signed(commit_time, signed, signature),
    ensures
        ({
            let addition = AddArgs {
                path: encode_utf8(args.path),
                url: args.url,
                push_url: None,
                filter: args.filter,
                target: given_target(args),
                push_target: None,
                fetched_commit: commit,
                head_tree: tree,
                mode,
            };
            let start = row + signed + seq![ReplyModel::Id(tree)];
            let stored = seq![ReplyModel::Id(blob)];
            let placed = seq![ReplyModel::Id(blob), ReplyModel::Id(new_tree)];
            let added = prepare_add_step(addition, placed)->value;
            let message = CommitArgs { added, head, signature };
            let committed = placed.push(ReplyModel::Id(new_commit));
            &&& prepare_add_step(addition, Seq::empty()) matches Expected::Ask { request }
                && add_turn(args, commit_time, start) == just_asks(request)
            &&& prepare_add_step(addition, stored) matches Expected::Ask { request }
                && add_turn(args, commit_time, start + stored) == just_asks(request)
            &&& prepare_add_step(addition, placed) is Done
            &&& commit_add_step(message, Seq::empty()) matches Expected::Ask { request }
                && add_turn(args, commit_time, start + placed) == just_asks(request)
            &&& add_turn(args, commit_time, start + committed) == just_asks(
                said(
                    ActionOf::UpdateRef {
                        name: "refs/heads/josh-link"@,
                        target: new_commit,
                        log: "josh link add"@,
                    },
                    "Failed to create branch '"@ + "refs/heads/josh-link"@ + "'"@,
                ),
            )
            &&& add_turn(args, commit_time, start + committed.push(ReplyModel::Finished))
                == ends_after(
                seq![
                    NoticeOf::Added {
                        path: name,
                        url: args.url,
                        filter: given_filter(args),
                        target: given_target(args),
                        mode: args.mode,
                    },
                    NoticeOf::CreatedBranch { name: "refs/heads/josh-link"@ },
                ],
            )
        }),
{
    let none = Seq::<ReplyModel>::empty();
    let addition = add_args(args, mode, commit, tree);
    let start = row + signed + seq![ReplyModel::Id(tree)];
    let stored = seq![ReplyModel::Id(blob)];
    let placed = seq![ReplyModel::Id(blob), ReplyModel::Id(new_tree)];
    let added = prepare_add_step(addition, placed)->value;
    let message = CommitArgs { added, head, signature };
    let end = seq![ReplyModel::Finished];
    let of_commit = seq![ReplyModel::Id(new_commit)];
    let committed = placed.push(ReplyModel::Id(new_commit));
    let step = adding(addition);
    let commit_step = committing(message);
    let branch = for_finish(added_branch_request(new_commit));
    assert(placed.take(0) =~= none);
    assert(placed.take(1) =~= stored);
    assert(stored.take(0) =~= none);
    assert(start + none =~= start);
    assert(none + none =~= none);
    assert(stored + none =~= stored);
    assert(placed + none =~= placed);
    assert(of_commit + none =~= of_commit);
    assert(end + none =~= end);
    let next = then_commit(args, head, signature);
    addition_is_reached(
        args,
        commit_time,
        before,
        name,
        after,
        head,
        mode,
        row,
        commit,
        tell,
        signed,
        signature,
        tree,
        none,
    );
    chain_follows(step, none, none, next);
    addition_is_reached(
        args,
        commit_time,
        before,
        name,
        after,
        head,
        mode,
        row,
        commit,
        tell,
        signed,
        signature,
        tree,
        stored,
    );
    assert forall|i: int| 0 <= i < stored.len() implies #[trigger] step(stored.take(i)) is Ask by {
        assert(stored.take(i) =~= none);
    }
    chain_follows(step, stored, none, next);
    assert forall|i: int| 0 <= i < placed.len() implies #[trigger] step(placed.take(i)) is Ask by {
        if i == 0 {
            assert(placed.take(i) =~= none);
        } else {
            assert(placed.take(i) =~= stored);
        }
    }
    addition_is_reached(
        args,
        commit_time,
        before,
        name,
        after,
        head,
        mode,
        row,
        commit,
        tell,
        signed,
        signature,
        tree,
        placed,
    );
    chain_follows(step, placed, none, next);
    pending_at_start(commit_step);
    chain_asks(commit_step, none, then_branch(args));
    addition_is_reached(
        args,
        commit_time,
        before,
        name,
        after,
        head,
        mode,
        row,
        commit,
        tell,
        signed,
        signature,
        tree,
        committed,
    );
    assert(committed =~= placed + of_commit);
    chain_follows(step, placed, of_commit, next);
    chain_takes_one(commit_step, ReplyModel::Id(new_commit), none, then_branch(args));
    pending_at_start(branch);
    chain_asks(branch, none, then_added(args));
    let all = committed.push(ReplyModel::Finished);
    addition_is_reached(
        args,
        commit_time,
        before,
        name,
        after,
        head,
        mode,
        row,
        commit,
        tell,
        signed,
        signature,
        tree,
        all,
    );
    assert(all =~= placed + (of_commit + end));
    chain_follows(step, placed, of_commit + end, next);
    chain_takes_one(commit_step, ReplyModel::Id(new_commit), end, then_branch(args));
    chain_takes_one(branch, ReplyModel::Finished, none, then_added(args));
    slashes_around_are_trimmed(before, name, after);
}

proof fn addition_is_reached(
    args: LinkAddModel,
    commit_time: Option<Seq<char>>,
    before: Seq<char>,
    name: Seq<char>,
    after: Seq<char>,
    head: ObjectId,
    mode: Seq<char>,
    row: Seq<ReplyModel>,
    commit: ObjectId,
    tell: Seq<NoticeModel>,
    signed: Seq<ReplyModel>,
    signature: SignatureModel,
    tree: ObjectId,
    more: Seq<ReplyModel>,
)
    requires
        is_slashes(before),
        is_slashes(after),
        is_bare(name),
        args.path == before + name + after,
        is_pinned(name, head, mode, row, commit, tell),
        is_signed(commit_time, signed, signature),
    ensures
        add_turn(args, commit_time, row + signed + seq![ReplyModel::Id(tree)] + more) == chained(
            adding(add_args(args, mode, commit, tree)),
            more,
            then_commit(args, head, signature),
        ),
{
    let step = signing(commit_time);
    let of_tree = seq![ReplyModel::Id(tree)] + more;
    assert(row + signed + seq![ReplyModel::Id(tree)] + more =~= row + (signed + of_tree));
    pin_comes_first(
        args,
        commit_time,
        before,
        name,
        after,
        head,
        mode,
        row,
        commit,
        tell,
        signed + of_tree,
    );
    assert forall|i: int| 0 <= i < signed.len() implies #[trigger] step(signed.take(i)) is Ask by {
        assert(signed.take(i) =~= Seq::empty());
    }
    if commit_time is Some {
        assert(signed =~= Seq::empty());
    }
    chain_follows(step, signed, of_tree, then_tree(args, head, mode, commit));
    chain_takes_one(
        for_id(base_tree_request(head)),
        ReplyModel::Id(tree),
        more,
        then_add(args, head, mode, commit, signature),
    );
    let turn = add_turn(args, commit_time, row + (signed + of_tree));
    let rest = chained(
        adding(add_args(args, mode, commit, tree)),
        more,
        then_commit(args, head, signature),
    );
    assert(turn.tell =~= rest.tell);
}

} // verus!
