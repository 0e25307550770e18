//! What the command that moves every link asks for.

use crate::command::shared::{head_request, select_request, signing};
use crate::command::update::{
    branch_replies, fetch_head_request, filtered_tree_request, find_filtered_request, find_replies,
    find_request, head_tree_request, link_fetch_request, links_are_found_first, then_branch,
    then_filtered, then_find, then_find_filtered, then_next, then_resolve, then_tree, then_update,
    then_update_all, then_updated, update_each, update_each_fetches, update_turn,
    updated_branch_request, updating, UpdateContext,
};
use crate::error::LinkErrorOf;
use crate::filter::{FilterOf, MetaKey};
use crate::laws::operations::{
    are_first_links, are_update_replies, every_link_is_stored_and_placed, in_directory, under,
};
use crate::laws::words::{
    asks_after, ends_after, fails_after, given, given_inverse, is_signed, just_asks, just_fails,
    said, unsaid,
};
use crate::link::{LinkFileModel, SignatureModel};
use crate::notice::{NoticeModel, NoticeOf};
use crate::oid::ObjectId;
use crate::path::shown;
use crate::step::{ActionOf, Expected, ReplyModel};
use crate::text::signed_value;
use crate::turn::{
    chain_asks, chain_follows, chain_takes_one, chained, for_finish, for_id, for_links,
    pending_at_start,
};
use crate::update::{update_links_step, UpdateArgs};
use vstd::prelude::*;

verus! {

/// Without a filter the command finds the link files of the commit that is checked out.
pub proof fn links_of_head_are_found(
    commit_time: Option<Seq<char>>,
    head: ObjectId,
    tree: ObjectId,
)
    ensures
        update_turn(None, commit_time, Seq::empty()) == just_asks(
            said(ActionOf::Head, "Failed to get HEAD"@),
        ),
        update_turn(None, commit_time, seq![ReplyModel::Id(head)]) == just_asks(
            said(
                ActionOf::ReadCommitTree { commit: head, read_context: None },
                "Failed to get HEAD tree"@,
            ),
        ),
        update_turn(None, commit_time, seq![ReplyModel::Id(head), ReplyModel::Id(tree)])
            == just_asks(said(ActionOf::FindLinks { tree }, "Failed to find link files"@)),
{
    let none = Seq::<ReplyModel>::empty();
    let ctx = UpdateContext { head, commit_time };
    let first = for_id(head_request());
    let second = for_id(head_tree_request(head));
    let third = for_links(find_request(tree));
    let answer = seq![ReplyModel::Id(tree)];
    pending_at_start(first);
    pending_at_start(second);
    pending_at_start(third);
    chain_asks(first, none, then_tree(None, commit_time));
    assert(seq![ReplyModel::Id(head)] + none =~= seq![ReplyModel::Id(head)]);
    chain_takes_one(first, ReplyModel::Id(head), none, then_tree(None, commit_time));
    chain_asks(second, none, then_find(None, ctx));
    assert(seq![ReplyModel::Id(head)] + answer =~= seq![
        ReplyModel::Id(head),
        ReplyModel::Id(tree),
    ]);
    chain_takes_one(first, ReplyModel::Id(head), answer, then_tree(None, commit_time));
    assert(answer + none =~= answer);
    chain_takes_one(second, ReplyModel::Id(tree), none, then_find(None, ctx));
    chain_asks(third, none, then_update_all(ctx));
}

/// With a filter the command sends the commit that is checked out through the filter and through
/// its inverse, and finds the link files of what came of that; where nothing came of that, there is
/// nothing to update.
pub proof fn selected_links_are_found(
    filter: Seq<char>,
    commit_time: Option<Seq<char>>,
    head: ObjectId,
    tree: ObjectId,
    selected: ObjectId,
    selected_tree: ObjectId,
)
    ensures
        ({
            let turn = |replies: Seq<ReplyModel>| update_turn(Some(filter), commit_time, replies);
            let first = seq![ReplyModel::Id(head), ReplyModel::Id(tree)];
            &&& turn(Seq::empty()) == just_asks(said(ActionOf::Head, "Failed to get HEAD"@))
            &&& turn(seq![ReplyModel::Id(head)]) == just_asks(
                said(
                    ActionOf::ReadCommitTree { commit: head, read_context: None },
                    "Failed to get HEAD tree"@,
                ),
            )
            &&& turn(first) == just_asks(
                said(
                    ActionOf::FilterCommit {
                        filter: FilterOf::Chain {
                            first: Box::new(given(filter)),
                            second: Box::new(given_inverse(filter)),
                        },
                        commit: head,
                    },
                    "Failed to apply filter"@,
                ),
            )
            &&& turn(first + seq![ReplyModel::Id(selected)]) == if forall|i: int|
                0 <= i < 20 ==> selected.bytes@[i] == 0 {
                just_fails(LinkErrorOf::NoLinkFiles)
            } else {
                just_asks(
                    said(
                        ActionOf::ReadCommitTree {
                            commit: selected,
                            read_context: Some("Failed to find filtered commit"@),
                        },
                        "Failed to get filtered tree"@,
                    ),
                )
            }
            &&& (exists|i: int| 0 <= i < 20 && selected.bytes@[i] != 0) ==> turn(
                first + seq![ReplyModel::Id(selected), ReplyModel::Id(selected_tree)],
            ) == just_asks(
                said(
                    ActionOf::FindLinks { tree: selected_tree },
                    "Failed to find link files in filtered tree"@,
                ),
            )
        }),
{
    let none = Seq::<ReplyModel>::empty();
    let ctx = UpdateContext { head, commit_time };
    let op1 = for_id(head_request());
    let op2 = for_id(head_tree_request(head));
    let op3 = for_id(select_request(filter, head));
    let op4 = for_id(filtered_tree_request(selected));
    let op5 = for_links(find_filtered_request(selected_tree));
    let next1 = then_tree(Some(filter), commit_time);
    let next2 = then_find(Some(filter), ctx);
    pending_at_start(op1);
    pending_at_start(op2);
    pending_at_start(op3);
    pending_at_start(op4);
    pending_at_start(op5);
    chain_asks(op1, none, next1);
    chain_asks(op2, none, next2);
    chain_asks(op3, none, then_filtered(ctx));
    chain_asks(op4, none, then_find_filtered(ctx));
    chain_asks(op5, none, then_update_all(ctx));
    let of_head = seq![ReplyModel::Id(head)];
    let of_tree = seq![ReplyModel::Id(tree)];
    let of_selected = seq![ReplyModel::Id(selected)];
    let of_found = seq![ReplyModel::Id(selected_tree)];
    assert(of_head + none =~= of_head);
    assert(of_tree + none =~= of_tree);
    assert(of_selected + none =~= of_selected);
    assert(of_found + none =~= of_found);
    chain_takes_one(op1, ReplyModel::Id(head), none, next1);
    chain_takes_one(op1, ReplyModel::Id(head), of_tree, next1);
    chain_takes_one(op2, ReplyModel::Id(tree), none, next2);
    let first = of_head + of_tree;
    assert(first =~= seq![ReplyModel::Id(head), ReplyModel::Id(tree)]);
    assert(first + of_selected =~= of_head + (of_tree + of_selected));
    chain_takes_one(op1, ReplyModel::Id(head), of_tree + of_selected, next1);
    chain_takes_one(op2, ReplyModel::Id(tree), of_selected, next2);
    chain_takes_one(op3, ReplyModel::Id(selected), none, then_filtered(ctx));
    let both = of_selected + of_found;
    assert(both =~= seq![ReplyModel::Id(selected), ReplyModel::Id(selected_tree)]);
    assert(first + both =~= of_head + (of_tree + both));
    chain_takes_one(op1, ReplyModel::Id(head), of_tree + both, next1);
    chain_takes_one(op2, ReplyModel::Id(tree), both, next2);
    chain_takes_one(op3, ReplyModel::Id(selected), of_found, then_filtered(ctx));
    chain_takes_one(op4, ReplyModel::Id(selected_tree), none, then_find_filtered(ctx));
}

/// The replies to the search for link files, from the commit that is checked out to the link files
/// themselves.
pub open spec fn search_replies(
    filter: Option<Seq<char>>,
    head: ObjectId,
    tree: ObjectId,
    selected: ObjectId,
    selected_tree: ObjectId,
    files: Seq<LinkFileModel>,
) -> Seq<ReplyModel> {
    match filter {
        Some(_) => seq![
            ReplyModel::Id(head),
            ReplyModel::Id(tree),
            ReplyModel::Id(selected),
            ReplyModel::Id(selected_tree),
            ReplyModel::Links(files),
        ],
        None => seq![ReplyModel::Id(head), ReplyModel::Id(tree), ReplyModel::Links(files)],
    }
}

/// Whether the search for link files comes to link files at all.
pub open spec fn search_succeeds(filter: Option<Seq<char>>, selected: ObjectId) -> bool {
    filter is Some ==> exists|i: int| 0 <= i < 20 && selected.bytes@[i] != 0
}

/// What is said before the link number `i` is looked at: before the first of them, how many there
/// are.
pub open spec fn counted_before(files: Seq<LinkFileModel>, i: int) -> Seq<NoticeModel> {
    if i == 0 {
        seq![NoticeOf::FoundLinks { count: files.len() as usize }]
    } else {
        Seq::empty()
    }
}

/// The branch that a link follows: the one that it names, and otherwise that which the remote has
/// checked out.
pub open spec fn followed_branch(file: LinkFileModel) -> Seq<char> {
    match file.target {
        Some(target) => target,
        None => "HEAD"@,
    }
}

proof fn first_links_are_fetched(
    ctx: UpdateContext,
    files: Seq<LinkFileModel>,
    at: int,
    updates: Seq<(Seq<u8>, ObjectId)>,
    commits: Seq<ObjectId>,
    more: Seq<ReplyModel>,
)
    requires
        0 <= at,
        at + commits.len() <= files.len(),
        forall|k: int|
            at <= k < at + commits.len() ==> (#[trigger] files[k]).remote is Some,
    ensures
        update_each(ctx, files, at, updates, branch_replies(commits) + more) == update_each(
            ctx,
            files,
            at + commits.len(),
            updates + Seq::new(commits.len(), |k: int| (files[at + k].path, commits[k])),
            more,
        ),
    decreases commits.len(),
{
    let row = branch_replies(commits) + more;
    let moved = Seq::new(commits.len(), |k: int| (files[at + k].path, commits[k]));
    if commits.len() > 0 {
        let rest = commits.drop_first();
        let later = branch_replies(rest) + more;
        let answered = seq![ReplyModel::Id(commits.first())] + later;
        update_each_fetches(ctx, files, at, updates, row);
        assert(row =~= seq![ReplyModel::Finished] + answered);
        chain_takes_one(
            for_finish(link_fetch_request(files[at])),
            ReplyModel::Finished,
            answered,
            then_resolve(ctx, files, at, updates),
        );
        chain_takes_one(
            for_id(fetch_head_request()),
            ReplyModel::Id(commits.first()),
            later,
            then_next(ctx, files, at, updates),
        );
        let pushed = updates.push((files[at].path, commits.first()));
        let others = Seq::new(rest.len(), |k: int| (files[at + 1 + k].path, rest[k]));
        assert(pushed + others =~= updates + moved);
        first_links_are_fetched(ctx, files, at + 1, pushed, rest, more);
    } else {
        assert(row =~= more);
        assert(updates + moved =~= updates);
    }
}

proof fn first_links_are_fetched_in_command(
    filter: Option<Seq<char>>,
    commit_time: Option<Seq<char>>,
    head: ObjectId,
    tree: ObjectId,
    selected: ObjectId,
    selected_tree: ObjectId,
    files: Seq<LinkFileModel>,
    commits: Seq<ObjectId>,
    more: Seq<ReplyModel>,
)
    requires
        search_succeeds(filter, selected),
        files.len() > 0,
        commits.len() <= files.len(),
        forall|k: int| 0 <= k < commits.len() ==> (#[trigger] files[k]).remote is Some,
    ensures
        ({
            let rest = update_each(
                UpdateContext { head, commit_time },
                files,
                commits.len() as int,
                Seq::new(commits.len(), |k: int| (files[k].path, commits[k])),
                more,
            );
            let turn = update_turn(
                filter,
                commit_time,
                search_replies(filter, head, tree, selected, selected_tree, files)
                    + branch_replies(commits) + more,
            );
            &&& turn.outcome == rest.outcome
            &&& turn.tell == if more.len() == 0 {
                counted_before(files, commits.len() as int) + rest.tell
            } else {
                rest.tell
            }
        }),
{
    let ctx = UpdateContext { head, commit_time };
    let found = search_replies(filter, head, tree, selected, selected_tree, files);
    let passed = branch_replies(commits);
    let none = Seq::<(Seq<u8>, ObjectId)>::empty();
    assert(found + passed + more =~= seq![ReplyModel::Id(head)] + find_replies(
        filter,
        tree,
        selected,
        selected_tree,
        files,
    ) + (passed + more));
    links_are_found_first(
        filter,
        commit_time,
        head,
        tree,
        selected,
        selected_tree,
        files,
        passed + more,
    );
    first_links_are_fetched(ctx, files, 0, none, commits, more);
    let moved = Seq::new(commits.len(), |k: int| (files[k].path, commits[k]));
    assert(none + Seq::new(commits.len(), |k: int| (files[0 + k].path, commits[k])) =~= moved);
    let rest = update_each(ctx, files, commits.len() as int, moved, more);
    assert(Seq::<NoticeModel>::empty() + rest.tell =~= rest.tell);
    if commits.len() > 0 {
        assert(passed.len() > 0);
    }
}

/// For every link that was found, git is to fetch the branch that the link follows from the remote
/// of the link, whatever was fetched before, and the commit is looked up that was fetched.
pub proof fn branch_of_each_link_is_fetched(
    filter: Option<Seq<char>>,
    commit_time: Option<Seq<char>>,
    head: ObjectId,
    tree: ObjectId,
    selected: ObjectId,
    selected_tree: ObjectId,
    files: Seq<LinkFileModel>,
    commits: Seq<ObjectId>,
    i: int,
)
    requires
        search_succeeds(filter, selected),
        0 <= i < files.len(),
        commits.len() == i,
        forall|k: int| 0 <= k <= i ==> (#[trigger] files[k]).remote is Some,
    ensures
        ({
            let before = search_replies(filter, head, tree, selected, selected_tree, files)
                + branch_replies(commits);
            let remote = files[i].remote->0;
            let branch = followed_branch(files[i]);
            &&& update_turn(filter, commit_time, before) == asks_after(
                counted_before(files, i) + seq![NoticeOf::Fetching { what: branch, remote }],
                said(
                    ActionOf::Git { verb: "fetch"@, remote, refspec: branch },
                    "git fetch failed for '"@ + shown(files[i].path) + "'"@,
                ),
            )
            &&& update_turn(filter, commit_time, before + seq![ReplyModel::Finished])
                == just_asks(said(ActionOf::ResolveFetchHead, "Failed to resolve FETCH_HEAD"@))
        }),
{
    let none = Seq::<ReplyModel>::empty();
    let end = seq![ReplyModel::Finished];
    let ctx = UpdateContext { head, commit_time };
    let before = search_replies(filter, head, tree, selected, selected_tree, files)
        + branch_replies(commits);
    let moved = Seq::new(commits.len(), |k: int| (files[k].path, commits[k]));
    let fetch = for_finish(link_fetch_request(files[i]));
    let next = then_resolve(ctx, files, i, moved);
    let telling = seq![
        NoticeModel::Fetching { what: followed_branch(files[i]), remote: files[i].remote->0 },
    ];
    assert(before + none =~= before);
    first_links_are_fetched_in_command(
        filter,
        commit_time,
        head,
        tree,
        selected,
        selected_tree,
        files,
        commits,
        none,
    );
    assert(files[i].remote is Some);
    update_each_fetches(ctx, files, i, moved, none);
    pending_at_start(fetch);
    chain_asks(fetch, none, next);
    assert(telling + Seq::<NoticeModel>::empty() =~= telling);
    first_links_are_fetched_in_command(
        filter,
        commit_time,
        head,
        tree,
        selected,
        selected_tree,
        files,
        commits,
        end,
    );
    update_each_fetches(ctx, files, i, moved, end);
    assert(end + none =~= end);
    chain_takes_one(fetch, ReplyModel::Finished, none, next);
    let resolve = for_id(fetch_head_request());
    pending_at_start(resolve);
    chain_asks(resolve, none, then_next(ctx, files, i, moved));
}

/// A link file that names no remote is named, and ends the command; a commit without link files
/// does so too.
pub proof fn link_without_remote_is_refused(
    filter: Option<Seq<char>>,
    commit_time: Option<Seq<char>>,
    head: ObjectId,
    tree: ObjectId,
    selected: ObjectId,
    selected_tree: ObjectId,
    files: Seq<LinkFileModel>,
    commits: Seq<ObjectId>,
    i: int,
)
    requires
        search_succeeds(filter, selected),
    ensures
        files.len() == 0 ==> update_turn(
            filter,
            commit_time,
            search_replies(filter, head, tree, selected, selected_tree, files),
        ) == just_fails(LinkErrorOf::NoLinkFiles),
        0 <= i < files.len() && commits.len() == i && files[i].remote is None && (forall|k: int|
            0 <= k < i ==> (#[trigger] files[k]).remote is Some) ==> update_turn(
            filter,
            commit_time,
            search_replies(filter, head, tree, selected, selected_tree, files) + branch_replies(
                commits,
            ),
        ) == fails_after(
            counted_before(files, i),
            LinkErrorOf::MissingMetaAt { key: MetaKey::Remote, path: shown(files[i].path) },
        ),
{
    let none = Seq::<ReplyModel>::empty();
    let found = search_replies(filter, head, tree, selected, selected_tree, files);
    if files.len() == 0 {
        assert(found =~= seq![ReplyModel::Id(head)] + find_replies(
            filter,
            tree,
            selected,
            selected_tree,
            files,
        ) + none);
        links_are_found_first(
            filter,
            commit_time,
            head,
            tree,
            selected,
            selected_tree,
            files,
            none,
        );
    } else if 0 <= i < files.len() && commits.len() == i && files[i].remote is None && (forall|
        k: int,
    | 0 <= k < i ==> (#[trigger] files[k]).remote is Some) {
        assert(found + branch_replies(commits) + none =~= found + branch_replies(commits));
        first_links_are_fetched_in_command(
            filter,
            commit_time,
            head,
            tree,
            selected,
            selected_tree,
            files,
            commits,
            none,
        );
        assert(counted_before(files, i) + Seq::<NoticeModel>::empty() =~= counted_before(
            files,
            i,
        ));
    }
}

/// What an update of all links is started with: the commit that is checked out, and for every link
/// that was found its path and the commit that was fetched for it.
pub open spec fn update_of_all(
    head: ObjectId,
    files: Seq<LinkFileModel>,
    commits: Seq<ObjectId>,
    signature: SignatureModel,
) -> UpdateArgs {
    UpdateArgs {
        head,
        updates: Seq::new(files.len(), |i: int| (files[i].path, commits[i])),
        signature,
    }
}

/// Behind the last fetch a signature is needed: the repository is asked for it where no time is
/// fixed, and a fixed time that is no number ends the command.
pub proof fn signature_is_found_behind_fetches(
    filter: Option<Seq<char>>,
    commit_time: Option<Seq<char>>,
    head: ObjectId,
    tree: ObjectId,
    selected: ObjectId,
    selected_tree: ObjectId,
    files: Seq<LinkFileModel>,
    commits: Seq<ObjectId>,
)
    requires
        search_succeeds(filter, selected),
        files.len() > 0,
        commits.len() == files.len(),
        forall|k: int| 0 <= k < files.len() ==> (#[trigger] files[k]).remote is Some,
    ensures
        ({
            let turn = update_turn(
                filter,
                commit_time,
                search_replies(filter, head, tree, selected, selected_tree, files)
                    + branch_replies(commits),
            );
            match commit_time {
                None => turn == just_asks(
                    said(ActionOf::ReadSignature, "Failed to get signature"@),
                ),
                Some(time) => signed_value(time) is None ==> turn == just_fails(
                    LinkErrorOf::InvalidCommitTime,
                ),
            }
        }),
{
    let none = Seq::<ReplyModel>::empty();
    let before = search_replies(filter, head, tree, selected, selected_tree, files)
        + branch_replies(commits);
    let moved = Seq::new(commits.len(), |k: int| (files[k].path, commits[k]));
    let next = then_update(head, moved, files.len());
    assert(before + none =~= before);
    first_links_are_fetched_in_command(
        filter,
        commit_time,
        head,
        tree,
        selected,
        selected_tree,
        files,
        commits,
        none,
    );
    chain_follows(signing(commit_time), none, none, next);
    assert(none + none =~= none);
    let quiet = Seq::<NoticeModel>::empty();
    assert(quiet + quiet =~= quiet);
}

proof fn links_are_updated_behind_signature(
    filter: Option<Seq<char>>,
    commit_time: Option<Seq<char>>,
    head: ObjectId,
    tree: ObjectId,
    selected: ObjectId,
    selected_tree: ObjectId,
    files: Seq<LinkFileModel>,
    commits: Seq<ObjectId>,
    signed: Seq<ReplyModel>,
    signature: SignatureModel,
    more: Seq<ReplyModel>,
)
    requires
        search_succeeds(filter, selected),
        files.len() > 0,
        commits.len() == files.len(),
        forall|k: int| 0 <= k < files.len() ==> (#[trigger] files[k]).remote is Some,
        is_signed(commit_time, signed, signature),
    ensures
        update_turn(
            filter,
            commit_time,
            search_replies(filter, head, tree, selected, selected_tree, files) + branch_replies(
                commits,
            ) + signed + more,
        ) == chained(
            updating(update_of_all(head, files, commits, signature)),
            more,
            then_branch(files.len()),
        ),
{
    let step = signing(commit_time);
    let before = search_replies(filter, head, tree, selected, selected_tree, files)
        + branch_replies(commits);
    let moved = Seq::new(commits.len(), |k: int| (files[k].path, commits[k]));
    let args = update_of_all(head, files, commits, signature);
    let next = then_update(head, moved, files.len());
    assert(moved =~= args.updates);
    assert(before + signed + more =~= before + (signed + more));
    first_links_are_fetched_in_command(
        filter,
        commit_time,
        head,
        tree,
        selected,
        selected_tree,
        files,
        commits,
        signed + more,
    );
    assert forall|i: int| 0 <= i < signed.len() implies #[trigger] step(signed.take(i)) is Ask by {
        assert(signed.take(i) =~= Seq::empty());
    }
    if commit_time is Some {
        assert(signed =~= Seq::empty());
    }
    chain_follows(step, signed, more, next);
    let turn = update_turn(filter, commit_time, before + (signed + more));
    let quiet = Seq::<NoticeModel>::empty();
    assert(quiet + turn.tell =~= turn.tell);
    let rest = update_each(
        UpdateContext { head, commit_time },
        files,
        commits.len() as int,
        moved,
        signed + more,
    );
    assert(quiet + rest.tell =~= rest.tell);
}

/// Behind the signature the command does what an update does of exactly the links that were found,
/// each moved to the commit that was fetched for it, in the order in which they were found. Where
/// that gives nothing, the links are up to date; otherwise a branch is to point to the commit with
/// the content of the links, and the command has come to its end then.
pub proof fn all_links_are_updated(
    filter: Option<Seq<char>>,
    commit_time: Option<Seq<char>>,
    head: ObjectId,
    tree: ObjectId,
    selected: ObjectId,
    selected_tree: ObjectId,
    files: Seq<LinkFileModel>,
    commits: Seq<ObjectId>,
    signed: Seq<ReplyModel>,
    signature: SignatureModel,
    args: UpdateArgs,
    row: Seq<ReplyModel>,
)
    requires
        search_succeeds(filter, selected),
        files.len() > 0,
        commits.len() == files.len(),
        forall|k: int| 0 <= k < files.len() ==> (#[trigger] files[k]).remote is Some,
        is_signed(commit_time, signed, signature),
        args.head == head,
        args.updates == Seq::new(files.len(), |i: int| (files[i].path, commits[i])),
        args.signature == signature,
        forall|i: int|
            0 <= i < row.len() ==> #[trigger] update_links_step(args, row.take(i)) is Ask,
    ensures
        ({
            let before = search_replies(filter, head, tree, selected, selected_tree, files)
                + branch_replies(commits) + signed;
            let turn = update_turn(filter, commit_time, before + row);
            match update_links_step(args, row) {
                Expected::Ask { request } => turn == just_asks(request),
                Expected::Fail { error } => turn == just_fails(error),
                Expected::Done { value: None } => turn == ends_after(
                    seq![NoticeOf::UpToDate { count: files.len() as usize }],
                ),
                Expected::Done { value: Some(result) } => {
                    &&& turn == just_asks(
                        said(
                            ActionOf::UpdateRef {
                                name: "refs/heads/josh-link"@,
                                target: result.filtered_commit,
                                log: "josh link update"@,
                            },
                            "Failed to update branch '"@ + "refs/heads/josh-link"@ + "'"@,
                        ),
                    )
                    &&& update_turn(
                        filter,
                        commit_time,
                        before + row + seq![ReplyModel::Finished],
                    ) == ends_after(
                        seq![
                            NoticeOf::UpdatedLinks { count: files.len() as usize },
                            NoticeOf::UpdatedBranch { name: "refs/heads/josh-link"@ },
                        ],
                    )
                },
            }
        }),
{
    let none = Seq::<ReplyModel>::empty();
    let end = seq![ReplyModel::Finished];
    let before = search_replies(filter, head, tree, selected, selected_tree, files)
        + branch_replies(commits) + signed;
    let step = updating(args);
    let next = then_branch(files.len());
    assert(args == update_of_all(head, files, commits, signature));
    links_are_updated_behind_signature(
        filter,
        commit_time,
        head,
        tree,
        selected,
        selected_tree,
        files,
        commits,
        signed,
        signature,
        row,
    );
    assert(row + none =~= row);
    assert forall|i: int| 0 <= i < row.len() implies #[trigger] step(row.take(i)) is Ask by {
        assert(update_links_step(args, row.take(i)) is Ask);
    }
    chain_follows(step, row, none, next);
    if let Expected::Done { value: Some(result) } = update_links_step(args, row) {
        let branch = for_finish(updated_branch_request(result));
        pending_at_start(branch);
        chain_asks(branch, none, then_updated(files.len()));
        links_are_updated_behind_signature(
            filter,
            commit_time,
            head,
            tree,
            selected,
            selected_tree,
            files,
            commits,
            signed,
            signature,
            row + end,
        );
        assert(before + row + end =~= before + (row + end));
        chain_follows(step, row, end, next);
        assert(end + none =~= end);
        chain_takes_one(branch, ReplyModel::Finished, none, then_updated(files.len()));
    }
}

/// The files of a link, one after the other, in the command: for every link that was found, the
/// command stores the filter of the first link file at its path with the commit that was fetched
/// for it, and puts that in place of the link file.
pub proof fn every_found_link_is_written(
    filter: Option<Seq<char>>,
    commit_time: Option<Seq<char>>,
    head: ObjectId,
    tree: ObjectId,
    selected: ObjectId,
    selected_tree: ObjectId,
    files: Seq<LinkFileModel>,
    commits: Seq<ObjectId>,
    signed: Seq<ReplyModel>,
    signature: SignatureModel,
    row: Seq<ReplyModel>,
    at: Seq<int>,
    i: int,
)
    requires
        search_succeeds(filter, selected),
        commits.len() == files.len(),
        forall|k: int| 0 <= k < files.len() ==> (#[trigger] files[k]).remote is Some,
        is_signed(commit_time, signed, signature),
        are_update_replies(row),
        are_first_links(
            row[1]->Links_0,
            Seq::new(files.len(), |k: int| (files[k].path, commits[k])),
            at,
        ),
        0 <= i < files.len(),
        row.len() == 2 * i + 2 || row.len() == 2 * i + 3,
    ensures
        ({
            let before = search_replies(filter, head, tree, selected, selected_tree, files)
                + branch_replies(commits) + signed;
            let links = row[1]->Links_0;
            let turn = update_turn(filter, commit_time, before + row);
            &&& row.len() == 2 * i + 2 ==> turn == just_asks(
                unsaid(
                    ActionOf::WriteFilter {
                        filter: under(
                            FilterOf::Recorded(links[at[i]].filter),
                            MetaKey::Commit,
                            commits[i].hex(),
                        ),
                    },
                ),
            )
            &&& row.len() == 2 * i + 3 ==> turn == just_asks(
                said(
                    ActionOf::InsertBlob {
                        tree: if i == 0 {
                            row[0]->Id_0
                        } else {
                            row[2 * i + 1]->Id_0
                        },
                        path: in_directory(files[i].path),
                        blob: row[2 * i + 2]->Id_0,
                        mode: 0o100644,
                    },
                    "Failed to insert link file into tree at path '"@ + shown(files[i].path)
                        + "'"@,
                ),
            )
        }),
{
    let args = update_of_all(head, files, commits, signature);
    assert forall|k: int| 0 <= k < row.len() implies #[trigger] update_links_step(
        args,
        row.take(k),
    ) is Ask by {
        let part = row.take(k);
        if k == 0 {
            assert(part =~= Seq::empty());
        } else if k == 1 {
            assert(part.last() == row[0]);
        } else {
            assert(part[1] == row[1]);
            assert(are_update_replies(part));
            every_link_is_stored_and_placed(args, part, at);
            let n: int = (k - 2) / 2;
            assert(k == 2 * n + 2 || k == 2 * n + 3);
            assert(0 <= n < files.len());
            let triggers = (at[n], args.updates[n]);
        }
    }
    every_link_is_stored_and_placed(args, row, at);
    let triggers = (at[i], args.updates[i]);
    all_links_are_updated(
        filter,
        commit_time,
        head,
        tree,
        selected,
        selected_tree,
        files,
        commits,
        signed,
        signature,
        args,
        row,
    );
}

} // verus!
