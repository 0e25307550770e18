//! What the command that fetches the linked commits asks for.

use crate::collect::collect_step;
use crate::command::fetch::{
    asking_for, collecting, commit_is_selected_first, commits_are_collected_next, fetch_each,
    fetch_each_asks, fetch_replies, fetch_request, fetch_turn, searched_commit, select_replies,
    set_flags, then_collect, then_fetch_all, then_fetched, then_present, then_select,
};
use crate::command::shared::{head_request, select_request};
use crate::error::LinkErrorOf;
use crate::filter::FilterOf;
use crate::laws::words::{
    asks_after, ends_after, fails_after, given, given_inverse, just_asks, just_fails, said, unsaid,
};
use crate::link::LinkRefModel;
use crate::notice::{NoticeModel, NoticeOf};
use crate::oid::{reading_is_found, reads_as, HexError, ObjectId};
use crate::step::{ActionOf, Expected, ReplyModel, RequestOf};
use crate::turn::{
    chain_asks, chain_follows, chain_takes_one, for_finish, for_id, pending_at_start,
};
use vstd::prelude::*;

verus! {

/// The command finds the commit that is checked out. Where a filter is given, it sends that through
/// the filter and through its inverse.
pub proof fn searched_commit_is_selected(filter: Seq<char>, head: ObjectId)
    ensures
        fetch_turn(None, Seq::empty()) == just_asks(said(ActionOf::Head, "Failed to get HEAD"@)),
        fetch_turn(Some(filter), Seq::empty()) == just_asks(
            said(ActionOf::Head, "Failed to get HEAD"@),
        ),
        fetch_turn(Some(filter), seq![ReplyModel::Id(head)]) == just_asks(
            said(
                ActionOf::FilterCommit {
                    filter: FilterOf::Chain {
                        first: Box::new(given(filter)),
                        second: Box::new(given_inverse(filter)),
                    },
                    commit: head,
                },
                "Failed to apply filter"@,
            ),
        ),
{
    let none = Seq::<ReplyModel>::empty();
    pending_at_start(for_id(head_request()));
    chain_asks(for_id(head_request()), none, then_select(None));
    chain_asks(for_id(head_request()), none, then_select(Some(filter)));
    assert(seq![ReplyModel::Id(head)] + none =~= seq![ReplyModel::Id(head)]);
    chain_takes_one(
        for_id(head_request()),
        ReplyModel::Id(head),
        none,
        then_select(Some(filter)),
    );
    let select = for_id(select_request(filter, head));
    pending_at_start(select);
    chain_asks(select, none, then_collect());
}

/// The history that is searched is that of the commit that is checked out or, where a filter is
/// given, of what came of the filter. The command does what the collection of linked commits does,
/// and says that of every failure; where nothing is collected, it says so, and has come to its end.
pub proof fn history_is_searched(
    filter: Option<Seq<char>>,
    head: ObjectId,
    selected: ObjectId,
    from: ObjectId,
    row: Seq<ReplyModel>,
)
    requires
        from == if filter is Some {
            selected
        } else {
            head
        },
        forall|i: int| 0 <= i < row.len() ==> #[trigger] collect_step(from, row.take(i)) is Ask,
    ensures
        ({
            let first = if filter is Some {
                seq![ReplyModel::Id(head), ReplyModel::Id(selected)]
            } else {
                seq![ReplyModel::Id(head)]
            };
            match collect_step(from, row) {
                Expected::Ask { request } => fetch_turn(filter, first + row) == just_asks(
                    RequestOf {
                        action: request.action,
                        context: request.context,
                        within: Some("Failed to collect link refs from history"@),
                    },
                ),
                Expected::Fail { error } => fetch_turn(filter, first + row) == just_fails(error),
                Expected::Done { value: refs } => refs.len() == 0 ==> fetch_turn(
                    filter,
                    first + row,
                ) == ends_after(seq![NoticeOf::NoReferences]),
            }
        }),
{
    let step = collecting(from);
    let none = Seq::<ReplyModel>::empty();
    commit_is_selected_first(filter, head, selected, row);
    assert(row + none =~= row);
    assert forall|i: int| 0 <= i < row.len() implies #[trigger] step(row.take(i)) is Ask by {
        assert(collect_step(from, row.take(i)) is Ask);
    }
    chain_follows(step, row, none, then_fetch_all());
}

proof fn flags_are_bounded(present: Seq<bool>)
    ensures
        set_flags(present) <= present.len(),
    decreases present.len(),
{
    if present.len() > 0 {
        flags_are_bounded(present.drop_first());
    }
}

proof fn first_commits_are_passed(
    refs: Seq<LinkRefModel>,
    at: int,
    fetched: int,
    skipped: int,
    ids: Seq<ObjectId>,
    present: Seq<bool>,
    more: Seq<ReplyModel>,
)
    requires
        0 <= at,
        at + present.len() <= refs.len(),
        ids.len() == refs.len(),
        forall|k: int|
            at <= k < at + present.len() ==> reads_as((#[trigger] refs[k]).commit, Ok(ids[k])),
    ensures
        fetch_each(refs, at, fetched, skipped, fetch_replies(present) + more) == fetch_each(
            refs,
            at + present.len(),
            fetched + present.len() - set_flags(present),
            skipped + set_flags(present),
            more,
        ),
    decreases present.len(),
{
    let row = fetch_replies(present);
    if present.len() > 0 {
        let id = ids[at];
        let rest = present.drop_first();
        let later = fetch_replies(rest) + more;
        let answer = ReplyModel::Flag(present.first());
        let behind = if present.first() {
            later
        } else {
            seq![ReplyModel::Finished] + later
        };
        assert(reads_as(refs[at].commit, Ok(id)));
        reading_is_found(refs[at].commit, Ok(id));
        fetch_each_asks(refs, at, fetched, skipped, id, row + more);
        assert(row + more =~= seq![answer] + behind);
        chain_takes_one(asking_for(id), answer, behind, then_present(refs, at, fetched, skipped));
        if present.first() {
            first_commits_are_passed(refs, at + 1, fetched, skipped + 1, ids, rest, more);
        } else {
            chain_takes_one(
                for_finish(fetch_request(refs[at])),
                ReplyModel::Finished,
                later,
                then_fetched(refs, at, fetched, skipped),
            );
            first_commits_are_passed(refs, at + 1, fetched + 1, skipped, ids, rest, more);
        }
    } else {
        assert(row + more =~= more);
    }
}

/// Whether the linked commits `refs` are what is collected from `commit` with the replies
/// `collected`, all of which are needed for that.
pub open spec fn are_collected(
    commit: ObjectId,
    collected: Seq<ReplyModel>,
    refs: Seq<LinkRefModel>,
) -> bool {
    &&& collect_step(commit, collected) == (Expected::Done { value: refs })
    &&& forall|i: int|
        0 <= i < collected.len() ==> #[trigger] collect_step(commit, collected.take(i)) is Ask
}

/// What is said before the linked commit number `i` is looked at: before the first of them, how
/// many there are.
pub open spec fn told_before(refs: Seq<LinkRefModel>, i: int) -> Seq<NoticeModel> {
    if i == 0 {
        seq![NoticeOf::FoundReferences { count: refs.len() as usize }]
    } else {
        Seq::empty()
    }
}

proof fn first_commits_are_passed_in_command(
    filter: Option<Seq<char>>,
    head: ObjectId,
    selected: ObjectId,
    collected: Seq<ReplyModel>,
    refs: Seq<LinkRefModel>,
    ids: Seq<ObjectId>,
    present: Seq<bool>,
    more: Seq<ReplyModel>,
)
    requires
        are_collected(searched_commit(filter, head, selected), collected, refs),
        refs.len() > 0,
        ids.len() == refs.len(),
        present.len() <= refs.len(),
        forall|k: int|
            0 <= k < present.len() ==> reads_as((#[trigger] refs[k]).commit, Ok(ids[k])),
    ensures
        ({
            let rest = fetch_each(
                refs,
                present.len() as int,
                present.len() - set_flags(present),
                set_flags(present) as int,
                more,
            );
            let turn = fetch_turn(
                filter,
                select_replies(filter, head, selected) + collected + fetch_replies(present) + more,
            );
            &&& turn.outcome == rest.outcome
            &&& turn.tell == if more.len() == 0 {
                told_before(refs, present.len() as int) + rest.tell
            } else {
                rest.tell
            }
        }),
{
    let found = select_replies(filter, head, selected) + collected;
    let passed = fetch_replies(present);
    assert(found + passed + more =~= found + (passed + more));
    commits_are_collected_next(filter, head, selected, collected, refs, passed + more);
    first_commits_are_passed(refs, 0, 0, 0, ids, present, more);
    let rest = fetch_each(
        refs,
        present.len() as int,
        present.len() - set_flags(present),
        set_flags(present) as int,
        more,
    );
    assert(Seq::<NoticeModel>::empty() + rest.tell =~= rest.tell);
    if present.len() > 0 {
        assert(passed.len() > 0);
    }
}

/// Every linked commit that was collected is looked for under its own identifier, and where it is
/// not there, git is to fetch it from its own remote, into a reference of its own, whatever was
/// found and fetched before.
pub proof fn absent_commit_is_fetched_from_its_remote(
    filter: Option<Seq<char>>,
    head: ObjectId,
    selected: ObjectId,
    collected: Seq<ReplyModel>,
    refs: Seq<LinkRefModel>,
    ids: Seq<ObjectId>,
    present: Seq<bool>,
    i: int,
)
    requires
        are_collected(
            if filter is Some {
                selected
            } else {
                head
            },
            collected,
            refs,
        ),
        ids.len() == refs.len(),
        present.len() == i,
        0 <= i < refs.len(),
        forall|k: int| 0 <= k <= i ==> reads_as((#[trigger] refs[k]).commit, Ok(ids[k])),
    ensures
        ({
            let first = if filter is Some {
                seq![ReplyModel::Id(head), ReplyModel::Id(selected)]
            } else {
                seq![ReplyModel::Id(head)]
            };
            let before = first + collected + fetch_replies(present);
            let commit = refs[i].commit;
            let remote = refs[i].remote;
            &&& fetch_turn(filter, before) == asks_after(
                told_before(refs, i),
                unsaid(ActionOf::HasObject { id: ids[i] }),
            )
            &&& fetch_turn(filter, before + seq![ReplyModel::Flag(false)]) == asks_after(
                seq![NoticeOf::Fetching { what: commit, remote }],
                said(
                    ActionOf::Git {
                        verb: "fetch"@,
                        remote,
                        refspec: commit + ":refs/josh/link-shas/"@ + commit,
                    },
                    "git fetch of "@ + commit + " from "@ + remote + " failed"@,
                ),
            )
        }),
{
    let none = Seq::<ReplyModel>::empty();
    let absent = seq![ReplyModel::Flag(false)];
    let before = select_replies(filter, head, selected) + collected + fetch_replies(present);
    let fetched = present.len() - set_flags(present);
    let skipped = set_flags(present) as int;
    let id = ids[i];
    let next = then_present(refs, i, fetched, skipped);
    assert(reads_as(refs[i].commit, Ok(id)));
    reading_is_found(refs[i].commit, Ok(id));
    assert(before + none =~= before);
    first_commits_are_passed_in_command(
        filter,
        head,
        selected,
        collected,
        refs,
        ids,
        present,
        none,
    );
    fetch_each_asks(refs, i, fetched, skipped, id, none);
    pending_at_start(asking_for(id));
    chain_asks(asking_for(id), none, next);
    assert(told_before(refs, i) + Seq::<NoticeModel>::empty() =~= told_before(refs, i));
    first_commits_are_passed_in_command(
        filter,
        head,
        selected,
        collected,
        refs,
        ids,
        present,
        absent,
    );
    fetch_each_asks(refs, i, fetched, skipped, id, absent);
    assert(absent + none =~= absent);
    chain_takes_one(asking_for(id), ReplyModel::Flag(false), none, next);
    let fetch = for_finish(fetch_request(refs[i]));
    pending_at_start(fetch);
    chain_asks(fetch, none, then_fetched(refs, i, fetched, skipped));
    let telling = seq![NoticeModel::Fetching { what: refs[i].commit, remote: refs[i].remote }];
    assert(telling + Seq::<NoticeModel>::empty() =~= telling);
}

/// A linked commit that is no identifier is named, and ends the command.
pub proof fn bad_commit_is_refused(
    filter: Option<Seq<char>>,
    head: ObjectId,
    selected: ObjectId,
    collected: Seq<ReplyModel>,
    refs: Seq<LinkRefModel>,
    ids: Seq<ObjectId>,
    present: Seq<bool>,
    i: int,
    cause: HexError,
)
    requires
        are_collected(
            if filter is Some {
                selected
            } else {
                head
            },
            collected,
            refs,
        ),
        ids.len() == refs.len(),
        present.len() == i,
        0 <= i < refs.len(),
        forall|k: int| 0 <= k < i ==> reads_as((#[trigger] refs[k]).commit, Ok(ids[k])),
        reads_as(refs[i].commit, Err(cause)),
    ensures
        ({
            let first = if filter is Some {
                seq![ReplyModel::Id(head), ReplyModel::Id(selected)]
            } else {
                seq![ReplyModel::Id(head)]
            };
            fetch_turn(filter, first + collected + fetch_replies(present)) == fails_after(
                told_before(refs, i),
                LinkErrorOf::InvalidCommitSha { commit: refs[i].commit, cause },
            )
        }),
{
    let none = Seq::<ReplyModel>::empty();
    let before = select_replies(filter, head, selected) + collected + fetch_replies(present);
    reading_is_found(refs[i].commit, Err(cause));
    assert(before + none =~= before);
    first_commits_are_passed_in_command(
        filter,
        head,
        selected,
        collected,
        refs,
        ids,
        present,
        none,
    );
    assert(told_before(refs, i) + Seq::<NoticeModel>::empty() =~= told_before(refs, i));
}

/// Behind the last linked commit the command says how many were fetched and how many were there,
/// and has come to its end.
pub proof fn fetched_commits_are_counted(
    filter: Option<Seq<char>>,
    head: ObjectId,
    selected: ObjectId,
    collected: Seq<ReplyModel>,
    refs: Seq<LinkRefModel>,
    ids: Seq<ObjectId>,
    present: Seq<bool>,
)
    requires
        are_collected(
            if filter is Some {
                selected
            } else {
                head
            },
            collected,
            refs,
        ),
        refs.len() > 0,
        ids.len() == refs.len(),
        present.len() == refs.len(),
        forall|k: int| 0 <= k < refs.len() ==> reads_as((#[trigger] refs[k]).commit, Ok(ids[k])),
        refs.len() <= usize::MAX,
    ensures
        ({
            let first = if filter is Some {
                seq![ReplyModel::Id(head), ReplyModel::Id(selected)]
            } else {
                seq![ReplyModel::Id(head)]
            };
            let skipped = present.filter(|there: bool| there).len();
            let fetched = present.filter(|there: bool| !there).len();
            fetch_turn(filter, first + collected + fetch_replies(present)) == ends_after(
                seq![
                    NoticeOf::FetchedAll { fetched: fetched as usize, skipped: skipped as usize },
                ],
            )
        }),
{
    let none = Seq::<ReplyModel>::empty();
    let before = select_replies(filter, head, selected) + collected + fetch_replies(present);
    assert(before + none =~= before);
    first_commits_are_passed_in_command(
        filter,
        head,
        selected,
        collected,
        refs,
        ids,
        present,
        none,
    );
    flags_are_bounded(present);
    flags_are_counted(present);
    let last = seq![
        NoticeModel::FetchedAll {
            fetched: (present.len() - set_flags(present)) as usize,
            skipped: set_flags(present) as usize,
        },
    ];
    assert(told_before(refs, refs.len() as int) + last =~= last);
}

proof fn flags_are_counted(present: Seq<bool>)
    ensures
        present.filter(|there: bool| there).len() == set_flags(present),
        present.filter(|there: bool| !there).len() == present.len() - set_flags(present),
    decreases present.len(),
{
    let yes = |there: bool| there;
    let no = |there: bool| !there;
    if present.len() > 0 {
        let one = seq![present.first()];
        let rest = present.drop_first();
        flags_are_counted(rest);
        assert(present =~= one + rest);
        Seq::filter_distributes_over_add(one, rest, yes);
        Seq::filter_distributes_over_add(one, rest, no);
        assert(one.drop_last() =~= Seq::empty());
        reveal_with_fuel(Seq::filter, 2);
        assert(one.filter(yes).len() == if present.first() {
            1nat
        } else {
            0nat
        });
        assert(one.filter(no).len() == if present.first() {
            0nat
        } else {
            1nat
        });
    } else {
        reveal(Seq::filter);
    }
}

} // verus!
