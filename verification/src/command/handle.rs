//! The link command, whichever of its subcommands it is.

use crate::command::add::{add_turn, handle_link_add, AddLink};
use crate::command::args::{LinkArgs, LinkCommand, LinkCommandModel};
use crate::command::fetch::{fetch_turn, handle_link_fetch, FetchLinks};
use crate::command::push::{handle_link_push, push_turn, PushLink};
use crate::command::update::{handle_link_update, update_turn, UpdateAllLinks};
use crate::step::{Outcome, Reply, ReplyModel};
use crate::text::optional;
use crate::turn::{Turn, TurnModel};
use vstd::prelude::*;

verus! {

/// What the command does after `replies`.
pub open spec fn link_turn(
    command: LinkCommandModel,
    commit_time: Option<Seq<char>>,
    replies: Seq<ReplyModel>,
) -> TurnModel {
    match command {
        LinkCommandModel::Add { args } => add_turn(args, commit_time, replies),
        LinkCommandModel::Fetch { filter } => fetch_turn(filter, replies),
        LinkCommandModel::Update { filter } => update_turn(filter, commit_time, replies),
        LinkCommandModel::Push { path, force } => push_turn(path, force, replies),
    }
}

/// A subcommand that waits for a reply.
enum Running {
    Add(AddLink),
    Fetch(FetchLinks),
    Update(UpdateAllLinks),
    Push(PushLink),
}

impl Running {
    /// The subcommand.
    spec fn command(self) -> LinkCommandModel {
        match self {
            Running::Add(running) => LinkCommandModel::Add { args: running.args() },
            Running::Fetch(running) => LinkCommandModel::Fetch { filter: running.filter() },
            Running::Update(running) => LinkCommandModel::Update { filter: running.filter() },
            Running::Push(running) => LinkCommandModel::Push {
                path: running.path(),
                force: running.force(),
            },
        }
    }

    /// The replies so far.
    spec fn replies(self) -> Seq<ReplyModel> {
        match self {
            Running::Add(running) => running.replies(),
            Running::Fetch(running) => running.replies(),
            Running::Update(running) => running.replies(),
            Running::Push(running) => running.replies(),
        }
    }

    /// Whether `time` is what the time of commits is fixed to.
    spec fn runs_at(self, time: Option<Seq<char>>) -> bool {
        match self {
            Running::Add(running) => running.commit_time() == time,
            Running::Update(running) => running.commit_time() == time,
            Running::Fetch(_) | Running::Push(_) => true,
        }
    }
}

/// A command that waits for a reply.
pub struct RunningLink {
    running: Running,
    commit_time: Ghost<Option<Seq<char>>>,
}

impl RunningLink {
    /// The command.
    pub closed spec fn command(self) -> LinkCommandModel {
        self.running.command()
    }

    /// The time of the commit, where it is fixed.
    pub closed spec fn commit_time(self) -> Option<Seq<char>> {
        self.commit_time@
    }

    /// The replies so far.
    pub closed spec fn replies(self) -> Seq<ReplyModel> {
        self.running.replies()
    }

    #[verifier::type_invariant]
    spec fn consistent(self) -> bool {
        self.running.runs_at(self.commit_time@)
    }
}

impl Running {
    /// The subcommand, as part of the command.
    fn of_link(self, Ghost(commit_time): Ghost<Option<Seq<char>>>) -> (r: RunningLink)
        requires
            self.runs_at(commit_time),
        ensures
            r.command() == self.command(),
            r.commit_time() == commit_time,
            r.replies() == self.replies(),
    {
        RunningLink { running: self, commit_time: Ghost(commit_time) }
    }
}

/// The turn of a command that adds a link.
fn add_link_turn(turn: Turn<AddLink>, Ghost(commit_time): Ghost<Option<Seq<char>>>) -> (r: Turn<
    RunningLink,
>)
    requires
        turn.outcome matches Outcome::Ask { request, next } ==> next.commit_time() == commit_time,
    ensures
        r.deep_view() == turn.deep_view(),
        r.outcome matches Outcome::Ask { request, next } ==> turn.outcome matches Outcome::Ask {
            request: _,
            next: inner,
        } && next.command() == (LinkCommandModel::Add { args: inner.args() })
            && next.commit_time() == commit_time && next.replies() == inner.replies(),
{
    let Turn { tell, outcome } = turn;
    let outcome = match outcome {
        Outcome::Ask { request, next } => Outcome::Ask {
            request,
            next: Running::Add(next).of_link(Ghost(commit_time)),
        },
        Outcome::Done { value } => Outcome::Done { value },
        Outcome::Fail { error } => Outcome::Fail { error },
    };
    Turn { tell, outcome }
}

/// The turn of a command that fetches links.
fn fetch_links_turn(
    turn: Turn<FetchLinks>,
    Ghost(commit_time): Ghost<Option<Seq<char>>>,
) -> (r: Turn<RunningLink>)
    ensures
        r.deep_view() == turn.deep_view(),
        r.outcome matches Outcome::Ask { request, next } ==> turn.outcome matches Outcome::Ask {
            request: _,
            next: inner,
        } && next.command() == (LinkCommandModel::Fetch { filter: inner.filter() })
            && next.commit_time() == commit_time && next.replies() == inner.replies(),
{
    let Turn { tell, outcome } = turn;
    let outcome = match outcome {
        Outcome::Ask { request, next } => Outcome::Ask {
            request,
            next: Running::Fetch(next).of_link(Ghost(commit_time)),
        },
        Outcome::Done { value } => Outcome::Done { value },
        Outcome::Fail { error } => Outcome::Fail { error },
    };
    Turn { tell, outcome }
}

/// The turn of a command that updates links.
fn update_links_turn(
    turn: Turn<UpdateAllLinks>,
    Ghost(commit_time): Ghost<Option<Seq<char>>>,
) -> (r: Turn<RunningLink>)
    requires
        turn.outcome matches Outcome::Ask { request, next } ==> next.commit_time() == commit_time,
    ensures
        r.deep_view() == turn.deep_view(),
        r.outcome matches Outcome::Ask { request, next } ==> turn.outcome matches Outcome::Ask {
            request: _,
            next: inner,
        } && next.command() == (LinkCommandModel::Update { filter: inner.filter() })
            && next.commit_time() == commit_time && next.replies() == inner.replies(),
{
    let Turn { tell, outcome } = turn;
    let outcome = match outcome {
        Outcome::Ask { request, next } => Outcome::Ask {
            request,
            next: Running::Update(next).of_link(Ghost(commit_time)),
        },
        Outcome::Done { value } => Outcome::Done { value },
        Outcome::Fail { error } => Outcome::Fail { error },
    };
    Turn { tell, outcome }
}

/// The turn of a command that pushes a link.
fn push_link_turn(turn: Turn<PushLink>, Ghost(commit_time): Ghost<Option<Seq<char>>>) -> (r: Turn<
    RunningLink,
>)
    ensures
        r.deep_view() == turn.deep_view(),
        r.outcome matches Outcome::Ask { request, next } ==> turn.outcome matches Outcome::Ask {
            request: _,
            next: inner,
        } && next.command() == (LinkCommandModel::Push { path: inner.path(), force: inner.force() })
            && next.commit_time() == commit_time && next.replies() == inner.replies(),
{
    let Turn { tell, outcome } = turn;
    let outcome = match outcome {
        Outcome::Ask { request, next } => Outcome::Ask {
            request,
            next: Running::Push(next).of_link(Ghost(commit_time)),
        },
        Outcome::Done { value } => Outcome::Done { value },
        Outcome::Fail { error } => Outcome::Fail { error },
    };
    Turn { tell, outcome }
}

impl RunningLink {
    /// Takes the reply to what was asked.
    pub fn resume(self, reply: Reply) -> (r: Turn<RunningLink>)
        ensures
            r.deep_view() == link_turn(
                self.command(),
                self.commit_time(),
                self.replies().push(reply.deep_view()),
            ),
            r.outcome matches Outcome::Ask { request, next } ==> next.command() == self.command()
                && next.commit_time() == self.commit_time() && next.replies()
                == self.replies().push(reply.deep_view()),
    {
        proof {
            use_type_invariant(&self);
        }
        let RunningLink { running, commit_time } = self;
        match running {
            Running::Add(running) => add_link_turn(running.resume(reply), commit_time),
            Running::Fetch(running) => fetch_links_turn(running.resume(reply), commit_time),
            Running::Update(running) => update_links_turn(running.resume(reply), commit_time),
            Running::Push(running) => push_link_turn(running.resume(reply), commit_time),
        }
    }
}

/// Starts the command that the user asked for. `commit_time` is what the environment fixes the
/// time of commits to, where it does.
pub fn handle_link(args: &LinkArgs, commit_time: Option<&str>) -> (r: Turn<RunningLink>)
    ensures
        r.deep_view() == link_turn(args.command.deep_view(), optional(commit_time), Seq::empty()),
        r.outcome matches Outcome::Ask { request, next } ==> next.command()
            == args.command.deep_view() && next.commit_time() == optional(commit_time)
            && next.replies() == Seq::<ReplyModel>::empty(),
{
    let ghost time = optional(commit_time);
    match &args.command {
        LinkCommand::Add(args) => add_link_turn(handle_link_add(args, commit_time), Ghost(time)),
        LinkCommand::Fetch(args) => fetch_links_turn(handle_link_fetch(args), Ghost(time)),
        LinkCommand::Update(args) => update_links_turn(
            handle_link_update(args, commit_time),
            Ghost(time),
        ),
        LinkCommand::Push(args) => push_link_turn(handle_link_push(args), Ghost(time)),
    }
}

} // verus!
