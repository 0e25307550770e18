//! What the user asks of a command.

use vstd::prelude::*;

verus! {

/// The arguments of the link command.
#[derive(Debug)]
pub struct LinkArgs {
    /// Link subcommand
    pub command: LinkCommand,
}

/// What is to be done with links.
#[derive(Debug)]
pub enum LinkCommand {
    /// Add a link with optional filter and target branch
    Add(LinkAddArgs),
    /// Fetch all SHAs referenced in .link.josh files across history
    Fetch(LinkFetchArgs),
    /// Fetch the latest commit from each linked remote and update .link.josh files
    Update(LinkUpdateArgs),
    /// Push the content of a link to its remote, through the reverse of the link's filter
    Push(LinkPushArgs),
}

/// The link to add.
#[derive(Debug)]
pub struct LinkAddArgs {
    /// Path where the link will be mounted
    pub path: String,
    /// Remote repository URL
    pub url: String,
    /// Optional filter to apply to the linked repository
    pub filter: Option<String>,
    /// Target branch to link (defaults to HEAD)
    pub target: Option<String>,
    /// Link mode: embedded, snapshot, or pointer
    pub mode: String,
}

/// The links to fetch.
#[derive(Debug)]
pub struct LinkFetchArgs {
    /// Josh filter selecting which links to consider (considers all if omitted)
    pub filter: Option<String>,
}

/// The links to update.
#[derive(Debug)]
pub struct LinkUpdateArgs {
    /// Josh filter selecting which links to update (updates all if omitted)
    pub filter: Option<String>,
}

/// The link to push.
#[derive(Debug)]
pub struct LinkPushArgs {
    /// Path of the link to push (e.g. /docs or docs)
    pub path: String,
    /// Force push, overwriting the remote branch
    pub force: bool,
}

/// The model of [`LinkAddArgs`].
pub struct LinkAddModel {
    pub path: Seq<char>,
    pub url: Seq<char>,
    pub filter: Option<Seq<char>>,
    pub target: Option<Seq<char>>,
    pub mode: Seq<char>,
}

impl DeepView for LinkAddArgs {
    type V = LinkAddModel;

    open spec fn deep_view(&self) -> LinkAddModel {
        LinkAddModel {
            path: self.path@,
            url: self.url@,
            filter: self.filter.deep_view(),
            target: self.target.deep_view(),
            mode: self.mode@,
        }
    }
}

/// The model of a [`LinkCommand`].
pub enum LinkCommandModel {
    Add { args: LinkAddModel },
    Fetch { filter: Option<Seq<char>> },
    Update { filter: Option<Seq<char>> },
    Push { path: Seq<char>, force: bool },
}

impl DeepView for LinkCommand {
    type V = LinkCommandModel;

    open spec fn deep_view(&self) -> LinkCommandModel {
        match self {
            LinkCommand::Add(args) => LinkCommandModel::Add { args: args.deep_view() },
            LinkCommand::Fetch(args) => LinkCommandModel::Fetch {
                filter: args.filter.deep_view(),
            },
            LinkCommand::Update(args) => LinkCommandModel::Update {
                filter: args.filter.deep_view(),
            },
            LinkCommand::Push(args) => LinkCommandModel::Push {
                path: args.path@,
                force: args.force,
            },
        }
    }
}

} // verus!
