//! Filters, written down as the calls by which they are built.

use crate::path::LinkPath;
use vstd::prelude::*;

verus! {

/// The keys under which a link file records what it links to.
#[derive(Clone, Copy, Debug, PartialEq, Eq, Structural)]
pub enum MetaKey {
    /// The address of the linked repository.
    Remote,
    /// The branch of the linked repository that the link follows.
    Target,
    /// The commit of the linked repository that the link is pinned to.
    Commit,
    /// How the linked content is brought in.
    Mode,
    /// The address that changes are pushed to, where it is not the one they come from.
    Push,
    /// The branch that changes are pushed to, where it is not the one they come from.
    PushTarget,
}

impl MetaKey {
    /// The key as a link file writes it.
    pub open spec fn written(self) -> Seq<char> {
        match self {
            MetaKey::Remote => "remote"@,
            MetaKey::Target => "target"@,
            MetaKey::Commit => "commit"@,
            MetaKey::Mode => "mode"@,
            MetaKey::Push => "push"@,
            MetaKey::PushTarget => "push-target"@,
        }
    }

    /// The key as a link file writes it.
    pub fn name(self) -> (r: &'static str)
        ensures
            r@ == self.written(),
    {
        match self {
            MetaKey::Remote => "remote",
            MetaKey::Target => "target",
            MetaKey::Commit => "commit",
            MetaKey::Mode => "mode",
            MetaKey::Push => "push",
            MetaKey::PushTarget => "push-target",
        }
    }
}

/// A filter over texts `S` and paths `P`.
///
/// Every text filter that the expression holds is parsed, from left to right, before anything is
/// built from it.
#[derive(Debug, PartialEq, Eq)]
pub enum FilterOf<S, P> {
    /// The filter that changes nothing.
    Identity,
    /// The filter that the link file with this number records, with its metadata.
    Recorded(usize),
    /// `base` without its metadata.
    Peel { base: Box<FilterOf<S, P>> },
    /// The filter that `text` writes; a text that writes none is reported as `context`.
    Parse { text: S, context: S },
    /// `base`, then the directory at `path` as the root.
    Subdir { base: Box<FilterOf<S, P>>, path: P },
    /// `base`, then the file `name` alone.
    File { base: Box<FilterOf<S, P>>, name: S },
    /// `base`, then everything moved into the directory `path`.
    Prefix { base: Box<FilterOf<S, P>>, path: P },
    /// `base` without what `other` selects.
    Exclude { base: Box<FilterOf<S, P>>, other: Box<FilterOf<S, P>> },
    /// `base` as an export.
    Export { base: Box<FilterOf<S, P>> },
    /// The inverse of `base`; where there is none, that is reported as `context`.
    Invert { base: Box<FilterOf<S, P>>, context: S },
    /// `first`, then `second`.
    Chain { first: Box<FilterOf<S, P>>, second: Box<FilterOf<S, P>> },
    /// `base` with `value` recorded under `key`.
    Meta { base: Box<FilterOf<S, P>>, key: MetaKey, value: S },
}

/// A filter as the program holds it.
pub type Filter = FilterOf<String, LinkPath>;

/// A filter as contracts speak of it.
pub type FilterModel = FilterOf<Seq<char>, Seq<u8>>;

impl FilterOf<String, LinkPath> {
    /// The model of the filter.
    pub open spec fn model(self) -> FilterModel
        decreases self,
    {
        match self {
            FilterOf::Identity => FilterOf::Identity,
            FilterOf::Recorded(n) => FilterOf::Recorded(n),
            FilterOf::Peel { base } => FilterOf::Peel { base: Box::new(base.model()) },
            FilterOf::Parse { text, context } => FilterOf::Parse {
                text: text@,
                context: context@,
            },
            FilterOf::Subdir { base, path } => FilterOf::Subdir {
                base: Box::new(base.model()),
                path: path.deep_view(),
            },
            FilterOf::File { base, name } => FilterOf::File {
                base: Box::new(base.model()),
                name: name@,
            },
            FilterOf::Prefix { base, path } => FilterOf::Prefix {
                base: Box::new(base.model()),
                path: path.deep_view(),
            },
            FilterOf::Exclude { base, other } => FilterOf::Exclude {
                base: Box::new(base.model()),
                other: Box::new(other.model()),
            },
            FilterOf::Export { base } => FilterOf::Export { base: Box::new(base.model()) },
            FilterOf::Invert { base, context } => FilterOf::Invert {
                base: Box::new(base.model()),
                context: context@,
            },
            FilterOf::Chain { first, second } => FilterOf::Chain {
                first: Box::new(first.model()),
                second: Box::new(second.model()),
            },
            FilterOf::Meta { base, key, value } => FilterOf::Meta {
                base: Box::new(base.model()),
                key,
                value: value@,
            },
        }
    }
}

impl DeepView for FilterOf<String, LinkPath> {
    type V = FilterModel;

    open spec fn deep_view(&self) -> FilterModel {
        self.model()
    }
}

/// Building a filter.
impl FilterOf<String, LinkPath> {
    /// The filter that `text` writes.
    pub fn parse(text: &str, context: String) -> (r: Filter)
        ensures
            r.deep_view() == (FilterModel::Parse { text: text@, context: context@ }),
    {
        FilterOf::Parse { text: text.to_owned(), context }
    }

    /// The filter that a link file records.
    pub fn recorded(number: usize) -> (r: Filter)
        ensures
            r.deep_view() == FilterModel::Recorded(number),
    {
        FilterOf::Recorded(number)
    }

    /// This filter without its metadata.
    pub fn peel(self) -> (r: Filter)
        ensures
            r.deep_view() == (FilterOf::Peel { base: Box::new(self.deep_view()) }),
    {
        FilterOf::Peel { base: Box::new(self) }
    }

    /// This filter, then the directory at `path` as the root.
    pub fn subdir(self, path: LinkPath) -> (r: Filter)
        ensures
            r.deep_view() == (FilterOf::Subdir {
                base: Box::new(self.deep_view()),
                path: path.deep_view(),
            }),
    {
        FilterOf::Subdir { base: Box::new(self), path }
    }

    /// This filter, then the file `name` alone.
    pub fn file(self, name: &str) -> (r: Filter)
        ensures
            r.deep_view() == (FilterOf::File { base: Box::new(self.deep_view()), name: name@ }),
    {
        FilterOf::File { base: Box::new(self), name: name.to_owned() }
    }

    /// This filter, then everything moved into the directory `path`.
    pub fn prefix(self, path: LinkPath) -> (r: Filter)
        ensures
            r.deep_view() == (FilterOf::Prefix {
                base: Box::new(self.deep_view()),
                path: path.deep_view(),
            }),
    {
        FilterOf::Prefix { base: Box::new(self), path }
    }

    /// This filter without what `other` selects.
    pub fn exclude(self, other: Filter) -> (r: Filter)
        ensures
            r.deep_view() == (FilterOf::Exclude {
                base: Box::new(self.deep_view()),
                other: Box::new(other.deep_view()),
            }),
    {
        FilterOf::Exclude { base: Box::new(self), other: Box::new(other) }
    }

    /// This filter as an export.
    pub fn export(self) -> (r: Filter)
        ensures
            r.deep_view() == (FilterOf::Export { base: Box::new(self.deep_view()) }),
    {
        FilterOf::Export { base: Box::new(self) }
    }

    /// The inverse of this filter.
    pub fn invert(self, context: String) -> (r: Filter)
        ensures
            r.deep_view() == (FilterOf::Invert {
                base: Box::new(self.deep_view()),
                context: context@,
            }),
    {
        FilterOf::Invert { base: Box::new(self), context }
    }

    /// This filter, then `second`.
    pub fn chain(self, second: Filter) -> (r: Filter)
        ensures
            r.deep_view() == (FilterOf::Chain {
                first: Box::new(self.deep_view()),
                second: Box::new(second.deep_view()),
            }),
    {
        FilterOf::Chain { first: Box::new(self), second: Box::new(second) }
    }

    /// This filter with `value` recorded under `key`.
    pub fn with_meta(self, key: MetaKey, value: String) -> (r: Filter)
        ensures
            r.deep_view() == (FilterOf::Meta {
                base: Box::new(self.deep_view()),
                key,
                value: value@,
            }),
    {
        FilterOf::Meta { base: Box::new(self), key, value }
    }
}

/// The metadata of the filters that link files record, by the number of the link file.
pub type Recorded = spec_fn(usize, MetaKey) -> Option<Seq<char>>;

/// What `filter` records under `key`: of several values the one that was given last. `recorded` is
/// what the filters of link files record.
pub open spec fn value_under(
    filter: FilterModel,
    key: MetaKey,
    recorded: Recorded,
) -> Option<Seq<char>>
    decreases filter,
{
    match filter {
        FilterOf::Meta { base, key: given, value } => if given == key {
            Some(value)
        } else {
            value_under(*base, key, recorded)
        },
        FilterOf::Recorded(n) => recorded(n, key),
        _ => None,
    }
}

/// What is said of the texts in `filter` that write no filter, from left to right.
pub open spec fn parse_contexts(filter: FilterModel) -> Seq<Seq<char>>
    decreases filter,
{
    match filter {
        FilterOf::Identity | FilterOf::Recorded(_) => Seq::empty(),
        FilterOf::Parse { text: _, context } => seq![context],
        FilterOf::Peel { base } => parse_contexts(*base),
        FilterOf::Subdir { base, path: _ } => parse_contexts(*base),
        FilterOf::File { base, name: _ } => parse_contexts(*base),
        FilterOf::Prefix { base, path: _ } => parse_contexts(*base),
        FilterOf::Export { base } => parse_contexts(*base),
        FilterOf::Invert { base, context: _ } => parse_contexts(*base),
        FilterOf::Meta { base, key: _, value: _ } => parse_contexts(*base),
        FilterOf::Exclude { base, other } => parse_contexts(*base) + parse_contexts(*other),
        FilterOf::Chain { first, second } => parse_contexts(*first) + parse_contexts(*second),
    }
}

/// What is said of the filters in `filter` that have no inverse, from left to right and from the
/// inside out.
pub open spec fn inverse_contexts(filter: FilterModel) -> Seq<Seq<char>>
    decreases filter,
{
    match filter {
        FilterOf::Identity | FilterOf::Recorded(_) | FilterOf::Parse { .. } => Seq::empty(),
        FilterOf::Peel { base } => inverse_contexts(*base),
        FilterOf::Subdir { base, path: _ } => inverse_contexts(*base),
        FilterOf::File { base, name: _ } => inverse_contexts(*base),
        FilterOf::Prefix { base, path: _ } => inverse_contexts(*base),
        FilterOf::Export { base } => inverse_contexts(*base),
        FilterOf::Invert { base, context } => inverse_contexts(*base).push(context),
        FilterOf::Meta { base, key: _, value: _ } => inverse_contexts(*base),
        FilterOf::Exclude { base, other } => inverse_contexts(*base) + inverse_contexts(*other),
        FilterOf::Chain { first, second } => inverse_contexts(*first) + inverse_contexts(*second),
    }
}

/// The texts of `a` and behind them those of `b`.
fn both(a: Vec<String>, b: Vec<String>) -> (r: Vec<String>)
    ensures
        r.deep_view() == a.deep_view() + b.deep_view(),
{
    let mut a = a;
    let mut b = b;
    let ghost first = a@;
    let ghost second = b@;
    a.append(&mut b);
    assert(a@ == first + second);
    assert(a.deep_view() =~= first.map_values(|s: String| s.deep_view()) + second.map_values(
        |s: String| s.deep_view(),
    ));
    a
}

impl FilterOf<String, LinkPath> {
    /// What is said of the texts in this filter that write no filter, from left to right.
    pub fn parse_contexts(&self) -> (r: Vec<String>)
        ensures
            r.deep_view() == parse_contexts(self.deep_view()),
        decreases *self,
    {
        match self {
            FilterOf::Identity | FilterOf::Recorded(_) => {
                let none: Vec<String> = Vec::new();
                assert(none.deep_view() =~= Seq::empty());
                none
            },
            FilterOf::Parse { text: _, context } => {
                let mut one: Vec<String> = Vec::new();
                one.push(context.clone());
                assert(one.deep_view() =~= seq![context@]);
                one
            },
            FilterOf::Peel { base } => base.parse_contexts(),
            FilterOf::Subdir { base, path: _ } => base.parse_contexts(),
            FilterOf::File { base, name: _ } => base.parse_contexts(),
            FilterOf::Prefix { base, path: _ } => base.parse_contexts(),
            FilterOf::Export { base } => base.parse_contexts(),
            FilterOf::Invert { base, context: _ } => base.parse_contexts(),
            FilterOf::Meta { base, key: _, value: _ } => base.parse_contexts(),
            FilterOf::Exclude { base, other } => both(
                base.parse_contexts(),
                other.parse_contexts(),
            ),
            FilterOf::Chain { first, second } => both(
                first.parse_contexts(),
                second.parse_contexts(),
            ),
        }
    }

    /// What is said of the filters in this filter that have no inverse, from left to right and from
    /// the inside out.
    pub fn inverse_contexts(&self) -> (r: Vec<String>)
        ensures
            r.deep_view() == inverse_contexts(self.deep_view()),
        decreases *self,
    {
        match self {
            FilterOf::Identity | FilterOf::Recorded(_) | FilterOf::Parse { .. } => {
                let none: Vec<String> = Vec::new();
                assert(none.deep_view() =~= Seq::empty());
                none
            },
            FilterOf::Peel { base } => base.inverse_contexts(),
            FilterOf::Subdir { base, path: _ } => base.inverse_contexts(),
            FilterOf::File { base, name: _ } => base.inverse_contexts(),
            FilterOf::Prefix { base, path: _ } => base.inverse_contexts(),
            FilterOf::Export { base } => base.inverse_contexts(),
            FilterOf::Invert { base, context } => {
                let mut all = base.inverse_contexts();
                let ghost before = all.deep_view();
                all.push(context.clone());
                assert(all.deep_view() =~= before.push(context@));
                all
            },
            FilterOf::Meta { base, key: _, value: _ } => base.inverse_contexts(),
            FilterOf::Exclude { base, other } => both(
                base.inverse_contexts(),
                other.inverse_contexts(),
            ),
            FilterOf::Chain { first, second } => both(
                first.inverse_contexts(),
                second.inverse_contexts(),
            ),
        }
    }
}

} // verus!
