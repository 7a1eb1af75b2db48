//! What the service answers: a status code and a body.

use vstd::prelude::*;
use crate::member::{Member, MemberView};

verus! {

/// The status code of a reply that succeeded.
pub const STATUS_OK: u16 = 200;

/// The status code of a reply to a request on which the store failed.
pub const STATUS_SERVER_ERROR: u16 = 500;

/// A whisky, as a search surfaces it: by its name alone.
#[derive(Clone, Debug, PartialEq, Eq)]
pub struct WhiskyName {
    pub name: String,
}

impl View for WhiskyName {
    type V = Seq<char>;

    open spec fn view(&self) -> Seq<char> {
        self.name@
    }
}

/// The members of a list, each as a pair of texts.
pub open spec fn member_views(members: Seq<Member>) -> Seq<MemberView> {
    members.map_values(|member: Member| member@)
}

/// The whiskies of a list, each by its name.
pub open spec fn whisky_views(whiskies: Seq<WhiskyName>) -> Seq<Seq<char>> {
    whiskies.map_values(|whisky: WhiskyName| whisky@)
}

/// The body of a reply.
#[derive(Clone, Debug, PartialEq, Eq)]
pub enum Body {
    /// Plain text.
    Text(String),
    /// Members, to be sent as an array of objects with a name and a status.
    Members(Vec<Member>),
    /// Whiskies, to be sent as an array of objects with a name.
    Whiskies(Vec<WhiskyName>),
}

/// A body, by the texts it holds.
pub enum BodyView {
    Text(Seq<char>),
    Members(Seq<MemberView>),
    Whiskies(Seq<Seq<char>>),
}

impl View for Body {
    type V = BodyView;

    open spec fn view(&self) -> BodyView {
        match self {
            Body::Text(text) => BodyView::Text(text@),
            Body::Members(members) => BodyView::Members(member_views(members@)),
            Body::Whiskies(whiskies) => BodyView::Whiskies(whisky_views(whiskies@)),
        }
    }
}

/// A reply of the service.
#[derive(Clone, Debug, PartialEq, Eq)]
pub struct Reply {
    pub status: u16,
    pub body: Body,
}

/// A reply, by its status code and the texts of its body.
pub struct ReplyView {
    pub status: u16,
    pub body: BodyView,
}

impl View for Reply {
    type V = ReplyView;

    open spec fn view(&self) -> ReplyView {
        ReplyView { status: self.status, body: self.body@ }
    }
}

/// The reply that succeeds with a plain text.
pub open spec fn done(text: Seq<char>) -> ReplyView {
    ReplyView { status: STATUS_OK, body: BodyView::Text(text) }
}

/// The reply that reports a failure of the store with a plain text.
pub open spec fn failed(text: Seq<char>) -> ReplyView {
    ReplyView { status: STATUS_SERVER_ERROR, body: BodyView::Text(text) }
}

/// The reply that succeeds with a list of members.
pub open spec fn listed(members: Seq<MemberView>) -> ReplyView {
    ReplyView { status: STATUS_OK, body: BodyView::Members(members) }
}

/// The reply that succeeds with a list of whisky names.
pub open spec fn found(names: Seq<Seq<char>>) -> ReplyView {
    ReplyView { status: STATUS_OK, body: BodyView::Whiskies(names) }
}

impl Reply {
    /// The reply that succeeds with the text `text`.
    pub fn done(text: &str) -> (reply: Reply)
        ensures
            reply@ == done(text@),
    {
        Reply { status: STATUS_OK, body: Body::Text(text.to_owned()) }
    }

    /// The reply that reports a failure of the store with the text `text`.
    pub fn failed(text: &str) -> (reply: Reply)
        ensures
            reply@ == failed(text@),
    {
        Reply { status: STATUS_SERVER_ERROR, body: Body::Text(text.to_owned()) }
    }

    /// The reply that succeeds with `members`, in their order.
    pub fn listed(members: Vec<Member>) -> (reply: Reply)
        ensures
            reply@ == listed(member_views(members@)),
    {
        Reply { status: STATUS_OK, body: Body::Members(members) }
    }

    /// The reply that succeeds with `whiskies`, in their order.
    pub fn found(whiskies: Vec<WhiskyName>) -> (reply: Reply)
        ensures
            reply@ == found(whisky_views(whiskies@)),
    {
        Reply { status: STATUS_OK, body: Body::Whiskies(whiskies) }
    }
}

} // verus!
