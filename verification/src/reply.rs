//! What a run is told of the things that it asks for.
use crate::output::result_view;
use crate::text::Text;
use vstd::prelude::*;

verus! {

/// How an installed version stands to another one.
#[derive(Debug, Clone, Copy, PartialEq, Eq, Structural)]
pub enum VersionOrder {
    Older,
    Same,
    Newer,
}

/// The model of `Origin`.
pub enum OriginView {
    Url { url: Text },
    UrlUnreadable { cause: Text },
    NoRemote { cause: Text },
    NoRepository { cause: Text },
}

/// Where a cloned repository comes from, as far as that can be found out.
#[derive(Debug, PartialEq, Eq)]
pub enum Origin {
    /// The address of its origin.
    Url { url: String },
    /// The address of its origin cannot be read.
    UrlUnreadable { cause: String },
    /// It has no origin.
    NoRemote { cause: String },
    /// It is no repository.
    NoRepository { cause: String },
}

impl View for Origin {
    type V = OriginView;

    open spec fn view(&self) -> OriginView {
        match self {
            Origin::Url { url } => OriginView::Url { url: url@ },
            Origin::UrlUnreadable { cause } => OriginView::UrlUnreadable { cause: cause@ },
            Origin::NoRemote { cause } => OriginView::NoRemote { cause: cause@ },
            Origin::NoRepository { cause } => OriginView::NoRepository { cause: cause@ },
        }
    }
}

/// What the AUR says of one package.
#[derive(Debug, PartialEq, Eq)]
pub struct AurResult {
    pub version: String,
}

/// The model of `RpcResponse`: the count that it gives, and the versions.
#[verifier::ext_equal]
pub struct RpcResponseView {
    pub resultcount: nat,
    pub versions: Seq<Text>,
}

/// An answer of the AUR.
#[derive(Debug, PartialEq, Eq)]
pub struct RpcResponse {
    pub resultcount: usize,
    pub results: Vec<AurResult>,
}

impl View for RpcResponse {
    type V = RpcResponseView;

    open spec fn view(&self) -> RpcResponseView {
        RpcResponseView {
            resultcount: self.resultcount as nat,
            versions: self.results@.map_values(|result: AurResult| result.version@),
        }
    }
}

/// The model of `Reply`.
pub enum ReplyView {
    Captured(Result<Text, Text>),
    Exited(Result<bool, Text>),
    Answered(Result<Text, Text>),
    Finished(Result<(), Text>),
    Entry(Result<Option<Text>, Text>),
    Origin(OriginView),
    Located { path: Text, present: bool },
    Rpc(Result<RpcResponseView, Text>),
    Compared(VersionOrder),
}

/// What came of an action. An error comes as its message.
#[derive(Debug, PartialEq, Eq)]
pub enum Reply {
    /// The output of a command whose output is read.
    Captured(Result<String, String>),
    /// Whether a command whose output goes to the user succeeded.
    Exited(Result<bool, String>),
    /// A line that the user typed.
    Answered(Result<String, String>),
    /// The end of a thing that has no other outcome.
    Finished(Result<(), String>),
    /// The name of a directory entry, if there is one more.
    Entry(Result<Option<String>, String>),
    /// Where a repository comes from.
    Origin(Origin),
    /// Where the repository of a base belongs, and whether it is there.
    Located { path: String, present: bool },
    /// An answer of the AUR.
    Rpc(Result<RpcResponse, String>),
    /// How an installed version stands to another one.
    Compared(VersionOrder),
}

impl View for Reply {
    type V = ReplyView;

    open spec fn view(&self) -> ReplyView {
        match self {
            Reply::Captured(said) => ReplyView::Captured(result_view(*said)),
            Reply::Exited(Ok(success)) => ReplyView::Exited(Ok(*success)),
            Reply::Exited(Err(cause)) => ReplyView::Exited(Err(cause@)),
            Reply::Answered(said) => ReplyView::Answered(result_view(*said)),
            Reply::Finished(Ok(())) => ReplyView::Finished(Ok(())),
            Reply::Finished(Err(cause)) => ReplyView::Finished(Err(cause@)),
            Reply::Entry(Ok(Some(name))) => ReplyView::Entry(Ok(Some(name@))),
            Reply::Entry(Ok(None)) => ReplyView::Entry(Ok(None)),
            Reply::Entry(Err(cause)) => ReplyView::Entry(Err(cause@)),
            Reply::Origin(origin) => ReplyView::Origin(origin@),
            Reply::Located { path, present } => ReplyView::Located {
                path: path@,
                present: *present,
            },
            Reply::Rpc(Ok(response)) => ReplyView::Rpc(Ok(response@)),
            Reply::Rpc(Err(cause)) => ReplyView::Rpc(Err(cause@)),
            Reply::Compared(order) => ReplyView::Compared(*order),
        }
    }
}

/// Where a part of a run goes next.
#[derive(Debug, PartialEq, Eq)]
pub enum Turn<S, F> {
    /// On with another step.
    On { step: S },
    /// This part is over.
    Over,
    /// The whole run is over, and has failed.
    Failed { failure: F },
}

/// The model of an answer of the AUR holds its count and every version, in order.
pub proof fn law_response_model(response: RpcResponse)
    ensures
        response@.resultcount == response.resultcount,
        response@.versions.len() == response.results@.len(),
        forall|i: int|
            0 <= i < response.results@.len() ==> #[trigger] response@.versions[i]
                == response.results@[i].version@,
{
}

/// The model of an origin is the same origin, with a text for each string.
pub proof fn law_origin_model(origin: Origin)
    ensures
        match origin {
            Origin::Url { url } => origin@ == (OriginView::Url { url: url@ }),
            Origin::UrlUnreadable { cause } => origin@ == (OriginView::UrlUnreadable {
                cause: cause@,
            }),
            Origin::NoRemote { cause } => origin@ == (OriginView::NoRemote { cause: cause@ }),
            Origin::NoRepository { cause } => origin@ == (OriginView::NoRepository {
                cause: cause@,
            }),
        },
{
}

/// The model of a reply is the same reply, with a text for each string.
pub proof fn law_reply_model(reply: Reply)
    ensures
        match reply {
            Reply::Captured(Ok(text)) => reply@ == ReplyView::Captured(Ok(text@)),
            Reply::Captured(Err(cause)) => reply@ == ReplyView::Captured(Err(cause@)),
            Reply::Exited(Ok(success)) => reply@ == ReplyView::Exited(Ok(success)),
            Reply::Exited(Err(cause)) => reply@ == ReplyView::Exited(Err(cause@)),
            Reply::Answered(Ok(line)) => reply@ == ReplyView::Answered(Ok(line@)),
            Reply::Answered(Err(cause)) => reply@ == ReplyView::Answered(Err(cause@)),
            Reply::Finished(Ok(())) => reply@ == ReplyView::Finished(Ok(())),
            Reply::Finished(Err(cause)) => reply@ == ReplyView::Finished(Err(cause@)),
            Reply::Entry(Ok(Some(name))) => reply@ == ReplyView::Entry(Ok(Some(name@))),
            Reply::Entry(Ok(None)) => reply@ == ReplyView::Entry(Ok(None)),
            Reply::Entry(Err(cause)) => reply@ == ReplyView::Entry(Err(cause@)),
            Reply::Origin(origin) => reply@ == ReplyView::Origin(origin@),
            Reply::Located { path, present } => reply@ == (ReplyView::Located {
                path: path@,
                present,
            }),
            Reply::Rpc(Ok(response)) => reply@ == ReplyView::Rpc(Ok(response@)),
            Reply::Rpc(Err(cause)) => reply@ == ReplyView::Rpc(Err(cause@)),
            Reply::Compared(order) => reply@ == ReplyView::Compared(order),
        },
{
}

} // verus!
