//! What the service answers: a status, and a digest or an error message.

use vstd::prelude::*;
use vstd::string::StringExecFns;
use crate::aggregate::{
    comparison, complete, digest_of, entry_views, failed, lemma_first_failure_exists,
    BlockNumberByProvider, BlockNumberByProviderView, Mode, SlotView,
};
use crate::error::{AppError, AppErrorView, STATUS_INTERNAL_SERVER_ERROR, STATUS_OK};

verus! {

/// The body of a reply, before it is written out as JSON: the digest as an
/// array of its lines, or an object with the one member `error`.
#[derive(Debug, PartialEq, Eq)]
pub enum ReplyBody {
    Digest(Vec<BlockNumberByProvider>),
    Error { error: String },
}

/// The reply to a request.
#[derive(Debug, PartialEq, Eq)]
pub struct Reply {
    pub status: u16,
    pub body: ReplyBody,
}

/// The mathematical content of a [`ReplyBody`].
pub enum ReplyBodyView {
    Digest(Seq<BlockNumberByProviderView>),
    Error { error: Seq<char> },
}

/// The mathematical content of a [`Reply`].
pub struct ReplyView {
    pub status: u16,
    pub body: ReplyBodyView,
}

impl View for ReplyBody {
    type V = ReplyBodyView;

    open spec fn view(&self) -> ReplyBodyView {
        match self {
            ReplyBody::Digest(digest) => ReplyBodyView::Digest(entry_views(digest@)),
            ReplyBody::Error { error } => ReplyBodyView::Error { error: error@ },
        }
    }
}

impl View for Reply {
    type V = ReplyView;

    open spec fn view(&self) -> ReplyView {
        ReplyView { status: self.status, body: self.body@ }
    }
}

/// The reply that reports `error`: the generic message of its kind, and
/// nothing of the URL or the raw value that it carries.
pub open spec fn error_reply(error: AppErrorView) -> ReplyView {
    ReplyView {
        status: STATUS_INTERNAL_SERVER_ERROR,
        body: ReplyBodyView::Error { error: error.client_message() },
    }
}

/// The reply to a request whose comparison ended in `compared`.
pub open spec fn reply_to(
    compared: Result<Seq<BlockNumberByProviderView>, AppErrorView>,
) -> ReplyView {
    match compared {
        Ok(digest) => ReplyView { status: STATUS_OK, body: ReplyBodyView::Digest(digest) },
        Err(error) => error_reply(error),
    }
}

/// The content of a comparison's result.
pub open spec fn compared_view(compared: Result<Vec<BlockNumberByProvider>, AppError>) -> Result<
    Seq<BlockNumberByProviderView>,
    AppErrorView,
> {
    match compared {
        Ok(digest) => Ok(entry_views(digest@)),
        Err(error) => Err(error@),
    }
}

impl AppError {
    /// The reply that reports this error to a client.
    pub fn into_response(self) -> (reply: Reply)
        ensures
            reply@ == error_reply(self@),
    {
        Reply {
            status: self.status_code(),
            body: ReplyBody::Error { error: String::from_str(self.message()) },
        }
    }
}

/// The reply to a request, given what the comparison of heads yielded.
pub fn respond(compared: Result<Vec<BlockNumberByProvider>, AppError>) -> (reply: Reply)
    ensures
        reply@ == reply_to(compared_view(compared)),
{
    match compared {
        Ok(digest) => Reply { status: STATUS_OK, body: ReplyBody::Digest(digest) },
        Err(error) => error.into_response(),
    }
}

/// Two errors of one kind are reported alike, whatever context they carry.
pub proof fn lemma_reply_hides_context(first: AppErrorView, second: AppErrorView)
    requires
        first is FetchError && second is FetchError || first is ParseError && second is ParseError
            || first is ConfigError && second is ConfigError,
    ensures
        error_reply(first) == error_reply(second),
{
}

/// Where every provider failed, a lenient comparison is still answered with
/// status 200 and the full digest, in which no line has a block number.
pub proof fn lemma_all_failed_lenient(slots: Seq<SlotView>)
    requires
        forall|i: int| 0 <= i < slots.len() ==> failed(#[trigger] slots[i]),
    ensures
        complete(slots),
        reply_to(comparison(slots, Mode::Lenient)) == (ReplyView {
            status: STATUS_OK,
            body: ReplyBodyView::Digest(digest_of(slots)),
        }),
        digest_of(slots).len() == slots.len(),
        forall|i: int| 0 <= i < slots.len() ==> (#[trigger] digest_of(slots)[i]).block_number is None,
{
    assert forall|i: int| 0 <= i < slots.len() implies (#[trigger] slots[i]).head is Some by {
        assert(failed(slots[i]));
    }
    assert forall|i: int| 0 <= i < slots.len() implies (#[trigger] digest_of(
        slots,
    )[i]).block_number is None by {
        assert(failed(slots[i]));
    }
}

/// Where every provider failed, and there is at least one, a strict
/// comparison is answered with status 500 and one error message: that of
/// the first provider's failure.
pub proof fn lemma_all_failed_strict(slots: Seq<SlotView>)
    requires
        slots.len() > 0,
        forall|i: int| 0 <= i < slots.len() ==> failed(#[trigger] slots[i]),
    ensures
        comparison(slots, Mode::Strict) == Err::<Seq<BlockNumberByProviderView>, AppErrorView>(
            slots[0].head->Some_0->Err_0,
        ),
        reply_to(comparison(slots, Mode::Strict)) == error_reply(slots[0].head->Some_0->Err_0),
        reply_to(comparison(slots, Mode::Strict)).status == STATUS_INTERNAL_SERVER_ERROR,
{
    assert(failed(slots[0]));
    let first = lemma_first_failure_exists(slots, 0);
}

} // verus!
