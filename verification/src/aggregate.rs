//! The aggregator: one call per provider, all begun together, each outcome
//! filed under the provider it came from, and one digest at the end.

use vstd::prelude::*;
use crate::error::{AppError, AppErrorView};
use crate::provider::{provider_views, Provider, ProviderView};
use crate::error::FetchFailure;
use crate::rpc::{
    block_number_call, get_block_number, head_view, parsed_literal, reported_head,
    EthBlockNumberResponseView, FetchOutcome, FetchOutcomeView, RpcCall, RpcCallView,
};

verus! {

/// How failures of single providers bear on the whole.
#[derive(Clone, Copy, Debug, PartialEq, Eq, Structural)]
pub enum Mode {
    /// A provider that failed is listed without a block number.
    Lenient,
    /// A provider that failed makes the whole comparison fail.
    Strict,
}

impl Default for Mode {
    /// The lenient mode: one provider that is down does not hide the others.
    fn default() -> (mode: Mode)
        ensures
            mode == Mode::Lenient,
    {
        Mode::Lenient
    }
}

/// One line of the digest: a provider and the head it reported, if any.
#[derive(Debug, PartialEq, Eq)]
pub struct BlockNumberByProvider {
    pub provider: String,
    pub block_number: Option<u32>,
}

/// The mathematical content of a [`BlockNumberByProvider`].
pub struct BlockNumberByProviderView {
    pub provider: Seq<char>,
    pub block_number: Option<u32>,
}

impl View for BlockNumberByProvider {
    type V = BlockNumberByProviderView;

    open spec fn view(&self) -> BlockNumberByProviderView {
        BlockNumberByProviderView { provider: self.provider@, block_number: self.block_number }
    }
}

/// The views of a digest's lines, in the same order.
pub open spec fn entry_views(digest: Seq<BlockNumberByProvider>) -> Seq<
    BlockNumberByProviderView,
> {
    Seq::new(digest.len(), |i: int| digest[i]@)
}

/// The views of a list of calls, in the same order.
pub open spec fn call_views(calls: Seq<RpcCall>) -> Seq<RpcCallView> {
    Seq::new(calls.len(), |i: int| calls[i]@)
}

/// A provider together with what is known of its head: `None` while its
/// call is under way, then the block number or the error.
pub struct SlotView {
    pub provider: ProviderView,
    pub head: Option<Result<u32, AppErrorView>>,
}

#[derive(Debug)]
struct Slot {
    provider: Provider,
    head: Option<Result<u32, AppError>>,
}

impl View for Slot {
    type V = SlotView;

    closed spec fn view(&self) -> SlotView {
        SlotView {
            provider: self.provider@,
            head: match self.head {
                Some(head) => Some(head_view(head)),
                None => None,
            },
        }
    }
}

/// The state of one aggregation: a slot per registered provider, in
/// registration order.
#[derive(Debug)]
pub struct Aggregator {
    slots: Vec<Slot>,
}

impl View for Aggregator {
    type V = Seq<SlotView>;

    closed spec fn view(&self) -> Seq<SlotView> {
        Seq::new(self.slots@.len(), |i: int| self.slots@[i]@)
    }
}

/// The slots of an aggregation that has just begun: every call under way.
pub open spec fn begun(providers: Seq<ProviderView>) -> Seq<SlotView> {
    Seq::new(providers.len(), |i: int| SlotView { provider: providers[i], head: None })
}

/// The calls that an aggregation begins with: one per provider, in
/// registration order, each carrying its provider's position.
pub open spec fn planned_calls(providers: Seq<ProviderView>, timeout_ms: u64) -> Seq<
    RpcCallView,
> {
    Seq::new(providers.len(), |i: int| block_number_call(i, providers[i].url, timeout_ms))
}

/// The providers of the slots, in order.
pub open spec fn providers_of(slots: Seq<SlotView>) -> Seq<ProviderView> {
    Seq::new(slots.len(), |i: int| slots[i].provider)
}

/// Whether the call of the provider at `index` is still under way.
pub open spec fn awaited(slots: Seq<SlotView>, index: int) -> bool {
    0 <= index < slots.len() && slots[index].head is None
}

/// The slots after `head` has come in for the provider at `index`. An
/// outcome for a position that is not awaited changes nothing: no provider
/// is heard twice.
pub open spec fn recorded(slots: Seq<SlotView>, index: int, head: Result<u32, AppErrorView>) -> Seq<
    SlotView,
> {
    if awaited(slots, index) {
        slots.update(index, SlotView { provider: slots[index].provider, head: Some(head) })
    } else {
        slots
    }
}

/// Whether every call has ended.
pub open spec fn complete(slots: Seq<SlotView>) -> bool {
    forall|i: int| 0 <= i < slots.len() ==> (#[trigger] slots[i]).head is Some
}

/// Whether the provider's call has ended in an error.
pub open spec fn failed(slot: SlotView) -> bool {
    slot.head matches Some(Err(_))
}

/// The digest's line for one slot: the provider's name, and its block
/// number exactly as it was recorded, or none.
pub open spec fn entry_of(slot: SlotView) -> BlockNumberByProviderView {
    BlockNumberByProviderView {
        provider: slot.provider.name,
        block_number: match slot.head {
            Some(Ok(number)) => Some(number),
            _ => None,
        },
    }
}

/// The digest of the slots: a line per slot, in the slots' order.
pub open spec fn digest_of(slots: Seq<SlotView>) -> Seq<BlockNumberByProviderView> {
    Seq::new(slots.len(), |i: int| entry_of(slots[i]))
}

/// Whether `index` is the first position, in registration order, whose
/// provider failed.
pub open spec fn fails_first(slots: Seq<SlotView>, index: int) -> bool {
    &&& 0 <= index < slots.len()
    &&& failed(slots[index])
    &&& forall|j: int| 0 <= j < index ==> !failed(#[trigger] slots[j])
}

/// The first position whose provider failed, if any did.
pub open spec fn first_failure(slots: Seq<SlotView>) -> Option<int> {
    if exists|i: int| fails_first(slots, i) {
        Some(choose|i: int| fails_first(slots, i))
    } else {
        None
    }
}

/// What the comparison yields once every call has ended. Leniently, always
/// the digest. Strictly, the digest if no provider failed, and else the
/// error of the first provider that did.
pub open spec fn comparison(slots: Seq<SlotView>, mode: Mode) -> Result<
    Seq<BlockNumberByProviderView>,
    AppErrorView,
> {
    match (mode, first_failure(slots)) {
        (Mode::Strict, Some(index)) => Err(slots[index].head->Some_0->Err_0),
        _ => Ok(digest_of(slots)),
    }
}

/// At most one position fails first.
pub proof fn lemma_fails_first_unique(slots: Seq<SlotView>, i: int, j: int)
    requires
        fails_first(slots, i),
        fails_first(slots, j),
    ensures
        i == j,
{
    if i < j {
        assert(!failed(slots[i]));
    } else if j < i {
        assert(!failed(slots[j]));
    }
}

/// A position that fails first is the first failure.
pub proof fn lemma_first_failure_is(slots: Seq<SlotView>, index: int)
    requires
        fails_first(slots, index),
    ensures
        first_failure(slots) == Some(index),
{
    let chosen = choose|i: int| fails_first(slots, i);
    lemma_fails_first_unique(slots, chosen, index);
}

/// Where some provider failed, some provider failed first, no later than it.
pub proof fn lemma_first_failure_exists(slots: Seq<SlotView>, index: int) -> (first: int)
    requires
        0 <= index < slots.len(),
        failed(slots[index]),
    ensures
        fails_first(slots, first),
        first <= index,
        first_failure(slots) == Some(first),
    decreases index,
{
    if exists|j: int| 0 <= j < index && failed(#[trigger] slots[j]) {
        let earlier = choose|j: int| 0 <= j < index && failed(#[trigger] slots[j]);
        lemma_first_failure_exists(slots, earlier)
    } else {
        lemma_first_failure_is(slots, index);
        index
    }
}

/// Where no provider failed there is no first failure.
pub proof fn lemma_no_failure(slots: Seq<SlotView>)
    requires
        forall|i: int| 0 <= i < slots.len() ==> !failed(#[trigger] slots[i]),
    ensures
        first_failure(slots) is None,
{
}

impl Aggregator {
    /// Begins an aggregation over `providers`: returns its state together
    /// with the calls to make, one per provider. All of them are handed out
    /// here, at once, and nowhere else: each provider gets one attempt.
    pub fn start(providers: &Vec<Provider>, timeout_ms: u64) -> (fresh: (Aggregator, Vec<RpcCall>))
        ensures
            fresh.0@ == begun(provider_views(providers@)),
            call_views(fresh.1@) == planned_calls(provider_views(providers@), timeout_ms),
            fresh.0@.len() == providers@.len(),
            fresh.1@.len() == providers@.len(),
            forall|i: int|
                0 <= i < providers@.len() ==> (#[trigger] fresh.1@[i])@ == block_number_call(
                    i,
                    providers@[i].url@,
                    timeout_ms,
                ),
    {
        let mut slots: Vec<Slot> = Vec::new();
        let mut calls: Vec<RpcCall> = Vec::new();
        let mut i: usize = 0;
        while i < providers.len()
            invariant
                i <= providers.len(),
                slots.len() == i,
                calls.len() == i,
                forall|j: int|
                    0 <= j < i ==> (#[trigger] slots[j])@ == (SlotView {
                        provider: providers[j]@,
                        head: None,
                    }),
                forall|j: int|
                    0 <= j < i ==> (#[trigger] calls[j])@ == block_number_call(
                        j,
                        providers[j].url@,
                        timeout_ms,
                    ),
            decreases providers.len() - i,
        {
            let provider = &providers[i];
            calls.push(RpcCall::block_number(i, provider.url.as_str(), timeout_ms));
            slots.push(Slot { provider: provider.clone(), head: None });
            i += 1;
        }
        let aggregator = Aggregator { slots };
        assert(aggregator@ =~= begun(provider_views(providers@)));
        assert(call_views(calls@) =~= planned_calls(provider_views(providers@), timeout_ms));
        (aggregator, calls)
    }

    /// The number of providers in the aggregation.
    pub fn len(&self) -> (count: usize)
        ensures
            count == self@.len(),
    {
        self.slots.len()
    }

    /// Whether every call has ended, so that the heads can be compared.
    pub fn is_complete(&self) -> (done: bool)
        ensures
            done == complete(self@),
    {
        let mut i: usize = 0;
        while i < self.slots.len()
            invariant
                i <= self.slots.len(),
                forall|j: int| 0 <= j < i ==> (#[trigger] self@[j]).head is Some,
            decreases self.slots.len() - i,
        {
            if self.slots[i].head.is_none() {
                assert(self@[i as int].head is None);
                return false;
            }
            i += 1;
        }
        true
    }

    /// Files `head` under the provider at `index`, if its call is awaited.
    /// Returns whether it was.
    pub fn record_head(&mut self, index: usize, head: Result<u32, AppError>) -> (accepted: bool)
        ensures
            accepted == awaited(old(self)@, index as int),
            final(self)@ == recorded(old(self)@, index as int, head_view(head)),
    {
        if index < self.slots.len() && self.slots[index].head.is_none() {
            let provider = self.slots[index].provider.clone();
            self.slots.set(index, Slot { provider, head: Some(head) });
            assert(self@ =~= recorded(old(self)@, index as int, head_view(head)));
            true
        } else {
            assert(self@ =~= old(self)@);
            false
        }
    }

    /// Files the outcome of the call to the provider at `index`, if that
    /// call is awaited: the block number it reported or the error, as read
    /// against that provider's own URL. Returns whether it was awaited.
    pub fn record(&mut self, index: usize, outcome: FetchOutcome) -> (accepted: bool)
        ensures
            accepted == awaited(old(self)@, index as int),
            final(self)@ == recorded(
                old(self)@,
                index as int,
                reported_head(old(self)@[index as int].provider.url, outcome@),
            ),
    {
        if index < self.slots.len() && self.slots[index].head.is_none() {
            let head = get_block_number(self.slots[index].provider.url.as_str(), outcome);
            self.record_head(index, head)
        } else {
            assert(self@ =~= old(self)@);
            false
        }
    }

    /// Compares the heads once every call has ended.
    ///
    /// A digest has one line per provider, in registration order, whatever
    /// the order in which the outcomes came in, and each block number in it
    /// is the one recorded for that provider. Leniently the digest is always
    /// returned, and a provider that failed has no block number. Strictly
    /// the first failure in registration order is returned in place of the
    /// digest.
    pub fn compare_heads(&self, mode: Mode) -> (compared: Result<
        Vec<BlockNumberByProvider>,
        AppError,
    >)
        requires
            complete(self@),
        ensures
            match compared {
                Ok(digest) => comparison(self@, mode) == Ok::<
                    Seq<BlockNumberByProviderView>,
                    AppErrorView,
                >(entry_views(digest@)),
                Err(error) => comparison(self@, mode) == Err::<
                    Seq<BlockNumberByProviderView>,
                    AppErrorView,
                >(error@),
            },
            compared matches Ok(digest) ==> digest@.len() == self@.len() && forall|i: int|
                0 <= i < self@.len() ==> (#[trigger] digest@[i])@ == entry_of(self@[i]),
            compared is Err <==> mode == Mode::Strict && exists|i: int|
                0 <= i < self@.len() && failed(#[trigger] self@[i]),
    {
        let mut digest: Vec<BlockNumberByProvider> = Vec::new();
        let mut i: usize = 0;
        while i < self.slots.len()
            invariant
                i <= self.slots.len(),
                self@.len() == self.slots.len(),
                digest.len() == i,
                forall|j: int| 0 <= j < i ==> (#[trigger] digest[j])@ == entry_of(self@[j]),
                mode == Mode::Strict ==> forall|j: int|
                    0 <= j < i ==> !failed(#[trigger] self@[j]),
            decreases self.slots.len() - i,
        {
            let slot = &self.slots[i];
            assert(slot@ == self@[i as int]);
            let block_number = match &slot.head {
                Some(Ok(number)) => Some(*number),
                Some(Err(error)) => {
                    match mode {
                        Mode::Strict => {
                            proof {
                                lemma_first_failure_is(self@, i as int);
                            }
                            return Err(error.clone());
                        },
                        Mode::Lenient => None,
                    }
                },
                None => None,
            };
            digest.push(BlockNumberByProvider { provider: slot.provider.name.clone(), block_number });
            i += 1;
        }
        proof {
            if mode == Mode::Strict {
                lemma_no_failure(self@);
            }
            assert(entry_views(digest@) =~= digest_of(self@));
        }
        Ok(digest)
    }
}

/// One outcome as it comes in: the position of the provider it belongs to,
/// and the head.
pub type Arrival = (int, Result<u32, AppErrorView>);

/// The slots after the outcomes in `arrivals` have been recorded, one after
/// the other.
pub open spec fn replayed(slots: Seq<SlotView>, arrivals: Seq<Arrival>) -> Seq<SlotView>
    decreases arrivals.len(),
{
    if arrivals.len() == 0 {
        slots
    } else {
        recorded(replayed(slots, arrivals.drop_last()), arrivals.last().0, arrivals.last().1)
    }
}

/// Whether some outcome in `arrivals` belongs to the provider at `index`.
pub open spec fn heard_from(arrivals: Seq<Arrival>, index: int) -> bool {
    exists|k: int| 0 <= k < arrivals.len() && (#[trigger] arrivals[k]).0 == index
}

/// A fresh aggregation lists the registry, in registration order.
pub proof fn lemma_begun_lists_registry(providers: Seq<ProviderView>)
    ensures
        providers_of(begun(providers)) == providers,
        begun(providers).len() == providers.len(),
{
    assert(providers_of(begun(providers)) =~= providers);
}

/// Recording an outcome leaves the providers and their order as they were.
pub proof fn lemma_recorded_keeps_providers(
    slots: Seq<SlotView>,
    index: int,
    head: Result<u32, AppErrorView>,
)
    ensures
        providers_of(recorded(slots, index, head)) == providers_of(slots),
        recorded(slots, index, head).len() == slots.len(),
{
    assert(providers_of(recorded(slots, index, head)) =~= providers_of(slots));
}

/// However many outcomes come in, and in whatever order, the providers and
/// their order stay as they were.
pub proof fn lemma_replayed_keeps_providers(slots: Seq<SlotView>, arrivals: Seq<Arrival>)
    ensures
        providers_of(replayed(slots, arrivals)) == providers_of(slots),
        replayed(slots, arrivals).len() == slots.len(),
    decreases arrivals.len(),
{
    if arrivals.len() > 0 {
        lemma_replayed_keeps_providers(slots, arrivals.drop_last());
        lemma_recorded_keeps_providers(
            replayed(slots, arrivals.drop_last()),
            arrivals.last().0,
            arrivals.last().1,
        );
    }
}

/// A digest follows the registry. Whatever came in since the aggregation
/// began, and in whatever order, a digest has exactly one line per
/// registered provider, in registration order, under that provider's name.
pub proof fn lemma_digest_follows_registry(
    providers: Seq<ProviderView>,
    arrivals: Seq<Arrival>,
    mode: Mode,
)
    requires
        comparison(replayed(begun(providers), arrivals), mode) is Ok,
    ensures
        comparison(replayed(begun(providers), arrivals), mode)->Ok_0.len() == providers.len(),
        forall|i: int|
            0 <= i < providers.len() ==> (#[trigger] comparison(
                replayed(begun(providers), arrivals),
                mode,
            )->Ok_0[i]).provider == providers[i].name,
{
    let slots = replayed(begun(providers), arrivals);
    lemma_replayed_keeps_providers(begun(providers), arrivals);
    lemma_begun_lists_registry(providers);
    assert forall|i: int| 0 <= i < providers.len() implies (#[trigger] comparison(
        slots,
        mode,
    )->Ok_0[i]).provider == providers[i].name by {
        assert(providers_of(slots)[i] == slots[i].provider);
    }
}

/// Outcomes for two different providers may come in either order: the
/// slots end up the same.
pub proof fn lemma_recording_commutes(
    slots: Seq<SlotView>,
    first: Arrival,
    second: Arrival,
)
    requires
        first.0 != second.0,
    ensures
        recorded(recorded(slots, first.0, first.1), second.0, second.1) == recorded(
            recorded(slots, second.0, second.1),
            first.0,
            first.1,
        ),
{
    assert(recorded(recorded(slots, first.0, first.1), second.0, second.1) =~= recorded(
        recorded(slots, second.0, second.1),
        first.0,
        first.1,
    ));
}

/// Outcomes are filed by origin, not by arrival. Where each provider is
/// heard from at most once, the slots after any run of arrivals hold, for
/// every arrival, its head at its own provider's position, and the
/// providers that were not heard from are still awaited. So the order of
/// the arrivals leaves no trace.
pub proof fn lemma_filed_by_origin(providers: Seq<ProviderView>, arrivals: Seq<Arrival>)
    requires
        forall|k: int|
            0 <= k < arrivals.len() ==> 0 <= (#[trigger] arrivals[k]).0 < providers.len(),
        forall|k: int, l: int|
            0 <= k < l < arrivals.len() ==> (#[trigger] arrivals[k]).0 != (
            #[trigger] arrivals[l]).0,
    ensures
        forall|k: int|
            0 <= k < arrivals.len() ==> replayed(begun(providers), arrivals)[(
            #[trigger] arrivals[k]).0].head == Some(arrivals[k].1),
        forall|i: int|
            0 <= i < providers.len() && !heard_from(arrivals, i) ==> (#[trigger] replayed(
                begun(providers),
                arrivals,
            )[i]).head is None,
    decreases arrivals.len(),
{
    let now = replayed(begun(providers), arrivals);
    if arrivals.len() > 0 {
        let earlier = arrivals.drop_last();
        let before = replayed(begun(providers), earlier);
        let (index, head) = arrivals.last();
        assert forall|k: int| 0 <= k < earlier.len() implies 0 <= (#[trigger] earlier[k]).0
            < providers.len() by {
            assert(earlier[k] == arrivals[k]);
        }
        assert forall|k: int, l: int| 0 <= k < l < earlier.len() implies (#[trigger] earlier[k]).0
            != (#[trigger] earlier[l]).0 by {
            assert(earlier[k] == arrivals[k]);
            assert(earlier[l] == arrivals[l]);
        }
        lemma_filed_by_origin(providers, earlier);
        lemma_replayed_keeps_providers(begun(providers), earlier);
        assert(!heard_from(earlier, index)) by {
            if heard_from(earlier, index) {
                let k = choose|k: int| 0 <= k < earlier.len() && (#[trigger] earlier[k]).0 == index;
                assert(earlier[k] == arrivals[k]);
                assert(arrivals[k].0 != arrivals[arrivals.len() - 1].0);
            }
        }
        assert(before[index].head is None);
        assert(awaited(before, index));
        assert forall|k: int| 0 <= k < arrivals.len() implies now[(#[trigger] arrivals[k]).0].head
            == Some(arrivals[k].1) by {
            if k < arrivals.len() - 1 {
                assert(earlier[k] == arrivals[k]);
                assert(arrivals[k].0 != arrivals[arrivals.len() - 1].0);
            }
        }
        assert forall|i: int| 0 <= i < providers.len() && !heard_from(arrivals, i) implies (
        #[trigger] now[i]).head is None by {
            assert(arrivals[arrivals.len() - 1].0 != i);
            if heard_from(earlier, i) {
                let k = choose|k: int| 0 <= k < earlier.len() && (#[trigger] earlier[k]).0 == i;
                assert(arrivals[k] == earlier[k]);
            }
        }
    }
}

/// A digest has exactly one line per provider, in the slots' order, and
/// each line bears its provider's name.
pub proof fn lemma_one_line_per_provider(slots: Seq<SlotView>, mode: Mode)
    requires
        comparison(slots, mode) is Ok,
    ensures
        comparison(slots, mode)->Ok_0.len() == slots.len(),
        forall|i: int|
            0 <= i < slots.len() ==> (#[trigger] comparison(slots, mode)->Ok_0[i]).provider
                == providers_of(slots)[i].name,
{
}

/// A provider that failed has no block number in a lenient digest, and
/// makes a strict comparison an error.
pub proof fn lemma_failure_shows(slots: Seq<SlotView>, index: int)
    requires
        0 <= index < slots.len(),
        failed(slots[index]),
    ensures
        comparison(slots, Mode::Lenient) == Ok::<Seq<BlockNumberByProviderView>, AppErrorView>(
            digest_of(slots),
        ),
        digest_of(slots)[index].block_number is None,
        comparison(slots, Mode::Strict) is Err,
{
    let first = lemma_first_failure_exists(slots, index);
}

/// A call that ran into its timeout leaves its provider without a block
/// number in a lenient digest, and makes a strict comparison an error.
pub proof fn lemma_timeout_shows(slots: Seq<SlotView>, index: int)
    requires
        0 <= index < slots.len(),
        slots[index].head == Some(
            reported_head(
                slots[index].provider.url,
                FetchOutcomeView::Failed(FetchFailure::Timeout),
            ),
        ),
    ensures
        comparison(slots, Mode::Lenient) == Ok::<Seq<BlockNumberByProviderView>, AppErrorView>(
            digest_of(slots),
        ),
        digest_of(slots)[index].block_number is None,
        comparison(slots, Mode::Strict) is Err,
{
    lemma_failure_shows(slots, index);
}

/// A response whose `result` is no number leaves its provider without a
/// block number in a lenient digest, and makes a strict comparison an error.
pub proof fn lemma_unreadable_result_shows(
    slots: Seq<SlotView>,
    index: int,
    response: EthBlockNumberResponseView,
)
    requires
        0 <= index < slots.len(),
        parsed_literal(response.result) is None,
        slots[index].head == Some(
            reported_head(slots[index].provider.url, FetchOutcomeView::Replied(response)),
        ),
    ensures
        comparison(slots, Mode::Lenient) == Ok::<Seq<BlockNumberByProviderView>, AppErrorView>(
            digest_of(slots),
        ),
        digest_of(slots)[index].block_number is None,
        comparison(slots, Mode::Strict) is Err,
{
    lemma_failure_shows(slots, index);
}

/// Block numbers reach the digest as they were recorded. Two providers
/// that reported different heads are both listed, each with its own: the
/// digest settles nothing between them.
pub proof fn lemma_heads_listed_verbatim(
    slots: Seq<SlotView>,
    mode: Mode,
    first: int,
    second: int,
    first_head: u32,
    second_head: u32,
)
    requires
        0 <= first < slots.len(),
        0 <= second < slots.len(),
        slots[first].head == Some(Ok::<u32, AppErrorView>(first_head)),
        slots[second].head == Some(Ok::<u32, AppErrorView>(second_head)),
        comparison(slots, mode) is Ok,
    ensures
        comparison(slots, mode)->Ok_0[first].block_number == Some(first_head),
        comparison(slots, mode)->Ok_0[second].block_number == Some(second_head),
{
}

} // verus!
