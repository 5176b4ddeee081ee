//! Sources: where items arrive, and when they may leave.
//!
//! A source hands out items and keeps each of them in its backing store
//! until the item is confirmed. What reads a directory or a remote host is
//! not here: it reports what it found, and the source decides what follows.

pub mod file;
pub mod ssh;

use vstd::prelude::*;
use crate::error::{ConfigError, SourceError, WorkerExit};
use crate::sources::ssh::{
    connection_spec, parse_connection_string, RemoteParameters, RemoteParametersView,
};
use crate::text::{contains_char, starts_with_char};

verus! {

/// An item of a source: its contents, and the id under which it is confirmed.
#[derive(Debug)]
pub struct Data {
    pub contents: Vec<u8>,
    pub id: String,
}

/// An item as plain values.
pub struct DataView {
    pub contents: Seq<u8>,
    pub id: Seq<char>,
}

impl View for Data {
    type V = DataView;

    open spec fn view(&self) -> DataView {
        DataView { contents: self.contents@, id: self.id@ }
    }
}

/// Which backend a source specification selects.
#[derive(Debug, PartialEq, Eq)]
pub enum SourceSpec {
    /// A local directory that is watched.
    Directory(String),
    /// A remote directory that is polled.
    Remote(RemoteParameters),
}

/// A source specification as plain text.
pub enum SourceSpecView {
    Directory(Seq<char>),
    Remote(RemoteParametersView),
}

impl View for SourceSpec {
    type V = SourceSpecView;

    open spec fn view(&self) -> SourceSpecView {
        match self {
            SourceSpec::Directory(path) => SourceSpecView::Directory(path@),
            SourceSpec::Remote(parameters) => SourceSpecView::Remote(parameters@),
        }
    }
}

/// What a source specification selects: a text that begins with `/` is a
/// local directory; any other text that holds a `:` is a remote directory
/// written `[user@]host:path`; anything else is refused.
pub open spec fn source_spec(s: Seq<char>) -> Result<SourceSpecView, ConfigError> {
    if s.len() > 0 && s[0] == '/' {
        Ok(SourceSpecView::Directory(s))
    } else if s.contains(':') {
        match connection_spec(s) {
            Ok(parameters) => Ok(SourceSpecView::Remote(parameters)),
            Err(e) => Err(e),
        }
    } else {
        Err(ConfigError::InvalidSourceSpec)
    }
}

/// Reads a source specification.
pub fn from_string(s: &str) -> (spec: Result<SourceSpec, ConfigError>)
    ensures
        match source_spec(s@) {
            Ok(selected) => spec matches Ok(found) && found@ == selected,
            Err(e) => spec == Err::<SourceSpec, _>(e),
        },
{
    if starts_with_char(s, '/') {
        Ok(SourceSpec::Directory(s.to_owned()))
    } else if contains_char(s, ':') {
        match parse_connection_string(s) {
            Ok(parameters) => Ok(SourceSpec::Remote(parameters)),
            Err(e) => Err(e),
        }
    } else {
        Err(ConfigError::InvalidSourceSpec)
    }
}

/// Where a source stands.
#[derive(Clone, Copy, Debug, PartialEq, Eq)]
pub enum SourceState {
    /// The backend has not been reached yet.
    Idle,
    /// The backend is reachable and yields items.
    Ready,
    /// The backend was lost. Items that are out can still be confirmed.
    Degraded,
    /// Terminal: the source does nothing more.
    Failed,
}

/// What the backend had when it was asked for the next item.
#[derive(Debug)]
pub enum Arrival {
    /// An item: its name, if it has one, and its contents.
    Item { name: Option<String>, contents: Vec<u8> },
    /// The worker of the backend has ended.
    WorkerEnded(WorkerExit),
    /// The backend could not be read.
    Unreachable,
}

/// An arrival as plain values.
pub enum ArrivalView {
    Item { name: Option<Seq<char>>, contents: Seq<u8> },
    WorkerEnded(WorkerExit),
    Unreachable,
}

impl View for Arrival {
    type V = ArrivalView;

    open spec fn view(&self) -> ArrivalView {
        match self {
            Arrival::Item { name, contents } => ArrivalView::Item {
                name: match name {
                    Some(text) => Some(text@),
                    None => None,
                },
                contents: contents@,
            },
            Arrival::WorkerEnded(exit) => ArrivalView::WorkerEnded(*exit),
            Arrival::Unreachable => ArrivalView::Unreachable,
        }
    }
}

/// A source as plain values: where it stands, and the ids of the items
/// that it has handed out and that are not confirmed yet.
pub struct SourceView {
    pub state: SourceState,
    pub in_flight: Set<Seq<char>>,
}

/// The source after it was told whether its backend was reached.
pub open spec fn after_connected(source: SourceView, reached: bool) -> SourceView {
    SourceView {
        state: if source.state == SourceState::Idle {
            if reached {
                SourceState::Ready
            } else {
                SourceState::Failed
            }
        } else {
            source.state
        },
        ..source
    }
}

/// What a request for the next item returns, by what the backend had.
///
/// Only a ready source yields items. An item without a name is refused and
/// stays where it is. The loss of the backend is reported with its cause.
pub open spec fn next_result(source: SourceView, arrival: ArrivalView) -> Result<
    DataView,
    SourceError,
> {
    match source.state {
        SourceState::Idle => Err(SourceError::NotReady),
        SourceState::Degraded | SourceState::Failed => Err(SourceError::Unavailable),
        SourceState::Ready => match arrival {
            ArrivalView::Item { name: Some(id), contents } => Ok(DataView { contents, id }),
            ArrivalView::Item { name: None, contents } => Err(SourceError::MissingName),
            ArrivalView::WorkerEnded(exit) => Err(SourceError::WorkerEnded(exit)),
            ArrivalView::Unreachable => Err(SourceError::Unreachable),
        },
    }
}

/// The source after a request for the next item.
///
/// An item that is handed out is in flight from then on. A ready source
/// that loses its backend is degraded; a degraded source that is asked
/// again has failed for good.
pub open spec fn after_next(source: SourceView, arrival: ArrivalView) -> SourceView {
    match source.state {
        SourceState::Idle | SourceState::Failed => source,
        SourceState::Degraded => SourceView { state: SourceState::Failed, ..source },
        SourceState::Ready => match arrival {
            ArrivalView::Item { name: Some(id), contents } => SourceView {
                in_flight: source.in_flight.insert(id),
                ..source
            },
            ArrivalView::Item { name: None, contents } => source,
            ArrivalView::WorkerEnded(_) | ArrivalView::Unreachable => SourceView {
                state: SourceState::Degraded,
                ..source
            },
        },
    }
}

/// What a confirmation returns: it is taken only for an item that is in
/// flight, by a source that is ready or degraded.
pub open spec fn confirm_result(source: SourceView, id: Seq<char>) -> Result<(), SourceError> {
    match source.state {
        SourceState::Idle => Err(SourceError::NotReady),
        SourceState::Failed => Err(SourceError::Unavailable),
        SourceState::Ready | SourceState::Degraded => if source.in_flight.contains(id) {
            Ok(())
        } else {
            Err(SourceError::UnknownId)
        },
    }
}

/// The source after a confirmation: an item that was confirmed is in
/// flight no more; a confirmation that was refused changes nothing.
pub open spec fn after_confirm(source: SourceView, id: Seq<char>) -> SourceView {
    if confirm_result(source, id) is Ok {
        SourceView { in_flight: source.in_flight.remove(id), ..source }
    } else {
        source
    }
}

/// The ledger of a source: where it stands and which items are out.
#[derive(Debug)]
pub struct Source {
    state: SourceState,
    pending: Vec<String>,
}

impl View for Source {
    type V = SourceView;

    closed spec fn view(&self) -> SourceView {
        SourceView {
            state: self.state,
            in_flight: Set::new(
                |id: Seq<char>|
                    exists|i: int| 0 <= i < self.pending@.len() && #[trigger] self.pending@[i]@ == id,
            ),
        }
    }
}

impl Source {
    /// Whether the ledger is sound: no id is listed twice. Every source
    /// that this library makes is, and stays so.
    pub closed spec fn wf(&self) -> bool {
        forall|i: int, j: int|
            0 <= i < j < self.pending@.len() ==> #[trigger] self.pending@[i]@
                != #[trigger] self.pending@[j]@
    }

    /// A source whose backend has not been reached yet. Nothing is in flight.
    pub fn new() -> (source: Source)
        ensures
            source.wf(),
            source@.state == SourceState::Idle,
            source@.in_flight == Set::<Seq<char>>::empty(),
    {
        let source = Source { state: SourceState::Idle, pending: Vec::new() };
        assert(source@.in_flight =~= Set::<Seq<char>>::empty());
        source
    }

    /// Where the source stands.
    pub fn state(&self) -> (state: SourceState)
        ensures
            state == self@.state,
    {
        self.state
    }

    /// Records whether the backend was reached: an idle source is ready if
    /// it was, and has failed for good if it was not. A source that is not
    /// idle stays as it is.
    pub fn connected(&mut self, reached: bool)
        requires
            old(self).wf(),
        ensures
            final(self).wf(),
            final(self)@ == after_connected(old(self)@, reached),
    {
        if let SourceState::Idle = self.state {
            self.state = if reached {
                SourceState::Ready
            } else {
                SourceState::Failed
            };
        }
    }

    /// Where `id` stands among the items in flight.
    fn position(&self, id: &String) -> (at: Option<usize>)
        ensures
            match at {
                Some(i) => i < self.pending@.len() && self.pending@[i as int]@ == id@,
                None => !self@.in_flight.contains(id@),
            },
    {
        let mut i: usize = 0;
        while i < self.pending.len()
            invariant
                i <= self.pending@.len(),
                forall|j: int| 0 <= j < i ==> self.pending@[j]@ != id@,
            decreases self.pending.len() - i,
        {
            if self.pending[i] == *id {
                return Some(i);
            }
            i += 1;
        }
        None
    }

    /// Hands out the next item, given what the backend had.
    ///
    /// The item stays in the backing store: it is in flight until it is
    /// confirmed, and is handed out again if it arrives again.
    pub fn next(&mut self, arrival: Arrival) -> (item: Result<Data, SourceError>)
        requires
            old(self).wf(),
        ensures
            final(self).wf(),
            final(self)@ == after_next(old(self)@, arrival@),
            match next_result(old(self)@, arrival@) {
                Ok(data) => item matches Ok(found) && found@ == data,
                Err(e) => item == Err::<Data, _>(e),
            },
    {
        match self.state {
            SourceState::Idle => Err(SourceError::NotReady),
            SourceState::Failed => Err(SourceError::Unavailable),
            SourceState::Degraded => {
                self.state = SourceState::Failed;
                Err(SourceError::Unavailable)
            },
            SourceState::Ready => match arrival {
                Arrival::Item { name: Some(id), contents } => {
                    let ghost before = self@.in_flight;
                    let ghost listed = self.pending@;
                    match self.position(&id) {
                        Some(at) => {
                            assert(listed[at as int]@ == id@);
                            assert(before.contains(id@));
                            assert(before =~= before.insert(id@));
                        },
                        None => {
                            self.pending.push(id.clone());
                            let ghost grown = self.pending@;
                            assert(grown[listed.len() as int]@ == id@);
                            assert forall|text: Seq<char>|
                                self@.in_flight.contains(text) <==> before.insert(id@).contains(
                                    text,
                                ) by {
                                if self@.in_flight.contains(text) {
                                    let i = choose|i: int|
                                        0 <= i < grown.len() && #[trigger] grown[i]@ == text;
                                    if i < listed.len() {
                                        assert(listed[i]@ == text);
                                    }
                                }
                                if before.contains(text) {
                                    let i = choose|i: int|
                                        0 <= i < listed.len() && #[trigger] listed[i]@ == text;
                                    assert(grown[i]@ == text);
                                }
                            }
                            assert(self@.in_flight =~= before.insert(id@));
                        },
                    }
                    Ok(Data { contents, id })
                },
                Arrival::Item { name: None, contents } => Err(SourceError::MissingName),
                Arrival::WorkerEnded(exit) => {
                    self.state = SourceState::Degraded;
                    Err(SourceError::WorkerEnded(exit))
                },
                Arrival::Unreachable => {
                    self.state = SourceState::Degraded;
                    Err(SourceError::Unreachable)
                },
            },
        }
    }

    /// Takes the confirmation of the item `id`: the caller may now remove it
    /// from the backing store.
    ///
    /// An id that was never handed out, or that was confirmed already, is an
    /// error, and so is any id once the source has failed.
    pub fn confirm(&mut self, id: &str) -> (done: Result<(), SourceError>)
        requires
            old(self).wf(),
        ensures
            final(self).wf(),
            final(self)@ == after_confirm(old(self)@, id@),
            done == confirm_result(old(self)@, id@),
    {
        match self.state {
            SourceState::Idle => Err(SourceError::NotReady),
            SourceState::Failed => Err(SourceError::Unavailable),
            SourceState::Ready | SourceState::Degraded => {
                let wanted = id.to_owned();
                match self.position(&wanted) {
                    None => Err(SourceError::UnknownId),
                    Some(at) => {
                        let ghost before = self.pending@;
                        let ghost known = self@.in_flight;
                        self.pending.remove(at);
                        assert(self@.in_flight =~= known.remove(id@)) by {
                            let after = self.pending@;
                            assert(after == before.remove(at as int));
                            assert forall|text: Seq<char>|
                                self@.in_flight.contains(text) <==> known.remove(id@).contains(
                                    text,
                                ) by {
                                if self@.in_flight.contains(text) {
                                    let i = choose|i: int|
                                        0 <= i < after.len() && #[trigger] after[i]@ == text;
                                    if i < at {
                                        assert(before[i]@ == text);
                                    } else {
                                        assert(before[i + 1]@ == text);
                                    }
                                }
                                if known.remove(id@).contains(text) {
                                    let i = choose|i: int|
                                        0 <= i < before.len() && #[trigger] before[i]@ == text;
                                    if i < at {
                                        assert(after[i]@ == text);
                                    } else {
                                        assert(after[i - 1]@ == text);
                                    }
                                }
                            }
                        }
                        Ok(())
                    },
                }
            },
        }
    }
}

/// One call on a source, with what it was given.
pub enum Call {
    /// `connected`, with whether the backend was reached.
    Connected(bool),
    /// `next`, with what the backend had.
    Next(ArrivalView),
    /// `confirm`, with the id.
    Confirm(Seq<char>),
}

/// A source as it is made: idle, with nothing in flight.
pub open spec fn initial() -> SourceView {
    SourceView { state: SourceState::Idle, in_flight: Set::empty() }
}

/// The source after one call.
pub open spec fn after_call(source: SourceView, call: Call) -> SourceView {
    match call {
        Call::Connected(reached) => after_connected(source, reached),
        Call::Next(arrival) => after_next(source, arrival),
        Call::Confirm(id) => after_confirm(source, id),
    }
}

/// The source after a history of calls, from the day it was made.
pub open spec fn after_calls(calls: Seq<Call>) -> SourceView
    decreases calls.len(),
{
    if calls.len() == 0 {
        initial()
    } else {
        after_call(after_calls(calls.drop_last()), calls.last())
    }
}

/// Whether the call at `at` handed out the item `id`.
pub open spec fn hands_out(calls: Seq<Call>, at: int, id: Seq<char>) -> bool {
    &&& 0 <= at < calls.len()
    &&& calls[at] matches Call::Next(arrival)
    &&& next_result(after_calls(calls.take(at)), arrival) matches Ok(data)
    &&& data.id == id
}

/// Whether the call at `at` was a confirmation of `id` that was taken.
pub open spec fn takes_confirmation(calls: Seq<Call>, at: int, id: Seq<char>) -> bool {
    &&& 0 <= at < calls.len()
    &&& calls[at] == Call::Confirm(id)
    &&& confirm_result(after_calls(calls.take(at)), id) is Ok
}

/// Whether `id` was handed out at some call and no confirmation of it has
/// been taken since.
pub open spec fn outstanding(calls: Seq<Call>, id: Seq<char>) -> bool {
    exists|at: int|
        #[trigger] hands_out(calls, at, id) && forall|later: int|
            at < later < calls.len() ==> !#[trigger] takes_confirmation(calls, later, id)
}

/// What happened before the last call is told alike by the history with
/// and without that call.
proof fn lemma_earlier_calls(calls: Seq<Call>, at: int, id: Seq<char>)
    requires
        0 <= at < calls.len() - 1,
    ensures
        hands_out(calls, at, id) == hands_out(calls.drop_last(), at, id),
        takes_confirmation(calls, at, id) == takes_confirmation(calls.drop_last(), at, id),
{
    assert(calls.take(at) =~= calls.drop_last().take(at));
}

/// The items in flight are those that were handed out and have not been
/// confirmed since, whatever the history of the source.
pub proof fn lemma_in_flight_is_outstanding(calls: Seq<Call>, id: Seq<char>)
    ensures
        after_calls(calls).in_flight.contains(id) <==> outstanding(calls, id),
    decreases calls.len(),
{
    if calls.len() > 0 {
        let earlier = calls.drop_last();
        let last = calls.last();
        let n = earlier.len() as int;
        let before = after_calls(earlier);
        lemma_in_flight_is_outstanding(earlier, id);
        assert(calls.take(n) =~= earlier);
        assert forall|at: int| 0 <= at < n implies hands_out(calls, at, id) == hands_out(
            earlier,
            at,
            id,
        ) && takes_confirmation(calls, at, id) == takes_confirmation(earlier, at, id) by {
            lemma_earlier_calls(calls, at, id);
        }
        let issued = hands_out(calls, n, id);
        let confirmed = takes_confirmation(calls, n, id);
        assert(after_calls(calls).in_flight.contains(id) <==> (issued || (before.in_flight.contains(
            id,
        ) && !confirmed)));
        if outstanding(calls, id) {
            let at = choose|at: int|
                #[trigger] hands_out(calls, at, id) && forall|later: int|
                    at < later < calls.len() ==> !#[trigger] takes_confirmation(calls, later, id);
            if at < n {
                assert(!takes_confirmation(calls, n, id));
                assert(hands_out(earlier, at, id));
                assert forall|later: int| at < later < earlier.len() implies !#[trigger] takes_confirmation(
                    earlier,
                    later,
                    id,
                ) by {
                    assert(!takes_confirmation(calls, later, id));
                }
                assert(outstanding(earlier, id));
            }
        }
        if issued {
            assert(outstanding(calls, id));
        }
        if outstanding(earlier, id) && !confirmed {
            let at = choose|at: int|
                #[trigger] hands_out(earlier, at, id) && forall|later: int|
                    at < later < earlier.len() ==> !#[trigger] takes_confirmation(
                        earlier,
                        later,
                        id,
                    );
            assert(hands_out(calls, at, id));
            assert forall|later: int| at < later < calls.len() implies !#[trigger] takes_confirmation(
                calls,
                later,
                id,
            ) by {
                if later < n {
                    assert(!takes_confirmation(earlier, later, id));
                }
            }
            assert(outstanding(calls, id));
        }
    } else {
        assert(!outstanding(calls, id)) by {
            assert forall|at: int| !hands_out(calls, at, id) by {}
        }
    }
}

/// A confirmation is taken only for an id that was handed out and has not
/// been confirmed since: an id that the source never handed out is refused,
/// and so is one whose confirmation it has taken already.
pub proof fn lemma_confirm_only_outstanding(calls: Seq<Call>, id: Seq<char>)
    ensures
        confirm_result(after_calls(calls), id) is Ok ==> outstanding(calls, id),
        !outstanding(calls, id) ==> confirm_result(after_calls(calls), id) is Err,
{
    lemma_in_flight_is_outstanding(calls, id);
}

/// A second confirmation of the same id is refused, unless the item was
/// handed out again in between.
pub proof fn lemma_confirm_twice(source: SourceView, id: Seq<char>)
    requires
        confirm_result(source, id) is Ok,
    ensures
        confirm_result(after_confirm(source, id), id) == Err::<(), _>(SourceError::UnknownId),
{
}

/// A source that was just made takes no confirmation.
pub proof fn lemma_confirm_on_new(id: Seq<char>)
    ensures
        confirm_result(initial(), id) is Err,
{
}

/// An item that was handed out stays in flight until its own confirmation
/// is taken: neither another request nor the confirmation of another item
/// lets go of it.
pub proof fn lemma_in_flight_until_confirmed(source: SourceView, id: Seq<char>, call: Call)
    requires
        source.in_flight.contains(id),
        !(call == Call::Confirm(id) && confirm_result(source, id) is Ok),
    ensures
        after_call(source, call).in_flight.contains(id),
{
}

} // verus!
