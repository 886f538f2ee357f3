//! The schedule of fetches: at every tick one request for each symbol.

use vstd::prelude::*;
use crate::messages::QuoteRequest;

verus! {

/// The time between two rounds of requests, in milliseconds.
pub const INTERVAL_MILLIS: u64 = 30000;

/// The parts of a text between its commas, in their order. A text without a
/// comma is one part, the empty text too.
pub open spec fn comma_parts(text: Seq<char>) -> Seq<Seq<char>>
    decreases text.len(),
{
    if text.len() == 0 {
        seq![Seq::<char>::empty()]
    } else {
        let before = comma_parts(text.drop_last());
        if text.last() == ',' {
            before.push(Seq::<char>::empty())
        } else {
            before.drop_last().push(before.last().push(text.last()))
        }
    }
}

/// The texts that a sequence of strings holds.
pub open spec fn texts(strings: Seq<String>) -> Seq<Seq<char>> {
    strings.map_values(|s: String| s@)
}

/// A text always has at least one part.
pub proof fn lemma_comma_parts_not_empty(text: Seq<char>)
    ensures
        comma_parts(text).len() > 0,
    decreases text.len(),
{
    if text.len() > 0 {
        lemma_comma_parts_not_empty(text.drop_last());
    }
}

/// The texts of `parts` in their order, with a comma between each two.
pub open spec fn joined_by_commas(parts: Seq<Seq<char>>) -> Seq<char>
    decreases parts.len(),
{
    if parts.len() == 0 {
        Seq::empty()
    } else if parts.len() == 1 {
        parts[0]
    } else {
        joined_by_commas(parts.drop_last()) + seq![','] + parts.last()
    }
}

/// The parts of a text hold no comma, and with commas put between them they
/// make up the text again.
pub proof fn lemma_comma_parts_make_up_text(text: Seq<char>)
    ensures
        joined_by_commas(comma_parts(text)) == text,
        forall|i: int|
            0 <= i < comma_parts(text).len() ==> !(#[trigger] comma_parts(text)[i]).contains(','),
    decreases text.len(),
{
    let parts = comma_parts(text);
    if text.len() > 0 {
        let before = comma_parts(text.drop_last());
        lemma_comma_parts_make_up_text(text.drop_last());
        lemma_comma_parts_not_empty(text.drop_last());
        if text.last() == ',' {
            assert(parts.drop_last() =~= before);
            assert forall|i: int| 0 <= i < parts.len() implies !(#[trigger] parts[i]).contains(
                ',',
            ) by {
                if i < before.len() {
                    assert(parts[i] == before[i]);
                }
            }
        } else {
            let grown = before.last().push(text.last());
            if before.len() > 1 {
                assert(parts.drop_last() =~= before.drop_last());
                assert(joined_by_commas(parts) =~= joined_by_commas(before).push(text.last()));
            }
            assert forall|i: int| 0 <= i < parts.len() implies !(#[trigger] parts[i]).contains(
                ',',
            ) by {
                if i < before.len() - 1 {
                    assert(parts[i] == before[i]);
                } else if grown.contains(',') {
                    let k = choose|k: int| 0 <= k < grown.len() && grown[k] == ',';
                    assert(before.last()[k] == ',');
                }
            }
        }
    }
}

/// The symbols that a list names: the parts between its commas.
pub fn split_symbols(list: &str) -> (symbols: Vec<String>)
    ensures
        texts(symbols@) == comma_parts(list@),
{
    let mut symbols: Vec<String> = Vec::new();
    let mut current = String::new();
    for c in it: list.chars()
        invariant
            it.seq() == list@,
            texts(symbols@).push(current@) == comma_parts(list@.take(it.index() as int)),
    {
        let ghost seen = list@.take(it.index() as int);
        assert(list@.take(it.index() + 1).drop_last() =~= seen);
        if c == ',' {
            symbols.push(current);
            current = String::new();
            assert(texts(symbols@).push(current@) =~= comma_parts(seen).push(
                Seq::<char>::empty(),
            ));
        } else {
            current.push(c);
        }
    }
    assert(list@.take(list@.len() as int) =~= list@);
    symbols.push(current);
    symbols
}

/// The time that a text names as a date and time with its offset from UTC,
/// in whole seconds since the Unix epoch; nothing for a text that names none.
pub uninterp spec fn utc_seconds(text: Seq<char>) -> Option<i64>;

/// `from_str` of chrono's `DateTime<Utc>`, reached through `str::parse`,
/// which reads a date and time with its offset from UTC or fails, and
/// `DateTime::timestamp` on the time read. What they return depends on the
/// text alone; the contract gives that result its name and says nothing of
/// what it holds.
#[verifier::external_body]
fn parse_utc_seconds(text: &str) -> (seconds: Option<i64>)
    ensures
        seconds == utc_seconds(text@),
{
    match text.parse::<chrono::DateTime<chrono::Utc>>() {
        Ok(moment) => Some(moment.timestamp()),
        Err(_) => None,
    }
}

/// What the scheduler waits for.
#[derive(Clone, Copy, Debug, PartialEq, Eq)]
pub enum Phase {
    /// The next tick.
    Waiting,
    /// The outcome of publishing the request for the symbol at `next`, in
    /// the round of the tick at `now`.
    Publishing { now: i64, next: usize },
    /// Nothing: a request could not be published.
    Stopped,
}

/// What has happened.
#[derive(Clone, Copy, Debug, PartialEq, Eq)]
pub enum Event {
    /// The interval has passed; it is `now` seconds after the Unix epoch.
    Tick { now: i64 },
    /// The request was published.
    Published,
    /// The request could not be published.
    PublishFailed,
}

/// What is to be done next.
#[derive(Clone, Debug, PartialEq, Eq)]
pub enum Command {
    /// Let this many milliseconds pass, then report a tick.
    Sleep { millis: u64 },
    /// Publish the request and report how that went.
    Publish(QuoteRequest),
    /// End the schedule.
    Stop,
}

/// The schedule of fetches for a list of symbols.
#[derive(Clone, Debug, PartialEq, Eq)]
pub struct Scheduler {
    pub symbols: Vec<String>,
    /// The start of every period that is fetched, in seconds since the Unix
    /// epoch.
    pub from: i64,
}

/// The phase after `event` has happened in `phase`, for a schedule of
/// `symbols` symbols. A tick begins a round with the first symbol; each
/// request published leads to the next symbol and the last to waiting; one
/// that could not be published stops the schedule. An event that the phase
/// does not wait for changes nothing.
pub open spec fn phase_after(symbols: nat, phase: Phase, event: Event) -> Phase {
    match (phase, event) {
        (Phase::Waiting, Event::Tick { now }) => if symbols > 0 {
            Phase::Publishing { now, next: 0 }
        } else {
            Phase::Waiting
        },
        (Phase::Publishing { now, next }, Event::Published) => if next + 1 < symbols {
            Phase::Publishing { now, next: (next + 1) as usize }
        } else {
            Phase::Waiting
        },
        (Phase::Publishing { .. }, Event::PublishFailed) => Phase::Stopped,
        _ => phase,
    }
}

impl Scheduler {
    /// The schedule for the symbols that `symbols` lists between commas,
    /// with every period starting at the time that `from` names. There is
    /// none where `from` names no time.
    pub fn new(symbols: &str, from: &str) -> (scheduler: Option<Self>)
        ensures
            match utc_seconds(from@) {
                Some(start) => scheduler matches Some(made) && made.from == start && texts(
                    made.symbols@,
                ) == comma_parts(symbols@),
                None => scheduler is None,
            },
    {
        match parse_utc_seconds(from) {
            Some(start) => Some(Scheduler { symbols: split_symbols(symbols), from: start }),
            None => None,
        }
    }

    /// The phase in which a schedule begins.
    pub fn start(&self) -> (phase: Phase)
        ensures
            phase == Phase::Waiting,
    {
        Phase::Waiting
    }

    /// The request for the symbol at `index` in the round of the tick at
    /// `now`: for the period from the schedule's start to `now`.
    pub fn request(&self, index: usize, now: i64) -> (request: QuoteRequest)
        requires
            index < self.symbols@.len(),
        ensures
            request.symbol@ == self.symbols@[index as int]@,
            request.from == self.from,
            request.to == now,
    {
        QuoteRequest { symbol: self.symbols[index].clone(), from: self.from, to: now }
    }

    /// What is to be done in `phase`: to sleep for the interval while
    /// waiting, to publish the request for the symbol that the round has
    /// come to, to stop once stopped. A round that has come beyond the last
    /// symbol has nothing to publish and sleeps.
    pub fn command(&self, phase: Phase) -> (command: Command)
        ensures
            match phase {
                Phase::Publishing { now, next } if next < self.symbols@.len() => {
                    &&& command matches Command::Publish(request)
                    &&& request.symbol@ == self.symbols@[next as int]@
                    &&& request.from == self.from
                    &&& request.to == now
                },
                Phase::Stopped => command == Command::Stop,
                _ => command == (Command::Sleep { millis: INTERVAL_MILLIS }),
            },
    {
        match phase {
            Phase::Publishing { now, next } => {
                if next < self.symbols.len() {
                    Command::Publish(self.request(next, now))
                } else {
                    Command::Sleep { millis: INTERVAL_MILLIS }
                }
            },
            Phase::Stopped => Command::Stop,
            Phase::Waiting => Command::Sleep { millis: INTERVAL_MILLIS },
        }
    }

    /// The phase after `event` has happened in `phase`.
    pub fn step(&self, phase: Phase, event: Event) -> (next: Phase)
        ensures
            next == phase_after(self.symbols@.len(), phase, event),
    {
        match phase {
            Phase::Waiting => match event {
                Event::Tick { now } => {
                    if self.symbols.len() > 0 {
                        Phase::Publishing { now, next: 0 }
                    } else {
                        Phase::Waiting
                    }
                },
                _ => phase,
            },
            Phase::Publishing { now, next } => match event {
                Event::Published => {
                    if next < self.symbols.len() && next + 1 < self.symbols.len() {
                        Phase::Publishing { now, next: next + 1 }
                    } else {
                        Phase::Waiting
                    }
                },
                Event::PublishFailed => Phase::Stopped,
                _ => phase,
            },
            Phase::Stopped => phase,
        }
    }
}

} // verus!
