//! The sink that sends records to Elasticsearch in bulk.
//!
//! Records are queued as they come and sent together when the timer fires.
//! The worker here decides what is queued and what is sent; it owns no
//! connection and no clock.

use vstd::prelude::*;
use crate::codec::{encode, json_encoding};
use crate::json::{Json, JsonView};
use crate::output::{effects_view, Effect, EffectView, Output};
use crate::text::decimal_string;

verus! {

/// The index that records are sent to.
pub const INDEX: &'static str = "cocaine-v0.12-2016.03.10-16";

/// The type that records are filed under.
pub const DOCUMENT_TYPE: &'static str = "cocaine";

/// The time between two bulk requests, in milliseconds.
pub const FLUSH_INTERVAL: u64 = 3000;

/// What wakes the worker.
#[derive(Debug, PartialEq)]
pub enum Event {
    /// A record came.
    Data(Json),
    /// The timer fired.
    Timeout,
    /// The sink is dropped.
    Terminate,
}

/// What the worker does about an event.
#[derive(Debug, PartialEq)]
pub enum Action {
    /// Wait for the next event.
    Idle,
    /// Post this body as one bulk request, log how it went, and wait for
    /// the next event.
    Post(String),
    /// A queued record has no JSON text, and the worker cannot go on.
    /// These are the encoder's words.
    Abort(String),
    /// End.
    Stop,
}

/// What an [`Action`] is, with strings as character sequences.
pub enum ActionView {
    Idle,
    Post(Seq<char>),
    Abort(Seq<char>),
    Stop,
}

impl View for Action {
    type V = ActionView;

    open spec fn view(&self) -> ActionView {
        match self {
            Action::Idle => ActionView::Idle,
            Action::Post(body) => ActionView::Post(body@),
            Action::Abort(words) => ActionView::Abort(words@),
            Action::Stop => ActionView::Stop,
        }
    }
}

/// The worker of the sink.
pub struct ElasticSearch {
    url: String,
    hostname: String,
    queue: Vec<Json>,
}

/// What an [`ElasticSearch`] is.
pub struct ElasticSearchView {
    /// Where requests go, as `host:port`.
    pub url: Seq<char>,
    /// The name that every record is marked with.
    pub hostname: Seq<char>,
    /// The records that wait to be sent, oldest first.
    pub queue: Seq<JsonView>,
}

impl View for ElasticSearch {
    type V = ElasticSearchView;

    closed spec fn view(&self) -> ElasticSearchView {
        ElasticSearchView {
            url: self.url@,
            hostname: self.hostname@,
            queue: crate::json::values_view(self.queue@),
        }
    }
}

/// The body of a bulk request for the first `count` records of `queue`: for
/// each, a line that says to index it and a line with its JSON text. The
/// words of the encoder, where it has no text for one of them.
pub open spec fn bulk_body(queue: Seq<JsonView>, count: int) -> Result<Seq<char>, Seq<char>>
    decreases count,
{
    if count <= 0 {
        Ok(seq![])
    } else {
        match bulk_body(queue, count - 1) {
            Err(words) => Err(words),
            Ok(body) => match json_encoding(queue[count - 1]) {
                Ok(text) => Ok(body + "{\"index\": {}}\n"@ + text + "\n"@),
                Err(words) => Err(words),
            },
        }
    }
}

/// What the worker does about `event`, and what it holds afterwards.
pub open spec fn react(worker: ElasticSearchView, event: Event) -> (ActionView, ElasticSearchView) {
    match event {
        Event::Data(record) => (
            ActionView::Idle,
            ElasticSearchView {
                queue: worker.queue.push(
                    record@.with("hostname"@, JsonView::Str(worker.hostname)),
                ),
                ..worker
            },
        ),
        Event::Timeout => if worker.queue.len() == 0 {
            (ActionView::Idle, worker)
        } else {
            match bulk_body(worker.queue, worker.queue.len() as int) {
                Ok(body) => (ActionView::Post(body), ElasticSearchView { queue: seq![], ..worker }),
                Err(words) => (ActionView::Abort(words), worker),
            }
        },
        Event::Terminate => (ActionView::Stop, worker),
    }
}

impl ElasticSearch {
    /// A worker for the server at `host` and `port`, with nothing queued.
    /// Records are marked as coming from `localhost` until
    /// [`ElasticSearch::hostname`] says otherwise.
    pub fn new(host: &str, port: u16) -> (worker: ElasticSearch)
        ensures
            worker@.url == host@ + ":"@ + crate::text::decimal(port as nat),
            worker@.hostname == "localhost"@,
            worker@.queue == Seq::<JsonView>::empty(),
    {
        let mut url = host.to_owned();
        url.append(":");
        url.append(decimal_string(port as u64).as_str());
        let worker = ElasticSearch { url, hostname: "localhost".to_owned(), queue: Vec::new() };
        assert(worker@.queue =~= Seq::<JsonView>::empty());
        worker
    }

    /// The same worker, marking records as coming from `name`.
    pub fn hostname(self, name: &str) -> (worker: ElasticSearch)
        ensures
            worker@ == (ElasticSearchView { hostname: name@, ..self@ }),
    {
        ElasticSearch { url: self.url, hostname: name.to_owned(), queue: self.queue }
    }

    /// Where requests go, as `host:port`.
    pub fn url(&self) -> (url: &str)
        ensures
            url@ == self@.url,
    {
        self.url.as_str()
    }

    /// The body of a bulk request for everything that is queued.
    fn body(&self) -> (body: Result<String, String>)
        ensures
            match body {
                Ok(body) => bulk_body(self@.queue, self@.queue.len() as int) == Ok::<
                    Seq<char>,
                    Seq<char>,
                >(body@),
                Err(words) => bulk_body(self@.queue, self@.queue.len() as int) == Err::<
                    Seq<char>,
                    Seq<char>,
                >(words@),
            },
    {
        let mut body = String::new();
        let mut i: usize = 0;
        while i < self.queue.len()
            invariant
                i <= self.queue.len(),
                bulk_body(self@.queue, i as int) == Ok::<Seq<char>, Seq<char>>(body@),
            decreases self.queue.len() - i,
        {
            assert(self@.queue[i as int] == self.queue[i as int]@);
            match encode(&self.queue[i]) {
                Ok(text) => {
                    body.append("{\"index\": {}}\n");
                    body.append(text.as_str());
                    body.append("\n");
                },
                Err(error) => {
                    proof {
                        lemma_first_failure_stays(
                            self@.queue,
                            i as int + 1,
                            self.queue.len() as int,
                        );
                    }
                    return Err(error.message);
                },
            }
            i += 1;
        }
        Ok(body)
    }

    /// One turn of the worker's loop. A record has to be a mapping to be
    /// queued.
    pub fn on(&mut self, event: Event) -> (action: Action)
        requires
            event matches Event::Data(record) ==> record@ is Object,
        ensures
            action@ == react(old(self)@, event).0,
            final(self)@ == react(old(self)@, event).1,
    {
        match event {
            Event::Data(record) => {
                let mut record = record;
                record.insert("hostname", Json::Str(self.hostname.clone()));
                let ghost before = self.queue@;
                self.queue.push(record);
                assert(crate::json::values_view(self.queue@) =~= crate::json::values_view(
                    before,
                ).push(record@));
                Action::Idle
            },
            Event::Timeout => {
                if self.queue.len() == 0 {
                    return Action::Idle;
                }
                match self.body() {
                    Ok(body) => {
                        self.queue.clear();
                        assert(self@.queue =~= Seq::<JsonView>::empty());
                        Action::Post(body)
                    },
                    Err(words) => Action::Abort(words),
                }
            },
            Event::Terminate => Action::Stop,
        }
    }
}

impl Output for ElasticSearch {
    /// The record goes to the worker, whatever it holds.
    open spec fn effects(&self, record: JsonView) -> Seq<EffectView> {
        seq![EffectView::Enqueue]
    }

    open spec fn reopens(&self) -> bool {
        false
    }

    fn handle(&self, _record: &Json) -> (effects: Vec<Effect>) {
        let mut effects: Vec<Effect> = Vec::new();
        effects.push(Effect::Enqueue);
        assert(effects_view(effects@) =~= seq![EffectView::Enqueue]);
        effects
    }

    fn hup(&self) -> (wanted: bool) {
        false
    }
}

/// Once one of the first `count` records has no text, looking at more of
/// them reports the same failure.
proof fn lemma_first_failure_stays(queue: Seq<JsonView>, count: int, more: int)
    requires
        0 <= count <= more,
        bulk_body(queue, count).is_err(),
    ensures
        bulk_body(queue, more) == bulk_body(queue, count),
    decreases more - count,
{
    if count < more {
        lemma_first_failure_stays(queue, count, more - 1);
    }
}

} // verus!
