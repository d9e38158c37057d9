//! Rounds of a load test: the sequence of requests that a worker runs, and
//! the results that one round produces.
use crate::request::{answered, HTTPClient, RequestDefinition, RequestError, TimedResponse};
use crate::signal::{report_round, KillSwitch};
use crate::time::{ResponseTimestamp, TimeSpan};
use std::sync::mpsc::Sender;
use vstd::prelude::*;

verus! {

/// A completed call: its response and the moment it completed.
#[derive(Clone, Copy, Debug, PartialEq, Eq)]
pub struct ResponseTiming {
    pub timed_response: TimedResponse,
    pub response_timestamp: ResponseTimestamp,
}

impl From<(TimedResponse, ResponseTimestamp)> for ResponseTiming {
    fn from(response: (TimedResponse, ResponseTimestamp)) -> (r: ResponseTiming) {
        ResponseTiming { timed_response: response.0, response_timestamp: response.1 }
    }
}

impl vstd::std_specs::convert::FromSpecImpl<(TimedResponse, ResponseTimestamp)> for ResponseTiming {
    open spec fn obeys_from_spec() -> bool {
        true
    }

    open spec fn from_spec(response: (TimedResponse, ResponseTimestamp)) -> ResponseTiming {
        ResponseTiming { timed_response: response.0, response_timestamp: response.1 }
    }
}

/// The outcome of one call as the transport reported it, with the moment the
/// call returned.
pub type CallOutcome = (Result<TimedResponse, RequestError>, ResponseTimestamp);

/// The completed calls among `outcomes`, in their order: the failed ones leave
/// no trace.
pub open spec fn successes(outcomes: Seq<CallOutcome>) -> Seq<ResponseTiming>
    decreases outcomes.len(),
{
    if outcomes.len() == 0 {
        Seq::empty()
    } else {
        let rest = successes(outcomes.drop_last());
        match outcomes.last().0 {
            Ok(response) => rest.push(
                ResponseTiming { timed_response: response, response_timestamp: outcomes.last().1 },
            ),
            Err(_) => rest,
        }
    }
}

/// A round has no more responses than calls.
pub proof fn lemma_successes_len(outcomes: Seq<CallOutcome>)
    ensures
        successes(outcomes).len() <= outcomes.len(),
    decreases outcomes.len(),
{
    if outcomes.len() > 0 {
        lemma_successes_len(outcomes.drop_last());
    }
}

/// The sum of the response times of `responses`, in nanoseconds.
pub open spec fn total_nanos(responses: Seq<ResponseTiming>) -> int
    decreases responses.len(),
{
    if responses.len() == 0 {
        0
    } else {
        total_nanos(responses.drop_last()) + responses.last().timed_response.response_time.nanos_spec()
    }
}

/// The result of one round: the completed calls, in the order they were made.
#[derive(Clone, Debug, PartialEq, Eq)]
pub struct ApiPerformance {
    responses: Vec<ResponseTiming>,
}

impl View for ApiPerformance {
    type V = Seq<ResponseTiming>;

    closed spec fn view(&self) -> Seq<ResponseTiming> {
        self.responses@
    }
}

impl ApiPerformance {
    pub fn new(responses: Vec<ResponseTiming>) -> (r: ApiPerformance)
        ensures
            r@ == responses@,
    {
        ApiPerformance { responses }
    }

    /// The result of a round whose calls ended as `outcomes`.
    pub fn from_outcomes(outcomes: Vec<CallOutcome>) -> (r: ApiPerformance)
        ensures
            r@ == successes(outcomes@),
    {
        let mut responses: Vec<ResponseTiming> = Vec::new();
        let mut i: usize = 0;
        while i < outcomes.len()
            invariant
                i <= outcomes.len(),
                responses@ == successes(outcomes@.take(i as int)),
            decreases outcomes.len() - i,
        {
            proof {
                assert(outcomes@.take(i + 1).drop_last() =~= outcomes@.take(i as int));
            }
            match &outcomes[i].0 {
                Ok(response) => {
                    responses.push(
                        ResponseTiming {
                            timed_response: *response,
                            response_timestamp: outcomes[i].1,
                        },
                    );
                },
                Err(_) => {},
            }
            i = i + 1;
        }
        assert(outcomes@.take(i as int) =~= outcomes@);
        ApiPerformance { responses }
    }

    /// The number of completed calls.
    pub fn len(&self) -> (r: usize)
        ensures
            r == self@.len(),
    {
        self.responses.len()
    }

    /// The moments at which the calls completed.
    pub fn get_response_timestamps(&self) -> (r: Vec<ResponseTimestamp>)
        ensures
            r@ == self@.map_values(|t: ResponseTiming| t.response_timestamp),
    {
        let mut timestamps: Vec<ResponseTimestamp> = Vec::new();
        let mut i: usize = 0;
        while i < self.responses.len()
            invariant
                i <= self.responses@.len(),
                timestamps@ == self.responses@.take(i as int).map_values(
                    |t: ResponseTiming| t.response_timestamp,
                ),
            decreases self.responses@.len() - i,
        {
            timestamps.push(self.responses[i].response_timestamp);
            assert(self.responses@.take(i + 1).map_values(|t: ResponseTiming| t.response_timestamp)
                =~= timestamps@);
            i = i + 1;
        }
        assert(self.responses@.take(i as int) =~= self.responses@);
        timestamps
    }

    /// How long each call took.
    pub fn get_response_times(&self) -> (r: Vec<TimeSpan>)
        ensures
            r@ == self@.map_values(|t: ResponseTiming| t.timed_response.response_time),
    {
        let mut times: Vec<TimeSpan> = Vec::new();
        let mut i: usize = 0;
        while i < self.responses.len()
            invariant
                i <= self.responses@.len(),
                times@ == self.responses@.take(i as int).map_values(
                    |t: ResponseTiming| t.timed_response.response_time,
                ),
            decreases self.responses@.len() - i,
        {
            times.push(self.responses[i].timed_response.response_time);
            assert(self.responses@.take(i + 1).map_values(
                |t: ResponseTiming| t.timed_response.response_time,
            ) =~= times@);
            i = i + 1;
        }
        assert(self.responses@.take(i as int) =~= self.responses@);
        times
    }

    /// The responses of the calls.
    pub fn get_responses(self) -> (r: Vec<TimedResponse>)
        ensures
            r@ == self@.map_values(|t: ResponseTiming| t.timed_response),
    {
        let mut responses: Vec<TimedResponse> = Vec::new();
        let mut i: usize = 0;
        while i < self.responses.len()
            invariant
                i <= self.responses@.len(),
                responses@ == self.responses@.take(i as int).map_values(
                    |t: ResponseTiming| t.timed_response,
                ),
            decreases self.responses@.len() - i,
        {
            responses.push(self.responses[i].timed_response);
            assert(self.responses@.take(i + 1).map_values(|t: ResponseTiming| t.timed_response)
                =~= responses@);
            i = i + 1;
        }
        assert(self.responses@.take(i as int) =~= self.responses@);
        responses
    }

    /// The sum of the response times, in nanoseconds.
    pub fn total_response_time(&self) -> (r: u128)
        ensures
            r == total_nanos(self@),
    {
        let mut total: u128 = 0;
        let mut i: usize = 0;
        while i < self.responses.len()
            invariant
                i <= self.responses@.len(),
                total == total_nanos(self.responses@.take(i as int)),
                total <= i * (u64::MAX as int),
            decreases self.responses@.len() - i,
        {
            proof {
                assert(self.responses@.take(i + 1).drop_last() =~= self.responses@.take(i as int));
                assert(total + (u64::MAX as int) <= (i + 1) * (u64::MAX as int)) by (nonlinear_arith)
                    requires
                        total <= i * (u64::MAX as int),
                ;
                assert((i + 1) * (u64::MAX as int) <= (usize::MAX as int) * (u64::MAX as int))
                    by (nonlinear_arith)
                    requires
                        i < usize::MAX,
                ;
            }
            total = total + self.responses[i].timed_response.response_time.as_nanos() as u128;
            i = i + 1;
        }
        assert(self.responses@.take(i as int) =~= self.responses@);
        total
    }
}

/// A load test: the requests of one round, in order, and the transport that
/// performs them.
#[derive(Clone, Debug)]
pub struct LoadTestDefinition<'a, R> where R: HTTPClient {
    connection: R,
    to_call: Vec<RequestDefinition<'a>>,
}

impl<'a, R> LoadTestDefinition<'a, R> where R: HTTPClient {
    /// The requests of one round.
    pub closed spec fn requests(&self) -> Seq<RequestDefinition<'a>> {
        self.to_call@
    }

    /// The transport.
    pub closed spec fn transport(&self) -> R {
        self.connection
    }

    pub fn new(connection: R, to_call: Vec<RequestDefinition<'a>>) -> (r: Self)
        ensures
            r.requests() == to_call@,
            r.transport() == connection,
    {
        LoadTestDefinition { connection, to_call }
    }

    /// Runs one round: every request once, in order, one after the other. A call
    /// that fails in the transport is left out; it does not end the round.
    pub fn run(&self) -> (r: ApiPerformance)
        ensures
            exists|outcomes: Seq<CallOutcome>|
                {
                    &&& outcomes.len() == self.requests().len()
                    &&& r@ == successes(outcomes)
                    &&& forall|i: int|
                        0 <= i < outcomes.len() ==> answered(
                            self.transport(),
                            self.requests()[i],
                            #[trigger] outcomes[i].0,
                        )
                },
            r@.len() <= self.requests().len(),
    {
        let mut outcomes: Vec<CallOutcome> = Vec::new();
        let mut i: usize = 0;
        while i < self.to_call.len()
            invariant
                i <= self.to_call@.len(),
                outcomes@.len() == i,
                forall|k: int|
                    0 <= k < i ==> answered(
                        self.transport(),
                        self.requests()[k],
                        #[trigger] outcomes@[k].0,
                    ),
            decreases self.to_call@.len() - i,
        {
            let result = match &self.to_call[i] {
                RequestDefinition::POST { endpoint, body } => self.connection.post(endpoint, body),
                RequestDefinition::GET { endpoint } => self.connection.get(endpoint),
            };
            outcomes.push((result, ResponseTimestamp::now()));
            i = i + 1;
        }
        let ghost made = outcomes@;
        proof {
            lemma_successes_len(made);
        }
        let round = ApiPerformance::from_outcomes(outcomes);
        assert(made.len() == self.requests().len() && round@ == successes(made));
        round
    }

    /// The transport, given back.
    pub fn client(self) -> (r: R)
        ensures
            r == self.transport(),
    {
        self.connection
    }
}

/// One round of a worker: runs the requests, sends the result, then reads the
/// flag. Whether the worker goes on: only while its result reached the channel
/// and the flag is not raised.
pub fn run_round_and_report<R: HTTPClient>(
    kill_switch: &KillSwitch,
    send_to_controller: &Sender<ApiPerformance>,
    load_test_definition: &LoadTestDefinition<'_, R>,
) -> (r: bool) {
    let api_performance = load_test_definition.run();
    report_round(kill_switch, send_to_controller, api_performance)
}

} // verus!
