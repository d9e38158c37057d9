use loadtest::{
    run_round_and_report, ApiPerformance, ApiPerformanceCommunicator, HTTPClient, KillSwitch,
    LoadTestDefinition, RequestDefinition, RequestError, ResponseTimestamp, ResponseTiming,
    StatusCodeGroup, TimeSpan, TimedResponse,
};
use loadtest::LastResponses;
use std::cell::RefCell;
use std::time::Instant;

#[derive(Clone)]
struct TestHTTPClient {
    post_request_endpoints: RefCell<Vec<(String, String)>>,
    get_request_endpoints: RefCell<Vec<String>>,
}

impl TestHTTPClient {
    fn emtpy() -> Self {
        Self {
            post_request_endpoints: RefCell::new(vec![]),
            get_request_endpoints: RefCell::new(vec![]),
        }
    }
}

impl HTTPClient for TestHTTPClient {
    fn get(&self, endpoint: &str) -> Result<TimedResponse, RequestError> {
        self.get_request_endpoints.borrow_mut().push(endpoint.to_string());
        Ok(TimedResponse::new(StatusCodeGroup::Success, TimeSpan::from_millis(10)))
    }
    fn post(&self, endpoint: &str, body: &str) -> Result<TimedResponse, RequestError> {
        self.post_request_endpoints
            .borrow_mut()
            .push((endpoint.to_string(), body.to_string()));
        Ok(TimedResponse::new(StatusCodeGroup::Success, TimeSpan::from_millis(50)))
    }
}

#[derive(Clone)]
struct ThreadSafeTestClient {}

impl HTTPClient for ThreadSafeTestClient {
    fn get(&self, _endpoint: &str) -> Result<TimedResponse, RequestError> {
        Ok(TimedResponse::new(StatusCodeGroup::Success, TimeSpan::from_millis(10)))
    }
    fn post(&self, _endpoint: &str, _body: &str) -> Result<TimedResponse, RequestError> {
        Ok(TimedResponse::new(StatusCodeGroup::Success, TimeSpan::from_millis(50)))
    }
}

struct FlakyClient {}

impl HTTPClient for FlakyClient {
    fn get(&self, _endpoint: &str) -> Result<TimedResponse, RequestError> {
        Err(RequestError::RequestUnsuccesful)
    }
    fn post(&self, _endpoint: &str, _body: &str) -> Result<TimedResponse, RequestError> {
        Ok(TimedResponse::new(StatusCodeGroup::ServerError, TimeSpan::from_millis(7)))
    }
}

const STEVEN: &str = "{\"name\":\"Steven\"}";
const SARAH: &str = "{\"name\":\"Sarah\"}";

fn three_requests() -> Vec<RequestDefinition<'static>> {
    vec![
        RequestDefinition::GET { endpoint: "/healthz" },
        RequestDefinition::POST { endpoint: "/add-user", body: STEVEN },
        RequestDefinition::POST { endpoint: "/add-user", body: SARAH },
    ]
}

fn timing(millis: u64) -> ResponseTiming {
    ResponseTiming::from((
        TimedResponse::new(StatusCodeGroup::Success, TimeSpan::from_millis(millis)),
        ResponseTimestamp::from(Instant::now()),
    ))
}

#[test]
fn full_loadtest() {
    let client = TestHTTPClient::emtpy();
    let load_test = LoadTestDefinition::new(client, three_requests());
    let api_performance = load_test.run();
    let client = load_test.client();

    assert_eq!(
        api_performance.get_responses(),
        vec![
            TimedResponse::new(StatusCodeGroup::Success, TimeSpan::from_millis(10)),
            TimedResponse::new(StatusCodeGroup::Success, TimeSpan::from_millis(50)),
            TimedResponse::new(StatusCodeGroup::Success, TimeSpan::from_millis(50)),
        ]
    );
    assert_eq!(
        client.post_request_endpoints.into_inner(),
        vec![
            (String::from("/add-user"), String::from("{\"name\":\"Steven\"}")),
            (String::from("/add-user"), String::from("{\"name\":\"Sarah\"}"))
        ]
    );
    assert_eq!(
        client.get_request_endpoints.into_inner(),
        vec![String::from("/healthz"),]
    );
}

#[test]
fn failed_calls_are_left_out_of_the_round() {
    let load_test = LoadTestDefinition::new(FlakyClient {}, three_requests());
    let responses = load_test.run().get_responses();
    assert_eq!(
        responses,
        vec![
            TimedResponse::new(StatusCodeGroup::ServerError, TimeSpan::from_millis(7)),
            TimedResponse::new(StatusCodeGroup::ServerError, TimeSpan::from_millis(7)),
        ]
    );
}

#[test]
fn empty_definition_gives_an_empty_round() {
    let load_test = LoadTestDefinition::new(ThreadSafeTestClient {}, vec![]);
    assert_eq!(load_test.run().len(), 0);
}

#[test]
fn from_outcomes_keeps_only_the_successes_in_order() {
    let t = ResponseTimestamp::now();
    let ok = TimedResponse::new(StatusCodeGroup::Redirect, TimeSpan::from_millis(3));
    let performance = ApiPerformance::from_outcomes(vec![
        (Err(RequestError::RequestUnsuccesful), t),
        (Ok(ok), t),
        (Err(RequestError::RequestUnsuccesful), t),
    ]);
    assert_eq!(performance.get_responses(), vec![ok]);
}

#[test]
fn extract_two_response_times() {
    let api_performance = ApiPerformance::new(vec![timing(100), timing(90), timing(250)]);
    assert_eq!(
        api_performance.get_response_times(),
        vec![
            TimeSpan::from_millis(100),
            TimeSpan::from_millis(90),
            TimeSpan::from_millis(250)
        ]
    )
}

#[test]
fn extract_no_response_times() {
    let api_performance = ApiPerformance::new(vec![]);
    assert_eq!(api_performance.get_response_times(), vec![])
}

#[test]
fn response_timestamps_are_kept_in_order() {
    let a = timing(1);
    let b = timing(2);
    let api_performance = ApiPerformance::new(vec![a, b]);
    assert_eq!(
        api_performance.get_response_timestamps(),
        vec![a.response_timestamp, b.response_timestamp]
    );
}

#[test]
fn total_response_time_of_three_responses_gives_their_mean() {
    let api_performance = ApiPerformance::new(vec![timing(180), timing(90), timing(270)]);
    let total = api_performance.total_response_time();
    assert_eq!(total, 540_000_000);
    let mean_millis = total as f64 / 1e6 / api_performance.len() as f64;
    assert_eq!(mean_millis, 180.0);
}

#[test]
fn total_response_time_of_no_responses_is_zero() {
    let api_performance = ApiPerformance::new(vec![]);
    assert_eq!(api_performance.total_response_time(), 0);
    assert_eq!(api_performance.len(), 0);
}

#[test]
fn kill_switch_activation_is_idempotent_and_shared() {
    let kill_switch = KillSwitch::new();
    let handles: Vec<KillSwitch> = (0..3).map(|_| kill_switch.clone()).collect();
    assert!(!kill_switch.is_activated());
    assert!(handles.iter().all(|h| !h.is_activated()));
    handles[1].activate();
    handles[1].activate();
    assert!(kill_switch.is_activated());
    assert!(handles.iter().all(|h| h.is_activated()));
    kill_switch.activate();
    assert!(kill_switch.is_activated());
}

#[test]
fn every_sent_round_arrives_before_the_channel_closes() {
    let api_performance_communicator = ApiPerformanceCommunicator::initialize();
    let senders: Vec<_> = (0..2).map(|_| api_performance_communicator.new_sender()).collect();
    for send_to_main in senders {
        send_to_main
            .send(ApiPerformance::new(vec![ResponseTiming::from((
                TimedResponse::new(StatusCodeGroup::Success, TimeSpan::from_millis(200)),
                ResponseTimestamp::from(Instant::now()),
            ))]))
            .unwrap();
    }

    let api_performance_receiver = api_performance_communicator.extract_receiver();
    let mut messages = Vec::new();
    while let Ok(message) = api_performance_receiver.recv() {
        messages.push(message.get_responses().pop().unwrap());
    }

    assert_eq!(
        messages,
        vec![
            TimedResponse::new(StatusCodeGroup::Success, TimeSpan::from_millis(200)),
            TimedResponse::new(StatusCodeGroup::Success, TimeSpan::from_millis(200))
        ]
    )
}

#[test]
fn n_producers_each_sending_once_give_n_messages() {
    let communicator = ApiPerformanceCommunicator::initialize();
    let producers: Vec<_> = (0..5).map(|_| communicator.new_sender()).collect();
    for (i, producer) in producers.into_iter().enumerate().rev() {
        producer.send(ApiPerformance::new(vec![timing(i as u64)])).unwrap();
    }
    let receiver = communicator.extract_receiver();
    let mut count = 0;
    while receiver.recv().is_ok() {
        count += 1;
    }
    assert_eq!(count, 5);
}

#[test]
fn receiver_stays_open_while_a_sender_is_held() {
    let communicator = ApiPerformanceCommunicator::initialize();
    let held = communicator.new_sender();
    let receiver = communicator.extract_receiver();
    assert!(matches!(
        receiver.try_recv(),
        Err(std::sync::mpsc::TryRecvError::Empty)
    ));
    drop(held);
    assert!(matches!(
        receiver.try_recv(),
        Err(std::sync::mpsc::TryRecvError::Disconnected)
    ));
}

#[test]
fn worker_rounds_report_until_the_flag_is_raised() {
    let kill_switch = KillSwitch::new();
    let communicator = ApiPerformanceCommunicator::initialize();
    let load_test = LoadTestDefinition::new(ThreadSafeTestClient {}, three_requests());
    let sender = communicator.new_sender();
    let receiver = communicator.extract_receiver();
    let mut window = LastResponses::new(TimeSpan::from_secs(5));

    assert!(run_round_and_report(&kill_switch, &sender, &load_test));
    assert!(run_round_and_report(&kill_switch.clone(), &sender, &load_test));
    kill_switch.activate();
    assert!(!run_round_and_report(&kill_switch, &sender, &load_test));

    let mut rounds = Vec::new();
    let mut in_window = 0;
    for _ in 0..3 {
        let round = receiver.recv().unwrap();
        in_window = window.record_round(&round);
        rounds.push(round);
    }
    assert_eq!(in_window, 9);
    for round in rounds {
        assert_eq!(round.total_response_time(), 110_000_000);
        assert_eq!(
            round.get_responses(),
            vec![
                TimedResponse::new(StatusCodeGroup::Success, TimeSpan::from_millis(10)),
                TimedResponse::new(StatusCodeGroup::Success, TimeSpan::from_millis(50)),
                TimedResponse::new(StatusCodeGroup::Success, TimeSpan::from_millis(50)),
            ]
        );
    }
}

#[test]
fn worker_stops_once_the_receiver_is_gone() {
    let kill_switch = KillSwitch::new();
    let communicator = ApiPerformanceCommunicator::initialize();
    let load_test = LoadTestDefinition::new(ThreadSafeTestClient {}, three_requests());
    let sender = communicator.new_sender();
    drop(communicator.extract_receiver());
    assert!(!run_round_and_report(&kill_switch, &sender, &load_test));
    assert!(!kill_switch.is_activated());
}
