use ddns4cf::api::RecordDetails;
use ddns4cf::error::Error;
use ddns4cf::ip::IpAddress;
use ddns4cf::source::{IpIp, IpSourceKind};
use ddns4cf::updater::{
    describe_outcome, InitStep, UpdateOutcome, UpdatePlan, Updater,
};

fn a() -> IpAddress {
    IpAddress::V4 { a: 203, b: 0, c: 113, d: 9 }
}

fn b() -> IpAddress {
    IpAddress::V4 { a: 203, b: 0, c: 113, d: 10 }
}

fn record_with(content: IpAddress) -> RecordDetails {
    RecordDetails {
        record_type: String::from("A"),
        name: String::from("host.example.org"),
        content,
        ttl: 300,
        proxied: false,
    }
}

fn fresh_updater() -> Updater {
    Updater::new(
        None,
        IpSourceKind::IpIp(IpIp::new()),
        "home",
        "abc123",
        "rec7",
        "zone9",
        900,
        30,
    )
}

#[test]
fn starts_uninitialized() {
    let u = fresh_updater();
    assert!(u.cached_record().is_none());
    assert_eq!(u.nickname, "home");
    assert_eq!(u.refresh_interval, 900);
    assert_eq!(u.retry_interval, 30);
}

#[test]
fn update_before_init_is_the_defensive_error() {
    let u = fresh_updater();
    match u.plan_update(Ok(a())) {
        UpdatePlan::Fail(e) => {
            assert_eq!(e.message(), "Updater \u{672a}\u{521d}\u{59cb}\u{5316}")
        }
        _ => panic!("an uninitialized updater must fail the cycle"),
    }
}

#[test]
fn initialization_retries_until_a_record_arrives() {
    let mut u = fresh_updater();
    let mut attempts = 0;
    let failures = 3;
    let mut slept = Vec::new();
    loop {
        let fetched: Result<RecordDetails, Error> = if attempts < failures {
            Err(Error::cloudflare_network_failure("unreachable"))
        } else {
            Ok(record_with(a()))
        };
        attempts += 1;
        match u.init_step(fetched) {
            InitStep::Done => break,
            InitStep::RetryAfter { seconds, reason } => {
                assert!(u.cached_record().is_none());
                assert_eq!(seconds, 30);
                assert!(reason.message().contains("unreachable"));
                slept.push(seconds);
            }
        }
    }
    assert_eq!(attempts, failures + 1);
    assert_eq!(slept, vec![30, 30, 30]);
    let cached = u.cached_record().as_ref().expect("ready after the fetch");
    assert_eq!(cached.content, a());
}

#[test]
fn unchanged_address_plans_no_write() {
    let mut u = fresh_updater();
    u.init_step(Ok(record_with(a())));
    match u.plan_update(Ok(a())) {
        UpdatePlan::NoChange { address } => assert_eq!(address, a()),
        _ => panic!("the cached address must plan no write"),
    }
}

#[test]
fn changed_address_converges() {
    let mut u = fresh_updater();
    u.init_step(Ok(record_with(a())));

    let request = match u.plan_update(Ok(b())) {
        UpdatePlan::Publish(q) => q,
        _ => panic!("a changed address must publish"),
    };
    assert_eq!(request.content, b());
    assert_eq!(request.record_type, "A");
    assert_eq!(request.name, "host.example.org");
    assert_eq!(request.ttl, 300);
    assert!(!request.proxied);

    let outcome = u
        .apply_update(Ok(record_with(b())))
        .expect("a confirmed update succeeds");
    match outcome {
        UpdateOutcome::Changed { previous, current } => {
            assert_eq!(previous, a());
            assert_eq!(current, b());
        }
        _ => panic!("a confirmed update reports the change"),
    }
    assert_eq!(u.cached_record().as_ref().unwrap().content, b());

    match u.plan_update(Ok(b())) {
        UpdatePlan::NoChange { address } => assert_eq!(address, b()),
        _ => panic!("a second cycle for the same address plans no write"),
    }
}

#[test]
fn a_failed_update_leaves_the_cache_alone() {
    let mut u = fresh_updater();
    u.init_step(Ok(record_with(a())));
    match u.plan_update(Ok(b())) {
        UpdatePlan::Publish(_) => {}
        _ => panic!("a changed address must publish"),
    }
    let err = u
        .apply_update(Err(Error::cloudflare_update_failure(None)))
        .err()
        .expect("a failed update is passed through");
    assert_eq!(
        err.message(),
        "\u{66f4}\u{65b0} Cloudflare DNS \u{8bb0}\u{5f55}\u{5931}\u{8d25}\u{3002}\u{9519}\u{8bef}\u{539f}\u{56e0}\u{ff1a}\u{672a}\u{77e5}\u{539f}\u{56e0}"
    );
    assert_eq!(u.cached_record().as_ref().unwrap().content, a());
}

#[test]
fn source_failures_are_passed_through() {
    let mut u = fresh_updater();
    u.init_step(Ok(record_with(a())));
    match u.plan_update(Err(Error::new_str("no address today"))) {
        UpdatePlan::Fail(e) => assert_eq!(e.message(), "no address today"),
        _ => panic!("a source failure fails the cycle"),
    }
}

#[test]
fn outcome_descriptions() {
    assert_eq!(
        describe_outcome(&UpdateOutcome::Unchanged { address: a() }),
        "IP \u{5730}\u{5740}\u{672a}\u{53d1}\u{751f}\u{53d8}\u{5316}\u{ff0c}\u{5f53}\u{524d}\u{5730}\u{5740}\u{4e3a}\u{ff1a}203.0.113.9"
    );
    assert_eq!(
        describe_outcome(&UpdateOutcome::Changed { previous: a(), current: b() }),
        "Cloudflare DNS \u{8bb0}\u{5f55}\u{66f4}\u{65b0}\u{6210}\u{529f}\u{ff0c}IP \u{5730}\u{5740}\u{66f4}\u{65b0}\u{4e3a}\u{ff1a}203.0.113.10\u{ff08}\u{66f4}\u{65b0}\u{524d}\u{4e3a}\u{ff1a}203.0.113.9\u{ff09}"
    );
}
