use std::cell::RefCell;

use night_light::location::{
    query_location, LocationQuery, LocationReply, LocationStep, ACCURACY_LEVEL, DESKTOP_ID,
    POLL_INTERVAL_MILLIS, POLL_LIMIT,
};

/// A service that has a fix from the poll `fix_at` on, and fails at `fail_at`.
struct Service {
    fix_at: u32,
    fail_at: Option<LocationStep<f64>>,
    log: RefCell<Vec<LocationStep<f64>>>,
}

impl Service {
    fn new(fix_at: u32) -> Service {
        Service { fix_at, fail_at: None, log: RefCell::new(Vec::new()) }
    }

    fn perform(&self, query: &LocationQuery<f64>) -> LocationReply<f64> {
        let step = query.step();
        self.log.borrow_mut().push(step);
        if self.fail_at == Some(step) {
            return LocationReply::Failed;
        }
        match step {
            LocationStep::GetClient => LocationReply::Path("/client/1".to_string()),
            LocationStep::OpenProperties | LocationStep::OpenClient => {
                assert_eq!(query.client(), "/client/1");
                LocationReply::Done
            }
            LocationStep::PollLocation { attempt } => {
                if attempt >= self.fix_at {
                    LocationReply::Path("/location/7".to_string())
                } else {
                    LocationReply::Path("/".to_string())
                }
            }
            LocationStep::OpenLocation => {
                assert_eq!(query.location(), "/location/7");
                LocationReply::Done
            }
            LocationStep::GetLatitude => LocationReply::Coordinate(52.5),
            LocationStep::GetLongitude { latitude } => {
                assert_eq!(latitude, 52.5);
                LocationReply::Coordinate(13.4)
            }
            _ => LocationReply::Done,
        }
    }

    fn query(&self) -> Option<(f64, f64)> {
        query_location(&|query: &LocationQuery<f64>| self.perform(query))
    }

    fn count(&self, wanted: fn(&LocationStep<f64>) -> bool) -> usize {
        self.log.borrow().iter().filter(|step| wanted(step)).count()
    }
}

fn is_poll(step: &LocationStep<f64>) -> bool {
    matches!(step, LocationStep::PollLocation { .. })
}

fn is_sleep(step: &LocationStep<f64>) -> bool {
    matches!(step, LocationStep::Sleep { .. })
}

fn is_stop(step: &LocationStep<f64>) -> bool {
    matches!(step, LocationStep::Stop { .. })
}

#[test]
fn a_fix_is_returned_as_read() {
    let service = Service::new(0);
    assert_eq!(service.query(), Some((52.5, 13.4)));
    let log = service.log.borrow();
    assert_eq!(
        *log,
        vec![
            LocationStep::Connect,
            LocationStep::OpenManager,
            LocationStep::GetClient,
            LocationStep::OpenProperties,
            LocationStep::SetDesktopId,
            LocationStep::SetAccuracyLevel,
            LocationStep::OpenClient,
            LocationStep::Start,
            LocationStep::PollLocation { attempt: 0 },
            LocationStep::OpenLocation,
            LocationStep::GetLatitude,
            LocationStep::GetLongitude { latitude: 52.5 },
            LocationStep::Stop { result: Some((52.5, 13.4)) },
        ]
    );
}

#[test]
fn a_late_fix_is_waited_for() {
    let service = Service::new(9);
    assert_eq!(service.query(), Some((52.5, 13.4)));
    assert_eq!(service.count(is_poll), 10);
    assert_eq!(service.count(is_sleep), 9);
    assert_eq!(service.log.borrow().len(), 31);
    assert_eq!(service.count(is_stop), 1);
}

#[test]
fn polling_ends_without_a_fix() {
    let service = Service::new(10);
    assert_eq!(service.query(), None);
    assert_eq!(service.count(is_poll), POLL_LIMIT as usize);
    assert_eq!(service.count(is_sleep), POLL_LIMIT as usize);
    assert_eq!(service.count(is_stop), 1);
    assert_eq!(service.log.borrow().len(), 29);
    assert_eq!(POLL_LIMIT as u64 * POLL_INTERVAL_MILLIS, 5000);
}

#[test]
fn a_needed_step_that_fails_ends_the_query() {
    let needed = [
        LocationStep::Connect,
        LocationStep::OpenManager,
        LocationStep::GetClient,
        LocationStep::OpenProperties,
        LocationStep::OpenClient,
        LocationStep::PollLocation { attempt: 0 },
        LocationStep::OpenLocation,
        LocationStep::GetLatitude,
        LocationStep::GetLongitude { latitude: 52.5 },
    ];
    for step in needed {
        let mut service = Service::new(0);
        service.fail_at = Some(step);
        assert_eq!(service.query(), None);
        assert_eq!(service.log.borrow().last(), Some(&step));
    }
}

#[test]
fn other_steps_may_fail() {
    let others = [
        LocationStep::SetDesktopId,
        LocationStep::SetAccuracyLevel,
        LocationStep::Start,
        LocationStep::Stop { result: Some((52.5, 13.4)) },
    ];
    for step in others {
        let mut service = Service::new(0);
        service.fail_at = Some(step);
        assert_eq!(service.query(), Some((52.5, 13.4)));
    }
}

#[test]
fn a_service_without_a_client_has_no_location() {
    let perform = |query: &LocationQuery<f64>| match query.step() {
        LocationStep::GetClient => LocationReply::Path("/".to_string()),
        LocationStep::OpenProperties => panic!("there is no client to open"),
        _ => LocationReply::Done,
    };
    assert_eq!(query_location(&perform), None);
}

#[test]
fn a_query_can_be_taken_step_by_step() {
    let mut query: LocationQuery<f64> = LocationQuery::new();
    assert_eq!(query.step(), LocationStep::Connect);
    assert_eq!(query.client(), "");
    query.advance(LocationReply::Done);
    query.advance(LocationReply::Done);
    assert_eq!(query.step(), LocationStep::GetClient);
    query.advance(LocationReply::Path("//".to_string()));
    assert_eq!(query.step(), LocationStep::OpenProperties);
    assert_eq!(query.client(), "//");
    query.advance(LocationReply::Failed);
    assert_eq!(query.step(), LocationStep::Finished { result: None });
    query.advance(LocationReply::Done);
    assert_eq!(query.step(), LocationStep::Finished { result: None });
}

#[test]
fn client_properties_are_fixed() {
    assert_eq!(DESKTOP_ID, "cosmic-comp");
    assert_eq!(ACCURACY_LEVEL, 4);
}
