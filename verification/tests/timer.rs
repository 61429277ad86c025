use rahmen::provider::Provider;
use rahmen::errors::{RahmenError, RahmenResult};
use rahmen::Timer;
use std::sync::atomic::{AtomicUsize, Ordering};
use std::sync::Mutex;
use std::time::{Duration, Instant};

#[test]
fn timer_reports_once_when_finished() {
    let calls = AtomicUsize::new(0);
    let reported: Mutex<Option<Duration>> = Mutex::new(None);
    let timer = Timer::new(|elapsed| {
        calls.fetch_add(1, Ordering::SeqCst);
        *reported.lock().unwrap() = Some(elapsed);
    });
    assert_eq!(calls.load(Ordering::SeqCst), 0);
    let begin = Instant::now();
    while begin.elapsed() < Duration::from_millis(5) {}
    timer.finish();
    assert_eq!(calls.load(Ordering::SeqCst), 1);
    assert!(reported.lock().unwrap().unwrap() >= Duration::from_millis(5));
}

struct Countdown(u32);

impl Provider<u32> for Countdown {
    fn next_image(&mut self) -> RahmenResult<Option<u32>> {
        if self.0 == 0 {
            Ok(None)
        } else {
            self.0 -= 1;
            Ok(Some(self.0))
        }
    }
}

struct Broken;

impl Provider<u32> for Broken {
    fn next_image(&mut self) -> RahmenResult<Option<u32>> {
        Err(RahmenError::NoTags)
    }
}

#[test]
fn boxed_provider_forwards() {
    let mut boxed: Box<dyn Provider<u32>> = Box::new(Countdown(2));
    assert!(matches!(Provider::next_image(&mut boxed), Ok(Some(1))));
    assert!(matches!(Provider::next_image(&mut boxed), Ok(Some(0))));
    assert!(matches!(Provider::next_image(&mut boxed), Ok(None)));
    let mut boxed: Box<dyn Provider<u32>> = Box::new(Broken);
    assert!(matches!(Provider::next_image(&mut boxed), Err(RahmenError::NoTags)));
}

#[test]
fn timer_reports_the_duration_it_is_given() {
    let reported: Mutex<Vec<Duration>> = Mutex::new(Vec::new());
    let timer = Timer::new(|elapsed| reported.lock().unwrap().push(elapsed));
    timer.report(Duration::from_millis(1234));
    assert_eq!(*reported.lock().unwrap(), vec![Duration::from_millis(1234)]);
}
