use std::collections::BTreeMap;
use viber_router::circuit_breaker::{
    model_slot, release_probe, Access, CheckAccess, Command, Next, RecordError,
    RecordProbeSuccess, Reply, TripRule,
};

/// A store of counters with lifetimes.
#[derive(Default)]
struct Store {
    keys: BTreeMap<String, (i64, Option<i64>)>,
}

impl Store {
    fn run(&mut self, command: Command) -> Reply {
        match command {
            Command::Exists { key } => Reply::Flag(self.keys.contains_key(&key)),
            Command::PutIfAbsent { key, ttl } => {
                let absent = !self.keys.contains_key(&key);
                if absent {
                    self.keys.insert(key, (1, Some(ttl)));
                }
                Reply::Flag(absent)
            }
            Command::Put { key, ttl } => {
                self.keys.insert(key, (1, Some(ttl)));
                Reply::Flag(true)
            }
            Command::Increment { key } => {
                let entry = self.keys.entry(key).or_insert((0, None));
                entry.0 += 1;
                Reply::Number(entry.0)
            }
            Command::Expire { key, ttl } => match self.keys.get_mut(&key) {
                Some(entry) => {
                    entry.1 = Some(ttl);
                    Reply::Flag(true)
                }
                None => Reply::Flag(false),
            },
            Command::Delete { keys } => {
                let found = keys.iter().filter(|k| self.keys.remove(*k).is_some()).count();
                Reply::Number(found as i64)
            }
        }
    }

    fn check(&mut self, server: u128) -> Access {
        let mut next = CheckAccess::start(true, 1, server, Some("m"));
        loop {
            match next {
                Next::Done(access) => return access,
                Next::Run(command, flow) => next = flow.next(self.run(command)),
            }
        }
    }

    fn error(&mut self, server: u128, was_probe: bool) -> bool {
        let rule =
            TripRule { max_failures: 2, window_seconds: 60, cooldown_seconds: 30, was_probe };
        let mut next = RecordError::start(true, 1, server, Some("m"), rule);
        loop {
            match next {
                Next::Done(tripped) => return tripped,
                Next::Run(command, flow) => next = flow.next(self.run(command)),
            }
        }
    }

    fn success(&mut self, server: u128) -> bool {
        let mut next = RecordProbeSuccess::start(true, 1, server, Some("m"));
        loop {
            match next {
                Next::Done(closed) => return closed,
                Next::Run(command, flow) => next = flow.next(self.run(command)),
            }
        }
    }

    fn names(&self, kind: &str) -> Vec<&String> {
        self.keys.keys().filter(|k| k.starts_with(kind)).collect()
    }

    fn cool_down(&mut self) {
        self.keys.retain(|k, _| !k.starts_with("cb:open:"));
    }
}

#[test]
fn a_closed_circuit_is_left_alone() {
    let mut store = Store::default();
    assert_eq!(store.check(7), Access::Allow);
    assert!(store.keys.is_empty());
}

#[test]
fn errors_trip_at_the_limit() {
    let mut store = Store::default();
    assert!(!store.error(7, false));
    assert_eq!(store.check(7), Access::Allow);
    assert!(store.error(7, false));
    assert_eq!(store.check(7), Access::Skip);
    assert!(store.names("cb:err:").is_empty());
    assert_eq!(store.check(8), Access::Allow);
}

#[test]
fn the_marker_outlives_the_open_key() {
    let mut store = Store::default();
    store.error(7, false);
    store.error(7, false);
    let open = store.keys[store.names("cb:open:")[0]].1;
    let half = store.keys[store.names("cb:half:")[0]].1;
    assert_eq!((open, half), (Some(30), Some(30 + 3600)));
}

#[test]
fn one_probe_at_a_time_and_two_successes_close() {
    let mut store = Store::default();
    store.error(7, false);
    store.error(7, false);
    store.cool_down();
    assert_eq!(store.check(7), Access::Probe);
    assert_eq!(store.check(7), Access::Skip);
    assert!(!store.success(7));
    assert_eq!(store.check(7), Access::Probe);
    assert!(store.success(7));
    assert_eq!(store.check(7), Access::Allow);
    assert!(store.keys.is_empty());
}

#[test]
fn a_failed_probe_reopens() {
    let mut store = Store::default();
    store.error(7, false);
    store.error(7, false);
    store.cool_down();
    assert_eq!(store.check(7), Access::Probe);
    assert!(store.error(7, true));
    assert_eq!(store.check(7), Access::Skip);
    store.cool_down();
    assert_eq!(store.check(7), Access::Probe);
}

#[test]
fn a_released_permit_is_free_again() {
    let mut store = Store::default();
    store.error(7, false);
    store.error(7, false);
    store.cool_down();
    assert_eq!(store.check(7), Access::Probe);
    assert_eq!(store.run(release_probe(1, 7, Some("m"))), Reply::Number(1));
    assert_eq!(store.check(7), Access::Probe);
}

#[test]
fn keys_name_group_server_and_model() {
    let Next::Run(command, _) = CheckAccess::start(true, 1, 2, None) else {
        panic!("nothing asked")
    };
    let Command::Exists { key } = command else { panic!("{command:?}") };
    assert_eq!(
        key,
        "cb:open:00000000-0000-0000-0000-000000000001:00000000-0000-0000-0000-000000000002:_any"
    );
    assert_eq!(model_slot(Some("m")), "m");
}

#[test]
fn without_a_store_everything_is_allowed() {
    assert!(matches!(CheckAccess::start(false, 1, 2, None), Next::Done(Access::Allow)));
    assert!(matches!(RecordProbeSuccess::start(false, 1, 2, None), Next::Done(false)));
    let rule =
        TripRule { max_failures: 1, window_seconds: 1, cooldown_seconds: 1, was_probe: true };
    assert!(matches!(RecordError::start(false, 1, 2, None, rule), Next::Done(false)));
}

#[test]
fn access_fails_open_at_every_stage() {
    for good in 0..3 {
        let mut store = Store::default();
        store.keys.insert(
            "cb:half:00000000-0000-0000-0000-000000000001:00000000-0000-0000-0000-000000000007:m"
                .to_string(),
            (1, None),
        );
        let mut next = CheckAccess::start(true, 1, 7, Some("m"));
        let mut asked = 0;
        let access = loop {
            match next {
                Next::Done(access) => break access,
                Next::Run(command, flow) => {
                    let reply = if asked == good { Reply::Failed } else { store.run(command) };
                    asked += 1;
                    next = flow.next(reply);
                }
            }
        };
        assert_eq!((asked, access), (good + 1, Access::Allow));
    }
}

#[test]
fn the_bound_on_the_cooldown_counts_only_where_the_circuit_opens() {
    let rule = TripRule {
        max_failures: 2,
        window_seconds: 60,
        cooldown_seconds: i32::MAX,
        was_probe: false,
    };
    let Next::Run(_, flow) = RecordError::start(true, 1, 7, Some("m"), rule) else {
        panic!("nothing asked")
    };
    assert!(flow.takes(Reply::Number(5)));
    let Next::Run(command, flow) = flow.next(Reply::Number(5)) else { panic!("not tripped") };
    assert!(matches!(command, Command::PutIfAbsent { .. }));
    assert!(flow.takes(Reply::Flag(false)));
    assert!(!flow.takes(Reply::Flag(true)));
    assert!(matches!(flow.next(Reply::Flag(false)), Next::Run(Command::Delete { .. }, _)));
}
