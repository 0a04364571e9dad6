use vstd::prelude::*;

use serde_json::Value;

use crate::clock::{clock_reading, rfc3339_of, stamped, timestamp_of};
use crate::counter::{bumped, bumped_from, lemma_count_at_least, lemma_count_exact, RequestCounter};
use crate::store::{
    delete_entries, entries_view, has_key, keys_unique, lookup, page, put_entries, EntryView, Store,
};
use crate::text::{format_uptime, uptime_text};

verus! {

/// The offset of a listing that names none.
pub const DEFAULT_OFFSET: usize = 0;

/// The page size of a listing that names none.
pub const DEFAULT_LIMIT: usize = 10;

/// The line served at the root path, naming the service.
pub fn banner() -> (r: &'static str)
    ensures
        r@ == "FAAS Service Running on L1NE Infrastructure"@,
{
    "FAAS Service Running on L1NE Infrastructure"
}

/// The failure a service operation reports: no record has the key.
#[derive(Debug, PartialEq, Eq, Structural)]
pub enum ServiceError {
    NotFound,
}

/// The answer to a liveness check. The timestamp is `None` where the clock
/// could not be read as one.
pub struct HealthReport {
    pub status: String,
    pub timestamp: Option<String>,
    pub database: String,
    pub memory: String,
    pub disk: String,
}

/// A snapshot of who the service is and how long it has run.
pub struct ServiceInfo {
    pub service: String,
    pub version: String,
    pub instance_id: String,
    pub port: u16,
    pub uptime: String,
    pub request_count: u64,
}

/// One page of a listing.
pub struct ListPage {
    pub items: Vec<(String, Value)>,
    pub total: usize,
    pub limit: usize,
    pub offset: usize,
}

/// Counts of requests and records.
pub struct MetricsReport {
    pub request_count: u64,
    pub stored_items: usize,
    pub timestamp: Option<String>,
}

/// A document handed back as it came.
pub struct EchoReply {
    pub echo: Value,
    pub timestamp: Option<String>,
    pub instance: String,
}

/// The timestamp written for a clock reading: its RFC 3339 text where the
/// reading is one chrono represents, else none.
pub open spec fn stamp_for(t: Option<String>, reading: Option<(u64, u32)>) -> bool {
    &&& t is Some <==> stamped(reading)
    &&& t matches Some(s) ==> s@ == rfc3339_of(reading->Some_0.0 as int, reading->Some_0.1 as int)
}

/// A timestamp that is the RFC 3339 text of some instant, if there is one.
pub open spec fn some_stamp(t: Option<String>) -> bool {
    t matches Some(s) ==> exists|secs: int, nanos: int| s@ == rfc3339_of(secs, nanos)
}

/// Seconds from `start` to `now`; zero where either is unknown or `now` is
/// not later.
pub open spec fn elapsed(start: Option<u64>, now: Option<(u64, u32)>) -> nat {
    match (start, now) {
        (Some(s), Some(n)) => if n.0 > s {
            (n.0 - s) as nat
        } else {
            0
        },
        _ => 0,
    }
}

/// The data service: a store, a request counter and the instance's identity.
/// Every operation counts one request.
pub struct Service {
    store: Store,
    counter: RequestCounter,
    instance_id: String,
    port: u16,
    started_at: Option<u64>,
}

impl Service {
    /// The records, in enumeration order.
    pub closed spec fn entries(&self) -> Seq<EntryView> {
        self.store.entries()
    }

    /// Requests counted so far.
    pub closed spec fn count(&self) -> nat {
        self.counter@
    }

    pub closed spec fn instance(&self) -> Seq<char> {
        self.instance_id@
    }

    pub closed spec fn listen_port(&self) -> u16 {
        self.port
    }

    /// When the service started, in seconds since the Unix epoch, where the
    /// clock could be read then.
    pub closed spec fn start(&self) -> Option<u64> {
        self.started_at
    }

    pub open spec fn wf(&self) -> bool {
        keys_unique(self.entries())
    }

    /// What every operation keeps: the invariant, the identity, the start
    /// time; and what it does to the counter: one more request.
    pub open spec fn counted_from(&self, before: &Service) -> bool {
        &&& self.wf()
        &&& self.count() == bumped(before.count())
        &&& self.instance() == before.instance()
        &&& self.listen_port() == before.listen_port()
        &&& self.start() == before.start()
    }

    /// A service with an empty store and a zero count, started now.
    pub fn new(instance_id: String, port: u16) -> (r: Service)
        ensures
            r.wf(),
            r.entries() == Seq::<EntryView>::empty(),
            r.count() == 0,
            r.instance() == instance_id@,
            r.listen_port() == port,
    {
        let started_at = match clock_reading() {
            Some((secs, _)) => Some(secs),
            None => None,
        };
        Service { store: Store::new(), counter: RequestCounter::new(), instance_id, port, started_at }
    }

    /// When the service started, in seconds since the Unix epoch, where the
    /// clock could be read then.
    pub fn started_at(&self) -> (r: Option<u64>)
        ensures
            r == self.start(),
    {
        self.started_at
    }

    /// Requests counted so far, without counting this call.
    pub fn request_count(&self) -> (r: u64)
        ensures
            r == self.count(),
    {
        self.counter.snapshot()
    }

    /// The number of records stored.
    pub fn len(&self) -> (r: usize)
        ensures
            r == self.entries().len(),
    {
        self.store.len()
    }

    /// Reports the service healthy, with fixed subsystem checks, stamped with
    /// the clock reading `reading`.
    pub fn health_from(&mut self, reading: Option<(u64, u32)>) -> (r: HealthReport)
        requires
            old(self).wf(),
        ensures
            final(self).counted_from(old(self)),
            final(self).entries() == old(self).entries(),
            r.status@ == "healthy"@,
            stamp_for(r.timestamp, reading),
            r.database@ == "ok"@,
            r.memory@ == "ok"@,
            r.disk@ == "ok"@,
    {
        self.counter.increment();
        HealthReport {
            status: String::from_str("healthy"),
            timestamp: timestamp_of(reading),
            database: String::from_str("ok"),
            memory: String::from_str("ok"),
            disk: String::from_str("ok"),
        }
    }

    /// Reports the service healthy now, with fixed subsystem checks.
    pub fn health(&mut self) -> (r: HealthReport)
        requires
            old(self).wf(),
        ensures
            final(self).counted_from(old(self)),
            final(self).entries() == old(self).entries(),
            r.status@ == "healthy"@,
            some_stamp(r.timestamp),
            r.database@ == "ok"@,
            r.memory@ == "ok"@,
            r.disk@ == "ok"@,
    {
        let reading = clock_reading();
        self.health_from(reading)
    }

    /// The service's identity and its uptime at the clock reading `reading`,
    /// with the requests counted before this one.
    pub fn status_from(&mut self, reading: Option<(u64, u32)>) -> (r: ServiceInfo)
        requires
            old(self).wf(),
        ensures
            final(self).counted_from(old(self)),
            final(self).entries() == old(self).entries(),
            r.service@ == "faas-service"@,
            r.version@ == "1.0.0"@,
            r.instance_id@ == old(self).instance(),
            r.port == old(self).listen_port(),
            r.uptime@ == uptime_text(elapsed(old(self).start(), reading)),
            r.request_count == old(self).count(),
    {
        let request_count = self.counter.snapshot();
        self.counter.increment();
        let secs: u64 = match (self.started_at, reading) {
            (Some(start), Some((now, _))) => if now > start {
                now - start
            } else {
                0
            },
            _ => 0,
        };
        ServiceInfo {
            service: String::from_str("faas-service"),
            version: String::from_str("1.0.0"),
            instance_id: self.instance_id.clone(),
            port: self.port,
            uptime: format_uptime(secs),
            request_count,
        }
    }

    /// The service's identity and its uptime now.
    pub fn status(&mut self) -> (r: ServiceInfo)
        requires
            old(self).wf(),
        ensures
            final(self).counted_from(old(self)),
            final(self).entries() == old(self).entries(),
            r.service@ == "faas-service"@,
            r.version@ == "1.0.0"@,
            r.instance_id@ == old(self).instance(),
            r.port == old(self).listen_port(),
            exists|now: Option<(u64, u32)>| r.uptime@ == uptime_text(elapsed(old(self).start(), now)),
            r.request_count == old(self).count(),
    {
        let reading = clock_reading();
        self.status_from(reading)
    }

    /// A page of records: from `offset` (zero where not given), at most
    /// `limit` of them (ten where not given), with the store's size.
    pub fn list_data(&mut self, offset: Option<usize>, limit: Option<usize>) -> (r: ListPage)
        requires
            old(self).wf(),
        ensures
            final(self).counted_from(old(self)),
            final(self).entries() == old(self).entries(),
            r.offset == match offset {
                Some(o) => o,
                None => DEFAULT_OFFSET,
            },
            r.limit == match limit {
                Some(l) => l,
                None => DEFAULT_LIMIT,
            },
            entries_view(r.items@) == page(old(self).entries(), r.offset as int, r.limit as int),
            r.total == old(self).entries().len(),
    {
        self.counter.increment();
        let offset = match offset {
            Some(o) => o,
            None => DEFAULT_OFFSET,
        };
        let limit = match limit {
            Some(l) => l,
            None => DEFAULT_LIMIT,
        };
        let (items, total) = self.store.list(offset, limit);
        ListPage { items, total, limit, offset }
    }

    /// Stores `value` under a freshly generated key and returns that key.
    pub fn put_data(&mut self, value: Value) -> (r: String)
        requires
            old(self).wf(),
        ensures
            final(self).counted_from(old(self)),
            !has_key(old(self).entries(), r@),
            final(self).entries() == put_entries(old(self).entries(), r@, value),
    {
        self.counter.increment();
        self.store.put(None, value)
    }

    /// The document stored under `key`, or `NotFound`.
    pub fn get_by_key(&mut self, key: &String) -> (r: Result<Value, ServiceError>)
        requires
            old(self).wf(),
        ensures
            final(self).counted_from(old(self)),
            final(self).entries() == old(self).entries(),
            r == match lookup(old(self).entries(), key@) {
                Some(v) => Ok::<Value, ServiceError>(v),
                None => Err(ServiceError::NotFound),
            },
    {
        self.counter.increment();
        match self.store.get(key) {
            Some(v) => Ok(v),
            None => Err(ServiceError::NotFound),
        }
    }

    /// Removes the record with key `key`, or reports `NotFound`.
    pub fn delete_by_key(&mut self, key: &String) -> (r: Result<(), ServiceError>)
        requires
            old(self).wf(),
        ensures
            final(self).counted_from(old(self)),
            final(self).entries() == delete_entries(old(self).entries(), key@),
            r is Ok <==> has_key(old(self).entries(), key@),
            r is Err ==> r == Err::<(), ServiceError>(ServiceError::NotFound),
    {
        self.counter.increment();
        if self.store.delete(key) {
            Ok(())
        } else {
            Err(ServiceError::NotFound)
        }
    }

    /// The requests counted before this one and the number of records,
    /// stamped with the clock reading `reading`.
    pub fn metrics_from(&mut self, reading: Option<(u64, u32)>) -> (r: MetricsReport)
        requires
            old(self).wf(),
        ensures
            final(self).counted_from(old(self)),
            final(self).entries() == old(self).entries(),
            r.request_count == old(self).count(),
            r.stored_items == old(self).entries().len(),
            stamp_for(r.timestamp, reading),
    {
        let request_count = self.counter.snapshot();
        self.counter.increment();
        MetricsReport {
            request_count,
            stored_items: self.store.len(),
            timestamp: timestamp_of(reading),
        }
    }

    /// The requests counted before this one and the number of records, now.
    pub fn metrics(&mut self) -> (r: MetricsReport)
        requires
            old(self).wf(),
        ensures
            final(self).counted_from(old(self)),
            final(self).entries() == old(self).entries(),
            r.request_count == old(self).count(),
            r.stored_items == old(self).entries().len(),
            some_stamp(r.timestamp),
    {
        let reading = clock_reading();
        self.metrics_from(reading)
    }

    /// Hands `value` back, with the instance that answered, stamped with the
    /// clock reading `reading`.
    pub fn echo_from(&mut self, value: Value, reading: Option<(u64, u32)>) -> (r: EchoReply)
        requires
            old(self).wf(),
        ensures
            final(self).counted_from(old(self)),
            final(self).entries() == old(self).entries(),
            r.echo == value,
            r.instance@ == old(self).instance(),
            stamp_for(r.timestamp, reading),
    {
        self.counter.increment();
        EchoReply {
            echo: value,
            timestamp: timestamp_of(reading),
            instance: self.instance_id.clone(),
        }
    }

    /// Hands `value` back, with the instance that answered, now.
    pub fn echo(&mut self, value: Value) -> (r: EchoReply)
        requires
            old(self).wf(),
        ensures
            final(self).counted_from(old(self)),
            final(self).entries() == old(self).entries(),
            r.echo == value,
            r.instance@ == old(self).instance(),
            some_stamp(r.timestamp),
    {
        let reading = clock_reading();
        self.echo_from(value, reading)
    }
}

/// Counting over a run of operations: where each of `states` comes from the
/// one before by one service operation, the last counts the first's requests
/// plus one for each operation; exactly that many while it stays within the
/// range of `u64`, and never fewer than the number of operations. Calls made
/// concurrently under a lock form such a run.
pub proof fn lemma_counted_run(states: Seq<Service>)
    requires
        states.len() >= 1,
        forall|i: int| 0 <= i < states.len() - 1 ==> #[trigger] states[i + 1].counted_from(&states[i]),
    ensures
        states.last().count() == bumped_from(states[0].count(), (states.len() - 1) as nat),
        states[0].count() + states.len() - 1 <= u64::MAX ==> states.last().count() == states[0].count()
            + states.len() - 1,
        states.len() - 1 <= u64::MAX ==> states.last().count() >= states.len() - 1,
    decreases states.len(),
{
    let k = (states.len() - 1) as nat;
    if states.len() > 1 {
        let prefix = states.drop_last();
        assert forall|i: int| 0 <= i < prefix.len() - 1 implies #[trigger] prefix[i + 1].counted_from(
            &prefix[i],
        ) by {
            assert(prefix[i + 1] == states[i + 1]);
            assert(prefix[i] == states[i]);
            assert(states[i + 1].counted_from(&states[i]));
        }
        lemma_counted_run(prefix);
        let i = states.len() - 2;
        assert(states[i + 1].counted_from(&states[i]));
        assert(prefix.last() == states[i]);
    }
    if states[0].count() + k <= u64::MAX {
        lemma_count_exact(states[0].count(), k);
    }
    if k <= u64::MAX {
        lemma_count_at_least(states[0].count(), k);
    }
}

} // verus!
