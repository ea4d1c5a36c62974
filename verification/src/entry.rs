use vstd::prelude::*;
use crate::priority::Priority;

verus! {

/// The fields of one parsed log record, shared by both entry kinds.
#[derive(Debug, Clone)]
pub struct EntryCommon {
    /// field `_SYSTEMD_SLICE=`
    pub slice: String,
    /// field `_SYSTEMD_UNIT=`: the unit whose process wrote the record
    pub systemd_unit: String,
    /// field `_COMM=`
    pub comm: String,
    /// field `SYSLOG_IDENTIFIER=`
    pub syslog_id: String,
    /// when the record was received, in microseconds since the epoch
    pub timestamp: u64,
    /// field `MESSAGE=`
    pub message: String,
    /// field `UNIT=`: for manager-written records, the unit written about
    pub unit: String,
    /// field `PRIORITY=`, syslog levels
    pub priority: Priority,
}

impl EntryCommon {
    /// A record carrying only its receipt timestamp; every other field still
    /// holds its default.
    pub fn with_timestamp(timestamp: u64) -> (r: Self)
        ensures
            r.timestamp == timestamp,
            r.slice@.len() == 0,
            r.systemd_unit@.len() == 0,
            r.comm@.len() == 0,
            r.syslog_id@.len() == 0,
            r.message@.len() == 0,
            r.unit@.len() == 0,
            r.priority == Priority::Info,
    {
        EntryCommon {
            timestamp,
            slice: String::new(),
            systemd_unit: String::new(),
            comm: String::new(),
            syslog_id: String::new(),
            message: String::new(),
            unit: String::new(),
            priority: Priority::default(),
        }
    }
}

/// One log record. The kind is derived once at parse time from the
/// `SYSLOG_IDENTIFIER=` field and never changes afterwards: records written
/// by the service manager itself are `System`, a service's own output is
/// `Service`.
#[derive(Debug, Clone)]
pub enum Entry {
    System(EntryCommon),
    Service(EntryCommon),
}

impl Entry {
    /// The shared fields, whichever the kind.
    pub open spec fn common(self) -> EntryCommon {
        match self {
            Entry::System(c) => c,
            Entry::Service(c) => c,
        }
    }

    /// The unit a record belongs to: the `UNIT=` field for manager-written
    /// records, the `_SYSTEMD_UNIT=` field for a service's own output.
    pub open spec fn spec_unit(self) -> Seq<char> {
        match self {
            Entry::System(c) => c.unit@,
            Entry::Service(c) => c.systemd_unit@,
        }
    }

    /// Whether this record belongs to the unit named `s`.
    pub fn is_for_unit(&self, s: &str) -> (r: bool)
        ensures
            r == (self.spec_unit() == s@),
    {
        let t: String = s.to_owned();
        match self {
            Entry::System(c) => c.unit == t,
            Entry::Service(c) => c.systemd_unit == t,
        }
    }

    /// The name of the unit this record belongs to.
    pub fn unit(&self) -> (r: &str)
        ensures
            r@ == self.spec_unit(),
    {
        match self {
            Entry::System(c) => c.unit.as_str(),
            Entry::Service(c) => c.systemd_unit.as_str(),
        }
    }

    /// The record's message text.
    pub fn message(&self) -> (r: &str)
        ensures
            r@ == self.common().message@,
    {
        match self {
            Entry::System(c) => c.message.as_str(),
            Entry::Service(c) => c.message.as_str(),
        }
    }

    /// The record's severity.
    pub fn priority(&self) -> (r: Priority)
        ensures
            r == self.common().priority,
    {
        match self {
            Entry::System(c) => c.priority,
            Entry::Service(c) => c.priority,
        }
    }

    /// The kind discriminator, as shown to the consumer.
    pub fn kind(&self) -> (r: &str)
        ensures
            self is System ==> r@ == "system"@,
            self is Service ==> r@ == "service"@,
    {
        match self {
            Entry::Service(_) => "service",
            Entry::System(_) => "system",
        }
    }

    /// When the record was received, in microseconds since the epoch.
    pub fn timestamp(&self) -> (r: u64)
        ensures
            r == self.common().timestamp,
    {
        match self {
            Entry::System(c) => c.timestamp,
            Entry::Service(c) => c.timestamp,
        }
    }
}

} // verus!
