use vstd::prelude::*;
use crate::entry::{Entry, EntryCommon};
use crate::error::ParseError;
use crate::priority::{priority_of, Priority};

verus! {

/// Whether some pair in `fields` carries the key `key`.
pub open spec fn has_field(fields: Seq<(String, String)>, key: Seq<char>) -> bool
    decreases fields.len(),
{
    if fields.len() == 0 {
        false
    } else if fields.last().0@ == key {
        true
    } else {
        has_field(fields.drop_last(), key)
    }
}

/// The value of the last pair in `fields` carrying the key `key`, or the
/// empty string when there is none. Keys are unique in a well-formed record,
/// so which occurrence wins is then immaterial.
pub open spec fn field_val(fields: Seq<(String, String)>, key: Seq<char>) -> Seq<char>
    decreases fields.len(),
{
    if fields.len() == 0 {
        Seq::empty()
    } else if fields.last().0@ == key {
        fields.last().1@
    } else {
        field_val(fields.drop_last(), key)
    }
}

/// The priority a record's fields call for: the parsed `PRIORITY=` value
/// when the field is present, the default otherwise.
pub open spec fn spec_priority(fields: Seq<(String, String)>) -> Option<Priority> {
    if has_field(fields, "PRIORITY"@) {
        priority_of(field_val(fields, "PRIORITY"@))
    } else {
        Some(Priority::Info)
    }
}

/// Whether `e` is the entry that parsing a record with these fields and this
/// receipt timestamp must produce: each recognized key filled into its field,
/// the rest left default, and the kind derived from whether the syslog
/// identifier is the literal `"systemd"`.
pub open spec fn parsed_entry(e: Entry, timestamp: u64, fields: Seq<(String, String)>) -> bool {
    let c = e.common();
    &&& c.slice@ == field_val(fields, "_SYSTEMD_SLICE"@)
    &&& c.systemd_unit@ == field_val(fields, "_SYSTEMD_UNIT"@)
    &&& c.syslog_id@ == field_val(fields, "SYSLOG_IDENTIFIER"@)
    &&& c.message@ == field_val(fields, "MESSAGE"@)
    &&& c.unit@ == field_val(fields, "UNIT"@)
    &&& c.comm@.len() == 0
    &&& c.timestamp == timestamp
    &&& Some(c.priority) == spec_priority(fields)
    &&& (e is System <==> field_val(fields, "SYSLOG_IDENTIFIER"@) == "systemd"@)
}

/// Extending the scanned prefix of a field list by one pair moves the lookup
/// to that pair when its key matches, and changes nothing otherwise.
proof fn lemma_field_scan_step(fields: Seq<(String, String)>, i: int, key: Seq<char>)
    requires
        0 <= i < fields.len(),
    ensures
        field_val(fields.take(i + 1), key) == if fields[i].0@ == key {
            fields[i].1@
        } else {
            field_val(fields.take(i), key)
        },
        has_field(fields.take(i + 1), key) == (fields[i].0@ == key || has_field(
            fields.take(i),
            key,
        )),
{
    assert(fields.take(i + 1).drop_last() =~= fields.take(i));
    assert(fields.take(i + 1).last() == fields[i]);
}

/// Turn one raw record into a typed entry. Field order is immaterial and
/// unrecognized keys are ignored; the kind is derived from the syslog
/// identifier; a `PRIORITY=` value outside `"0"`..`"7"` is a recoverable
/// parse error, so one malformed record never costs the stream.
pub fn parse_journal_kv(timestamp: u64, fields: &Vec<(String, String)>) -> (r: Result<
    Entry,
    ParseError,
>)
    ensures
        r is Ok <==> spec_priority(fields@) is Some,
        r matches Ok(e) ==> parsed_entry(e, timestamp, fields@),
        r matches Err(pe) ==> (pe matches ParseError::InvalidPriority(v) && v@ == field_val(
            fields@,
            "PRIORITY"@,
        ) && priority_of(v@) is None),
{
    let key_slice: String = "_SYSTEMD_SLICE".to_owned();
    let key_systemd_unit: String = "_SYSTEMD_UNIT".to_owned();
    let key_syslog_id: String = "SYSLOG_IDENTIFIER".to_owned();
    let key_message: String = "MESSAGE".to_owned();
    let key_unit: String = "UNIT".to_owned();
    let key_priority: String = "PRIORITY".to_owned();

    let mut common = EntryCommon::with_timestamp(timestamp);
    let mut priority_raw: Option<String> = None;

    let n = fields.len();
    let mut i: usize = 0;
    while i < n
        invariant
            i <= n,
            n == fields@.len(),
            key_slice@ == "_SYSTEMD_SLICE"@,
            key_systemd_unit@ == "_SYSTEMD_UNIT"@,
            key_syslog_id@ == "SYSLOG_IDENTIFIER"@,
            key_message@ == "MESSAGE"@,
            key_unit@ == "UNIT"@,
            key_priority@ == "PRIORITY"@,
            common.slice@ == field_val(fields@.take(i as int), "_SYSTEMD_SLICE"@),
            common.systemd_unit@ == field_val(fields@.take(i as int), "_SYSTEMD_UNIT"@),
            common.syslog_id@ == field_val(fields@.take(i as int), "SYSLOG_IDENTIFIER"@),
            common.message@ == field_val(fields@.take(i as int), "MESSAGE"@),
            common.unit@ == field_val(fields@.take(i as int), "UNIT"@),
            common.comm@.len() == 0,
            common.timestamp == timestamp,
            common.priority == Priority::Info,
            priority_raw is Some <==> has_field(fields@.take(i as int), "PRIORITY"@),
            priority_raw matches Some(s) ==> s@ == field_val(fields@.take(i as int), "PRIORITY"@),
        decreases n - i,
    {
        proof {
            reveal_strlit("_SYSTEMD_SLICE");
            reveal_strlit("_SYSTEMD_UNIT");
            reveal_strlit("SYSLOG_IDENTIFIER");
            reveal_strlit("MESSAGE");
            reveal_strlit("UNIT");
            reveal_strlit("PRIORITY");
            assert("_SYSTEMD_SLICE"@.len() == 14);
            assert("_SYSTEMD_UNIT"@.len() == 13);
            assert("SYSLOG_IDENTIFIER"@.len() == 17);
            assert("MESSAGE"@.len() == 7);
            assert("UNIT"@.len() == 4);
            assert("PRIORITY"@.len() == 8);
            lemma_field_scan_step(fields@, i as int, "_SYSTEMD_SLICE"@);
            lemma_field_scan_step(fields@, i as int, "_SYSTEMD_UNIT"@);
            lemma_field_scan_step(fields@, i as int, "SYSLOG_IDENTIFIER"@);
            lemma_field_scan_step(fields@, i as int, "MESSAGE"@);
            lemma_field_scan_step(fields@, i as int, "UNIT"@);
            lemma_field_scan_step(fields@, i as int, "PRIORITY"@);
        }
        let k = &fields[i].0;
        let v = &fields[i].1;
        if *k == key_slice {
            common.slice = v.clone();
        } else if *k == key_systemd_unit {
            common.systemd_unit = v.clone();
        } else if *k == key_syslog_id {
            common.syslog_id = v.clone();
        } else if *k == key_message {
            common.message = v.clone();
        } else if *k == key_unit {
            common.unit = v.clone();
        } else if *k == key_priority {
            priority_raw = Some(v.clone());
        }
        i = i + 1;
    }
    assert(fields@.take(n as int) =~= fields@);

    if let Some(raw) = priority_raw {
        match Priority::parse(raw.as_str()) {
            Ok(p) => common.priority = p,
            Err(pe) => {
                return Err(pe);
            },
        }
    }

    let systemd_lit: String = "systemd".to_owned();
    if common.syslog_id == systemd_lit {
        Ok(Entry::System(common))
    } else {
        Ok(Entry::Service(common))
    }
}

} // verus!
