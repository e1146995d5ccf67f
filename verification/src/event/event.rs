//! The event: an identified, time-stamped JSON payload with metadata.
use vstd::prelude::*;
use crate::clock::{four_digit_year, is_offset_safe, now, offset_safe, offset_suffix, rfc3339_nanos, rfc3339_nanos_text, rfc3339_parse, rfc3339_text, rfc3339_utc, parse_rfc3339, Timestamp};
use crate::ident::{fresh_id, id_text, is_v4, parse_id, uuid_parse, uuid_text};
use crate::json::{compact_text, json_compact, json_parse, keys_ascending, parse_text, plain_json, view_of, JsonError, JsonValue, JsonView, ObjectMap};
use crate::text::text_lt;

verus! {

/// The fields of a payload: its entries when it is an object, none otherwise.
pub open spec fn fields_of(d: JsonValue) -> Map<Seq<char>, JsonView> {
    match d {
        JsonValue::Object(m) => m@,
        _ => Map::empty(),
    }
}

/// The core event of the pipeline.
#[derive(Debug)]
pub struct Event {
    id: u128,
    timestamp: Timestamp,
    metadata: ObjectMap,
    data: JsonValue,
}

impl Event {
    /// The identifier.
    pub closed spec fn spec_id(&self) -> u128 {
        self.id
    }

    /// The time stamp.
    pub closed spec fn spec_timestamp(&self) -> Timestamp {
        self.timestamp
    }

    /// The metadata.
    pub closed spec fn spec_metadata(&self) -> ObjectMap {
        self.metadata
    }

    /// The payload.
    pub closed spec fn spec_data(&self) -> JsonValue {
        self.data
    }

    /// The payload's fields.
    pub open spec fn fields(&self) -> Map<Seq<char>, JsonView> {
        fields_of(self.spec_data())
    }

    /// A new event holding `data`, with a fresh random identifier, the
    /// current time and no metadata.
    pub fn new(data: JsonValue) -> (e: Event)
        ensures
            e.spec_data() == data,
            e.spec_metadata()@ == Map::<Seq<char>, JsonView>::empty(),
            e.spec_metadata().spec_entries().len() == 0,
            is_v4(e.spec_id()),
            e.spec_timestamp().nanos < 1_000_000_000,
    {
        Event { id: fresh_id(), timestamp: now(), metadata: ObjectMap::new(), data }
    }

    /// A new event holding `data` and `metadata`, with a fresh random
    /// identifier and the current time.
    pub fn with_metadata(data: JsonValue, metadata: ObjectMap) -> (e: Event)
        ensures
            e.spec_data() == data,
            e.spec_metadata() == metadata,
            is_v4(e.spec_id()),
            e.spec_timestamp().nanos < 1_000_000_000,
    {
        Event { id: fresh_id(), timestamp: now(), metadata, data }
    }

    /// Assembles an event from its parts.
    pub fn from_parts(id: u128, timestamp: Timestamp, metadata: ObjectMap, data: JsonValue) -> (e: Event)
        ensures
            e.spec_id() == id,
            e.spec_timestamp() == timestamp,
            e.spec_metadata() == metadata,
            e.spec_data() == data,
    {
        Event { id, timestamp, metadata, data }
    }

    /// The identifier.
    pub fn id(&self) -> (r: u128)
        ensures
            r == self.spec_id(),
    {
        self.id
    }

    /// The time stamp.
    pub fn timestamp(&self) -> (r: Timestamp)
        ensures
            r == self.spec_timestamp(),
    {
        self.timestamp
    }

    /// Replaces the time stamp.
    pub fn set_timestamp(&mut self, timestamp: Timestamp)
        ensures
            final(self).spec_timestamp() == timestamp,
            final(self).spec_id() == old(self).spec_id(),
            final(self).spec_metadata() == old(self).spec_metadata(),
            final(self).spec_data() == old(self).spec_data(),
    {
        self.timestamp = timestamp;
    }

    /// The payload.
    pub fn data(&self) -> (r: &JsonValue)
        ensures
            *r == self.spec_data(),
    {
        &self.data
    }

    /// The payload, for change in place.
    pub fn data_mut(&mut self) -> (r: &mut JsonValue)
        ensures
            *r == old(self).spec_data(),
            final(self).spec_data() == *final(r),
            final(self).spec_id() == old(self).spec_id(),
            final(self).spec_timestamp() == old(self).spec_timestamp(),
            final(self).spec_metadata() == old(self).spec_metadata(),
    {
        &mut self.data
    }

    /// The metadata.
    pub fn metadata(&self) -> (r: &ObjectMap)
        ensures
            *r == self.spec_metadata(),
    {
        &self.metadata
    }

    /// The metadata, for change in place.
    pub fn metadata_mut(&mut self) -> (r: &mut ObjectMap)
        ensures
            *r == old(self).spec_metadata(),
            final(self).spec_metadata() == *final(r),
            final(self).spec_id() == old(self).spec_id(),
            final(self).spec_timestamp() == old(self).spec_timestamp(),
            final(self).spec_data() == old(self).spec_data(),
    {
        &mut self.metadata
    }

    /// The payload field `field`, when the payload is an object holding it.
    pub fn get(&self, field: &str) -> (r: Option<&JsonValue>)
        ensures
            r matches Some(v) ==> self.spec_data().spec_field(field@) == Some(*v),
            r is None ==> self.spec_data().spec_field(field@) is None,
            r is Some <==> self.fields().dom().contains(field@),
    {
        self.data.get(field)
    }

    /// Stores `value` under `field` in the payload. A payload that is not an
    /// object is replaced by an object holding only this field.
    pub fn set(&mut self, field: &str, value: JsonValue)
        ensures
            final(self).spec_data() is Object,
            final(self).fields() == old(self).fields().insert(field@, value@),
            final(self).spec_data().spec_field(field@) == Some(value),
            forall|k: Seq<char>| k != field@ ==> #[trigger] final(self).spec_data().spec_field(k) == old(self).spec_data().spec_field(k),
            final(self).spec_id() == old(self).spec_id(),
            final(self).spec_timestamp() == old(self).spec_timestamp(),
            final(self).spec_metadata() == old(self).spec_metadata(),
    {
        let key = crate::text::text_of(field);
        match &mut self.data {
            JsonValue::Object(m) => {
                let _ = m.insert(key, value);
            },
            _ => {
                let mut m = ObjectMap::new();
                let _ = m.insert(key, value);
                self.data = JsonValue::Object(m);
                proof {
                    assert(fields_of(old(self).spec_data()) == Map::<Seq<char>, JsonView>::empty());
                }
            },
        }
    }

    /// Removes `field` from the payload and returns its value; nothing
    /// happens when the payload is not an object.
    pub fn remove(&mut self, field: &str) -> (r: Option<JsonValue>)
        ensures
            r == old(self).spec_data().spec_field(field@),
            final(self).fields() == old(self).fields().remove(field@),
            final(self).spec_data().spec_field(field@) is None,
            forall|k: Seq<char>| k != field@ ==> #[trigger] final(self).spec_data().spec_field(k) == old(self).spec_data().spec_field(k),
            old(self).spec_data() is Object <==> final(self).spec_data() is Object,
            !(old(self).spec_data() is Object) ==> final(self).spec_data() == old(self).spec_data(),
            final(self).spec_id() == old(self).spec_id(),
            final(self).spec_timestamp() == old(self).spec_timestamp(),
            final(self).spec_metadata() == old(self).spec_metadata(),
    {
        match &mut self.data {
            JsonValue::Object(m) => m.remove(field),
            _ => {
                proof {
                    assert(fields_of(old(self).spec_data()).remove(field@) =~= fields_of(old(self).spec_data()));
                }
                None
            },
        }
    }

    /// Whether the payload holds `field`.
    pub fn contains(&self, field: &str) -> (b: bool)
        ensures
            b == self.fields().dom().contains(field@),
            b == self.spec_data().spec_field(field@) is Some,
    {
        self.data.get(field).is_some()
    }

    /// The metadata entry `key`.
    pub fn get_metadata(&self, key: &str) -> (r: Option<&JsonValue>)
        ensures
            r matches Some(v) ==> self.spec_metadata().spec_get(key@) == Some(*v),
            r is None ==> self.spec_metadata().spec_get(key@) is None,
    {
        self.metadata.get(key)
    }

    /// Stores `value` under `key` in the metadata.
    pub fn add_metadata(&mut self, key: &str, value: JsonValue)
        ensures
            final(self).spec_metadata()@ == old(self).spec_metadata()@.insert(key@, value@),
            final(self).spec_metadata().spec_get(key@) == Some(value),
            final(self).spec_id() == old(self).spec_id(),
            final(self).spec_timestamp() == old(self).spec_timestamp(),
            final(self).spec_data() == old(self).spec_data(),
    {
        let _ = self.metadata.insert(crate::text::text_of(key), value);
    }

    /// Removes the metadata entry `key` and returns its value.
    pub fn remove_metadata(&mut self, key: &str) -> (r: Option<JsonValue>)
        ensures
            r == old(self).spec_metadata().spec_get(key@),
            final(self).spec_metadata()@ == old(self).spec_metadata()@.remove(key@),
            final(self).spec_id() == old(self).spec_id(),
            final(self).spec_timestamp() == old(self).spec_timestamp(),
            final(self).spec_data() == old(self).spec_data(),
    {
        self.metadata.remove(key)
    }

    /// Whether the payload is `null` or an object without fields.
    pub fn is_empty(&self) -> (b: bool)
        ensures
            b == (self.spec_data() is Null || (self.spec_data() is Object && self.fields() == Map::<Seq<char>, JsonView>::empty())),
    {
        match &self.data {
            JsonValue::Null => true,
            JsonValue::Object(m) => m.is_empty(),
            _ => false,
        }
    }
}

/// Stores every entry of `from` into `into`; entries of `from` win.
pub fn insert_all(into: &mut ObjectMap, from: &ObjectMap)
    ensures
        final(into)@ == old(into)@.union_prefer_right(from@),
{
    let entries = from.entries();
    let ghost e = entries@;
    let mut i: usize = 0;
    proof {
        assert(old(into)@ =~= old(into)@.union_prefer_right(Map::<Seq<char>, JsonView>::empty()));
    }
    while i < entries.len()
        invariant
            0 <= i <= e.len(),
            e == entries@,
            e == from.spec_entries(),
            crate::json::keys_ascending(e),
            into@ == old(into)@.union_prefer_right(prefix_map(e, i as int)),
        decreases e.len() - i,
    {
        let k = entries[i].0.clone();
        let v = entries[i].1.clone();
        let _ = into.insert(k, v);
        proof {
            assert(prefix_map(e, i + 1) == prefix_map(e, i as int).insert(e[i as int].0@, e[i as int].1@));
            assert(into@ =~= old(into)@.union_prefer_right(prefix_map(e, i + 1)));
        }
        i = i + 1;
    }
    proof {
        lemma_prefix_map_full(from);
    }
}

/// The map made of the first `n` entries of `e`.
pub open spec fn prefix_map(e: Seq<(String, JsonValue)>, n: int) -> Map<Seq<char>, JsonView>
    decreases n,
{
    if n <= 0 {
        Map::empty()
    } else {
        prefix_map(e, n - 1).insert(e[n - 1].0@, e[n - 1].1@)
    }
}

proof fn lemma_prefix_map_lookup(e: Seq<(String, JsonValue)>, n: int, k: Seq<char>)
    requires
        crate::json::keys_ascending(e),
        0 <= n <= e.len(),
    ensures
        prefix_map(e, n).dom().contains(k) <==> crate::json::lookup(e.take(n), k) is Some,
        prefix_map(e, n).dom().contains(k) ==> prefix_map(e, n)[k] == crate::json::lookup(e.take(n), k)->Some_0@,
    decreases n,
{
    let t = e.take(n);
    assert forall|a: int, b: int| 0 <= a < b < t.len() implies crate::text::text_lt(#[trigger] t[a].0@, #[trigger] t[b].0@) by {
        assert(t[a] == e[a] && t[b] == e[b]);
    }
    crate::json::lemma_lookup_iff(t, k);
    if n > 0 {
        lemma_prefix_map_lookup(e, n - 1, k);
        let t1 = e.take(n - 1);
        assert forall|a: int, b: int| 0 <= a < b < t1.len() implies crate::text::text_lt(#[trigger] t1[a].0@, #[trigger] t1[b].0@) by {
            assert(t1[a] == e[a] && t1[b] == e[b]);
        }
        crate::json::lemma_lookup_iff(t1, k);
        assert forall|j: int| 0 <= j < t1.len() implies #[trigger] t1[j] == t[j] by {}
        if k == e[n - 1].0@ {
            assert(t[n - 1].0@ == k);
        } else {
            if crate::json::lookup(t, k) is Some {
                crate::json::lemma_lookup_found(t, k);
                let j = choose|j: int| 0 <= j < t.len() && #[trigger] t[j].0@ == k && crate::json::lookup(t, k) == Some(t[j].1);
                assert(j != n - 1);
                assert(t1[j] == t[j]);
            }
            if crate::json::lookup(t1, k) is Some {
                crate::json::lemma_lookup_found(t1, k);
                let j = choose|j: int| 0 <= j < t1.len() && #[trigger] t1[j].0@ == k && crate::json::lookup(t1, k) == Some(t1[j].1);
                assert(t1[j] == t[j]);
            }
        }
    }
}

/// The map of all the entries of `m` is its view.
pub proof fn lemma_prefix_map_full(m: &ObjectMap)
    requires
        crate::json::keys_ascending(m.spec_entries()),
    ensures
        prefix_map(m.spec_entries(), m.spec_entries().len() as int) == m@,
{
    let e = m.spec_entries();
    assert(e.take(e.len() as int) =~= e);
    assert forall|k: Seq<char>| #[trigger] prefix_map(e, e.len() as int).dom().contains(k) == m@.dom().contains(k) by {
        lemma_prefix_map_lookup(e, e.len() as int, k);
    }
    assert forall|k: Seq<char>| prefix_map(e, e.len() as int).dom().contains(k) implies #[trigger] prefix_map(e, e.len() as int)[k] == m@[k] by {
        lemma_prefix_map_lookup(e, e.len() as int, k);
    }
    assert(prefix_map(e, e.len() as int) =~= m@);
}

impl Event {
    /// Merges `other` into this event: its metadata entries are stored into
    /// this event's metadata, and, when both payloads are objects, its
    /// payload fields into this payload; entries of `other` win.
    pub fn merge(&mut self, other: Event)
        ensures
            final(self).spec_metadata()@ == old(self).spec_metadata()@.union_prefer_right(other.spec_metadata()@),
            (old(self).spec_data() is Object && other.spec_data() is Object) ==> final(self).spec_data() is Object
                && final(self).fields() == old(self).fields().union_prefer_right(other.fields()),
            !(old(self).spec_data() is Object && other.spec_data() is Object) ==> final(self).spec_data() == old(self).spec_data(),
            final(self).spec_id() == old(self).spec_id(),
            final(self).spec_timestamp() == old(self).spec_timestamp(),
    {
        insert_all(&mut self.metadata, &other.metadata);
        match (&mut self.data, &other.data) {
            (JsonValue::Object(mine), JsonValue::Object(theirs)) => {
                insert_all(mine, theirs);
            },
            _ => {},
        }
    }
}


/// The offset of Asia/Shanghai from UTC, in seconds, at which events are stamped.
pub const SHANGHAI_OFFSET_SECS: i32 = 28800;

/// The text that stamps an event read from the clock at `at`: RFC 3339 with
/// nanoseconds at +08:00; for an instant too near the end of chrono's range
/// for that offset, which chrono cannot write, the UTC text instead.
pub open spec fn stamp_text(at: Timestamp) -> Seq<char> {
    if offset_safe(at) {
        rfc3339_nanos(at.secs, at.nanos, SHANGHAI_OFFSET_SECS)
    } else {
        rfc3339_utc(at.secs, at.nanos)
    }
}

/// Whether a stamp text has the shape written at +08:00: a `T` between
/// the date and the time, and `+08:00` last.
pub open spec fn shanghai_shaped(t: Seq<char>) -> bool {
    &&& t.contains('T')
    &&& t.len() >= 6
    &&& t.skip(t.len() - 6) == "+08:00"@
}

/// chrono ends text at +08:00 with `+08:00`.
proof fn lemma_shanghai_suffix()
    ensures
        offset_suffix(SHANGHAI_OFFSET_SECS as int) == "+08:00"@,
{
    reveal_strlit("+08:00");
    assert(offset_suffix(SHANGHAI_OFFSET_SECS as int) =~= "+08:00"@);
}

/// The JSON object that `to_json` writes for an event.
pub open spec fn event_object(e: Event) -> JsonView {
    JsonView::Object(seq![
        ("data"@, e.spec_data()@),
        ("id"@, JsonView::Str(uuid_text(e.spec_id()))),
        ("metadata"@, JsonView::Object(e.spec_metadata().entries_view())),
        ("timestamp"@, JsonView::Str(rfc3339_utc(e.spec_timestamp().secs, e.spec_timestamp().nanos))),
    ])
}

/// The JSON text that `to_json` writes for an event.
pub open spec fn event_json(e: Event) -> Seq<char> {
    json_compact(event_object(e))
}

/// An event whose JSON text reads back exactly: its object is plain JSON.
pub open spec fn event_plain(e: Event) -> bool {
    plain_json(event_object(e), 127)
}

/// The identifier read from a field: a UUID text that parses, or `fresh`.
pub open spec fn id_from_field(f: Option<JsonValue>, fresh: u128) -> u128 {
    match f {
        Some(JsonValue::String(s)) => match uuid_parse(s@) {
            Some(u) => u,
            None => fresh,
        },
        _ => fresh,
    }
}

/// The instant read from a field: an RFC 3339 text that parses, or `now`.
pub open spec fn time_from_field(f: Option<JsonValue>, now: Timestamp) -> Timestamp {
    match f {
        Some(JsonValue::String(s)) => match rfc3339_parse(s@) {
            Some(p) => Timestamp { secs: p.0, nanos: p.1 },
            None => now,
        },
        _ => now,
    }
}

/// The metadata read from a field: an object's entries, or none.
pub open spec fn metadata_from_field(f: Option<JsonValue>) -> Map<Seq<char>, JsonView> {
    match f {
        Some(JsonValue::Object(m)) => m@,
        _ => Map::empty(),
    }
}

/// The payload read from a field: its value, or an empty object.
pub open spec fn data_from_field(f: Option<JsonValue>) -> JsonView {
    match f {
        Some(d) => d@,
        None => JsonView::Object(Seq::empty()),
    }
}

proof fn lemma_event_keys_ascending()
    ensures
        text_lt("data"@, "id"@),
        text_lt("id"@, "metadata"@),
        text_lt("metadata"@, "timestamp"@),
{
    reveal_strlit("data");
    reveal_strlit("id");
    reveal_strlit("metadata");
    reveal_strlit("timestamp");
}

impl Event {
    /// Stamps the payload's `@timestamp` field with `at`, written in
    /// RFC 3339 with nanoseconds at +08:00, unless the payload already holds
    /// that field. The instant must lie well inside chrono's range, where
    /// that offset can be written.
    pub fn ensure_timestamp_at(&mut self, at: Timestamp)
        requires
            offset_safe(at),
        ensures
            old(self).fields().dom().contains("@timestamp"@) ==> *final(self) == *old(self),
            !old(self).fields().dom().contains("@timestamp"@) ==> final(self).fields() == old(self).fields().insert(
                "@timestamp"@,
                JsonView::Str(rfc3339_nanos(at.secs, at.nanos, SHANGHAI_OFFSET_SECS)),
            ) && final(self).spec_data() is Object,
            final(self).spec_id() == old(self).spec_id(),
            final(self).spec_timestamp() == old(self).spec_timestamp(),
            final(self).spec_metadata() == old(self).spec_metadata(),
            !old(self).fields().dom().contains("@timestamp"@) && at.nanos < 1_000_000_000 ==> shanghai_shaped(rfc3339_nanos(at.secs, at.nanos, SHANGHAI_OFFSET_SECS)),
    {
        if !self.contains("@timestamp") {
            let text = rfc3339_nanos_text(at, SHANGHAI_OFFSET_SECS);
            proof {
                lemma_shanghai_suffix();
            }
            self.set("@timestamp", JsonValue::String(text));
        }
    }

    /// Stamps the payload's `@timestamp` field with the current time, written
    /// as `stamp_text` gives it (RFC 3339 with nanoseconds at +08:00), unless
    /// it is already there.
    pub fn ensure_timestamp(&mut self)
        ensures
            old(self).fields().dom().contains("@timestamp"@) ==> *final(self) == *old(self),
            !old(self).fields().dom().contains("@timestamp"@) ==> final(self).spec_data() is Object && exists|at: Timestamp| final(self).fields() == old(self).fields().insert(
                "@timestamp"@,
                JsonView::Str(stamp_text(at)),
            ) && (offset_safe(at) ==> shanghai_shaped(stamp_text(at))),
            final(self).spec_id() == old(self).spec_id(),
            final(self).spec_timestamp() == old(self).spec_timestamp(),
            final(self).spec_metadata() == old(self).spec_metadata(),
    {
        let at = now();
        if is_offset_safe(at) {
            self.ensure_timestamp_at(at);
            proof {
                if !old(self).fields().dom().contains("@timestamp"@) {
                    assert(final(self).fields() == old(self).fields().insert("@timestamp"@, JsonView::Str(stamp_text(at))));
                }
            }
        } else if !self.contains("@timestamp") {
            let text = rfc3339_text(at);
            let ghost tv = text@;
            self.set("@timestamp", JsonValue::String(text));
            proof {
                assert(tv == stamp_text(at));
                assert(JsonValue::String(text)@ == JsonView::Str(stamp_text(at)));
                assert(final(self).fields() == old(self).fields().insert("@timestamp"@, JsonView::Str(stamp_text(at))));
            }
        }
    }

    /// The event as JSON text: an object holding the payload under "data",
    /// the identifier under "id", the metadata under "metadata" and the time
    /// stamp, in RFC 3339, under "timestamp".
    pub fn to_json(&self) -> (r: Result<String, JsonError>)
        ensures
            r matches Ok(t) && t@ == event_json(*self),
    {
        let obj = self.to_json_value();
        Ok(compact_text(&obj))
    }

    /// The JSON object that `to_json` writes.
    pub fn to_json_value(&self) -> (r: JsonValue)
        ensures
            r@ == event_object(*self),
    {
        let d = self.data.clone();
        let id = JsonValue::String(id_text(self.id));
        let md = JsonValue::Object(self.metadata.clone());
        let ts = JsonValue::String(rfc3339_text(self.timestamp));
        let mut entries: Vec<(String, JsonValue)> = Vec::new();
        entries.push((crate::text::text_of("data"), d));
        entries.push((crate::text::text_of("id"), id));
        entries.push((crate::text::text_of("metadata"), md));
        entries.push((crate::text::text_of("timestamp"), ts));
        proof {
            lemma_event_keys_ascending();
            crate::text::lemma_text_lt_transitive("data"@, "id"@, "metadata"@);
            crate::text::lemma_text_lt_transitive("data"@, "metadata"@, "timestamp"@);
            crate::text::lemma_text_lt_transitive("id"@, "metadata"@, "timestamp"@);
            assert(keys_ascending(entries@));
        }
        let m = ObjectMap::from_ascending(entries);
        proof {
            crate::json::lemma_view_entries(entries@);
            assert(m.entries_view() =~= seq![
                ("data"@, self.spec_data()@),
                ("id"@, JsonView::Str(uuid_text(self.spec_id()))),
                ("metadata"@, JsonView::Object(self.spec_metadata().entries_view())),
                ("timestamp"@, JsonView::Str(rfc3339_utc(self.spec_timestamp().secs, self.spec_timestamp().nanos))),
            ]);
        }
        JsonValue::Object(m)
    }

    /// Builds an event from a JSON value laid out as `to_json` writes it.
    /// A missing or unreadable "id" gives `fresh`, a missing or unreadable
    /// "timestamp" gives `at`, a missing or non-object "metadata" gives no
    /// metadata, a missing "data" gives an empty object.
    pub fn from_json_value(value: &JsonValue, fresh: u128, at: Timestamp) -> (e: Event)
        ensures
            e.spec_id() == id_from_field(value.spec_field("id"@), fresh),
            e.spec_timestamp() == time_from_field(value.spec_field("timestamp"@), at),
            e.spec_metadata()@ == metadata_from_field(value.spec_field("metadata"@)),
            e.spec_data()@ == data_from_field(value.spec_field("data"@)),
            value.spec_field("id"@) matches Some(JsonValue::String(s)) ==> forall|u: u128| #[trigger] uuid_text(u) == s@ ==> e.spec_id() == u,
            value.spec_field("timestamp"@) matches Some(JsonValue::String(s)) ==> forall|t: Timestamp|
                four_digit_year(t) && #[trigger] rfc3339_utc(t.secs, t.nanos) == s@ ==> e.spec_timestamp() == t,
    {
        let id = match value.get("id") {
            Some(JsonValue::String(s)) => match parse_id(s.as_str()) {
                Some(u) => u,
                None => fresh,
            },
            _ => fresh,
        };
        let timestamp = match value.get("timestamp") {
            Some(JsonValue::String(s)) => match parse_rfc3339(s.as_str()) {
                Some(t) => t,
                None => at,
            },
            _ => at,
        };
        let metadata = match value.get("metadata") {
            Some(JsonValue::Object(m)) => m.clone(),
            _ => ObjectMap::new(),
        };
        let data = match value.get("data") {
            Some(d) => d.clone(),
            None => JsonValue::empty_object(),
        };
        Event { id, timestamp, metadata, data }
    }

    /// Reads an event from JSON text laid out as `to_json` writes it. The
    /// text must be JSON; what it holds is read as `from_json_value` reads
    /// it, with a fresh random identifier and the current time standing in
    /// for an unreadable "id" or "timestamp". The text that `to_json` wrote
    /// for an event of plain JSON reads back with the same identifier,
    /// metadata and payload.
    pub fn from_json(json_str: &str) -> (r: Result<Event, JsonError>)
        ensures
            r is Err <==> json_parse(json_str@) is Err,
            r matches Err(e) ==> json_parse(json_str@)->Err_0 == e.message@,
            r matches Ok(e) ==> exists|v: JsonValue, fresh: u128, at: Timestamp|
                json_parse(json_str@) is Ok && json_parse(json_str@)->Ok_0 == v@
                && e.spec_id() == id_from_field(v.spec_field("id"@), fresh)
                && e.spec_timestamp() == time_from_field(v.spec_field("timestamp"@), at)
                && e.spec_metadata()@ == metadata_from_field(v.spec_field("metadata"@))
                && e.spec_data()@ == data_from_field(v.spec_field("data"@)),
            forall|src: Event| #[trigger] event_json(src) == json_str@ && event_plain(src) ==> r is Ok
                && r->Ok_0.spec_id() == src.spec_id()
                && r->Ok_0.spec_data()@ == src.spec_data()@
                && r->Ok_0.spec_metadata()@ == src.spec_metadata()@
                && (four_digit_year(src.spec_timestamp()) ==> r->Ok_0.spec_timestamp() == src.spec_timestamp()),
    {
        match parse_text(json_str) {
            Ok(v) => {
                let fresh = fresh_id();
                let at = now();
                let e = Event::from_json_value(&v, fresh, at);
                proof {
                    assert forall|src: Event| #[trigger] event_json(src) == json_str@ && event_plain(src) implies
                        e.spec_id() == src.spec_id()
                        && e.spec_data()@ == src.spec_data()@
                        && e.spec_metadata()@ == src.spec_metadata()@
                        && (four_digit_year(src.spec_timestamp()) ==> e.spec_timestamp() == src.spec_timestamp()) by {
                        Self::lemma_read_back(v, src);
                    }
                }
                Ok(e)
            },
            Err(m) => Err(JsonError { message: m }),
        }
    }

    proof fn lemma_read_back(v: JsonValue, src: Event)
        requires
            v@ == event_object(src),
            event_plain(src),
        ensures
            v.spec_field("id"@) matches Some(JsonValue::String(s)) && s@ == uuid_text(src.spec_id()),
            v.spec_field("timestamp"@) matches Some(JsonValue::String(s)) && s@ == rfc3339_utc(src.spec_timestamp().secs, src.spec_timestamp().nanos),
            metadata_from_field(v.spec_field("metadata"@)) == src.spec_metadata()@,
            data_from_field(v.spec_field("data"@)) == src.spec_data()@,
    {
        let es = seq![
            ("data"@, src.spec_data()@),
            ("id"@, JsonView::Str(uuid_text(src.spec_id()))),
            ("metadata"@, JsonView::Object(src.spec_metadata().entries_view())),
            ("timestamp"@, JsonView::Str(rfc3339_utc(src.spec_timestamp().secs, src.spec_timestamp().nanos))),
        ];
        assert(event_object(src) == JsonView::Object(es));
        match v {
            JsonValue::Object(m) => {
                let e = m.spec_entries();
                crate::json::lemma_view_entries(e);
                assert(crate::json::view_entries(e) == es);
                crate::json::lemma_plain_object(es, 127);
                assert forall|a: int, b: int| 0 <= a < b < e.len() implies text_lt(#[trigger] e[a].0@, #[trigger] e[b].0@) by {
                    assert(text_lt(es[a].0, es[b].0));
                }
                assert(e[0].0@ == "data"@);
                assert(e[1].0@ == "id"@);
                assert(e[2].0@ == "metadata"@);
                assert(e[3].0@ == "timestamp"@);
                crate::json::lemma_lookup_at(e, 0);
                crate::json::lemma_lookup_at(e, 1);
                crate::json::lemma_lookup_at(e, 2);
                crate::json::lemma_lookup_at(e, 3);
                assert(view_of(e[1].1) == JsonView::Str(uuid_text(src.spec_id())));
                match e[1].1 {
                    JsonValue::String(s) => {},
                    _ => {},
                }
                assert(view_of(e[3].1) == JsonView::Str(rfc3339_utc(src.spec_timestamp().secs, src.spec_timestamp().nanos)));
                match e[3].1 {
                    JsonValue::String(s) => {},
                    _ => {},
                }
                assert(view_of(e[2].1) == JsonView::Object(src.spec_metadata().entries_view()));
                match e[2].1 {
                    JsonValue::Object(m2) => {
                        let md = src.spec_metadata();
                        assert(plain_json(es[2].1, 126));
                        let mv = md.entries_view();
                        crate::json::lemma_plain_object(mv, 126);
                        crate::json::lemma_view_entries(md.spec_entries());
                        crate::json::lemma_view_entries(m2.spec_entries());
                        assert forall|a: int, b: int| 0 <= a < b < md.spec_entries().len() implies text_lt(#[trigger] md.spec_entries()[a].0@, #[trigger] md.spec_entries()[b].0@) by {
                            assert(text_lt(mv[a].0, mv[b].0));
                        }
                        assert forall|a: int, b: int| 0 <= a < b < m2.spec_entries().len() implies text_lt(#[trigger] m2.spec_entries()[a].0@, #[trigger] m2.spec_entries()[b].0@) by {
                            assert(text_lt(mv[a].0, mv[b].0));
                        }
                        m2.lemma_same_view(&md);
                    },
                    _ => {},
                }
            },
            _ => {},
        }
    }
}


/// The number of bytes of the UTF-8 encoding of a text.
pub open spec fn utf8_len(s: Seq<char>) -> nat {
    vstd::utf8::encode_utf8(s).len()
}

/// The bytes that metadata entries take: each key and each value's compact
/// JSON text.
pub open spec fn metadata_size(e: Seq<(String, JsonValue)>) -> nat
    decreases e.len(),
{
    if e.len() == 0 {
        0
    } else {
        metadata_size(e.drop_last()) + utf8_len(e.last().0@) + utf8_len(json_compact(e.last().1@))
    }
}

/// The number of bytes of a text in UTF-8 (`str::len`).
#[verifier::external_body]
fn byte_len(s: &str) -> (n: usize)
    ensures
        n == utf8_len(s@),
{
    s.len()
}

/// The approximate size of an event in bytes: its metadata entries, its
/// payload's compact JSON text, and 36 for the identifier.
pub open spec fn event_size(e: Event) -> nat {
    metadata_size(e.spec_metadata().spec_entries()) + utf8_len(json_compact(e.spec_data()@)) + 36
}

impl Event {
    /// The approximate size in bytes (see `event_size`), or `None` when it
    /// does not fit in a `usize`.
    pub fn checked_size(&self) -> (r: Option<usize>)
        ensures
            r matches Some(n) ==> n == event_size(*self),
            r is None ==> event_size(*self) > usize::MAX,
    {
        let entries = self.metadata.entries();
        let ghost e = entries@;
        let mut total: usize = 0;
        let mut i: usize = 0;
        while i < entries.len()
            invariant
                0 <= i <= e.len(),
                e == entries@,
                e == self.spec_metadata().spec_entries(),
                total == metadata_size(e.take(i as int)),
            decreases e.len() - i,
        {
            proof {
                assert(e.take(i + 1).drop_last() =~= e.take(i as int));
                assert(e.take(i + 1).last() == e[i as int]);
            }
            let klen = byte_len(entries[i].0.as_str());
            let text = compact_text(&entries[i].1);
            let vlen = byte_len(text.as_str());
            let step = match klen.checked_add(vlen) {
                Some(x) => x,
                None => {
                    proof {
                        Self::lemma_metadata_size_grows(e, i as int + 1);
                    }
                    return None;
                },
            };
            total = match total.checked_add(step) {
                Some(x) => x,
                None => {
                    proof {
                        Self::lemma_metadata_size_grows(e, i as int + 1);
                    }
                    return None;
                },
            };
            i = i + 1;
        }
        proof {
            assert(e.take(e.len() as int) =~= e);
        }
        let dtext = compact_text(&self.data);
        let dlen = byte_len(dtext.as_str());
        match total.checked_add(dlen) {
            Some(x) => x.checked_add(36),
            None => None,
        }
    }

    proof fn lemma_metadata_size_grows(e: Seq<(String, JsonValue)>, n: int)
        requires
            0 <= n <= e.len(),
        ensures
            metadata_size(e.take(n)) <= metadata_size(e),
        decreases e.len(),
    {
        if n < e.len() {
            assert(e.drop_last().take(n) =~= e.take(n));
            Self::lemma_metadata_size_grows(e.drop_last(), n);
        } else {
            assert(e.take(n) =~= e);
        }
    }

    /// The approximate size in bytes: metadata keys and values' JSON texts,
    /// the payload's JSON text, and 36 for the identifier.
    pub fn size(&self) -> (n: usize)
        requires
            event_size(*self) <= usize::MAX,
        ensures
            n == event_size(*self),
    {
        match self.checked_size() {
            Some(n) => n,
            None => 0,
        }
    }
}

impl Clone for Event {
    /// A copy of this event under a fresh identifier: clones are distinct
    /// events with the same time stamp, metadata and payload.
    fn clone(&self) -> (r: Self)
        ensures
            is_v4(r.spec_id()),
            r.spec_timestamp() == self.spec_timestamp(),
            r.spec_metadata()@ == self.spec_metadata()@,
            r.spec_metadata().entries_view() == self.spec_metadata().entries_view(),
            r.spec_data()@ == self.spec_data()@,
            r.fields() == self.fields(),
            r.spec_data() is Object <==> self.spec_data() is Object,
    {
        Event { id: fresh_id(), timestamp: self.timestamp, metadata: self.metadata.clone(), data: self.data.clone() }
    }
}

impl PartialEq for Event {
    fn eq(&self, other: &Self) -> (r: bool) {
        self.id == other.id
    }
}

impl vstd::std_specs::cmp::PartialEqSpecImpl for Event {
    open spec fn obeys_eq_spec() -> bool {
        true
    }

    open spec fn eq_spec(&self, other: &Event) -> bool {
        self.spec_id() == other.spec_id()
    }
}

impl Default for Event {
    /// A new event whose payload is an empty object.
    fn default() -> (e: Self)
        ensures
            e.spec_data() is Object,
            e.fields() == Map::<Seq<char>, JsonView>::empty(),
            e.spec_metadata()@ == Map::<Seq<char>, JsonView>::empty(),
            is_v4(e.spec_id()),
    {
        Event::new(JsonValue::empty_object())
    }
}

/// Reading a field after storing it gives back what was stored, and leaves
/// every other field as it was.
pub proof fn law_get_after_set(fields: Map<Seq<char>, JsonView>, k: Seq<char>, v: JsonView, other: Seq<char>)
    ensures
        fields.insert(k, v).dom().contains(k),
        fields.insert(k, v)[k] == v,
        other != k ==> (fields.insert(k, v).dom().contains(other) == fields.dom().contains(other)),
        other != k && fields.dom().contains(other) ==> fields.insert(k, v)[other] == fields[other],
{
}

/// Removing a field after storing it leaves no such field; storing it twice
/// keeps the second value.
pub proof fn law_remove_after_set(fields: Map<Seq<char>, JsonView>, k: Seq<char>, v: JsonView, w: JsonView)
    ensures
        !fields.insert(k, v).remove(k).dom().contains(k),
        fields.insert(k, v).remove(k) == fields.remove(k),
        fields.insert(k, v).insert(k, w) == fields.insert(k, w),
{
    assert(fields.insert(k, v).remove(k) =~= fields.remove(k));
    assert(fields.insert(k, v).insert(k, w) =~= fields.insert(k, w));
}

/// The operations of an event.
pub trait EventTrait {
    /// The identifier, as a spec value.
    spec fn event_id(&self) -> u128;

    /// The time stamp, as a spec value.
    spec fn event_time(&self) -> Timestamp;

    /// The payload, as a spec value.
    spec fn payload(&self) -> JsonValue;

    /// The identifier.
    fn id(&self) -> (r: u128)
        ensures
            r == self.event_id(),
    ;

    /// The time stamp.
    fn timestamp(&self) -> (r: Timestamp)
        ensures
            r == self.event_time(),
    ;

    /// The payload.
    fn data(&self) -> (r: &JsonValue)
        ensures
            *r == self.payload(),
    ;

    /// The payload, for change in place.
    fn data_mut(&mut self) -> (r: &mut JsonValue)
        ensures
            *r == old(self).payload(),
            final(self).payload() == *final(r),
            final(self).event_id() == old(self).event_id(),
            final(self).event_time() == old(self).event_time(),
    ;

    /// The payload field `field`.
    fn get(&self, field: &str) -> (r: Option<&JsonValue>)
        ensures
            r matches Some(v) ==> self.payload().spec_field(field@) == Some(*v),
            r is None ==> self.payload().spec_field(field@) is None,
    ;

    /// Stores `value` under `field` in the payload.
    fn set(&mut self, field: &str, value: JsonValue)
        ensures
            final(self).payload().spec_field(field@) == Some(value),
            forall|k: Seq<char>| k != field@ ==> #[trigger] final(self).payload().spec_field(k) == old(self).payload().spec_field(k),
            final(self).event_id() == old(self).event_id(),
            final(self).event_time() == old(self).event_time(),
    ;

    /// Removes `field` from the payload.
    fn remove(&mut self, field: &str) -> (r: Option<JsonValue>)
        ensures
            r == old(self).payload().spec_field(field@),
            final(self).payload().spec_field(field@) is None,
            forall|k: Seq<char>| k != field@ ==> #[trigger] final(self).payload().spec_field(k) == old(self).payload().spec_field(k),
            final(self).event_id() == old(self).event_id(),
            final(self).event_time() == old(self).event_time(),
    ;

    /// Whether the payload holds `field`.
    fn contains(&self, field: &str) -> (b: bool)
        ensures
            b == self.payload().spec_field(field@) is Some,
    ;

    /// The event as JSON text.
    fn to_json(&self) -> Result<String, JsonError>;

    /// An event from JSON text.
    fn from_json(json_str: &str) -> Result<Self, JsonError> where Self: Sized;
}

impl EventTrait for Event {
    open spec fn event_id(&self) -> u128 {
        self.spec_id()
    }

    open spec fn event_time(&self) -> Timestamp {
        self.spec_timestamp()
    }

    open spec fn payload(&self) -> JsonValue {
        self.spec_data()
    }

    fn id(&self) -> (r: u128)
        ensures
            r == self.spec_id(),
    {
        Event::id(self)
    }

    fn timestamp(&self) -> (r: Timestamp)
        ensures
            r == self.spec_timestamp(),
    {
        Event::timestamp(self)
    }

    fn data(&self) -> (r: &JsonValue)
        ensures
            *r == self.spec_data(),
    {
        Event::data(self)
    }

    fn data_mut(&mut self) -> (r: &mut JsonValue)
        ensures
            *r == old(self).spec_data(),
            final(self).spec_data() == *final(r),
            final(self).spec_id() == old(self).spec_id(),
            final(self).spec_timestamp() == old(self).spec_timestamp(),
            final(self).spec_metadata() == old(self).spec_metadata(),
    {
        Event::data_mut(self)
    }

    fn get(&self, field: &str) -> (r: Option<&JsonValue>)
        ensures
            r matches Some(v) ==> self.spec_data().spec_field(field@) == Some(*v),
            r is None ==> self.spec_data().spec_field(field@) is None,
            r is Some <==> self.fields().dom().contains(field@),
    {
        Event::get(self, field)
    }

    fn set(&mut self, field: &str, value: JsonValue)
        ensures
            final(self).spec_data() is Object,
            final(self).fields() == old(self).fields().insert(field@, value@),
            final(self).spec_data().spec_field(field@) == Some(value),
            forall|k: Seq<char>| k != field@ ==> #[trigger] final(self).spec_data().spec_field(k) == old(self).spec_data().spec_field(k),
            final(self).spec_id() == old(self).spec_id(),
            final(self).spec_timestamp() == old(self).spec_timestamp(),
            final(self).spec_metadata() == old(self).spec_metadata(),
    {
        Event::set(self, field, value)
    }

    fn remove(&mut self, field: &str) -> (r: Option<JsonValue>)
        ensures
            r == old(self).spec_data().spec_field(field@),
            final(self).fields() == old(self).fields().remove(field@),
            final(self).spec_data().spec_field(field@) is None,
            forall|k: Seq<char>| k != field@ ==> #[trigger] final(self).spec_data().spec_field(k) == old(self).spec_data().spec_field(k),
            old(self).spec_data() is Object <==> final(self).spec_data() is Object,
            !(old(self).spec_data() is Object) ==> final(self).spec_data() == old(self).spec_data(),
            final(self).spec_id() == old(self).spec_id(),
            final(self).spec_timestamp() == old(self).spec_timestamp(),
            final(self).spec_metadata() == old(self).spec_metadata(),
    {
        Event::remove(self, field)
    }

    fn contains(&self, field: &str) -> (b: bool)
        ensures
            b == self.fields().dom().contains(field@),
            b == self.spec_data().spec_field(field@) is Some,
    {
        Event::contains(self, field)
    }

    fn to_json(&self) -> (r: Result<String, JsonError>)
        ensures
            r matches Ok(t) && t@ == event_json(*self),
    {
        Event::to_json(self)
    }

    fn from_json(json_str: &str) -> (r: Result<Event, JsonError>)
        ensures
            r is Err <==> json_parse(json_str@) is Err,
            r matches Err(e) ==> json_parse(json_str@)->Err_0 == e.message@,
            r matches Ok(e) ==> exists|v: JsonValue, fresh: u128, at: Timestamp|
                json_parse(json_str@) is Ok && json_parse(json_str@)->Ok_0 == v@
                && e.spec_id() == id_from_field(v.spec_field("id"@), fresh)
                && e.spec_timestamp() == time_from_field(v.spec_field("timestamp"@), at)
                && e.spec_metadata()@ == metadata_from_field(v.spec_field("metadata"@))
                && e.spec_data()@ == data_from_field(v.spec_field("data"@)),
            forall|src: Event| #[trigger] event_json(src) == json_str@ && event_plain(src) ==> r is Ok
                && r->Ok_0.spec_id() == src.spec_id()
                && r->Ok_0.spec_data()@ == src.spec_data()@
                && r->Ok_0.spec_metadata()@ == src.spec_metadata()@
                && (four_digit_year(src.spec_timestamp()) ==> r->Ok_0.spec_timestamp() == src.spec_timestamp()),
    {
        Event::from_json(json_str)
    }
}

}
