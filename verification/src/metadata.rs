//! Metadata that travels with a message.

use vstd::prelude::*;

use crate::text::same_text;

verus! {

/// The key of the time at which a frame was captured.
pub const CAPTURE_TIMESTAMP_KEY: &'static str = "capture_timestamp_ns";

/// A metadata value. Floating point numbers are held as their bit patterns.
#[derive(Debug, Clone, PartialEq, Eq)]
pub enum Parameter {
    Bool(bool),
    Integer(i64),
    Float(u64),
    String(String),
    ListInt(Vec<i64>),
    ListFloat(Vec<u64>),
    ListString(Vec<String>),
}

/// Metadata values under names, each name at most once.
#[derive(Debug, Clone)]
pub struct Parameters {
    entries: Vec<(String, Parameter)>,
}

/// The name of entry `i`.
spec fn key_at(entries: Seq<(String, Parameter)>, i: int) -> Seq<char> {
    entries[i].0@
}

/// Entry `i` stands under the name `key`.
spec fn is_entry(entries: Seq<(String, Parameter)>, key: Seq<char>, i: int) -> bool {
    0 <= i < entries.len() && key_at(entries, i) == key
}

spec fn has_entry(entries: Seq<(String, Parameter)>, key: Seq<char>) -> bool {
    exists|i: int| is_entry(entries, key, i)
}

/// The values of the entries by their names.
spec fn entry_map(entries: Seq<(String, Parameter)>) -> Map<Seq<char>, Parameter> {
    Map::new(
        |key: Seq<char>| has_entry(entries, key),
        |key: Seq<char>| entries[choose|i: int| is_entry(entries, key, i)].1,
    )
}

spec fn keys_differ(entries: Seq<(String, Parameter)>) -> bool {
    forall|i: int, j: int|
        0 <= i < j < entries.len() ==> #[trigger] key_at(entries, i) != #[trigger] key_at(
            entries,
            j,
        )
}

impl View for Parameters {
    type V = Map<Seq<char>, Parameter>;

    closed spec fn view(&self) -> Map<Seq<char>, Parameter> {
        entry_map(self.entries@)
    }
}

proof fn lemma_entry(entries: Seq<(String, Parameter)>, i: int)
    requires
        keys_differ(entries),
        0 <= i < entries.len(),
    ensures
        entry_map(entries).contains_key(key_at(entries, i)),
        entry_map(entries)[key_at(entries, i)] == entries[i].1,
{
    let key: Seq<char> = key_at(entries, i);
    assert(is_entry(entries, key, i));
    let j: int = choose|j: int| is_entry(entries, key, j);
    assert(is_entry(entries, key, j));
    assert(key_at(entries, j) == key_at(entries, i));
    assert(i == j);
}

/// The map of the entries is the one that holds each of them and nothing else.
proof fn lemma_is_map(entries: Seq<(String, Parameter)>, m: Map<Seq<char>, Parameter>)
    requires
        keys_differ(entries),
        forall|i: int|
            0 <= i < entries.len() ==> m.contains_key(#[trigger] key_at(entries, i)) && m[key_at(
                entries,
                i,
            )] == entries[i].1,
        forall|k: Seq<char>| #[trigger] m.contains_key(k) ==> has_entry(entries, k),
    ensures
        entry_map(entries) == m,
{
    assert forall|k: Seq<char>| #[trigger] entry_map(entries).contains_key(k) implies {
        &&& m.contains_key(k)
        &&& m[k] == entry_map(entries)[k]
    } by {
        let i: int = choose|i: int| is_entry(entries, k, i);
        assert(is_entry(entries, k, i));
        lemma_entry(entries, i);
    }
    assert(entry_map(entries) =~= m);
}

/// Adding an entry with a new name adds it to the map.
proof fn lemma_push(entries: Seq<(String, Parameter)>, key: String, value: Parameter)
    requires
        keys_differ(entries),
        !has_entry(entries, key@),
    ensures
        keys_differ(entries.push((key, value))),
        entry_map(entries.push((key, value))) == entry_map(entries).insert(key@, value),
{
    let longer: Seq<(String, Parameter)> = entries.push((key, value));
    let n: int = entries.len() as int;
    let m: Map<Seq<char>, Parameter> = entry_map(entries).insert(key@, value);
    assert forall|i: int| 0 <= i < n implies #[trigger] key_at(longer, i) == key_at(entries, i)
        && key_at(entries, i) != key@ by {
        if key_at(entries, i) == key@ {
            assert(is_entry(entries, key@, i));
        }
    }
    assert(key_at(longer, n) == key@);
    assert forall|i: int| 0 <= i < longer.len() implies m.contains_key(#[trigger] key_at(longer, i))
        && m[key_at(longer, i)] == longer[i].1 by {
        if i < n {
            lemma_entry(entries, i);
        }
    }
    assert forall|k: Seq<char>| #[trigger] m.contains_key(k) implies has_entry(longer, k) by {
        if k == key@ {
            assert(is_entry(longer, k, n));
        } else {
            let i: int = choose|i: int| is_entry(entries, k, i);
            assert(is_entry(entries, k, i));
            assert(key_at(longer, i) == key_at(entries, i));
            assert(is_entry(longer, k, i));
        }
    }
    lemma_is_map(longer, m);
}

/// Removing an entry removes its name from the map.
proof fn lemma_remove(entries: Seq<(String, Parameter)>, at: int)
    requires
        keys_differ(entries),
        0 <= at < entries.len(),
    ensures
        keys_differ(entries.remove(at)),
        entry_map(entries.remove(at)) == entry_map(entries).remove(key_at(entries, at)),
{
    let shorter: Seq<(String, Parameter)> = entries.remove(at);
    let m: Map<Seq<char>, Parameter> = entry_map(entries).remove(key_at(entries, at));
    assert forall|i: int| 0 <= i < shorter.len() implies #[trigger] key_at(shorter, i) == key_at(
        entries,
        if i < at {
            i
        } else {
            i + 1
        },
    ) by {}
    assert forall|i: int| 0 <= i < shorter.len() implies m.contains_key(
        #[trigger] key_at(shorter, i),
    ) && m[key_at(shorter, i)] == shorter[i].1 by {
        let from: int = if i < at {
            i
        } else {
            i + 1
        };
        lemma_entry(entries, from);
        assert(key_at(entries, from) != key_at(entries, at));
    }
    assert forall|k: Seq<char>| #[trigger] m.contains_key(k) implies has_entry(shorter, k) by {
        let i: int = choose|i: int| is_entry(entries, k, i);
        assert(is_entry(entries, k, i));
        let to: int = if i < at {
            i
        } else {
            i - 1
        };
        assert(i != at);
        assert(key_at(shorter, to) == key_at(entries, i));
        assert(is_entry(shorter, k, to));
    }
    lemma_is_map(shorter, m);
}

impl Parameters {
    /// Every name occurs once.
    pub closed spec fn wf(self) -> bool {
        keys_differ(self.entries@)
    }

    /// No metadata.
    pub fn new() -> (r: Parameters)
        ensures
            r.wf(),
            r@ == Map::<Seq<char>, Parameter>::empty(),
    {
        let r: Parameters = Parameters { entries: Vec::new() };
        proof {
            assert(keys_differ(r.entries@));
            lemma_is_map(r.entries@, Map::empty());
        }
        r
    }

    /// The position of the entry named `key`.
    fn position(&self, key: &str) -> (r: Option<usize>)
        ensures
            match r {
                Some(i) => is_entry(self.entries@, key@, i as int),
                None => !has_entry(self.entries@, key@),
            },
    {
        let mut i: usize = 0;
        while i < self.entries.len()
            invariant
                i <= self.entries@.len(),
                forall|j: int| 0 <= j < i ==> !#[trigger] is_entry(self.entries@, key@, j),
            decreases self.entries@.len() - i,
        {
            if same_text(self.entries[i].0.as_str(), key) {
                proof {
                    assert(key_at(self.entries@, i as int) == key@);
                }
                return Some(i);
            }
            proof {
                assert(key_at(self.entries@, i as int) != key@);
            }
            i = i + 1;
        }
        None
    }

    /// The value under a name.
    pub fn get(&self, key: &str) -> (r: Option<&Parameter>)
        requires
            self.wf(),
        ensures
            match r {
                Some(value) => self@.contains_key(key@) && self@[key@] == *value,
                None => !self@.contains_key(key@),
            },
    {
        match self.position(key) {
            Some(i) => {
                proof {
                    lemma_entry(self.entries@, i as int);
                }
                Some(&self.entries[i].1)
            },
            None => None,
        }
    }

    /// Whether there is a value under a name.
    pub fn contains_key(&self, key: &str) -> (r: bool)
        requires
            self.wf(),
        ensures
            r == self@.contains_key(key@),
    {
        match self.position(key) {
            Some(i) => {
                proof {
                    lemma_entry(self.entries@, i as int);
                }
                true
            },
            None => false,
        }
    }

    /// Removes the value under a name, if there is one.
    pub fn remove(&mut self, key: &str)
        requires
            old(self).wf(),
        ensures
            final(self).wf(),
            final(self)@ == old(self)@.remove(key@),
    {
        match self.position(key) {
            Some(i) => {
                proof {
                    lemma_remove(self.entries@, i as int);
                }
                let _removed: (String, Parameter) = self.entries.remove(i);
            },
            None => {
                assert(self@.remove(key@) =~= self@);
            },
        }
    }

    /// Puts a value under a name, in place of any other.
    pub fn insert(&mut self, key: String, value: Parameter)
        requires
            old(self).wf(),
        ensures
            final(self).wf(),
            final(self)@ == old(self)@.insert(key@, value),
    {
        self.remove(key.as_str());
        proof {
            assert(!has_entry(self.entries@, key@)) by {
                assert(!self@.contains_key(key@));
            }
            lemma_push(self.entries@, key, value);
            assert(old(self)@.remove(key@).insert(key@, value) =~= old(self)@.insert(key@, value));
        }
        self.entries.push((key, value));
    }

    /// How many names there are.
    pub fn len(&self) -> (r: usize)
        requires
            self.wf(),
        ensures
            r == self@.dom().len(),
            self@.dom().finite(),
    {
        proof {
            lemma_entry_count(self.entries@);
        }
        self.entries.len()
    }

    /// The names and their values, in no particular order.
    pub fn into_entries(self) -> (r: Vec<(String, Parameter)>)
        requires
            self.wf(),
        ensures
            forall|i: int|
                0 <= i < r@.len() ==> self@.contains_key((#[trigger] r@[i]).0@) && self@[r@[i].0@]
                    == r@[i].1,
            forall|k: Seq<char>| #[trigger]
                self@.contains_key(k) ==> exists|i: int|
                    0 <= i < r@.len() && (#[trigger] r@[i]).0@ == k,
            r@.len() == self@.dom().len(),
    {
        proof {
            assert forall|i: int| 0 <= i < self.entries@.len() implies self@.contains_key(
                (#[trigger] self.entries@[i]).0@,
            ) && self@[self.entries@[i].0@] == self.entries@[i].1 by {
                lemma_entry(self.entries@, i);
            }
            assert forall|k: Seq<char>| #[trigger] self@.contains_key(k) implies exists|i: int|
                0 <= i < self.entries@.len() && (#[trigger] self.entries@[i]).0@ == k by {
                let i: int = choose|i: int| is_entry(self.entries@, k, i);
                assert(is_entry(self.entries@, k, i));
                assert(self.entries@[i].0@ == k);
            }
            lemma_entry_count(self.entries@);
        }
        self.entries
    }
}

proof fn lemma_entry_count(entries: Seq<(String, Parameter)>)
    requires
        keys_differ(entries),
    ensures
        entry_map(entries).dom().finite(),
        entry_map(entries).dom().len() == entries.len(),
    decreases entries.len(),
{
    if entries.len() == 0 {
        assert(entry_map(entries).dom() =~= Set::empty());
    } else {
        let shorter: Seq<(String, Parameter)> = entries.drop_last();
        let last: (String, Parameter) = entries.last();
        assert forall|i: int| 0 <= i < shorter.len() implies #[trigger] key_at(shorter, i)
            == key_at(entries, i) by {}
        if has_entry(shorter, last.0@) {
            let i: int = choose|i: int| is_entry(shorter, last.0@, i);
            assert(is_entry(shorter, last.0@, i));
            assert(key_at(entries, i) == key_at(entries, entries.len() - 1));
        }
        lemma_entry_count(shorter);
        lemma_push(shorter, last.0, last.1);
        assert(shorter.push(last) =~= entries);
        assert(!entry_map(shorter).contains_key(last.0@));
        assert(entry_map(entries).dom() =~= entry_map(shorter).dom().insert(last.0@));
    }
}

/// The metadata of a frame's message: those of the trigger, with the time at
/// which the frame was captured. A time that came with the trigger says nothing
/// about the frame and is never passed on.
pub open spec fn output_metadata(
    trigger: Map<Seq<char>, Parameter>,
    capture_timestamp_ns: Option<i64>,
) -> Map<Seq<char>, Parameter> {
    match capture_timestamp_ns {
        Some(timestamp_ns) => trigger.insert(
            CAPTURE_TIMESTAMP_KEY@,
            Parameter::Integer(timestamp_ns),
        ),
        None => trigger.remove(CAPTURE_TIMESTAMP_KEY@),
    }
}

/// The metadata of a frame's message, see `output_metadata`.
pub fn output_parameters(
    trigger_parameters: Parameters,
    capture_timestamp_ns: Option<i64>,
) -> (r: Parameters)
    requires
        trigger_parameters.wf(),
    ensures
        r.wf(),
        r@ == output_metadata(trigger_parameters@, capture_timestamp_ns),
{
    let mut parameters: Parameters = trigger_parameters;
    parameters.remove(CAPTURE_TIMESTAMP_KEY);
    if let Some(timestamp_ns) = capture_timestamp_ns {
        proof {
            assert(trigger_parameters@.remove(CAPTURE_TIMESTAMP_KEY@).insert(
                CAPTURE_TIMESTAMP_KEY@,
                Parameter::Integer(timestamp_ns),
            ) =~= output_metadata(trigger_parameters@, capture_timestamp_ns));
        }
        parameters.insert(CAPTURE_TIMESTAMP_KEY.to_owned(), Parameter::Integer(timestamp_ns));
    }
    parameters
}

/// Whatever the trigger said, the message's capture time is that of the frame,
/// and everything else passes through unchanged.
pub proof fn law_trigger_metadata_pass_through(
    trigger: Map<Seq<char>, Parameter>,
    capture_timestamp_ns: Option<i64>,
    key: Seq<char>,
)
    ensures
        ({
            let out = output_metadata(trigger, capture_timestamp_ns);
            if key == CAPTURE_TIMESTAMP_KEY@ {
                match capture_timestamp_ns {
                    Some(t) => out.contains_key(key) && out[key] == Parameter::Integer(t),
                    None => !out.contains_key(key),
                }
            } else {
                &&& out.contains_key(key) == trigger.contains_key(key)
                &&& out.contains_key(key) ==> out[key] == trigger[key]
            }
        }),
{
}

/// The capture time stands under `capture_timestamp_ns`, as a whole number, and
/// only if it is known; no other name is touched.
pub proof fn law_capture_time_is_named(
    trigger: Map<Seq<char>, Parameter>,
    time_ns: i64,
    key: Seq<char>,
)
    ensures
        output_metadata(trigger, Some(time_ns)).contains_key("capture_timestamp_ns"@),
        output_metadata(trigger, Some(time_ns))["capture_timestamp_ns"@] == Parameter::Integer(
            time_ns,
        ),
        !output_metadata(trigger, None).contains_key("capture_timestamp_ns"@),
        key != "capture_timestamp_ns"@ ==> {
            &&& output_metadata(trigger, Some(time_ns)).contains_key(key) == trigger.contains_key(
                key,
            )
            &&& output_metadata(trigger, None).contains_key(key) == trigger.contains_key(key)
            &&& trigger.contains_key(key) ==> output_metadata(trigger, Some(time_ns))[key]
                == trigger[key] && output_metadata(trigger, None)[key] == trigger[key]
        },
{
}

/// `output_parameters` returns the metadata of the trigger with the capture time
/// of the frame, and without any other.
pub proof fn law_frames_carry_their_time(
    trigger: Parameters,
    time_ns: Option<i64>,
    r: Parameters,
    key: Seq<char>,
)
    requires
        call_ensures(output_parameters, (trigger, time_ns), r),
    ensures
        time_ns is Some <==> r@.contains_key("capture_timestamp_ns"@),
        time_ns matches Some(t) ==> r@["capture_timestamp_ns"@] == Parameter::Integer(t),
        key != "capture_timestamp_ns"@ ==> r@.contains_key(key) == trigger@.contains_key(key) && (
        trigger@.contains_key(key) ==> r@[key] == trigger@[key]),
{
}

} // verus!
