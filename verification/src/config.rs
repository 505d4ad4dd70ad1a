//! The hook's configuration, made from the values of its environment
//! variables.
use vstd::prelude::*;
use crate::text::{
    chars_of, is_lower_hex_digit, spec_trim, string_from_chars, string_views, to_owned_string, trim,
};

verus! {

broadcast use vstd::string::group_string_axioms;

/// How the hook behaves; each field comes from an environment variable.
#[derive(Debug)]
pub struct ModalityRosHookConfig {
    /// Connection timeout for the modality backend connection, in seconds.
    /// Configured with the MODALITY_ROS_CONNECT_TIMEOUT environment var.
    /// Defaults to 20.
    pub connect_timeout_secs: u64,
    /// Full ROS topic names to be ignored, each once. Configured with the
    /// MODALITY_ROS_IGNORED_TOPICS env var, as a comma-separated list.
    /// Defaults to '/parameter_events'.
    pub ignored_topics: Vec<String>,
    /// The longest array value to ingest, in a message payload. Arrays
    /// longer than this will be ignored. Configured with the
    /// MODALITY_ROS_MAX_ARRAY_LEN env var. Defaults to 12.
    pub max_array_len: usize,
    /// The run id to value to use in timeline metadata 'timeline.run_id'.
    /// Configured with the MODALITY_RUN_ID env var. Defaults to a randomly
    /// generated uuid.
    pub run_id: String,
    /// How many messages to buffer internally, before sending to the
    /// backend. Configured with the MODALITY_ROS_BUFFER_SIZE env var.
    /// Defaults to 1024.
    pub buffer_size: usize,
}

// ---------------------------------------------------------------------
// Numbers
// ---------------------------------------------------------------------

pub open spec fn is_ascii_digit(c: char) -> bool {
    '0' <= c && c <= '9'
}

/// The value of a string of decimal digits.
pub open spec fn spec_digits_value(s: Seq<char>) -> nat
    decreases s.len(),
{
    if s.len() == 0 {
        0
    } else {
        spec_digits_value(s.drop_last()) * 10 + ((s.last() as u32) - 48) as nat
    }
}

/// What `str::parse` gives for an unsigned integer type whose largest value
/// is `max`: an optional `+`, then at least one ASCII digit and nothing
/// else, with a value no larger than `max`.
pub open spec fn spec_unsigned_digits(s: Seq<char>) -> Seq<char> {
    if s.len() > 0 && s[0] == '+' {
        s.drop_first()
    } else {
        s
    }
}

pub open spec fn all_digits(d: Seq<char>) -> bool {
    forall|i: int| 0 <= i < d.len() ==> is_ascii_digit(#[trigger] d[i])
}

pub open spec fn spec_parse_unsigned(s: Seq<char>, max: nat) -> Option<nat> {
    let digits = spec_unsigned_digits(s);
    if digits.len() == 0 || !all_digits(digits) {
        None
    } else if spec_digits_value(digits) > max {
        None
    } else {
        Some(spec_digits_value(digits))
    }
}

proof fn lemma_digits_value_mono(s: Seq<char>, k: int)
    requires
        0 <= k <= s.len(),
        forall|i: int| 0 <= i < s.len() ==> is_ascii_digit(#[trigger] s[i]),
    ensures
        spec_digits_value(s.take(k)) <= spec_digits_value(s),
    decreases s.len() - k,
{
    if k < s.len() {
        let t = s.drop_last();
        assert(t.take(k) =~= s.take(k));
        assert forall|i: int| 0 <= i < t.len() implies is_ascii_digit(#[trigger] t[i]) by {
            assert(t[i] == s[i]);
        }
        lemma_digits_value_mono(t, k);
    } else {
        assert(s.take(k) =~= s);
    }
}

/// Parses an unsigned decimal number no larger than `max`, as `str::parse`
/// does for an unsigned integer type.
pub fn parse_unsigned(s: &str, max: u64) -> (r: Option<u64>)
    ensures
        r matches Some(v) ==> spec_parse_unsigned(s@, max as nat) == Some(v as nat),
        r is None ==> spec_parse_unsigned(s@, max as nat) is None,
{
    let cs = chars_of(s);
    let start: usize = if cs.len() > 0 && cs[0] == '+' { 1 } else { 0 };
    let ghost digits = spec_unsigned_digits(s@);
    assert(digits =~= cs@.skip(start as int));
    if start == cs.len() {
        return None;
    }
    let n = cs.len();
    let mut value: u64 = 0;
    let mut i = start;
    let mut overflow = false;
    while i < n
        invariant
            start <= i <= n,
            n == cs@.len(),
            cs@ == s@,
            start < n,
            digits == cs@.skip(start as int),
            digits == spec_unsigned_digits(s@),
            forall|j: int| start <= j < i ==> is_ascii_digit(#[trigger] cs@[j]),
            !overflow ==> value == spec_digits_value(digits.take(i - start)),
            !overflow ==> value <= max,
            overflow ==> spec_digits_value(digits.take(i - start)) > max,
        decreases n - i,
    {
        let c = cs[i];
        assert(digits[i - start] == c);
        if !('0' <= c && c <= '9') {
            assert(!is_ascii_digit(digits[i - start]));
            assert(!all_digits(digits));
            return None;
        }
        proof {
            assert(digits.take(i + 1 - start).drop_last() =~= digits.take(i - start));
            assert(digits.take(i + 1 - start).last() == c);
        }
        if !overflow {
            let d = (c as u32 - 48) as u64;
            if d > max || value > (max - d) / 10 {
                overflow = true;
                assert(value * 10 + d > max) by (nonlinear_arith)
                    requires
                        d > max || value > (max - d) / 10,
                        value >= 0,
                ;
            } else {
                assert(value * 10 + d <= max) by (nonlinear_arith)
                    requires
                        value <= (max - d) / 10,
                        d <= max,
                ;
                value = value * 10 + d;
            }
        } else {
            proof {
                let prev = spec_digits_value(digits.take(i - start));
                assert(prev * 10 >= prev) by (nonlinear_arith) requires prev >= 0;
            }
        }
        i = i + 1;
    }
    proof {
        assert(digits.take(n - start) =~= digits);
        assert forall|j: int| 0 <= j < digits.len() implies is_ascii_digit(#[trigger] digits[j]) by {
            assert(digits[j] == cs@[j + start]);
        }
    }
    if overflow {
        None
    } else {
        Some(value)
    }
}

/// A numeric setting: the value's trimmed text parsed as an unsigned number
/// no larger than `max`.
pub fn parse_setting(value: &str, max: u64) -> (r: Option<u64>)
    ensures
        r matches Some(v) ==> spec_parse_unsigned(spec_trim(value@), max as nat) == Some(v as nat),
        r is None ==> spec_parse_unsigned(spec_trim(value@), max as nat) is None,
{
    let t = trim(value);
    parse_unsigned(t.as_str(), max)
}

// ---------------------------------------------------------------------
// Topic lists
// ---------------------------------------------------------------------

/// The pieces of `s` between its commas (empty pieces included).
pub open spec fn spec_split_commas(s: Seq<char>) -> Seq<Seq<char>>
    decreases s.len(),
{
    if s.len() == 0 {
        seq![Seq::<char>::empty()]
    } else {
        let prev = spec_split_commas(s.drop_last());
        if s.last() == ',' {
            prev.push(Seq::<char>::empty())
        } else {
            prev.update(prev.len() - 1, prev.last().push(s.last()))
        }
    }
}

/// The topics named by a comma-separated list: each piece, trimmed.
pub open spec fn spec_listed_topic(list: Seq<char>, t: Seq<char>) -> bool {
    exists|i: int| 0 <= i < spec_split_commas(list).len() && t == spec_trim(#[trigger] spec_split_commas(list)[i])
}

pub open spec fn no_duplicates(v: Seq<Seq<char>>) -> bool {
    forall|i: int, j: int| 0 <= i < j < v.len() ==> v[i] != v[j]
}

proof fn lemma_split_commas_nonempty(s: Seq<char>)
    ensures
        spec_split_commas(s).len() >= 1,
    decreases s.len(),
{
    if s.len() > 0 {
        lemma_split_commas_nonempty(s.drop_last());
    }
}

/// Splits `s` at its commas.
pub fn split_commas(s: &str) -> (r: Vec<String>)
    ensures
        string_views(r@) == spec_split_commas(s@),
{
    let cs = chars_of(s);
    let n = cs.len();
    let mut parts: Vec<String> = Vec::new();
    let mut current: Vec<char> = Vec::new();
    for i in 0..n
        invariant
            n == cs@.len(),
            cs@ == s@,
            string_views(parts@).push(current@) == spec_split_commas(cs@.take(i as int)),
    {
        let c = cs[i];
        let ghost before = string_views(parts@).push(current@);
        proof {
            assert(cs@.take(i + 1).drop_last() =~= cs@.take(i as int));
            lemma_split_commas_nonempty(cs@.take(i as int));
        }
        if c == ',' {
            let piece = string_from_chars(current.as_slice());
            parts.push(piece);
            current = Vec::new();
            assert(string_views(parts@).push(current@) =~= before.push(Seq::<char>::empty()));
        } else {
            current.push(c);
            assert(string_views(parts@).push(current@) =~= before.update(
                before.len() - 1,
                before.last().push(c),
            ));
        }
    }
    let last = string_from_chars(current.as_slice());
    parts.push(last);
    assert(cs@.take(n as int) =~= cs@);
    assert(string_views(parts@) =~= spec_split_commas(s@));
    parts
}

fn contains_view(v: &Vec<String>, t: &String) -> (r: bool)
    ensures
        r == string_views(v@).contains(t@),
{
    let n = v.len();
    for i in 0..n
        invariant
            n == v@.len(),
            forall|j: int| 0 <= j < i ==> v@[j]@ != t@,
    {
        if crate::text::str_eq(v[i].as_str(), t.as_str()) {
            assert(string_views(v@)[i as int] == t@);
            return true;
        }
    }
    assert forall|j: int| 0 <= j < string_views(v@).len() implies string_views(v@)[j] != t@ by {
        assert(string_views(v@)[j] == v@[j]@);
    }
    false
}

/// The topics of a comma-separated list: each piece trimmed, each once.
pub fn topics_from_list(list: &str) -> (r: Vec<String>)
    ensures
        forall|t: Seq<char>| #[trigger] string_views(r@).contains(t) <==> spec_listed_topic(list@, t),
        no_duplicates(string_views(r@)),
{
    let pieces = split_commas(list);
    let ghost pv = string_views(pieces@);
    let mut topics: Vec<String> = Vec::new();
    let n = pieces.len();
    for i in 0..n
        invariant
            n == pieces@.len(),
            pv == string_views(pieces@),
            pv == spec_split_commas(list@),
            no_duplicates(string_views(topics@)),
            forall|t: Seq<char>| #[trigger] string_views(topics@).contains(t) <==> exists|j: int|
                0 <= j < i && t == spec_trim(#[trigger] pv[j]),
    {
        let topic = trim(pieces[i].as_str());
        assert(pv[i as int] == pieces@[i as int]@);
        let ghost before = string_views(topics@);
        if !contains_view(&topics, &topic) {
            let ghost tv = topic@;
            topics.push(topic);
            assert(string_views(topics@) =~= before.push(tv));
        }
        assert forall|t: Seq<char>| #[trigger] string_views(topics@).contains(t) <==> exists|j: int|
            0 <= j < i + 1 && t == spec_trim(#[trigger] pv[j]) by {
            if string_views(topics@).contains(t) {
                if !before.contains(t) {
                    assert(t == spec_trim(pv[i as int]));
                }
            }
            if exists|j: int| 0 <= j < i + 1 && t == spec_trim(#[trigger] pv[j]) {
                let j = choose|j: int| 0 <= j < i + 1 && t == spec_trim(#[trigger] pv[j]);
                if j < i {
                    assert(before.contains(t));
                    let k = choose|k: int| 0 <= k < before.len() && before[k] == t;
                    assert(string_views(topics@)[k] == t);
                } else {
                    if before.contains(t) {
                        let k = choose|k: int| 0 <= k < before.len() && before[k] == t;
                        assert(string_views(topics@)[k] == t);
                    } else {
                        assert(string_views(topics@).last() == t);
                    }
                }
            }
        }
    }
    topics
}

// ---------------------------------------------------------------------
// Run ids
// ---------------------------------------------------------------------

/// The hyphenated lowercase text of a random UUID: 36 characters, hyphens
/// at 8, 13, 18 and 23, lowercase hex digits elsewhere, and the version
/// digit `4` at 14.
pub open spec fn is_uuid_text(s: Seq<char>) -> bool {
    &&& s.len() == 36
    &&& forall|i: int|
        0 <= i < 36 ==> if i == 8 || i == 13 || i == 18 || i == 23 {
            #[trigger] s[i] == '-'
        } else {
            is_lower_hex_digit(s[i])
        }
    &&& s[14] == '4'
}

/// `Uuid::new_v4` (auxon_sdk re-exports uuid's `Uuid`), rendered with
/// `to_string`: a random UUID in its hyphenated lowercase form. Only that
/// form is stated; the digits are chance. It panics only when the system's
/// random source cannot be read.
#[verifier::external_body]
fn new_run_id() -> (r: String)
    ensures
        is_uuid_text(r@),
{
    auxon_sdk::api::Uuid::new_v4().to_string()
}

impl ModalityRosHookConfig {
    /// Whether messages on `topic` are left out.
    pub fn is_ignored_topic(&self, topic: &str) -> (r: bool)
        ensures
            r == string_views(self.ignored_topics@).contains(topic@),
    {
        let t = to_owned_string(topic);
        contains_view(&self.ignored_topics, &t)
    }

    /// The configuration given the values of the environment variables (or
    /// `None` for those that are not set): MODALITY_ROS_CONNECT_TIMEOUT,
    /// MODALITY_ROS_IGNORED_TOPICS, MODALITY_ROS_MAX_ARRAY_LEN,
    /// MODALITY_ROS_BUFFER_SIZE and MODALITY_RUN_ID. A value that is not a
    /// valid number leaves its setting at the default. Without a run id, a
    /// new random UUID is the run id.
    pub fn from_values(
        connect_timeout: Option<String>,
        ignored_topics: Option<String>,
        max_array_len: Option<String>,
        buffer_size: Option<String>,
        run_id: Option<String>,
    ) -> (r: Self)
        ensures
            r.connect_timeout_secs == (match connect_timeout {
                Some(s) => match spec_parse_unsigned(spec_trim(s@), u64::MAX as nat) {
                    Some(v) => v,
                    None => 20,
                },
                None => 20,
            }),
            r.max_array_len == (match max_array_len {
                Some(s) => match spec_parse_unsigned(spec_trim(s@), usize::MAX as nat) {
                    Some(v) => v,
                    None => 12,
                },
                None => 12,
            }),
            r.buffer_size == (match buffer_size {
                Some(s) => match spec_parse_unsigned(spec_trim(s@), usize::MAX as nat) {
                    Some(v) => v,
                    None => 1024,
                },
                None => 1024,
            }),
            run_id matches Some(s) ==> r.run_id@ == s@,
            run_id is None ==> is_uuid_text(r.run_id@),
            no_duplicates(string_views(r.ignored_topics@)),
            forall|t: Seq<char>| #[trigger] string_views(r.ignored_topics@).contains(t) <==> (match ignored_topics {
                Some(s) => spec_listed_topic(s@, t),
                None => t == "/parameter_events"@,
            }),
    {
        let mut connect_timeout_secs: u64 = 20;
        if let Some(s) = &connect_timeout {
            if let Some(t) = parse_setting(s.as_str(), u64::MAX) {
                connect_timeout_secs = t;
            }
        }
        let topics = match &ignored_topics {
            Some(s) => topics_from_list(s.as_str()),
            None => {
                let mut v: Vec<String> = Vec::new();
                v.push(to_owned_string("/parameter_events"));
                assert(string_views(v@) =~= seq!["/parameter_events"@]);
                assert forall|t: Seq<char>| #[trigger] string_views(v@).contains(t) <==> t
                    == "/parameter_events"@ by {
                    if t == "/parameter_events"@ {
                        assert(string_views(v@)[0] == t);
                    }
                }
                v
            },
        };
        let mut max_len: usize = 12;
        if let Some(s) = &max_array_len {
            if let Some(l) = parse_setting(s.as_str(), usize::MAX as u64) {
                max_len = l as usize;
            }
        }
        let mut buffer: usize = 1024;
        if let Some(s) = &buffer_size {
            if let Some(b) = parse_setting(s.as_str(), usize::MAX as u64) {
                buffer = b as usize;
            }
        }
        let run = match run_id {
            Some(s) => s,
            None => new_run_id(),
        };
        ModalityRosHookConfig {
            max_array_len: max_len,
            ignored_topics: topics,
            connect_timeout_secs,
            run_id: run,
            buffer_size: buffer,
        }
    }
}

} // verus!
