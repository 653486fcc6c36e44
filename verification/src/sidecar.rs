//! Parsing of the muxer's progress sidecar file.
//!
//! The external muxer appends `key=value` lines to a sidecar file. The
//! supervisor tails that file on a fixed cadence, keeps the most recent
//! lines in a bounded ring buffer, and once per cycle reports the value
//! of each interesting key at most once. A line whose text begins with
//! `progress=end` is the terminal sentinel.

use vstd::prelude::*;

use crate::strutil::has_prefix;
use crate::strutil::str_has_prefix;

verus! {

/// How many sidecar lines the ring buffer retains.
pub const RING_CAPACITY: usize = 12;

/// Whitespace stripped from around keys and values.
pub open spec fn is_space(c: char) -> bool {
    c == ' ' || c == '\t' || c == '\n' || c == '\r'
}

pub(crate) fn char_is_space(c: char) -> (r: bool)
    ensures
        r == is_space(c),
{
    c == ' ' || c == '\t' || c == '\n' || c == '\r'
}

/// A string with its leading whitespace removed.
pub open spec fn trim_front(s: Seq<char>) -> Seq<char>
    decreases s.len(),
{
    if s.len() == 0 {
        s
    } else if is_space(s[0]) {
        trim_front(s.drop_first())
    } else {
        s
    }
}

/// A string with its trailing whitespace removed.
pub open spec fn trim_back(s: Seq<char>) -> Seq<char>
    decreases s.len(),
{
    if s.len() == 0 {
        s
    } else if is_space(s.last()) {
        trim_back(s.drop_last())
    } else {
        s
    }
}

/// A string with whitespace removed from both ends.
pub open spec fn trim_spec(s: Seq<char>) -> Seq<char> {
    trim_back(trim_front(s))
}

pub(crate) proof fn lemma_trim_front_at(s: Seq<char>, lo: int)
    requires
        0 <= lo <= s.len(),
        forall|k: int| 0 <= k < lo ==> is_space(s[k]),
        lo == s.len() || !is_space(s[lo]),
    ensures
        trim_front(s) == s.subrange(lo, s.len() as int),
    decreases lo,
{
    if lo == 0 {
        assert(s.subrange(0, s.len() as int) =~= s);
    } else {
        lemma_trim_front_at(s.drop_first(), lo - 1);
        assert(s.drop_first().subrange(lo - 1, s.drop_first().len() as int) =~= s.subrange(
            lo,
            s.len() as int,
        ));
    }
}

proof fn lemma_trim_back_at(s: Seq<char>, hi: int)
    requires
        0 <= hi <= s.len(),
        forall|k: int| hi <= k < s.len() ==> is_space(s[k]),
        hi == 0 || !is_space(s[hi - 1]),
    ensures
        trim_back(s) == s.subrange(0, hi),
    decreases s.len(),
{
    if hi == s.len() {
        if s.len() == 0 {
            assert(s.subrange(0, 0) =~= s);
        } else {
            assert(s.subrange(0, s.len() as int) =~= s);
        }
    } else {
        lemma_trim_back_at(s.drop_last(), hi);
        assert(s.drop_last().subrange(0, hi) =~= s.subrange(0, hi));
    }
}

/// Removes whitespace from both ends of a string.
pub fn trim(s: &str) -> (r: String)
    ensures
        r@ == trim_spec(s@),
{
    let len = s.unicode_len();
    let mut lo: usize = 0;
    while lo < len && char_is_space(s.get_char(lo))
        invariant
            len == s@.len(),
            lo <= len,
            forall|k: int| 0 <= k < lo ==> is_space(s@[k]),
        decreases len - lo,
    {
        lo += 1;
    }
    let mut hi: usize = len;
    while hi > lo && char_is_space(s.get_char(hi - 1))
        invariant
            len == s@.len(),
            lo <= hi <= len,
            forall|k: int| hi <= k < len ==> is_space(s@[k]),
        decreases hi,
    {
        hi -= 1;
    }
    let r = s.substring_char(lo, hi).to_owned();
    proof {
        lemma_trim_front_at(s@, lo as int);
        let t = s@.subrange(lo as int, len as int);
        lemma_trim_back_at(t, hi - lo);
        assert(t.subrange(0, hi - lo) =~= s@.subrange(lo as int, hi as int));
        if hi > lo {
            assert(!is_space(t[hi - lo - 1]));
        }
    }
    r
}

/// Index of the first `=` in the string, or its length if there is none.
pub open spec fn first_eq_idx(s: Seq<char>) -> int
    decreases s.len(),
{
    if s.len() == 0 {
        0
    } else if s[0] == '=' {
        0
    } else {
        1 + first_eq_idx(s.drop_first())
    }
}

proof fn lemma_first_eq_idx_at(s: Seq<char>, i: int)
    requires
        0 <= i <= s.len(),
        forall|k: int| 0 <= k < i ==> s[k] != '=',
        i == s.len() || s[i] == '=',
    ensures
        first_eq_idx(s) == i,
    decreases i,
{
    if i > 0 {
        lemma_first_eq_idx_at(s.drop_first(), i - 1);
    }
}

/// The parse of one sidecar line: a key and a value, both trimmed, when
/// the line holds exactly one `=`; nothing otherwise.
pub open spec fn kv_of(s: Seq<char>) -> Option<(Seq<char>, Seq<char>)> {
    let i = first_eq_idx(s);
    if i < s.len() && (forall|j: int| i < j < s.len() ==> s[j] != '=') {
        Some((trim_spec(s.subrange(0, i)), trim_spec(s.subrange(i + 1, s.len() as int))))
    } else {
        None
    }
}

/// Parses one sidecar line into its trimmed key and value.
pub fn parse_kv(s: &str) -> (r: Option<(String, String)>)
    ensures
        match r {
            Some(kv) => kv_of(s@) == Some((kv.0@, kv.1@)),
            None => kv_of(s@) is None,
        },
{
    let len = s.unicode_len();
    let mut i: usize = 0;
    while i < len && s.get_char(i) != '='
        invariant
            len == s@.len(),
            i <= len,
            forall|k: int| 0 <= k < i ==> s@[k] != '=',
        decreases len - i,
    {
        i += 1;
    }
    proof {
        lemma_first_eq_idx_at(s@, i as int);
    }
    if i == len {
        return None;
    }
    let mut j: usize = i + 1;
    while j < len && s.get_char(j) != '='
        invariant
            len == s@.len(),
            i < j <= len,
            forall|k: int| i < k < j ==> s@[k] != '=',
        decreases len - j,
    {
        j += 1;
    }
    if j < len {
        return None;
    }
    let key = trim(s.substring_char(0, i));
    let value = trim(s.substring_char(i + 1, len));
    Some((key, value))
}

/// The keys whose values are reported to the caller.
#[derive(Clone, Copy, PartialEq, Eq, Structural, Debug)]
pub enum FieldKey {
    Frame,
    Fps,
    OutTime,
    Speed,
}

/// The interesting keys, by their spelling in the sidecar file.
pub open spec fn key_of_spec(k: Seq<char>) -> Option<FieldKey> {
    if k == "frame"@ {
        Some(FieldKey::Frame)
    } else if k == "fps"@ {
        Some(FieldKey::Fps)
    } else if k == "out_time"@ {
        Some(FieldKey::OutTime)
    } else if k == "speed"@ {
        Some(FieldKey::Speed)
    } else {
        None
    }
}

/// Recognizes an interesting key.
pub fn key_of(k: &str) -> (r: Option<FieldKey>)
    ensures
        r == key_of_spec(k@),
{
    if crate::strutil::str_eq(k, "frame") {
        Some(FieldKey::Frame)
    } else if crate::strutil::str_eq(k, "fps") {
        Some(FieldKey::Fps)
    } else if crate::strutil::str_eq(k, "out_time") {
        Some(FieldKey::OutTime)
    } else if crate::strutil::str_eq(k, "speed") {
        Some(FieldKey::Speed)
    } else {
        None
    }
}

/// Which keys have already been reported within the current cycle.
#[derive(Clone, Copy, PartialEq, Eq, Structural, Debug)]
pub struct ReportedKeys {
    pub frame: bool,
    pub fps: bool,
    pub out_time: bool,
    pub speed: bool,
}

/// No key reported yet; the state at the start of each cycle.
pub open spec fn no_keys_spec() -> ReportedKeys {
    ReportedKeys { frame: false, fps: false, out_time: false, speed: false }
}

/// Whether a key was already reported.
pub open spec fn key_reported(seen: ReportedKeys, k: FieldKey) -> bool {
    match k {
        FieldKey::Frame => seen.frame,
        FieldKey::Fps => seen.fps,
        FieldKey::OutTime => seen.out_time,
        FieldKey::Speed => seen.speed,
    }
}

/// The set of reported keys with one more key in it.
pub open spec fn with_key(seen: ReportedKeys, k: FieldKey) -> ReportedKeys {
    match k {
        FieldKey::Frame => ReportedKeys { frame: true, ..seen },
        FieldKey::Fps => ReportedKeys { fps: true, ..seen },
        FieldKey::OutTime => ReportedKeys { out_time: true, ..seen },
        FieldKey::Speed => ReportedKeys { speed: true, ..seen },
    }
}

impl ReportedKeys {
    fn none() -> (r: ReportedKeys)
        ensures
            r == no_keys_spec(),
    {
        ReportedKeys { frame: false, fps: false, out_time: false, speed: false }
    }

    fn has(&self, k: FieldKey) -> (r: bool)
        ensures
            r == key_reported(*self, k),
    {
        match k {
            FieldKey::Frame => self.frame,
            FieldKey::Fps => self.fps,
            FieldKey::OutTime => self.out_time,
            FieldKey::Speed => self.speed,
        }
    }

    fn set(&mut self, k: FieldKey)
        ensures
            *final(self) == with_key(*old(self), k),
    {
        match k {
            FieldKey::Frame => self.frame = true,
            FieldKey::Fps => self.fps = true,
            FieldKey::OutTime => self.out_time = true,
            FieldKey::Speed => self.speed = true,
        }
    }
}

/// The values one cycle reports, scanning the buffered lines in order:
/// the trimmed value of each parseable line whose key is interesting and
/// not yet reported.
pub open spec fn cycle_values(lines: Seq<Seq<char>>, seen: ReportedKeys) -> Seq<Seq<char>>
    decreases lines.len(),
{
    if lines.len() == 0 {
        Seq::empty()
    } else {
        match kv_of(lines[0]) {
            Some(kv) => match key_of_spec(kv.0) {
                Some(k) => if !key_reported(seen, k) {
                    seq![kv.1] + cycle_values(lines.drop_first(), with_key(seen, k))
                } else {
                    cycle_values(lines.drop_first(), seen)
                },
                None => cycle_values(lines.drop_first(), seen),
            },
            None => cycle_values(lines.drop_first(), seen),
        }
    }
}

/// The keys those values belong to, in the same order.
pub open spec fn cycle_keys(lines: Seq<Seq<char>>, seen: ReportedKeys) -> Seq<FieldKey>
    decreases lines.len(),
{
    if lines.len() == 0 {
        Seq::empty()
    } else {
        match kv_of(lines[0]) {
            Some(kv) => match key_of_spec(kv.0) {
                Some(k) => if !key_reported(seen, k) {
                    seq![k] + cycle_keys(lines.drop_first(), with_key(seen, k))
                } else {
                    cycle_keys(lines.drop_first(), seen)
                },
                None => cycle_keys(lines.drop_first(), seen),
            },
            None => cycle_keys(lines.drop_first(), seen),
        }
    }
}

/// Within one cycle no key is reported twice, no key already reported
/// before the cycle is reported again, and no more values are reported
/// than there are buffered lines.
pub proof fn lemma_cycle_keys_distinct(lines: Seq<Seq<char>>, seen: ReportedKeys)
    ensures
        forall|i: int, j: int|
            0 <= i < j < cycle_keys(lines, seen).len() ==> cycle_keys(lines, seen)[i]
                != cycle_keys(lines, seen)[j],
        forall|i: int|
            0 <= i < cycle_keys(lines, seen).len() ==> !key_reported(
                seen,
                cycle_keys(lines, seen)[i],
            ),
        cycle_values(lines, seen).len() == cycle_keys(lines, seen).len(),
        cycle_values(lines, seen).len() <= lines.len(),
    decreases lines.len(),
{
    if lines.len() > 0 {
        let rest = lines.drop_first();
        match kv_of(lines[0]) {
            Some(kv) => match key_of_spec(kv.0) {
                Some(k) => {
                    if !key_reported(seen, k) {
                        lemma_cycle_keys_distinct(rest, with_key(seen, k));
                        assert(key_reported(with_key(seen, k), k));
                    } else {
                        lemma_cycle_keys_distinct(rest, seen);
                    }
                },
                None => {
                    lemma_cycle_keys_distinct(rest, seen);
                },
            },
            None => {
                lemma_cycle_keys_distinct(rest, seen);
            },
        }
    }
}

/// The terminal sentinel: a line beginning `progress=end`.
pub open spec fn is_end_line(s: Seq<char>) -> bool {
    has_prefix(s, "progress=end"@)
}

/// Whether any buffered line is the terminal sentinel.
pub open spec fn any_end_line(lines: Seq<Seq<char>>) -> bool {
    exists|i: int| 0 <= i < lines.len() && is_end_line(lines[i])
}

/// The bounded buffer of the most recently read sidecar lines.
pub struct RingBuffer {
    lines: Vec<String>,
}

impl RingBuffer {
    pub closed spec fn view(self) -> Seq<Seq<char>> {
        self.lines.deep_view()
    }

    pub open spec fn inv(self) -> bool {
        self@.len() <= RING_CAPACITY
    }

    /// An empty buffer.
    pub fn new() -> (r: RingBuffer)
        ensures
            r.inv(),
            r@ == Seq::<Seq<char>>::empty(),
    {
        let r = RingBuffer { lines: Vec::new() };
        proof {
            assert(r@ =~= Seq::<Seq<char>>::empty());
        }
        r
    }

    /// Appends one line, evicting the oldest once the buffer is full.
    pub fn push(&mut self, line: String)
        requires
            old(self).inv(),
        ensures
            final(self).inv(),
            old(self)@.len() < RING_CAPACITY ==> final(self)@ == old(self)@.push(line@),
            old(self)@.len() == RING_CAPACITY ==> final(self)@ == old(self)@.drop_first().push(
                line@,
            ),
    {
        let ghost pre = self@;
        if self.lines.len() >= RING_CAPACITY {
            self.lines.remove(0);
            proof {
                assert(self@ =~= pre.drop_first());
            }
        }
        let ghost base = self@;
        self.lines.push(line);
        proof {
            assert(self@ =~= base.push(line@));
        }
    }

    /// How many lines are buffered.
    pub fn len(&self) -> (r: usize)
        ensures
            r == self@.len(),
    {
        self.lines.len()
    }
}

/// One reporting cycle over the buffered lines: the deduplicated values
/// of the interesting keys in order, the display name appended last, and
/// whether the terminal sentinel has been seen.
pub fn tail_cycle(ring: &RingBuffer, display_name: &str) -> (r: (Vec<String>, bool))
    ensures
        r.0.deep_view() == cycle_values(ring@, no_keys_spec()) + seq![display_name@],
        r.0@.len() <= ring@.len() + 1,
        r.1 == any_end_line(ring@),
{
    let n = ring.len();
    let mut msgs: Vec<String> = Vec::new();
    let mut seen = ReportedKeys::none();
    let mut done = false;
    let mut i: usize = 0;
    proof {
        assert(msgs.deep_view() =~= Seq::<Seq<char>>::empty());
        assert(ring@.skip(0) =~= ring@);
    }
    while i < n
        invariant
            n == ring@.len(),
            i <= n,
            msgs.deep_view() + cycle_values(ring@.skip(i as int), seen) =~= cycle_values(
                ring@,
                no_keys_spec(),
            ),
            msgs@.len() <= i,
            done == exists|k: int| 0 <= k < i && is_end_line(ring@[k]),
        decreases n - i,
    {
        let line = &ring.lines[i];
        proof {
            let rem = ring@.skip(i as int);
            assert(rem[0] == ring@[i as int]);
            assert(rem.drop_first() =~= ring@.skip(i as int + 1));
            assert(ring@[i as int] == line@);
        }
        let ghost pre_msgs = msgs.deep_view();
        match parse_kv(line.as_str()) {
            Some(kv) => {
                match key_of(kv.0.as_str()) {
                    Some(k) => {
                        if !seen.has(k) {
                            msgs.push(kv.1);
                            seen.set(k);
                            proof {
                                assert(msgs.deep_view() =~= pre_msgs.push(kv_of(
                                    ring@[i as int],
                                ).unwrap().1));
                            }
                        }
                    },
                    None => {},
                }
            },
            None => {},
        }
        if str_has_prefix(line.as_str(), "progress=end") {
            done = true;
        }
        i += 1;
        proof {
            assert(msgs.deep_view() + cycle_values(ring@.skip(i as int), seen) =~= cycle_values(
                ring@,
                no_keys_spec(),
            ));
        }
    }
    proof {
        assert(ring@.skip(n as int) =~= Seq::<Seq<char>>::empty());
    }
    msgs.push(display_name.to_owned());
    proof {
        assert(msgs.deep_view() =~= cycle_values(ring@, no_keys_spec()) + seq![display_name@]);
        lemma_cycle_keys_distinct(ring@, no_keys_spec());
    }
    (msgs, done)
}

} // verus!
