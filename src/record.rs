//! Reading log records back: words split on whitespace, each word split at its first `=`, the
//! last word naming a field wins, and double quotes around string fields are dropped.

use crate::operation::Operation;
use crate::timestamp::{rfc3339_reading, timestamp_from_rfc3339};
use vstd::prelude::*;

verus! {

/// Why a log line did not give a record.
#[derive(Clone, Copy, Debug, PartialEq, Eq, Structural)]
pub enum LogParseError {
    EmptyLine,
    MissingOperation,
    MissingKey,
    MissingLevel,
    MissingTimestamp,
    BadTimestamp,
}

/// White space as Unicode defines it (what `char::is_whitespace` accepts).
pub open spec fn is_space(c: char) -> bool {
    let u = c as u32;
    ||| u == 0x09 || u == 0x0A || u == 0x0B || u == 0x0C || u == 0x0D || u == 0x20
    ||| u == 0x85 || u == 0xA0 || u == 0x1680
    ||| 0x2000 <= u <= 0x200A
    ||| u == 0x2028 || u == 0x2029 || u == 0x202F || u == 0x205F || u == 0x3000
}

/// The words of `s`, continuing a word `cur` that is already under way.
pub open spec fn words_from(s: Seq<char>, cur: Seq<char>) -> Seq<Seq<char>>
    decreases s.len(),
{
    if s.len() == 0 {
        if cur.len() == 0 {
            Seq::empty()
        } else {
            seq![cur]
        }
    } else if is_space(s[0]) {
        if cur.len() == 0 {
            words_from(s.drop_first(), Seq::empty())
        } else {
            seq![cur] + words_from(s.drop_first(), Seq::empty())
        }
    } else {
        words_from(s.drop_first(), cur.push(s[0]))
    }
}

/// The maximal runs of non-space characters of `s`, in order.
pub open spec fn words(s: Seq<char>) -> Seq<Seq<char>> {
    words_from(s, Seq::empty())
}

/// The position of the first `=` in `w`.
pub open spec fn eq_pos(w: Seq<char>) -> Option<nat>
    decreases w.len(),
{
    if w.len() == 0 {
        None
    } else if w[0] == '=' {
        Some(0)
    } else {
        match eq_pos(w.drop_first()) {
            Some(p) => Some(p + 1),
            None => None,
        }
    }
}

/// A word split at its first `=` into a name and a value.
pub open spec fn split_eq(w: Seq<char>) -> Option<(Seq<char>, Seq<char>)> {
    match eq_pos(w) {
        Some(p) => Some((w.take(p as int), w.skip(p + 1int))),
        None => None,
    }
}

/// The value of the last word that names the field `name`.
pub open spec fn field(ws: Seq<Seq<char>>, name: Seq<char>) -> Option<Seq<char>>
    decreases ws.len(),
{
    if ws.len() == 0 {
        None
    } else {
        match split_eq(ws.last()) {
            Some(kv) => if kv.0 == name {
                Some(kv.1)
            } else {
                field(ws.drop_last(), name)
            },
            None => field(ws.drop_last(), name),
        }
    }
}

pub open spec fn trim_start_quotes(s: Seq<char>) -> Seq<char>
    decreases s.len(),
{
    if s.len() > 0 && s[0] == '"' {
        trim_start_quotes(s.drop_first())
    } else {
        s
    }
}

pub open spec fn trim_end_quotes(s: Seq<char>) -> Seq<char>
    decreases s.len(),
{
    if s.len() > 0 && s.last() == '"' {
        trim_end_quotes(s.drop_last())
    } else {
        s
    }
}

/// `s` without the double quotes at either end.
pub open spec fn trim_quotes(s: Seq<char>) -> Seq<char> {
    trim_end_quotes(trim_start_quotes(s))
}

/// The fields of a log record, as text.
pub struct RecordFields {
    pub name: Seq<char>,
    pub level: Seq<char>,
    pub key: Seq<char>,
    pub value: Option<Seq<char>>,
    pub time: Seq<char>,
}

/// What a log line says, before its timestamp is read: a line without words is empty; then
/// `operation`, `key`, `level` and `timestamp` must be present, in that order of checking.
pub open spec fn record_fields(line: Seq<char>) -> Result<RecordFields, LogParseError> {
    let ws = words(line);
    if ws.len() == 0 {
        Err(LogParseError::EmptyLine)
    } else if field(ws, "operation"@) is None {
        Err(LogParseError::MissingOperation)
    } else if field(ws, "key"@) is None {
        Err(LogParseError::MissingKey)
    } else if field(ws, "level"@) is None {
        Err(LogParseError::MissingLevel)
    } else if field(ws, "timestamp"@) is None {
        Err(LogParseError::MissingTimestamp)
    } else {
        Ok(
            RecordFields {
                name: field(ws, "operation"@)->0,
                level: trim_quotes(field(ws, "level"@)->0),
                key: trim_quotes(field(ws, "key"@)->0),
                value: match field(ws, "value"@) {
                    Some(v) => Some(trim_quotes(v)),
                    None => None,
                },
                time: trim_quotes(field(ws, "timestamp"@)->0),
            },
        )
    }
}

/// Whether `r` is what reading `line` as a log record gives.
pub open spec fn parsed_from(r: Result<Operation, LogParseError>, line: Seq<char>) -> bool {
    match record_fields(line) {
        Err(e) => r == Err::<Operation, LogParseError>(e),
        Ok(f) => match rfc3339_reading(f.time) {
            None => r == Err::<Operation, LogParseError>(LogParseError::BadTimestamp),
            Some(t) => match r {
                Ok(op) => {
                    &&& op.name@ == f.name
                    &&& op.level@ == f.level
                    &&& op.key@ == f.key
                    &&& (match op.value {
                        Some(v) => f.value == Some(v@),
                        None => f.value is None,
                    })
                    &&& op.timestamp == t
                },
                Err(_) => false,
            },
        },
    }
}

/// The text of a character range, when there is one.
pub open spec fn ranged(c: Seq<char>, r: Option<(usize, usize)>) -> Option<Seq<char>> {
    match r {
        Some(ab) => Some(c.subrange(ab.0 as int, ab.1 as int)),
        None => None,
    }
}

/// Where the value of each field lies in the line, as found so far.
struct FieldRanges {
    operation: Option<(usize, usize)>,
    key: Option<(usize, usize)>,
    value: Option<(usize, usize)>,
    level: Option<(usize, usize)>,
    timestamp: Option<(usize, usize)>,
}

impl FieldRanges {
    spec fn in_bounds(&self, n: nat) -> bool {
        &&& (self.operation matches Some(ab) ==> ab.0 <= ab.1 <= n)
        &&& (self.key matches Some(ab) ==> ab.0 <= ab.1 <= n)
        &&& (self.value matches Some(ab) ==> ab.0 <= ab.1 <= n)
        &&& (self.level matches Some(ab) ==> ab.0 <= ab.1 <= n)
        &&& (self.timestamp matches Some(ab) ==> ab.0 <= ab.1 <= n)
    }

    /// Each range holds the value that the words `ws` give its field.
    spec fn describes(&self, c: Seq<char>, ws: Seq<Seq<char>>) -> bool {
        &&& ranged(c, self.operation) == field(ws, "operation"@)
        &&& ranged(c, self.key) == field(ws, "key"@)
        &&& ranged(c, self.value) == field(ws, "value"@)
        &&& ranged(c, self.level) == field(ws, "level"@)
        &&& ranged(c, self.timestamp) == field(ws, "timestamp"@)
    }
}

fn chars_of(s: &str) -> (r: Vec<char>)
    ensures
        r@ == s@,
{
    let n = s.unicode_len();
    let mut v: Vec<char> = Vec::new();
    let mut i: usize = 0;
    while i < n
        invariant
            i <= n,
            n == s@.len(),
            v@ == s@.take(i as int),
        decreases n - i,
    {
        let ch = s.get_char(i);
        v.push(ch);
        proof {
            assert(s@.take(i + 1) =~= s@.take(i as int).push(ch));
        }
        i = i + 1;
    }
    proof {
        assert(s@.take(n as int) =~= s@);
    }
    v
}

fn is_space_char(ch: char) -> (r: bool)
    ensures
        r == is_space(ch),
{
    let u = ch as u32;
    u == 0x09 || u == 0x0A || u == 0x0B || u == 0x0C || u == 0x0D || u == 0x20 || u == 0x85 || u
        == 0xA0 || u == 0x1680 || (0x2000 <= u && u <= 0x200A) || u == 0x2028 || u == 0x2029 || u
        == 0x202F || u == 0x205F || u == 0x3000
}

/// Whether the characters `c[lo..hi]` spell `text`.
fn spells(c: &Vec<char>, lo: usize, hi: usize, text: &str) -> (r: bool)
    requires
        lo <= hi <= c@.len(),
    ensures
        r == (c@.subrange(lo as int, hi as int) == text@),
{
    let n = text.unicode_len();
    if hi - lo != n {
        proof {
            assert(c@.subrange(lo as int, hi as int).len() != text@.len());
        }
        return false;
    }
    let mut j: usize = 0;
    while j < n
        invariant
            j <= n,
            n == text@.len(),
            hi - lo == n,
            lo <= hi <= c@.len(),
            forall|k: int| 0 <= k < j ==> c@[lo + k] == text@[k],
        decreases n - j,
    {
        if c[lo + j] != text.get_char(j) {
            proof {
                assert(c@.subrange(lo as int, hi as int)[j as int] != text@[j as int]);
            }
            return false;
        }
        j = j + 1;
    }
    proof {
        assert(c@.subrange(lo as int, hi as int) =~= text@);
    }
    true
}

proof fn lemma_eq_pos(w: Seq<char>, k: int)
    requires
        0 <= k <= w.len(),
        forall|j: int| 0 <= j < k ==> w[j] != '=',
    ensures
        k < w.len() && w[k] == '=' ==> eq_pos(w) == Some(k as nat),
        k == w.len() ==> eq_pos(w) is None,
    decreases k,
{
    if k > 0 {
        lemma_eq_pos(w.drop_first(), k - 1);
    }
}

/// The position of the first `=` in `c[lo..hi]`.
fn first_eq(c: &Vec<char>, lo: usize, hi: usize) -> (r: Option<usize>)
    requires
        lo <= hi <= c@.len(),
    ensures
        match r {
            Some(p) => lo <= p < hi && eq_pos(c@.subrange(lo as int, hi as int)) == Some((p - lo) as nat),
            None => eq_pos(c@.subrange(lo as int, hi as int)) is None,
        },
{
    let ghost w = c@.subrange(lo as int, hi as int);
    let mut p: usize = lo;
    while p < hi
        invariant
            lo <= p <= hi <= c@.len(),
            w == c@.subrange(lo as int, hi as int),
            forall|j: int| 0 <= j < p - lo ==> w[j] != '=',
        decreases hi - p,
    {
        if c[p] == '=' {
            proof {
                lemma_eq_pos(w, p - lo);
            }
            return Some(p);
        }
        p = p + 1;
    }
    proof {
        lemma_eq_pos(w, p - lo);
    }
    None
}

/// The range left of `c[lo..hi]` once the double quotes at either end are dropped.
fn trim_range(c: &Vec<char>, lo: usize, hi: usize) -> (r: (usize, usize))
    requires
        lo <= hi <= c@.len(),
    ensures
        lo <= r.0 <= r.1 <= hi,
        c@.subrange(r.0 as int, r.1 as int) == trim_quotes(c@.subrange(lo as int, hi as int)),
{
    let mut a: usize = lo;
    while a < hi && c[a] == '"'
        invariant
            lo <= a <= hi <= c@.len(),
            trim_start_quotes(c@.subrange(lo as int, hi as int)) == trim_start_quotes(
                c@.subrange(a as int, hi as int),
            ),
        decreases hi - a,
    {
        proof {
            assert(c@.subrange(a as int, hi as int).drop_first() =~= c@.subrange(a + 1, hi as int));
        }
        a = a + 1;
    }
    let mut b: usize = hi;
    while b > a && c[b - 1] == '"'
        invariant
            lo <= a <= b <= hi <= c@.len(),
            trim_end_quotes(c@.subrange(a as int, hi as int)) == trim_end_quotes(
                c@.subrange(a as int, b as int),
            ),
        decreases b - a,
    {
        proof {
            assert(c@.subrange(a as int, b as int).drop_last() =~= c@.subrange(a as int, b - 1));
        }
        b = b - 1;
    }
    (a, b)
}

/// Takes note of the word `c[lo..hi]`: when it names a field, its value replaces that field's.
fn note_word(c: &Vec<char>, lo: usize, hi: usize, f: &mut FieldRanges, Ghost(ws): Ghost<Seq<Seq<char>>>)
    requires
        lo <= hi <= c@.len(),
        old(f).in_bounds(c@.len()),
        old(f).describes(c@, ws),
    ensures
        final(f).in_bounds(c@.len()),
        final(f).describes(c@, ws.push(c@.subrange(lo as int, hi as int))),
{
    let ghost w = c@.subrange(lo as int, hi as int);
    let ghost ws2 = ws.push(w);
    proof {
        assert(ws2.drop_last() =~= ws);
        assert(ws2.last() == w);
        reveal_strlit("operation");
        reveal_strlit("key");
        reveal_strlit("value");
        reveal_strlit("level");
        reveal_strlit("timestamp");
    }
    match first_eq(c, lo, hi) {
        None => {},
        Some(p) => {
            proof {
                assert(w.take(p - lo) =~= c@.subrange(lo as int, p as int));
                assert(w.skip(p - lo + 1) =~= c@.subrange(p + 1, hi as int));
            }
            let v = Some((p + 1, hi));
            if spells(c, lo, p, "operation") {
                f.operation = v;
            } else if spells(c, lo, p, "key") {
                f.key = v;
            } else if spells(c, lo, p, "value") {
                f.value = v;
            } else if spells(c, lo, p, "level") {
                f.level = v;
            } else if spells(c, lo, p, "timestamp") {
                f.timestamp = v;
            }
        },
    }
}

/// Finds the field values of a line's words, as ranges of its characters.
fn scan_fields(c: &Vec<char>) -> (r: (FieldRanges, bool))
    ensures
        r.0.in_bounds(c@.len()),
        r.0.describes(c@, words(c@)),
        r.1 == (words(c@).len() > 0),
{
    let n = c.len();
    let mut f = FieldRanges { operation: None, key: None, value: None, level: None, timestamp: None };
    let mut any = false;
    let ghost mut done: Seq<Seq<char>> = Seq::empty();
    let mut start: usize = 0;
    let mut i: usize = 0;
    proof {
        assert(c@.skip(0) =~= c@);
        assert(c@.subrange(0, 0) =~= Seq::<char>::empty());
        assert(done + words(c@) =~= words(c@));
    }
    while i < n
        invariant
            n == c@.len(),
            start <= i <= n,
            words(c@) == done + words_from(c@.skip(i as int), c@.subrange(start as int, i as int)),
            any == (done.len() > 0),
            f.in_bounds(n as nat),
            f.describes(c@, done),
        decreases n - i,
    {
        let ghost rest = c@.skip(i as int);
        let ghost cur = c@.subrange(start as int, i as int);
        proof {
            assert(rest.drop_first() =~= c@.skip(i + 1));
            assert(rest[0] == c@[i as int]);
        }
        if is_space_char(c[i]) {
            proof {
                assert(c@.subrange(i + 1, i + 1) =~= Seq::<char>::empty());
            }
            if start < i {
                note_word(c, start, i, &mut f, Ghost(done));
                proof {
                    assert(done.push(cur) + words_from(c@.skip(i + 1), Seq::empty()) =~= done + (seq![cur]
                        + words_from(c@.skip(i + 1), Seq::empty())));
                    done = done.push(cur);
                }
                any = true;
            } else {
                proof {
                    assert(cur =~= Seq::<char>::empty());
                }
            }
            start = i + 1;
        } else {
            proof {
                assert(cur.push(c@[i as int]) =~= c@.subrange(start as int, i + 1));
            }
        }
        i = i + 1;
    }
    let ghost cur = c@.subrange(start as int, n as int);
    proof {
        assert(c@.skip(n as int) =~= Seq::<char>::empty());
    }
    if start < n {
        note_word(c, start, n, &mut f, Ghost(done));
        proof {
            assert(done + seq![cur] =~= done.push(cur));
            done = done.push(cur);
        }
        any = true;
    } else {
        proof {
            assert(done + Seq::<Seq<char>>::empty() =~= done);
        }
    }
    (f, any)
}

/// Reads one log record. A line without words, a missing `operation`, `key`, `level` or
/// `timestamp` field (checked in that order), or a timestamp that is not RFC 3339 gives the
/// matching error; `value` is optional.
pub fn parse_aof_log(line: &str) -> (r: Result<Operation, LogParseError>)
    ensures
        parsed_from(r, line@),
{
    let c = chars_of(line);
    let (f, any) = scan_fields(&c);
    if !any {
        return Err(LogParseError::EmptyLine);
    }
    let name = match f.operation {
        Some(ab) => String::from_str(line.substring_char(ab.0, ab.1)),
        None => return Err(LogParseError::MissingOperation),
    };
    let key = match f.key {
        Some(ab) => {
            let t = trim_range(&c, ab.0, ab.1);
            String::from_str(line.substring_char(t.0, t.1))
        },
        None => return Err(LogParseError::MissingKey),
    };
    let value = match f.value {
        Some(ab) => {
            let t = trim_range(&c, ab.0, ab.1);
            Some(String::from_str(line.substring_char(t.0, t.1)))
        },
        None => None,
    };
    let level = match f.level {
        Some(ab) => {
            let t = trim_range(&c, ab.0, ab.1);
            String::from_str(line.substring_char(t.0, t.1))
        },
        None => return Err(LogParseError::MissingLevel),
    };
    let time = match f.timestamp {
        Some(ab) => {
            let t = trim_range(&c, ab.0, ab.1);
            line.substring_char(t.0, t.1)
        },
        None => return Err(LogParseError::MissingTimestamp),
    };
    match timestamp_from_rfc3339(time) {
        Ok(timestamp) => Ok(Operation { name, level, key, value, timestamp }),
        Err(_) => Err(LogParseError::BadTimestamp),
    }
}

} // verus!
