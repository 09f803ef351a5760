//! The log reads back what was written: replaying the records of a sequence of mutations gives
//! the table that applying those mutations in order gives.

use crate::aol::{operation_record, record_text};
use crate::operation::{opt_view, Operation};
use crate::record::{
    eq_pos, field, is_space, record_fields, split_eq, trim_end_quotes, trim_quotes, trim_start_quotes,
    words, words_from, RecordFields,
};
use crate::store::{apply_spec, replay_line_spec, replay_spec, SlotView};
use crate::timestamp::{rfc3339_reading, rfc3339_text};
use vstd::prelude::*;

verus! {

/// Text that a record carries unchanged: no white space and no double quote.
pub open spec fn plain_text(s: Seq<char>) -> bool {
    forall|i: int| 0 <= i < s.len() ==> !is_space(#[trigger] s[i]) && s[i] != '"'
}

/// An operation whose record reads back as the operation: its texts are plain, and the calendar
/// library reads its own text of the timestamp back as the same instant.
pub open spec fn loggable(op: Operation) -> bool {
    &&& plain_text(op.name@)
    &&& plain_text(op.level@)
    &&& plain_text(op.key@)
    &&& (op.value matches Some(v) ==> plain_text(v@))
    &&& plain_text(rfc3339_text(op.timestamp))
    &&& rfc3339_reading(rfc3339_text(op.timestamp)) == Some(op.timestamp)
}

/// The table after applying mutations in order.
pub open spec fn apply_all(m: Map<Seq<char>, SlotView>, ops: Seq<Operation>) -> Map<Seq<char>, SlotView>
    decreases ops.len(),
{
    if ops.len() == 0 {
        m
    } else {
        let op = ops.last();
        apply_spec(apply_all(m, ops.drop_last()), op.name@, op.key@, opt_view(op.value), op.timestamp)
    }
}

proof fn lemma_words_chunk(a: Seq<char>, b: Seq<char>, cur: Seq<char>)
    requires
        forall|i: int| 0 <= i < a.len() ==> !is_space(#[trigger] a[i]),
    ensures
        words_from(a + b, cur) == words_from(b, cur + a),
    decreases a.len(),
{
    if a.len() == 0 {
        assert(a + b =~= b);
        assert(cur + a =~= cur);
    } else {
        assert((a + b).drop_first() =~= a.drop_first() + b);
        assert((a + b)[0] == a[0]);
        lemma_words_chunk(a.drop_first(), b, cur.push(a[0]));
        assert(cur.push(a[0]) + a.drop_first() =~= cur + a);
    }
}

proof fn lemma_words_space(b: Seq<char>, cur: Seq<char>)
    requires
        cur.len() > 0,
    ensures
        words_from(seq![' '] + b, cur) == seq![cur] + words_from(b, Seq::empty()),
{
    assert((seq![' '] + b).drop_first() =~= b);
    assert((seq![' '] + b)[0] == ' ');
}

proof fn lemma_words_end(cur: Seq<char>)
    requires
        cur.len() > 0,
    ensures
        words_from(Seq::empty(), cur) == seq![cur],
{
}

proof fn lemma_eq_pos_prefix(a: Seq<char>, b: Seq<char>)
    requires
        eq_pos(a) is Some,
    ensures
        eq_pos(a + b) == eq_pos(a),
    decreases a.len(),
{
    if a[0] != '=' {
        assert((a + b).drop_first() =~= a.drop_first() + b);
        lemma_eq_pos_prefix(a.drop_first(), b);
    }
}

proof fn lemma_plain_no_space(s: Seq<char>)
    requires
        plain_text(s),
    ensures
        forall|i: int| 0 <= i < s.len() ==> !is_space(#[trigger] s[i]),
{
}

proof fn lemma_trim_plain(s: Seq<char>)
    requires
        plain_text(s),
    ensures
        trim_quotes(s) == s,
{
    if s.len() > 0 {
        assert(s[0] != '"');
        assert(s[s.len() - 1] != '"');
    }
}

proof fn lemma_trim_quoted(s: Seq<char>)
    requires
        plain_text(s),
    ensures
        trim_quotes(seq!['"'] + s + seq!['"']) == s,
{
    let q = seq!['"'] + s + seq!['"'];
    let t = s + seq!['"'];
    assert(q[0] == '"');
    assert(q.drop_first() =~= t);
    assert(trim_start_quotes(q) == trim_start_quotes(t));
    if s.len() == 0 {
        assert(t[0] == '"');
        assert(t.drop_first() =~= Seq::<char>::empty());
        assert(trim_start_quotes(t) == trim_start_quotes(Seq::<char>::empty()));
        assert(trim_start_quotes(q) =~= Seq::<char>::empty());
        assert(s =~= Seq::<char>::empty());
    } else {
        assert(t[0] == s[0]);
        assert(trim_start_quotes(t) == t);
        assert(t.last() == '"');
        assert(t.drop_last() =~= s);
        assert(s.last() != '"');
        assert(trim_end_quotes(t) == trim_end_quotes(s));
    }
}

/// The words of a record: one per field.
proof fn lemma_record_words(time: Seq<char>, name: Seq<char>, level: Seq<char>, key: Seq<char>, value: Option<Seq<char>>)
    requires
        plain_text(time),
        plain_text(name),
        plain_text(level),
        plain_text(key),
        value matches Some(v) ==> plain_text(v),
    ensures
        words(record_text(time, name, level, key, value)) == {
            let base = seq![
                "timestamp="@ + time,
                "operation="@ + name,
                "level="@ + level,
                "key="@ + (seq!['"'] + key + seq!['"']),
            ];
            match value {
                Some(v) => base.push("value="@ + (seq!['"'] + v + seq!['"'])),
                None => base,
            }
        },
{
    reveal_strlit("timestamp=");
    reveal_strlit(" operation=");
    reveal_strlit("operation=");
    reveal_strlit(" level=");
    reveal_strlit("level=");
    reveal_strlit(" key=\"");
    reveal_strlit("key=");
    reveal_strlit("\"");
    reveal_strlit(" value=\"");
    reveal_strlit("value=");
    let sp = seq![' '];
    let a1 = "timestamp="@ + time;
    let a2 = "operation="@ + name;
    let a3 = "level="@ + level;
    let a4 = "key="@ + (seq!['"'] + key + seq!['"']);
    lemma_plain_no_space(time);
    lemma_plain_no_space(name);
    lemma_plain_no_space(level);
    lemma_plain_no_space(key);
    assert forall|i: int| 0 <= i < a1.len() implies !is_space(#[trigger] a1[i]) by {
        if i >= 10 {
            assert(a1[i] == time[i - 10]);
        }
    }
    assert forall|i: int| 0 <= i < a2.len() implies !is_space(#[trigger] a2[i]) by {
        if i >= 10 {
            assert(a2[i] == name[i - 10]);
        }
    }
    assert forall|i: int| 0 <= i < a3.len() implies !is_space(#[trigger] a3[i]) by {
        if i >= 6 {
            assert(a3[i] == level[i - 6]);
        }
    }
    assert forall|i: int| 0 <= i < a4.len() implies !is_space(#[trigger] a4[i]) by {
        if 5 <= i < a4.len() - 1 {
            assert(a4[i] == key[i - 5]);
        }
    }
    let e = Seq::<char>::empty();
    let head = record_text(time, name, level, key, None);
    assert(head =~= a1 + (sp + (a2 + (sp + (a3 + (sp + a4))))));
    let tail4: Seq<Seq<char>> = match value {
        Some(v) => {
            let a5 = "value="@ + (seq!['"'] + v + seq!['"']);
            assert forall|i: int| 0 <= i < a5.len() implies !is_space(#[trigger] a5[i]) by {
                if 7 <= i < a5.len() - 1 {
                    assert(a5[i] == v[i - 7]);
                }
            }
            assert(record_text(time, name, level, key, value) =~= a1 + (sp + (a2 + (sp + (a3 + (sp + (a4
                + (sp + a5))))))));
            lemma_words_chunk(a4, sp + a5, e);
            assert(e + a4 =~= a4);
            lemma_words_space(a5, a4);
            lemma_words_chunk(a5, e, e);
            assert(a5 + e =~= a5);
            assert(e + a5 =~= a5);
            lemma_words_end(a5);
            seq![a4, a5]
        },
        None => {
            assert(record_text(time, name, level, key, value) == head);
            lemma_words_chunk(a4, e, e);
            assert(a4 + e =~= a4);
            assert(e + a4 =~= a4);
            lemma_words_end(a4);
            seq![a4]
        },
    };
    let r = record_text(time, name, level, key, value);
    let rest3 = match value {
        Some(v) => a4 + (sp + ("value="@ + (seq!['"'] + v + seq!['"']))),
        None => a4,
    };
    assert(words_from(rest3, e) == tail4);
    assert(r =~= a1 + (sp + (a2 + (sp + (a3 + (sp + rest3))))));
    lemma_words_chunk(a1, sp + (a2 + (sp + (a3 + (sp + rest3)))), e);
    assert(e + a1 =~= a1);
    lemma_words_space(a2 + (sp + (a3 + (sp + rest3))), a1);
    lemma_words_chunk(a2, sp + (a3 + (sp + rest3)), e);
    assert(e + a2 =~= a2);
    lemma_words_space(a3 + (sp + rest3), a2);
    lemma_words_chunk(a3, sp + rest3, e);
    assert(e + a3 =~= a3);
    lemma_words_space(rest3, a3);
    assert(seq![a1] + (seq![a2] + (seq![a3] + tail4)) =~= match value {
        Some(v) => seq![a1, a2, a3, a4].push("value="@ + (seq!['"'] + v + seq!['"'])),
        None => seq![a1, a2, a3, a4],
    });
}

/// Splitting `label=` followed by `rest` at its first `=`.
proof fn lemma_split_labelled(label: Seq<char>, rest: Seq<char>)
    requires
        eq_pos(label) == Some((label.len() - 1) as nat),
        label.len() > 0,
    ensures
        split_eq(label + rest) == Some((label.drop_last(), rest)),
{
    lemma_eq_pos_prefix(label, rest);
    assert((label + rest).take(label.len() - 1) =~= label.drop_last());
    assert((label + rest).skip(label.len() as int) =~= rest);
}

/// The field labels: each ends in its only `=`, and their names differ.
proof fn lemma_labels()
    ensures
        eq_pos("timestamp="@) == Some(9nat),
        eq_pos("operation="@) == Some(9nat),
        eq_pos("level="@) == Some(5nat),
        eq_pos("key="@) == Some(3nat),
        eq_pos("value="@) == Some(5nat),
        "timestamp="@.len() == 10,
        "operation="@.len() == 10,
        "level="@.len() == 6,
        "key="@.len() == 4,
        "value="@.len() == 6,
        "timestamp="@.drop_last() == "timestamp"@,
        "operation="@.drop_last() == "operation"@,
        "level="@.drop_last() == "level"@,
        "key="@.drop_last() == "key"@,
        "value="@.drop_last() == "value"@,
        "timestamp"@ != "operation"@,
        "timestamp"@ != "level"@,
        "timestamp"@ != "key"@,
        "timestamp"@ != "value"@,
        "operation"@ != "level"@,
        "operation"@ != "key"@,
        "operation"@ != "value"@,
        "level"@ != "key"@,
        "level"@ != "value"@,
        "key"@ != "value"@,
{
    reveal_strlit("timestamp=");
    reveal_strlit("operation=");
    reveal_strlit("level=");
    reveal_strlit("key=");
    reveal_strlit("value=");
    reveal_strlit("timestamp");
    reveal_strlit("operation");
    reveal_strlit("level");
    reveal_strlit("key");
    reveal_strlit("value");
    reveal_with_fuel(eq_pos, 11);
    assert("timestamp="@.drop_last() =~= "timestamp"@);
    assert("operation="@.drop_last() =~= "operation"@);
    assert("level="@.drop_last() =~= "level"@);
    assert("key="@.drop_last() =~= "key"@);
    assert("value="@.drop_last() =~= "value"@);
    assert("timestamp"@[0] != "operation"@[0]);
    assert("timestamp"@.len() != "level"@.len());
    assert("timestamp"@.len() != "key"@.len());
    assert("timestamp"@.len() != "value"@.len());
    assert("operation"@.len() != "level"@.len());
    assert("operation"@.len() != "key"@.len());
    assert("operation"@.len() != "value"@.len());
    assert("level"@.len() != "key"@.len());
    assert("level"@[0] != "value"@[0]);
    assert("key"@.len() != "value"@.len());
}

/// A record reads back as its fields: with plain texts, the parser finds exactly the name, level,
/// key, value and timestamp text that were written.
pub proof fn lemma_record_fields(
    time: Seq<char>,
    name: Seq<char>,
    level: Seq<char>,
    key: Seq<char>,
    value: Option<Seq<char>>,
)
    requires
        plain_text(time),
        plain_text(name),
        plain_text(level),
        plain_text(key),
        value matches Some(v) ==> plain_text(v),
    ensures
        record_fields(record_text(time, name, level, key, value)) == Ok::<RecordFields, crate::record::LogParseError>(
            RecordFields { name, level, key, value, time },
        ),
{
    lemma_record_words(time, name, level, key, value);
    lemma_labels();
    let qk = seq!['"'] + key + seq!['"'];
    lemma_split_labelled("timestamp="@, time);
    lemma_split_labelled("operation="@, name);
    lemma_split_labelled("level="@, level);
    lemma_split_labelled("key="@, qk);
    lemma_trim_quoted(key);
    lemma_trim_plain(level);
    lemma_trim_plain(time);
    reveal_with_fuel(field, 6);
    let ws = words(record_text(time, name, level, key, value));
    match value {
        Some(v) => {
            let qv = seq!['"'] + v + seq!['"'];
            lemma_split_labelled("value="@, qv);
            lemma_trim_quoted(v);
            assert(ws.drop_last() =~= seq!["timestamp="@ + time, "operation="@ + name, "level="@ + level, "key="@ + qk]);
        },
        None => {},
    }
    let base = seq!["timestamp="@ + time, "operation="@ + name, "level="@ + level, "key="@ + qk];
    assert(base.drop_last() =~= seq!["timestamp="@ + time, "operation="@ + name, "level="@ + level]);
    assert(base.drop_last().drop_last() =~= seq!["timestamp="@ + time, "operation="@ + name]);
    assert(base.drop_last().drop_last().drop_last() =~= seq!["timestamp="@ + time]);
    assert(base.drop_last().drop_last().drop_last().drop_last() =~= Seq::<Seq<char>>::empty());
}

/// Replaying the record of a loggable operation applies that operation.
pub proof fn lemma_replay_record(m: Map<Seq<char>, SlotView>, op: Operation)
    requires
        loggable(op),
    ensures
        replay_line_spec(m, operation_record(op)) == apply_spec(m, op.name@, op.key@, opt_view(op.value), op.timestamp),
{
    match op.value {
        Some(v) => {},
        None => {},
    }
    lemma_record_fields(rfc3339_text(op.timestamp), op.name@, op.level@, op.key@, opt_view(op.value));
}

/// Replaying the log written for a sequence of mutations gives the table that applying them in
/// order gives, from any starting table.
pub proof fn lemma_replay_round_trip(m: Map<Seq<char>, SlotView>, ops: Seq<Operation>)
    requires
        forall|i: int| 0 <= i < ops.len() ==> loggable(#[trigger] ops[i]),
    ensures
        replay_spec(m, ops.map_values(|op: Operation| operation_record(op))) == apply_all(m, ops),
    decreases ops.len(),
{
    if ops.len() > 0 {
        let lines = ops.map_values(|op: Operation| operation_record(op));
        assert(lines.drop_last() =~= ops.drop_last().map_values(|op: Operation| operation_record(op)));
        lemma_replay_round_trip(m, ops.drop_last());
        assert(loggable(ops[ops.len() - 1]));
        lemma_replay_record(replay_spec(m, lines.drop_last()), ops.last());
    }
}

} // verus!
