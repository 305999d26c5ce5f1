use vstd::prelude::*;
use vstd::string::*;

use crate::codec::{decode, json_parsed};

verus! {

/// The messages delivered for the lines read from the primary channel, in
/// reading order: the parsed value of each line that parses, nothing for a
/// line that does not.
pub open spec fn delivered(lines: Seq<Seq<char>>) -> Seq<serde_json::Value>
    decreases lines.len(),
{
    if lines.len() == 0 {
        seq![]
    } else {
        let rest = delivered(lines.drop_last());
        match json_parsed(lines.last()) {
            Some(v) => rest.push(v),
            None => rest,
        }
    }
}

/// The warning recorded for a primary-channel line that does not parse.
pub open spec fn malformed_warning(line: Seq<char>) -> Seq<char> {
    "Failed to parse JSON: "@ + line
}

/// The entry recorded for a line of the diagnostic channel.
pub open spec fn diagnostic_entry(line: Seq<char>) -> Seq<char> {
    "[worker stderr] "@ + line
}

/// The views of a vector of lines.
pub open spec fn line_views(lines: Seq<String>) -> Seq<Seq<char>> {
    lines.map_values(|l: String| l@)
}

/// Builds the warning for a malformed primary-channel line.
pub fn warning_for(line: &str) -> (r: String)
    ensures
        r@ == malformed_warning(line@),
{
    let mut s = String::from_str("Failed to parse JSON: ");
    s.append(line);
    proof {
        reveal_strlit("Failed to parse JSON: ");
    }
    assert(s@ =~= malformed_warning(line@));
    s
}

/// Builds the log entry for a diagnostic-channel line.
pub fn log_entry(line: &str) -> (r: String)
    ensures
        r@ == diagnostic_entry(line@),
{
    let mut s = String::from_str("[worker stderr] ");
    s.append(line);
    proof {
        reveal_strlit("[worker stderr] ");
    }
    assert(s@ =~= diagnostic_entry(line@));
    s
}

/// Decodes a whole run of primary-channel lines, skipping the malformed ones.
pub fn drain_primary(lines: &Vec<String>) -> (r: Vec<serde_json::Value>)
    ensures
        r@ == delivered(line_views(lines@)),
{
    let mut out: Vec<serde_json::Value> = Vec::new();
    let mut i: usize = 0;
    while i < lines.len()
        invariant
            i <= lines.len(),
            out@ == delivered(line_views(lines@.take(i as int))),
        decreases lines.len() - i,
    {
        let ghost prefix = line_views(lines@.take(i as int));
        assert(line_views(lines@.take(i + 1)).drop_last() =~= prefix);
        assert(line_views(lines@.take(i + 1)).last() == lines@[i as int]@);
        match decode(lines[i].as_str()) {
            Ok(v) => {
                out.push(v);
            },
            Err(_) => {},
        }
        i = i + 1;
    }
    assert(lines@.take(lines.len() as int) =~= lines@);
    out
}

/// Delivery over two runs of lines read one after the other is the delivery
/// of the first run followed by that of the second.
pub proof fn lemma_delivered_append(a: Seq<Seq<char>>, b: Seq<Seq<char>>)
    ensures
        delivered(a + b) == delivered(a) + delivered(b),
    decreases b.len(),
{
    if b.len() == 0 {
        assert(a + b =~= a);
        assert(delivered(b) =~= seq![]);
        assert(delivered(a) + delivered(b) =~= delivered(a));
    } else {
        lemma_delivered_append(a, b.drop_last());
        assert((a + b).drop_last() =~= a + b.drop_last());
        assert((a + b).last() == b.last());
        match json_parsed(b.last()) {
            Some(v) => {
                assert(delivered(a + b) =~= delivered(a) + delivered(b));
            },
            None => {},
        }
    }
}

/// When every line read from the primary channel is valid structured data,
/// the sink receives exactly one message per line, the parsed line, in the
/// order the lines were read: none reordered, duplicated or lost.
pub proof fn lemma_order_preserved(lines: Seq<Seq<char>>)
    requires
        forall|k: int| 0 <= k < lines.len() ==> json_parsed(#[trigger] lines[k]) is Some,
    ensures
        delivered(lines).len() == lines.len(),
        forall|k: int| 0 <= k < lines.len() ==> json_parsed(#[trigger] lines[k]) == Some(delivered(lines)[k]),
    decreases lines.len(),
{
    if lines.len() > 0 {
        let init = lines.drop_last();
        assert forall|k: int| 0 <= k < init.len() implies json_parsed(#[trigger] init[k]) is Some by {
            assert(init[k] == lines[k]);
        }
        lemma_order_preserved(init);
        assert(json_parsed(lines[lines.len() - 1]) is Some);
        assert forall|k: int| 0 <= k < lines.len() implies json_parsed(#[trigger] lines[k]) == Some(delivered(lines)[k]) by {
            if k < init.len() {
                assert(init[k] == lines[k]);
            }
        }
    }
}

/// A line that is not valid structured data is dropped and the lines after it
/// are still delivered.
pub proof fn lemma_malformed_line_skipped(before: Seq<Seq<char>>, bad: Seq<char>, after: Seq<Seq<char>>)
    requires
        json_parsed(bad) is None,
    ensures
        delivered(before + seq![bad] + after) == delivered(before) + delivered(after),
{
    lemma_delivered_append(before + seq![bad], after);
    assert((before + seq![bad]).drop_last() =~= before);
    assert(delivered(before + seq![bad]) == delivered(before));
}

} // verus!
