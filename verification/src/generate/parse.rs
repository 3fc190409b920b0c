//! From the text of a bundle to its lines.

use crate::digest::{sha256, sha256_text};
use crate::generate::fields::{fault_models, refuse, Fault, FaultModel};
use crate::json::{json_text_member, text_members};
use crate::observation::{ObservationLine, OBSERVATION_SCHEMA_VERSION};
use crate::text::{debug_text, join2, join3, optional_text, same, split, split_text, text_debug, trim, trimmed, views};
use vstd::prelude::*;
use vstd::utf8::encode_utf8;

verus! {

/// One nonblank line of a bundle: its text, and the record that it decodes to or the message of the
/// decoder's error.
#[derive(Debug, PartialEq)]
pub struct BundleLine {
    pub text: String,
    pub decoded: Result<ObservationLine, String>,
}

/// The parts that are not blank, trimmed, from `i` on.
pub open spec fn nonblank(parts: Seq<Seq<char>>, i: int) -> Seq<Seq<char>>
    decreases parts.len() - i,
{
    if i < 0 || i >= parts.len() {
        Seq::empty()
    } else if trimmed(parts[i]).len() == 0 {
        nonblank(parts, i + 1)
    } else {
        seq![trimmed(parts[i])] + nonblank(parts, i + 1)
    }
}

/// The lines of a text that are not blank, trimmed.
pub fn bundle_lines(input: &str) -> (r: Vec<String>)
    ensures
        views(r@) == nonblank(split_text(input@, '\n'), 0),
{
    let parts = split(input, '\n');
    let mut out: Vec<String> = Vec::new();
    let mut i: usize = 0;
    let ghost all = views(parts@);
    proof {
        assert(views(out@) + nonblank(all, 0) == nonblank(all, 0));
    }
    while i < parts.len()
        invariant
            all == views(parts@),
            i <= parts.len(),
            views(out@) + nonblank(all, i as int) == nonblank(all, 0),
        decreases parts.len() - i,
    {
        let line = trim(parts[i].as_str());
        if line.unicode_len() > 0 {
            let ghost before = out@;
            out.push(line.to_owned());
            proof {
                assert(views(out@) == views(before).push(trimmed(all[i as int])));
                assert(views(before) + (seq![trimmed(all[i as int])] + nonblank(all, i + 1))
                    == views(out@) + nonblank(all, i + 1));
            }
        }
        i = i + 1;
    }
    proof {
        assert(nonblank(all, all.len() as int) == Seq::<Seq<char>>::empty());
        assert(views(out@) + Seq::<Seq<char>>::empty() == views(out@));
    }
    out
}

/// What is known of a line: who it is, the record it holds, and why it is rejected.
#[derive(Debug)]
pub struct ParsedLine {
    pub identity: String,
    pub value: Option<ObservationLine>,
    pub faults: Vec<Fault>,
    pub counts_as_record: bool,
}

/// What is known of a line, apart from how it is stored.
pub struct Parsed {
    pub identity: Seq<char>,
    pub value: Option<ObservationLine>,
    pub faults: Seq<FaultModel>,
    pub counts: bool,
}

impl View for ParsedLine {
    type V = Parsed;

    open spec fn view(&self) -> Parsed {
        Parsed {
            identity: self.identity@,
            value: self.value,
            faults: fault_models(self.faults@),
            counts: self.counts_as_record,
        }
    }
}

/// What is known of each of a row of lines.
pub open spec fn parsed_lines(v: Seq<ParsedLine>) -> Seq<Parsed> {
    Seq::new(v.len(), |i: int| v[i]@)
}

/// The records that a row of lines holds.
pub open spec fn line_values(v: Seq<ParsedLine>) -> Seq<Option<ObservationLine>> {
    Seq::new(v.len(), |i: int| v[i].value)
}

/// The identity of a line that names no record: the digest of its text.
pub open spec fn raw_identity(text: Seq<char>) -> Seq<char> {
    "raw:"@ + sha256_text(encode_utf8(text))
}

/// The identity of a record.
pub open spec fn record_identity(run: Seq<char>, record: Seq<char>) -> Seq<char> {
    run + ":"@ + record
}

/// Who a line is.
pub open spec fn line_identity(
    text: Seq<char>,
    record: Option<Seq<char>>,
    run: Option<Seq<char>>,
) -> Seq<char> {
    match (record, run) {
        (Some(record), Some(run)) => record_identity(run, record),
        (Some(record), None) => record_identity("unknown-run"@, record),
        (None, _) => raw_identity(text),
    }
}

/// What is known of a line whose text is JSON, from the members `recordId`, `runId` and `schema` and
/// from what the line decodes to.
pub open spec fn enveloped(
    line: BundleLine,
    record: Option<Seq<char>>,
    run: Option<Seq<char>>,
    schema: Option<Seq<char>>,
) -> Parsed {
    let identity = line_identity(line.text@, record, run);
    match schema {
        None => Parsed {
            identity,
            value: None,
            faults: seq![("O002"@, "record is missing string field 'schema'"@)],
            counts: true,
        },
        Some(found) => if found != OBSERVATION_SCHEMA_VERSION@ {
            Parsed {
                identity,
                value: None,
                faults: seq![("O002"@, "unknown schema "@ + text_debug(found))],
                counts: true,
            }
        } else {
            match line.decoded {
                Ok(value) => Parsed {
                    identity,
                    value: Some(value),
                    faults: Seq::empty(),
                    counts: true,
                },
                Err(message) => Parsed {
                    identity,
                    value: None,
                    faults: seq![("O003"@, "invalid or unknown record: "@ + message@)],
                    counts: true,
                },
            }
        },
    }
}

/// What is known of a line whose text is no JSON.
pub open spec fn malformed(text: Seq<char>, message: Seq<char>) -> Parsed {
    Parsed {
        identity: raw_identity(text),
        value: None,
        faults: seq![("O001"@, "malformed JSON: "@ + message)],
        counts: true,
    }
}

/// What is known of a line.
pub open spec fn parsed_line(line: BundleLine) -> Parsed {
    let record = json_text_member(line.text@, "recordId"@);
    let run = json_text_member(line.text@, "runId"@);
    let schema = json_text_member(line.text@, "schema"@);
    match (record, run, schema) {
        (Ok(record), Ok(run), Ok(schema)) => enveloped(line, record, run, schema),
        (Err(message), _, _) => malformed(line.text@, message),
        (_, Err(message), _) => malformed(line.text@, message),
        (_, _, Err(message)) => malformed(line.text@, message),
    }
}

/// What stands for a bundle without lines.
pub open spec fn missing_header() -> Parsed {
    Parsed {
        identity: "bundle:missing-header"@,
        value: None,
        faults: seq![("O010"@, "bundle requires exactly one header; found 0"@)],
        counts: false,
    }
}

/// What is known of each line of a bundle.
pub open spec fn parsed_bundle(lines: Seq<BundleLine>) -> Seq<Parsed> {
    if lines.len() == 0 {
        seq![missing_header()]
    } else {
        Seq::new(lines.len(), |i: int| parsed_line(lines[i]))
    }
}

/// A line that holds no record, with the reason.
fn faulty(identity: String, code: &str, message: String, counts_as_record: bool) -> (r: ParsedLine)
    ensures
        r@ == (Parsed {
            identity: identity@,
            value: None,
            faults: seq![(code@, message@)],
            counts: counts_as_record,
        }),
{
    let mut faults: Vec<Fault> = Vec::new();
    proof {
        assert(fault_models(faults@) == Seq::<FaultModel>::empty());
    }
    refuse(&mut faults, code, message);
    proof {
        assert(Seq::<FaultModel>::empty().push((code@, message@)) == seq![(code@, message@)]);
    }
    ParsedLine { identity, value: None, faults, counts_as_record }
}

/// The identity of a line that names no record.
fn raw_identity_of(text: &str) -> (r: String)
    ensures
        r@ == raw_identity(text@),
{
    join2("raw:", sha256(text.as_bytes()).as_str())
}

/// What is known of a line whose text is JSON.
pub fn read_envelope(
    line: BundleLine,
    record: Option<String>,
    run: Option<String>,
    schema: Option<String>,
) -> (r: ParsedLine)
    ensures
        r@ == enveloped(
            line,
            optional_text(record),
            optional_text(run),
            optional_text(schema),
        ),
{
    let identity = match &record {
        Some(record) => match &run {
            Some(run) => join3(run.as_str(), ":", record.as_str()),
            None => join3("unknown-run", ":", record.as_str()),
        },
        None => raw_identity_of(line.text.as_str()),
    };
    match schema {
        None => faulty(
            identity,
            "O002",
            "record is missing string field 'schema'".to_owned(),
            true,
        ),
        Some(found) => {
            if !same(found.as_str(), OBSERVATION_SCHEMA_VERSION) {
                return faulty(
                    identity,
                    "O002",
                    join2("unknown schema ", debug_text(found.as_str()).as_str()),
                    true,
                );
            }
            match line.decoded {
                Ok(value) => {
                    let faults: Vec<Fault> = Vec::new();
                    proof {
                        assert(fault_models(faults@) == Seq::<FaultModel>::empty());
                    }
                    ParsedLine { identity, value: Some(value), faults, counts_as_record: true }
                },
                Err(message) => faulty(
                    identity,
                    "O003",
                    join2("invalid or unknown record: ", message.as_str()),
                    true,
                ),
            }
        },
    }
}

/// What is known of a line.
fn parse_line(line: BundleLine) -> (r: ParsedLine)
    ensures
        r@ == parsed_line(line),
{
    match text_members(line.text.as_str(), "recordId", "runId", "schema") {
        Ok((record, run, schema)) => read_envelope(line, record, run, schema),
        Err(message) => faulty(
            raw_identity_of(line.text.as_str()),
            "O001",
            join2("malformed JSON: ", message.as_str()),
            true,
        ),
    }
}

/// What is known of each line of a bundle.
pub(crate) fn parse_bundle(lines: Vec<BundleLine>) -> (r: Vec<ParsedLine>)
    ensures
        parsed_lines(r@) == parsed_bundle(lines@),
{
    let mut out: Vec<ParsedLine> = Vec::new();
    if lines.len() == 0 {
        out.push(
            faulty(
                "bundle:missing-header".to_owned(),
                "O010",
                "bundle requires exactly one header; found 0".to_owned(),
                false,
            ),
        );
        proof {
            assert(parsed_lines(out@) == seq![missing_header()]);
        }
        return out;
    }
    let ghost all = lines@;
    for line in it: lines
        invariant
            it.seq() == all,
            parsed_lines(out@) == Seq::new(it.index() as nat, |i: int| parsed_line(all[i])),
    {
        let ghost before = out@;
        let ghost k = it.index() as int;
        proof {
            assert(line == all[k]);
        }
        out.push(parse_line(line));
        proof {
            assert(parsed_lines(out@) == parsed_lines(before).push(parsed_line(all[k])));
            assert(parsed_lines(out@) == Seq::new((k + 1) as nat, |i: int| parsed_line(all[i])));
        }
    }
    proof {
        assert(parsed_lines(out@) == parsed_bundle(all));
    }
    out
}

} // verus!
