//! The monitor topology scan: parsing the device-enumeration utility's
//! output.
//!
//! The utility prints devices as blocks of `Instance ID:` and `Status:`
//! fields; the layout is a hard dependency, parsed positionally — after a
//! recognised field a fixed number of lines is skipped.  The raw command
//! output arrives as GBK-encoded bytes and is decoded through the encoding
//! crate, with undecodable sequences replaced, so the decode always yields
//! text; everything after it is verified.

use vstd::prelude::*;

use encoding::{all::GBK, DecoderTrap, Encoding};

use crate::strutil::{
    spec_lines, spec_starts_with, spec_trim, split_lines, starts_with, substring_from, trim,
};

verus! {

/// One enumerated device: its instance identifier and its status text;
/// status `Started` denotes an enabled, active device.
#[derive(Debug)]
pub struct Monitor {
    pub instance_id: String,
    pub status: String,
}

impl Clone for Monitor {
    fn clone(&self) -> (r: Self)
        ensures
            r == *self,
    {
        Monitor { instance_id: self.instance_id.clone(), status: self.status.clone() }
    }
}

/// The (instance id, status) pairs a monitor list stands for.
pub open spec fn recs_of(ms: Seq<Monitor>) -> Seq<(Seq<char>, Seq<char>)> {
    ms.map_values(|m: Monitor| (m.instance_id@, m.status@))
}

/// What the decode of GBK bytes returns; the encoding crate computes it from
/// the bytes alone.
pub uninterp spec fn gbk_decoded_of(bytes: Seq<u8>) -> Seq<char>;

/// Relies on encoding's `Encoding::decode` with the replacing trap: the GBK
/// bytes are decoded to text, a function of the input bytes alone.  The
/// replacing trap substitutes U+FFFD for undecodable sequences and always
/// continues, so the decode never fails.
#[verifier::external_body]
fn gbk_decode(bytes: &Vec<u8>) -> (r: Option<String>)
    ensures
        r is Some,
        r matches Some(s) ==> s@ == gbk_decoded_of(bytes@),
{
    match GBK.decode(bytes, DecoderTrap::Replace) {
        Ok(s) => Some(s),
        Err(_) => None,
    }
}

/// The parse of the utility's output lines, from a parser state of `skip`
/// lines still to be skipped and the instance id last read.  A trimmed
/// `Instance ID:` line stores the id and skips the four lines that follow
/// it; a trimmed `Status:` line emits one (id, status) record and skips the
/// line that follows it; blank and unrecognised lines are passed over.
pub open spec fn spec_scan(lines: Seq<Seq<char>>, skip: nat, id: Seq<char>) -> Seq<
    (Seq<char>, Seq<char>),
>
    decreases lines.len(),
{
    if lines.len() == 0 {
        Seq::empty()
    } else {
        let rest = lines.skip(1);
        if skip > 0 {
            spec_scan(rest, (skip - 1) as nat, id)
        } else {
            let t = spec_trim(lines[0]);
            if t.len() == 0 {
                spec_scan(rest, 0, id)
            } else if spec_starts_with(t, "Instance ID:"@) {
                spec_scan(rest, 4, spec_trim(t.skip("Instance ID:"@.len() as int)))
            } else if spec_starts_with(t, "Status:"@) {
                seq![(id, spec_trim(t.skip("Status:"@.len() as int)))] + spec_scan(rest, 1, id)
            } else {
                spec_scan(rest, 0, id)
            }
        }
    }
}

/// Parses decoded device-enumeration output into monitors.
pub fn parse_monitor_list(text: &str) -> (r: Vec<Monitor>)
    ensures
        recs_of(r@) == spec_scan(spec_lines(text@), 0, Seq::empty()),
{
    let lines = split_lines(text);
    let n = lines.len();
    let mut monitors: Vec<Monitor> = Vec::new();
    let mut skip: usize = 0;
    let mut id = String::new();
    let mut i: usize = 0;
    proof {
        assert(lines.deep_view().skip(0) =~= lines.deep_view());
        assert(recs_of(monitors@) =~= Seq::<(Seq<char>, Seq<char>)>::empty());
        assert(recs_of(monitors@) + spec_scan(lines.deep_view(), 0, Seq::empty()) =~= spec_scan(
            lines.deep_view(),
            0,
            Seq::empty(),
        ));
    }
    while i < n
        invariant
            n == lines@.len(),
            i <= n,
            lines.deep_view() == spec_lines(text@),
            spec_scan(spec_lines(text@), 0, Seq::empty()) == recs_of(monitors@) + spec_scan(
                lines.deep_view().skip(i as int),
                skip as nat,
                id@,
            ),
        decreases n - i,
    {
        let ghost remaining = lines.deep_view().skip(i as int);
        proof {
            assert(remaining[0] == lines.deep_view()[i as int]);
            assert(remaining.skip(1) =~= lines.deep_view().skip(i as int + 1));
        }
        if skip > 0 {
            skip -= 1;
        } else {
            let t = trim(lines[i].as_str());
            if t.as_str().is_empty() {
            } else if starts_with(t.as_str(), "Instance ID:") {
                let tail = substring_from(t.as_str(), "Instance ID:".unicode_len());
                id = trim(tail.as_str());
                skip = 4;
            } else if starts_with(t.as_str(), "Status:") {
                let tail = substring_from(t.as_str(), "Status:".unicode_len());
                let status = trim(tail.as_str());
                let ghost before = recs_of(monitors@);
                monitors.push(Monitor { instance_id: id.clone(), status });
                proof {
                    assert(recs_of(monitors@) =~= before.push(
                        (monitors@.last().instance_id@, monitors@.last().status@),
                    ));
                    assert(recs_of(monitors@) =~= before + seq![
                        (id@, spec_trim(spec_trim(remaining[0]).skip("Status:"@.len() as int))),
                    ]);
                }
                skip = 1;
            }
        }
        i += 1;
    }
    proof {
        assert(lines.deep_view().skip(n as int).len() == 0);
    }
    monitors
}

/// Scans the raw command output: decodes the GBK bytes — undecodable
/// sequences come through replaced, never dropped — and parses the monitor
/// blocks.  The scan always yields a parse of the decoded text.
pub fn scan_monitors(output: &Vec<u8>) -> (r: Option<Vec<Monitor>>)
    ensures
        r is Some,
        r matches Some(ms) ==> recs_of(ms@) == spec_scan(
            spec_lines(gbk_decoded_of(output@)),
            0,
            Seq::empty(),
        ),
{
    match gbk_decode(output) {
        Some(text) => Some(parse_monitor_list(text.as_str())),
        None => None,
    }
}

/// The instance ids of the records whose status is `Started`.
pub open spec fn spec_started_ids(ms: Seq<(Seq<char>, Seq<char>)>) -> Seq<Seq<char>>
    decreases ms.len(),
{
    if ms.len() == 0 {
        Seq::empty()
    } else if ms.last().1 == "Started"@ {
        spec_started_ids(ms.drop_last()).push(ms.last().0)
    } else {
        spec_started_ids(ms.drop_last())
    }
}

/// The instance ids of the monitors that are enabled and active: those the
/// topology strategy disables when the game appears and re-enables when it
/// exits.
pub fn started_instance_ids(monitors: &Vec<Monitor>) -> (r: Vec<String>)
    ensures
        r.deep_view() == spec_started_ids(recs_of(monitors@)),
{
    let started = String::from_str("Started");
    proof {
        reveal_strlit("Started");
    }
    let n = monitors.len();
    let mut ids: Vec<String> = Vec::new();
    let mut i: usize = 0;
    while i < n
        invariant
            n == monitors@.len(),
            i <= n,
            started@ == "Started"@,
            ids.deep_view() == spec_started_ids(recs_of(monitors@.take(i as int))),
        decreases n - i,
    {
        let ghost prefix = recs_of(monitors@.take(i as int + 1));
        proof {
            assert(prefix.drop_last() =~= recs_of(monitors@.take(i as int)));
            assert(prefix.last() == (monitors@[i as int].instance_id@, monitors@[i as int].status@));
        }
        if monitors[i].status == started {
            let ghost before = ids.deep_view();
            ids.push(monitors[i].instance_id.clone());
            proof {
                assert(ids.deep_view() =~= before.push(monitors@[i as int].instance_id@));
            }
        }
        i += 1;
    }
    proof {
        assert(recs_of(monitors@.take(n as int)) =~= recs_of(monitors@));
    }
    ids
}

} // verus!
