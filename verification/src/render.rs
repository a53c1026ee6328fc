//! Serialization of the registry to the Prometheus text exposition format:
//! one `metric_name{label="value",...} value` line per sample, the occupancy
//! family first, each family in registry order. Label values are escaped by
//! this layer, never rejected.

use vstd::prelude::*;

use crate::registry::{
    DetailSample, DetailSampleModel, OccupancySample, OccupancySampleModel, Registry,
    RegistryModel,
};
use crate::text::{append_escaped, dec_rep, escape_label, i64_dec, int_dec, u64_dec};

verus! {

/// `true` or `false`, as written inside the `private` label.
pub open spec fn bool_label(b: bool) -> Seq<char> {
    if b {
        "true"@
    } else {
        "false"@
    }
}

/// The exposition line of one occupancy sample.
pub open spec fn occ_line(e: OccupancySampleModel) -> Seq<char> {
    "meeting_room_occupied{room_alias=\""@ + escape_label(e.room_alias) + "\",room_name=\""@
        + escape_label(e.room_name) + "\"} "@ + dec_rep(e.value as nat) + "\n"@
}

/// The exposition lines of a whole occupancy family, in order.
pub open spec fn occ_lines(s: Seq<OccupancySampleModel>) -> Seq<char>
    decreases s.len(),
{
    if s.len() == 0 {
        Seq::empty()
    } else {
        occ_lines(s.drop_last()) + occ_line(s.last())
    }
}

/// The exposition line of one appointment-detail sample; its gauge value is
/// the constant 1.
pub open spec fn detail_line(d: DetailSampleModel) -> Seq<char> {
    "meeting_room_appointment_details{room_alias=\""@ + escape_label(d.room_alias)
        + "\",subject=\""@ + escape_label(d.subject) + "\",organizer=\""@ + escape_label(
        d.organizer,
    ) + "\",private=\""@ + bool_label(d.private) + "\",start=\""@ + int_dec(d.start)
        + "\",end=\""@ + int_dec(d.end) + "\"} 1\n"@
}

/// The exposition lines of a whole detail family, in order.
pub open spec fn detail_lines(s: Seq<DetailSampleModel>) -> Seq<char>
    decreases s.len(),
{
    if s.len() == 0 {
        Seq::empty()
    } else {
        detail_lines(s.drop_last()) + detail_line(s.last())
    }
}

/// The full exposition body of a registry: the occupancy family, then the
/// appointment-detail family.
pub open spec fn render_spec(r: RegistryModel) -> Seq<char> {
    occ_lines(r.occupancy) + detail_lines(r.details)
}

/// Appends the exposition line of one occupancy sample.
fn append_occ_line(out: &mut String, e: &OccupancySample)
    ensures
        final(out)@ == old(out)@ + occ_line(e@),
{
    out.append("meeting_room_occupied{room_alias=\"");
    append_escaped(out, e.room_alias.as_str());
    out.append("\",room_name=\"");
    append_escaped(out, e.room_name.as_str());
    out.append("\"} ");
    let digits = u64_dec(e.value);
    out.append(digits.as_str());
    out.append("\n");
    proof {
        assert(out@ =~= old(out)@ + occ_line(e@));
    }
}

/// Appends the exposition line of one appointment-detail sample.
#[verifier::rlimit(60)]
fn append_detail_line(out: &mut String, d: &DetailSample)
    ensures
        final(out)@ == old(out)@ + detail_line(d@),
{
    out.append("meeting_room_appointment_details{room_alias=\"");
    append_escaped(out, d.room_alias.as_str());
    out.append("\",subject=\"");
    append_escaped(out, d.subject.as_str());
    out.append("\",organizer=\"");
    append_escaped(out, d.organizer.as_str());
    out.append("\",private=\"");
    if d.private {
        out.append("true");
    } else {
        out.append("false");
    }
    out.append("\",start=\"");
    let start_digits = i64_dec(d.start);
    out.append(start_digits.as_str());
    out.append("\",end=\"");
    let end_digits = i64_dec(d.end);
    out.append(end_digits.as_str());
    out.append("\"} 1\n");
    proof {
        assert(out@ =~= old(out)@ + detail_line(d@));
    }
}

/// Serializes the registry to the exposition text format.
#[verifier::loop_isolation(false)]
pub fn render(reg: &Registry) -> (s: String)
    ensures
        s@ == render_spec(reg@),
{
    let mut out = String::new();
    let n = reg.occupancy.len();
    let mut i: usize = 0;
    while i < n
        invariant
            i <= n,
            out@ == occ_lines(reg@.occupancy.take(i as int)),
        decreases n - i,
    {
        let e = &reg.occupancy[i];
        proof {
            assert(e@ == reg@.occupancy[i as int]);
        }
        append_occ_line(&mut out, e);
        proof {
            let t = reg@.occupancy.take(i + 1);
            assert(t.drop_last() =~= reg@.occupancy.take(i as int));
            assert(t.last() == e@);
        }
        i += 1;
    }
    proof {
        assert(reg@.occupancy.take(n as int) =~= reg@.occupancy);
    }
    let m = reg.details.len();
    let mut j: usize = 0;
    while j < m
        invariant
            j <= m,
            out@ == occ_lines(reg@.occupancy) + detail_lines(reg@.details.take(j as int)),
        decreases m - j,
    {
        let d = &reg.details[j];
        proof {
            assert(d@ == reg@.details[j as int]);
        }
        append_detail_line(&mut out, d);
        proof {
            let t = reg@.details.take(j + 1);
            assert(t.drop_last() =~= reg@.details.take(j as int));
            assert(t.last() == d@);
            assert(occ_lines(reg@.occupancy) + detail_lines(reg@.details.take(j as int))
                + detail_line(d@) =~= occ_lines(reg@.occupancy) + detail_lines(
                reg@.details.take(j + 1),
            ));
        }
        j += 1;
    }
    proof {
        assert(reg@.details.take(m as int) =~= reg@.details);
        assert(out@ == render_spec(reg@));
    }
    out
}

} // verus!
