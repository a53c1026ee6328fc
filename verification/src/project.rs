//! The metric projection engine.
//!
//! Given one scrape snapshot (the full sequence of rooms returned by one
//! upstream call), [`update_metrics`] makes the registry's observable state
//! exactly reflect that snapshot: it clears both gauge families and then, for
//! each room, sets the room's occupancy gauge and one detail gauge per
//! appointment. The registry after a successful update is a function of the
//! snapshot alone, so nothing from any earlier scrape survives.

use vstd::prelude::*;

use crate::domain::{AppointmentModel, Room, RoomModel};
use crate::registry::{
    detail_insert, detail_insert_sample, detail_of, details_wf, occ_has_key, occ_set,
    occ_set_value, occ_wf, DetailSample, DetailSampleModel, OccupancySampleModel, Registry,
};

verus! {

/// The occupancy gauge value of a room: 1 when busy, 0 when free.
pub open spec fn occ_value(busy: bool) -> int {
    if busy {
        1
    } else {
        0
    }
}

/// The occupancy family that a snapshot projects to, empty at the start and
/// one gauge set per room in snapshot order.
pub open spec fn project_occ(rooms: Seq<RoomModel>) -> Seq<OccupancySampleModel>
    decreases rooms.len(),
{
    if rooms.len() == 0 {
        Seq::empty()
    } else {
        occ_set(
            project_occ(rooms.drop_last()),
            rooms.last().room_alias,
            rooms.last().name,
            occ_value(rooms.last().busy),
        )
    }
}

/// One room's appointments folded into the detail family, in order.
pub open spec fn insert_room_details(
    s: Seq<DetailSampleModel>,
    alias: Seq<char>,
    appts: Seq<AppointmentModel>,
) -> Seq<DetailSampleModel>
    decreases appts.len(),
{
    if appts.len() == 0 {
        s
    } else {
        detail_insert(
            insert_room_details(s, alias, appts.drop_last()),
            detail_of(alias, appts.last()),
        )
    }
}

/// The detail family that a snapshot projects to, empty at the start and one
/// gauge set per appointment in snapshot order.
pub open spec fn project_details(rooms: Seq<RoomModel>) -> Seq<DetailSampleModel>
    decreases rooms.len(),
{
    if rooms.len() == 0 {
        Seq::empty()
    } else {
        insert_room_details(
            project_details(rooms.drop_last()),
            rooms.last().room_alias,
            rooms.last().appointments,
        )
    }
}

/// Setting one occupancy gauge keeps the family well-formed, as long as the
/// value written is 0 or 1.
pub proof fn lemma_occ_set_wf(s: Seq<OccupancySampleModel>, alias: Seq<char>, name: Seq<char>, value: int)
    requires
        occ_wf(s),
        value == 0 || value == 1,
    ensures
        occ_wf(occ_set(s, alias, name, value)),
{
    let m = occ_set(s, alias, name, value);
    if occ_has_key(s, alias, name) {
        assert forall|i: int, j: int|
            0 <= i < j < m.len() implies !(m[i].room_alias == m[j].room_alias && m[i].room_name
            == m[j].room_name) by {
            assert(m[i].room_alias == s[i].room_alias && m[i].room_name == s[i].room_name);
            assert(m[j].room_alias == s[j].room_alias && m[j].room_name == s[j].room_name);
        }
    }
}

/// Setting one detail gauge keeps the family well-formed.
pub proof fn lemma_detail_insert_wf(s: Seq<DetailSampleModel>, d: DetailSampleModel)
    requires
        details_wf(s),
    ensures
        details_wf(detail_insert(s, d)),
{
    if !s.contains(d) {
        let m = s.push(d);
        assert forall|i: int, j: int| 0 <= i < j < m.len() implies m[i] != m[j] by {
            if j == s.len() {
                assert(s[i] == m[i]);
                assert(!s.contains(d));
                assert(s[i] != d);
            }
        }
    }
}

/// Folding a room's appointments keeps the detail family well-formed.
pub proof fn lemma_insert_room_details_wf(
    s: Seq<DetailSampleModel>,
    alias: Seq<char>,
    appts: Seq<AppointmentModel>,
)
    requires
        details_wf(s),
    ensures
        details_wf(insert_room_details(s, alias, appts)),
    decreases appts.len(),
{
    if appts.len() > 0 {
        lemma_insert_room_details_wf(s, alias, appts.drop_last());
        lemma_detail_insert_wf(
            insert_room_details(s, alias, appts.drop_last()),
            detail_of(alias, appts.last()),
        );
    }
}

/// Both projected families are well-formed, whatever the snapshot.
pub proof fn lemma_projection_wf(rooms: Seq<RoomModel>)
    ensures
        occ_wf(project_occ(rooms)),
        details_wf(project_details(rooms)),
    decreases rooms.len(),
{
    if rooms.len() > 0 {
        lemma_projection_wf(rooms.drop_last());
        lemma_occ_set_wf(
            project_occ(rooms.drop_last()),
            rooms.last().room_alias,
            rooms.last().name,
            occ_value(rooms.last().busy),
        );
        lemma_insert_room_details_wf(
            project_details(rooms.drop_last()),
            rooms.last().room_alias,
            rooms.last().appointments,
        );
    }
}

/// Updates the registry so that it exactly reflects the snapshot `rooms`:
/// both families are cleared and repopulated, so the state afterwards is a
/// function of the snapshot alone.
#[verifier::loop_isolation(false)]
pub fn update_metrics(reg: &mut Registry, rooms: &Vec<Room>)
    ensures
        final(reg)@.occupancy == project_occ(rooms.deep_view()),
        final(reg)@.details == project_details(rooms.deep_view()),
        final(reg)@.wf(),
{
    let ghost snap = rooms.deep_view();
    reg.occupancy.clear();
    reg.details.clear();
    proof {
        assert(reg@.occupancy =~= project_occ(snap.take(0)));
        assert(reg@.details =~= project_details(snap.take(0)));
    }
    let n = rooms.len();
    let mut i: usize = 0;
    while i < n
        invariant
            i <= n,
            reg@.occupancy == project_occ(snap.take(i as int)),
            reg@.details == project_details(snap.take(i as int)),
            occ_wf(reg@.occupancy),
            details_wf(reg@.details),
        decreases n - i,
    {
        let room = &rooms[i];
        proof {
            assert(room@ == snap[i as int]);
        }
        let value: u64 = if room.busy {
            1
        } else {
            0
        };
        occ_set_value(&mut reg.occupancy, &room.room_alias, &room.name, value);
        proof {
            let t = snap.take(i + 1);
            assert(t.drop_last() =~= snap.take(i as int));
            assert(t.last() == snap[i as int]);
            assert(reg@.occupancy == project_occ(snap.take(i + 1)));
            lemma_occ_set_wf(
                project_occ(snap.take(i as int)),
                room@.room_alias,
                room@.name,
                occ_value(room@.busy),
            );
        }
        let m = room.appointments.len();
        let mut j: usize = 0;
        while j < m
            invariant
                j <= m,
                reg@.occupancy == project_occ(snap.take(i + 1)),
                reg@.details == insert_room_details(
                    project_details(snap.take(i as int)),
                    room@.room_alias,
                    room@.appointments.take(j as int),
                ),
                details_wf(reg@.details),
            decreases m - j,
        {
            let a = &room.appointments[j];
            proof {
                assert(a@ == room@.appointments[j as int]);
            }
            let d = DetailSample {
                room_alias: room.room_alias.clone(),
                subject: a.subject.clone(),
                organizer: a.organizer.clone(),
                private: a.private,
                start: a.start,
                end: a.end,
            };
            proof {
                assert(d@ == detail_of(room@.room_alias, a@));
            }
            detail_insert_sample(&mut reg.details, d);
            proof {
                let ta = room@.appointments.take(j + 1);
                assert(ta.drop_last() =~= room@.appointments.take(j as int));
                assert(ta.last() == room@.appointments[j as int]);
                assert(reg@.details == insert_room_details(
                    project_details(snap.take(i as int)),
                    room@.room_alias,
                    room@.appointments.take(j + 1),
                ));
                lemma_detail_insert_wf(
                    insert_room_details(
                        project_details(snap.take(i as int)),
                        room@.room_alias,
                        room@.appointments.take(j as int),
                    ),
                    d@,
                );
            }
            j += 1;
        }
        proof {
            assert(room@.appointments.take(m as int) =~= room@.appointments);
            let t = snap.take(i + 1);
            assert(t.drop_last() =~= snap.take(i as int));
            assert(t.last() == snap[i as int]);
            assert(reg@.details == project_details(snap.take(i + 1)));
        }
        i += 1;
    }
    proof {
        assert(snap.take(n as int) =~= snap);
    }
}

} // verus!
