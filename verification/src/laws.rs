//! Laws of the projection: what the registry's two families hold after any
//! successful scrape, stated over the projection spec functions that
//! [`crate::project::update_metrics`] is proved to implement.

use vstd::prelude::*;

use crate::domain::RoomModel;
use crate::project::{
    insert_room_details, lemma_projection_wf, occ_value, project_details, project_occ,
};
use crate::registry::{
    detail_of, details_wf, occ_has_key, occ_set, occ_wf, DetailSampleModel, OccupancySampleModel,
};

verus! {

/// `d` is the label tuple of some appointment of some room in the snapshot.
pub open spec fn snapshot_has_detail(rooms: Seq<RoomModel>, d: DetailSampleModel) -> bool {
    exists|i: int, j: int|
        0 <= i < rooms.len() && 0 <= j < rooms[i].appointments.len() && d == detail_of(
            rooms[i].room_alias,
            rooms[i].appointments[j],
        )
}

/// Some room in the snapshot carries the occupancy key (`alias`, `name`).
pub open spec fn snapshot_has_room_key(
    rooms: Seq<RoomModel>,
    alias: Seq<char>,
    name: Seq<char>,
) -> bool {
    exists|i: int|
        0 <= i < rooms.len() && rooms[i].room_alias == alias && rooms[i].name == name
}

/// The busy flag of the last room in the snapshot that carries the key
/// (`alias`, `name`).
pub open spec fn last_busy(rooms: Seq<RoomModel>, alias: Seq<char>, name: Seq<char>) -> bool
    decreases rooms.len(),
{
    if rooms.len() == 0 {
        false
    } else if rooms.last().room_alias == alias && rooms.last().name == name {
        rooms.last().busy
    } else {
        last_busy(rooms.drop_last(), alias, name)
    }
}

proof fn lemma_push_contains<T>(s: Seq<T>, x: T, y: T)
    ensures
        s.push(x).contains(y) <==> (s.contains(y) || y == x),
{
    let m = s.push(x);
    if m.contains(y) {
        let k = choose|k: int| 0 <= k < m.len() && m[k] == y;
        if k < s.len() {
            assert(s[k] == y);
        } else {
            assert(y == x);
        }
    }
    if s.contains(y) {
        let k = choose|k: int| 0 <= k < s.len() && s[k] == y;
        assert(m[k] == y);
    }
    if y == x {
        assert(m[s.len() as int] == y);
    }
}

proof fn lemma_occ_set_membership(
    s: Seq<OccupancySampleModel>,
    alias: Seq<char>,
    name: Seq<char>,
    value: int,
)
    requires
        occ_wf(s),
    ensures
        forall|a: Seq<char>, n: Seq<char>|
            #[trigger] occ_has_key(occ_set(s, alias, name, value), a, n) <==> (occ_has_key(
                s,
                a,
                n,
            ) || (a == alias && n == name)),
        forall|e: OccupancySampleModel|
            #[trigger] occ_set(s, alias, name, value).contains(e) <==> ((s.contains(e) && !(
            e.room_alias == alias && e.room_name == name)) || e == (OccupancySampleModel {
                room_alias: alias,
                room_name: name,
                value,
            })),
{
    let m = occ_set(s, alias, name, value);
    let fresh = OccupancySampleModel { room_alias: alias, room_name: name, value };
    if occ_has_key(s, alias, name) {
        assert(m.len() == s.len());
        assert forall|k: int| 0 <= k < s.len() implies m[k].room_alias == s[k].room_alias
            && m[k].room_name == s[k].room_name by {}
        assert forall|a: Seq<char>, n: Seq<char>| #[trigger] occ_has_key(m, a, n) implies (
        occ_has_key(s, a, n) || (a == alias && n == name)) by {
            let k = choose|k: int|
                0 <= k < m.len() && m[k].room_alias == a && m[k].room_name == n;
            assert(s[k].room_alias == a && s[k].room_name == n);
        }
        assert forall|a: Seq<char>, n: Seq<char>|
            (occ_has_key(s, a, n) || (a == alias && n == name)) implies #[trigger] occ_has_key(
            m,
            a,
            n,
        ) by {
            if occ_has_key(s, a, n) {
                let k = choose|k: int|
                    0 <= k < s.len() && s[k].room_alias == a && s[k].room_name == n;
                assert(m[k].room_alias == a && m[k].room_name == n);
            } else {
                let k = choose|k: int|
                    0 <= k < s.len() && s[k].room_alias == alias && s[k].room_name == name;
                assert(m[k].room_alias == a && m[k].room_name == n);
            }
        }
        assert forall|e: OccupancySampleModel| #[trigger] m.contains(e) implies ((s.contains(e)
            && !(e.room_alias == alias && e.room_name == name)) || e == fresh) by {
            let k = choose|k: int| 0 <= k < m.len() && m[k] == e;
            if s[k].room_alias == alias && s[k].room_name == name {
                assert(m[k] == fresh);
            } else {
                assert(m[k] == s[k]);
                assert(s.contains(e));
            }
        }
        assert forall|e: OccupancySampleModel|
            ((s.contains(e) && !(e.room_alias == alias && e.room_name == name)) || e
                == fresh) implies #[trigger] m.contains(e) by {
            if e == fresh {
                let k = choose|k: int|
                    0 <= k < s.len() && s[k].room_alias == alias && s[k].room_name == name;
                assert(m[k] == fresh);
                assert(m.contains(e));
            } else {
                let k = choose|k: int| 0 <= k < s.len() && s[k] == e;
                assert(m[k] == s[k]);
                assert(m.contains(e));
            }
        }
    } else {
        assert(m == s.push(fresh));
        assert forall|a: Seq<char>, n: Seq<char>| #[trigger] occ_has_key(m, a, n) implies (
        occ_has_key(s, a, n) || (a == alias && n == name)) by {
            let k = choose|k: int|
                0 <= k < m.len() && m[k].room_alias == a && m[k].room_name == n;
            if k < s.len() {
                assert(s[k].room_alias == a && s[k].room_name == n);
            } else {
                assert(m[k] == fresh);
            }
        }
        assert forall|a: Seq<char>, n: Seq<char>|
            (occ_has_key(s, a, n) || (a == alias && n == name)) implies #[trigger] occ_has_key(
            m,
            a,
            n,
        ) by {
            if occ_has_key(s, a, n) {
                let k = choose|k: int|
                    0 <= k < s.len() && s[k].room_alias == a && s[k].room_name == n;
                assert(m[k].room_alias == a && m[k].room_name == n);
            } else {
                assert(m[s.len() as int] == fresh);
            }
        }
        assert forall|e: OccupancySampleModel| #[trigger] m.contains(e) implies ((s.contains(e)
            && !(e.room_alias == alias && e.room_name == name)) || e == fresh) by {
            lemma_push_contains(s, fresh, e);
            if s.contains(e) {
                let k = choose|k: int| 0 <= k < s.len() && s[k] == e;
                assert(!(s[k].room_alias == alias && s[k].room_name == name));
            }
        }
        assert forall|e: OccupancySampleModel|
            ((s.contains(e) && !(e.room_alias == alias && e.room_name == name)) || e
                == fresh) implies #[trigger] m.contains(e) by {
            lemma_push_contains(s, fresh, e);
        }
    }
}

proof fn lemma_insert_room_details_membership(
    s: Seq<DetailSampleModel>,
    alias: Seq<char>,
    appts: Seq<crate::domain::AppointmentModel>,
)
    ensures
        forall|d: DetailSampleModel|
            #[trigger] insert_room_details(s, alias, appts).contains(d) <==> (s.contains(d)
                || exists|j: int| 0 <= j < appts.len() && d == detail_of(alias, appts[j])),
    decreases appts.len(),
{
    if appts.len() == 0 {
        assert forall|d: DetailSampleModel|
            #[trigger] insert_room_details(s, alias, appts).contains(d) implies (s.contains(d)
            || exists|j: int| 0 <= j < appts.len() && d == detail_of(alias, appts[j])) by {}
    } else {
        let prev = insert_room_details(s, alias, appts.drop_last());
        let dl = detail_of(alias, appts.last());
        lemma_insert_room_details_membership(s, alias, appts.drop_last());
        assert forall|d: DetailSampleModel|
            #[trigger] insert_room_details(s, alias, appts).contains(d) implies (s.contains(d)
            || exists|j: int| 0 <= j < appts.len() && d == detail_of(alias, appts[j])) by {
            lemma_push_contains(prev, dl, d);
            if d == dl {
                assert(appts[appts.len() - 1] == appts.last());
                assert(d == detail_of(alias, appts[appts.len() - 1]));
            } else {
                assert(prev.contains(d));
                if !s.contains(d) {
                    let j = choose|j: int|
                        0 <= j < appts.drop_last().len() && d == detail_of(
                            alias,
                            appts.drop_last()[j],
                        );
                    assert(appts.drop_last()[j] == appts[j]);
                    assert(d == detail_of(alias, appts[j]));
                }
            }
        }
        assert forall|d: DetailSampleModel|
            (s.contains(d) || exists|j: int|
                0 <= j < appts.len() && d == detail_of(
                    alias,
                    appts[j],
                )) implies #[trigger] insert_room_details(s, alias, appts).contains(d) by {
            lemma_push_contains(prev, dl, d);
            if s.contains(d) {
                assert(prev.contains(d));
            } else {
                let j = choose|j: int| 0 <= j < appts.len() && d == detail_of(alias, appts[j]);
                if j < appts.len() - 1 {
                    assert(appts.drop_last()[j] == appts[j]);
                    assert(prev.contains(d));
                } else {
                    assert(d == dl);
                }
            }
        }
    }
}

/// Law: after any successful scrape the detail family contains exactly the
/// label tuples of the appointments in the snapshot just fetched — each at
/// most once, and none from any earlier snapshot, since the projection is a
/// function of the snapshot alone.
pub proof fn lemma_details_reflect_snapshot(rooms: Seq<RoomModel>)
    ensures
        forall|d: DetailSampleModel|
            #[trigger] project_details(rooms).contains(d) <==> snapshot_has_detail(rooms, d),
        details_wf(project_details(rooms)),
    decreases rooms.len(),
{
    lemma_projection_wf(rooms);
    if rooms.len() == 0 {
        assert forall|d: DetailSampleModel| #[trigger]
            project_details(rooms).contains(d) implies snapshot_has_detail(rooms, d) by {}
    } else {
        let prev = rooms.drop_last();
        lemma_details_reflect_snapshot(prev);
        lemma_insert_room_details_membership(
            project_details(prev),
            rooms.last().room_alias,
            rooms.last().appointments,
        );
        assert forall|d: DetailSampleModel| #[trigger]
            project_details(rooms).contains(d) implies snapshot_has_detail(rooms, d) by {
            if project_details(prev).contains(d) {
                let (i, j) = choose|i: int, j: int|
                    0 <= i < prev.len() && 0 <= j < prev[i].appointments.len() && d == detail_of(
                        prev[i].room_alias,
                        prev[i].appointments[j],
                    );
                assert(prev[i] == rooms[i]);
                assert(d == detail_of(rooms[i].room_alias, rooms[i].appointments[j]));
            } else {
                let j = choose|j: int|
                    0 <= j < rooms.last().appointments.len() && d == detail_of(
                        rooms.last().room_alias,
                        rooms.last().appointments[j],
                    );
                let i = rooms.len() - 1;
                assert(rooms[i] == rooms.last());
                assert(d == detail_of(rooms[i].room_alias, rooms[i].appointments[j]));
            }
        }
        assert forall|d: DetailSampleModel|
            snapshot_has_detail(rooms, d) implies #[trigger] project_details(rooms).contains(
            d,
        ) by {
            let (i, j) = choose|i: int, j: int|
                0 <= i < rooms.len() && 0 <= j < rooms[i].appointments.len() && d == detail_of(
                    rooms[i].room_alias,
                    rooms[i].appointments[j],
                );
            if i < rooms.len() - 1 {
                assert(prev[i] == rooms[i]);
                assert(snapshot_has_detail(prev, d));
                assert(project_details(prev).contains(d));
            } else {
                assert(rooms[i] == rooms.last());
                assert(d == detail_of(rooms.last().room_alias, rooms.last().appointments[j]));
            }
        }
    }
}

/// Law: after any successful scrape the occupancy family holds exactly one
/// entry per distinct (alias, name) key in the snapshot; its value is 1 if
/// the room reporting that key (the last one, should the key repeat) is
/// busy and 0 if it is free — no other value occurs.
pub proof fn lemma_occupancy_reflects_snapshot(rooms: Seq<RoomModel>)
    ensures
        occ_wf(project_occ(rooms)),
        forall|a: Seq<char>, n: Seq<char>|
            #[trigger] occ_has_key(project_occ(rooms), a, n) <==> snapshot_has_room_key(
                rooms,
                a,
                n,
            ),
        forall|e: OccupancySampleModel|
            #[trigger] project_occ(rooms).contains(e) ==> (snapshot_has_room_key(
                rooms,
                e.room_alias,
                e.room_name,
            ) && e.value == occ_value(last_busy(rooms, e.room_alias, e.room_name))),
    decreases rooms.len(),
{
    lemma_projection_wf(rooms);
    if rooms.len() == 0 {
        assert forall|a: Seq<char>, n: Seq<char>| #[trigger]
            occ_has_key(project_occ(rooms), a, n) implies snapshot_has_room_key(
            rooms,
            a,
            n,
        ) by {}
        assert forall|e: OccupancySampleModel| #[trigger]
            project_occ(rooms).contains(e) implies (snapshot_has_room_key(
            rooms,
            e.room_alias,
            e.room_name,
        ) && e.value == occ_value(last_busy(rooms, e.room_alias, e.room_name))) by {}
    } else {
        let prev = rooms.drop_last();
        let last = rooms.last();
        let pocc = project_occ(prev);
        lemma_occupancy_reflects_snapshot(prev);
        lemma_occ_set_membership(pocc, last.room_alias, last.name, occ_value(last.busy));
        let fresh = OccupancySampleModel {
            room_alias: last.room_alias,
            room_name: last.name,
            value: occ_value(last.busy),
        };
        assert forall|a: Seq<char>, n: Seq<char>| #[trigger]
            occ_has_key(project_occ(rooms), a, n) implies snapshot_has_room_key(rooms, a, n) by {
            if occ_has_key(pocc, a, n) {
                let i = choose|i: int|
                    0 <= i < prev.len() && prev[i].room_alias == a && prev[i].name == n;
                assert(rooms[i] == prev[i]);
            } else {
                let i = rooms.len() - 1;
                assert(rooms[i] == last);
            }
        }
        assert forall|a: Seq<char>, n: Seq<char>|
            snapshot_has_room_key(rooms, a, n) implies #[trigger] occ_has_key(
            project_occ(rooms),
            a,
            n,
        ) by {
            let i = choose|i: int|
                0 <= i < rooms.len() && rooms[i].room_alias == a && rooms[i].name == n;
            if i < rooms.len() - 1 {
                assert(prev[i] == rooms[i]);
                assert(snapshot_has_room_key(prev, a, n));
            } else {
                assert(rooms[i] == last);
            }
        }
        assert forall|e: OccupancySampleModel| #[trigger]
            project_occ(rooms).contains(e) implies (snapshot_has_room_key(
            rooms,
            e.room_alias,
            e.room_name,
        ) && e.value == occ_value(last_busy(rooms, e.room_alias, e.room_name))) by {
            if e == fresh {
                let i = rooms.len() - 1;
                assert(rooms[i] == last);
                assert(last_busy(rooms, e.room_alias, e.room_name) == last.busy);
            } else {
                assert(pocc.contains(e) && !(e.room_alias == last.room_alias && e.room_name
                    == last.name));
                let i = choose|i: int|
                    0 <= i < prev.len() && prev[i].room_alias == e.room_alias && prev[i].name
                        == e.room_name;
                assert(rooms[i] == prev[i]);
                assert(last_busy(rooms, e.room_alias, e.room_name) == last_busy(
                    prev,
                    e.room_alias,
                    e.room_name,
                ));
            }
        }
    }
}

/// Law (documented limitation): two appointments identical in all six
/// labeled fields collapse to exactly one exposed series — the detail
/// family holds their shared label tuple exactly once.
pub proof fn lemma_identical_appointments_collapse(
    rooms: Seq<RoomModel>,
    i1: int,
    j1: int,
    i2: int,
    j2: int,
)
    requires
        0 <= i1 < rooms.len(),
        0 <= j1 < rooms[i1].appointments.len(),
        0 <= i2 < rooms.len(),
        0 <= j2 < rooms[i2].appointments.len(),
        detail_of(rooms[i1].room_alias, rooms[i1].appointments[j1]) == detail_of(
            rooms[i2].room_alias,
            rooms[i2].appointments[j2],
        ),
    ensures
        exists|k: int|
            {
                &&& 0 <= k < project_details(rooms).len()
                &&& project_details(rooms)[k] == detail_of(
                    rooms[i1].room_alias,
                    rooms[i1].appointments[j1],
                )
                &&& forall|k2: int|
                    0 <= k2 < project_details(rooms).len() && project_details(rooms)[k2]
                        == detail_of(rooms[i1].room_alias, rooms[i1].appointments[j1]) ==> k2
                        == k
            },
{
    let d = detail_of(rooms[i1].room_alias, rooms[i1].appointments[j1]);
    let pd = project_details(rooms);
    lemma_details_reflect_snapshot(rooms);
    assert(snapshot_has_detail(rooms, d));
    assert(pd.contains(d));
    let k = choose|k: int| 0 <= k < pd.len() && pd[k] == d;
    assert forall|k2: int| 0 <= k2 < pd.len() && pd[k2] == d implies k2 == k by {
        if k2 != k {
            if k2 < k {
                assert(pd[k2] != pd[k]);
            } else {
                assert(pd[k] != pd[k2]);
            }
        }
    }
    assert(0 <= k < pd.len() && pd[k] == d && forall|k2: int|
        0 <= k2 < pd.len() && pd[k2] == d ==> k2 == k);
}

} // verus!
