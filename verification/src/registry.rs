//! The metric registry: process-wide state holding two label-indexed gauge
//! families.
//!
//! The *occupancy* family is keyed by (room alias, room name) and holds 0 or
//! 1; the *appointment-detail* family is keyed by the six-field label tuple
//! of an appointment and holds the constant 1 while the appointment is
//! present. A sample's labels are its whole identity: the well-formedness
//! invariant keeps each key at most once per family.

use vstd::pervasive::VecAdditionalExecFns;
use vstd::prelude::*;

use crate::domain::AppointmentModel;

verus! {

/// One sample of the occupancy family.
pub struct OccupancySample {
    pub room_alias: String,
    pub room_name: String,
    /// Gauge value: 1 when the room is busy, 0 when it is free.
    pub value: u64,
}

/// Mathematical model of an [`OccupancySample`].
pub struct OccupancySampleModel {
    pub room_alias: Seq<char>,
    pub room_name: Seq<char>,
    pub value: int,
}

impl View for OccupancySample {
    type V = OccupancySampleModel;

    open spec fn view(&self) -> OccupancySampleModel {
        OccupancySampleModel {
            room_alias: self.room_alias@,
            room_name: self.room_name@,
            value: self.value as int,
        }
    }
}

impl DeepView for OccupancySample {
    type V = OccupancySampleModel;

    open spec fn deep_view(&self) -> OccupancySampleModel {
        self.view()
    }
}

/// One sample of the appointment-detail family. The six label fields are the
/// sample's whole identity; its gauge value is the constant 1.
pub struct DetailSample {
    pub room_alias: String,
    pub subject: String,
    pub organizer: String,
    pub private: bool,
    pub start: i64,
    pub end: i64,
}

/// Mathematical model of a [`DetailSample`].
pub struct DetailSampleModel {
    pub room_alias: Seq<char>,
    pub subject: Seq<char>,
    pub organizer: Seq<char>,
    pub private: bool,
    pub start: int,
    pub end: int,
}

impl View for DetailSample {
    type V = DetailSampleModel;

    open spec fn view(&self) -> DetailSampleModel {
        DetailSampleModel {
            room_alias: self.room_alias@,
            subject: self.subject@,
            organizer: self.organizer@,
            private: self.private,
            start: self.start as int,
            end: self.end as int,
        }
    }
}

impl DeepView for DetailSample {
    type V = DetailSampleModel;

    open spec fn deep_view(&self) -> DetailSampleModel {
        self.view()
    }
}

/// The detail label tuple of appointment `a` held in the room with alias
/// `alias`.
pub open spec fn detail_of(alias: Seq<char>, a: AppointmentModel) -> DetailSampleModel {
    DetailSampleModel {
        room_alias: alias,
        subject: a.subject,
        organizer: a.organizer,
        private: a.private,
        start: a.start,
        end: a.end,
    }
}

/// The occupancy family holds each (alias, name) key at most once, and only
/// the gauge values 0 and 1.
pub open spec fn occ_wf(s: Seq<OccupancySampleModel>) -> bool {
    &&& forall|i: int, j: int|
        0 <= i < j < s.len() ==> !(s[i].room_alias == s[j].room_alias && s[i].room_name
            == s[j].room_name)
    &&& forall|i: int| 0 <= i < s.len() ==> (s[i].value == 0 || s[i].value == 1)
}

/// The detail family holds each label tuple at most once.
pub open spec fn details_wf(s: Seq<DetailSampleModel>) -> bool {
    forall|i: int, j: int| 0 <= i < j < s.len() ==> s[i] != s[j]
}

/// Some entry of `s` carries the key (`alias`, `name`).
pub open spec fn occ_has_key(
    s: Seq<OccupancySampleModel>,
    alias: Seq<char>,
    name: Seq<char>,
) -> bool {
    exists|i: int| 0 <= i < s.len() && s[i].room_alias == alias && s[i].room_name == name
}

/// Setting a gauge of the occupancy family: an entry with the same key is
/// overwritten in place, a fresh key is appended.
pub open spec fn occ_set(
    s: Seq<OccupancySampleModel>,
    alias: Seq<char>,
    name: Seq<char>,
    value: int,
) -> Seq<OccupancySampleModel> {
    if occ_has_key(s, alias, name) {
        s.map_values(
            |e: OccupancySampleModel|
                if e.room_alias == alias && e.room_name == name {
                    OccupancySampleModel { room_alias: alias, room_name: name, value }
                } else {
                    e
                },
        )
    } else {
        s.push(OccupancySampleModel { room_alias: alias, room_name: name, value })
    }
}

/// Setting a gauge of the detail family to its constant 1: a tuple already
/// present is left alone, a fresh tuple is appended.
pub open spec fn detail_insert(
    s: Seq<DetailSampleModel>,
    d: DetailSampleModel,
) -> Seq<DetailSampleModel> {
    if s.contains(d) {
        s
    } else {
        s.push(d)
    }
}

/// The metric registry. It lives for the life of the process; individual
/// samples are created and destroyed on every scrape.
pub struct Registry {
    pub occupancy: Vec<OccupancySample>,
    pub details: Vec<DetailSample>,
}

/// Mathematical model of a [`Registry`].
pub struct RegistryModel {
    pub occupancy: Seq<OccupancySampleModel>,
    pub details: Seq<DetailSampleModel>,
}

impl RegistryModel {
    /// Well-formedness of the whole registry.
    pub open spec fn wf(self) -> bool {
        occ_wf(self.occupancy) && details_wf(self.details)
    }
}

impl View for Registry {
    type V = RegistryModel;

    open spec fn view(&self) -> RegistryModel {
        RegistryModel { occupancy: self.occupancy.deep_view(), details: self.details.deep_view() }
    }
}

impl Registry {
    /// A fresh registry with both families empty.
    pub fn new() -> (r: Registry)
        ensures
            r@.occupancy == Seq::<OccupancySampleModel>::empty(),
            r@.details == Seq::<DetailSampleModel>::empty(),
            r@.wf(),
    {
        let r = Registry { occupancy: Vec::new(), details: Vec::new() };
        proof {
            assert(r@.occupancy =~= Seq::<OccupancySampleModel>::empty());
            assert(r@.details =~= Seq::<DetailSampleModel>::empty());
        }
        r
    }
}

/// Sets the occupancy gauge keyed by (`alias`, `name`) to `value`.
pub fn occ_set_value(v: &mut Vec<OccupancySample>, alias: &String, name: &String, value: u64)
    requires
        occ_wf(old(v).deep_view()),
    ensures
        final(v).deep_view() == occ_set(old(v).deep_view(), alias@, name@, value as int),
{
    let ghost s0 = v.deep_view();
    let mut i: usize = 0;
    while i < v.len()
        invariant
            occ_wf(s0),
            s0 == old(v).deep_view(),
            v.deep_view() == s0,
            s0.len() == v@.len(),
            i <= v@.len(),
            forall|j: int|
                0 <= j < i ==> !(s0[j].room_alias == alias@ && s0[j].room_name == name@),
        decreases v@.len() - i,
    {
        if v[i].room_alias == *alias && v[i].room_name == *name {
            proof {
                assert(s0[i as int].room_alias == alias@ && s0[i as int].room_name == name@);
                assert(occ_has_key(s0, alias@, name@));
            }
            let fresh = OccupancySample {
                room_alias: alias.clone(),
                room_name: name.clone(),
                value,
            };
            v.set(i, fresh);
            proof {
                let m = occ_set(s0, alias@, name@, value as int);
                assert forall|k: int| 0 <= k < m.len() implies v.deep_view()[k] == m[k] by {
                    if k != i {
                        assert(!(s0[k].room_alias == alias@ && s0[k].room_name == name@));
                    }
                }
                assert(v.deep_view() =~= m);
            }
            return ;
        }
        i += 1;
    }
    proof {
        assert(!occ_has_key(s0, alias@, name@));
    }
    v.push(OccupancySample { room_alias: alias.clone(), room_name: name.clone(), value });
    proof {
        assert(v.deep_view() =~= occ_set(s0, alias@, name@, value as int));
    }
}

/// Returns whether the detail family already holds the tuple `d@`.
pub fn details_contain(v: &Vec<DetailSample>, d: &DetailSample) -> (r: bool)
    ensures
        r == v.deep_view().contains(d@),
{
    let mut i: usize = 0;
    while i < v.len()
        invariant
            i <= v@.len(),
            forall|j: int| 0 <= j < i ==> v.deep_view()[j] != d@,
        decreases v@.len() - i,
    {
        let e = &v[i];
        if e.room_alias == d.room_alias && e.subject == d.subject && e.organizer == d.organizer
            && e.private == d.private && e.start == d.start && e.end == d.end {
            proof {
                assert(v.deep_view()[i as int] == d@);
            }
            return true;
        }
        i += 1;
    }
    proof {
        assert(forall|j: int| 0 <= j < v.deep_view().len() ==> v.deep_view()[j] != d@);
    }
    false
}

/// Sets the detail gauge keyed by `d`'s label tuple (to its constant 1).
pub fn detail_insert_sample(v: &mut Vec<DetailSample>, d: DetailSample)
    ensures
        final(v).deep_view() == detail_insert(old(v).deep_view(), d@),
{
    let present = details_contain(v, &d);
    if !present {
        v.push(d);
        proof {
            assert(v.deep_view() =~= detail_insert(old(v).deep_view(), d@));
        }
    }
}

} // verus!
