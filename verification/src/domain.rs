//! Domain records returned by the upstream room-booking service.
//!
//! A scrape snapshot is a `Vec<Room>`: the full sequence of rooms returned by
//! one upstream call. Records are immutable once fetched; an appointment has
//! no identity beyond the tuple of its fields.

use vstd::prelude::*;

verus! {

/// One appointment in a room's booking list.
pub struct Appointment {
    pub subject: String,
    pub organizer: String,
    /// Start time, epoch seconds.
    pub start: i64,
    /// End time, epoch seconds.
    pub end: i64,
    pub private: bool,
}

/// Mathematical model of an [`Appointment`].
pub struct AppointmentModel {
    pub subject: Seq<char>,
    pub organizer: Seq<char>,
    pub start: int,
    pub end: int,
    pub private: bool,
}

impl View for Appointment {
    type V = AppointmentModel;

    open spec fn view(&self) -> AppointmentModel {
        AppointmentModel {
            subject: self.subject@,
            organizer: self.organizer@,
            start: self.start as int,
            end: self.end as int,
            private: self.private,
        }
    }
}

impl DeepView for Appointment {
    type V = AppointmentModel;

    open spec fn deep_view(&self) -> AppointmentModel {
        self.view()
    }
}

/// One meeting room as reported by the upstream service, with its current
/// busy flag and its ordered list of appointments.
pub struct Room {
    pub room_list: String,
    pub name: String,
    /// Stable identifier; the primary label of every metric about this room.
    pub room_alias: String,
    pub email: String,
    pub busy: bool,
    pub appointments: Vec<Appointment>,
}

/// Mathematical model of a [`Room`].
pub struct RoomModel {
    pub room_list: Seq<char>,
    pub name: Seq<char>,
    pub room_alias: Seq<char>,
    pub email: Seq<char>,
    pub busy: bool,
    pub appointments: Seq<AppointmentModel>,
}

impl View for Room {
    type V = RoomModel;

    open spec fn view(&self) -> RoomModel {
        RoomModel {
            room_list: self.room_list@,
            name: self.name@,
            room_alias: self.room_alias@,
            email: self.email@,
            busy: self.busy,
            appointments: self.appointments.deep_view(),
        }
    }
}

impl DeepView for Room {
    type V = RoomModel;

    open spec fn deep_view(&self) -> RoomModel {
        self.view()
    }
}

} // verus!
