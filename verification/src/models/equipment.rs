//! Equipment and its bookings.

use vstd::prelude::*;
use crate::ids::fresh_id;

verus! {

/// A piece of equipment that can be booked.
#[derive(Debug)]
pub struct Equipment {
    pub id: String,
    pub name: String,
    pub category: String,
    pub location: String,
    pub status: String,
    pub serial_number: Option<String>,
    pub purchase_date: Option<String>,
    pub last_maintenance: Option<String>,
    pub notes: Option<String>,
    pub created_at: Option<String>,
    pub updated_at: Option<String>,
}

/// A piece of equipment as clients see it, with its bookings where asked for.
#[derive(Debug)]
pub struct EquipmentResponse {
    pub id: String,
    pub name: String,
    pub category: String,
    pub location: String,
    pub status: String,
    pub serial_number: Option<String>,
    pub purchase_date: Option<String>,
    pub last_maintenance: Option<String>,
    pub notes: Option<String>,
    pub current_bookings: Option<Vec<BookingResponse>>,
    pub upcoming_bookings: Option<Vec<BookingResponse>>,
    pub created_at: Option<String>,
    pub updated_at: Option<String>,
}

/// A booking of a piece of equipment by a user for a span of time.
#[derive(Debug)]
pub struct Booking {
    pub id: String,
    pub equipment_id: String,
    pub user_id: String,
    pub department: String,
    pub start_date: String,
    pub end_date: String,
    pub purpose: String,
    pub status: String,
    pub created_at: Option<String>,
    pub updated_at: Option<String>,
    pub cancelled_at: Option<String>,
}

/// A booking as clients see it.
#[derive(Debug)]
pub struct BookingResponse {
    pub id: String,
    pub equipment_id: Option<String>,
    pub equipment_name: Option<String>,
    pub user_id: Option<String>,
    pub booked_by: Option<String>,
    pub department: String,
    pub start_date: String,
    pub end_date: String,
    pub purpose: String,
    pub status: String,
    pub days_until_start: Option<i64>,
    pub created_at: Option<String>,
    pub cancelled_at: Option<String>,
}

/// A request to book a piece of equipment.
#[derive(Debug)]
pub struct CreateBookingRequest {
    pub start_date: String,
    pub end_date: String,
    pub purpose: String,
}

/// A request to say whether a piece of equipment is free in a span of time.
#[derive(Debug)]
pub struct CheckAvailabilityRequest {
    pub start_date: String,
    pub end_date: String,
}

/// Whether the equipment is free, and the bookings in the way where it is not.
#[derive(Debug)]
pub struct AvailabilityResponse {
    pub is_available: bool,
    pub conflicts: Vec<BookingConflict>,
}

/// A booking that stands in the way of another.
#[derive(Debug)]
pub struct BookingConflict {
    pub booking_id: String,
    pub booked_by: String,
    pub department: String,
    pub start_date: String,
    pub end_date: String,
}

/// What a listing of equipment is narrowed to.
#[derive(Debug)]
pub struct GetEquipmentQuery {
    pub status: Option<String>,
    pub category: Option<String>,
    pub location: Option<String>,
    pub search: Option<String>,
}

/// What a listing of bookings is narrowed to.
#[derive(Debug)]
pub struct GetBookingsQuery {
    pub status: Option<String>,
    pub upcoming: Option<bool>,
}

/// A request to register a piece of equipment.
#[derive(Debug)]
pub struct CreateEquipmentRequest {
    pub name: String,
    pub category: String,
    pub location: String,
    pub serial_number: Option<String>,
    pub notes: Option<String>,
}

impl Equipment {
    /// A piece of equipment that is available, under a new random identifier.
    pub fn new(name: String, category: String, location: String, serial_number: Option<String>) -> (r: Equipment)
        ensures
            r.id@.len() == 36,
            r.name == name,
            r.category == category,
            r.location == location,
            r.status@ == "available"@,
            r.serial_number == serial_number,
            r.purchase_date.is_none(),
            r.last_maintenance.is_none(),
            r.notes.is_none(),
            r.created_at.is_none(),
            r.updated_at.is_none(),
    {
        Equipment {
            id: fresh_id(),
            name,
            category,
            location,
            status: "available".to_owned(),
            serial_number,
            purchase_date: None,
            last_maintenance: None,
            notes: None,
            created_at: None,
            updated_at: None,
        }
    }
}

impl Booking {
    /// An active booking under a new random identifier.
    pub fn new(equipment_id: String, user_id: String, department: String, start_date: String, end_date: String, purpose: String) -> (r: Booking)
        ensures
            r.id@.len() == 36,
            r.equipment_id == equipment_id,
            r.user_id == user_id,
            r.department == department,
            r.start_date == start_date,
            r.end_date == end_date,
            r.purpose == purpose,
            r.status@ == "active"@,
            r.created_at.is_none(),
            r.updated_at.is_none(),
            r.cancelled_at.is_none(),
    {
        Booking {
            id: fresh_id(),
            equipment_id,
            user_id,
            department,
            start_date,
            end_date,
            purpose,
            status: "active".to_owned(),
            created_at: None,
            updated_at: None,
            cancelled_at: None,
        }
    }
}

} // verus!
