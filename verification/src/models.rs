use vstd::prelude::*;

verus! {

/// A number that the booking service sends either as a JSON number or as a
/// JSON string holding the number.
#[derive(Debug, Clone)]
pub enum FlexNum {
    Num(i64),
    Str(String),
}

impl Default for FlexNum {
    fn default() -> (r: Self)
        ensures
            r == FlexNum::Num(0),
    {
        FlexNum::Num(0)
    }
}

/// Login request of the web front end.
pub struct LoginReq {
    pub username: String,
    pub password: String,
}

/// A `date` query parameter.
pub struct DateQuery {
    pub date: String,
}

/// The query of the free-seat listing.
pub struct SeatQuery {
    pub date: String,
    pub segment: String,
    pub start: String,
    pub end: String,
}

/// A reservation request of the web front end.
pub struct ReserveReq {
    pub seat_id: String,
    pub segment_id: String,
}

/// A request to start a background booking task.
pub struct CreateTaskReq {
    pub username: String,
    pub password: String,
    pub target_date: String,
    pub area_id: String,
    pub area_name: String,
    pub start_time: String,
    pub interval_sec: u64,
}

/// A running background booking task as the front end lists it.
#[derive(Clone)]
pub struct TaskInfo {
    pub id: String,
    pub target_date: String,
    pub start_time: String,
    pub area_id: String,
    pub area_name: String,
    pub interval_sec: u64,
}

/// The logged-in user.
pub struct UserInfo {
    pub uid: String,
    pub name: String,
}

/// A premise, storey or area of the library.
pub struct LocationNode {
    pub id: String,
    pub name: String,
    pub enname: String,
    pub name_merge: String,
    pub parent_id: FlexNum,
    pub top_id: FlexNum,
    pub total_num: Option<FlexNum>,
    pub free_num: Option<FlexNum>,
    pub sort: Option<FlexNum>,
}

/// The overview of bookable dates and places.
pub struct QuickSelectData {
    pub date: Vec<String>,
    pub premises: Vec<LocationNode>,
    pub storey: Vec<LocationNode>,
    pub area: Vec<LocationNode>,
}

/// A bookable time segment.
pub struct SegmentTime {
    pub id: String,
    pub start: String,
    pub end: String,
}

/// The time segments of one day.
pub struct SegmentDay {
    pub day: String,
    pub times: Vec<SegmentTime>,
}

/// A seat and its status (`1` when it is free).
pub struct SeatInfo {
    pub id: String,
    pub no: String,
    pub name: String,
    pub status: FlexNum,
}

/// A reservation of the user.
pub struct Subscription {
    pub id: String,
    pub area_name: String,
    pub no: String,
    pub begin_time: String,
    pub end_time: String,
    pub status_name: String,
}

/// A request to change the DingTalk robot configuration.
pub struct UpdateDingTalkReq {
    pub webhook: String,
    pub secret: Option<String>,
}

/// The DingTalk robot configuration.
pub struct DingTalkConfig {
    pub webhook: String,
    pub secret: Option<String>,
}

} // verus!
