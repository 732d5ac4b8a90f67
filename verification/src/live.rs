//! Plain data about a monitored live room, as the recording pipeline
//! receives it from its surroundings.
use vstd::prelude::*;

verus! {

/// Container format of the stream being recorded.
#[derive(Debug, Clone, Copy, PartialEq, Eq, Structural)]
pub enum StreamFormat {
    Flv,
    Fmp4,
}

/// How the stream is recorded.
#[derive(Debug, Clone, Copy, PartialEq, Eq, Structural)]
pub enum RecordingMode {
    Standard,
    Raw,
}

/// Whether the room is live.
#[derive(Debug, Clone, Copy, PartialEq, Eq, Structural)]
pub enum LiveStatus {
    Live,
    Offline,
    Unknown,
}

/// Requested stream quality.
#[derive(Debug, Clone, Copy, PartialEq, Eq, Structural)]
pub enum QualityNumber {
    P20000,
    P10000,
    P401,
    P400,
    P250,
    P150,
    P80,
}

/// The live status a status code stands for: 1 is live, 2 offline, and
/// anything else unknown.
pub open spec fn live_status_of(value: int) -> LiveStatus {
    if value == 1 {
        LiveStatus::Live
    } else if value == 2 {
        LiveStatus::Offline
    } else {
        LiveStatus::Unknown
    }
}

impl LiveStatus {
    /// The status a status code stands for.
    pub fn from_code(value: i32) -> (r: LiveStatus)
        ensures
            r == live_status_of(value as int),
    {
        if value == 1 {
            LiveStatus::Live
        } else if value == 2 {
            LiveStatus::Offline
        } else {
            LiveStatus::Unknown
        }
    }
}

/// The quality a quality code stands for; an unknown code falls back to
/// the default quality.
pub open spec fn quality_of(value: int) -> QualityNumber {
    if value == 20000 {
        QualityNumber::P20000
    } else if value == 10000 {
        QualityNumber::P10000
    } else if value == 401 {
        QualityNumber::P401
    } else if value == 400 {
        QualityNumber::P400
    } else if value == 250 {
        QualityNumber::P250
    } else if value == 150 {
        QualityNumber::P150
    } else if value == 80 {
        QualityNumber::P80
    } else {
        QualityNumber::P250
    }
}

/// The code of a quality.
pub open spec fn quality_code(q: QualityNumber) -> int {
    match q {
        QualityNumber::P20000 => 20000,
        QualityNumber::P10000 => 10000,
        QualityNumber::P401 => 401,
        QualityNumber::P400 => 400,
        QualityNumber::P250 => 250,
        QualityNumber::P150 => 150,
        QualityNumber::P80 => 80,
    }
}

impl QualityNumber {
    /// The quality a quality code stands for.
    pub fn from_code(value: i32) -> (r: QualityNumber)
        ensures
            r == quality_of(value as int),
    {
        if value == 20000 {
            QualityNumber::P20000
        } else if value == 10000 {
            QualityNumber::P10000
        } else if value == 401 {
            QualityNumber::P401
        } else if value == 400 {
            QualityNumber::P400
        } else if value == 250 {
            QualityNumber::P250
        } else if value == 150 {
            QualityNumber::P150
        } else if value == 80 {
            QualityNumber::P80
        } else {
            QualityNumber::P250
        }
    }

    /// The code of this quality.
    pub fn code(self) -> (r: i32)
        ensures
            r == quality_code(self),
    {
        match self {
            QualityNumber::P20000 => 20000,
            QualityNumber::P10000 => 10000,
            QualityNumber::P401 => 401,
            QualityNumber::P400 => 400,
            QualityNumber::P250 => 250,
            QualityNumber::P150 => 150,
            QualityNumber::P80 => 80,
        }
    }
}

/// What the room metadata reports about a monitored live room.
pub struct RoomInfo {
    pub uid: i32,
    pub room_id: i32,
    pub short_room_id: i32,
    pub area_id: i32,
    pub area_name: String,
    pub parent_area_id: i32,
    pub parent_area_name: String,
    pub live_status: LiveStatus,
    pub live_start_time: i64,
    pub online: i32,
    pub title: String,
    pub cover: String,
    pub tags: String,
    pub description: String,
}

impl RoomInfo {
    /// Room metadata from its fields.
    pub fn new(
        uid: i32,
        room_id: i32,
        short_room_id: i32,
        area_id: i32,
        area_name: String,
        parent_area_id: i32,
        parent_area_name: String,
        live_status: LiveStatus,
        live_start_time: i64,
        online: i32,
        title: String,
        cover: String,
        tags: String,
        description: String,
    ) -> (r: Self)
        ensures
            r.uid == uid,
            r.room_id == room_id,
            r.short_room_id == short_room_id,
            r.area_id == area_id,
            r.area_name@ == area_name@,
            r.parent_area_id == parent_area_id,
            r.parent_area_name@ == parent_area_name@,
            r.live_status == live_status,
            r.live_start_time == live_start_time,
            r.online == online,
            r.title@ == title@,
            r.cover@ == cover@,
            r.tags@ == tags@,
            r.description@ == description@,
    {
        Self {
            uid,
            room_id,
            short_room_id,
            area_id,
            area_name,
            parent_area_id,
            parent_area_name,
            live_status,
            live_start_time,
            online,
            title,
            cover,
            tags,
            description,
        }
    }

    /// Whether the room is currently live.
    pub fn is_living(&self) -> (r: bool)
        ensures
            r == (self.live_status == LiveStatus::Live),
    {
        self.live_status == LiveStatus::Live
    }
}

} // verus!
