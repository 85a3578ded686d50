//! The records the store keeps and hands out, the events it reports and its errors.
use vstd::prelude::*;

verus! {

/// Longest name, in bytes, that an identity may carry.
pub const MAX_NAME_LEN: usize = 256;

/// Longest post content, in bytes.
pub const MAX_CONTENT_LEN: usize = 280;

/// Earliest birth year accepted.
pub const MIN_YEAR: u16 = 1920;

/// Latest birth year accepted.
pub const MAX_YEAR: u16 = 2006;

/// A birth date. Validation is by field range only: the day is not checked
/// against the length of the month, so 31 February is accepted.
#[derive(Clone, Copy, Debug, PartialEq, Eq, Structural)]
pub struct Birthday {
    pub year: u16,
    pub month: u8,
    pub day: u8,
}

/// The field ranges a stored birthday must lie in.
pub open spec fn valid_birthday(b: Birthday) -> bool {
    &&& 1 <= b.month <= 12
    &&& 1 <= b.day <= 31
    &&& MIN_YEAR <= b.year <= MAX_YEAR
}

impl Birthday {
    /// Whether every field lies in its accepted range.
    pub fn is_valid(&self) -> (r: bool)
        ensures
            r == valid_birthday(*self),
    {
        self.month >= 1 && self.month <= 12 && self.day >= 1 && self.day <= 31 && self.year
            >= MIN_YEAR && self.year <= MAX_YEAR
    }
}

/// A post as handed out by the store: its author's current name, its content and
/// the time at which it was created.
#[derive(Clone, Debug, PartialEq, Eq)]
pub struct Tweet {
    pub name: Vec<u8>,
    pub content: Vec<u8>,
    pub timestamp: u64,
}

pub struct TweetView {
    pub name: Seq<u8>,
    pub content: Seq<u8>,
    pub timestamp: u64,
}

impl View for Tweet {
    type V = TweetView;

    open spec fn view(&self) -> TweetView {
        TweetView { name: self.name@, content: self.content@, timestamp: self.timestamp }
    }
}

/// The views of a sequence of (post id, post) pairs.
pub open spec fn tweets_view(s: Seq<(u32, Tweet)>) -> Seq<(u32, TweetView)> {
    s.map_values(|p: (u32, Tweet)| (p.0, p.1@))
}

/// What a successful operation reports to observers.
#[derive(Clone, Debug, PartialEq, Eq)]
pub enum Event {
    NameStored { name: Vec<u8>, who: u64 },
    BirthdayStored { name: Vec<u8>, year: u16, month: u8, day: u8 },
    PasswordHashed { name: Vec<u8> },
    LoginSuccessful { name: Vec<u8>, who: u64 },
    LoginFailed { name: Vec<u8> },
    TweetCreated { name: Vec<u8>, tweet_id: u32, timestamp: u64 },
}

pub enum EventView {
    NameStored { name: Seq<u8>, who: u64 },
    BirthdayStored { name: Seq<u8>, year: u16, month: u8, day: u8 },
    PasswordHashed { name: Seq<u8> },
    LoginSuccessful { name: Seq<u8>, who: u64 },
    LoginFailed { name: Seq<u8> },
    TweetCreated { name: Seq<u8>, tweet_id: u32, timestamp: u64 },
}

impl View for Event {
    type V = EventView;

    open spec fn view(&self) -> EventView {
        match self {
            Event::NameStored { name, who } => EventView::NameStored { name: name@, who: *who },
            Event::BirthdayStored { name, year, month, day } => EventView::BirthdayStored {
                name: name@,
                year: *year,
                month: *month,
                day: *day,
            },
            Event::PasswordHashed { name } => EventView::PasswordHashed { name: name@ },
            Event::LoginSuccessful { name, who } => EventView::LoginSuccessful {
                name: name@,
                who: *who,
            },
            Event::LoginFailed { name } => EventView::LoginFailed { name: name@ },
            Event::TweetCreated { name, tweet_id, timestamp } => EventView::TweetCreated {
                name: name@,
                tweet_id: *tweet_id,
                timestamp: *timestamp,
            },
        }
    }
}

/// The views of a sequence of events, in order.
pub open spec fn events_view(evs: Seq<Event>) -> Seq<EventView> {
    evs.map_values(|e: Event| e@)
}

/// Why an operation was refused. A refused operation changes nothing.
#[derive(Clone, Copy, Debug, PartialEq, Eq, Structural)]
pub enum Error {
    /// No value where one was required.
    NoneValue,
    /// An identity has used every post id there is.
    StorageOverflow,
    /// No identity is registered under the name.
    UserNotFound,
    /// The password does not match the stored digest.
    InvalidCredentials,
    /// The name is already registered.
    NameAlreadyTaken,
    /// The post content is longer than allowed.
    TweetTooLong,
    /// The caller does not own the name.
    NotAuthorized,
    /// The birth date lies outside the accepted ranges.
    InvalidBirthday,
    /// The caller already owns an identity.
    InvalidCaller,
    /// No live post has the id.
    TweetNotFound,
}

} // verus!
