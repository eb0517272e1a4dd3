//! Messages: the data every message carries, events, metrics, and the
//! message that a transaction, an event or a metric becomes.
use vstd::prelude::*;
use crate::consts;
use crate::transaction::DefaultTransaction;

verus! {

/// What every message carries.
pub struct MessageData {
    pub m_type: String,
    pub name: String,
    pub status: &'static str,
    pub data: Vec<u8>,
    /// Creation time, in milliseconds since the Unix epoch.
    pub time: i64,
}

impl MessageData {
    /// A message of the given type and name, created at `time`, with status
    /// success and no data.
    pub fn new(message_type: String, name: String, time: i64) -> (r: Self)
        ensures
            r.m_type == message_type,
            r.name == name,
            r.status == consts::CAT_SUCCESS,
            r.data@ == Seq::<u8>::empty(),
            r.time == time,
    {
        MessageData { m_type: message_type, name, status: consts::CAT_SUCCESS, data: Vec::new(), time }
    }

    pub fn get_type(&self) -> (r: &String)
        ensures
            r == self.m_type,
    {
        &self.m_type
    }

    pub fn get_name(&self) -> (r: &String)
        ensures
            r == self.name,
    {
        &self.name
    }

    pub fn get_status(&self) -> (r: &'static str)
        ensures
            r == self.status,
    {
        self.status
    }

    pub fn get_data(&self) -> (r: &Vec<u8>)
        ensures
            r@ == self.data@,
    {
        &self.data
    }

    pub fn get_time(&self) -> (r: i64)
        ensures
            r == self.time,
    {
        self.time
    }

    /// Replaces the data.
    pub fn set_data(&mut self, data: Vec<u8>)
        ensures
            final(self).data@ == data@,
            final(self).m_type == old(self).m_type,
            final(self).name == old(self).name,
            final(self).status == old(self).status,
            final(self).time == old(self).time,
    {
        self.data = data;
    }

    /// Replaces the status.
    pub fn set_status(&mut self, status: &'static str)
        ensures
            final(self).status == status,
            final(self).data@ == old(self).data@,
            final(self).m_type == old(self).m_type,
            final(self).name == old(self).name,
            final(self).time == old(self).time,
    {
        self.status = status;
    }
}

/// Whether `status` is the status of success.
pub fn status_is_success(status: &str) -> (r: bool)
    ensures
        r == (status@ == consts::CAT_SUCCESS@),
{
    crate::text::str_eq(status, consts::CAT_SUCCESS)
}

/// Something that happened at one point in time.
pub struct Event {
    message_data: MessageData,
}

impl View for Event {
    type V = MessageData;

    closed spec fn view(&self) -> MessageData {
        self.message_data
    }
}

impl Event {
    pub fn new(message_type: String, name: String, time: i64) -> (r: Self)
        ensures
            r@.m_type == message_type,
            r@.name == name,
            r@.status == consts::CAT_SUCCESS,
            r@.data@ == Seq::<u8>::empty(),
            r@.time == time,
    {
        Event { message_data: MessageData::new(message_type, name, time) }
    }

    /// An event built from the data it carries.
    pub fn from_data(message_data: MessageData) -> (r: Self)
        ensures
            r@ == message_data,
    {
        Event { message_data }
    }

    pub fn message_data(&self) -> (r: &MessageData)
        ensures
            *r == self@,
    {
        &self.message_data
    }

    pub fn get_type(&self) -> (r: &String)
        ensures
            r == self@.m_type,
    {
        self.message_data.get_type()
    }

    pub fn get_name(&self) -> (r: &String)
        ensures
            r == self@.name,
    {
        self.message_data.get_name()
    }

    pub fn get_status(&self) -> (r: &'static str)
        ensures
            r == self@.status,
    {
        self.message_data.get_status()
    }

    pub fn get_data(&self) -> (r: &Vec<u8>)
        ensures
            r@ == self@.data@,
    {
        self.message_data.get_data()
    }

    pub fn get_time(&self) -> (r: i64)
        ensures
            r == self@.time,
    {
        self.message_data.get_time()
    }
}

/// A measured value.
pub struct Metric {
    message_data: MessageData,
}

impl View for Metric {
    type V = MessageData;

    closed spec fn view(&self) -> MessageData {
        self.message_data
    }
}

impl Metric {
    pub fn new(message_type: String, name: String, time: i64) -> (r: Self)
        ensures
            r@.m_type == message_type,
            r@.name == name,
            r@.status == consts::CAT_SUCCESS,
            r@.data@ == Seq::<u8>::empty(),
            r@.time == time,
    {
        Metric { message_data: MessageData::new(message_type, name, time) }
    }

    pub fn message_data(&self) -> (r: &MessageData)
        ensures
            *r == self@,
    {
        &self.message_data
    }

    pub fn get_type(&self) -> (r: &String)
        ensures
            r == self@.m_type,
    {
        self.message_data.get_type()
    }

    pub fn get_name(&self) -> (r: &String)
        ensures
            r == self@.name,
    {
        self.message_data.get_name()
    }

    pub fn get_status(&self) -> (r: &'static str)
        ensures
            r == self@.status,
    {
        self.message_data.get_status()
    }

    pub fn get_data(&self) -> (r: &Vec<u8>)
        ensures
            r@ == self@.data@,
    {
        self.message_data.get_data()
    }

    pub fn get_time(&self) -> (r: i64)
        ensures
            r == self@.time,
    {
        self.message_data.get_time()
    }
}

/// A message of any kind.
pub enum Message {
    Transaction(Box<DefaultTransaction>),
    Event(Event),
    Metric(Metric),
}

} // verus!
