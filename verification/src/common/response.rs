//! What a handled message answers: messages for the chain, attributes,
//! events and data.

use vstd::prelude::*;
use crate::common::messages::{ProvMsg, msgs_model};
use crate::common::collateral::LoanPoolMarkers;

verus! {

/// A key with a value.
#[derive(Debug, PartialEq, Eq)]
pub struct Attribute {
    pub key: String,
    pub value: String,
}

impl View for Attribute {
    type V = (Seq<char>, Seq<char>);

    open spec fn view(&self) -> (Seq<char>, Seq<char>) {
        (self.key@, self.value@)
    }
}

impl Attribute {
    /// An attribute from a key and a value.
    pub fn new(key: &str, value: &str) -> (a: Self)
        ensures
            a@ == (key@, value@),
    {
        Attribute { key: key.to_owned(), value: value.to_owned() }
    }
}

/// The attributes of a list, each as a pair.
pub open spec fn attrs_model(s: Seq<Attribute>) -> Seq<(Seq<char>, Seq<char>)> {
    s.map_values(|a: Attribute| a@)
}

/// A typed event with attributes.
#[derive(Debug, PartialEq, Eq)]
pub struct Event {
    pub ty: String,
    pub attributes: Vec<Attribute>,
}

pub struct EventModel {
    pub ty: Seq<char>,
    pub attributes: Seq<(Seq<char>, Seq<char>)>,
}

impl View for Event {
    type V = EventModel;

    open spec fn view(&self) -> EventModel {
        EventModel { ty: self.ty@, attributes: attrs_model(self.attributes@) }
    }
}

impl Event {
    /// An event of a type with one attribute.
    pub fn with_attribute(ty: &str, key: &str, value: &str) -> (e: Self)
        ensures
            e@ == (EventModel { ty: ty@, attributes: seq![(key@, value@)] }),
    {
        let mut attributes = Vec::new();
        attributes.push(Attribute::new(key, value));
        let e = Event { ty: ty.to_owned(), attributes };
        assert(attrs_model(e.attributes@) =~= seq![(key@, value@)]);
        e
    }
}

/// The events of a list, each as a model.
pub open spec fn events_model(s: Seq<Event>) -> Seq<EventModel> {
    s.map_values(|e: Event| e@)
}

/// The answer to a handled message.
#[derive(Debug, PartialEq, Eq)]
pub struct Response {
    pub messages: Vec<ProvMsg>,
    pub attributes: Vec<Attribute>,
    pub events: Vec<Event>,
    pub data: Option<LoanPoolMarkers>,
}

impl Response {
    /// An answer with nothing in it.
    pub fn new() -> (r: Self)
        ensures
            r.messages@.len() == 0,
            r.attributes@.len() == 0,
            r.events@.len() == 0,
            r.data is None,
    {
        Response { messages: Vec::new(), attributes: Vec::new(), events: Vec::new(), data: None }
    }

    /// Adds an attribute at the end.
    pub fn add_attribute(&mut self, key: &str, value: &str)
        ensures
            attrs_model(final(self).attributes@) == attrs_model(old(self).attributes@).push((key@, value@)),
            final(self).messages == old(self).messages,
            final(self).events == old(self).events,
            final(self).data == old(self).data,
    {
        self.attributes.push(Attribute::new(key, value));
        assert(attrs_model(self.attributes@) =~= attrs_model(old(self).attributes@).push((key@, value@)));
    }

    /// Adds an event at the end.
    pub fn add_event(&mut self, event: Event)
        ensures
            events_model(final(self).events@) == events_model(old(self).events@).push(event@),
            final(self).messages == old(self).messages,
            final(self).attributes == old(self).attributes,
            final(self).data == old(self).data,
    {
        let ghost e = event@;
        self.events.push(event);
        assert(events_model(self.events@) =~= events_model(old(self).events@).push(e));
    }

    /// Adds events at the end.
    pub fn add_events(&mut self, events: Vec<Event>)
        ensures
            events_model(final(self).events@) == events_model(old(self).events@) + events_model(events@),
            final(self).messages == old(self).messages,
            final(self).attributes == old(self).attributes,
            final(self).data == old(self).data,
    {
        let mut events = events;
        let ghost added = events_model(events@);
        self.events.append(&mut events);
        assert(events_model(self.events@) =~= events_model(old(self).events@) + added);
    }

    /// Adds messages at the end.
    pub fn add_messages(&mut self, messages: Vec<ProvMsg>)
        ensures
            msgs_model(final(self).messages@) == msgs_model(old(self).messages@) + msgs_model(messages@),
            final(self).attributes == old(self).attributes,
            final(self).events == old(self).events,
            final(self).data == old(self).data,
    {
        let mut messages = messages;
        let ghost added = msgs_model(messages@);
        self.messages.append(&mut messages);
        assert(msgs_model(self.messages@) =~= msgs_model(old(self).messages@) + added);
    }
}

} // verus!
