//! The subscription: the one request sent on a freshly opened connection.

use vstd::prelude::*;
use vstd::string::StringExecFns;

verus! {

/// The text of the request frame for a subscription identifier and a
/// filter: a three-element array of the verb, the identifier in quotes, and
/// the filter as it stands.
pub open spec fn request_text(id: Seq<char>, filter: Seq<char>) -> Seq<char> {
    "[\"REQ\", \""@ + id + "\", "@ + filter + "]"@
}

/// A subscription identifier and a filter expression. The filter is opaque
/// structured text: it is sent as it is.
#[derive(Debug, Clone, PartialEq, Eq)]
pub struct Subscription {
    id: String,
    filter: String,
}

/// What a subscription is, for contracts.
pub struct SubscriptionView {
    pub id: Seq<char>,
    pub filter: Seq<char>,
}

impl View for Subscription {
    type V = SubscriptionView;

    closed spec fn view(&self) -> SubscriptionView {
        SubscriptionView { id: self.id@, filter: self.filter@ }
    }
}

impl Subscription {
    pub fn new(id: &str, filter: &str) -> (subscription: Subscription)
        ensures
            subscription@.id == id@,
            subscription@.filter == filter@,
    {
        Subscription { id: String::from_str(id), filter: String::from_str(filter) }
    }

    /// The subscription that asks for text notes as they are published,
    /// and for none from the past.
    pub fn text_notes() -> (subscription: Subscription)
        ensures
            subscription@.id == "sub1"@,
            subscription@.filter == "{\"kinds\":[1], \"limit\":0}"@,
    {
        Subscription::new("sub1", "{\"kinds\":[1], \"limit\":0}")
    }

    pub fn id(&self) -> (id: &str)
        ensures
            id@ == self@.id,
    {
        self.id.as_str()
    }

    pub fn filter(&self) -> (filter: &str)
        ensures
            filter@ == self@.filter,
    {
        self.filter.as_str()
    }

    /// The request frame to send.
    pub fn request(&self) -> (text: String)
        ensures
            text@ == request_text(self@.id, self@.filter),
    {
        let mut text = String::from_str("[\"REQ\", \"");
        text.append(self.id.as_str());
        text.append("\", ");
        text.append(self.filter.as_str());
        text.append("]");
        text
    }
}

} // verus!
