//! What a service receives, and how it answers.

use crate::buffer::{content, copy_from_slice};
use crate::ids::{ApplicationError, EventgroupId, MethodId};
use crate::message::{ChannelId, ClientInfo, Reply, ReplyView, ServiceRequest, ServiceRequestView};
use vstd::prelude::*;

verus! {

/// What an offered service receives.
pub enum ServiceEvent {
    /// A method was called.
    Call {
        /// The method.
        method: MethodId,
        /// The payload.
        payload: bytes::Bytes,
        /// The client.
        client: ClientInfo,
        /// How to answer.
        responder: Responder,
    },
    /// A method was called that expects no answer.
    FireForget {
        /// The method.
        method: MethodId,
        /// The payload.
        payload: bytes::Bytes,
        /// The client.
        client: ClientInfo,
    },
    /// A client has subscribed.
    Subscribe {
        /// The eventgroup.
        eventgroup: EventgroupId,
        /// The client.
        client: ClientInfo,
    },
    /// A client has unsubscribed.
    Unsubscribe {
        /// The eventgroup.
        eventgroup: EventgroupId,
        /// The client.
        client: ClientInfo,
    },
}

/// What a [`ServiceEvent`] says.
pub enum ServiceEventView {
    /// A method was called.
    Call {
        /// The method.
        method: u16,
        /// The payload.
        payload: Seq<u8>,
        /// The client.
        client: ClientInfo,
        /// Where the answer goes.
        response: Option<ChannelId>,
    },
    /// A method was called that expects no answer.
    FireForget {
        /// The method.
        method: u16,
        /// The payload.
        payload: Seq<u8>,
        /// The client.
        client: ClientInfo,
    },
    /// A client has subscribed.
    Subscribe {
        /// The eventgroup.
        eventgroup: u16,
        /// The client.
        client: ClientInfo,
    },
    /// A client has unsubscribed.
    Unsubscribe {
        /// The eventgroup.
        eventgroup: u16,
        /// The client.
        client: ClientInfo,
    },
}

impl View for ServiceEvent {
    type V = ServiceEventView;

    open spec fn view(&self) -> ServiceEventView {
        match *self {
            ServiceEvent::Call { method, payload, client, responder } => ServiceEventView::Call {
                method: method@,
                payload: content(payload),
                client,
                response: responder.response,
            },
            ServiceEvent::FireForget { method, payload, client } =>
                ServiceEventView::FireForget { method: method@, payload: content(payload), client },
            ServiceEvent::Subscribe { eventgroup, client } => ServiceEventView::Subscribe {
                eventgroup: eventgroup@,
                client,
            },
            ServiceEvent::Unsubscribe { eventgroup, client } => ServiceEventView::Unsubscribe {
                eventgroup: eventgroup@,
                client,
            },
        }
    }
}

/// What a service receives of a request: nothing where the identifier is reserved.
pub open spec fn event_of(request: ServiceRequestView) -> Option<ServiceEventView> {
    match request {
        ServiceRequestView::MethodCall { method_id, payload, client, transport, response } =>
            if MethodId::allowed(method_id) {
                Some(
                    ServiceEventView::Call {
                        method: method_id,
                        payload,
                        client: ClientInfo { address: client, transport },
                        response: Some(response),
                    },
                )
            } else {
                None
            },
        ServiceRequestView::FireForget { method_id, payload, client, transport } =>
            if MethodId::allowed(method_id) {
                Some(
                    ServiceEventView::FireForget {
                        method: method_id,
                        payload,
                        client: ClientInfo { address: client, transport },
                    },
                )
            } else {
                None
            },
        ServiceRequestView::Subscribe { eventgroup_id, client, transport } =>
            if EventgroupId::allowed(eventgroup_id) {
                Some(
                    ServiceEventView::Subscribe {
                        eventgroup: eventgroup_id,
                        client: ClientInfo { address: client, transport },
                    },
                )
            } else {
                None
            },
        ServiceRequestView::Unsubscribe { eventgroup_id, client, transport } =>
            if EventgroupId::allowed(eventgroup_id) {
                Some(
                    ServiceEventView::Unsubscribe {
                        eventgroup: eventgroup_id,
                        client: ClientInfo { address: client, transport },
                    },
                )
            } else {
                None
            },
    }
}

/// What a service receives of a request; `None` where the request is to be skipped because
/// its identifier is reserved.
pub fn receive_service_event(request: ServiceRequest) -> (r: Option<ServiceEvent>)
    ensures
        match r {
            Some(event) => event_of(request@) == Some(event@),
            None => event_of(request@) is None,
        },
{
    match request {
        ServiceRequest::MethodCall { method_id, payload, client, transport, response } =>
            match MethodId::new(method_id) {
                Some(method) => Some(
                    ServiceEvent::Call {
                        method,
                        payload,
                        client: ClientInfo { address: client, transport },
                        responder: Responder { response: Some(response) },
                    },
                ),
                None => None,
            },
        ServiceRequest::FireForget { method_id, payload, client, transport } =>
            match MethodId::new(method_id) {
                Some(method) => Some(
                    ServiceEvent::FireForget {
                        method,
                        payload,
                        client: ClientInfo { address: client, transport },
                    },
                ),
                None => None,
            },
        ServiceRequest::Subscribe { eventgroup_id, client, transport } =>
            match EventgroupId::new(eventgroup_id) {
                Some(eventgroup) => Some(
                    ServiceEvent::Subscribe {
                        eventgroup,
                        client: ClientInfo { address: client, transport },
                    },
                ),
                None => None,
            },
        ServiceRequest::Unsubscribe { eventgroup_id, client, transport } =>
            match EventgroupId::new(eventgroup_id) {
                Some(eventgroup) => Some(
                    ServiceEvent::Unsubscribe {
                        eventgroup,
                        client: ClientInfo { address: client, transport },
                    },
                ),
                None => None,
            },
    }
}

/// An answer on its way to the runtime.
pub struct Answer {
    /// Where it goes.
    pub to: ChannelId,
    /// The answer.
    pub reply: Reply,
}

/// How to answer a method call; it is used up by the answer.
pub struct Responder {
    /// Where the answer goes.
    pub response: Option<ChannelId>,
}

impl Responder {
    /// Answers with a payload.
    pub fn reply(self, payload: &[u8]) -> (r: Option<Answer>)
        ensures
            r is Some <==> self.response is Some,
            r matches Some(a) ==> {
                &&& self.response == Some(a.to)
                &&& a.reply@ == ReplyView::Payload(payload@)
            },
    {
        match self.response {
            Some(to) => Some(Answer { to, reply: Reply::Payload(copy_from_slice(payload)) }),
            None => None,
        }
    }

    /// Answers with an error, whose code is sent to the client.
    pub fn reply_error(self, error: ApplicationError) -> (r: Option<Answer>)
        ensures
            r is Some <==> self.response is Some,
            r matches Some(a) ==> {
                &&& self.response == Some(a.to)
                &&& a.reply@ == ReplyView::Refused(error)
            },
    {
        match self.response {
            Some(to) => Some(Answer { to, reply: Reply::Refused(error) }),
            None => None,
        }
    }
}

} // verus!
