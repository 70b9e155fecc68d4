//! When the answer of a service is a yes.
use crate::services;
use crate::services::ServiceReply;
use vstd::prelude::*;

verus! {

/// The statuses of success are the two hundreds.
pub proof fn law_success_is_the_two_hundreds(status: u16)
    ensures
        services::success_status(status) <==> status as int / 100 == 2,
{
}

/// A service says yes with an answer, a status of success and a body that is JSON; without any one of
/// these it says no.
pub proof fn law_what_is_a_yes(reply: ServiceReply)
    ensures
        services::grants(reply) <==> {
            &&& reply is Answer
            &&& reply->status as int / 100 == 2
            &&& reply->body is Some
            &&& services::is_json(reply->body->Some_0@)
        },
{
}

} // verus!
