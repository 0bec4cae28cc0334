//! The client side of the session protocol, as a state machine: the owner
//! sends a request to `last_leader`, hands the reply (or `None` where the
//! transport failed) to `on_execute_reply` or `on_register_reply`, and does
//! what the returned step says.

use vstd::prelude::*;

use crate::codec::{
    decode_response, decode_status, response_spec, status_spec, DecodeError, RpcStatus,
};

verus! {

/// A server's answer to a Register call.
#[derive(Clone, Debug)]
pub struct RegistrationReply {
    pub status: Vec<u8>,
    pub session_id: u64,
    pub leader_hint: u64,
}

/// A server's answer to an Execute call.
#[derive(Clone, Debug)]
pub struct ExecutionReply {
    pub status: Vec<u8>,
    pub response: Vec<u8>,
    pub leader_hint: u64,
}

/// A failure that ends an operation of the client.
#[derive(Clone, Copy, Debug, PartialEq, Eq, Structural)]
pub enum ClientError {
    /// A status or response payload did not decode.
    Decode,
    /// A Register call was answered with `SessionExpired`.
    SessionExpiredOnRegister,
    /// A reply named a leader outside the cluster.
    BadLeaderHint,
}

/// What the owner does after an Execute reply.
#[derive(Clone, Debug)]
pub enum ExecuteStep {
    /// Send the same request again to `last_leader`.
    Retry,
    /// Register a new session, then send the operation again.
    Register,
    /// The operation was applied; this is its response.
    Done(Vec<u8>),
    /// The operation failed for good.
    Failed(ClientError),
}

/// What the owner does after a Register reply.
#[derive(Clone, Copy, Debug, PartialEq, Eq, Structural)]
pub enum RegisterStep {
    /// Send the Register call again to `last_leader`.
    Retry,
    /// The new session is in place.
    Registered,
    /// Registration failed for good.
    Failed(ClientError),
}

/// A client of a cluster of `num_servers` servers.
#[derive(Clone, Copy, Debug, PartialEq, Eq, Structural)]
pub struct KvClient {
    pub num_servers: u64,
    pub session_id: u64,
    pub sequence_number: u64,
    pub last_leader: u64,
}

/// The client after an Execute reply (`None`: the transport failed).
pub open spec fn after_execute(c: KvClient, reply: Option<ExecutionReply>) -> KvClient {
    match reply {
        None => c,
        Some(rep) => if rep.leader_hint >= c.num_servers {
            c
        } else if status_spec(rep.status@) == Some(RpcStatus::Success) {
            KvClient {
                last_leader: rep.leader_hint,
                sequence_number: (c.sequence_number + 1) as u64,
                ..c
            }
        } else {
            KvClient { last_leader: rep.leader_hint, ..c }
        },
    }
}

/// The step that follows an Execute reply.
pub open spec fn execute_step_ok(c: KvClient, reply: Option<ExecutionReply>, r: ExecuteStep) -> bool {
    match reply {
        None => r is Retry,
        Some(rep) => if rep.leader_hint >= c.num_servers {
            r == ExecuteStep::Failed(ClientError::BadLeaderHint)
        } else {
            match status_spec(rep.status@) {
                None => r == ExecuteStep::Failed(ClientError::Decode),
                Some(RpcStatus::Success) => match response_spec(rep.response@) {
                    Some(v) => r matches ExecuteStep::Done(out) && out@ == v,
                    None => r == ExecuteStep::Failed(ClientError::Decode),
                },
                Some(RpcStatus::NotLeader) => r is Retry,
                Some(RpcStatus::SessionExpired) => r is Register,
            }
        },
    }
}

/// The client after a Register reply (`None`: the transport failed).
pub open spec fn after_register(c: KvClient, reply: Option<RegistrationReply>) -> KvClient {
    match reply {
        None => c,
        Some(rep) => if rep.leader_hint >= c.num_servers {
            c
        } else if status_spec(rep.status@) == Some(RpcStatus::Success) {
            KvClient {
                last_leader: rep.leader_hint,
                session_id: rep.session_id,
                sequence_number: 0,
                ..c
            }
        } else {
            KvClient { last_leader: rep.leader_hint, ..c }
        },
    }
}

/// The step that follows a Register reply.
pub open spec fn register_step(c: KvClient, reply: Option<RegistrationReply>) -> RegisterStep {
    match reply {
        None => RegisterStep::Retry,
        Some(rep) => if rep.leader_hint >= c.num_servers {
            RegisterStep::Failed(ClientError::BadLeaderHint)
        } else {
            match status_spec(rep.status@) {
                None => RegisterStep::Failed(ClientError::Decode),
                Some(RpcStatus::Success) => RegisterStep::Registered,
                Some(RpcStatus::NotLeader) => RegisterStep::Retry,
                Some(RpcStatus::SessionExpired) => RegisterStep::Failed(
                    ClientError::SessionExpiredOnRegister,
                ),
            }
        },
    }
}

impl KvClient {
    /// The client's invariant: the leader hint names a server.
    pub open spec fn wf(&self) -> bool {
        self.last_leader < self.num_servers
    }

    /// A client of `num_servers` servers, with no session yet, that first
    /// addresses server 0.
    pub fn new(num_servers: u64) -> (r: KvClient)
        requires
            num_servers > 0,
        ensures
            r.wf(),
            r == (KvClient { num_servers, session_id: 0, sequence_number: 1, last_leader: 0 }),
    {
        KvClient { num_servers, session_id: 0, sequence_number: 1, last_leader: 0 }
    }

    /// Takes in the reply to an Execute call carrying `session_id`,
    /// `sequence_number` and the operation, sent to `last_leader`. The
    /// sequence number advances on success only; a redirect or a transport
    /// failure retries the same request, and an expired session asks for a
    /// new registration.
    pub fn on_execute_reply(&mut self, reply: Option<ExecutionReply>) -> (r: ExecuteStep)
        requires
            old(self).wf(),
            old(self).sequence_number < u64::MAX,
        ensures
            final(self).wf(),
            *final(self) == after_execute(*old(self), reply),
            execute_step_ok(*old(self), reply, r),
    {
        match reply {
            None => ExecuteStep::Retry,
            Some(rep) => {
                if rep.leader_hint >= self.num_servers {
                    return ExecuteStep::Failed(ClientError::BadLeaderHint);
                }
                self.last_leader = rep.leader_hint;
                match decode_status(rep.status.as_slice()) {
                    Err(DecodeError::Malformed) => ExecuteStep::Failed(ClientError::Decode),
                    Ok(RpcStatus::Success) => {
                        self.sequence_number = self.sequence_number + 1;
                        match decode_response(rep.response.as_slice()) {
                            Ok(v) => ExecuteStep::Done(v),
                            Err(DecodeError::Malformed) => ExecuteStep::Failed(ClientError::Decode),
                        }
                    },
                    Ok(RpcStatus::NotLeader) => ExecuteStep::Retry,
                    Ok(RpcStatus::SessionExpired) => ExecuteStep::Register,
                }
            },
        }
    }

    /// Takes in the reply to a Register call sent to `last_leader`. On
    /// success the new session starts at sequence number 0; a redirect or a
    /// transport failure retries.
    pub fn on_register_reply(&mut self, reply: Option<RegistrationReply>) -> (r: RegisterStep)
        requires
            old(self).wf(),
        ensures
            final(self).wf(),
            *final(self) == after_register(*old(self), reply),
            r == register_step(*old(self), reply),
    {
        match reply {
            None => RegisterStep::Retry,
            Some(rep) => {
                if rep.leader_hint >= self.num_servers {
                    return RegisterStep::Failed(ClientError::BadLeaderHint);
                }
                self.last_leader = rep.leader_hint;
                match decode_status(rep.status.as_slice()) {
                    Err(DecodeError::Malformed) => RegisterStep::Failed(ClientError::Decode),
                    Ok(RpcStatus::Success) => {
                        self.session_id = rep.session_id;
                        self.sequence_number = 0;
                        RegisterStep::Registered
                    },
                    Ok(RpcStatus::NotLeader) => RegisterStep::Retry,
                    Ok(RpcStatus::SessionExpired) => RegisterStep::Failed(
                        ClientError::SessionExpiredOnRegister,
                    ),
                }
            },
        }
    }
}

/// The client after taking in `replies` in order.
pub open spec fn run_execute(c: KvClient, replies: Seq<Option<ExecutionReply>>) -> KvClient
    decreases replies.len(),
{
    if replies.len() == 0 {
        c
    } else {
        run_execute(after_execute(c, replies[0]), replies.subrange(1, replies.len() as int))
    }
}

/// Whether `reply` is a transport failure or a redirect to a server of the
/// cluster.
pub open spec fn is_retry(num_servers: u64, reply: Option<ExecutionReply>) -> bool {
    match reply {
        None => true,
        Some(rep) => rep.leader_hint < num_servers && status_spec(rep.status@) == Some(
            RpcStatus::NotLeader,
        ),
    }
}

/// Exactly once under retry. Transport failures and redirects, followed by
/// one successful reply, leave the session as it was and advance its
/// sequence number by exactly one; each of the retries keeps it.
pub proof fn lemma_exactly_once_under_retry(
    c: KvClient,
    retries: Seq<Option<ExecutionReply>>,
    success: ExecutionReply,
)
    requires
        c.wf(),
        forall|i: int| 0 <= i < retries.len() ==> is_retry(c.num_servers, #[trigger] retries[i]),
        success.leader_hint < c.num_servers,
        status_spec(success.status@) == Some(RpcStatus::Success),
        c.sequence_number < u64::MAX,
    ensures
        run_execute(c, retries.push(Some(success))).sequence_number == c.sequence_number + 1,
        run_execute(c, retries.push(Some(success))).session_id == c.session_id,
        run_execute(c, retries).sequence_number == c.sequence_number,
    decreases retries.len(),
{
    if retries.len() > 0 {
        let c1 = after_execute(c, retries[0]);
        let rest = retries.subrange(1, retries.len() as int);
        assert(retries.push(Some(success)).subrange(1, retries.len() + 1 as int) =~= rest.push(
            Some(success),
        ));
        assert forall|i: int| 0 <= i < rest.len() implies is_retry(
            c1.num_servers,
            #[trigger] rest[i],
        ) by {
            assert(rest[i] == retries[i + 1]);
        }
        lemma_exactly_once_under_retry(c1, rest, success);
        assert(retries.push(Some(success))[0] == retries[0]);
    } else {
        let one = retries.push(Some(success));
        assert(one.subrange(1, 1) =~= Seq::<Option<ExecutionReply>>::empty());
        assert(run_execute(c, one) == run_execute(
            after_execute(c, Some(success)),
            one.subrange(1, 1),
        ));
    }
}

/// Session renewal. An Execute answered with `SessionExpired` asks for one
/// registration; once it succeeds the session is the new one at sequence
/// number 0, and the operation sent again under it advances that number to 1.
pub proof fn lemma_session_renewal(
    c: KvClient,
    expired: ExecutionReply,
    registered: RegistrationReply,
    success: ExecutionReply,
)
    requires
        c.wf(),
        expired.leader_hint < c.num_servers,
        registered.leader_hint < c.num_servers,
        success.leader_hint < c.num_servers,
        status_spec(expired.status@) == Some(RpcStatus::SessionExpired),
        status_spec(registered.status@) == Some(RpcStatus::Success),
        status_spec(success.status@) == Some(RpcStatus::Success),
    ensures
        execute_step_ok(c, Some(expired), ExecuteStep::Register),
        !execute_step_ok(c, Some(expired), ExecuteStep::Retry),
        after_execute(c, Some(expired)).session_id == c.session_id,
        after_execute(c, Some(expired)).sequence_number == c.sequence_number,
        register_step(after_execute(c, Some(expired)), Some(registered))
            == RegisterStep::Registered,
        after_register(after_execute(c, Some(expired)), Some(registered)).session_id
            == registered.session_id,
        after_register(after_execute(c, Some(expired)), Some(registered)).sequence_number == 0,
        after_execute(
            after_register(after_execute(c, Some(expired)), Some(registered)),
            Some(success),
        ).session_id == registered.session_id,
        after_execute(
            after_register(after_execute(c, Some(expired)), Some(registered)),
            Some(success),
        ).sequence_number == 1,
{
}

} // verus!
